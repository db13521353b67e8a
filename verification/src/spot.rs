//! The spotlight: highlighting of a user-supplied pattern inside rendered
//! fields.
//!
//! The pattern is an arbitrary regular expression given on the command
//! line, so matching it is delegated to the `regex` crate.  The library
//! wraps the user's text as `(pattern)`, giving exactly one capturing
//! group, compiles it once, and rewrites each field by replacing every
//! non-overlapping match with `<spotlight style>$1<resuming style>`.
//!
//! What the rewrite returns is a pure function of the pattern text, the
//! haystack and the replacement, but far too large to state; it is named
//! by the uninterpreted functions below, and every contract above this
//! module speaks through those names.
use vstd::prelude::*;

verus! {

#[verifier::external_type_specification]
#[verifier::external_body]
pub struct ExRegex(regex::Regex);

/// Whether `regex::Regex::new` accepts `pat` as a pattern.  Compilation is
/// a deterministic function of the pattern text.
pub uninterp spec fn regex_accepts(pat: Seq<char>) -> bool;

/// What `regex::Regex::replace_all` returns on haystack `hay` for the
/// regex compiled from `pat`, with replacement text `rep`: every
/// non-overlapping match of the pattern is replaced by `rep`, with `$1`
/// standing for the first capture group.  A deterministic function of its
/// three arguments.
pub uninterp spec fn spot_rewrite(pat: Seq<char>, hay: Seq<char>, rep: Seq<char>) -> Seq<char>;

/// A compiled spotlight pattern.  `pattern` records the exact text that
/// `re` was compiled from; both fields are set only by `compile`, which
/// keeps them in step.
pub struct Spotlight {
    re: regex::Regex,
    pattern: String,
}

impl Spotlight {
    /// The pattern text this spotlight was compiled from.
    pub closed spec fn pat(&self) -> Seq<char> {
        self.pattern@
    }

    /// Relies on regex::Regex::new: it accepts or rejects a pattern text
    /// deterministically, and the compiled value is stored beside the text
    /// it came from.
    #[verifier::external_body]
    fn compile(pattern: &str) -> (r: Option<Spotlight>)
        ensures
            r is Some <==> regex_accepts(pattern@),
            r matches Some(sp) ==> sp.pat() == pattern@,
    {
        match regex::Regex::new(pattern) {
            Ok(re) => Some(Spotlight { re, pattern: pattern.to_owned() }),
            Err(_) => None,
        }
    }

    /// Relies on regex::Regex::replace_all: it replaces every
    /// non-overlapping match, deterministically in the pattern text (which
    /// `self.re` was compiled from), the haystack and the replacement.
    #[verifier::external_body]
    pub(crate) fn replace_all(&self, hay: &str, rep: &str) -> (r: String)
        ensures
            r@ == spot_rewrite(self.pat(), hay@, rep@),
    {
        self.re.replace_all(hay, rep).into_owned()
    }

    /// The pattern text the user supplied, wrapped as `(pattern)` to give
    /// exactly one capturing group.
    pub open spec fn wrapped(user: Seq<char>) -> Seq<char> {
        seq!['('] + user + seq![')']
    }

    /// Wraps the user's pattern text in a single capturing group and
    /// compiles it.  `None` when the text is not a valid pattern: the
    /// caller then degrades to no highlighting.
    pub fn from_user_pattern(user: &str) -> (r: Option<Spotlight>)
        ensures
            r is Some <==> regex_accepts(Self::wrapped(user@)),
            r matches Some(sp) ==> sp.pat() == Self::wrapped(user@),
    {
        let mut w: String = String::from_str("(");
        w.append(user);
        w.append(")");
        proof {
            reveal_strlit("(");
            reveal_strlit(")");
            assert(w@ =~= Self::wrapped(user@));
        }
        Spotlight::compile(w.as_str())
    }
}

} // verus!
