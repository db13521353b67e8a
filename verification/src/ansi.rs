//! Terminal styling codes: an immutable escape sequence built once from an
//! attribute, a background and a foreground parameter.
use vstd::prelude::*;

verus! {

/// The character sequence `ESC [ attr ; bg ; fg m`.
pub open spec fn esc_of(attr: Seq<char>, bg: Seq<char>, fg: Seq<char>) -> Seq<char> {
    seq!['\x1b', '['] + attr + seq![';'] + bg + seq![';'] + fg + seq!['m']
}

/// The neutral sequence that returns the terminal to its default colors.
pub open spec fn reset_esc() -> Seq<char> {
    esc_of("0"@, "49"@, "39"@)
}

/// An immutable terminal styling code; the escape string is formatted once
/// and cached.
#[derive(Clone, Debug)]
pub struct AnsiSeq {
    cached: String,
}

impl View for AnsiSeq {
    type V = Seq<char>;

    closed spec fn view(&self) -> Seq<char> {
        self.cached@
    }
}

impl AnsiSeq {
    /// Builds the sequence `ESC [ attr ; bg ; fg m` from the three numeric
    /// parameter fields, given as text.
    pub fn new(attr: &str, bg: &str, fg: &str) -> (r: AnsiSeq)
        ensures
            r@ == esc_of(attr@, bg@, fg@),
    {
        let mut s: String = String::from_str("\x1b[");
        s.append(attr);
        s.append(";");
        s.append(bg);
        s.append(";");
        s.append(fg);
        s.append("m");
        proof {
            reveal_strlit("\x1b[");
            reveal_strlit(";");
            reveal_strlit("m");
            assert(s@ =~= esc_of(attr@, bg@, fg@));
        }
        AnsiSeq { cached: s }
    }

    /// The cached escape string.
    pub fn as_str(&self) -> (r: &str)
        ensures
            r@ == self@,
    {
        self.cached.as_str()
    }
}

/// The neutral reset sequence, `ESC [ 0 ; 49 ; 39 m`.
pub fn reset() -> (r: AnsiSeq)
    ensures
        r@ == reset_esc(),
{
    AnsiSeq::new("0", "49", "39")
}

} // verus!
