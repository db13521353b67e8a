//! The stream driver: the format lock-in state machine.
//!
//! A session starts unlocked.  The first line that classifies locks its
//! format in; later lines try only that format's matcher (the fast path).
//! When a locked line fails the fast path, the session re-classifies it
//! against all five shapes once: on success the lock moves, on failure the
//! line is unparsed for that line only and the lock is kept (the lock is
//! sticky).  Unparsed lines pass through unchanged, or are dropped when
//! ignore mode is on.
use vstd::prelude::*;
use crate::matchers::{
    classify_and_parse, classify_kind, kind_matches, kind_record, lemma_classify_matches,
    match_kind,
};
use crate::record::{FormatKind, LogcatV};
use crate::render::{render_line, render_spec};
use crate::spot::{regex_accepts, Spotlight};
use crate::theme::{Theme, ThemeV};

verus! {

/// The lock state after one line: an unlocked session locks onto the
/// line's class; a locked session keeps its format while the fast path
/// succeeds, moves to the line's class when re-classification succeeds,
/// and keeps the old lock otherwise.
pub open spec fn step_locked(locked: Option<FormatKind>, s: Seq<char>) -> Option<FormatKind> {
    match locked {
        None => classify_kind(s),
        Some(k) => if kind_matches(k, s) {
            Some(k)
        } else {
            match classify_kind(s) {
                Some(k2) => Some(k2),
                None => Some(k),
            }
        },
    }
}

/// The record one line parses to under the lock-in policy, if any: the
/// locked format's own fields on the fast path, the classified format's
/// fields otherwise.
pub open spec fn step_record(locked: Option<FormatKind>, s: Seq<char>) -> Option<LogcatV> {
    match locked {
        None => match classify_kind(s) {
            Some(k) => Some(kind_record(k, s)),
            None => None,
        },
        Some(k) => if kind_matches(k, s) {
            Some(kind_record(k, s))
        } else {
            match classify_kind(s) {
                Some(k2) => Some(kind_record(k2, s)),
                None => None,
            }
        },
    }
}

/// The output one line produces: the rendered record when it parses, the
/// raw line itself when it does not and ignore mode is off, nothing when
/// it does not and ignore mode is on.
pub open spec fn step_output(
    locked: Option<FormatKind>,
    s: Seq<char>,
    t: ThemeV,
    spot: Option<Seq<char>>,
    ignore: bool,
) -> Option<Seq<char>> {
    match step_record(locked, s) {
        Some(rec) => Some(render_spec(rec, t, spot)),
        None => if ignore {
            None
        } else {
            Some(s)
        },
    }
}

/// One line-processing session: the theme, the optional spotlight, the
/// ignore policy, and the mutable lock-in cell.
pub struct Session {
    pub theme: Theme,
    pub spot: Option<Spotlight>,
    pub ignore: bool,
    pub locked: Option<FormatKind>,
}

impl Session {
    /// The pattern text of the session's spotlight, if one is set.
    pub open spec fn spot_pat(&self) -> Option<Seq<char>> {
        match self.spot {
            Some(sp) => Some(sp.pat()),
            None => None,
        }
    }

    /// A fresh, unlocked session.  A spotlight pattern that does not
    /// compile degrades silently to no highlighting.
    pub fn new(theme: Theme, spotlight: Option<&str>, ignore: bool) -> (s: Session)
        ensures
            s.theme == theme,
            s.ignore == ignore,
            s.locked is None,
            match spotlight {
                None => s.spot_pat() is None,
                Some(p) => {
                    &&& s.spot_pat() is Some <==> regex_accepts(Spotlight::wrapped(p@))
                    &&& s.spot_pat() matches Some(q) ==> q == Spotlight::wrapped(p@)
                },
            },
    {
        let spot: Option<Spotlight> = match spotlight {
            Some(p) => Spotlight::from_user_pattern(p),
            None => None,
        };
        Session { theme, spot, ignore, locked: None }
    }

    /// Processes one line: classifies or fast-path-parses it, renders it
    /// on success, applies the ignore policy on failure, and updates the
    /// lock as the lock-in policy says.  Everything but the lock cell is
    /// unchanged.
    pub fn process_line(&mut self, line: &str) -> (out: Option<String>)
        ensures
            final(self).theme == old(self).theme,
            final(self).spot == old(self).spot,
            final(self).ignore == old(self).ignore,
            final(self).locked == step_locked(old(self).locked, line@),
            out is Some <==> step_output(
                old(self).locked,
                line@,
                old(self).theme@,
                old(self).spot_pat(),
                old(self).ignore,
            ) is Some,
            out matches Some(o) ==> Some(o@) == step_output(
                old(self).locked,
                line@,
                old(self).theme@,
                old(self).spot_pat(),
                old(self).ignore,
            ),
    {
        let locked: Option<FormatKind> = self.locked;
        match locked {
            None => match classify_and_parse(line) {
                Some((k, rec)) => {
                    self.locked = Some(k);
                    Some(render_line(&rec, &self.theme, self.spot.as_ref()))
                },
                None => if self.ignore {
                    None
                } else {
                    Some(line.to_owned())
                },
            },
            Some(k) => match match_kind(k, line) {
                Some(rec) => Some(render_line(&rec, &self.theme, self.spot.as_ref())),
                None => match classify_and_parse(line) {
                    Some((k2, rec)) => {
                        self.locked = Some(k2);
                        Some(render_line(&rec, &self.theme, self.spot.as_ref()))
                    },
                    None => if self.ignore {
                        None
                    } else {
                        Some(line.to_owned())
                    },
                },
            },
        }
    }
}

/// The lock state after a whole stream of lines.
pub open spec fn run_locked(locked: Option<FormatKind>, lines: Seq<Seq<char>>) -> Option<
    FormatKind,
>
    decreases lines.len(),
{
    if lines.len() == 0 {
        locked
    } else {
        run_locked(step_locked(locked, lines[0]), lines.drop_first())
    }
}

/// The outputs a whole stream of lines produces, in order.
pub open spec fn run_outputs(
    locked: Option<FormatKind>,
    lines: Seq<Seq<char>>,
    t: ThemeV,
    spot: Option<Seq<char>>,
    ignore: bool,
) -> Seq<Seq<char>>
    decreases lines.len(),
{
    if lines.len() == 0 {
        Seq::empty()
    } else {
        let rest = run_outputs(step_locked(locked, lines[0]), lines.drop_first(), t, spot, ignore);
        match step_output(locked, lines[0], t, spot, ignore) {
            Some(o) => seq![o] + rest,
            None => rest,
        }
    }
}

/// How many lines of a stream match no format at all.
pub open spec fn count_unmatched(lines: Seq<Seq<char>>) -> int
    decreases lines.len(),
{
    if lines.len() == 0 {
        0
    } else {
        (if classify_kind(lines[0]) is None {
            1int
        } else {
            0int
        }) + count_unmatched(lines.drop_first())
    }
}

/// Whether processing a line in this lock state takes the fallback path:
/// a full re-classification after the locked format's matcher failed.
pub open spec fn fallback_at(locked: Option<FormatKind>, s: Seq<char>) -> bool {
    locked matches Some(k) && !kind_matches(k, s)
}

/// Running a stream extended by one line steps the final lock state once.
pub proof fn lemma_run_locked_snoc(
    locked: Option<FormatKind>,
    lines: Seq<Seq<char>>,
    x: Seq<char>,
)
    ensures
        run_locked(locked, lines.push(x)) == step_locked(run_locked(locked, lines), x),
    decreases lines.len(),
{
    let p = lines.push(x);
    if lines.len() == 0 {
        assert(p[0] == x);
        assert(p.drop_first() =~= Seq::<Seq<char>>::empty());
        assert(run_locked(locked, p) == run_locked(step_locked(locked, x), p.drop_first()));
        assert(run_locked(step_locked(locked, x), p.drop_first()) == step_locked(locked, x));
    } else {
        assert(p[0] == lines[0]);
        assert(p.drop_first() =~= lines.drop_first().push(x));
        assert(run_locked(locked, p) == run_locked(step_locked(locked, lines[0]), p.drop_first()));
        lemma_run_locked_snoc(step_locked(locked, lines[0]), lines.drop_first(), x);
        assert(run_locked(locked, lines) == run_locked(
            step_locked(locked, lines[0]),
            lines.drop_first(),
        ));
    }
}

/// Lock-in stability: on a stream whose every line classifies as the same
/// format, the session locks that format on the first line and the lock
/// never changes afterwards; the locked format's own matcher succeeds on
/// every line, so the fast path alone suffices and no line takes the
/// fallback path.
pub proof fn lemma_lock_in_stability(lines: Seq<Seq<char>>, k: FormatKind)
    requires
        lines.len() > 0,
        forall|i: int| 0 <= i < lines.len() ==> classify_kind(#[trigger] lines[i]) == Some(k),
    ensures
        forall|j: int| 1 <= j <= lines.len() ==> run_locked(None, #[trigger] lines.take(j))
            == Some(k),
        forall|i: int| 0 <= i < lines.len() ==> kind_matches(k, #[trigger] lines[i]),
        forall|i: int| 0 <= i < lines.len() ==> !fallback_at(
            run_locked(None, #[trigger] lines.take(i)),
            lines[i],
        ),
{
    assert forall|i: int| 0 <= i < lines.len() implies kind_matches(k, #[trigger] lines[i]) by {
        lemma_classify_matches(lines[i]);
    }
    assert forall|j: int| 1 <= j <= lines.len() implies run_locked(
        None,
        #[trigger] lines.take(j),
    ) == Some(k) by {
        lemma_stability_aux(lines, k, j);
    }
    assert forall|i: int| 0 <= i < lines.len() implies !fallback_at(
        run_locked(None, #[trigger] lines.take(i)),
        lines[i],
    ) by {
        if i == 0 {
            assert(lines.take(0) =~= Seq::<Seq<char>>::empty());
        } else {
            lemma_stability_aux(lines, k, i);
        }
    }
}

proof fn lemma_stability_aux(lines: Seq<Seq<char>>, k: FormatKind, j: int)
    requires
        1 <= j <= lines.len(),
        forall|i: int| 0 <= i < lines.len() ==> classify_kind(#[trigger] lines[i]) == Some(k),
    ensures
        run_locked(None, lines.take(j)) == Some(k),
    decreases j,
{
    lemma_classify_matches(lines[j - 1]);
    if j == 1 {
        assert(lines.take(1) =~= Seq::<Seq<char>>::empty().push(lines[0]));
        lemma_run_locked_snoc(None, Seq::empty(), lines[0]);
    } else {
        lemma_stability_aux(lines, k, j - 1);
        assert(lines.take(j) =~= lines.take(j - 1).push(lines[j - 1]));
        lemma_run_locked_snoc(None, lines.take(j - 1), lines[j - 1]);
    }
}

/// Lock-in recovery: on a stream that classifies as format `a` up to line
/// `m` and from there on as a different format `b` whose lines no longer
/// match `a`, the lock is `a` after each of the first `m` lines and `b`
/// after every later one; exactly the one line `m` takes the fallback
/// path.
pub proof fn lemma_lock_in_recovery(lines: Seq<Seq<char>>, a: FormatKind, b: FormatKind, m: int)
    requires
        1 <= m < lines.len(),
        forall|i: int| 0 <= i < m ==> classify_kind(#[trigger] lines[i]) == Some(a),
        forall|i: int| m <= i < lines.len() ==> classify_kind(#[trigger] lines[i]) == Some(b),
        forall|i: int| m <= i < lines.len() ==> !kind_matches(a, #[trigger] lines[i]),
    ensures
        forall|j: int| 1 <= j <= m ==> run_locked(None, #[trigger] lines.take(j)) == Some(a),
        forall|j: int| m < j <= lines.len() ==> run_locked(None, #[trigger] lines.take(j))
            == Some(b),
        forall|i: int| 0 <= i < lines.len() ==> (fallback_at(
            run_locked(None, #[trigger] lines.take(i)),
            lines[i],
        ) <==> i == m),
{
    assert forall|j: int| 1 <= j <= m implies run_locked(None, #[trigger] lines.take(j)) == Some(
        a,
    ) by {
        lemma_stability_aux(lines.take(m), a, j);
        assert(lines.take(m).take(j) =~= lines.take(j));
    }
    assert forall|j: int| m < j <= lines.len() implies run_locked(
        None,
        #[trigger] lines.take(j),
    ) == Some(b) by {
        lemma_recovery_aux(lines, a, b, m, j);
    }
    assert forall|i: int| 0 <= i < lines.len() implies (fallback_at(
        run_locked(None, #[trigger] lines.take(i)),
        lines[i],
    ) <==> i == m) by {
        lemma_classify_matches(lines[i]);
        if i == 0 {
            assert(lines.take(0) =~= Seq::<Seq<char>>::empty());
        } else if i < m {
            lemma_stability_aux(lines.take(m), a, i);
            assert(lines.take(m).take(i) =~= lines.take(i));
        } else if i == m {
            lemma_stability_aux(lines.take(m), a, m);
            assert(lines.take(m).take(m) =~= lines.take(m));
        } else {
            lemma_recovery_aux(lines, a, b, m, i);
        }
    }
}

proof fn lemma_recovery_aux(lines: Seq<Seq<char>>, a: FormatKind, b: FormatKind, m: int, j: int)
    requires
        1 <= m < lines.len(),
        m < j <= lines.len(),
        forall|i: int| 0 <= i < m ==> classify_kind(#[trigger] lines[i]) == Some(a),
        forall|i: int| m <= i < lines.len() ==> classify_kind(#[trigger] lines[i]) == Some(b),
        forall|i: int| m <= i < lines.len() ==> !kind_matches(a, #[trigger] lines[i]),
    ensures
        run_locked(None, lines.take(j)) == Some(b),
    decreases j,
{
    lemma_classify_matches(lines[j - 1]);
    assert(lines.take(j) =~= lines.take(j - 1).push(lines[j - 1]));
    lemma_run_locked_snoc(None, lines.take(j - 1), lines[j - 1]);
    if j - 1 == m {
        lemma_stability_aux(lines.take(m), a, m);
        assert(lines.take(m).take(m) =~= lines.take(m));
    } else {
        lemma_recovery_aux(lines, a, b, m, j - 1);
    }
}

/// Ignore-mode output counting: with ignore off a stream of `N` lines
/// yields exactly `N` output lines (unmatched ones passed through
/// unchanged); with ignore on it yields `N - M`, where `M` is the number
/// of lines matching no format.
pub proof fn lemma_ignore_mode_counts(
    locked: Option<FormatKind>,
    lines: Seq<Seq<char>>,
    t: ThemeV,
    spot: Option<Seq<char>>,
)
    ensures
        run_outputs(locked, lines, t, spot, false).len() == lines.len(),
        run_outputs(locked, lines, t, spot, true).len() == lines.len() - count_unmatched(lines),
        0 <= count_unmatched(lines) <= lines.len(),
    decreases lines.len(),
{
    if lines.len() > 0 {
        lemma_classify_matches(lines[0]);
        lemma_ignore_mode_counts(step_locked(locked, lines[0]), lines.drop_first(), t, spot);
        match locked {
            None => {},
            Some(k) => {
                if kind_matches(k, lines[0]) {
                    assert(classify_kind(lines[0]) is Some);
                }
            },
        }
    }
}

} // verus!
