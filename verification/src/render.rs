//! The renderer: one parsed record to one fully styled output line.
//!
//! Fields are emitted in the fixed order time stamp, level badge,
//! process/thread bracket, tag, message; a field is emitted only when it
//! is non-empty, wrapped as `<style><text><reset> `.  When a spotlight is
//! present, every match of it inside a field's text is rewritten to
//! `<spotlight style><match><field's own style>`, so the rest of the field
//! keeps its color without an intervening full reset.
use vstd::prelude::*;
use crate::ansi::{esc_of, AnsiSeq};
use crate::record::{Logcat, LogcatV};
use crate::spot::{spot_rewrite, Spotlight};
use crate::theme::{Theme, ThemeV};

verus! {

/// The fixed spotlight style: red background, white foreground.
pub open spec fn spot_style() -> Seq<char> {
    esc_of("0"@, "41"@, "97"@)
}

/// The replacement text handed to the rewrite: the spotlight style, the
/// captured match, then the field's own style again.
pub open spec fn spot_replacement(style: Seq<char>) -> Seq<char> {
    spot_style() + "$1"@ + style
}

/// The pattern text of an optional spotlight.
pub open spec fn spot_view(spot: Option<&Spotlight>) -> Option<Seq<char>> {
    match spot {
        Some(sp) => Some(sp.pat()),
        None => None,
    }
}

/// A field's text after spotlighting: unchanged without a pattern,
/// rewritten through the pattern otherwise.
pub open spec fn spot_seg(text: Seq<char>, style: Seq<char>, spot: Option<Seq<char>>) -> Seq<
    char,
> {
    match spot {
        None => text,
        Some(pat) => spot_rewrite(pat, text, spot_replacement(style)),
    }
}

/// A complete field segment: style, spotlighted text, reset, one
/// separating space.
pub open spec fn styled_seg(
    text: Seq<char>,
    style: Seq<char>,
    spot: Option<Seq<char>>,
    reset: Seq<char>,
) -> Seq<char> {
    style + spot_seg(text, style, spot) + reset + seq![' ']
}

/// The badge and message styles a level selects.  A level outside the six
/// known codes falls back to the neutral reset for both.
pub open spec fn sev_styles(t: ThemeV, level: Seq<char>) -> (Seq<char>, Seq<char>) {
    if level == seq!['V'] {
        (t.id_verbose, t.msg_verbose)
    } else if level == seq!['D'] {
        (t.id_debug, t.msg_debug)
    } else if level == seq!['I'] {
        (t.id_info, t.msg_info)
    } else if level == seq!['W'] {
        (t.id_warning, t.msg_warning)
    } else if level == seq!['E'] {
        (t.id_error, t.msg_error)
    } else if level == seq!['F'] {
        (t.id_fatal, t.msg_fatal)
    } else {
        (t.reset, t.reset)
    }
}

/// The process/thread bracket: `[pid/tid]` when both are present, `[pid]`
/// when only the process id is.
pub open spec fn bracket_text(l: LogcatV) -> Seq<char> {
    if l.thread.len() == 0 {
        seq!['['] + l.process + seq![']']
    } else {
        seq!['['] + l.process + seq!['/'] + l.thread + seq![']']
    }
}

/// The fully styled output line for a record: each non-empty field in
/// order, the level badge padded with one space on each side.
pub open spec fn render_spec(l: LogcatV, t: ThemeV, spot: Option<Seq<char>>) -> Seq<char> {
    (if l.timestamp.len() > 0 {
        styled_seg(l.timestamp, t.timestamp, spot, t.reset)
    } else {
        Seq::<char>::empty()
    }) + (if l.level.len() > 0 {
        sev_styles(t, l.level).0 + seq![' '] + l.level + seq![' '] + t.reset + seq![' ']
    } else {
        Seq::<char>::empty()
    }) + (if l.process.len() > 0 {
        styled_seg(bracket_text(l), t.tid_pid, spot, t.reset)
    } else {
        Seq::<char>::empty()
    }) + (if l.tag.len() > 0 {
        styled_seg(l.tag, t.tag, spot, t.reset)
    } else {
        Seq::<char>::empty()
    }) + (if l.message.len() > 0 {
        styled_seg(l.message, sev_styles(t, l.level).1, spot, t.reset)
    } else {
        Seq::<char>::empty()
    })
}

/// Whether a level string is exactly the one-character sequence `c`.
fn eq_level(lvl: &String, c: char) -> (r: bool)
    ensures
        r == (lvl@ == seq![c]),
{
    let s: &str = lvl.as_str();
    if s.unicode_len() == 1 && s.get_char(0) == c {
        proof {
            assert(lvl@ =~= seq![c]);
        }
        true
    } else {
        false
    }
}

/// Picks the badge and message styles for a record's level.
fn pick_styles<'a>(t: &'a Theme, lvl: &String) -> (r: (&'a AnsiSeq, &'a AnsiSeq))
    ensures
        r.0@ == sev_styles(t@, lvl@).0,
        r.1@ == sev_styles(t@, lvl@).1,
{
    if eq_level(lvl, 'V') {
        (&t.id_verbose, &t.msg_verbose)
    } else if eq_level(lvl, 'D') {
        (&t.id_debug, &t.msg_debug)
    } else if eq_level(lvl, 'I') {
        (&t.id_info, &t.msg_info)
    } else if eq_level(lvl, 'W') {
        (&t.id_warning, &t.msg_warning)
    } else if eq_level(lvl, 'E') {
        (&t.id_error, &t.msg_error)
    } else if eq_level(lvl, 'F') {
        (&t.id_fatal, &t.msg_fatal)
    } else {
        (&t.reset, &t.reset)
    }
}

/// One field segment: style, spotlighted text, reset, separator space.
fn render_segment(text: &str, style: &AnsiSeq, spot: Option<&Spotlight>, reset: &AnsiSeq) -> (r:
    String)
    ensures
        r@ == styled_seg(text@, style@, spot_view(spot), reset@),
{
    let seg: String = match spot {
        Some(sp) => {
            let spot_sty: AnsiSeq = AnsiSeq::new("0", "41", "97");
            let mut rep: String = spot_sty.as_str().to_owned();
            rep.append("$1");
            rep.append(style.as_str());
            proof {
                assert(rep@ =~= spot_replacement(style@));
            }
            sp.replace_all(text, rep.as_str())
        },
        None => text.to_owned(),
    };
    let mut out: String = style.as_str().to_owned();
    out.append(seg.as_str());
    out.append(reset.as_str());
    out.append(" ");
    proof {
        reveal_strlit(" ");
        assert(out@ =~= styled_seg(text@, style@, spot_view(spot), reset@));
    }
    out
}

/// The process/thread bracket as text.
fn bracket(rec: &Logcat) -> (r: String)
    ensures
        r@ == bracket_text(rec@),
{
    let mut b: String = String::from_str("[");
    b.append(rec.process.as_str());
    if !rec.thread.as_str().is_empty() {
        b.append("/");
        b.append(rec.thread.as_str());
    }
    b.append("]");
    proof {
        reveal_strlit("[");
        reveal_strlit("/");
        reveal_strlit("]");
        assert(b@ =~= bracket_text(rec@));
    }
    b
}

/// Renders one record as a fully styled line (without a line terminator).
pub fn render_line(rec: &Logcat, theme: &Theme, spot: Option<&Spotlight>) -> (r: String)
    ensures
        r@ == render_spec(rec@, theme@, spot_view(spot)),
{
    let styles: (&AnsiSeq, &AnsiSeq) = pick_styles(theme, &rec.level);
    let mut out: String = String::new();
    if !rec.timestamp.as_str().is_empty() {
        let s: String = render_segment(
            rec.timestamp.as_str(),
            &theme.timestamp,
            spot,
            &theme.reset,
        );
        out.append(s.as_str());
    }
    if !rec.level.as_str().is_empty() {
        out.append(styles.0.as_str());
        out.append(" ");
        out.append(rec.level.as_str());
        out.append(" ");
        out.append(theme.reset.as_str());
        out.append(" ");
    }
    if !rec.process.as_str().is_empty() {
        let b: String = bracket(rec);
        let s: String = render_segment(b.as_str(), &theme.tid_pid, spot, &theme.reset);
        out.append(s.as_str());
    }
    if !rec.tag.as_str().is_empty() {
        let s: String = render_segment(rec.tag.as_str(), &theme.tag, spot, &theme.reset);
        out.append(s.as_str());
    }
    if !rec.message.as_str().is_empty() {
        let s: String = render_segment(rec.message.as_str(), styles.1, spot, &theme.reset);
        out.append(s.as_str());
    }
    proof {
        reveal_strlit(" ");
        assert(out@ =~= render_spec(rec@, theme@, spot_view(spot)));
    }
    out
}

} // verus!
