//! The fixed table mapping severity levels and rendering roles to styling
//! codes.  Built once at startup and read-only afterwards.
use vstd::prelude::*;
use crate::ansi::{esc_of, reset_esc, AnsiSeq};

verus! {

/// Styling for each severity (a badge style and a message style), plus the
/// time stamp, the process/thread bracket, the tag, and the neutral reset.
#[derive(Clone, Debug)]
pub struct Theme {
    pub id_verbose: AnsiSeq,
    pub id_debug: AnsiSeq,
    pub id_info: AnsiSeq,
    pub id_warning: AnsiSeq,
    pub id_error: AnsiSeq,
    pub id_fatal: AnsiSeq,
    pub msg_verbose: AnsiSeq,
    pub msg_debug: AnsiSeq,
    pub msg_info: AnsiSeq,
    pub msg_warning: AnsiSeq,
    pub msg_error: AnsiSeq,
    pub msg_fatal: AnsiSeq,
    pub timestamp: AnsiSeq,
    pub tid_pid: AnsiSeq,
    pub tag: AnsiSeq,
    pub reset: AnsiSeq,
}

/// The mathematical value of a `Theme`: each styling code as a character
/// sequence.
#[verifier::ext_equal]
pub struct ThemeV {
    pub id_verbose: Seq<char>,
    pub id_debug: Seq<char>,
    pub id_info: Seq<char>,
    pub id_warning: Seq<char>,
    pub id_error: Seq<char>,
    pub id_fatal: Seq<char>,
    pub msg_verbose: Seq<char>,
    pub msg_debug: Seq<char>,
    pub msg_info: Seq<char>,
    pub msg_warning: Seq<char>,
    pub msg_error: Seq<char>,
    pub msg_fatal: Seq<char>,
    pub timestamp: Seq<char>,
    pub tid_pid: Seq<char>,
    pub tag: Seq<char>,
    pub reset: Seq<char>,
}

impl View for Theme {
    type V = ThemeV;

    open spec fn view(&self) -> ThemeV {
        ThemeV {
            id_verbose: self.id_verbose@,
            id_debug: self.id_debug@,
            id_info: self.id_info@,
            id_warning: self.id_warning@,
            id_error: self.id_error@,
            id_fatal: self.id_fatal@,
            msg_verbose: self.msg_verbose@,
            msg_debug: self.msg_debug@,
            msg_info: self.msg_info@,
            msg_warning: self.msg_warning@,
            msg_error: self.msg_error@,
            msg_fatal: self.msg_fatal@,
            timestamp: self.timestamp@,
            tid_pid: self.tid_pid@,
            tag: self.tag@,
            reset: self.reset@,
        }
    }
}

/// The value `make_theme` builds: severity badges on bold colored
/// backgrounds, message bodies in plain matching foreground colors, fatal
/// in bright red, time stamp and bracket in purple.
pub open spec fn default_theme() -> ThemeV {
    ThemeV {
        id_verbose: esc_of("1"@, "46"@, "30"@),
        id_debug: esc_of("1"@, "44"@, "30"@),
        id_info: esc_of("1"@, "42"@, "30"@),
        id_warning: esc_of("1"@, "43"@, "30"@),
        id_error: esc_of("1"@, "41"@, "30"@),
        id_fatal: esc_of("1"@, "40"@, "39"@),
        msg_verbose: esc_of("0"@, "49"@, "36"@),
        msg_debug: esc_of("0"@, "49"@, "34"@),
        msg_info: esc_of("0"@, "49"@, "32"@),
        msg_warning: esc_of("0"@, "49"@, "33"@),
        msg_error: esc_of("0"@, "49"@, "31"@),
        msg_fatal: esc_of("1"@, "49"@, "91"@),
        timestamp: esc_of("0"@, "49"@, "35"@),
        tid_pid: esc_of("0"@, "49"@, "35"@),
        tag: esc_of("0"@, "49"@, "39"@),
        reset: reset_esc(),
    }
}

/// Builds the fixed theme table.
pub fn make_theme() -> (t: Theme)
    ensures
        t@ == default_theme(),
{
    let t = Theme {
        id_verbose: AnsiSeq::new("1", "46", "30"),
        id_debug: AnsiSeq::new("1", "44", "30"),
        id_info: AnsiSeq::new("1", "42", "30"),
        id_warning: AnsiSeq::new("1", "43", "30"),
        id_error: AnsiSeq::new("1", "41", "30"),
        id_fatal: AnsiSeq::new("1", "40", "39"),
        msg_verbose: AnsiSeq::new("0", "49", "36"),
        msg_debug: AnsiSeq::new("0", "49", "34"),
        msg_info: AnsiSeq::new("0", "49", "32"),
        msg_warning: AnsiSeq::new("0", "49", "33"),
        msg_error: AnsiSeq::new("0", "49", "31"),
        msg_fatal: AnsiSeq::new("1", "49", "91"),
        timestamp: AnsiSeq::new("0", "49", "35"),
        tid_pid: AnsiSeq::new("0", "49", "35"),
        tag: AnsiSeq::new("0", "49", "39"),
        reset: crate::ansi::reset(),
    };
    proof {
        assert(t@ =~= default_theme());
    }
    t
}

} // verus!
