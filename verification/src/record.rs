//! The parsed representation of one logcat line, and the closed set of
//! recognised textual formats.
use vstd::prelude::*;

verus! {

/// One parsed logcat line.  A field not captured by the matching format is
/// the empty string — it is never inferred.
#[derive(Clone, Debug)]
pub struct Logcat {
    pub timestamp: String,
    /// Single-letter severity code, one of `V D I W E F` when parsed.
    pub level: String,
    pub tag: String,
    /// Process id, carried as text with surrounding whitespace trimmed.
    pub process: String,
    pub message: String,
    /// Thread id, present only in the richest format.
    pub thread: String,
}

/// The mathematical value of a `Logcat` record: each field as a character
/// sequence.
#[verifier::ext_equal]
pub struct LogcatV {
    pub timestamp: Seq<char>,
    pub level: Seq<char>,
    pub tag: Seq<char>,
    pub process: Seq<char>,
    pub message: Seq<char>,
    pub thread: Seq<char>,
}

impl View for Logcat {
    type V = LogcatV;

    open spec fn view(&self) -> LogcatV {
        LogcatV {
            timestamp: self.timestamp@,
            level: self.level@,
            tag: self.tag@,
            process: self.process@,
            message: self.message@,
            thread: self.thread@,
        }
    }
}

impl LogcatV {
    /// The record whose every field is empty.
    pub open spec fn empty() -> LogcatV {
        LogcatV {
            timestamp: Seq::empty(),
            level: Seq::empty(),
            tag: Seq::empty(),
            process: Seq::empty(),
            message: Seq::empty(),
            thread: Seq::empty(),
        }
    }
}

impl Default for Logcat {
    /// The record whose every field is empty.
    fn default() -> (r: Logcat)
        ensures
            r@ == LogcatV::empty(),
    {
        let r = Logcat {
            timestamp: String::new(),
            level: String::new(),
            tag: String::new(),
            process: String::new(),
            message: String::new(),
            thread: String::new(),
        };
        proof {
            assert(r@.timestamp =~= LogcatV::empty().timestamp);
            assert(r@.level =~= LogcatV::empty().level);
            assert(r@.tag =~= LogcatV::empty().tag);
            assert(r@.process =~= LogcatV::empty().process);
            assert(r@.message =~= LogcatV::empty().message);
            assert(r@.thread =~= LogcatV::empty().thread);
        }
        r
    }
}

/// The five recognised logcat shapes, from the most field-rich to the
/// least.  Classification tries them in exactly this order, because looser
/// shapes can spuriously match text that a stricter shape describes.
#[derive(Copy, Clone, Debug, PartialEq, Eq, Structural)]
pub enum FormatKind {
    ThreadTime,
    Time,
    Brief,
    Process,
    Tag,
}

} // verus!
