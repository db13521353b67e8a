//! A verified core for a streaming colorizer of Android `logcat` output.
//!
//! A raw line is classified into one of five known logcat textual formats,
//! decomposed into structured fields, and re-emitted decorated with ANSI
//! color sequences chosen by severity, with optional highlighting of a
//! user-supplied pattern.  The format detection, the field extraction, the
//! rendering and the format lock-in state machine are verified; reading and
//! writing the streams is left to the embedding program.

pub mod ansi;
pub mod driver;
pub mod matchers;
pub mod record;
pub mod render;
pub mod spot;
pub mod templates;
pub mod text;
pub mod theme;
