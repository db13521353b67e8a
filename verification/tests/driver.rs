use logcat_colorize::driver::Session;
use logcat_colorize::record::FormatKind;
use logcat_colorize::theme::make_theme;

#[test]
fn first_match_locks_format() {
    let mut s = Session::new(make_theme(), None, false);
    assert!(s.locked.is_none());
    let out = s.process_line("W/Bat(  789): low battery");
    assert!(out.is_some());
    assert_eq!(s.locked, Some(FormatKind::Brief));
}

#[test]
fn lock_in_stability_on_homogeneous_stream() {
    let mut s = Session::new(make_theme(), None, false);
    let lines = [
        "01-02 03:04:05.006  1  2 I a: x",
        "01-02 03:04:05.007  1  2 W b: y",
        "01-02 03:04:05.008  3  4 E c: z",
    ];
    for line in lines {
        let out = s.process_line(line);
        assert!(out.is_some());
        assert_eq!(s.locked, Some(FormatKind::ThreadTime));
    }
}

#[test]
fn lock_in_recovery_on_format_switch() {
    let mut s = Session::new(make_theme(), None, false);
    s.process_line("V/a(1): m");
    s.process_line("V/b(2): n");
    assert_eq!(s.locked, Some(FormatKind::Brief));
    // the stream switches to the Tag format for good
    let out = s.process_line("D/foo: bar");
    assert!(out.is_some());
    assert_eq!(s.locked, Some(FormatKind::Tag));
    s.process_line("I/baz: qux");
    assert_eq!(s.locked, Some(FormatKind::Tag));
}

#[test]
fn unmatched_line_passes_through_unchanged() {
    let mut s = Session::new(make_theme(), None, false);
    let line = "not a logcat line at all";
    let out = s.process_line(line);
    assert_eq!(out.as_deref(), Some(line));
    assert!(s.locked.is_none());
}

#[test]
fn unmatched_line_keeps_surrounding_whitespace() {
    let mut s = Session::new(make_theme(), None, false);
    let line = "  spaced out  ";
    assert_eq!(s.process_line(line).as_deref(), Some(line));
}

#[test]
fn ignore_mode_drops_unmatched_lines() {
    let mut s = Session::new(make_theme(), None, true);
    assert!(s.process_line("garbage").is_none());
    assert!(s.process_line("V/a: ok").is_some());
    assert!(s.process_line("more garbage").is_none());
}

#[test]
fn output_counts_with_and_without_ignore() {
    let lines = ["V/a(1): m", "garbage one", "D/foo: bar", "garbage two"];
    let mut kept = Session::new(make_theme(), None, false);
    let n_kept = lines.iter().filter(|l| kept.process_line(l).is_some()).count();
    assert_eq!(n_kept, 4);
    let mut dropped = Session::new(make_theme(), None, true);
    let n_dropped = lines.iter().filter(|l| dropped.process_line(l).is_some()).count();
    assert_eq!(n_dropped, 2);
}

#[test]
fn lock_is_sticky_across_unparsed_lines() {
    let mut s = Session::new(make_theme(), None, false);
    s.process_line("V/a(1): m");
    assert_eq!(s.locked, Some(FormatKind::Brief));
    let out = s.process_line("not parseable");
    assert_eq!(out.as_deref(), Some("not parseable"));
    assert_eq!(s.locked, Some(FormatKind::Brief));
    // the kept lock still drives the fast path afterwards
    assert!(s.process_line("V/b(2): n").is_some());
    assert_eq!(s.locked, Some(FormatKind::Brief));
}

#[test]
fn session_with_spotlight_highlights_stream_output() {
    let mut s = Session::new(make_theme(), Some("wifi"), false);
    let out = s.process_line("V/net: wifi down").expect("rendered");
    assert!(out.contains("\u{1b}[0;41;97mwifi\u{1b}[0;49;36m"));
}

#[test]
fn session_with_bad_spotlight_degrades_to_plain_styling() {
    let mut with_bad = Session::new(make_theme(), Some("("), false);
    let mut without = Session::new(make_theme(), None, false);
    let line = "V/net: wifi down";
    assert_eq!(with_bad.process_line(line), without.process_line(line));
}

#[test]
fn fast_path_differs_from_reclassification_when_lock_is_looser() {
    // locked onto Tag, a line that Brief would claim still parses as Tag
    let mut s = Session::new(make_theme(), None, false);
    s.process_line("D/foo: bar");
    assert_eq!(s.locked, Some(FormatKind::Tag));
    let out = s.process_line("V/Bat(  789): low battery").expect("rendered");
    assert_eq!(s.locked, Some(FormatKind::Tag));
    // the Tag matcher reads the whole "Bat(  789)" as the tag
    assert!(out.contains("Bat(  789)"));
}
