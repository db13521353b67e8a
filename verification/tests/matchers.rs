use logcat_colorize::matchers::{
    classify_and_parse, match_brief, match_kind, match_process, match_tag, match_threadtime,
    match_time,
};
use logcat_colorize::record::FormatKind;

#[test]
fn threadtime_scenario() {
    let (kind, rec) = classify_and_parse("01-02 03:04:05.006  123  456 I MyTag: hello world")
        .expect("should classify");
    assert_eq!(kind, FormatKind::ThreadTime);
    assert_eq!(rec.timestamp, "01-02 03:04:05.006");
    assert_eq!(rec.process, "123");
    assert_eq!(rec.thread, "456");
    assert_eq!(rec.level, "I");
    assert_eq!(rec.tag, "MyTag");
    assert_eq!(rec.message, "hello world");
}

#[test]
fn brief_scenario() {
    let (kind, rec) = classify_and_parse("W/Bat(  789): low battery").expect("should classify");
    assert_eq!(kind, FormatKind::Brief);
    assert_eq!(rec.level, "W");
    assert_eq!(rec.tag, "Bat");
    assert_eq!(rec.process, "789");
    assert_eq!(rec.message, "low battery");
    assert_eq!(rec.timestamp, "");
    assert_eq!(rec.thread, "");
}

#[test]
fn time_round_trip() {
    let line = "01-02 03:04:05.006 E/radio(77): call dropped";
    let (kind, rec) = classify_and_parse(line).expect("should classify");
    assert_eq!(kind, FormatKind::Time);
    assert_eq!(rec.timestamp, "01-02 03:04:05.006");
    assert_eq!(rec.level, "E");
    assert_eq!(rec.tag, "radio");
    assert_eq!(rec.process, "77");
    assert_eq!(rec.message, "call dropped");
    assert_eq!(rec.thread, "");
}

#[test]
fn time_with_colon_after_stamp() {
    let line = "01-02 03:04:05.006: D/x(1): m";
    let (kind, rec) = classify_and_parse(line).expect("should classify");
    assert_eq!(kind, FormatKind::Time);
    assert_eq!(rec.tag, "x");
    assert_eq!(rec.message, "m");
}

#[test]
fn process_round_trip() {
    let (kind, rec) = classify_and_parse("I( 42) service started (boot)").expect("classify");
    assert_eq!(kind, FormatKind::Process);
    assert_eq!(rec.level, "I");
    assert_eq!(rec.process, "42");
    assert_eq!(rec.message, "service started");
    assert_eq!(rec.tag, "boot");
}

#[test]
fn process_empty_tag() {
    let (kind, rec) = classify_and_parse("V(7) ping ()").expect("classify");
    assert_eq!(kind, FormatKind::Process);
    assert_eq!(rec.message, "ping");
    assert_eq!(rec.tag, "");
}

#[test]
fn process_message_may_hold_parens() {
    // the trailing tag starts at the last " (", so the message keeps its own
    let (kind, rec) = classify_and_parse("D(5) saw (this) once (tag)").expect("classify");
    assert_eq!(kind, FormatKind::Process);
    assert_eq!(rec.message, "saw (this) once");
    assert_eq!(rec.tag, "tag");
}

#[test]
fn tag_round_trip() {
    let (kind, rec) = classify_and_parse("F/kernel: panic imminent").expect("classify");
    assert_eq!(kind, FormatKind::Tag);
    assert_eq!(rec.level, "F");
    assert_eq!(rec.tag, "kernel");
    assert_eq!(rec.message, "panic imminent");
}

#[test]
fn tag_empty_fields() {
    let (kind, rec) = classify_and_parse("V/: ").expect("classify");
    assert_eq!(kind, FormatKind::Tag);
    assert_eq!(rec.tag, "");
    assert_eq!(rec.message, "");
}

#[test]
fn tag_lazy_stops_at_first_separator() {
    let (_, rec) = classify_and_parse("I/a: b: c").expect("classify");
    assert_eq!(rec.tag, "a");
    assert_eq!(rec.message, "b: c");
}

#[test]
fn precedence_brief_beats_tag() {
    // this line satisfies both Brief and Tag; Brief is tried first
    let line = "V/Bat(  789): low battery";
    assert!(match_tag(line).is_some());
    assert!(match_brief(line).is_some());
    let (kind, rec) = classify_and_parse(line).expect("classify");
    assert_eq!(kind, FormatKind::Brief);
    assert_eq!(rec.tag, "Bat");
}

#[test]
fn unknown_level_rejected() {
    assert!(classify_and_parse("X/tag: message").is_none());
    assert!(classify_and_parse("v/tag: message").is_none());
}

#[test]
fn no_separator_rejected() {
    assert!(classify_and_parse("I/tag message").is_none());
    assert!(classify_and_parse("not a logcat line at all").is_none());
    assert!(classify_and_parse("").is_none());
}

#[test]
fn threadtime_requires_both_ids() {
    assert!(match_threadtime("01-02 03:04:05.006  123 I MyTag: hello").is_none());
    assert!(match_threadtime("01-02 03:04:05.006 I MyTag: hello").is_none());
}

#[test]
fn bad_timestamp_rejected() {
    assert!(match_threadtime("01-02 03:04:05.06  123  456 I MyTag: hello").is_none());
    assert!(match_time("1-02 03:04:05.006 E/radio(77): x").is_none());
}

#[test]
fn pid_needs_digit_or_space_only() {
    assert!(match_brief("W/Bat(7a9): low").is_none());
    assert!(match_process("I(4x2) m (t)").is_none());
}

#[test]
fn match_kind_runs_one_matcher_only() {
    let line = "V/Bat(  789): low battery";
    // under the Tag format this line parses with the whole "Bat(  789)" tag
    let rec = match_kind(FormatKind::Tag, line).expect("tag matches");
    assert_eq!(rec.tag, "Bat(  789)");
    // and the ThreadTime matcher alone rejects it
    assert!(match_kind(FormatKind::ThreadTime, line).is_none());
}

#[test]
fn newline_never_matches() {
    assert!(classify_and_parse("I/a: b\nI/c: d").is_none());
}

#[test]
fn threadtime_without_space_after_stamp() {
    let (kind, rec) = classify_and_parse("01-02 03:04:05.006123  456 I a: b").expect("classify");
    assert_eq!(kind, FormatKind::ThreadTime);
    assert_eq!(rec.process, "123");
    assert_eq!(rec.thread, "456");
}

#[test]
fn threadtime_tab_separated_ids() {
    let (kind, rec) = classify_and_parse("01-02 03:04:05.006\t12\t34 D t: m").expect("classify");
    assert_eq!(kind, FormatKind::ThreadTime);
    assert_eq!(rec.process, "12");
    assert_eq!(rec.thread, "34");
}

#[test]
fn pid_trimmed_on_both_sides() {
    let (_, rec) = classify_and_parse("W/Bat( 78 ): x").expect("classify");
    assert_eq!(rec.process, "78");
}

#[test]
fn all_space_pid_trims_to_empty() {
    let (kind, rec) = classify_and_parse("V(   ) m (t)").expect("classify");
    assert_eq!(kind, FormatKind::Process);
    assert_eq!(rec.process, "");
}
