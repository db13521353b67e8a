use logcat_colorize::ansi::{reset, AnsiSeq};
use logcat_colorize::matchers::classify_and_parse;
use logcat_colorize::record::Logcat;
use logcat_colorize::render::render_line;
use logcat_colorize::spot::Spotlight;
use logcat_colorize::theme::make_theme;

const RESET: &str = "\u{1b}[0;49;39m";

#[test]
fn ansi_seq_exact() {
    assert_eq!(AnsiSeq::new("1", "44", "97").as_str(), "\u{1b}[1;44;97m");
    assert_eq!(reset().as_str(), RESET);
}

#[test]
fn theme_exact_values() {
    let t = make_theme();
    assert_eq!(t.id_verbose.as_str(), "\u{1b}[1;46;30m");
    assert_eq!(t.id_debug.as_str(), "\u{1b}[1;44;30m");
    assert_eq!(t.id_info.as_str(), "\u{1b}[1;42;30m");
    assert_eq!(t.id_warning.as_str(), "\u{1b}[1;43;30m");
    assert_eq!(t.id_error.as_str(), "\u{1b}[1;41;30m");
    assert_eq!(t.id_fatal.as_str(), "\u{1b}[1;40;39m");
    assert_eq!(t.msg_verbose.as_str(), "\u{1b}[0;49;36m");
    assert_eq!(t.msg_debug.as_str(), "\u{1b}[0;49;34m");
    assert_eq!(t.msg_info.as_str(), "\u{1b}[0;49;32m");
    assert_eq!(t.msg_warning.as_str(), "\u{1b}[0;49;33m");
    assert_eq!(t.msg_error.as_str(), "\u{1b}[0;49;31m");
    assert_eq!(t.msg_fatal.as_str(), "\u{1b}[1;49;91m");
    assert_eq!(t.timestamp.as_str(), "\u{1b}[0;49;35m");
    assert_eq!(t.tid_pid.as_str(), "\u{1b}[0;49;35m");
    assert_eq!(t.tag.as_str(), RESET);
    assert_eq!(t.reset.as_str(), RESET);
}

#[test]
fn render_tag_line_exact() {
    let theme = make_theme();
    let (_, rec) = classify_and_parse("I/T: m").expect("classify");
    let out = render_line(&rec, &theme, None);
    let expected = format!(
        "\u{1b}[1;42;30m I {RESET} {RESET}T{RESET} \u{1b}[0;49;32mm{RESET} "
    );
    assert_eq!(out, expected);
}

#[test]
fn render_threadtime_line_exact() {
    let theme = make_theme();
    let (_, rec) =
        classify_and_parse("01-02 03:04:05.006  1  2 W t: m").expect("classify");
    let out = render_line(&rec, &theme, None);
    let expected = format!(
        "\u{1b}[0;49;35m01-02 03:04:05.006{RESET} \
         \u{1b}[1;43;30m W {RESET} \
         \u{1b}[0;49;35m[1/2]{RESET} \
         {RESET}t{RESET} \
         \u{1b}[0;49;33mm{RESET} "
    );
    assert_eq!(out, expected);
}

#[test]
fn render_bracket_pid_only() {
    let theme = make_theme();
    let (_, rec) = classify_and_parse("E/x(9): boom").expect("classify");
    let out = render_line(&rec, &theme, None);
    assert!(out.contains("\u{1b}[0;49;35m[9]"));
    assert!(!out.contains("[9/"));
}

#[test]
fn render_unknown_level_falls_back_to_reset() {
    let theme = make_theme();
    let rec = Logcat {
        timestamp: String::new(),
        level: "Q".to_string(),
        tag: String::new(),
        process: String::new(),
        message: "plain".to_string(),
        thread: String::new(),
    };
    let out = render_line(&rec, &theme, None);
    let expected = format!("{RESET} Q {RESET} {RESET}plain{RESET} ");
    assert_eq!(out, expected);
}

#[test]
fn render_empty_record_is_empty() {
    let theme = make_theme();
    let rec = Logcat::default();
    assert_eq!(render_line(&rec, &theme, None), "");
}

#[test]
fn spotlight_wraps_match_and_resumes_field_style() {
    let theme = make_theme();
    let sp = Spotlight::from_user_pattern("wifi").expect("compiles");
    let (_, rec) = classify_and_parse("V/net: wifi down").expect("classify");
    let out = render_line(&rec, &theme, Some(&sp));
    // spotlight style right before the match, the message's own style (not
    // a full reset) right after it
    assert!(out.contains("\u{1b}[0;41;97mwifi\u{1b}[0;49;36m"));
    assert!(out.contains(" down"));
}

#[test]
fn spotlight_replaces_every_match() {
    let theme = make_theme();
    let sp = Spotlight::from_user_pattern("wifi").expect("compiles");
    let (_, rec) = classify_and_parse("V/net: wifi wifi").expect("classify");
    let out = render_line(&rec, &theme, Some(&sp));
    assert_eq!(out.matches("\u{1b}[0;41;97mwifi\u{1b}[0;49;36m").count(), 2);
}

#[test]
fn spotlight_applies_to_tag_with_tag_style_resumed() {
    let theme = make_theme();
    let sp = Spotlight::from_user_pattern("Bat").expect("compiles");
    let (_, rec) = classify_and_parse("W/Bat(1): x").expect("classify");
    let out = render_line(&rec, &theme, Some(&sp));
    assert!(out.contains(&format!("\u{1b}[0;41;97mBat{RESET}")));
}

#[test]
fn spotlight_without_match_leaves_field_unchanged() {
    let theme = make_theme();
    let sp = Spotlight::from_user_pattern("zzz").expect("compiles");
    let (_, rec) = classify_and_parse("V/net: wifi down").expect("classify");
    let with = render_line(&rec, &theme, Some(&sp));
    let without = render_line(&rec, &theme, None);
    assert_eq!(with, without);
}

#[test]
fn spotlight_regex_class_pattern() {
    let theme = make_theme();
    let sp = Spotlight::from_user_pattern(r"[0-9]+").expect("compiles");
    let (_, rec) = classify_and_parse("D/t: error 42 seen").expect("classify");
    let out = render_line(&rec, &theme, Some(&sp));
    assert!(out.contains("\u{1b}[0;41;97m42\u{1b}[0;49;34m"));
}

#[test]
fn invalid_spotlight_pattern_is_rejected() {
    assert!(Spotlight::from_user_pattern("(").is_none());
}
