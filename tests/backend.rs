use morgan::backend::Morgan;
use morgan::format::{colored_line, millis_from_nanos, plain_line};
use morgan::level::{
    color_from, install_threshold, threshold_from, threshold_from_lowercase, Level,
};
use morgan::text::same_text;

fn names(list: &[&str]) -> Vec<String> {
    list.iter().map(|s| s.to_string()).collect()
}

#[test]
fn default_construction() {
    let m = Morgan::new(Vec::new(), None);
    assert!(m.color());
    assert_eq!(threshold_from(None), Level::Info);
    assert!(m.enabled("anything"));
    assert!(m.enabled(""));
}

#[test]
fn level_setting_ignores_case() {
    assert_eq!(threshold_from(Some("DEBUG")), Level::Debug);
    assert_eq!(threshold_from(Some("Debug")), Level::Debug);
    assert_eq!(threshold_from(Some("debug")), Level::Debug);
    assert_eq!(threshold_from(Some("DeBuG")), Level::Debug);
    assert_eq!(threshold_from(Some("error")), Level::Error);
    assert_eq!(threshold_from(Some("ERROR")), Level::Error);
}

#[test]
fn level_setting_falls_back_to_info() {
    assert_eq!(threshold_from(Some("warn")), Level::Info);
    assert_eq!(threshold_from(Some("trace")), Level::Info);
    assert_eq!(threshold_from(Some("bogus")), Level::Info);
    assert_eq!(threshold_from(Some("")), Level::Info);
    assert_eq!(threshold_from(Some(" debug")), Level::Info);
    assert_eq!(threshold_from(None), Level::Info);
}

#[test]
fn lowercase_setting_names() {
    assert_eq!(threshold_from_lowercase("debug"), Level::Debug);
    assert_eq!(threshold_from_lowercase("error"), Level::Error);
    assert_eq!(threshold_from_lowercase("DEBUG"), Level::Info);
    assert_eq!(threshold_from_lowercase("info"), Level::Info);
}

#[test]
fn installing_the_threshold() {
    assert_eq!(install_threshold(Some("Error")), Level::Error);
    assert_eq!(log::max_level(), log::LevelFilter::Error);
    assert_eq!(install_threshold(Some("debug")), Level::Debug);
    assert_eq!(log::max_level(), log::LevelFilter::Debug);
    assert_eq!(install_threshold(None), Level::Info);
    assert_eq!(log::max_level(), log::LevelFilter::Info);
}

#[test]
fn color_setting() {
    assert!(!color_from(Some("false")));
    assert!(color_from(Some("true")));
    assert!(color_from(Some("notabool")));
    assert!(color_from(Some("FALSE")));
    assert!(color_from(Some("")));
    assert!(color_from(None));
    assert!(!Morgan::new(Vec::new(), Some("false")).color());
    assert!(Morgan::new(Vec::new(), Some("true")).color());
    assert!(Morgan::new(Vec::new(), Some("notabool")).color());
}

#[test]
fn exclusion_matches_first_segment() {
    let m = Morgan::new(names(&["db"]), None);
    assert!(!m.enabled("db::pool"));
    assert!(m.enabled("db2::pool"));
    assert!(!m.enabled("db"));
    assert!(m.enabled(""));
    assert!(m.enabled("app::db"));
    assert!(m.enabled("d"));
}

#[test]
fn exclusion_of_empty_segment() {
    let m = Morgan::new(names(&["", "net"]), None);
    assert!(!m.enabled(""));
    assert!(!m.enabled("::x"));
    assert!(!m.enabled("net:a"));
    assert!(m.enabled("app"));
}

#[test]
fn filtering_is_repeatable() {
    let m = Morgan::new(names(&["db"]), None);
    for t in ["db::pool", "db2::pool", "db", "", "app"] {
        assert_eq!(m.enabled(t), m.enabled(t));
    }
}

#[test]
fn plain_render_format() {
    let m = Morgan::new(Vec::new(), Some("false"));
    let line = m.render_at(1_234_000_000, Level::Info, "app", "hello");
    assert_eq!(line, Some("[     1.234] > Info   > hello".to_string()));
}

#[test]
fn plain_labels_for_every_level() {
    assert_eq!(plain_line(0, Level::Error, "m"), "[     0.000] > Error  > m");
    assert_eq!(plain_line(0, Level::Warn, "m"), "[     0.000] > Warn   > m");
    assert_eq!(plain_line(0, Level::Info, "m"), "[     0.000] > Info   > m");
    assert_eq!(plain_line(0, Level::Debug, "m"), "[     0.000] > Debug  > m");
    assert_eq!(plain_line(0, Level::Trace, "m"), "[     0.000] > Trace  > m");
}

fn colored(stamp: &str, code: &str, label: &str, message: &str) -> String {
    format!(
        "\x1B[1;90m[{}] >\x1B[0m \x1B[{}m{}\x1B[0m\x1B[1;90m >\x1B[0m \x1B[1;39m{}",
        stamp, code, label, message
    )
}

fn without_escapes(s: &str) -> String {
    let mut out = String::new();
    let mut inside = false;
    for c in s.chars() {
        if inside {
            inside = c != 'm';
        } else if c == '\x1B' {
            inside = true;
        } else {
            out.push(c);
        }
    }
    out
}

#[test]
fn colored_render_format() {
    let m = Morgan::new(Vec::new(), None);
    let line = m.render_at(1_234_000_000, Level::Info, "app", "hello");
    assert_eq!(
        line,
        Some(
            "\x1B[1;90m[     1.234] >\x1B[0m \x1B[1;34mInfo  \x1B[0m\x1B[1;90m >\x1B[0m \x1B[1;39mhello"
                .to_string()
        )
    );
    assert_eq!(colored_line(2_500, Level::Error, "x"), colored("     2.500", "1;31", "Error ", "x"));
    assert_eq!(colored_line(0, Level::Warn, "x"), colored("     0.000", "1;93", "Warn  ", "x"));
    assert_eq!(colored_line(0, Level::Debug, "x"), colored("     0.000", "1;35", "Debug ", "x"));
    assert_eq!(colored_line(0, Level::Trace, "x"), colored("     0.000", "1;36", "Trace ", "x"));
}

#[test]
fn colored_line_is_plain_line_plus_escapes() {
    let levels = [Level::Error, Level::Warn, Level::Info, Level::Debug, Level::Trace];
    for level in levels {
        for ms in [0u128, 1_234, 987_654_321] {
            let plain = plain_line(ms, level, "hello world");
            assert_eq!(without_escapes(&colored_line(ms, level, "hello world")), plain);
        }
    }
    assert_eq!(without_escapes(&colored_line(0, Level::Info, "x")), "[     0.000] > Info   > x");
}

#[test]
fn stamp_rounding_and_width() {
    assert_eq!(millis_from_nanos(0), 0);
    assert_eq!(millis_from_nanos(499_999), 0);
    assert_eq!(millis_from_nanos(500_000), 1);
    assert_eq!(millis_from_nanos(1_234_567_890), 1_235);
    assert_eq!(plain_line(1_235, Level::Info, ""), "[     1.235] > Info   > ");
    assert_eq!(plain_line(60_007, Level::Info, "a"), "[    60.007] > Info   > a");
    assert_eq!(plain_line(123_456_789, Level::Info, "a"), "[123456.789] > Info   > a");
    assert_eq!(plain_line(12_345_678_000, Level::Info, "a"), "[12345678.000] > Info   > a");
}

#[test]
fn render_refilters_excluded_targets() {
    let m = Morgan::new(names(&["db"]), Some("false"));
    assert_eq!(m.render_at(1_000_000, Level::Error, "db::pool", "x"), None);
    assert_eq!(m.render(Level::Error, "db::pool", "x"), None);
    assert_eq!(m.render(Level::Error, "db", "x"), None);
}

#[test]
fn render_now_uses_the_layout() {
    let m = Morgan::new(names(&["db"]), Some("false"));
    let line = m.render(Level::Warn, "app::web", "started").unwrap();
    assert!(line.starts_with('['));
    assert_eq!(line.find(']'), Some(11));
    assert!(line.ends_with("] > Warn   > started"));
    m.flush();
}

#[test]
fn text_comparison() {
    assert!(same_text("abc", "abc"));
    assert!(!same_text("abc", "abd"));
    assert!(!same_text("abc", "ab"));
    assert!(same_text("", ""));
    assert!(same_text("é:ü", "é:ü"));
}

#[test]
fn level_labels() {
    assert_eq!(Level::Error.label(), "Error ");
    assert_eq!(Level::Warn.label(), "Warn  ");
    assert_eq!(Level::Trace.color_code(), "1;36");
    assert_eq!(Level::Error.color_code(), "1;31");
}
