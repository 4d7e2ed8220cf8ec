use telink_ota::progress::{
    colorize, format_duration, render_bar, render_progress_line, should_color, Console,
};

#[test]
fn render_bar_shows_partial_fill() {
    assert_eq!(render_bar(0, 100, 10), "[----------]");
    assert_eq!(render_bar(50, 100, 10), "[#####-----]");
    assert_eq!(render_bar(100, 100, 10), "[##########]");
}

#[test]
fn render_bar_treats_zero_total_as_fully_done() {
    assert_eq!(render_bar(0, 0, 10), "[##########]");
}

#[test]
fn render_bar_rounds_down_and_caps_at_full() {
    assert_eq!(render_bar(99, 100, 10), "[#########-]");
    assert_eq!(render_bar(250, 100, 4), "[####]");
    assert_eq!(render_bar(u64::MAX, u64::MAX, 3), "[###]");
    assert_eq!(render_bar(5, 7, 0), "[]");
}

#[test]
fn format_duration_uses_mm_ss_under_an_hour() {
    assert_eq!(format_duration(5), "00:05");
    assert_eq!(format_duration(65), "01:05");
    assert_eq!(format_duration(3599), "59:59");
}

#[test]
fn format_duration_adds_hours_past_an_hour() {
    assert_eq!(format_duration(3600), "1:00:00");
    assert_eq!(format_duration(3661), "1:01:01");
}

#[test]
fn format_duration_of_zero_and_many_hours() {
    assert_eq!(format_duration(0), "00:00");
    assert_eq!(format_duration(360_000), "100:00:00");
}

#[test]
fn render_progress_line_shows_bar_percent_bytes_rate_and_eta() {
    let line = render_progress_line(50, 100, 10, "5 B/s", Some(10));
    assert_eq!(line, "[#####-----]  50%      50/100 bytes  5 B/s  ETA 00:10");
}

#[test]
fn render_progress_line_handles_an_empty_transfer() {
    let line = render_progress_line(0, 0, 10, "0 B/s", None);
    assert!(line.contains("100%"), "{line}");
    assert!(line.ends_with("ETA --:--"), "{line}");
}

#[test]
fn render_progress_line_does_not_truncate_wide_numbers() {
    let line = render_progress_line(12_345_678, 12_345_678, 2, "1.0 MB/s", Some(3661));
    assert_eq!(line, "[##] 100% 12345678/12345678 bytes  1.0 MB/s  ETA 1:01:01");
}

#[test]
fn colorize_wraps_in_ansi_codes_only_when_enabled() {
    assert_eq!(colorize("ok", "32", true), "\x1b[32mok\x1b[0m");
    assert_eq!(colorize("ok", "32", false), "ok");
    assert_eq!(colorize("err", "31", true), "\x1b[31merr\x1b[0m");
}

#[test]
fn console_wraps_each_method_in_its_own_code() {
    let color = Console { color: true, verbose: false };
    assert_eq!(color.green("ok"), "\x1b[32mok\x1b[0m");
    assert_eq!(color.yellow("warn"), "\x1b[33mwarn\x1b[0m");
    assert_eq!(color.bold("hi"), "\x1b[1mhi\x1b[0m");
    assert_eq!(Console { color: false, verbose: false }.green("ok"), "ok");
}

#[test]
fn console_red_marks_fatal_errors() {
    assert_eq!(Console { color: true, verbose: false }.red("bad"), "\x1b[31mbad\x1b[0m");
    assert_eq!(Console { color: false, verbose: true }.red("bad"), "bad");
}

#[test]
fn console_new_decides_color_once() {
    let c = Console::new(true, None, true);
    assert!(c.color && c.verbose);
    let c = Console::new(false, Some("1"), true);
    assert!(!c.color && !c.verbose);
    assert!(!Console::new(false, None, false).color);
}

#[test]
fn should_color_respects_no_color_env_over_tty_detection() {
    assert!(!should_color(Some(""), true), "NO_COLOR set to anything disables color");
    assert!(!should_color(Some("1"), true));
    assert!(should_color(None, true));
    assert!(!should_color(None, false), "not a terminal, e.g. piped output");
}

#[test]
fn format_duration_fields_read_back_as_seconds() {
    for secs in [0u64, 5, 59, 60, 3599, 3600, 3661, 86_399, 360_000, 1_234_567] {
        let text = format_duration(secs);
        let fields: Vec<u64> = text.split(':').map(|f| f.parse().unwrap()).collect();
        let value = fields.iter().fold(0u64, |acc, f| acc * 60 + f);
        assert_eq!(value, secs, "{text}");
        assert_eq!(fields.len() == 2, secs < 3600, "{text}");
    }
}
