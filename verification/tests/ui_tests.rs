use clank_cli::ui::{
    ColorMode, ProgressMode, bold, choose_progress_mode, count_error_color, count_warning_color,
    dim, duration_position, duration_to_millis, error, format_duration, formatted_eta,
    maybe_color, success, warning,
};

#[test]
fn maybe_color_returns_plain_text_when_disabled() {
    assert_eq!(maybe_color("hello", ColorMode::Error, false), "hello");
}

#[test]
fn maybe_color_keeps_neutral_text_plain() {
    assert_eq!(maybe_color("hello", ColorMode::Neutral, true), "hello");
}

#[test]
fn color_helpers_return_text_content() {
    assert!(success("ok").contains("ok"));
    assert!(error("bad").contains("bad"));
    assert!(warning("warn").contains("warn"));
    assert!(dim("dimmed").contains("dimmed"));
    assert!(bold("strong").contains("strong"));
}

#[test]
fn colored_text_is_plain_or_wrapped_in_escapes() {
    let green = success("ok");
    assert!(green == "ok" || green == "\x1b[32mok\x1b[0m");
    let red = error("bad");
    assert!(red == "bad" || red == "\x1b[31mbad\x1b[0m");
}

#[test]
fn count_colors() {
    assert_eq!(count_error_color(0), ColorMode::Neutral);
    assert_eq!(count_error_color(3), ColorMode::Error);
    assert_eq!(count_warning_color(0), ColorMode::Neutral);
    assert_eq!(count_warning_color(1), ColorMode::Warning);
}

#[test]
fn format_duration_rounds_up_and_pads() {
    assert_eq!(format_duration(10, 0), "00:10");
    assert_eq!(format_duration(0, 0), "00:00");
    assert_eq!(format_duration(9, 1), "00:10");
    assert_eq!(format_duration(7_199, 0), "1:59:59");
    assert_eq!(format_duration(3_600, 0), "1:00:00");
    assert_eq!(format_duration(65, 0), "01:05");
}

#[test]
fn formatted_eta_uses_hour_format_for_long_duration() {
    assert_eq!(formatted_eta(Some((7_199, 0))), "ETA 1:59:59");
    assert_eq!(formatted_eta(None), "ETA --:--");
    assert_eq!(formatted_eta(Some((0, 0))), "ETA 00:00");
}

#[test]
fn progress_mode_follows_settings() {
    assert_eq!(
        choose_progress_mode(Some(10), false, false, true, true),
        (ProgressMode::Disabled, false)
    );
    assert_eq!(
        choose_progress_mode(Some(10), true, true, false, true),
        (ProgressMode::Disabled, false)
    );
    assert_eq!(
        choose_progress_mode(Some(10), true, true, true, true),
        (ProgressMode::Requests, true)
    );
    assert_eq!(
        choose_progress_mode(None, true, true, true, false),
        (ProgressMode::Duration, false)
    );
    assert_eq!(
        choose_progress_mode(None, false, true, true, true),
        (ProgressMode::Spinner, true)
    );
}

#[test]
fn duration_to_millis_clamps() {
    assert_eq!(duration_to_millis(0), 1);
    assert_eq!(duration_to_millis(1_500), 1_500);
    assert_eq!(duration_to_millis(u128::MAX), u64::MAX);
    assert_eq!(duration_position(500, 1_000), 500);
    assert_eq!(duration_position(1_500, 1_000), 1_000);
}

#[test]
fn colors_wrap_text_in_ansi_escapes_when_enabled() {
    console::set_colors_enabled(true);

    assert_eq!(success("ok"), "\x1b[32mok\x1b[0m");
    assert_eq!(error("bad"), "\x1b[31mbad\x1b[0m");
    assert_eq!(warning("warn"), "\x1b[33mwarn\x1b[0m");
    assert_eq!(dim("dimmed"), "\x1b[2mdimmed\x1b[0m");
    assert_eq!(bold("strong"), "\x1b[1mstrong\x1b[0m");
    assert_eq!(maybe_color("x", ColorMode::Warning, true), "\x1b[33mx\x1b[0m");
}
