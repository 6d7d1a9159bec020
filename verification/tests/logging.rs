use rlaunch::logging::{ansiColor, debug, error, info, log, splitLines, u32ToDecimal, warn, LogLevel};

#[test]
fn decimal_rendering_is_exact() {
    assert_eq!(u32ToDecimal(0), "0");
    assert_eq!(u32ToDecimal(7), "7");
    assert_eq!(u32ToDecimal(128), "128");
    assert_eq!(u32ToDecimal(240), "240");
    assert_eq!(u32ToDecimal(4294967295), "4294967295");
}

#[test]
fn ansi_escape_selects_the_rgb_components() {
    assert_eq!(ansiColor(0x80_80_80), "\u{1b}[38;2;128;128;128m");
    assert_eq!(ansiColor(0xF0_F0_00), "\u{1b}[38;2;240;240;0m");
    assert_eq!(ansiColor(0x00_00_00), "\u{1b}[38;2;0;0;0m");
}

#[test]
fn levels_have_their_colors_and_names() {
    assert_eq!(LogLevel::DEBUG.color(), 0x80_80_80);
    assert_eq!(LogLevel::INFO.color(), 0xF0_F0_F0);
    assert_eq!(LogLevel::WARN.color(), 0xF0_F0_00);
    assert_eq!(LogLevel::ERROR.color(), 0xD0_00_00);
    assert_eq!(LogLevel::FATAL.color(), 0xFF_00_00);
    assert_eq!(LogLevel::DEBUG.name(), "debug");
    assert_eq!(LogLevel::INFO.name(), "info");
    assert_eq!(LogLevel::WARN.name(), "warn");
    assert_eq!(LogLevel::ERROR.name(), "error");
    assert_eq!(LogLevel::FATAL.name(), "fatal");
}

#[test]
fn lines_split_at_newlines() {
    assert_eq!(splitLines(""), Vec::<String>::new());
    assert_eq!(splitLines("one"), vec![String::from("one")]);
    assert_eq!(splitLines("a\nb"), vec![String::from("a"), String::from("b")]);
    assert_eq!(splitLines("a\r\nb"), vec![String::from("a"), String::from("b")]);
    assert_eq!(splitLines("a\n"), vec![String::from("a")]);
    assert_eq!(splitLines("\n"), vec![String::from("")]);
    assert_eq!(splitLines("a\n\nb"), vec![String::from("a"), String::from(""), String::from("b")]);
}

#[test]
fn each_rendered_line_carries_prefix_and_reset() {
    let lines = debug("hello");
    assert_eq!(lines, vec![String::from("\u{1b}[38;2;128;128;128m[debug][RLaunch] hello\u{1b}[0m")]);
    let two = info("OS: linux\nArch: x64");
    assert_eq!(
        two,
        vec![
            String::from("\u{1b}[38;2;240;240;240m[info][RLaunch] OS: linux\u{1b}[0m"),
            String::from("\u{1b}[38;2;240;240;240m[info][RLaunch] Arch: x64\u{1b}[0m"),
        ]
    );
}

#[test]
fn warn_and_error_use_their_own_tags() {
    assert_eq!(warn("w"), vec![String::from("\u{1b}[38;2;240;240;0m[warn][RLaunch] w\u{1b}[0m")]);
    assert_eq!(error("e"), vec![String::from("\u{1b}[38;2;208;0;0m[error][RLaunch] e\u{1b}[0m")]);
}

#[test]
fn a_message_below_the_threshold_renders_nothing() {
    assert_eq!(log(LogLevel::DEBUG, LogLevel::INFO, "quiet"), Vec::<String>::new());
    assert_eq!(log(LogLevel::FATAL, LogLevel::DEBUG, "loud").len(), 1);
}
