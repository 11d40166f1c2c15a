use hvcore::logging::LevelFilter;
use hvcore::logging::LogLevel;
use hvcore::logging::args_color;
use hvcore::logging::format_log_line;
use hvcore::logging::init;
use hvcore::logging::level_color;
use hvcore::logging::print;

#[test]
fn print_expands_newlines_for_the_uart() {
    let msg: Vec<u8> = b"ab\ncd\n".to_vec();
    assert_eq!(print(&msg), b"ab\r\ncd\r\n".to_vec());
    assert_eq!(print(&Vec::new()), Vec::<u8>::new());
    assert_eq!(print(&b"plain".to_vec()), b"plain".to_vec());
}

#[test]
fn format_log_line_matches_the_colored_layout() {
    let target: Vec<u8> = b"hv".to_vec();
    let msg: Vec<u8> = b"ok".to_vec();
    let out = format_log_line(LogLevel::Info, 2, &target, 7, &msg);
    let expected = format!(
        "\u{1b}[37m[\u{1b}[92mINFO \u{1b}[m \u{1b}[37m2\u{1b}[m] \u{1b}[37m(hv:7)\u{1b}[m \u{1b}[32mok\u{1b}[m\n\u{1b}[m"
    );
    assert_eq!(out, expected.as_bytes().to_vec());
}

#[test]
fn format_log_line_writes_multi_digit_numbers() {
    let target: Vec<u8> = b"pci".to_vec();
    let msg: Vec<u8> = b"x".to_vec();
    let out = format_log_line(LogLevel::Error, 13, &target, 205, &msg);
    let expected = format!(
        "\u{1b}[37m[\u{1b}[91mERROR\u{1b}[m \u{1b}[37m13\u{1b}[m] \u{1b}[37m(pci:205)\u{1b}[m \u{1b}[31mx\u{1b}[m\n\u{1b}[m"
    );
    assert_eq!(out, expected.as_bytes().to_vec());
}

#[test]
fn colors_follow_severity() {
    assert_eq!(level_color(LogLevel::Error), 91);
    assert_eq!(level_color(LogLevel::Warn), 93);
    assert_eq!(level_color(LogLevel::Info), 92);
    assert_eq!(level_color(LogLevel::Debug), 96);
    assert_eq!(level_color(LogLevel::Trace), 90);
    assert_eq!(args_color(LogLevel::Error), 31);
    assert_eq!(args_color(LogLevel::Warn), 33);
    assert_eq!(args_color(LogLevel::Info), 32);
    assert_eq!(args_color(LogLevel::Debug), 36);
    assert_eq!(args_color(LogLevel::Trace), 90);
}

#[test]
fn init_reads_the_level_word() {
    assert_eq!(init(None), LevelFilter::Off);
    assert_eq!(init(Some(&b"error".to_vec())), LevelFilter::Error);
    assert_eq!(init(Some(&b"warn".to_vec())), LevelFilter::Warn);
    assert_eq!(init(Some(&b"info".to_vec())), LevelFilter::Info);
    assert_eq!(init(Some(&b"debug".to_vec())), LevelFilter::Debug);
    assert_eq!(init(Some(&b"trace".to_vec())), LevelFilter::Trace);
    assert_eq!(init(Some(&b"verbose".to_vec())), LevelFilter::Off);
    assert_eq!(init(Some(&b"".to_vec())), LevelFilter::Off);
}
