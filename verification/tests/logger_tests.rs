use adsys_mount::Logger;
use adsys_mount::logger::LogLevel;

#[test]
fn every_level_up_to_trace_is_enabled() {
    let logger = Logger {};
    assert!(logger.enabled(LogLevel::Error));
    assert!(logger.enabled(LogLevel::Warn));
    assert!(logger.enabled(LogLevel::Info));
    assert!(logger.enabled(LogLevel::Debug));
    assert!(logger.enabled(LogLevel::Trace));
}

#[test]
fn log_lines_carry_time_level_and_record() {
    let logger = Logger {};
    let line = logger.format_line("12/10/2026 10:04:59", "DEBUG", "Mounting entry a://x");
    assert_eq!(line, "12/10/2026 10:04:59 - DEBUG: Mounting entry a://x");
}
