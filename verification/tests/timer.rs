use oaf::timer::LogLevel;
use oaf::timer::TimeUnit;
use oaf::timer::Timer;
use oaf::timer::display_scale;
use oaf::timer::scale_micros;
use oaf::timer::scale_millis;
use oaf::timer::scale_nanos;

#[test]
fn scaling_matches_the_usual_arithmetic() {
    assert_eq!(scale_millis(2, 345_678_901), 2_345);
    assert_eq!(scale_micros(2, 345_678_901), 2_345_678);
    assert_eq!(scale_nanos(2, 345_678_901), 2_345_678_901);
    assert_eq!(scale_millis(0, 999_999_999), 999);
    assert_eq!(scale_nanos(0, 0), 0);
}

#[test]
fn scaling_saturates_instead_of_overflowing() {
    assert_eq!(scale_nanos(u64::MAX, 999_999_999), u64::MAX);
    assert_eq!(scale_millis(u64::MAX, 0), u64::MAX);
    assert_eq!(scale_micros(u64::MAX / 2, 0), u64::MAX);
}

#[test]
fn display_scale_picks_the_coarsest_nonzero_unit() {
    assert_eq!(display_scale(3, 3200, 3_200_000, 0), (3, 3200, TimeUnit::Seconds));
    assert_eq!(display_scale(0, 5, 5100, 0), (5, 5100, TimeUnit::Millis));
    assert_eq!(display_scale(0, 0, 7, 7200), (7, 7200, TimeUnit::Micros));
    assert_eq!(display_scale(0, 0, 0, 42), (42, 42_000, TimeUnit::Nanos));
}

#[test]
fn new_timer_defaults_to_trace_and_logging_on_drop() {
    let tmr = Timer::new("read");
    assert_eq!(tmr.name().as_str(), "read");
    assert_eq!(tmr.level(), LogLevel::Trace);
    assert!(tmr.should_log_on_drop());
    assert!(tmr.message().is_none());
}

#[test]
fn builders_adjust_level_and_drop_flag() {
    let tmr = Timer::new("scan").at_level(LogLevel::Info).log_on_drop(false);
    assert_eq!(tmr.level(), LogLevel::Info);
    assert!(!tmr.should_log_on_drop());
    let tmr = Timer::bracket_timer("open", LogLevel::Warn);
    assert_eq!(tmr.level(), LogLevel::Warn);
    assert!(tmr.should_log_on_drop());
}

#[test]
fn set_message_replaces_and_empty_clears() {
    let mut tmr = Timer::new("write");
    tmr.set_message("wrote 3 entries");
    assert_eq!(tmr.message().as_ref().unwrap().as_str(), "wrote 3 entries");
    tmr.set_message("replaced");
    assert_eq!(tmr.message().as_ref().unwrap().as_str(), "replaced");
    tmr.set_message("");
    assert!(tmr.message().is_none());
}

#[test]
fn append_message_concatenates() {
    let mut tmr = Timer::new("write");
    tmr.append_message("part one");
    tmr.append_message(" and two");
    assert_eq!(tmr.message().as_ref().unwrap().as_str(), "part one and two");
}

#[test]
fn elapsed_readings_are_consistent() {
    let tmr = Timer::new("clock");
    let nanos = tmr.nanos();
    let micros = tmr.micros();
    assert!(micros >= nanos / 1_000_000_000 * 1_000_000);
    let _ = tmr.seconds();
    let _ = tmr.millis();
    let _ = tmr.elapsed();
}
