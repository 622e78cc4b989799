use std::time::Duration;

use ipmi_fan_control::config::{Aggregation, Interval, LogLevel, Password, Retries,
    RetryDelayMs, SessionName, SessionType, SessionTypeCompat, Zone, Source, Step};

#[test]
fn interval_converts_to_whole_seconds() {
    assert_eq!(Interval(7).to_duration(), Duration::from_secs(7));
    assert_eq!(Interval(0).to_duration(), Duration::from_secs(0));
}

#[test]
fn retry_schedule_has_one_fixed_delay_per_retry() {
    let zone = Zone {
        session: SessionName("default".to_string()),
        interval: Interval(1),
        retries: Retries(3),
        retry_delay_ms: RetryDelayMs(250),
        ipmi_zones: vec![0],
        sources: vec![Source::File { path: "t".to_string() }],
        aggregation: Aggregation::Maximum,
        steps: vec![Step { temp: 40, dcycle: 20 }],
    };
    assert_eq!(zone.retry_iter(), vec![Duration::from_millis(250); 3]);
}

#[test]
fn log_level_names() {
    assert_eq!(LogLevel::Error.as_str(), "error");
    assert_eq!(LogLevel::Warn.as_str(), "warn");
    assert_eq!(LogLevel::Info.as_str(), "info");
    assert_eq!(LogLevel::Debug.as_str(), "debug");
    assert_eq!(LogLevel::Trace.as_str(), "trace");
}

#[test]
fn defaults_match_the_daemon_conventions() {
    assert_eq!(LogLevel::default(), LogLevel::Info);
    assert_eq!(Interval::default(), Interval(1));
    assert_eq!(Retries::default().0, 2);
    assert_eq!(RetryDelayMs::default().0, 500);
    assert_eq!(SessionName::default().0, "default");
    assert!(matches!(Aggregation::default(), Aggregation::Maximum));
    assert!(matches!(SessionType::default(), SessionType::Local));
    assert!(matches!(SessionTypeCompat::default().0, SessionType::Local));
}

#[test]
fn passwords_never_print_themselves() {
    let p = Password("swordfish".to_string());
    assert_eq!(p.redacted(), "<redacted>");
}
