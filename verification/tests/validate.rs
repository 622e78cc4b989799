use ipmi_fan_control::config::{Aggregation, Config, Interval, LogLevel, Retries,
    RetryDelayMs, SessionName, SessionType, SessionTypeCompat, Sessions, Source, Step, Zone};
use ipmi_fan_control::validate::{ensure_default_session, validate_config, ValidationError};

fn local_sessions(names: &[&str]) -> Sessions {
    Sessions(
        names
            .iter()
            .map(|n| (n.to_string(), SessionTypeCompat(SessionType::Local)))
            .collect(),
    )
}

fn zone() -> Zone {
    Zone {
        session: SessionName("default".to_string()),
        interval: Interval(1),
        retries: Retries(2),
        retry_delay_ms: RetryDelayMs(500),
        ipmi_zones: vec![0],
        sources: vec![Source::Ipmi { sensor: "CPU Temp".to_string() }],
        aggregation: Aggregation::Maximum,
        steps: vec![Step { temp: 40, dcycle: 20 }, Step { temp: 80, dcycle: 100 }],
    }
}

fn config(zones: Vec<Zone>) -> Config {
    Config { log_level: LogLevel::Info, sessions: local_sessions(&["default"]), zones }
}

#[test]
fn valid_config_passes() {
    assert_eq!(validate_config(&config(vec![zone()])), Ok(()));
}

#[test]
fn empty_zone_list_is_rejected() {
    assert_eq!(validate_config(&config(vec![])), Err(ValidationError::NoZones));
}

#[test]
fn zero_interval_is_rejected() {
    let mut z = zone();
    z.interval = Interval(0);
    assert_eq!(
        validate_config(&config(vec![zone(), z])),
        Err(ValidationError::ZeroInterval { zone: 1 })
    );
}

#[test]
fn empty_ipmi_zone_list_is_rejected() {
    let mut z = zone();
    z.ipmi_zones = vec![];
    // Both index and source lists empty: the zone-index check runs first.
    z.sources = vec![];
    assert_eq!(
        validate_config(&config(vec![z])),
        Err(ValidationError::NoIpmiZones { zone: 0 })
    );
}

#[test]
fn empty_source_list_is_rejected() {
    let mut z = zone();
    z.sources = vec![];
    assert_eq!(validate_config(&config(vec![z])), Err(ValidationError::NoSources { zone: 0 }));
}

#[test]
fn unknown_session_is_rejected() {
    let mut z = zone();
    z.session = SessionName("remote".to_string());
    assert_eq!(
        validate_config(&config(vec![z])),
        Err(ValidationError::UnknownSession { zone: 0 })
    );
}

#[test]
fn top_zero_is_rejected() {
    let mut z = zone();
    z.aggregation = Aggregation::Average { top: Some(0) };
    assert_eq!(
        validate_config(&config(vec![z])),
        Err(ValidationError::ZeroTopCount { zone: 0 })
    );
}

#[test]
fn non_increasing_temperatures_are_rejected() {
    let mut z = zone();
    z.steps = vec![Step { temp: 40, dcycle: 20 }, Step { temp: 40, dcycle: 30 }];
    assert_eq!(
        validate_config(&config(vec![z])),
        Err(ValidationError::TempsNotIncreasing { zone: 0 })
    );
}

#[test]
fn decreasing_duty_cycles_are_rejected() {
    let mut z = zone();
    z.steps = vec![Step { temp: 40, dcycle: 50 }, Step { temp: 60, dcycle: 20 }];
    assert_eq!(
        validate_config(&config(vec![z])),
        Err(ValidationError::DutyCyclesDecreasing { zone: 0 })
    );
}

#[test]
fn duty_cycle_over_100_is_rejected() {
    let mut z = zone();
    z.steps = vec![Step { temp: 40, dcycle: 20 }, Step { temp: 60, dcycle: 101 }];
    assert_eq!(
        validate_config(&config(vec![z])),
        Err(ValidationError::DutyCycleOutOfRange { zone: 0, step: 1 })
    );
}

#[test]
fn empty_step_table_passes_validation() {
    // The loader never checked for it; the curve treats it defensively.
    let mut z = zone();
    z.steps = vec![];
    assert_eq!(validate_config(&config(vec![z])), Ok(()));
}

#[test]
fn default_session_is_added_when_missing() {
    let mut sessions = local_sessions(&["remote"]);
    ensure_default_session(&mut sessions);
    assert_eq!(sessions.0.len(), 2);
    assert_eq!(sessions.0[1].0, "default");
    assert!(matches!(sessions.0[1].1 .0, SessionType::Local));
}

#[test]
fn existing_default_session_is_kept() {
    let mut sessions = local_sessions(&["default", "remote"]);
    ensure_default_session(&mut sessions);
    assert_eq!(sessions.0.len(), 2);
    assert_eq!(sessions.0[0].0, "default");
    assert_eq!(sessions.0[1].0, "remote");
}
