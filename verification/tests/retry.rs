use ipmi_fan_control::config::{Aggregation, Interval, Retries, RetryDelayMs, SessionName,
    Source, Step, Zone};
use ipmi_fan_control::error::Error;
use ipmi_fan_control::supervisor::{AttemptOutcome, MainApp};

fn zone_with_retries(retries: usize) -> Zone {
    Zone {
        session: SessionName("default".to_string()),
        interval: Interval(1),
        retries: Retries(retries),
        retry_delay_ms: RetryDelayMs(500),
        ipmi_zones: vec![0],
        sources: vec![Source::File { path: "t".to_string() }],
        aggregation: Aggregation::Maximum,
        steps: vec![Step { temp: 40, dcycle: 20 }, Step { temp: 80, dcycle: 100 }],
    }
}

#[test]
fn succeeds_on_third_attempt_after_two_failures() {
    let zone = zone_with_retries(2);
    let attempts = vec![
        AttemptOutcome::Failed,
        AttemptOutcome::Failed,
        AttemptOutcome::Readings(vec![42]),
    ];
    let (result, made) = MainApp::get_temp(&zone, &attempts);
    assert_eq!(result, Ok(42));
    assert_eq!(made, 3);
}

#[test]
fn exhausts_all_attempts_when_every_one_fails() {
    let zone = zone_with_retries(2);
    let attempts = vec![AttemptOutcome::Failed, AttemptOutcome::Failed, AttemptOutcome::Failed];
    let (result, made) = MainApp::get_temp(&zone, &attempts);
    assert_eq!(result, Err(Error::RetryExhausted));
    assert_eq!(made, 3);
}

#[test]
fn first_attempt_success_makes_one_attempt() {
    let zone = zone_with_retries(2);
    let attempts = vec![
        AttemptOutcome::Readings(vec![70, 60, 50]),
        AttemptOutcome::Failed,
        AttemptOutcome::Failed,
    ];
    let (result, made) = MainApp::get_temp(&zone, &attempts);
    assert_eq!(result, Ok(70));
    assert_eq!(made, 1);
}

#[test]
fn zero_retries_allows_a_single_attempt() {
    let zone = zone_with_retries(0);
    let attempts = vec![AttemptOutcome::Failed];
    let (result, made) = MainApp::get_temp(&zone, &attempts);
    assert_eq!(result, Err(Error::RetryExhausted));
    assert_eq!(made, 1);
}
