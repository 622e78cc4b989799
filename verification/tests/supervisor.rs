use ipmi_fan_control::config::{Aggregation, Config, Interval, LogLevel, Retries,
    RetryDelayMs, SessionName, SessionType, SessionTypeCompat, Sessions, Source, Step, Zone};
use ipmi_fan_control::error::Error;
use ipmi_fan_control::session::{FanMode, HwCommand};
use ipmi_fan_control::supervisor::{MainApp, SupEvent, Supervisor, TaskEnd, session_plans};

fn zone_for(session: &str, ipmi_zones: Vec<u8>) -> Zone {
    Zone {
        session: SessionName(session.to_string()),
        interval: Interval(1),
        retries: Retries(2),
        retry_delay_ms: RetryDelayMs(500),
        ipmi_zones,
        sources: vec![Source::Ipmi { sensor: "CPU Temp".to_string() }],
        aggregation: Aggregation::Maximum,
        steps: vec![Step { temp: 40, dcycle: 20 }, Step { temp: 80, dcycle: 100 }],
    }
}

fn two_zone_config() -> Config {
    Config {
        log_level: LogLevel::Info,
        sessions: Sessions(vec![
            ("default".to_string(), SessionTypeCompat(SessionType::Local)),
            ("unused".to_string(), SessionTypeCompat(SessionType::Local)),
        ]),
        zones: vec![zone_for("default", vec![0]), zone_for("default", vec![1, 2])],
    }
}

#[test]
fn unused_sessions_are_never_opened() {
    let plans = session_plans(&two_zone_config());
    assert_eq!(plans.len(), 1);
    assert_eq!(plans[0].name, "default");
    assert_eq!(plans[0].restore_zones, vec![0, 1, 2]);
}

#[test]
fn new_records_one_session_per_used_name() {
    let (app, setups) = MainApp::new(two_zone_config(), &vec![FanMode::Standard]);
    assert_eq!(app.sessions.len(), 1);
    assert_eq!(app.sessions[0].name, "default");
    assert_eq!(app.sessions[0].orig_fan_mode, FanMode::Standard);
    assert_eq!(app.sessions[0].restore_zones, vec![0, 1, 2]);
    assert_eq!(setups, vec![vec![HwCommand::SetFanMode(FanMode::Full)]]);
}

#[test]
fn first_fatal_error_cancels_the_rest_and_becomes_the_result() {
    let (app, _setups) = MainApp::new(two_zone_config(), &vec![FanMode::Standard]);
    let events = vec![
        SupEvent::TaskFinished(TaskEnd::Failed(Error::HardwareIo)),
        SupEvent::TaskFinished(TaskEnd::Cancelled),
    ];
    let (outcome, teardowns) = app.run(&events);
    assert_eq!(outcome, Err(Error::HardwareIo));
    // Every session's release sequence has been produced before returning.
    assert_eq!(teardowns.len(), 1);
    assert_eq!(
        teardowns[0],
        vec![
            HwCommand::SetDutyCycle { zone: 0, dcycle: 100 },
            HwCommand::SetDutyCycle { zone: 1, dcycle: 100 },
            HwCommand::SetDutyCycle { zone: 2, dcycle: 100 },
            HwCommand::SetFanMode(FanMode::Standard),
        ]
    );
}

#[test]
fn clean_interruption_is_success() {
    let (app, _setups) = MainApp::new(two_zone_config(), &vec![FanMode::Full]);
    let events = vec![
        SupEvent::Interrupted,
        SupEvent::TaskFinished(TaskEnd::Cancelled),
        SupEvent::TaskFinished(TaskEnd::Cancelled),
    ];
    let (outcome, teardowns) = app.run(&events);
    assert_eq!(outcome, Ok(()));
    assert_eq!(teardowns.len(), 1);
}

#[test]
fn later_events_never_change_the_first_outcome() {
    let mut sup = Supervisor::new(2);
    let cancel = sup.on_event(SupEvent::TaskFinished(TaskEnd::Failed(Error::RetryExhausted)));
    assert!(cancel);
    sup.on_event(SupEvent::Interrupted);
    sup.on_event(SupEvent::TaskFinished(TaskEnd::Panicked));
    assert!(sup.done());
    assert_eq!(sup.outcome(), Err(Error::RetryExhausted));
}

#[test]
fn panicked_task_surfaces_as_abnormal_termination() {
    let mut sup = Supervisor::new(1);
    sup.on_event(SupEvent::TaskFinished(TaskEnd::Panicked));
    assert!(sup.done());
    assert_eq!(sup.outcome(), Err(Error::TaskTerminatedAbnormally));
}

#[test]
fn run_down_without_any_event_recorded_is_success() {
    let (app, _setups) = MainApp::new(two_zone_config(), &vec![FanMode::Full]);
    let events: Vec<SupEvent> = vec![];
    let (outcome, _teardowns) = app.run(&events);
    assert_eq!(outcome, Ok(()));
}

#[test]
fn tick_writes_only_changed_duty_cycles() {
    let zone = zone_for("default", vec![4, 5]);
    // At 60 degrees the curve gives (60-40)*(100-20)/(80-40) + 20 == 60.
    let writes = MainApp::update_duty_cycle(&zone, 60, &vec![60, 50]);
    assert_eq!(writes, vec![HwCommand::SetDutyCycle { zone: 5, dcycle: 60 }]);
    let no_writes = MainApp::update_duty_cycle(&zone, 60, &vec![60, 60]);
    assert!(no_writes.is_empty());
}
