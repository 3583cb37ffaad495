use secret_vpn::{
    start_step, stop_step, Delivery, PidInfo, RecordState, StartEvent, StartOutcome, StartPhase,
    StopEvent, StopOutcome, StopPhase,
};

fn run_start(events: Vec<StartEvent>) -> (Vec<StartPhase>, StartPhase) {
    let mut phase = StartPhase::CheckPrivilege;
    let mut seen = vec![phase];
    for ev in events {
        phase = start_step(phase, ev);
        seen.push(phase);
    }
    (seen, phase)
}

fn run_stop(events: Vec<StopEvent>) -> (Vec<StopPhase>, StopPhase) {
    let mut phase = StopPhase::CheckPrivilege;
    let mut seen = vec![phase];
    for ev in events {
        phase = stop_step(phase, ev);
        seen.push(phase);
    }
    (seen, phase)
}

#[test]
fn start_refused_while_record_live() {
    let rec = PidInfo { pid: 4242, start_time: 1000 };
    let (seen, fin) = run_start(vec![
        StartEvent::PrivilegeChecked(true),
        StartEvent::EnvResolved(true),
        StartEvent::DirPrepared(true),
        StartEvent::RecordLoaded(RecordState::Present(rec)),
        StartEvent::ProbeResult(true),
    ]);
    assert_eq!(fin, StartPhase::Done(StartOutcome::AlreadyRunning));
    assert!(!seen.iter().any(|p| matches!(p, StartPhase::Spawn)));
    assert!(!seen.iter().any(|p| matches!(p, StartPhase::SaveRecord(_))));
}

#[test]
fn fresh_start_spawns_and_saves_matching_pid() {
    let spawned = PidInfo { pid: 777, start_time: 5000 };
    let (seen, fin) = run_start(vec![
        StartEvent::PrivilegeChecked(true),
        StartEvent::EnvResolved(true),
        StartEvent::DirPrepared(true),
        StartEvent::RecordLoaded(RecordState::Missing),
        StartEvent::SpawnResult(Some(spawned)),
        StartEvent::SaveResult(true),
    ]);
    assert!(seen.iter().any(|p| matches!(p, StartPhase::Spawn)));
    assert!(seen.contains(&StartPhase::SaveRecord(spawned)));
    assert_eq!(fin, StartPhase::Done(StartOutcome::Started { info: spawned, saved: true }));
}

#[test]
fn start_save_failure_is_not_fatal() {
    let spawned = PidInfo { pid: 778, start_time: 5001 };
    let (_, fin) = run_start(vec![
        StartEvent::PrivilegeChecked(true),
        StartEvent::EnvResolved(true),
        StartEvent::DirPrepared(true),
        StartEvent::RecordLoaded(RecordState::Missing),
        StartEvent::SpawnResult(Some(spawned)),
        StartEvent::SaveResult(false),
    ]);
    assert_eq!(fin, StartPhase::Done(StartOutcome::Started { info: spawned, saved: false }));
}

#[test]
fn start_privilege_refusal_is_fatal() {
    let (seen, fin) = run_start(vec![StartEvent::PrivilegeChecked(false)]);
    assert_eq!(fin, StartPhase::Done(StartOutcome::PrivilegeRefused));
    assert!(!seen.iter().any(|p| matches!(p, StartPhase::Spawn)));
}

#[test]
fn start_env_and_dir_failures_are_fatal() {
    let (_, fin) = run_start(vec![
        StartEvent::PrivilegeChecked(true),
        StartEvent::EnvResolved(false),
    ]);
    assert_eq!(fin, StartPhase::Done(StartOutcome::EnvUnavailable));
    let (_, fin) = run_start(vec![
        StartEvent::PrivilegeChecked(true),
        StartEvent::EnvResolved(true),
        StartEvent::DirPrepared(false),
    ]);
    assert_eq!(fin, StartPhase::Done(StartOutcome::DirectoryFailed));
}

#[test]
fn start_spawn_failure_is_fatal() {
    let (_, fin) = run_start(vec![
        StartEvent::PrivilegeChecked(true),
        StartEvent::EnvResolved(true),
        StartEvent::DirPrepared(true),
        StartEvent::RecordLoaded(RecordState::Missing),
        StartEvent::SpawnResult(None),
    ]);
    assert_eq!(fin, StartPhase::Done(StartOutcome::SpawnFailed));
}

#[test]
fn start_recovers_from_corrupt_record() {
    let spawned = PidInfo { pid: 900, start_time: 42 };
    let (seen, fin) = run_start(vec![
        StartEvent::PrivilegeChecked(true),
        StartEvent::EnvResolved(true),
        StartEvent::DirPrepared(true),
        StartEvent::RecordLoaded(RecordState::Corrupt),
        StartEvent::CleanupDone(true),
        StartEvent::SpawnResult(Some(spawned)),
        StartEvent::SaveResult(true),
    ]);
    assert!(seen.contains(&StartPhase::CleanupStale));
    assert_eq!(fin, StartPhase::Done(StartOutcome::Started { info: spawned, saved: true }));
}

#[test]
fn start_proceeds_past_stale_record() {
    let stale = PidInfo { pid: 31337, start_time: 1 };
    let spawned = PidInfo { pid: 901, start_time: 43 };
    let (seen, fin) = run_start(vec![
        StartEvent::PrivilegeChecked(true),
        StartEvent::EnvResolved(true),
        StartEvent::DirPrepared(true),
        StartEvent::RecordLoaded(RecordState::Present(stale)),
        StartEvent::ProbeResult(false),
        StartEvent::CleanupDone(true),
        StartEvent::SpawnResult(Some(spawned)),
        StartEvent::SaveResult(true),
    ]);
    assert!(seen.contains(&StartPhase::CleanupStale));
    assert_eq!(fin, StartPhase::Done(StartOutcome::Started { info: spawned, saved: true }));
}

#[test]
fn stop_without_record_sends_no_signal() {
    let (seen, fin) = run_stop(vec![
        StopEvent::PrivilegeChecked(true),
        StopEvent::EnvResolved(true),
        StopEvent::RecordLoaded(RecordState::Missing),
    ]);
    assert_eq!(fin, StopPhase::Done(StopOutcome::NotRunning));
    assert!(!seen.iter().any(|p| matches!(p, StopPhase::SignalGraceful(_))));
    assert!(!seen.iter().any(|p| matches!(p, StopPhase::SignalForceful(_))));
}

#[test]
fn stop_live_pid_always_clears_record() {
    let rec = PidInfo { pid: 555, start_time: 9 };
    for still_alive in [false, true] {
        let (seen, fin) = run_stop(vec![
            StopEvent::PrivilegeChecked(true),
            StopEvent::EnvResolved(true),
            StopEvent::RecordLoaded(RecordState::Present(rec)),
            StopEvent::SignalSent(Delivery::Delivered),
            StopEvent::ProbeResult(still_alive),
            StopEvent::CleanupDone(true),
        ]);
        assert!(seen.iter().any(|p| matches!(p, StopPhase::Cleanup(_, _))));
        let expected = if still_alive {
            StopOutcome::StillRunning { cleaned: true }
        } else {
            StopOutcome::Terminated { cleaned: true }
        };
        assert_eq!(fin, StopPhase::Done(expected));
    }
}

#[test]
fn stop_corrupt_record_is_deleted_and_reports_not_running() {
    let (seen, fin) = run_stop(vec![
        StopEvent::PrivilegeChecked(true),
        StopEvent::EnvResolved(true),
        StopEvent::RecordLoaded(RecordState::Corrupt),
        StopEvent::CleanupDone(true),
    ]);
    assert!(seen.contains(&StopPhase::CleanupCorrupt));
    assert_eq!(fin, StopPhase::Done(StopOutcome::NotRunning));
}

#[test]
fn stop_escalates_exactly_once_on_command_failure() {
    let rec = PidInfo { pid: 555, start_time: 9 };
    let (seen, fin) = run_stop(vec![
        StopEvent::PrivilegeChecked(true),
        StopEvent::EnvResolved(true),
        StopEvent::RecordLoaded(RecordState::Present(rec)),
        StopEvent::SignalSent(Delivery::CommandFailed),
        StopEvent::SignalSent(Delivery::Delivered),
        StopEvent::ProbeResult(false),
        StopEvent::CleanupDone(true),
    ]);
    let forceful = seen
        .iter()
        .filter(|p| matches!(p, StopPhase::SignalForceful(_)))
        .count();
    assert_eq!(forceful, 1);
    assert_eq!(fin, StopPhase::Done(StopOutcome::Terminated { cleaned: true }));
}

#[test]
fn stop_graceful_success_never_escalates() {
    let rec = PidInfo { pid: 556, start_time: 9 };
    let (seen, _) = run_stop(vec![
        StopEvent::PrivilegeChecked(true),
        StopEvent::EnvResolved(true),
        StopEvent::RecordLoaded(RecordState::Present(rec)),
        StopEvent::SignalSent(Delivery::Delivered),
        StopEvent::ProbeResult(false),
        StopEvent::CleanupDone(true),
    ]);
    assert!(!seen.iter().any(|p| matches!(p, StopPhase::SignalForceful(_))));
}

#[test]
fn stop_stale_pid_is_treated_as_already_terminated() {
    let rec = PidInfo { pid: 2222, start_time: 3 };
    let (seen, fin) = run_stop(vec![
        StopEvent::PrivilegeChecked(true),
        StopEvent::EnvResolved(true),
        StopEvent::RecordLoaded(RecordState::Present(rec)),
        StopEvent::SignalSent(Delivery::CommandFailed),
        StopEvent::SignalSent(Delivery::CommandFailed),
        StopEvent::ProbeResult(false),
        StopEvent::CleanupDone(true),
    ]);
    assert!(seen.contains(&StopPhase::CleanupGone(rec)));
    assert_eq!(fin, StopPhase::Done(StopOutcome::NotRunning));
}

#[test]
fn stop_surviving_process_preserves_record() {
    let rec = PidInfo { pid: 2223, start_time: 3 };
    let (seen, fin) = run_stop(vec![
        StopEvent::PrivilegeChecked(true),
        StopEvent::EnvResolved(true),
        StopEvent::RecordLoaded(RecordState::Present(rec)),
        StopEvent::SignalSent(Delivery::CommandFailed),
        StopEvent::SignalSent(Delivery::CommandFailed),
        StopEvent::ProbeResult(true),
    ]);
    assert_eq!(fin, StopPhase::Done(StopOutcome::SignalFailed));
    assert!(!seen.iter().any(|p| matches!(p, StopPhase::Cleanup(_, _))));
    assert!(!seen.iter().any(|p| matches!(p, StopPhase::CleanupGone(_))));
}

#[test]
fn stop_delivery_error_preserves_record() {
    let rec = PidInfo { pid: 2224, start_time: 3 };
    let (seen, fin) = run_stop(vec![
        StopEvent::PrivilegeChecked(true),
        StopEvent::EnvResolved(true),
        StopEvent::RecordLoaded(RecordState::Present(rec)),
        StopEvent::SignalSent(Delivery::DeliveryError),
    ]);
    assert_eq!(fin, StopPhase::Done(StopOutcome::SignalFailed));
    assert!(!seen.iter().any(|p| matches!(p, StopPhase::Cleanup(_, _))));
}

#[test]
fn stop_privilege_refusal_is_fatal() {
    let (_, fin) = run_stop(vec![StopEvent::PrivilegeChecked(false)]);
    assert_eq!(fin, StopPhase::Done(StopOutcome::PrivilegeRefused));
}

#[test]
fn stop_cleanup_failure_is_only_a_warning() {
    let rec = PidInfo { pid: 557, start_time: 9 };
    let (_, fin) = run_stop(vec![
        StopEvent::PrivilegeChecked(true),
        StopEvent::EnvResolved(true),
        StopEvent::RecordLoaded(RecordState::Present(rec)),
        StopEvent::SignalSent(Delivery::Delivered),
        StopEvent::ProbeResult(false),
        StopEvent::CleanupDone(false),
    ]);
    assert_eq!(fin, StopPhase::Done(StopOutcome::Terminated { cleaned: false }));
}

#[test]
fn finished_operation_absorbs_further_events() {
    let (_, fin) = run_start(vec![
        StartEvent::PrivilegeChecked(false),
        StartEvent::PrivilegeChecked(true),
        StartEvent::RecordLoaded(RecordState::Missing),
    ]);
    assert_eq!(fin, StartPhase::Done(StartOutcome::PrivilegeRefused));
    let (_, fin) = run_stop(vec![
        StopEvent::PrivilegeChecked(false),
        StopEvent::PrivilegeChecked(true),
    ]);
    assert_eq!(fin, StopPhase::Done(StopOutcome::PrivilegeRefused));
}
