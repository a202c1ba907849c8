use std::path::PathBuf;

use moneywright_desktop::readiness::LogCategory;
use moneywright_desktop::supervisor::{
    ChildEvent, ServerManager, ServerStatus, StartError, StartPoll, StartStep, POLL_INTERVAL_MS,
    STARTUP_TIMEOUT_MS,
};

/// A start as the application runs it, against a simulated child whose output is
/// `script`; each spawn gets the next id from `spawns`.
fn run_start(
    mgr: &mut ServerManager<u32>,
    spawns: &mut u32,
    script: &[ChildEvent],
    budget_ms: u64,
) -> Result<(), StartError> {
    if mgr.begin_start() == StartStep::AlreadyRunning {
        return Ok(());
    }
    *spawns += 1;
    mgr.attach_child(*spawns);
    let mut events = script.iter();
    let mut elapsed: u64 = 0;
    loop {
        match mgr.poll_start(elapsed, budget_ms) {
            StartPoll::Ready => return Ok(()),
            StartPoll::Failed(e) => return Err(e),
            StartPoll::Wait => {}
        }
        if let Some(event) = events.next() {
            mgr.on_child_event(event.clone());
        }
        elapsed += POLL_INTERVAL_MS;
    }
}

fn ready_script() -> Vec<ChildEvent> {
    vec![
        ChildEvent::Stdout("booting".to_string()),
        ChildEvent::Stdout("Server is running on port 17777\n".to_string()),
    ]
}

fn manager() -> ServerManager<u32> {
    ServerManager::new(PathBuf::from("/tmp/moneywright-test"))
}

#[test]
fn new_manager_is_stopped() {
    let mgr = manager();
    assert_eq!(mgr.status(), &ServerStatus::Stopped);
    assert!(!mgr.is_running());
    assert!(!mgr.has_child());
    assert_eq!(mgr.data_dir(), &PathBuf::from("/tmp/moneywright-test"));
}

#[test]
fn start_reaches_running_on_ready_line() {
    let mut mgr = manager();
    let mut spawns = 0;
    assert_eq!(run_start(&mut mgr, &mut spawns, &ready_script(), STARTUP_TIMEOUT_MS), Ok(()));
    assert_eq!(mgr.status(), &ServerStatus::Running);
    assert!(mgr.has_child());
    assert_eq!(spawns, 1);
}

#[test]
fn start_when_running_spawns_nothing() {
    let mut mgr = manager();
    let mut spawns = 0;
    run_start(&mut mgr, &mut spawns, &ready_script(), STARTUP_TIMEOUT_MS).unwrap();
    assert_eq!(run_start(&mut mgr, &mut spawns, &ready_script(), STARTUP_TIMEOUT_MS), Ok(()));
    assert_eq!(spawns, 1);
    assert_eq!(mgr.status(), &ServerStatus::Running);
    assert_eq!(mgr.begin_start(), StartStep::AlreadyRunning);
}

#[test]
fn stop_without_child_still_stops() {
    let mut mgr = manager();
    assert_eq!(mgr.stop(), None);
    assert_eq!(mgr.status(), &ServerStatus::Stopped);
    assert_eq!(mgr.stop(), None);
    assert_eq!(mgr.status(), &ServerStatus::Stopped);
}

#[test]
fn stop_after_failed_start_resets_status() {
    let mut mgr = manager();
    mgr.begin_start();
    mgr.launch_failed("Failed to spawn sidecar: not found".to_string());
    assert_eq!(mgr.status(), &ServerStatus::Error("Failed to spawn sidecar: not found".to_string()));
    assert_eq!(mgr.stop(), None);
    assert_eq!(mgr.status(), &ServerStatus::Stopped);
}

#[test]
fn stop_hands_back_the_child() {
    let mut mgr = manager();
    let mut spawns = 0;
    run_start(&mut mgr, &mut spawns, &ready_script(), STARTUP_TIMEOUT_MS).unwrap();
    assert_eq!(mgr.stop(), Some(1));
    assert_eq!(mgr.status(), &ServerStatus::Stopped);
    assert!(!mgr.has_child());
}

#[test]
fn quiet_child_times_out() {
    let mut mgr = manager();
    let mut spawns = 0;
    let script = vec![
        ChildEvent::Stdout("connecting to database...".to_string()),
        ChildEvent::Stderr("slow disk".to_string()),
        ChildEvent::Other,
    ];
    let result = run_start(&mut mgr, &mut spawns, &script, 1000);
    assert_eq!(result, Err(StartError::TimedOut));
    assert_eq!(result.unwrap_err().message(), "Server startup timed out");
    assert_eq!(mgr.status(), &ServerStatus::Starting);
    assert!(mgr.has_child());
}

#[test]
fn child_exiting_with_one_fails_the_start() {
    let mut mgr = manager();
    let mut spawns = 0;
    let script = vec![ChildEvent::Terminated(Some(1))];
    let result = run_start(&mut mgr, &mut spawns, &script, STARTUP_TIMEOUT_MS);
    assert_eq!(result, Err(StartError::Crashed("Server exited with code 1".to_string())));
    assert_eq!(mgr.status(), &ServerStatus::Error("Server exited with code 1".to_string()));
    assert!(!mgr.has_child());
}

#[test]
fn child_exiting_cleanly_while_starting_fails_the_start() {
    let mut mgr = manager();
    let mut spawns = 0;
    let script = vec![ChildEvent::Terminated(Some(0))];
    let result = run_start(&mut mgr, &mut spawns, &script, STARTUP_TIMEOUT_MS);
    assert_eq!(result, Err(StartError::StoppedUnexpectedly));
    assert_eq!(result.unwrap_err().message(), "Server stopped unexpectedly");
    assert_eq!(mgr.status(), &ServerStatus::Stopped);
}

#[test]
fn restart_is_one_stop_and_one_start() {
    let mut mgr = manager();
    let mut spawns = 0;
    run_start(&mut mgr, &mut spawns, &ready_script(), STARTUP_TIMEOUT_MS).unwrap();
    assert_eq!(mgr.stop(), Some(1));
    assert_eq!(run_start(&mut mgr, &mut spawns, &ready_script(), STARTUP_TIMEOUT_MS), Ok(()));
    assert_eq!(spawns, 2);
    assert_eq!(mgr.status(), &ServerStatus::Running);
    assert_eq!(mgr.stop(), Some(2));
}

#[test]
fn restart_of_crashing_child_ends_in_error() {
    let mut mgr = manager();
    let mut spawns = 0;
    run_start(&mut mgr, &mut spawns, &ready_script(), STARTUP_TIMEOUT_MS).unwrap();
    mgr.stop();
    let result = run_start(&mut mgr, &mut spawns, &[ChildEvent::Terminated(Some(3))], STARTUP_TIMEOUT_MS);
    assert_eq!(result, Err(StartError::Crashed("Server exited with code 3".to_string())));
    assert_eq!(spawns, 2);
    assert_eq!(mgr.status().label(), "error");
}

#[test]
fn stdout_lines_are_trimmed_and_prefixed() {
    let mut mgr = manager();
    mgr.begin_start();
    let step = mgr.on_child_event(ChildEvent::Stdout("  migrating  \r\n".to_string()));
    let entry = step.entry.unwrap();
    assert_eq!(entry.shown, "migrating");
    assert_eq!(entry.stored, "[moneywright] migrating");
    assert_eq!(entry.category, LogCategory::Server);
    assert!(!step.finished);
    assert_eq!(mgr.status(), &ServerStatus::Starting);
}

#[test]
fn stderr_lines_are_prefixed_as_errors() {
    let mut mgr = manager();
    let step = mgr.on_child_event(ChildEvent::Stderr("oops\n".to_string()));
    let entry = step.entry.unwrap();
    assert_eq!(entry.shown, "oops");
    assert_eq!(entry.stored, "[moneywright:err] oops");
    assert_eq!(entry.category, LogCategory::Error);
}

#[test]
fn blank_output_lines_are_dropped() {
    let mut mgr = manager();
    let step = mgr.on_child_event(ChildEvent::Stdout(" \n".to_string()));
    assert_eq!(step.entry, None);
    assert!(!step.finished);
    let step = mgr.on_child_event(ChildEvent::Other);
    assert_eq!(step.entry, None);
}

#[test]
fn exit_events_end_the_relay() {
    let mut mgr = manager();
    let mut spawns = 0;
    run_start(&mut mgr, &mut spawns, &ready_script(), STARTUP_TIMEOUT_MS).unwrap();
    let step = mgr.on_child_event(ChildEvent::Terminated(Some(-2)));
    assert!(step.finished);
    let entry = step.entry.unwrap();
    assert_eq!(entry.shown, "Server exited with code -2");
    assert_eq!(entry.stored, "Server exited with code -2");
    assert_eq!(entry.category, LogCategory::Error);
    assert_eq!(mgr.status(), &ServerStatus::Error("Server exited with code -2".to_string()));
    assert!(!mgr.has_child());
}

#[test]
fn exit_after_stop_keeps_stopped() {
    let mut mgr = manager();
    let mut spawns = 0;
    run_start(&mut mgr, &mut spawns, &ready_script(), STARTUP_TIMEOUT_MS).unwrap();
    mgr.stop();
    let step = mgr.on_child_event(ChildEvent::Terminated(Some(137)));
    assert_eq!(step.entry.unwrap().stored, "Server exited with code 137");
    assert_eq!(mgr.status(), &ServerStatus::Stopped);
    let step = mgr.on_child_event(ChildEvent::Terminated(None));
    assert_eq!(step.entry.unwrap().stored, "Server terminated");
    assert_eq!(mgr.status(), &ServerStatus::Stopped);
}

#[test]
fn clean_exit_reports_stopped() {
    let mut mgr = manager();
    let step = mgr.on_child_event(ChildEvent::Terminated(Some(0)));
    let entry = step.entry.unwrap();
    assert_eq!(entry.stored, "Server stopped");
    assert_eq!(entry.category, LogCategory::Info);
}

#[test]
fn extreme_exit_code_is_written_in_full() {
    let mut mgr = manager();
    mgr.begin_start();
    let step = mgr.on_child_event(ChildEvent::Terminated(Some(i32::MIN)));
    assert_eq!(step.entry.unwrap().shown, "Server exited with code -2147483648");
}

#[test]
fn poll_reports_each_status() {
    let mut mgr = manager();
    assert_eq!(mgr.poll_start(0, 100), StartPoll::Failed(StartError::StoppedUnexpectedly));
    mgr.begin_start();
    assert_eq!(mgr.poll_start(100, 100), StartPoll::Wait);
    assert_eq!(mgr.poll_start(101, 100), StartPoll::Failed(StartError::TimedOut));
    mgr.on_child_event(ChildEvent::Stdout("Listening on :17777".to_string()));
    assert_eq!(mgr.poll_start(0, 100), StartPoll::Ready);
    assert_eq!(mgr.poll_start(101, 100), StartPoll::Failed(StartError::TimedOut));
}

#[test]
fn attach_hands_back_a_displaced_child() {
    let mut mgr = manager();
    assert_eq!(mgr.attach_child(7), None);
    assert_eq!(mgr.attach_child(8), Some(7));
    assert_eq!(mgr.stop(), Some(8));
}

#[test]
fn spawn_failure_is_reported() {
    let mut mgr = manager();
    assert_eq!(mgr.begin_start(), StartStep::Launch);
    let err = mgr.launch_failed("Failed to spawn sidecar: denied".to_string());
    assert_eq!(err.message(), "Failed to spawn sidecar: denied");
    assert_eq!(mgr.status().label(), "error");
}

#[test]
fn status_labels() {
    assert_eq!(ServerStatus::Starting.label(), "starting");
    assert_eq!(ServerStatus::Running.label(), "running");
    assert_eq!(ServerStatus::Stopped.label(), "stopped");
    assert_eq!(ServerStatus::Error("x".to_string()).label(), "error");
}
