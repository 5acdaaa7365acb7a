use std::time::{Duration, Instant};

use betterprocs::handle::ProcessHandle;
use betterprocs::manager::ProcessManager;
use betterprocs::pty::{ExitPoll, ExitWait};
use betterprocs::types::{ProcessConfig, ProcessStatus};

fn shell_proc(name: &str, command: &str, autostart: bool, autorestart: bool) -> ProcessConfig {
    ProcessConfig {
        name: name.to_string(),
        command: command.to_string(),
        autostart,
        autorestart,
        ..Default::default()
    }
}

fn drain_until<F: Fn(&ProcessManager) -> bool>(pm: &mut ProcessManager, cond: F) -> bool {
    let start = Instant::now();
    while start.elapsed() < Duration::from_secs(10) {
        pm.drain_output();
        if cond(pm) {
            return true;
        }
    }
    false
}

#[test]
fn spawn_reports_running_with_positive_pid_and_reset_scroll() {
    let mut pm = ProcessManager::new();
    pm.add_process(shell_proc("sleeper", "sleep 100", false, false), 10, 40);
    assert!(matches!(pm.processes[0].status, ProcessStatus::NotStarted));
    pm.start(0).unwrap();
    match pm.processes[0].status {
        ProcessStatus::Running { pid } => assert!(pid > 0),
        _ => panic!("expected Running after spawn"),
    }
    assert_eq!(pm.processes[0].screen.scroll_offset, 0);
    pm.stop_all();
    assert!(pm.all_stopped());
}

#[test]
fn graceful_stop_of_ignoring_child_waits_the_grace_interval() {
    let mut pm = ProcessManager::new();
    // the child ignores the polite signal, forcing escalation
    pm.add_process(
        shell_proc("stubborn", "trap '' TERM; sleep 30", true, false),
        10,
        40,
    );
    assert!(pm.processes[0].status.is_running());
    let start = Instant::now();
    pm.stop(0).unwrap();
    let elapsed = start.elapsed();
    assert!(elapsed >= Duration::from_millis(100));
    assert!(matches!(
        pm.processes[0].status,
        ProcessStatus::Stopped { .. } | ProcessStatus::Crashed
    ));
}

#[test]
fn end_to_end_echo_and_autorestart() {
    let mut pm = ProcessManager::new();
    pm.add_process(shell_proc("hello", "echo hello", true, false), 10, 40);
    pm.add_process(shell_proc("sleeper", "sleep 100", false, true), 10, 40);

    // the echo process finishes on its own with a clean exit
    let done = drain_until(&mut pm, |pm| {
        matches!(pm.processes[0].status, ProcessStatus::Stopped { exit_code: 0 })
    });
    assert!(done, "echo child never reaped");
    let contents = pm.processes[0].screen.screen().contents();
    assert!(contents.contains("hello"), "buffer was: {:?}", contents);

    // the second process was never started
    assert!(matches!(pm.processes[1].status, ProcessStatus::NotStarted));

    // start it, force-kill it, and let the autorestart policy revive it
    pm.start(1).unwrap();
    let first_pid = match pm.processes[1].status {
        ProcessStatus::Running { pid } => pid,
        _ => panic!("expected Running"),
    };
    pm.force_kill(1).unwrap();
    assert!(!pm.processes[1].status.is_running());
    assert!(!matches!(pm.processes[1].status, ProcessStatus::NotStarted));
    pm.check_autorestart();
    match pm.processes[1].status {
        ProcessStatus::Running { pid } => {
            assert!(pid > 0);
            assert_ne!(pid, first_pid, "autorestart must spawn a fresh child");
        }
        _ => panic!("expected Running again after autorestart"),
    }
    pm.stop_all();
    assert!(pm.all_stopped());
}

#[test]
fn autorestart_never_touches_a_never_started_process() {
    let mut pm = ProcessManager::new();
    pm.add_process(shell_proc("idle", "echo nope", false, true), 10, 40);
    pm.check_autorestart();
    assert!(matches!(pm.processes[0].status, ProcessStatus::NotStarted));
}

#[test]
fn resize_pty_never_shrinks_the_buffer() {
    let mut pm = ProcessManager::new();
    pm.add_process(shell_proc("idle", "echo hi", false, false), 10, 40);
    pm.resize_all(4, 15);
    assert_eq!(pm.processes[0].screen.rows(), 10);
    assert_eq!(pm.processes[0].screen.cols(), 40);
    pm.resize_all(20, 120);
    assert_eq!(pm.processes[0].screen.rows(), 20);
    assert_eq!(pm.processes[0].screen.cols(), 120);
}

#[test]
fn sort_by_status_orders_and_follows_selection() {
    let mut pm = ProcessManager::new();
    pm.add_process(shell_proc("finished", "echo done", true, false), 10, 40);
    pm.add_process(shell_proc("never", "echo never", false, false), 10, 40);
    pm.add_process(shell_proc("runner", "sleep 100", true, false), 10, 40);

    let done = drain_until(&mut pm, |pm| {
        matches!(pm.processes[0].status, ProcessStatus::Stopped { exit_code: 0 })
    });
    assert!(done);

    // selection is on "never" (index 1 before sorting)
    let new_index = pm.sort_by_status(1);

    let names: Vec<String> = pm.processes.iter().map(|h| h.config.name.clone()).collect();
    assert_eq!(names, vec!["runner", "finished", "never"]);
    assert_eq!(new_index, 2);

    // sorting an already sorted sequence changes nothing
    let again = pm.sort_by_status(new_index);
    let names2: Vec<String> = pm.processes.iter().map(|h| h.config.name.clone()).collect();
    assert_eq!(names2, names);
    assert_eq!(again, 2);

    // a selection index out of range falls back to 0
    let fallback = pm.sort_by_status(17);
    assert_eq!(fallback, 0);

    pm.stop_all();
}

#[test]
fn write_input_reaches_the_child() {
    let mut pm = ProcessManager::new();
    pm.add_process(shell_proc("cat", "cat", true, false), 10, 40);
    assert!(pm.processes[0].status.is_running());
    pm.processes[0].write_input(b"ping\r").unwrap();
    let done = drain_until(&mut pm, |pm| {
        pm.processes[0].screen.screen().contents().contains("ping")
    });
    assert!(done, "echoed input never arrived");
    pm.stop_all();
}

#[test]
fn spawn_failure_is_reported_and_keeps_the_slot_dead() {
    let mut pm = ProcessManager::new();
    pm.add_process(
        ProcessConfig {
            name: "ghost".to_string(),
            cmd: Some(vec!["/nonexistent/definitely_missing_binary".to_string()]),
            autostart: false,
            ..Default::default()
        },
        10,
        40,
    );
    match pm.start(0) {
        Err(betterprocs::handle::ProcError::SpawnFailed) => {}
        other => panic!("expected SpawnFailed, got {:?}", other),
    }
    assert!(!pm.processes[0].status.is_running());
}

#[test]
fn restart_yields_a_fresh_running_child() {
    let mut pm = ProcessManager::new();
    pm.add_process(shell_proc("sleeper", "sleep 100", true, false), 10, 40);
    let first_pid = match pm.processes[0].status {
        ProcessStatus::Running { pid } => pid,
        _ => panic!("expected Running"),
    };
    pm.restart(0).unwrap();
    match pm.processes[0].status {
        ProcessStatus::Running { pid } => {
            assert!(pid > 0);
            assert_ne!(pid, first_pid);
        }
        _ => panic!("expected Running after restart"),
    }
    pm.stop_all();
}

#[test]
fn reap_outcomes_classify_exactly() {
    assert_eq!(
        ProcessHandle::classify_exit(ExitWait::Exited(0)),
        ProcessStatus::Stopped { exit_code: 0 }
    );
    assert_eq!(
        ProcessHandle::classify_exit(ExitWait::Exited(9)),
        ProcessStatus::Stopped { exit_code: 9 }
    );
    // an exit code too wide for the status field is recorded as -1
    assert_eq!(
        ProcessHandle::classify_exit(ExitWait::Exited(0x8000_0000)),
        ProcessStatus::Stopped { exit_code: -1 }
    );
    assert_eq!(
        ProcessHandle::classify_exit(ExitWait::Failed),
        ProcessStatus::Crashed
    );

    assert_eq!(ProcessHandle::classify_exit_poll(ExitPoll::StillRunning), None);
    assert_eq!(ProcessHandle::classify_exit_poll(ExitPoll::Failed), None);
    assert_eq!(
        ProcessHandle::classify_exit_poll(ExitPoll::Exited(0)),
        Some(ProcessStatus::Stopped { exit_code: 0 })
    );
    assert_eq!(
        ProcessHandle::classify_exit_poll(ExitPoll::Exited(137)),
        Some(ProcessStatus::Crashed)
    );
}

#[test]
fn zero_pid_is_never_signalled() {
    assert!(!betterprocs::signal::kill_process(0, false));
    assert!(!betterprocs::signal::kill_process(0, true));
}

#[test]
fn status_labels_and_sort_order() {
    assert_eq!(ProcessStatus::NotStarted.label(), "NOT STARTED");
    assert_eq!(ProcessStatus::Running { pid: 4 }.label(), "RUNNING");
    assert_eq!(ProcessStatus::Stopped { exit_code: 0 }.label(), "STOPPED");
    assert_eq!(ProcessStatus::Stopped { exit_code: 3 }.label(), "EXITED");
    assert_eq!(ProcessStatus::Crashed.label(), "CRASHED");
    assert_eq!(ProcessStatus::Running { pid: 4 }.sort_order(), 0);
    assert_eq!(ProcessStatus::Crashed.sort_order(), 1);
    assert_eq!(ProcessStatus::Stopped { exit_code: 1 }.sort_order(), 2);
    assert_eq!(ProcessStatus::NotStarted.sort_order(), 3);
    assert!(ProcessStatus::Running { pid: 4 }.is_running());
    assert!(!ProcessStatus::Crashed.is_running());
}
