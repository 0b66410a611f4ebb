use supervisor::Event;
use supervisor::MonitorStep;
use supervisor::PollResult;
use supervisor::ProcessStore;
use supervisor::StartError;
use supervisor::StopError;
use supervisor::StreamKind;

#[test]
fn version_is_static() {
    assert_eq!(supervisor::get_version(), "0.1.0");
}

#[test]
fn new_store_tracks_nothing() {
    let store = ProcessStore::new();
    assert_eq!(store.current_pid(), None);
}

#[test]
fn stop_with_no_process_is_not_running() {
    let store = ProcessStore::new();
    let r = store.stop_decide();
    assert!(matches!(r, Err(StopError::NotRunning)));
}

#[test]
fn successful_spawn_is_registered() {
    let mut store = ProcessStore::new();
    let r = store.register_spawn(Ok(4711), String::from("node"));
    assert!(matches!(r, Ok(4711)));
    assert_eq!(store.current_pid(), Some(4711));
}

#[test]
fn failed_spawn_reports_command_and_cause() {
    let mut store = ProcessStore::new();
    let r = store.register_spawn(
        Err(String::from("no such file")),
        String::from("missing-exe"),
    );
    match r {
        Err(StartError::SpawnFailed { command, cause }) => {
            assert_eq!(command, "missing-exe");
            assert_eq!(cause, "no such file");
        }
        _ => panic!("expected SpawnFailed"),
    }
    assert_eq!(store.current_pid(), None);
}

#[test]
fn failed_spawn_leaves_slot_open_for_retry() {
    let mut store = ProcessStore::new();
    let r = store.register_spawn(Err(String::from("boom")), String::from("bad"));
    assert!(r.is_err());
    assert_eq!(store.current_pid(), None);
    let pre = store.start_precheck(None);
    assert!(pre.is_ok());
    let retry = store.register_spawn(Ok(99), String::from("node"));
    assert!(matches!(retry, Ok(99)));
    assert_eq!(store.current_pid(), Some(99));
}

#[test]
fn start_while_alive_is_already_running() {
    let mut store = ProcessStore::new();
    store.register_spawn(Ok(10), String::from("node")).unwrap();
    let pre = store.start_precheck(Some(PollResult::Alive));
    assert!(matches!(pre, Err(StartError::AlreadyRunning)));
    assert_eq!(store.current_pid(), Some(10));
}

#[test]
fn start_over_dead_child_may_proceed() {
    let mut store = ProcessStore::new();
    store.register_spawn(Ok(10), String::from("node")).unwrap();
    let pre = store.start_precheck(Some(PollResult::Exited(Some(0))));
    assert!(pre.is_ok());
}

#[test]
fn query_true_while_alive_then_false_once_exited() {
    let mut store = ProcessStore::new();
    store.register_spawn(Ok(5), String::from("node")).unwrap();
    assert!(store.query_running(Some(PollResult::Alive)));
    assert_eq!(store.current_pid(), Some(5));
    assert!(!store.query_running(Some(PollResult::Exited(Some(0)))));
    assert_eq!(store.current_pid(), None);
    assert!(!store.query_running(None));
}

#[test]
fn query_retires_handle_on_inspect_failure() {
    let mut store = ProcessStore::new();
    store.register_spawn(Ok(5), String::from("node")).unwrap();
    assert!(!store.query_running(Some(PollResult::InspectFailed)));
    assert_eq!(store.current_pid(), None);
}

#[test]
fn stop_kills_tracked_child_and_clears_slot() {
    let mut store = ProcessStore::new();
    store.register_spawn(Ok(77), String::from("node")).unwrap();
    let pid = store.stop_decide().unwrap();
    assert_eq!(pid, 77);
    let r = store.stop_finish(Ok(()));
    assert!(r.is_ok());
    assert_eq!(store.current_pid(), None);
}

#[test]
fn failed_kill_keeps_handle_tracked() {
    let mut store = ProcessStore::new();
    store.register_spawn(Ok(77), String::from("node")).unwrap();
    let r = store.stop_finish(Err(String::from("access denied")));
    match r {
        Err(StopError::KillFailed { cause }) => assert_eq!(cause, "access denied"),
        _ => panic!("expected KillFailed"),
    }
    assert_eq!(store.current_pid(), Some(77));
}

#[test]
fn monitor_keeps_waiting_while_alive() {
    let mut store = ProcessStore::new();
    store.register_spawn(Ok(3), String::from("node")).unwrap();
    let step = store.monitor_tick(Some(PollResult::Alive));
    assert_eq!(step, MonitorStep::KeepWaiting);
    assert_eq!(store.current_pid(), Some(3));
}

#[test]
fn monitor_emits_real_exit_code() {
    let mut store = ProcessStore::new();
    store.register_spawn(Ok(3), String::from("node")).unwrap();
    let step = store.monitor_tick(Some(PollResult::Exited(Some(7))));
    assert_eq!(step, MonitorStep::Emit(7));
    assert_eq!(store.current_pid(), None);
}

#[test]
fn monitor_reports_signal_death_as_minus_one() {
    let mut store = ProcessStore::new();
    store.register_spawn(Ok(3), String::from("node")).unwrap();
    let step = store.monitor_tick(Some(PollResult::Exited(None)));
    assert_eq!(step, MonitorStep::Emit(-1));
    assert_eq!(store.current_pid(), None);
}

#[test]
fn monitor_reports_inspect_failure_as_minus_one() {
    let mut store = ProcessStore::new();
    store.register_spawn(Ok(3), String::from("node")).unwrap();
    let step = store.monitor_tick(Some(PollResult::InspectFailed));
    assert_eq!(step, MonitorStep::Emit(-1));
    assert_eq!(store.current_pid(), None);
}

#[test]
fn monitor_ends_silently_after_concurrent_stop() {
    let mut store = ProcessStore::new();
    store.register_spawn(Ok(3), String::from("node")).unwrap();
    store.stop_decide().unwrap();
    store.stop_finish(Ok(())).unwrap();
    let step = store.monitor_tick(None);
    assert_eq!(step, MonitorStep::Stopped);
}

#[test]
fn event_names_match_the_emitted_channels() {
    let out = Event::Line {
        stream: StreamKind::Stdout,
        text: String::from("hello"),
    };
    let err = Event::Line {
        stream: StreamKind::Stderr,
        text: String::from("oops"),
    };
    let exit = Event::Exit { code: 0 };
    assert_eq!(out.name(), "server-stdout");
    assert_eq!(err.name(), "server-stderr");
    assert_eq!(exit.name(), "server-exit");
}

#[test]
fn short_lived_child_scenario() {
    // A launch whose child writes one line and exits with code 7: the
    // caller sees the stdout line, then the terminal exit event, and the
    // liveness query flips from true to false.
    let mut store = ProcessStore::new();
    let pid = store
        .register_spawn(Ok(123), String::from("node"))
        .unwrap();
    assert_eq!(pid, 123);
    assert!(store.query_running(Some(PollResult::Alive)));

    let mut splitter = supervisor::LineSplitter::new();
    let lines = splitter.push_chunk(&b"ready\n".to_vec());
    assert_eq!(lines.len(), 1);
    let text = supervisor::relay_line(lines[0].clone()).unwrap();
    assert_eq!(text, "ready");

    let step = store.monitor_tick(Some(PollResult::Exited(Some(7))));
    assert_eq!(step, MonitorStep::Emit(7));
    assert!(!store.query_running(None));
}

#[test]
fn at_most_one_handle_across_a_lifecycle() {
    let mut store = ProcessStore::new();
    assert_eq!(store.current_pid(), None);
    store.register_spawn(Ok(1), String::from("node")).unwrap();
    assert_eq!(store.current_pid(), Some(1));
    assert!(store.start_precheck(Some(PollResult::Alive)).is_err());
    assert_eq!(store.current_pid(), Some(1));
    assert!(store
        .start_precheck(Some(PollResult::Exited(Some(0))))
        .is_ok());
    store.register_spawn(Ok(2), String::from("node")).unwrap();
    assert_eq!(store.current_pid(), Some(2));
}
