use pty_sessions::pump::{pump_read, PumpEvent};
use pty_sessions::registry::{resize_session, write_session, PtyState};
use pty_sessions::PtyError;

#[test]
fn error_description_carries_message() {
    let e = PtyError::NotFound("some-id".to_string());
    assert_eq!(e.description(), "some-id");
    let e = PtyError::InvalidInput("Empty command".to_string());
    assert_eq!(e.description(), "Empty command");
}

#[test]
fn unknown_id_write_resize_kill() {
    let mut st = PtyState::new();
    let id = "no-such-session".to_string();
    match st.write_to_pty(&id, &"hi".to_string()) {
        Err(PtyError::NotFound(m)) => assert_eq!(m, "PTY session not found: no-such-session"),
        _ => panic!("expected a not-found error"),
    }
    match st.resize_pty(&id, 40, 120) {
        Err(PtyError::NotFound(m)) => assert_eq!(m, "PTY session not found: no-such-session"),
        _ => panic!("expected a not-found error"),
    }
    assert!(st.kill_pty(&id).is_ok());
    assert_eq!(st.session_count(), 0);
}

#[test]
fn spawn_empty_command_is_invalid_input() {
    let mut st = PtyState::new();
    let r = st.spawn_pty(
        &"/tmp".to_string(),
        Some(&"".to_string()),
        &"/bin/sh".to_string(),
    );
    match r {
        Err(PtyError::InvalidInput(m)) => assert_eq!(m, "Empty command"),
        _ => panic!("expected an invalid-input error"),
    }
    assert_eq!(st.session_count(), 0);
}

#[test]
fn spawn_whitespace_command_is_invalid_input() {
    let mut st = PtyState::new();
    let r = st.spawn_pty(
        &"/tmp".to_string(),
        Some(&" \t  ".to_string()),
        &"/bin/sh".to_string(),
    );
    assert!(matches!(r, Err(PtyError::InvalidInput(_))));
    assert_eq!(st.session_count(), 0);
}

#[test]
fn spawn_issues_distinct_ids() {
    let mut st = PtyState::new();
    let cwd = "/tmp".to_string();
    let cmd = "sleep 5".to_string();
    let shell = "/bin/sh".to_string();
    let a = st.spawn_pty(&cwd, Some(&cmd), &shell).expect("first spawn");
    let b = st.spawn_pty(&cwd, Some(&cmd), &shell).expect("second spawn");
    assert_ne!(a.pty_id, b.pty_id);
    assert_eq!(st.session_count(), 2);
    assert!(st.kill_pty(&a.pty_id).is_ok());
    assert!(st.kill_pty(&b.pty_id).is_ok());
    assert_eq!(st.session_count(), 0);
}

#[test]
fn resize_live_session_updates_geometry() {
    let mut st = PtyState::new();
    let h = st
        .spawn_pty(
            &"/tmp".to_string(),
            Some(&"sleep 5".to_string()),
            &"/bin/sh".to_string(),
        )
        .expect("spawn");
    assert_eq!(st.session_geometry(&h.pty_id), Some((24, 80)));
    assert!(st.resize_pty(&h.pty_id, 40, 120).is_ok());
    assert_eq!(st.session_geometry(&h.pty_id), Some((40, 120)));
    assert!(st.kill_pty(&h.pty_id).is_ok());
    assert_eq!(st.session_geometry(&h.pty_id), None);
}

#[test]
fn echo_ready_streams_output_then_closes() {
    let mut st = PtyState::new();
    let mut h = st
        .spawn_pty(
            &"/tmp".to_string(),
            Some(&"echo ready".to_string()),
            &"/bin/sh".to_string(),
        )
        .expect("spawn");
    let mut collected = String::new();
    let mut saw_ready = false;
    for _ in 0..64 {
        match pump_read(&mut h.reader) {
            PumpEvent::Output(s) => {
                collected.push_str(&s);
                if collected.contains("ready\r\n") || collected.contains("ready\n") {
                    saw_ready = true;
                    break;
                }
            }
            PumpEvent::Closed => break,
        }
    }
    assert!(saw_ready, "terminal output was: {:?}", collected);

    // Releasing the session's handles ends the stream, which is what
    // drives the pump to its single exit notification.
    assert!(st.kill_pty(&h.pty_id).is_ok());
    let mut closed = false;
    for _ in 0..64 {
        match pump_read(&mut h.reader) {
            PumpEvent::Closed => {
                closed = true;
                break;
            }
            PumpEvent::Output(_) => {}
        }
    }
    assert!(closed);

    // The registry no longer knows the id: a write now names it as
    // missing, and a second kill is a successful no-op.
    assert!(!st.contains_session(&h.pty_id));
    match st.write_to_pty(&h.pty_id, &"x".to_string()) {
        Err(PtyError::NotFound(m)) => {
            assert_eq!(m, format!("PTY session not found: {}", h.pty_id));
        }
        _ => panic!("expected a not-found error"),
    }
    assert!(st.kill_pty(&h.pty_id).is_ok());
}

#[test]
fn write_reaches_the_child() {
    let mut st = PtyState::new();
    let mut h = st
        .spawn_pty(
            &"/tmp".to_string(),
            Some(&"cat".to_string()),
            &"/bin/sh".to_string(),
        )
        .expect("spawn");
    assert!(st.write_to_pty(&h.pty_id, &"ping\n".to_string()).is_ok());
    let mut collected = String::new();
    let mut echoed = false;
    for _ in 0..64 {
        match pump_read(&mut h.reader) {
            PumpEvent::Output(s) => {
                collected.push_str(&s);
                if collected.contains("ping") {
                    echoed = true;
                    break;
                }
            }
            PumpEvent::Closed => break,
        }
    }
    assert!(echoed, "terminal output was: {:?}", collected);
    assert!(st.kill_pty(&h.pty_id).is_ok());
}

#[test]
fn spawn_missing_executable_is_spawn_failure() {
    let mut st = PtyState::new();
    let r = st.spawn_pty(
        &"/tmp".to_string(),
        Some(&"definitely-not-a-real-binary-zzz".to_string()),
        &"/bin/sh".to_string(),
    );
    assert!(matches!(r, Err(PtyError::SpawnFailure(_))));
    assert_eq!(st.session_count(), 0);
}

#[test]
fn spawn_without_command_launches_default_shell() {
    let mut st = PtyState::new();
    let h = st
        .spawn_pty(&"/tmp".to_string(), None, &"/bin/sh".to_string())
        .expect("spawn");
    assert!(st.contains_session(&h.pty_id));
    assert!(st.kill_pty(&h.pty_id).is_ok());
    assert!(!st.contains_session(&h.pty_id));
}

#[test]
fn handle_lookup_splits_io_from_registry() {
    let mut st = PtyState::new();
    let h = st
        .spawn_pty(
            &"/tmp".to_string(),
            Some(&"sleep 5".to_string()),
            &"/bin/sh".to_string(),
        )
        .expect("spawn");

    // Short lookups hand out the serialized handles; the I/O runs on
    // them afterwards, with no registry borrow held.
    let w = st.writer_handle(&h.pty_id).expect("live session has a writer");
    assert!(write_session(&w, &"hello\n".to_string()).is_ok());
    let m = st.master_handle(&h.pty_id).expect("live session has a master");
    assert!(resize_session(&m, 50, 100).is_ok());
    assert!(st.record_geometry(&h.pty_id, 50, 100));
    assert_eq!(st.session_geometry(&h.pty_id), Some((50, 100)));

    assert!(st.kill_pty(&h.pty_id).is_ok());
    assert!(st.writer_handle(&h.pty_id).is_none());
    assert!(st.master_handle(&h.pty_id).is_none());
    assert!(!st.record_geometry(&h.pty_id, 10, 10));
}
