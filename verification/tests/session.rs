use terminar_core::history::CircularBuffer;
use terminar_core::session::{
    output_events, Session, SessionEvent, SessionState, SILENCE_THRESHOLD_SECS,
};

fn create_test_session() -> Session {
    Session::new(
        "test-id".to_string(),
        "test-session".to_string(),
        "/bin/bash".to_string(),
        "/home/user".to_string(),
        None,
        Ok(()),
        CircularBuffer::with_default_capacity(),
    )
    .unwrap()
}

const ALL: [SessionState; 6] = [
    SessionState::Creating,
    SessionState::Running,
    SessionState::Closing,
    SessionState::Closed,
    SessionState::Exited,
    SessionState::Error,
];

#[test]
fn test_session_state_transitions() {
    assert!(SessionState::Creating.can_transition_to(&SessionState::Running));
    assert!(SessionState::Creating.can_transition_to(&SessionState::Error));
    assert!(SessionState::Running.can_transition_to(&SessionState::Closing));
    assert!(SessionState::Running.can_transition_to(&SessionState::Exited));
    assert!(SessionState::Closing.can_transition_to(&SessionState::Closed));
    assert!(SessionState::Exited.can_transition_to(&SessionState::Closed));
    assert!(!SessionState::Closed.can_transition_to(&SessionState::Running));
    assert!(!SessionState::Error.can_transition_to(&SessionState::Running));
}

#[test]
fn test_session_state_allows_operations() {
    assert!(SessionState::Running.allows_input());
    assert!(SessionState::Running.allows_resize());
    assert!(SessionState::Running.allows_attach());
    assert!(!SessionState::Closed.allows_input());
    assert!(!SessionState::Exited.allows_input());
    assert!(SessionState::Exited.allows_attach());
}

#[test]
fn test_session_state_display_names() {
    assert_eq!(SessionState::Creating.display_name(), "creating");
    assert_eq!(SessionState::Running.display_name(), "running");
    assert_eq!(SessionState::Closing.display_name(), "closing");
    assert_eq!(SessionState::Closed.display_name(), "closed");
    assert_eq!(SessionState::Exited.display_name(), "exited");
    assert_eq!(SessionState::Error.display_name(), "error");
}

#[test]
fn test_session_lifecycle() {
    let mut session = create_test_session();
    assert_eq!(session.state, SessionState::Running);
    assert!(session.allows_input());

    session.transition_to(SessionState::Exited).unwrap();
    assert!(!session.allows_input());
    assert!(session.state.allows_attach());

    session.transition_to(SessionState::Closed).unwrap();
    assert!(!session.state.allows_attach());
}

#[test]
fn test_session_exit_code() {
    let mut session = create_test_session();
    assert_eq!(session.exit_code, None);
    session.exit_code = Some(0);
    assert_eq!(session.exit_code, Some(0));
}

#[test]
fn test_session_silence_fields() {
    let session = create_test_session();
    assert!(!session.silence_notified);
    assert_eq!(session.silence_threshold_secs, 30);
    assert!(session.last_output_at.is_none());
    assert!(session.last_bell_at.is_none());
}

#[test]
fn exactly_eight_transitions_exist() {
    let mut found = Vec::new();
    for from in ALL {
        for to in ALL {
            if from.can_transition_to(&to) {
                found.push((from.variant_name(), to.variant_name()));
            }
        }
    }
    assert_eq!(
        found,
        vec![
            ("Creating", "Running"),
            ("Creating", "Error"),
            ("Running", "Closing"),
            ("Running", "Exited"),
            ("Running", "Error"),
            ("Closing", "Closed"),
            ("Closing", "Error"),
            ("Exited", "Closed"),
        ]
    );
}

#[test]
fn only_two_states_can_be_attached_to() {
    for state in ALL {
        let running = state == SessionState::Running;
        assert_eq!(state.allows_input(), running);
        assert_eq!(state.allows_resize(), running);
        assert_eq!(
            state.allows_attach(),
            running || state == SessionState::Exited
        );
    }
}

#[test]
fn variant_names_are_those_of_the_debug_format() {
    for state in ALL {
        assert_eq!(state.variant_name(), format!("{:?}", state));
    }
}

#[test]
fn a_missing_transition_changes_nothing() {
    let mut session = create_test_session();
    let message = session.transition_to(SessionState::Creating).unwrap_err();
    assert_eq!(message, "Invalid state transition from Running to Creating");
    assert_eq!(session.state, SessionState::Running);
    assert_eq!(
        session.transition_to(SessionState::Running).unwrap_err(),
        "Invalid state transition from Running to Running"
    );
}

#[test]
fn a_closed_session_stays_closed() {
    let mut session = create_test_session();
    session.transition_to(SessionState::Closing).unwrap();
    assert!(!session.allows_resize());
    session.transition_to(SessionState::Closed).unwrap();
    for state in ALL {
        assert!(session.transition_to(state).is_err());
    }
    assert_eq!(session.state, SessionState::Closed);
}

#[test]
fn a_session_without_a_writer_is_not_created() {
    let res = Session::new(
        "id".to_string(),
        "name".to_string(),
        "/bin/sh".to_string(),
        "/".to_string(),
        Some(4),
        Err("already taken".to_string()),
        CircularBuffer::new(8),
    );
    assert_eq!(
        res.unwrap_err(),
        "Failed to take writer from PTY master: already taken"
    );
}

#[test]
fn a_new_session_has_what_it_was_given() {
    let mut history = CircularBuffer::new(8);
    history.push(b"old");
    let session = Session::new(
        "id".to_string(),
        "name".to_string(),
        "/bin/sh".to_string(),
        "/tmp".to_string(),
        Some(7),
        Ok(()),
        history,
    )
    .unwrap();
    assert_eq!(session.id, "id");
    assert_eq!(session.name, "name");
    assert_eq!(session.shell_cmd, "/bin/sh");
    assert_eq!(session.cwd, "/tmp");
    assert_eq!(session.pty_fd, Some(7));
    assert_eq!(session.history.to_vec(), b"old".to_vec());
    assert_eq!(session.child_pid, None);
    assert_eq!(session.foreground_process, None);
    assert_eq!(SILENCE_THRESHOLD_SECS, 30);
}

fn is_output(event: &SessionEvent, text: &str) -> bool {
    matches!(event, SessionEvent::Output(data) if data == text)
}

#[test]
fn output_is_recorded_and_announced() {
    let mut session = create_test_session();
    session.silence_notified = true;
    let events = session.record_output(b"ding\x07", 1000);
    assert_eq!(events.len(), 3);
    assert!(matches!(events[0], SessionEvent::Activity));
    assert!(matches!(events[1], SessionEvent::Bell));
    assert!(is_output(&events[2], "ding\x07"));
    assert_eq!(session.last_output_at, Some(1000));
    assert_eq!(session.last_bell_at, Some(1000));
    assert!(!session.silence_notified);
    assert_eq!(session.history.to_vec(), b"ding\x07".to_vec());

    let events = session.record_output(b"more", 2000);
    assert_eq!(events.len(), 1);
    assert!(is_output(&events[0], "more"));
    assert_eq!(session.last_output_at, Some(2000));
    assert_eq!(session.last_bell_at, Some(1000));
    assert_eq!(session.history.to_vec(), b"ding\x07more".to_vec());
}

#[test]
fn no_output_is_no_activity() {
    let mut session = create_test_session();
    session.silence_notified = true;
    assert!(session.record_output(b"", 5).is_empty());
    assert!(session.silence_notified);
    assert_eq!(session.last_output_at, None);
    assert!(output_events(b"", true).is_empty());
}

#[test]
fn invalid_bytes_are_replaced_in_the_event_only() {
    let mut session = create_test_session();
    let events = session.record_output(b"a\xffb", 1);
    assert!(is_output(&events[0], "a\u{fffd}b"));
    assert_eq!(session.history.to_vec(), b"a\xffb".to_vec());
}

#[test]
fn an_exit_is_recorded() {
    let mut session = create_test_session();
    session.record_exit(Some(3));
    assert_eq!(session.state, SessionState::Exited);
    assert_eq!(session.exit_code, Some(3));
    assert!(session.state.allows_attach());

    let mut closed = create_test_session();
    closed.transition_to(SessionState::Closing).unwrap();
    closed.record_exit(Some(1));
    assert_eq!(closed.state, SessionState::Closing);
    assert_eq!(closed.exit_code, Some(1));
}

#[test]
fn no_life_has_more_than_three_transitions() {
    let mut paths: Vec<Vec<SessionState>> = ALL.iter().map(|s| vec![*s]).collect();
    for _ in 0..3 {
        let mut longer = Vec::new();
        for path in &paths {
            for next in ALL {
                if path[path.len() - 1].can_transition_to(&next) {
                    assert!(!path.contains(&next));
                    let mut longer_path = path.clone();
                    longer_path.push(next);
                    longer.push(longer_path);
                }
            }
        }
        assert!(!longer.is_empty());
        paths = longer;
    }
    for path in &paths {
        assert!(ALL
            .iter()
            .all(|next| !path[path.len() - 1].can_transition_to(next)));
        assert!(path[2..].iter().all(|state| !state.allows_input()));
    }
}
