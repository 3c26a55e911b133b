use terminar_core::constants::{
    DEFAULT_HISTORY_CAPACITY, ENV_BLOCKLIST, PTY_READ_BUFFER_SIZE, SHELL_WHITELIST,
};
use terminar_core::engine::{
    build_session_list, clamp_dimension, create_session, filter_env, get_default_shell,
    handle_exit_event, handle_read, plan_launch, register_session, resolve_cwd, resolve_shell,
    validate_cwd, validate_shell, EnvMap, PathKind, PtyRead,
};
use terminar_core::pty::PtySize;
use terminar_core::reader::PtyReader;
use terminar_core::session::{SessionEvent, SessionMap, SessionState};

fn env_of(pairs: &[(&str, &str)]) -> EnvMap {
    let mut env = EnvMap::new();
    for (k, v) in pairs {
        env.insert(k.to_string(), v.to_string());
    }
    env
}

fn value(env: &EnvMap, key: &str) -> Option<String> {
    env.get(key).cloned()
}

#[test]
fn an_empty_shell_means_the_default_shell() {
    assert_eq!(resolve_shell("/bin/zsh", Some("/bin/bash")), "/bin/zsh");
    assert_eq!(resolve_shell("", Some("/bin/bash")), "/bin/bash");
    assert_eq!(resolve_shell("", Some("/tmp/evil")), "/bin/sh");
    assert_eq!(resolve_shell("", None), "/bin/sh");
    assert_eq!(get_default_shell(Some("")), "/bin/sh");
    assert_eq!(resolve_shell("not/checked/here", None), "not/checked/here");
}

#[test]
fn an_empty_or_root_directory_means_the_home_directory() {
    assert_eq!(resolve_cwd("/srv", Some("/home/me")), "/srv");
    assert_eq!(resolve_cwd("", Some("/home/me")), "/home/me");
    assert_eq!(resolve_cwd("/", Some("/home/me")), "/home/me");
    assert_eq!(resolve_cwd("", None), "/");
    assert_eq!(resolve_cwd("/", None), "/");
    assert_eq!(resolve_cwd("//", Some("/home/me")), "//");
}

#[test]
fn every_listed_shell_is_accepted() {
    for shell in SHELL_WHITELIST {
        assert_eq!(validate_shell(shell), None);
        assert_eq!(get_default_shell(Some(shell)), shell);
    }
}

#[test]
fn other_shells_are_refused_for_the_first_reason_that_holds() {
    assert_eq!(
        validate_shell("/bin/../tmp/sh").unwrap(),
        "Shell path '/bin/../tmp/sh' contains path traversal and is not allowed"
    );
    assert_eq!(
        validate_shell("..").unwrap(),
        "Shell path '..' contains path traversal and is not allowed"
    );
    assert_eq!(
        validate_shell("bash").unwrap(),
        "Shell 'bash' must be an absolute path"
    );
    assert_eq!(
        validate_shell("").unwrap(),
        "Shell '' must be an absolute path"
    );
    assert_eq!(
        validate_shell("/usr/bin/python3").unwrap(),
        "Shell '/usr/bin/python3' is not in the allowed whitelist"
    );
    assert_eq!(
        validate_shell("/bin/sh ").unwrap(),
        "Shell '/bin/sh ' is not in the allowed whitelist"
    );
}

#[test]
fn a_working_directory_has_to_be_one() {
    assert_eq!(validate_cwd("/tmp", PathKind::Directory), None);
    assert_eq!(
        validate_cwd("/tmp/../etc", PathKind::Directory).unwrap(),
        "Working directory '/tmp/../etc' contains path traversal and is not allowed"
    );
    assert_eq!(
        validate_cwd("/nowhere", PathKind::Missing).unwrap(),
        "Working directory '/nowhere' does not exist"
    );
    assert_eq!(
        validate_cwd("/etc/passwd", PathKind::NotDirectory).unwrap(),
        "Working directory '/etc/passwd' is not a directory"
    );
    assert_eq!(validate_cwd("/a.b.c", PathKind::Directory), None);
}

#[test]
fn withheld_variables_are_removed() {
    let mut env = env_of(&[("PATH", "/bin"), ("LANG", "C")]);
    for key in ENV_BLOCKLIST {
        env.insert(key.to_string(), "x".to_string());
    }
    let safe = filter_env(&env);
    assert_eq!(safe.len(), 2);
    assert_eq!(value(&safe, "PATH"), Some("/bin".to_string()));
    assert_eq!(value(&safe, "LANG"), Some("C".to_string()));
    for key in ENV_BLOCKLIST {
        assert!(!safe.contains_key(key));
    }
    assert_eq!(filter_env(&safe).len(), 2);
    assert_eq!(filter_env(&EnvMap::new()).len(), 0);
}

#[test]
fn dimensions_are_clamped() {
    assert_eq!(clamp_dimension(0, "cols"), 1);
    assert_eq!(clamp_dimension(1, "cols"), 1);
    assert_eq!(clamp_dimension(80, "cols"), 80);
    assert_eq!(clamp_dimension(500, "rows"), 500);
    assert_eq!(clamp_dimension(501, "rows"), 500);
    assert_eq!(clamp_dimension(u16::MAX, "rows"), 500);
}

#[test]
fn the_launch_plan_describes_the_terminal() {
    let env = env_of(&[("FOO", "BAR"), (ENV_BLOCKLIST[0], "x")]);
    let plan = plan_launch("/bin/bash", "/tmp", 100, 50, &env);
    assert_eq!(plan.program, "/bin/bash");
    assert_eq!(plan.cwd, "/tmp");
    assert_eq!(
        plan.size,
        PtySize {
            rows: 50,
            cols: 100,
            pixel_width: 0,
            pixel_height: 0
        }
    );
    assert_eq!(plan.env.len(), 3);
    assert_eq!(value(&plan.env, "TERM"), Some("xterm-256color".to_string()));
    assert_eq!(value(&plan.env, "COLORTERM"), Some("truecolor".to_string()));
    assert_eq!(value(&plan.env, "FOO"), Some("BAR".to_string()));
}

#[test]
fn the_client_may_choose_the_terminal_type() {
    let env = env_of(&[("TERM", "vt100")]);
    let plan = plan_launch("/bin/sh", "/", 80, 24, &env);
    assert_eq!(plan.env.len(), 2);
    assert_eq!(value(&plan.env, "TERM"), Some("vt100".to_string()));
    assert_eq!(value(&plan.env, "COLORTERM"), Some("truecolor".to_string()));
}

fn is_uuid_v4(id: &str) -> bool {
    let bytes = id.as_bytes();
    bytes.len() == 36
        && bytes.iter().enumerate().all(|(i, b)| match i {
            8 | 13 | 18 | 23 => *b == b'-',
            14 => *b == b'4',
            19 => b"89ab".contains(b),
            _ => b"0123456789abcdef".contains(b),
        })
}

#[test]
fn a_session_gets_a_new_id_if_none_is_given() {
    let mut sessions = SessionMap::new();
    let a = create_session(None, "one", "/bin/sh", "/", Ok(None), &mut sessions, None).unwrap();
    let b = create_session(None, "two", "/bin/sh", "/", Ok(None), &mut sessions, None).unwrap();
    assert!(is_uuid_v4(&a), "{}", a);
    assert!(is_uuid_v4(&b), "{}", b);
    assert_ne!(a, b);
    assert_eq!(sessions.len(), 2);
    assert_eq!(sessions.get(&a).unwrap().name, "one");
    assert_eq!(sessions.get(&b).unwrap().id, b);
}

#[test]
fn a_restored_session_keeps_its_id_and_history() {
    let mut sessions = SessionMap::new();
    let id = create_session(
        Some("old-id"),
        "Terminal",
        "/bin/bash",
        "/home/user",
        Ok(Some(9)),
        &mut sessions,
        Some(b"scrollback"),
    )
    .unwrap();
    assert_eq!(id, "old-id");
    let session = sessions.get("old-id").unwrap();
    assert_eq!(session.state, SessionState::Running);
    assert_eq!(session.shell_cmd, "/bin/bash");
    assert_eq!(session.cwd, "/home/user");
    assert_eq!(session.pty_fd, Some(9));
    assert_eq!(session.history.to_vec(), b"scrollback".to_vec());
    assert_eq!(session.history.capacity(), DEFAULT_HISTORY_CAPACITY);
    assert_eq!(session.exit_code, None);
    assert_eq!(session.silence_threshold_secs, 30);
}

#[test]
fn a_failed_launch_leaves_the_map_alone() {
    let mut sessions = SessionMap::new();
    let res = create_session(
        Some("x"),
        "n",
        "/bin/sh",
        "/",
        Err("no pty".to_string()),
        &mut sessions,
        None,
    );
    assert_eq!(res, Err("no pty".to_string()));
    assert_eq!(sessions.len(), 0);
}

#[test]
fn a_session_replaces_one_of_the_same_id() {
    let mut sessions = SessionMap::new();
    register_session("a", "first", "/bin/sh", "/", None, &mut sessions, Some(b"1"));
    register_session("a", "second", "/bin/sh", "/", None, &mut sessions, None);
    assert_eq!(sessions.len(), 1);
    assert_eq!(sessions.get("a").unwrap().name, "second");
    assert!(sessions.get("a").unwrap().history.is_empty());
}

#[test]
fn the_session_list_describes_every_session() {
    let mut sessions = SessionMap::new();
    register_session("a", "A", "/bin/sh", "/a", None, &mut sessions, None);
    register_session("b", "B", "/bin/bash", "/b", None, &mut sessions, None);
    {
        let b = sessions.get_mut("b").unwrap();
        b.foreground_process = Some("vim".to_string());
        b.last_output_at = Some(77);
        b.record_exit(Some(2));
    }
    let list = build_session_list(&sessions);
    assert_eq!(list.len(), 2);
    assert_eq!(list[0].id, "a");
    assert_eq!(list[0].name, "A");
    assert_eq!(list[0].shell, "/bin/sh");
    assert_eq!(list[0].cwd, "/a");
    assert_eq!(list[0].started_at, "now");
    assert_eq!(list[0].state, Some("running".to_string()));
    assert_eq!(list[0].foreground_process, None);
    assert_eq!(list[0].last_activity_at, None);
    assert_eq!(list[0].exit_code, None);
    assert_eq!(list[1].id, "b");
    assert_eq!(list[1].state, Some("exited".to_string()));
    assert_eq!(list[1].foreground_process, Some("vim".to_string()));
    assert_eq!(list[1].last_activity_at, Some("now".to_string()));
    assert_eq!(list[1].exit_code, Some(2));
}

#[test]
fn reads_are_recorded_and_announced() {
    let mut sessions = SessionMap::new();
    register_session("s", "S", "/bin/sh", "/", None, &mut sessions, None);
    let mut reader = PtyReader::new();
    let (events, more) = handle_read(
        &mut sessions,
        "s",
        &mut reader,
        PtyRead::Data(b"caf\xc3".to_vec()),
        10,
    );
    assert!(more);
    assert_eq!(events.len(), 1);
    assert!(matches!(&events[0], SessionEvent::Output(text) if text == "caf"));
    assert_eq!(reader.read_capacity(), PTY_READ_BUFFER_SIZE - 1);

    let (events, more) = handle_read(
        &mut sessions,
        "s",
        &mut reader,
        PtyRead::Data(b"\xa9\x07".to_vec()),
        20,
    );
    assert!(more);
    assert_eq!(events.len(), 2);
    assert!(matches!(events[0], SessionEvent::Bell));
    assert!(matches!(&events[1], SessionEvent::Output(text) if text == "é\x07"));
    let session = sessions.get("s").unwrap();
    assert_eq!(session.history.to_vec(), "café\x07".as_bytes().to_vec());
    assert_eq!(session.last_output_at, Some(20));
    assert_eq!(session.last_bell_at, Some(20));
}

#[test]
fn an_unfinished_character_alone_is_no_output() {
    let mut sessions = SessionMap::new();
    register_session("s", "S", "/bin/sh", "/", None, &mut sessions, None);
    let mut reader = PtyReader::new();
    let (events, more) = handle_read(
        &mut sessions,
        "s",
        &mut reader,
        PtyRead::Data(b"\xf0\x9f".to_vec()),
        10,
    );
    assert!(more);
    assert!(events.is_empty());
    assert_eq!(sessions.get("s").unwrap().last_output_at, None);
}

#[test]
fn output_of_a_removed_session_is_still_announced() {
    let mut sessions = SessionMap::new();
    let mut reader = PtyReader::new();
    let (events, more) = handle_read(
        &mut sessions,
        "gone",
        &mut reader,
        PtyRead::Data(b"x".to_vec()),
        1,
    );
    assert!(more);
    assert_eq!(events.len(), 1);
    assert_eq!(sessions.len(), 0);
}

#[test]
fn the_end_of_the_output_is_the_exit_of_the_shell() {
    let mut sessions = SessionMap::new();
    register_session("s", "S", "/bin/sh", "/", None, &mut sessions, None);
    for read in [PtyRead::Eof, PtyRead::Failed] {
        let mut reader = PtyReader::new();
        let (events, more) = handle_read(&mut sessions, "s", &mut reader, read, 1);
        assert!(!more);
        assert_eq!(events.len(), 1);
        assert!(matches!(events[0], SessionEvent::Exited(None)));
        assert_eq!(sessions.get("s").unwrap().state, SessionState::Running);
    }
}

#[test]
fn the_exit_monitor_waits_for_the_exit() {
    let mut sessions = SessionMap::new();
    register_session("s", "S", "/bin/sh", "/", None, &mut sessions, None);
    assert!(!handle_exit_event(&mut sessions, "s", &SessionEvent::Bell));
    assert!(!handle_exit_event(
        &mut sessions,
        "s",
        &SessionEvent::Output("x".to_string())
    ));
    assert_eq!(sessions.get("s").unwrap().state, SessionState::Running);
    assert!(handle_exit_event(
        &mut sessions,
        "s",
        &SessionEvent::Exited(Some(5))
    ));
    assert_eq!(sessions.get("s").unwrap().state, SessionState::Exited);
    assert_eq!(sessions.get("s").unwrap().exit_code, Some(5));
    assert!(handle_exit_event(
        &mut sessions,
        "gone",
        &SessionEvent::Exited(None)
    ));
}

#[test]
fn every_session_stays_filed_under_its_id() {
    let mut sessions = SessionMap::new();
    register_session("a", "A", "/bin/sh", "/", None, &mut sessions, None);
    register_session("b", "B", "/bin/sh", "/", None, &mut sessions, None);
    let mut reader = PtyReader::new();
    handle_read(
        &mut sessions,
        "a",
        &mut reader,
        PtyRead::Data(b"x".to_vec()),
        1,
    );
    handle_exit_event(&mut sessions, "b", &SessionEvent::Exited(None));
    assert_eq!(sessions.len(), 2);
    for i in 0..sessions.len() {
        let (id, session) = sessions.entry(i);
        assert_eq!(id, &session.id);
    }
}

#[test]
fn a_crate_root_re_exports_the_main_items() {
    let mut sessions = terminar_core::SessionMap::new();
    let id = terminar_core::create_session(
        Some("i"),
        "n",
        "/bin/sh",
        "/",
        Ok(None),
        &mut sessions,
        None,
    );
    assert_eq!(id, Ok("i".to_string()));
    assert_eq!(
        sessions.get("i").unwrap().state,
        terminar_core::SessionState::Running
    );
}
