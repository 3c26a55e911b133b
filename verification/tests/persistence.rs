use std::path::PathBuf;
use terminar_core::constants::COMPRESSION_THRESHOLD;
use terminar_core::engine::register_session;
use terminar_core::history::{compress_history, decompress_history, CodecError};
use terminar_core::persistence::{
    atomic_write, build_persisted_data, decompressed_history, delete_history, get_history_dir,
    get_session_file_path, history_file_path, history_payload, is_compressed, load_history,
    load_history_auto, load_sessions, next_write_stage, persist_all, persist_snapshots, save_all_histories,
    save_history, save_sessions, save_snapshots, snapshot_histories, FileRead, PersistedSession, PersistedSessionData, SessionFile, WriteStage,
};
use terminar_core::session::{SessionMap, SessionState};

#[test]
fn test_history_file_path() {
    let path = history_file_path("/tmp/history", "session-123");
    assert_eq!(
        PathBuf::from(path),
        PathBuf::from("/tmp/history/session-123.history")
    );
}

#[test]
fn test_save_and_load_history() {
    let base_dir = "/tmp/base";
    let data = b"terminal output data here";
    let write = save_history(base_dir, "test-session", data);
    assert_eq!(write.path, history_file_path(base_dir, "test-session"));

    let loaded = load_history(base_dir, "test-session", FileRead::Contents(write.data)).unwrap();
    assert!(loaded.is_some());
    assert_eq!(loaded.unwrap(), data.to_vec());
}

#[test]
fn test_load_history_missing_returns_none() {
    let loaded = load_history("/tmp/base", "nonexistent", FileRead::Missing).unwrap();
    assert!(loaded.is_none());
}

#[test]
fn test_load_history_auto_raw_data() {
    let base_dir = "/tmp/base";
    let data = b"raw terminal output";
    let write = save_history(base_dir, "raw-session", data);

    let loaded =
        load_history_auto(base_dir, "raw-session", FileRead::Contents(write.data)).unwrap();
    assert_eq!(loaded.unwrap(), data.to_vec());
}

#[test]
fn test_load_history_auto_compressed_data() {
    let base_dir = "/tmp/base";
    let original = b"compressed terminal output data for testing";
    let compressed = compress_history(original).unwrap();
    assert_eq!(&compressed[..4], &[0x28, 0xB5, 0x2F, 0xFD]);

    let write = save_history(base_dir, "compressed-session", &compressed);
    let loaded = load_history_auto(
        base_dir,
        "compressed-session",
        FileRead::Contents(write.data),
    )
    .unwrap();
    assert_eq!(loaded.unwrap(), original.to_vec());
}

#[test]
fn test_get_history_dir_uses_base_path() {
    let dir = get_history_dir("/tmp/terminar");
    assert_eq!(PathBuf::from(dir), PathBuf::from("/tmp/terminar/sessions"));
}

#[test]
fn test_get_session_file_path_uses_base_path() {
    let path = get_session_file_path("/tmp/terminar");
    assert_eq!(
        PathBuf::from(path),
        PathBuf::from("/tmp/terminar/sessions.json")
    );
}

#[test]
fn test_load_sessions_missing_file_returns_empty() {
    let result = load_sessions(
        "/tmp/nonexistent-test-file-12345.json",
        SessionFile::Missing,
    );
    assert!(result.is_ok());
    assert_eq!(result.unwrap().sessions.len(), 0);
}

#[test]
fn session_files_that_cannot_be_used_are_errors() {
    assert_eq!(
        load_sessions("/a/b", SessionFile::Unreadable("denied".to_string())),
        Err("Failed to read session file \"/a/b\": denied".to_string())
    );
    assert_eq!(
        load_sessions("/a \"b\"", SessionFile::Corrupt("bad json".to_string())),
        Err("Failed to parse session file \"/a \\\"b\\\"\": bad json".to_string())
    );
    let data = PersistedSessionData {
        sessions: vec![PersistedSession {
            id: "r1".to_string(),
            name: "R1".to_string(),
            shell_cmd: "/bin/bash".to_string(),
            cwd: "/tmp".to_string(),
            pid: Some(111),
            state: "Running".to_string(),
        }],
    };
    assert_eq!(
        load_sessions("/a", SessionFile::Parsed(data.clone())),
        Ok(data)
    );
}

#[test]
fn no_metadata_by_default() {
    assert!(PersistedSessionData::new().sessions.is_empty());
    assert_eq!(PersistedSessionData::new(), PersistedSessionData::default());
}

#[test]
fn paths_are_joined_as_the_standard_library_joins_them() {
    let bases = ["", "/", "/tmp", "/tmp/", "rel", "rel//", ".", "é"];
    let ids = ["a", "", "/abs", "x/y", "..", "a b"];
    for base in bases {
        assert_eq!(
            get_history_dir(base),
            PathBuf::from(base).join("sessions").to_str().unwrap()
        );
        assert_eq!(
            get_session_file_path(base),
            PathBuf::from(base).join("sessions.json").to_str().unwrap()
        );
        for id in ids {
            let leaf = format!("{}.history", id);
            assert_eq!(
                history_file_path(base, id),
                PathBuf::from(base).join(&leaf).to_str().unwrap()
            );
            assert_eq!(
                delete_history(base, id),
                PathBuf::from(base)
                    .join("sessions")
                    .join(&leaf)
                    .to_str()
                    .unwrap()
            );
        }
    }
}

fn some_sessions() -> SessionMap {
    let mut sessions = SessionMap::new();
    register_session(
        "a",
        "A",
        "/bin/sh",
        "/a",
        None,
        &mut sessions,
        Some(b"history of a"),
    );
    register_session("b", "B", "/bin/bash", "/b", None, &mut sessions, None);
    register_session(
        "c",
        "C",
        "/bin/zsh",
        "/c",
        None,
        &mut sessions,
        Some(b"history of c"),
    );
    sessions.get_mut("c").unwrap().record_exit(None);
    sessions
}

#[test]
fn metadata_describes_every_session() {
    let data = build_persisted_data(&some_sessions());
    assert_eq!(data.sessions.len(), 3);
    assert_eq!(
        data.sessions[0],
        PersistedSession {
            id: "a".to_string(),
            name: "A".to_string(),
            shell_cmd: "/bin/sh".to_string(),
            cwd: "/a".to_string(),
            pid: None,
            state: "Running".to_string(),
        }
    );
    assert_eq!(data.sessions[1].id, "b");
    assert_eq!(data.sessions[2].state, "Exited");
}

#[test]
fn only_running_sessions_with_a_history_are_saved() {
    let writes = save_all_histories("/base", &some_sessions());
    assert_eq!(writes.len(), 1);
    assert_eq!(writes[0].path, "/base/sessions/a.history");
    assert_eq!(writes[0].data, b"history of a".to_vec());
}

#[test]
fn persisting_saves_metadata_and_histories() {
    let plan = persist_all("/base", &some_sessions());
    assert_eq!(plan.metadata_path, "/base/sessions.json");
    assert_eq!(plan.metadata.sessions.len(), 3);
    assert_eq!(plan.histories.len(), 1);
    assert_eq!(plan.histories[0].path, "/base/sessions/a.history");
}

#[test]
fn long_histories_are_compressed_and_load_again() {
    let history: Vec<u8> = b"line of output\r\n"
        .iter()
        .cycle()
        .take(COMPRESSION_THRESHOLD + 1)
        .cloned()
        .collect();
    let mut sessions = SessionMap::new();
    register_session(
        "long",
        "L",
        "/bin/sh",
        "/",
        None,
        &mut sessions,
        Some(&history),
    );
    register_session(
        "edge",
        "E",
        "/bin/sh",
        "/",
        None,
        &mut sessions,
        Some(&history[1..]),
    );
    let writes = save_all_histories("/base", &sessions);
    assert_eq!(writes.len(), 2);
    assert!(is_compressed(&writes[0].data));
    assert_eq!(writes[0].warning, None);
    assert_eq!(writes[1].warning, None);
    assert!(writes[0].data.len() < history.len());
    assert_eq!(decompress_history(&writes[0].data).unwrap(), history);
    assert_eq!(writes[1].data, history[1..].to_vec());
    for (write, id) in writes.into_iter().zip(["long", "edge"]) {
        let loaded = load_history_auto("/base/sessions", id, FileRead::Contents(write.data));
        assert_eq!(
            loaded.unwrap().unwrap(),
            sessions.get(id).unwrap().history.to_vec()
        );
    }
}

#[test]
fn what_is_saved_if_compression_fails() {
    let long = vec![1u8; COMPRESSION_THRESHOLD + 1];
    assert_eq!(
        history_payload("s", long.clone(), Err(CodecError::OutOfMemory)),
        (
            long.clone(),
            Some(
                "Failed to compress history for s: Allocation error : not enough memory, \
                 saving uncompressed"
                    .to_string()
            )
        )
    );
    assert_eq!(history_payload("s", long, Ok(vec![9])), (vec![9], None));
}

#[test]
fn files_that_cannot_be_read_are_errors() {
    assert_eq!(
        load_history_auto("/d", "s", FileRead::Failed("denied".to_string())),
        Err("Failed to read history file \"/d/s.history\": denied".to_string())
    );
    assert_eq!(load_history_auto("/d", "s", FileRead::Missing), Ok(None));
}

#[test]
fn data_that_looks_compressed_and_is_not_is_an_error() {
    let data = vec![0x28, 0xb5, 0x2f, 0xfd];
    let message = load_history_auto("/d", "s", FileRead::Contents(data)).unwrap_err();
    assert!(
        message.starts_with("Failed to decompress history for s: "),
        "{}",
        message
    );
    assert!(message.len() > "Failed to decompress history for s: ".len());
    assert_eq!(
        decompressed_history("s", Err(CodecError::Malformed("bad".to_string()))),
        Err("Failed to decompress history for s: bad".to_string())
    );
    assert_eq!(
        decompressed_history("s", Err(CodecError::OutOfMemory)),
        Err(
            "Failed to decompress history for s: Allocation error : not enough memory".to_string()
        )
    );
    assert_eq!(
        decompressed_history("s", Ok(vec![1])),
        Ok(Some(vec![1]))
    );
}

#[test]
fn magic_is_four_bytes() {
    assert!(!is_compressed(&[]));
    assert!(!is_compressed(&[0x28, 0xb5, 0x2f]));
    assert!(is_compressed(&[0x28, 0xb5, 0x2f, 0xfd]));
    assert!(!is_compressed(&[0x28, 0xb5, 0x2f, 0xfe]));
}

#[test]
fn an_atomic_write_goes_through_its_stages() {
    let mut stage = atomic_write("/d/f").unwrap();
    let mut seen = vec![stage];
    while stage != WriteStage::Done {
        stage = next_write_stage("/d/f", stage, Ok(())).unwrap();
        seen.push(stage);
    }
    assert_eq!(
        seen,
        vec![
            WriteStage::CreateDir,
            WriteStage::CreateTemp,
            WriteStage::WriteData,
            WriteStage::Flush,
            WriteStage::Rename,
            WriteStage::Done,
        ]
    );
    assert_eq!(atomic_write("f"), Ok(WriteStage::CreateTemp));
    assert_eq!(
        atomic_write("/"),
        Err("No parent directory for \"/\"".to_string())
    );
}

#[test]
fn a_failed_stage_ends_an_atomic_write() {
    let fail = |stage| next_write_stage("/d/f", stage, Err("boom".to_string())).unwrap_err();
    assert_eq!(
        fail(WriteStage::CreateDir),
        "Failed to create directory \"/d\": boom"
    );
    assert_eq!(
        fail(WriteStage::CreateTemp),
        "Failed to create temp file in \"/d\": boom"
    );
    assert_eq!(fail(WriteStage::WriteData), "Failed to write temp file: boom");
    assert_eq!(fail(WriteStage::Flush), "Failed to flush temp file: boom");
    assert_eq!(
        fail(WriteStage::Rename),
        "Failed to rename temp file to \"/d/f\": boom"
    );
}

#[test]
fn a_state_name_of_each_state_is_saved() {
    let mut sessions = some_sessions();
    sessions
        .get_mut("a")
        .unwrap()
        .transition_to(SessionState::Closing)
        .unwrap();
    let data = build_persisted_data(&sessions);
    assert_eq!(data.sessions[0].state, "Closing");
    assert!(save_all_histories("/base", &sessions).is_empty());
}

#[test]
fn metadata_is_written_as_it_was_serialized() {
    let write = save_sessions("/base/sessions.json", Ok("{\"é\":1}".to_string())).unwrap();
    assert_eq!(write.path, "/base/sessions.json");
    assert_eq!(write.data, "{\"é\":1}".as_bytes().to_vec());
    assert_eq!(
        save_sessions("/base/sessions.json", Err("too deep".to_string())),
        Err("Failed to serialize sessions: too deep".to_string())
    );
}

#[test]
fn snapshots_outlive_the_sessions() {
    let mut sessions = some_sessions();
    let snapshots = snapshot_histories(&sessions);
    sessions.remove("a");
    assert_eq!(snapshots.len(), 1);
    assert_eq!(snapshots[0].session_id, "a");
    assert_eq!(snapshots[0].data, b"history of a".to_vec());
    let writes = save_snapshots("/base", snapshots);
    assert_eq!(writes.len(), 1);
    assert_eq!(writes[0].path, "/base/sessions/a.history");
    assert_eq!(writes[0].data, b"history of a".to_vec());

    let sessions = some_sessions();
    let plan = persist_snapshots(
        "/base",
        build_persisted_data(&sessions),
        snapshot_histories(&sessions),
    );
    let direct = persist_all("/base", &sessions);
    assert_eq!(plan.metadata_path, direct.metadata_path);
    assert_eq!(plan.metadata, direct.metadata);
    assert_eq!(plan.histories, direct.histories);
}

#[test]
fn sessions_do_not_share_a_history_file() {
    for (x, y) in [("/a", "/b"), ("/a", "/a")] {
        assert_eq!(
            history_file_path("/base", x) == history_file_path("/base", y),
            x == y
        );
    }
    let ids = ["a", "b", "a.history", "", " a", "a/b"];
    for x in ids {
        for y in ids {
            assert_eq!(
                history_file_path("/base", x) == history_file_path("/base", y),
                x == y
            );
        }
    }
}

/// Strings and paths are quoted differently.
#[test]
fn messages_quote_paths_as_the_standard_library_does() {
    let name = "it's \"a\"\n";
    let dir = PathBuf::from(name);
    assert_eq!(
        load_history(name, "s", FileRead::Failed("e".to_string())),
        Err(format!(
            "Failed to read history file {:?}: e",
            dir.join("s.history")
        ))
    );
    assert_eq!(
        load_sessions(name, SessionFile::Unreadable("e".to_string())),
        Err(format!("Failed to read session file {:?}: e", name))
    );
    assert_eq!(
        atomic_write(""),
        Err(format!("No parent directory for {:?}", PathBuf::new()))
    );
    assert_eq!(
        next_write_stage(
            dir.join("f").to_str().unwrap(),
            WriteStage::CreateDir,
            Err("e".to_string())
        ),
        Err(format!("Failed to create directory {:?}: e", dir))
    );
}

#[test]
fn files_hold_what_was_saved_until_it_is_deleted() {
    let sessions = some_sessions();
    let mut files: std::collections::HashMap<String, Vec<u8>> = std::collections::HashMap::new();
    files.insert("/base/sessions/a.history".to_string(), b"older".to_vec());
    let plan = persist_all("/base", &sessions);
    files.insert(plan.metadata_path.clone(), b"{}".to_vec());
    for write in plan.histories {
        files.insert(write.path, write.data);
    }
    assert_eq!(files.len(), 2);
    assert_eq!(files[&plan.metadata_path], b"{}".to_vec());
    let path = history_file_path(&get_history_dir("/base"), "a");
    assert_eq!(
        load_history_auto(
            "/base/sessions",
            "a",
            FileRead::Contents(files[&path].clone())
        ),
        Ok(Some(b"history of a".to_vec()))
    );
    assert!(files.remove(&delete_history("/base", "a")).is_some());
    assert!(!files.contains_key(&path));
    assert!(files.remove(&delete_history("/base", "a")).is_none());
    assert_eq!(files.len(), 1);
    assert_eq!(
        load_history_auto("/base/sessions", "a", FileRead::Missing),
        Ok(None)
    );
}

#[test]
fn a_write_that_fails_leaves_the_file_alone() {
    for failing in 0..=5 {
        let mut file = b"old".to_vec();
        let mut temp: Option<Vec<u8>> = None;
        let mut stage = atomic_write("/d/f").unwrap();
        let mut done = 0;
        let result = loop {
            if stage == WriteStage::Done {
                break Ok(());
            }
            let outcome = if done == failing {
                Err("full".to_string())
            } else {
                Ok(())
            };
            if outcome.is_ok() {
                match stage {
                    WriteStage::CreateTemp => temp = Some(Vec::new()),
                    WriteStage::WriteData => temp = Some(b"new".to_vec()),
                    WriteStage::Rename => file = temp.take().unwrap(),
                    _ => {}
                }
            }
            match next_write_stage("/d/f", stage, outcome) {
                Ok(next) => stage = next,
                Err(message) => break Err(message),
            }
            done += 1;
        };
        assert_eq!(result.is_ok(), failing == 5);
        let expected: &[u8] = if failing == 5 { b"new" } else { b"old" };
        assert_eq!(file, expected);
    }
}

#[test]
fn saved_metadata_is_loaded_again() {
    let data = build_persisted_data(&some_sessions());
    let path = get_session_file_path("/base");
    let text = "the sessions, é".to_string();
    let write = save_sessions(&path, Ok(text.clone())).unwrap();
    assert_eq!(String::from_utf8(write.data), Ok(text));
    assert_eq!(
        load_sessions(&path, SessionFile::Parsed(data.clone())),
        Ok(data)
    );
}
