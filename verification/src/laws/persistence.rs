//! Laws of saving and loading sessions.

use vstd::prelude::*;
use vstd::utf8::encode_utf8;

use crate::history::{zstd_decoded, zstd_encoded, CodecError};
use crate::persistence::{
    atomic_write, build_persisted_data, debug_quoted, decompressed_history, delete_history,
    get_history_dir, get_session_file_path, history_file_path, history_payload, holds_history,
    is_compressed, law_long_histories_are_compressed, law_running_histories_are_saved,
    lemma_worth_saving_ids, load_history, load_history_auto, load_sessions, next_write_stage,
    path_debug_quoted, persist_all, persist_snapshots, save_all_histories, save_history,
    save_sessions, save_snapshots, snapshot_histories, worth_saving, FileRead, FileWrite,
    HistorySnapshot, PersistPlan, PersistedSessionData, SessionFile, WriteStage,
};
use crate::session::{filed_by_id, sessions_wf, Session, SessionMap, SessionState};
use crate::text::parent;
use crate::views::opt_string;

verus! {

/// Whether `path` is `base` and then `leaf`, with one slash between them unless `base`
/// is empty or ends in one.
pub open spec fn lies_below(path: Seq<char>, base: Seq<char>, leaf: Seq<char>) -> bool {
    if base.len() == 0 || base.last() == '/' {
        path == base + leaf
    } else {
        path == base + seq!['/'] + leaf
    }
}

/// The history files lie in `sessions` and the metadata in `sessions.json`, both below
/// the base path.
pub proof fn law_base_files(base_path: &str, dir: String, file: String)
    requires
        call_ensures(get_history_dir, (base_path,), dir),
        call_ensures(get_session_file_path, (base_path,), file),
    ensures
        lies_below(dir@, base_path@, "sessions"@),
        lies_below(file@, base_path@, "sessions.json"@),
{
    reveal_strlit("sessions");
    reveal_strlit("sessions.json");
}

/// A history file has the id of its session as its name, and the ending `.history`. An
/// id that looks like an absolute path stands for itself.
pub proof fn law_history_file(base_dir: &str, session_id: &str, res: String)
    requires
        call_ensures(history_file_path, (base_dir, session_id), res),
    ensures
        session_id@.len() > 0 && session_id@[0] == '/' ==> res@ == session_id@ + ".history"@,
        !(session_id@.len() > 0 && session_id@[0] == '/') ==> lies_below(
            res@,
            base_dir@,
            session_id@ + ".history"@,
        ),
{
    reveal_strlit(".history");
    assert((session_id@ + ".history"@)[0] == if session_id@.len() > 0 {
        session_id@[0]
    } else {
        '.'
    });
}

/// The file that is deleted is the one that the history is saved to and loaded from.
pub proof fn law_deleted_file_is_the_history_file(
    base_path: &str,
    dir: String,
    dir_str: &str,
    session_id: &str,
    file: String,
    data: &[u8],
    write: FileWrite,
    res: String,
)
    requires
        call_ensures(delete_history, (base_path, session_id), res),
        call_ensures(get_history_dir, (base_path,), dir),
        dir_str@ == dir@,
        call_ensures(history_file_path, (dir_str, session_id), file),
        call_ensures(save_history, (dir_str, session_id, data), write),
    ensures
        res@ == file@,
        write.path@ == file@,
        write.data@ == data@,
        write.warning is None,
{
}

/// What is saved of a session is its id, name, shell and directory and the name of its
/// state, each as it is in the record, and no process id.
pub proof fn law_persisted_data(
    sessions: &SessionMap,
    res: PersistedSessionData,
    i: int,
    state: &'static str,
)
    requires
        sessions.wf(),
        call_ensures(build_persisted_data, (sessions,), res),
        0 <= i < sessions.listing().len(),
        call_ensures(SessionState::variant_name, (&sessions.listing()[i].1.state,), state),
    ensures
        res.sessions@.len() == sessions.listing().len(),
        res.sessions@.len() == sessions@.len(),
        ({
            let p = res.sessions@[i];
            let s = sessions.listing()[i].1;
            &&& p.id@ == s.id@
            &&& p.name@ == s.name@
            &&& p.shell_cmd@ == s.shell_cmd@
            &&& p.cwd@ == s.cwd@
            &&& p.pid is None
            &&& p.state@ == state@
        }),
{
    sessions.lemma_listing();
    assert(crate::persistence::metadata_describes(res.sessions@[i], sessions.listing()[i].1));
}

/// Every session in the map has an entry with its id, and that has the session's name,
/// shell and directory.
pub proof fn law_every_session_is_persisted(
    sessions: &SessionMap,
    res: PersistedSessionData,
    id: Seq<char>,
)
    requires
        sessions.wf(),
        filed_by_id(sessions@),
        call_ensures(build_persisted_data, (sessions,), res),
        sessions@.contains_key(id),
    ensures
        exists|i: int|
            {
                &&& 0 <= i < res.sessions@.len()
                &&& (#[trigger] res.sessions@[i]).id@ == id
                &&& res.sessions@[i].name@ == sessions@[id].name@
                &&& res.sessions@[i].shell_cmd@ == sessions@[id].shell_cmd@
                &&& res.sessions@[i].cwd@ == sessions@[id].cwd@
            },
        forall|i: int, j: int|
            0 <= i < j < res.sessions@.len() ==> (#[trigger] res.sessions@[i]).id@ != (
            #[trigger] res.sessions@[j]).id@,
{
    crate::persistence::law_metadata_is_complete(sessions, res.sessions@);
    let i = choose|i: int| 0 <= i < res.sessions@.len() && (#[trigger] res.sessions@[i]).id@ == id;
    assert(crate::persistence::metadata_describes(res.sessions@[i], sessions@[id]));
}

/// What is saved of a session depends on nothing but its id, name, shell, directory and
/// state: sessions that agree in these are saved alike.
pub proof fn law_nothing_else_is_persisted(
    a: &SessionMap,
    b: &SessionMap,
    of_a: PersistedSessionData,
    of_b: PersistedSessionData,
    i: int,
    j: int,
)
    requires
        a.wf(),
        b.wf(),
        call_ensures(build_persisted_data, (a,), of_a),
        call_ensures(build_persisted_data, (b,), of_b),
        0 <= i < a.listing().len(),
        0 <= j < b.listing().len(),
        a.listing()[i].1.id@ == b.listing()[j].1.id@,
        a.listing()[i].1.name@ == b.listing()[j].1.name@,
        a.listing()[i].1.shell_cmd@ == b.listing()[j].1.shell_cmd@,
        a.listing()[i].1.cwd@ == b.listing()[j].1.cwd@,
        a.listing()[i].1.state == b.listing()[j].1.state,
    ensures
        of_a.sessions@[i].id@ == of_b.sessions@[j].id@,
        of_a.sessions@[i].name@ == of_b.sessions@[j].name@,
        of_a.sessions@[i].shell_cmd@ == of_b.sessions@[j].shell_cmd@,
        of_a.sessions@[i].cwd@ == of_b.sessions@[j].cwd@,
        of_a.sessions@[i].pid == of_b.sessions@[j].pid,
        of_a.sessions@[i].state@ == of_b.sessions@[j].state@,
{
    assert(crate::persistence::metadata_describes(of_a.sessions@[i], a.listing()[i].1));
    assert(crate::persistence::metadata_describes(of_b.sessions@[j], b.listing()[j].1));
}

/// Metadata is written where it was asked for, as the encoding of its JSON text. If
/// there is no such text, the message says why.
pub proof fn law_save_sessions(
    path: &str,
    json: Result<String, String>,
    res: Result<FileWrite, String>,
)
    requires
        call_ensures(save_sessions, (path, json), res),
    ensures
        res is Ok <==> json is Ok,
        res matches Ok(w) ==> w.path@ == path@ && w.data@ == encode_utf8(json->Ok_0@)
            && w.warning is None,
        res matches Err(m) ==> m@ == "Failed to serialize sessions: "@ + json->Err_0@,
{
}

/// No metadata is loaded without a file; what a file holds is loaded as it is; and if it
/// cannot be read or stands for nothing, the message says why.
pub proof fn law_load_sessions(
    path: &str,
    file: SessionFile,
    res: Result<PersistedSessionData, String>,
    fresh: PersistedSessionData,
)
    requires
        call_ensures(load_sessions, (path, file), res),
        call_ensures(PersistedSessionData::new, (), fresh),
    ensures
        fresh.sessions@.len() == 0,
        file is Missing ==> (res matches Ok(data) && data.sessions@.len() == 0),
        file matches SessionFile::Parsed(data) ==> res == Ok::<PersistedSessionData, String>(data),
        file matches SessionFile::Unreadable(e) ==> (res matches Err(m) && m@
            == "Failed to read session file "@ + debug_quoted(path@) + ": "@ + e@),
        file matches SessionFile::Corrupt(e) ==> (res matches Err(m) && m@
            == "Failed to parse session file "@ + debug_quoted(path@) + ": "@ + e@),
{
}

/// Of a long history what compressing it gave is saved or, if that failed, the history
/// itself, with a warning that says why.
pub proof fn law_history_payload(
    session_id: &str,
    history: Vec<u8>,
    compressed: Result<Vec<u8>, CodecError>,
    message: String,
    res: (Vec<u8>, Option<String>),
)
    requires
        call_ensures(history_payload, (session_id, history, compressed), res),
        compressed matches Err(e) ==> call_ensures(CodecError::message, (&e,), message),
    ensures
        compressed matches Ok(v) ==> res.0@ == v@ && res.1 is None,
        compressed is Err ==> res.0@ == history@ && (res.1 matches Some(w) && w@
            == "Failed to compress history for "@ + session_id@ + ": "@ + message@
            + ", saving uncompressed"@),
{
    assert(opt_string(res.1) is Some == res.1 is Some);
}

/// Whether `w` holds the history of the session `id` as histories are saved: as it is up
/// to 1048576 bytes; beyond that compressed by zstd at level 3 or, if memory ran out, as
/// it is with a warning.
pub open spec fn keeps_history(w: FileWrite, id: Seq<char>, history: Seq<u8>) -> bool {
    &&& history.len() <= 1048576 ==> w.data@ == history && w.warning is None
    &&& history.len() > 1048576 && w.warning is None ==> w.data@ == zstd_encoded(history, 3)
        && zstd_decoded(w.data@) == Some(history)
    &&& history.len() > 1048576 && w.warning is Some ==> w.data@ == history && w.warning->0@
        == "Failed to compress history for "@ + id + ": "@
        + "Allocation error : not enough memory"@ + ", saving uncompressed"@
}

proof fn lemma_keeps_history(w: FileWrite, id: Seq<char>, history: Seq<u8>)
    requires
        holds_history(w, id, history),
    ensures
        keeps_history(w, id, history),
{
    if history.len() > 1048576 {
        law_long_histories_are_compressed(w, id, history);
    }
}

/// Each snapshot is written to the history file of its session, in the form in which
/// histories are saved.
pub proof fn law_save_snapshots(
    base_path: &str,
    dir: String,
    dir_str: &str,
    snapshots: Vec<HistorySnapshot>,
    res: Vec<FileWrite>,
    i: int,
    id: &str,
    file: String,
)
    requires
        call_ensures(save_snapshots, (base_path, snapshots), res),
        0 <= i < snapshots@.len(),
        call_ensures(get_history_dir, (base_path,), dir),
        dir_str@ == dir@,
        id@ == snapshots@[i].session_id@,
        call_ensures(history_file_path, (dir_str, id), file),
    ensures
        res@.len() == snapshots@.len(),
        res@[i].path@ == file@,
        keeps_history(res@[i], snapshots@[i].session_id@, snapshots@[i].data@),
{
    assert(crate::persistence::saves_snapshot(res@[i], snapshots@[i], base_path@));
    lemma_keeps_history(res@[i], snapshots@[i].session_id@, snapshots@[i].data@);
}

/// Whether `s` is in the map, is running, and has a history.
pub open spec fn has_something_to_save(sessions: &SessionMap, s: Session) -> bool {
    &&& s.state is Running
    &&& s.history@.len() > 0
    &&& exists|id: Seq<char>| #[trigger] sessions@.contains_key(id) && sessions@[id] == s
}

proof fn lemma_saved_sessions(sessions: &SessionMap)
    requires
        sessions.wf(),
        filed_by_id(sessions@),
    ensures
        forall|i: int|
            0 <= i < worth_saving(sessions.listing()).len() ==> has_something_to_save(
                sessions,
                #[trigger] worth_saving(sessions.listing())[i],
            ),
        forall|i: int, j: int|
            0 <= i < j < worth_saving(sessions.listing()).len() ==> (
            #[trigger] worth_saving(sessions.listing())[i]).id@ != (
            #[trigger] worth_saving(sessions.listing())[j]).id@,
        forall|s: Session| #[trigger]
            has_something_to_save(sessions, s) ==> worth_saving(sessions.listing()).contains(s),
{
    let listing = sessions.listing();
    sessions.lemma_listing();
    assert forall|i: int| 0 <= i < listing.len() implies (#[trigger] listing[i]).1.id@
        == listing[i].0@ by {
        assert(sessions@.contains_key(listing[i].0@));
    }
    lemma_worth_saving_ids(listing);
    assert forall|i: int| 0 <= i < worth_saving(listing).len() implies has_something_to_save(
        sessions,
        #[trigger] worth_saving(listing)[i],
    ) by {
        law_running_histories_are_saved(sessions, worth_saving(listing)[i]);
        assert(worth_saving(listing).contains(worth_saving(listing)[i]));
    }
    assert forall|s: Session| #[trigger] has_something_to_save(sessions, s) implies worth_saving(
        listing,
    ).contains(s) by {
        law_running_histories_are_saved(sessions, s);
    }
}

/// Whether `owners` are the sessions of the map that are running and have a history, each
/// once.
pub open spec fn are_to_be_saved(owners: Seq<Session>, sessions: &SessionMap) -> bool {
    &&& forall|i: int|
        0 <= i < owners.len() ==> has_something_to_save(sessions, #[trigger] owners[i])
    &&& forall|i: int, j: int|
        0 <= i < j < owners.len() ==> (#[trigger] owners[i]).id@ != (#[trigger] owners[j]).id@
    &&& forall|s: Session| #[trigger] has_something_to_save(sessions, s) ==> owners.contains(s)
}

/// Whether `snapshots` hold, one by one, the ids and histories of `owners`.
pub open spec fn are_taken_of(snapshots: Seq<HistorySnapshot>, owners: Seq<Session>) -> bool {
    &&& snapshots.len() == owners.len()
    &&& forall|i: int|
        0 <= i < snapshots.len() ==> (#[trigger] snapshots[i]).session_id@ == owners[i].id@
            && snapshots[i].data@ == owners[i].history@
}

/// Snapshots are taken of every running session that has a history, once, and of no
/// other: its id and all of its history.
pub proof fn law_snapshots(sessions: &SessionMap, res: Vec<HistorySnapshot>)
    requires
        sessions_wf(sessions),
        filed_by_id(sessions@),
        call_ensures(snapshot_histories, (sessions,), res),
    ensures
        exists|owners: Seq<Session>| #[trigger]
            are_to_be_saved(owners, sessions) && are_taken_of(res@, owners),
{
    lemma_saved_sessions(sessions);
    let saved = worth_saving(sessions.listing());
    assert(are_to_be_saved(saved, sessions));
    assert forall|i: int| 0 <= i < res@.len() implies (#[trigger] res@[i]).session_id@
        == saved[i].id@ && res@[i].data@ == saved[i].history@ by {
        assert(crate::persistence::is_snapshot_of(res@[i], saved[i]));
    }
}

/// Whether `writes` save, one by one, the histories of `owners` below `base_path`.
pub open spec fn are_saves_of(
    writes: Seq<FileWrite>,
    owners: Seq<Session>,
    base_path: Seq<char>,
) -> bool {
    &&& writes.len() == owners.len()
    &&& forall|i: int|
        0 <= i < writes.len() ==> goes_to_file_of(#[trigger] writes[i], owners[i], base_path)
            && keeps_history(writes[i], owners[i].id@, owners[i].history@)
}

/// Whether `writes` save the history of every running session that has one, each once,
/// and nothing else, below `base_path`.
pub open spec fn save_what_there_is(
    writes: Seq<FileWrite>,
    sessions: &SessionMap,
    base_path: Seq<char>,
) -> bool {
    exists|owners: Seq<Session>| #[trigger]
        are_to_be_saved(owners, sessions) && are_saves_of(writes, owners, base_path)
}

/// Whether `w` writes to the history file of `s` below `base_path`.
pub open spec fn goes_to_file_of(w: FileWrite, s: Session, base_path: Seq<char>) -> bool {
    if s.id@.len() > 0 && s.id@[0] == '/' {
        w.path@ == s.id@ + ".history"@
    } else {
        exists|dir: Seq<char>| #[trigger]
            lies_below(dir, base_path, "sessions"@) && lies_below(
                w.path@,
                dir,
                s.id@ + ".history"@,
            )
    }
}

proof fn lemma_goes_to_file_of(w: FileWrite, s: Session, base_path: Seq<char>)
    requires
        crate::persistence::saves_history(w, s, base_path),
    ensures
        goes_to_file_of(w, s, base_path),
        keeps_history(w, s.id@, s.history@),
{
    reveal_strlit(".history");
    reveal_strlit("sessions");
    let dir = crate::persistence::history_dir(base_path);
    assert((s.id@ + ".history"@)[0] == if s.id@.len() > 0 {
        s.id@[0]
    } else {
        '.'
    });
    assert(lies_below(dir, base_path, "sessions"@));
    lemma_keeps_history(w, s.id@, s.history@);
}

proof fn lemma_save_what_there_is(
    writes: Seq<FileWrite>,
    sessions: &SessionMap,
    base_path: Seq<char>,
)
    requires
        sessions_wf(sessions),
        filed_by_id(sessions@),
        writes.len() == worth_saving(sessions.listing()).len(),
        forall|i: int|
            0 <= i < writes.len() ==> crate::persistence::saves_history(
                #[trigger] writes[i],
                worth_saving(sessions.listing())[i],
                base_path,
            ),
    ensures
        save_what_there_is(writes, sessions, base_path),
{
    lemma_saved_sessions(sessions);
    let saved = worth_saving(sessions.listing());
    assert(are_to_be_saved(saved, sessions));
    assert forall|i: int| 0 <= i < writes.len() implies goes_to_file_of(
        #[trigger] writes[i],
        saved[i],
        base_path,
    ) && keeps_history(writes[i], saved[i].id@, saved[i].history@) by {
        assert(crate::persistence::saves_history(writes[i], saved[i], base_path));
        lemma_goes_to_file_of(writes[i], saved[i], base_path);
    }
    assert(are_saves_of(writes, saved, base_path));
}

/// Saving all histories writes one file for every running session that has a history,
/// and nothing else.
pub proof fn law_save_all_histories(base_path: &str, sessions: &SessionMap, res: Vec<FileWrite>)
    requires
        sessions_wf(sessions),
        filed_by_id(sessions@),
        call_ensures(save_all_histories, (base_path, sessions), res),
    ensures
        save_what_there_is(res@, sessions, base_path@),
{
    lemma_save_what_there_is(res@, sessions, base_path@);
}

/// Saving all sessions writes their metadata, as it is built of them, to the metadata
/// file, and the histories as they are saved alone.
pub proof fn law_persist_all(
    base_path: &str,
    sessions: &SessionMap,
    plan: PersistPlan,
    file: String,
    data: PersistedSessionData,
    i: int,
)
    requires
        sessions_wf(sessions),
        filed_by_id(sessions@),
        call_ensures(persist_all, (base_path, sessions), plan),
        call_ensures(get_session_file_path, (base_path,), file),
        call_ensures(build_persisted_data, (sessions,), data),
    ensures
        plan.metadata_path@ == file@,
        save_what_there_is(plan.histories@, sessions, base_path@),
        plan.metadata.sessions@.len() == data.sessions@.len(),
        0 <= i < data.sessions@.len() ==> {
            let p = plan.metadata.sessions@[i];
            let q = data.sessions@[i];
            &&& p.id@ == q.id@ && p.name@ == q.name@ && p.shell_cmd@ == q.shell_cmd@
            &&& p.cwd@ == q.cwd@ && p.pid == q.pid && p.state@ == q.state@
        },
{
    lemma_save_what_there_is(plan.histories@, sessions, base_path@);
    if 0 <= i < data.sessions@.len() {
        let s = sessions.listing()[i].1;
        assert(crate::persistence::metadata_describes(plan.metadata.sessions@[i], s));
        assert(crate::persistence::metadata_describes(data.sessions@[i], s));
    }
}

/// Saving metadata and snapshots writes the metadata, as it is, to the metadata file, and
/// every snapshot to the history file of its session.
pub proof fn law_persist_snapshots(
    base_path: &str,
    metadata: PersistedSessionData,
    snapshots: Vec<HistorySnapshot>,
    plan: PersistPlan,
    file: String,
    dir: String,
    dir_str: &str,
    i: int,
    id: &str,
    history: String,
)
    requires
        call_ensures(persist_snapshots, (base_path, metadata, snapshots), plan),
        call_ensures(get_session_file_path, (base_path,), file),
        call_ensures(get_history_dir, (base_path,), dir),
        dir_str@ == dir@,
        0 <= i < snapshots@.len(),
        id@ == snapshots@[i].session_id@,
        call_ensures(history_file_path, (dir_str, id), history),
    ensures
        plan.metadata_path@ == file@,
        plan.metadata == metadata,
        plan.histories@.len() == snapshots@.len(),
        plan.histories@[i].path@ == history@,
        keeps_history(plan.histories@[i], snapshots@[i].session_id@, snapshots@[i].data@),
{
    assert(crate::persistence::saves_snapshot(
        plan.histories@[i],
        snapshots@[i],
        base_path@,
    ));
    lemma_keeps_history(plan.histories@[i], snapshots@[i].session_id@, snapshots@[i].data@);
}

/// Contents count as compressed exactly if they begin with the bytes `28 b5 2f fd`.
pub proof fn law_is_compressed(data: &[u8], res: bool)
    requires
        call_ensures(is_compressed, (data,), res),
    ensures
        res <==> data@.len() >= 4 && data@[0] == 0x28 && data@[1] == 0xb5 && data@[2] == 0x2f
            && data@[3] == 0xfd,
{
}

/// Where decompressing succeeded, its result is loaded; where it failed, the message
/// names the session and says why.
pub proof fn law_decompressed_history(
    session_id: &str,
    decompressed: Result<Vec<u8>, CodecError>,
    message: String,
    res: Result<Option<Vec<u8>>, String>,
)
    requires
        call_ensures(decompressed_history, (session_id, decompressed), res),
        decompressed matches Err(e) ==> call_ensures(CodecError::message, (&e,), message),
    ensures
        decompressed matches Ok(v) ==> (res matches Ok(Some(h)) && h@ == v@),
        decompressed is Err ==> (res matches Err(m) && m@ == "Failed to decompress history for "@
            + session_id@ + ": "@ + message@),
{
}

/// Without a file there is no history; what a file holds is loaded; and if it cannot be
/// read, the message names the file and says why. The two ways of loading agree on this,
/// but for contents that count as compressed.
pub proof fn law_load_history(
    base_dir: &str,
    session_id: &str,
    file: FileRead,
    path: String,
    raw: Result<Option<Vec<u8>>, String>,
    auto: Result<Option<Vec<u8>>, String>,
)
    requires
        call_ensures(load_history, (base_dir, session_id, file), raw),
        call_ensures(load_history_auto, (base_dir, session_id, file), auto),
        call_ensures(history_file_path, (base_dir, session_id), path),
    ensures
        file is Missing ==> (raw matches Ok(None)) && (auto matches Ok(None)),
        file matches FileRead::Failed(e) ==> {
            &&& raw matches Err(m) && m@ == "Failed to read history file "@ + path_debug_quoted(
                path@,
            ) + ": "@ + e@
            &&& auto matches Err(m) && m@ == raw->Err_0@
        },
        file matches FileRead::Contents(data) ==> {
            let framed = data@.len() >= 4 && data@[0] == 0x28 && data@[1] == 0xb5 && data@[2]
                == 0x2f && data@[3] == 0xfd;
            &&& raw matches Ok(Some(h)) && h@ == data@
            &&& !framed ==> (auto matches Ok(Some(h)) && h@ == data@)
            &&& framed ==> match auto {
                Ok(None) => false,
                Ok(Some(h)) => zstd_decoded(data@) == Some(h@),
                Err(m) => {
                    ||| zstd_decoded(data@) is None
                    ||| m@ == "Failed to decompress history for "@ + session_id@ + ": "@
                        + "Allocation error : not enough memory"@
                },
            }
        },
{
}

/// A history that was saved is loaded again, whatever it is, unless memory runs out: a
/// short one that does not begin as a zstd frame does, and any long one that could be
/// compressed.
pub proof fn law_saved_is_loaded(
    w: FileWrite,
    history: Seq<u8>,
    base_dir: &str,
    session_id: &str,
    file: FileRead,
    data: Vec<u8>,
    res: Result<Option<Vec<u8>>, String>,
)
    requires
        holds_history(w, session_id@, history),
        data@ == w.data@,
        file == FileRead::Contents(data),
        call_ensures(load_history_auto, (base_dir, session_id, file), res),
        (history.len() <= 1048576 || w.warning is Some) ==> !(history.len() >= 4 && history[0]
            == 0x28 && history[1] == 0xb5 && history[2] == 0x2f && history[3] == 0xfd),
    ensures
        match res {
            Ok(loaded) => loaded matches Some(h) && h@ == history,
            Err(m) => history.len() > 1048576 && m@ == "Failed to decompress history for "@
                + session_id@ + ": "@ + "Allocation error : not enough memory"@,
        },
{
    lemma_keeps_history(w, session_id@, history);
    crate::persistence::law_saved_history_is_loaded(w, session_id@, history, res);
}

/// Writing a file starts with its directory, if that has a path, and with the temporary
/// file otherwise. A path that lies in no directory is refused.
pub proof fn law_first_write_stage(
    path: &str,
    dir: Option<&str>,
    res: Result<WriteStage, String>,
)
    requires
        call_ensures(atomic_write, (path,), res),
        call_ensures(parent, (path,), dir),
    ensures
        res is Ok <==> dir is Some,
        dir is Some && dir->0@.len() > 0 ==> res->Ok_0 == WriteStage::CreateDir,
        dir is Some && dir->0@.len() == 0 ==> res->Ok_0 == WriteStage::CreateTemp,
        dir is None ==> res->Err_0@ == "No parent directory for "@ + path_debug_quoted(path@),
{
}

/// The stages of writing a file follow each other in one order. Where one fails, the
/// message says which, for which path, and why.
pub proof fn law_next_write_stage(
    path: &str,
    dir: Option<&str>,
    stage: WriteStage,
    outcome: Result<(), String>,
    res: Result<WriteStage, String>,
)
    requires
        call_ensures(next_write_stage, (path, stage, outcome), res),
        call_ensures(parent, (path,), dir),
        dir is Some,
    ensures
        res is Ok <==> outcome is Ok,
        outcome is Ok ==> {
            &&& stage is CreateDir ==> res->Ok_0 is CreateTemp
            &&& stage is CreateTemp ==> res->Ok_0 is WriteData
            &&& stage is WriteData ==> res->Ok_0 is Flush
            &&& stage is Flush ==> res->Ok_0 is Rename
            &&& stage is Rename ==> res->Ok_0 is Done
            &&& stage is Done ==> res->Ok_0 is Done
        },
        outcome matches Err(e) ==> {
            &&& stage is CreateDir ==> res->Err_0@ == "Failed to create directory "@
                + path_debug_quoted(dir->0@) + ": "@ + e@
            &&& stage is CreateTemp ==> res->Err_0@ == "Failed to create temp file in "@
                + path_debug_quoted(dir->0@) + ": "@ + e@
            &&& stage is WriteData ==> res->Err_0@ == "Failed to write temp file: "@ + e@
            &&& stage is Flush ==> res->Err_0@ == "Failed to flush temp file: "@ + e@
            &&& stage is Rename ==> res->Err_0@ == "Failed to rename temp file to "@
                + path_debug_quoted(path@) + ": "@ + e@
        },
{
}

} // verus!
