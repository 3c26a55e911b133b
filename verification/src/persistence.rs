//! Saving and loading sessions: where their files are, and what is in them.
//!
//! Every path is below a base path that the caller chooses.

use vstd::prelude::*;
use vstd::string::*;
use vstd::slice::slice_to_vec;
use vstd::utf8::{
    decode_utf8, encode_utf8, encode_utf8_decode_utf8, encode_utf8_valid_utf8, valid_utf8,
};

use crate::constants::{COMPRESSION_THRESHOLD, HISTORY_SUBDIR, SESSION_METADATA_FILE};
use crate::history::{
    compress_history, compression_came_to, decompress_history, decompression_came_to,
    has_zstd_magic, law_compression, law_decompression, should_compress, zstd_decoded,
    zstd_encoded, CodecError, COMPRESSION_LEVEL, ZSTD_OUT_OF_MEMORY,
};
use crate::session::{filed_by_id, sessions_wf, Session, SessionMap, SessionState};
use crate::table::distinct_keys;
use crate::text::{concat3, join_path, joined, parent, parent_of};
use crate::views::opt_string;

verus! {

/// The metadata of a session that is saved.
#[derive(Debug, Clone, PartialEq)]
pub struct PersistedSession {
    pub id: String,
    pub name: String,
    pub shell_cmd: String,
    pub cwd: String,
    pub pid: Option<u32>,
    pub state: String,
}

/// The metadata of all sessions.
#[derive(Debug, Clone, PartialEq)]
pub struct PersistedSessionData {
    pub sessions: Vec<PersistedSession>,
}

impl PersistedSessionData {
    /// The metadata of no session.
    pub fn new() -> (res: Self)
        ensures
            res.sessions@ == Seq::<PersistedSession>::empty(),
    {
        PersistedSessionData { sessions: Vec::new() }
    }
}

impl Default for PersistedSessionData {
    fn default() -> (res: Self)
        ensures
            res.sessions@ == Seq::<PersistedSession>::empty(),
    {
        PersistedSessionData::new()
    }
}

/// A file to be written whole: its path and its contents.
#[derive(Debug, Clone, PartialEq)]
pub struct FileWrite {
    pub path: String,
    pub data: Vec<u8>,
    /// What is to be reported about the contents, if anything.
    pub warning: Option<String>,
}

/// The directory of the history files below `base_path`.
pub open spec fn history_dir(base_path: Seq<char>) -> Seq<char> {
    joined(base_path, HISTORY_SUBDIR@)
}

/// The history file of the session `session_id` in the directory `base_dir`.
pub open spec fn history_file(base_dir: Seq<char>, session_id: Seq<char>) -> Seq<char> {
    joined(base_dir, session_id + ".history"@)
}

/// The directory of the history files below `base_path`.
pub fn get_history_dir(base_path: &str) -> (res: String)
    ensures
        res@ == history_dir(base_path@),
{
    join_path(base_path, HISTORY_SUBDIR)
}

/// The file of the session metadata below `base_path`.
pub fn get_session_file_path(base_path: &str) -> (res: String)
    ensures
        res@ == joined(base_path@, SESSION_METADATA_FILE@),
{
    join_path(base_path, SESSION_METADATA_FILE)
}

/// The history file of a session in the directory `base_dir`.
pub fn history_file_path(base_dir: &str, session_id: &str) -> (res: String)
    ensures
        res@ == history_file(base_dir@, session_id@),
{
    let mut leaf: String = session_id.to_owned();
    leaf.append(".history");
    join_path(base_dir, leaf.as_str())
}

/// The file to delete in order to forget the history of a session.
pub fn delete_history(base_path: &str, session_id: &str) -> (res: String)
    ensures
        res@ == history_file(history_dir(base_path@), session_id@),
{
    let dir = get_history_dir(base_path);
    history_file_path(dir.as_str(), session_id)
}

/// Whether the id `a` looks like an absolute path.
pub open spec fn is_rooted(a: Seq<char>) -> bool {
    a.len() > 0 && a[0] == '/'
}

/// Two sessions of one directory never share a history file, provided that both
/// their ids look like absolute paths or neither does.
pub proof fn law_history_files_are_distinct(base_dir: Seq<char>, a: Seq<char>, b: Seq<char>)
    requires
        is_rooted(a) == is_rooted(b),
        history_file(base_dir, a) == history_file(base_dir, b),
    ensures
        a == b,
{
    reveal_strlit(".history");
    let x = a + ".history"@;
    let y = b + ".history"@;
    assert((x[0] == '/') == is_rooted(a));
    assert((y[0] == '/') == is_rooted(b));
    let base = if is_rooted(a) {
        Seq::empty()
    } else if base_dir.len() == 0 || base_dir.last() == '/' {
        base_dir
    } else {
        base_dir + seq!['/']
    };
    assert(history_file(base_dir, a) =~= base + x);
    assert(history_file(base_dir, b) =~= base + y);
    assert((base + x).skip(base.len() as int) =~= x);
    assert((base + y).skip(base.len() as int) =~= y);
    assert(x.take(a.len() as int) =~= a);
    assert(y.take(b.len() as int) =~= b);
}

/// The metadata that is saved of the session `s`.
pub open spec fn metadata_describes(p: PersistedSession, s: Session) -> bool {
    &&& p.id@ == s.id@
    &&& p.name@ == s.name@
    &&& p.shell_cmd@ == s.shell_cmd@
    &&& p.cwd@ == s.cwd@
    &&& p.pid is None
    &&& p.state@ == s.state.spec_variant_name()
}

/// The metadata of all sessions: one entry for each, in the order in which the
/// map lists them.
pub fn build_persisted_data(sessions: &SessionMap) -> (res: PersistedSessionData)
    requires
        sessions.wf(),
    ensures
        res.sessions@.len() == sessions.listing().len(),
        forall|i: int|
            0 <= i < res.sessions@.len() ==> metadata_describes(
                #[trigger] res.sessions@[i],
                sessions.listing()[i].1,
            ),
{
    let mut list: Vec<PersistedSession> = Vec::new();
    let n = sessions.len();
    let mut i: usize = 0;
    while i < n
        invariant
            n == sessions.listing().len(),
            i <= n,
            list@.len() == i,
            forall|j: int|
                0 <= j < i ==> metadata_describes(#[trigger] list@[j], sessions.listing()[j].1),
        decreases n - i,
    {
        let s = &sessions.entry(i).1;
        list.push(
            PersistedSession {
                id: s.id.clone(),
                name: s.name.clone(),
                shell_cmd: s.shell_cmd.clone(),
                cwd: s.cwd.clone(),
                pid: None,
                state: s.state.variant_name().to_owned(),
            },
        );
        i += 1;
    }
    PersistedSessionData { sessions: list }
}

/// Whether `w` saves the session metadata whose JSON form is `text` at `path`.
pub open spec fn saves_metadata(w: FileWrite, path: Seq<char>, text: Seq<char>) -> bool {
    &&& w.path@ == path
    &&& w.data@ == encode_utf8(text)
    &&& w.warning is None
}

/// What is to be written in order to save session metadata, given what writing
/// it out as JSON came to.
pub fn save_sessions(path: &str, json: Result<String, String>) -> (res: Result<FileWrite, String>)
    ensures
        match json {
            Ok(text) => res matches Ok(w) && saves_metadata(w, path@, text@),
            Err(e) => {
                &&& res matches Err(message)
                &&& message@ == "Failed to serialize sessions: "@ + e@
            },
        },
{
    match json {
        Ok(text) => Ok(
            FileWrite {
                path: path.to_owned(),
                data: text.as_str().as_bytes_vec(),
                warning: None,
            },
        ),
        Err(e) => {
            let mut message: String = "Failed to serialize sessions: ".to_owned();
            message.append(e.as_str());
            Err(message)
        },
    }
}

/// What is to be written in order to save `data` as the history of a session.
pub fn save_history(base_dir: &str, session_id: &str, data: &[u8]) -> (res: FileWrite)
    ensures
        res.path@ == history_file(base_dir@, session_id@),
        res.data@ == data@,
        res.warning is None,
{
    FileWrite {
        path: history_file_path(base_dir, session_id),
        data: slice_to_vec(data),
        warning: None,
    }
}

/// The warning that the history of the session `id` could not be compressed
/// because of `e`.
pub open spec fn compress_warning(id: Seq<char>, e: Seq<char>) -> Seq<char> {
    "Failed to compress history for "@ + id + ": "@ + e + ", saving uncompressed"@
}

/// The bytes that are saved of the history of the session `id`, if compressing it
/// came to `compressed`, and the warning that goes with them.
pub open spec fn payload_of(
    id: Seq<char>,
    history: Seq<u8>,
    compressed: Result<Vec<u8>, CodecError>,
) -> (Seq<u8>, Option<Seq<char>>) {
    match compressed {
        Ok(bytes) => (bytes@, None),
        Err(e) => (history, Some(compress_warning(id, e.text()))),
    }
}

/// The bytes to save of a long history of the session `session_id`: what
/// compressing it gave or, if that failed, the history itself, with a warning.
pub fn history_payload(
    session_id: &str,
    history: Vec<u8>,
    compressed: Result<Vec<u8>, CodecError>,
) -> (res: (Vec<u8>, Option<String>))
    ensures
        res.0@ == payload_of(session_id@, history@, compressed).0,
        opt_string(res.1) == payload_of(session_id@, history@, compressed).1,
{
    match compressed {
        Ok(bytes) => (bytes, None),
        Err(e) => {
            let mut warning: String = concat3(
                "Failed to compress history for ",
                session_id,
                ": ",
            );
            warning.append(e.message().as_str());
            warning.append(", saving uncompressed");
            (history, Some(warning))
        },
    }
}

/// Whether `w` holds the history of the session `id` in the form in which it is
/// saved: a short history as it is; of a long one what compressing it came to.
pub open spec fn holds_history(w: FileWrite, id: Seq<char>, history: Seq<u8>) -> bool {
    if history.len() > COMPRESSION_THRESHOLD {
        exists|r: Result<Vec<u8>, CodecError>|
            {
                &&& #[trigger] compression_came_to(history, r)
                &&& w.data@ == payload_of(id, history, r).0
                &&& opt_string(w.warning) == payload_of(id, history, r).1
            }
    } else {
        w.data@ == history && w.warning is None
    }
}

/// A long history is saved compressed. The one exception is that memory runs out
/// while it is compressed; it is then saved as it is, with a warning that says so.
pub proof fn law_long_histories_are_compressed(w: FileWrite, id: Seq<char>, history: Seq<u8>)
    requires
        holds_history(w, id, history),
        history.len() > COMPRESSION_THRESHOLD,
    ensures
        w.warning is None ==> {
            &&& w.data@ == zstd_encoded(history, COMPRESSION_LEVEL)
            &&& has_zstd_magic(w.data@)
            &&& zstd_decoded(w.data@) == Some(history)
        },
        w.warning is Some ==> {
            &&& w.data@ == history
            &&& opt_string(w.warning) == Some(compress_warning(id, ZSTD_OUT_OF_MEMORY@))
        },
{
    let r = choose|r: Result<Vec<u8>, CodecError>|
        {
            &&& #[trigger] compression_came_to(history, r)
            &&& w.data@ == payload_of(id, history, r).0
            &&& opt_string(w.warning) == payload_of(id, history, r).1
        };
    law_compression(history, r);
}

/// The sessions whose histories are saved: those that are running and have one.
pub open spec fn worth_saving(listing: Seq<(String, Session)>) -> Seq<Session>
    decreases listing.len(),
{
    if listing.len() == 0 {
        Seq::empty()
    } else {
        let earlier = worth_saving(listing.drop_last());
        let s = listing.last().1;
        if s.state is Running && s.history@.len() > 0 {
            earlier.push(s)
        } else {
            earlier
        }
    }
}

/// The history of a session at some moment, in order to be saved.
#[derive(Debug)]
pub struct HistorySnapshot {
    pub session_id: String,
    pub data: Vec<u8>,
}

/// Whether `p` is the history of `s`.
pub open spec fn is_snapshot_of(p: HistorySnapshot, s: Session) -> bool {
    p.session_id@ == s.id@ && p.data@ == s.history@
}

/// Takes the histories that are worth saving, in the order in which the map lists
/// their sessions. The map is not needed any more when they are written.
pub fn snapshot_histories(sessions: &SessionMap) -> (res: Vec<HistorySnapshot>)
    requires
        sessions_wf(sessions),
    ensures
        res@.len() == worth_saving(sessions.listing()).len(),
        forall|i: int|
            0 <= i < res@.len() ==> is_snapshot_of(
                #[trigger] res@[i],
                worth_saving(sessions.listing())[i],
            ),
{
    let mut res: Vec<HistorySnapshot> = Vec::new();
    proof {
        sessions.lemma_listing();
    }
    let n = sessions.len();
    let mut i: usize = 0;
    assert(sessions.listing().take(0) == Seq::<(String, Session)>::empty());
    while i < n
        invariant
            sessions_wf(sessions),
            n == sessions.listing().len(),
            i <= n,
            forall|j: int|
                0 <= j < n ==> #[trigger] sessions@.contains_key(sessions.listing()[j].0@)
                    && sessions@[sessions.listing()[j].0@] == sessions.listing()[j].1,
            res@.len() == worth_saving(sessions.listing().take(i as int)).len(),
            forall|j: int|
                0 <= j < res@.len() ==> is_snapshot_of(
                    #[trigger] res@[j],
                    worth_saving(sessions.listing().take(i as int))[j],
                ),
        decreases n - i,
    {
        let s = &sessions.entry(i).1;
        proof {
            assert(sessions@.contains_key(sessions.listing()[i as int].0@));
            assert(s.wf());
            assert(sessions.listing().take(i + 1).drop_last() == sessions.listing().take(i as int));
        }
        if matches!(s.state, SessionState::Running) && !s.history.is_empty() {
            res.push(HistorySnapshot { session_id: s.id.clone(), data: s.history.to_vec() });
        }
        i += 1;
    }
    assert(sessions.listing().take(n as int) == sessions.listing());
    res
}

/// Whether `w` saves the history `p` below `base_path`.
pub open spec fn saves_snapshot(w: FileWrite, p: HistorySnapshot, base_path: Seq<char>) -> bool {
    &&& w.path@ == history_file(history_dir(base_path), p.session_id@)
    &&& holds_history(w, p.session_id@, p.data@)
}

/// What is to be written in order to save the history `p` in the directory `dir`:
/// a long history is compressed, and saved as it is if it cannot be.
fn save_snapshot(dir: &str, p: HistorySnapshot) -> (res: FileWrite)
    ensures
        res.path@ == history_file(dir@, p.session_id@),
        holds_history(res, p.session_id@, p.data@),
{
    if should_compress(p.data.len()) {
        let compressed = compress_history(p.data.as_slice());
        let (data, warning) = history_payload(p.session_id.as_str(), p.data, compressed);
        FileWrite { path: history_file_path(dir, p.session_id.as_str()), data, warning }
    } else {
        save_history(dir, p.session_id.as_str(), p.data.as_slice())
    }
}

/// What is to be written in order to save the histories `snapshots`: one file for
/// each, in their order. Long histories are compressed; one that cannot be is
/// saved as it is, with a warning.
pub fn save_snapshots(base_path: &str, snapshots: Vec<HistorySnapshot>) -> (res: Vec<FileWrite>)
    ensures
        res@.len() == snapshots@.len(),
        forall|i: int|
            0 <= i < res@.len() ==> saves_snapshot(
                #[trigger] res@[i],
                snapshots@[i],
                base_path@,
            ),
{
    let dir = get_history_dir(base_path);
    let mut res: Vec<FileWrite> = Vec::new();
    for p in it: snapshots
        invariant
            dir@ == history_dir(base_path@),
            it.seq() == snapshots@,
            res@.len() == it.index(),
            forall|j: int|
                0 <= j < res@.len() ==> saves_snapshot(
                    #[trigger] res@[j],
                    snapshots@[j],
                    base_path@,
                ),
    {
        res.push(save_snapshot(dir.as_str(), p));
    }
    res
}

/// Whether `w` saves the history of `s` below `base_path`.
pub open spec fn saves_history(w: FileWrite, s: Session, base_path: Seq<char>) -> bool {
    &&& w.path@ == history_file(history_dir(base_path), s.id@)
    &&& holds_history(w, s.id@, s.history@)
}

/// What is to be written in order to save the histories of all sessions: one file
/// for each that is running and has a history, in the order in which the map
/// lists them. Long histories are compressed; one that cannot be is saved as it
/// is, with a warning.
pub fn save_all_histories(base_path: &str, sessions: &SessionMap) -> (res: Vec<FileWrite>)
    requires
        sessions_wf(sessions),
    ensures
        res@.len() == worth_saving(sessions.listing()).len(),
        forall|i: int|
            0 <= i < res@.len() ==> saves_history(
                #[trigger] res@[i],
                worth_saving(sessions.listing())[i],
                base_path@,
            ),
{
    let snapshots = snapshot_histories(sessions);
    let ghost taken = snapshots@;
    let res = save_snapshots(base_path, snapshots);
    assert forall|i: int| 0 <= i < res@.len() implies saves_history(
        #[trigger] res@[i],
        worth_saving(sessions.listing())[i],
        base_path@,
    ) by {
        assert(is_snapshot_of(taken[i], worth_saving(sessions.listing())[i]));
    }
    res
}

/// What is to be written in order to save all sessions.
#[derive(Debug)]
pub struct PersistPlan {
    /// The file for the metadata.
    pub metadata_path: String,
    /// The metadata to write to it.
    pub metadata: PersistedSessionData,
    /// The history files.
    pub histories: Vec<FileWrite>,
}

/// What is to be written in order to save the metadata `metadata` and the histories
/// `snapshots`. The sessions that they were taken of are not needed any more.
pub fn persist_snapshots(
    base_path: &str,
    metadata: PersistedSessionData,
    snapshots: Vec<HistorySnapshot>,
) -> (res: PersistPlan)
    ensures
        res.metadata_path@ == joined(base_path@, SESSION_METADATA_FILE@),
        res.metadata == metadata,
        res.histories@.len() == snapshots@.len(),
        forall|i: int|
            0 <= i < res.histories@.len() ==> saves_snapshot(
                #[trigger] res.histories@[i],
                snapshots@[i],
                base_path@,
            ),
{
    PersistPlan {
        metadata_path: get_session_file_path(base_path),
        metadata,
        histories: save_snapshots(base_path, snapshots),
    }
}

/// What is to be written in order to save all sessions: their metadata, and the
/// histories of those that are running.
pub fn persist_all(base_path: &str, sessions: &SessionMap) -> (res: PersistPlan)
    requires
        sessions_wf(sessions),
    ensures
        is_persist_plan(res, base_path@, sessions),
{
    let snapshots = snapshot_histories(sessions);
    let ghost taken = snapshots@;
    let res = persist_snapshots(base_path, build_persisted_data(sessions), snapshots);
    assert forall|i: int| 0 <= i < res.histories@.len() implies saves_history(
        #[trigger] res.histories@[i],
        worth_saving(sessions.listing())[i],
        base_path@,
    ) by {
        assert(is_snapshot_of(taken[i], worth_saving(sessions.listing())[i]));
    }
    res
}

/// The text of `s` in quotation marks, as Rust's debug format writes it.
pub uninterp spec fn debug_quoted(s: Seq<char>) -> Seq<char>;

/// Writes out a string by its `Debug` implementation. The result is determined by
/// the string; which characters are escaped, and how, is not said.
#[verifier::external_body]
fn debug_text(s: &str) -> (res: String)
    ensures
        res@ == debug_quoted(s@),
{
    format!("{:?}", s)
}

/// The text of the path `p` in quotation marks, as Rust's debug format writes
/// paths.
pub uninterp spec fn path_debug_quoted(p: Seq<char>) -> Seq<char>;

/// Writes out a path by the `Debug` implementation of `std::path::Path`, which is
/// not that of a string. The result is determined by the path; which
/// characters are escaped, and how, is not said.
#[verifier::external_body]
fn path_debug_text(p: &str) -> (res: String)
    ensures
        res@ == path_debug_quoted(p@),
{
    format!("{:?}", std::path::Path::new(p))
}

/// What reading a file came to.
#[derive(Debug)]
pub enum FileRead {
    /// There is no such file.
    Missing,
    /// There is one, but reading it failed with this error.
    Failed(String),
    /// The contents of the file.
    Contents(Vec<u8>),
}

/// The message for a history file that could not be read because of `e`.
pub open spec fn read_message(path: Seq<char>, e: Seq<char>) -> Seq<char> {
    "Failed to read history file "@ + path_debug_quoted(path) + ": "@ + e
}

/// The contents of a session's history file, given what reading it came to. That
/// there is no such file is no error.
pub fn load_history(base_dir: &str, session_id: &str, file: FileRead) -> (res: Result<
    Option<Vec<u8>>,
    String,
>)
    ensures
        match file {
            FileRead::Missing => res == Ok::<Option<Vec<u8>>, String>(None),
            FileRead::Failed(e) => {
                &&& res matches Err(message)
                &&& message@ == read_message(history_file(base_dir@, session_id@), e@)
            },
            FileRead::Contents(data) => res == Ok::<Option<Vec<u8>>, String>(Some(data)),
        },
{
    match file {
        FileRead::Missing => Ok(None),
        FileRead::Failed(e) => {
            let path = history_file_path(base_dir, session_id);
            let quoted = path_debug_text(path.as_str());
            let mut message: String = concat3(
                "Failed to read history file ",
                quoted.as_str(),
                ": ",
            );
            message.append(e.as_str());
            Err(message)
        },
        FileRead::Contents(data) => Ok(Some(data)),
    }
}

/// What reading the file of the session metadata came to.
#[derive(Debug)]
pub enum SessionFile {
    /// There is no such file.
    Missing,
    /// There is one, but reading it failed with this error.
    Unreadable(String),
    /// It was read, but what it holds is no session metadata, with this error.
    Corrupt(String),
    /// The metadata that it holds.
    Parsed(PersistedSessionData),
}

/// Whether `res` is what loading the session metadata comes to, if reading the file
/// at `path` came to `file`.
pub open spec fn are_loaded_sessions(
    path: Seq<char>,
    file: SessionFile,
    res: Result<PersistedSessionData, String>,
) -> bool {
    match file {
        SessionFile::Missing => {
            &&& res matches Ok(data)
            &&& data.sessions@ == Seq::<PersistedSession>::empty()
        },
        SessionFile::Unreadable(e) => {
            &&& res matches Err(message)
            &&& message@ == "Failed to read session file "@ + debug_quoted(path) + ": "@ + e@
        },
        SessionFile::Corrupt(e) => {
            &&& res matches Err(message)
            &&& message@ == "Failed to parse session file "@ + debug_quoted(path) + ": "@ + e@
        },
        SessionFile::Parsed(data) => res == Ok::<PersistedSessionData, String>(data),
    }
}

/// The metadata of the saved sessions, given what reading the file at `path` came
/// to. If there is no such file, there are no saved sessions; only a file that is
/// there and cannot be used is an error.
pub fn load_sessions(path: &str, file: SessionFile) -> (res: Result<PersistedSessionData, String>)
    ensures
        are_loaded_sessions(path@, file, res),
{
    match file {
        SessionFile::Missing => Ok(PersistedSessionData::new()),
        SessionFile::Unreadable(e) => {
            let quoted = debug_text(path);
            let mut message: String = concat3(
                "Failed to read session file ",
                quoted.as_str(),
                ": ",
            );
            message.append(e.as_str());
            Err(message)
        },
        SessionFile::Corrupt(e) => {
            let quoted = debug_text(path);
            let mut message: String = concat3(
                "Failed to parse session file ",
                quoted.as_str(),
                ": ",
            );
            message.append(e.as_str());
            Err(message)
        },
        SessionFile::Parsed(data) => Ok(data),
    }
}

/// The stages of writing a file in such a way that it is never seen half written:
/// the data goes to a temporary file in the same directory, which then takes the
/// place of the file.
#[derive(Debug, Clone, Copy, PartialEq, Eq, Structural)]
pub enum WriteStage {
    /// Create the directory of the file, with its parents.
    CreateDir,
    /// Create the temporary file.
    CreateTemp,
    /// Write all the data to the temporary file.
    WriteData,
    /// Flush the temporary file.
    Flush,
    /// Rename the temporary file to the file.
    Rename,
    /// The file is written.
    Done,
}

/// The stage after `stage`, if that succeeded.
pub open spec fn stage_after(stage: WriteStage) -> WriteStage {
    match stage {
        WriteStage::CreateDir => WriteStage::CreateTemp,
        WriteStage::CreateTemp => WriteStage::WriteData,
        WriteStage::WriteData => WriteStage::Flush,
        WriteStage::Flush => WriteStage::Rename,
        WriteStage::Rename => WriteStage::Done,
        WriteStage::Done => WriteStage::Done,
    }
}

/// The directory that the file `path` lies in; empty if it lies in none.
pub open spec fn dir_of(path: Seq<char>) -> Seq<char> {
    match parent_of(path) {
        Some(dir) => dir,
        None => Seq::empty(),
    }
}

/// The message for the failure of `stage` with the error `e`, in writing the file
/// `path`.
pub open spec fn write_message(path: Seq<char>, stage: WriteStage, e: Seq<char>) -> Seq<char> {
    match stage {
        WriteStage::CreateDir => "Failed to create directory "@ + path_debug_quoted(dir_of(path))
            + ": "@ + e,
        WriteStage::CreateTemp => "Failed to create temp file in "@ + path_debug_quoted(
            dir_of(path),
        ) + ": "@ + e,
        WriteStage::WriteData => "Failed to write temp file: "@ + e,
        WriteStage::Flush => "Failed to flush temp file: "@ + e,
        WriteStage::Rename => "Failed to rename temp file to "@ + path_debug_quoted(path) + ": "@
            + e,
        WriteStage::Done => e,
    }
}

/// The first stage of writing the file `path`: creating its directory, unless that
/// is the current one, whose path is empty.
pub open spec fn first_stage(path: Seq<char>) -> WriteStage {
    if dir_of(path).len() == 0 {
        WriteStage::CreateTemp
    } else {
        WriteStage::CreateDir
    }
}

/// The first stage of writing the file `path`. A path that lies in no directory is
/// an error.
pub fn atomic_write(path: &str) -> (res: Result<WriteStage, String>)
    ensures
        match parent_of(path@) {
            None => {
                &&& res matches Err(message)
                &&& message@ == "No parent directory for "@ + path_debug_quoted(path@)
            },
            Some(_) => res == Ok::<WriteStage, String>(first_stage(path@)),
        },
{
    match parent(path) {
        None => {
            let quoted = path_debug_text(path);
            let mut message: String = "No parent directory for ".to_owned();
            message.append(quoted.as_str());
            Err(message)
        },
        Some(dir) => {
            if dir.is_empty() {
                Ok(WriteStage::CreateTemp)
            } else {
                Ok(WriteStage::CreateDir)
            }
        },
    }
}

/// The directory of the file `path`, in quotation marks.
fn quoted_dir(path: &str) -> (res: String)
    ensures
        res@ == path_debug_quoted(dir_of(path@)),
{
    match parent(path) {
        Some(dir) => path_debug_text(dir),
        None => {
            proof {
                reveal_strlit("");
                assert(""@ =~= Seq::<char>::empty());
            }
            path_debug_text("")
        },
    }
}

/// What comes after `stage` of writing the file `path`, given what that stage came
/// to: the next stage, or a message that ends the writing.
pub fn next_write_stage(path: &str, stage: WriteStage, outcome: Result<(), String>) -> (res: Result<
    WriteStage,
    String,
>)
    ensures
        match outcome {
            Ok(()) => res == Ok::<WriteStage, String>(stage_after(stage)),
            Err(e) => {
                &&& res matches Err(message)
                &&& message@ == write_message(path@, stage, e@)
            },
        },
{
    match outcome {
        Ok(()) => Ok(
            match stage {
                WriteStage::CreateDir => WriteStage::CreateTemp,
                WriteStage::CreateTemp => WriteStage::WriteData,
                WriteStage::WriteData => WriteStage::Flush,
                WriteStage::Flush => WriteStage::Rename,
                WriteStage::Rename => WriteStage::Done,
                WriteStage::Done => WriteStage::Done,
            },
        ),
        Err(e) => {
            let mut message: String = match stage {
                WriteStage::CreateDir => concat3(
                    "Failed to create directory ",
                    quoted_dir(path).as_str(),
                    ": ",
                ),
                WriteStage::CreateTemp => concat3(
                    "Failed to create temp file in ",
                    quoted_dir(path).as_str(),
                    ": ",
                ),
                WriteStage::WriteData => "Failed to write temp file: ".to_owned(),
                WriteStage::Flush => "Failed to flush temp file: ".to_owned(),
                WriteStage::Rename => concat3(
                    "Failed to rename temp file to ",
                    path_debug_text(path).as_str(),
                    ": ",
                ),
                WriteStage::Done => String::new(),
            };
            message.append(e.as_str());
            proof {
                assert(Seq::<char>::empty() + e@ =~= e@);
            }
            Err(message)
        },
    }
}

/// Whether `stages` are the stages that writing the file `path` goes through as
/// long as all of them succeed.
pub open spec fn is_write_run(path: Seq<char>, stages: Seq<WriteStage>) -> bool {
    &&& stages.len() > 0
    &&& stages[0] == first_stage(path)
    &&& forall|i: int|
        0 <= i < stages.len() - 1 ==> #[trigger] stages[i + 1] == stage_after(stages[i])
}

/// A file is replaced only after all the data has been written to the temporary
/// file and flushed: before the renaming come these two stages, in this order, and
/// before them the creation of the temporary file.
pub proof fn law_rename_comes_last(path: Seq<char>, stages: Seq<WriteStage>, i: int)
    requires
        is_write_run(path, stages),
        0 <= i < stages.len(),
        stages[i] is Rename,
    ensures
        i >= 3,
        stages[i - 1] is Flush,
        stages[i - 2] is WriteData,
        stages[i - 3] is CreateTemp,
{
    assert(i - 1 >= 0 ==> stages[i - 1 + 1] == stage_after(stages[i - 1]));
    assert(i - 2 >= 0 ==> stages[i - 2 + 1] == stage_after(stages[i - 2]));
    assert(i - 3 >= 0 ==> stages[i - 3 + 1] == stage_after(stages[i - 3]));
}

/// The files, by path, and the contents of the temporary file while there is one.
pub struct Disk {
    pub files: Map<Seq<char>, Seq<u8>>,
    pub temp: Option<Seq<u8>>,
}

/// `disk` after `stage` of writing `data` to the file `path` succeeded. What is in a
/// temporary file that does not exist is never asked.
pub open spec fn after_stage(disk: Disk, path: Seq<char>, data: Seq<u8>, stage: WriteStage) -> Disk {
    match stage {
        WriteStage::CreateDir => disk,
        WriteStage::CreateTemp => Disk { files: disk.files, temp: Some(Seq::empty()) },
        WriteStage::WriteData => match disk.temp {
            Some(held) => Disk { files: disk.files, temp: Some(held + data) },
            None => disk,
        },
        WriteStage::Flush => disk,
        WriteStage::Rename => match disk.temp {
            Some(held) => Disk { files: disk.files.insert(path, held), temp: None },
            None => disk,
        },
        WriteStage::Done => disk,
    }
}

/// `disk` after a stage failed: the temporary file is given up, and no other file is
/// touched.
pub open spec fn after_failure(disk: Disk) -> Disk {
    Disk { files: disk.files, temp: None }
}

/// The disk with `files` on it after the first `n` of `stages` succeeded.
pub open spec fn after_stages(
    files: Map<Seq<char>, Seq<u8>>,
    path: Seq<char>,
    data: Seq<u8>,
    stages: Seq<WriteStage>,
    n: nat,
) -> Disk
    decreases n,
{
    if n == 0 {
        Disk { files, temp: None }
    } else {
        after_stage(
            after_stages(files, path, data, stages, (n - 1) as nat),
            path,
            data,
            stages[n - 1],
        )
    }
}

/// A file is written whole or not at all. However many stages of the writing have
/// succeeded: before the renaming has, every file is as it was, also if the next
/// stage then fails; when the writing is done, the file holds exactly the data, and
/// every other file is as it was.
pub proof fn law_atomic_write(
    files: Map<Seq<char>, Seq<u8>>,
    path: Seq<char>,
    data: Seq<u8>,
    stages: Seq<WriteStage>,
    n: int,
)
    requires
        is_write_run(path, stages),
        0 <= n < stages.len(),
    ensures
        !(stages[n] is Done) ==> after_stages(files, path, data, stages, n as nat).files == files,
        !(stages[n] is Done) ==> after_failure(
            after_stages(files, path, data, stages, n as nat),
        ) == (Disk { files, temp: None }),
        stages[n] is Done ==> after_stages(files, path, data, stages, n as nat).files
            == files.insert(path, data),
{
    lemma_after_stages(files, path, data, stages, n);
}

proof fn lemma_after_stages(
    files: Map<Seq<char>, Seq<u8>>,
    path: Seq<char>,
    data: Seq<u8>,
    stages: Seq<WriteStage>,
    n: int,
)
    requires
        is_write_run(path, stages),
        0 <= n < stages.len(),
    ensures
        after_stages(files, path, data, stages, n as nat) == (match stages[n] {
            WriteStage::CreateDir => Disk { files, temp: None },
            WriteStage::CreateTemp => Disk { files, temp: None },
            WriteStage::WriteData => Disk { files, temp: Some(Seq::empty()) },
            WriteStage::Flush => Disk { files, temp: Some(data) },
            WriteStage::Rename => Disk { files, temp: Some(data) },
            WriteStage::Done => Disk { files: files.insert(path, data), temp: None },
        }),
    decreases n,
{
    if n > 0 {
        lemma_after_stages(files, path, data, stages, n - 1);
        assert(stages[n - 1 + 1] == stage_after(stages[n - 1]));
        assert(Seq::<u8>::empty() + data =~= data);
    }
}

/// Whether the contents of a history file are to be decompressed: whether they
/// begin as a zstd frame does.
pub fn is_compressed(data: &[u8]) -> (res: bool)
    ensures
        res == has_zstd_magic(data@),
{
    data.len() >= 4 && data[0] == 0x28 && data[1] == 0xb5 && data[2] == 0x2f && data[3] == 0xfd
}

/// The message for a history of the session `session_id` that could not be
/// decompressed because of `e`.
pub open spec fn decompress_message(session_id: Seq<char>, e: Seq<char>) -> Seq<char> {
    "Failed to decompress history for "@ + session_id + ": "@ + e
}

/// Whether `res` is what loading a compressed history of the session `id` comes
/// to, if decompressing it came to `decompressed`.
pub open spec fn is_decompressed(
    id: Seq<char>,
    decompressed: Result<Vec<u8>, CodecError>,
    res: Result<Option<Vec<u8>>, String>,
) -> bool {
    match decompressed {
        Ok(bytes) => res matches Ok(Some(history)) && history@ == bytes@,
        Err(e) => res matches Err(message) && message@ == decompress_message(id, e.text()),
    }
}

/// What loading a compressed history comes to, if decompressing it came to
/// `decompressed`.
pub fn decompressed_history(session_id: &str, decompressed: Result<Vec<u8>, CodecError>) -> (res:
    Result<Option<Vec<u8>>, String>)
    ensures
        is_decompressed(session_id@, decompressed, res),
{
    match decompressed {
        Ok(bytes) => Ok(Some(bytes)),
        Err(e) => {
            let mut message: String = concat3(
                "Failed to decompress history for ",
                session_id,
                ": ",
            );
            message.append(e.message().as_str());
            Err(message)
        },
    }
}

/// The history that the contents `data` of a history file stand for, if they
/// stand for one: contents that begin as a zstd frame does are decompressed, and
/// others are the history themselves.
pub open spec fn saved_history(data: Seq<u8>) -> Option<Seq<u8>> {
    if has_zstd_magic(data) {
        zstd_decoded(data)
    } else {
        Some(data)
    }
}

/// Whether `res` is what loading the history of the session `id` from the contents
/// `data` of its file comes to: what decompressing them came to, if they begin as
/// a zstd frame does, and the contents themselves if not.
pub open spec fn is_loaded_from(
    id: Seq<char>,
    data: Seq<u8>,
    res: Result<Option<Vec<u8>>, String>,
) -> bool {
    if has_zstd_magic(data) {
        exists|r: Result<Vec<u8>, CodecError>| #[trigger]
            decompression_came_to(data, r) && is_decompressed(id, r, res)
    } else {
        res matches Ok(Some(history)) && history@ == data
    }
}

/// Whatever contents stand for a history are loaded as that history, and others are
/// an error. The one exception is that memory runs out; the message then says so.
pub proof fn law_loading(id: Seq<char>, data: Seq<u8>, res: Result<Option<Vec<u8>>, String>)
    requires
        is_loaded_from(id, data, res),
    ensures
        match res {
            Ok(None) => false,
            Ok(Some(history)) => saved_history(data) == Some(history@),
            Err(message) => {
                &&& has_zstd_magic(data)
                &&& saved_history(data) is None || message@ == decompress_message(
                    id,
                    ZSTD_OUT_OF_MEMORY@,
                )
            },
        },
{
    if has_zstd_magic(data) {
        let r = choose|r: Result<Vec<u8>, CodecError>| #[trigger]
            decompression_came_to(data, r) && is_decompressed(id, r, res);
        law_decompression(data, r);
    }
}

/// The history of a session, given what reading its file came to. A lack of the
/// file and a failure to read it are passed on. Contents that begin as a zstd
/// frame does are decompressed, and it is an error if they cannot be: if they
/// stand for no history, or if memory runs out.
pub fn load_history_auto(base_dir: &str, session_id: &str, file: FileRead) -> (res: Result<
    Option<Vec<u8>>,
    String,
>)
    ensures
        match file {
            FileRead::Missing => res == Ok::<Option<Vec<u8>>, String>(None),
            FileRead::Failed(e) => {
                &&& res matches Err(message)
                &&& message@ == read_message(history_file(base_dir@, session_id@), e@)
            },
            FileRead::Contents(data) => {
                &&& is_loaded_from(session_id@, data@, res)
                &&& match res {
                    Ok(None) => false,
                    Ok(Some(history)) => saved_history(data@) == Some(history@),
                    Err(message) => {
                        &&& has_zstd_magic(data@)
                        &&& saved_history(data@) is None || message@ == decompress_message(
                            session_id@,
                            ZSTD_OUT_OF_MEMORY@,
                        )
                    },
                }
            },
        },
{
    match load_history(base_dir, session_id, file) {
        Err(e) => Err(e),
        Ok(None) => Ok(None),
        Ok(Some(data)) => {
            if is_compressed(data.as_slice()) {
                let decompressed = decompress_history(data.as_slice());
                let res = decompressed_history(session_id, decompressed);
                proof {
                    assert(is_decompressed(session_id@, decompressed, res));
                    law_loading(session_id@, data@, res);
                }
                res
            } else {
                Ok(Some(data))
            }
        },
    }
}

/// Whether `w` holds a history as it is, and not compressed.
pub open spec fn is_raw(w: FileWrite, history: Seq<u8>) -> bool {
    history.len() <= COMPRESSION_THRESHOLD || w.warning is Some
}

/// What was saved of a history is loaded as that history again, whether it was
/// compressed or not, unless memory runs out. The one history of which this does
/// not hold is one that was saved as it is and happens to begin as a zstd frame
/// does.
pub proof fn law_saved_history_is_loaded(
    w: FileWrite,
    id: Seq<char>,
    history: Seq<u8>,
    res: Result<Option<Vec<u8>>, String>,
)
    requires
        holds_history(w, id, history),
        is_raw(w, history) ==> !has_zstd_magic(history),
        is_loaded_from(id, w.data@, res),
    ensures
        saved_history(w.data@) == Some(history),
        match res {
            Ok(loaded) => loaded matches Some(h) && h@ == history,
            Err(message) => {
                &&& !is_raw(w, history)
                &&& message@ == decompress_message(id, ZSTD_OUT_OF_MEMORY@)
            },
        },
{
    if history.len() > COMPRESSION_THRESHOLD {
        law_long_histories_are_compressed(w, id, history);
    }
    law_loading(id, w.data@, res);
}

/// The files, by path, after `writes` were carried out one after the other.
pub open spec fn written(files: Map<Seq<char>, Seq<u8>>, writes: Seq<FileWrite>) -> Map<
    Seq<char>,
    Seq<u8>,
>
    decreases writes.len(),
{
    if writes.len() == 0 {
        files
    } else {
        written(files, writes.drop_last()).insert(writes.last().path@, writes.last().data@)
    }
}

/// A file to which nothing is written stays as it is.
proof fn lemma_untouched(files: Map<Seq<char>, Seq<u8>>, writes: Seq<FileWrite>, path: Seq<char>)
    requires
        forall|i: int| 0 <= i < writes.len() ==> (#[trigger] writes[i]).path@ != path,
    ensures
        written(files, writes).contains_key(path) == files.contains_key(path),
        files.contains_key(path) ==> written(files, writes)[path] == files[path],
    decreases writes.len(),
{
    if writes.len() > 0 {
        assert forall|i: int| 0 <= i < writes.drop_last().len() implies (
        #[trigger] writes.drop_last()[i]).path@ != path by {
            assert(writes.drop_last()[i] == writes[i]);
        }
        lemma_untouched(files, writes.drop_last(), path);
        assert(writes[writes.len() - 1].path@ != path);
    }
}

/// A file holds what was written to it last.
proof fn lemma_written(
    files: Map<Seq<char>, Seq<u8>>,
    writes: Seq<FileWrite>,
    path: Seq<char>,
    at: int,
)
    requires
        0 <= at < writes.len(),
        writes[at].path@ == path,
        forall|i: int| at < i < writes.len() ==> (#[trigger] writes[i]).path@ != path,
    ensures
        written(files, writes).contains_key(path),
        written(files, writes)[path] == writes[at].data@,
    decreases writes.len(),
{
    if at < writes.len() - 1 {
        let front = writes.drop_last();
        assert forall|i: int| at < i < front.len() implies (#[trigger] front[i]).path@
            != path by {
            assert(front[i] == writes[i]);
        }
        lemma_written(files, front, path, at);
        assert(writes[writes.len() - 1].path@ != path);
    }
}

pub(crate) proof fn lemma_worth_saving_ids(listing: Seq<(String, Session)>)
    requires
        distinct_keys(listing),
        forall|i: int| 0 <= i < listing.len() ==> (#[trigger] listing[i]).1.id@ == listing[i].0@,
    ensures
        forall|i: int, j: int|
            0 <= i < j < worth_saving(listing).len() ==> (#[trigger] worth_saving(listing)[i]).id@
                != (#[trigger] worth_saving(listing)[j]).id@,
        forall|i: int|
            0 <= i < worth_saving(listing).len() ==> exists|k: int|
                0 <= k < listing.len() && (#[trigger] listing[k]).1 == (
                #[trigger] worth_saving(listing)[i]),
    decreases listing.len(),
{
    if listing.len() > 0 {
        let front = listing.drop_last();
        let earlier = worth_saving(front);
        assert forall|i: int| 0 <= i < front.len() implies (#[trigger] front[i]).1.id@
            == front[i].0@ by {
            assert(front[i] == listing[i]);
        }
        assert(distinct_keys(front)) by {
            assert forall|i: int, j: int| 0 <= i < j < front.len() implies (
            #[trigger] front[i]).0@ != (#[trigger] front[j]).0@ by {
                assert(listing[i].0@ != listing[j].0@);
            }
        }
        lemma_worth_saving_ids(front);
        let last = listing[listing.len() - 1];
        assert forall|i: int| 0 <= i < earlier.len() implies {
            &&& (#[trigger] earlier[i]).id@ != last.1.id@
            &&& exists|k: int| 0 <= k < listing.len() && (#[trigger] listing[k]).1 == earlier[i]
        } by {
            let k = choose|k: int| 0 <= k < front.len() && (#[trigger] front[k]).1 == earlier[i];
            assert(front[k] == listing[k]);
            assert(listing[k].0@ != listing[listing.len() - 1].0@);
        }
        let all = worth_saving(listing);
        assert forall|i: int| 0 <= i < all.len() implies exists|k: int|
            0 <= k < listing.len() && (#[trigger] listing[k]).1 == (#[trigger] all[i]) by {
            if i < earlier.len() {
                assert(all[i] == earlier[i]);
            } else {
                assert(listing[listing.len() - 1].1 == all[i]);
            }
        }
    }
}

/// After the histories of all sessions were saved, the history file of every
/// running session that has a history holds it, and loading it gives it back,
/// unless memory runs out. What the files held before does not matter. Left out are
/// a session whose history file another one's id leads to, and a history that was
/// saved as it is and begins as a zstd frame does.
pub proof fn law_saved_histories_are_loaded(
    files: Map<Seq<char>, Seq<u8>>,
    base_path: Seq<char>,
    sessions: &SessionMap,
    writes: Seq<FileWrite>,
    id: Seq<char>,
    res: Result<Option<Vec<u8>>, String>,
)
    requires
        sessions.wf(),
        filed_by_id(sessions@),
        writes.len() == worth_saving(sessions.listing()).len(),
        forall|i: int|
            0 <= i < writes.len() ==> saves_history(
                #[trigger] writes[i],
                worth_saving(sessions.listing())[i],
                base_path,
            ),
        sessions@.contains_key(id),
        sessions@[id].state is Running,
        sessions@[id].history@.len() > 0,
        forall|other: Seq<char>| #[trigger]
            sessions@.contains_key(other) && other != id ==> history_file(
                history_dir(base_path),
                other,
            ) != history_file(history_dir(base_path), id),
        forall|i: int|
            0 <= i < writes.len() && (#[trigger] writes[i]).path@ == history_file(
                history_dir(base_path),
                id,
            ) && is_raw(writes[i], sessions@[id].history@) ==> !has_zstd_magic(
                sessions@[id].history@,
            ),
        is_loaded_from(
            id,
            written(files, writes)[history_file(history_dir(base_path), id)],
            res,
        ),
    ensures
        written(files, writes).contains_key(history_file(history_dir(base_path), id)),
        saved_history(written(files, writes)[history_file(history_dir(base_path), id)]) == Some(
            sessions@[id].history@,
        ),
        match res {
            Ok(loaded) => loaded matches Some(h) && h@ == sessions@[id].history@,
            Err(message) => message@ == decompress_message(id, ZSTD_OUT_OF_MEMORY@),
        },
{
    let listing = sessions.listing();
    let saved = worth_saving(listing);
    let s = sessions@[id];
    let path = history_file(history_dir(base_path), id);
    sessions.lemma_listing();
    assert forall|i: int| 0 <= i < listing.len() implies (#[trigger] listing[i]).1.id@
        == listing[i].0@ by {
        assert(sessions@.contains_key(listing[i].0@));
    }
    lemma_worth_saving_ids(listing);
    law_running_histories_are_saved(sessions, s);
    let at = choose|at: int| 0 <= at < saved.len() && saved[at] == s;
    assert(saved[at].id@ == id);
    assert(saves_history(writes[at], saved[at], base_path));
    assert forall|i: int| at < i < writes.len() implies (#[trigger] writes[i]).path@ != path by {
        assert(saves_history(writes[i], saved[i], base_path));
        assert(saved[at].id@ != saved[i].id@);
        let k = choose|k: int| 0 <= k < listing.len() && (#[trigger] listing[k]).1 == saved[i];
        assert(sessions@.contains_key(listing[k].0@));
        assert(sessions@.contains_key(saved[i].id@));
    }
    lemma_written(files, writes, path, at);
    law_saved_history_is_loaded(writes[at], id, s.history@, res);
}

/// Saving the histories leaves the metadata file as it is.
pub proof fn law_histories_spare_the_metadata(
    files: Map<Seq<char>, Seq<u8>>,
    base_path: Seq<char>,
    sessions: &SessionMap,
    writes: Seq<FileWrite>,
)
    requires
        writes.len() == worth_saving(sessions.listing()).len(),
        forall|i: int|
            0 <= i < writes.len() ==> saves_history(
                #[trigger] writes[i],
                worth_saving(sessions.listing())[i],
                base_path,
            ),
    ensures
        ({
            let path = joined(base_path, SESSION_METADATA_FILE@);
            &&& written(files, writes).contains_key(path) == files.contains_key(path)
            &&& files.contains_key(path) ==> written(files, writes)[path] == files[path]
        }),
{
    let path = joined(base_path, SESSION_METADATA_FILE@);
    reveal_strlit("sessions.json");
    reveal_strlit(".history");
    assert(path.last() == 'n');
    assert forall|i: int| 0 <= i < writes.len() implies (#[trigger] writes[i]).path@ != path by {
        let s = worth_saving(sessions.listing())[i];
        assert(saves_history(writes[i], s, base_path));
        assert((s.id@ + ".history"@).last() == 'y');
        assert(writes[i].path@.last() == 'y');
    }
    lemma_untouched(files, writes, path);
}

/// Whether `file` is what reading the file `path` among `files` comes to, where
/// `parse` gives the metadata that a text stands for, if it stands for any. A file
/// that is not valid UTF-8 cannot be read as text.
pub open spec fn is_read_from(
    files: Map<Seq<char>, Seq<u8>>,
    path: Seq<char>,
    parse: spec_fn(Seq<char>) -> Option<PersistedSessionData>,
    file: SessionFile,
) -> bool {
    if !files.contains_key(path) {
        file is Missing
    } else if !valid_utf8(files[path]) {
        file is Unreadable
    } else {
        match parse(decode_utf8(files[path])) {
            Some(data) => file == SessionFile::Parsed(data),
            None => file is Corrupt,
        }
    }
}

/// Session metadata that was saved is loaded again, whatever its file held before:
/// after the write, the file holds the encoding of the JSON text, and if that text
/// stands for `data`, loading gives `data`.
pub proof fn law_saved_metadata_is_loaded(
    files: Map<Seq<char>, Seq<u8>>,
    w: FileWrite,
    path: Seq<char>,
    text: Seq<char>,
    parse: spec_fn(Seq<char>) -> Option<PersistedSessionData>,
    data: PersistedSessionData,
    file: SessionFile,
    res: Result<PersistedSessionData, String>,
)
    requires
        saves_metadata(w, path, text),
        parse(text) == Some(data),
        is_read_from(written(files, seq![w]), path, parse, file),
        are_loaded_sessions(path, file, res),
    ensures
        written(files, seq![w]) == files.insert(path, encode_utf8(text)),
        res == Ok::<PersistedSessionData, String>(data),
{
    lemma_one_write(files, w);
    encode_utf8_valid_utf8(text);
    encode_utf8_decode_utf8(text);
}

proof fn lemma_one_write(files: Map<Seq<char>, Seq<u8>>, w: FileWrite)
    ensures
        written(files, seq![w]) == files.insert(w.path@, w.data@),
{
    let writes = seq![w];
    assert(writes.drop_last() =~= Seq::<FileWrite>::empty());
    assert(writes.last() == w);
    assert(written(files, writes.drop_last()) == files);
}

/// Whether `plan` saves all sessions below `base_path`.
pub open spec fn is_persist_plan(
    plan: PersistPlan,
    base_path: Seq<char>,
    sessions: &SessionMap,
) -> bool {
    &&& plan.metadata_path@ == joined(base_path, SESSION_METADATA_FILE@)
    &&& plan.metadata.sessions@.len() == sessions.listing().len()
    &&& forall|i: int|
        0 <= i < plan.metadata.sessions@.len() ==> metadata_describes(
            #[trigger] plan.metadata.sessions@[i],
            sessions.listing()[i].1,
        )
    &&& plan.histories@.len() == worth_saving(sessions.listing()).len()
    &&& forall|i: int|
        0 <= i < plan.histories@.len() ==> saves_history(
            #[trigger] plan.histories@[i],
            worth_saving(sessions.listing())[i],
            base_path,
        )
}

/// After all sessions were saved, their metadata is loaded again: the metadata file
/// holds the JSON text that was written to it before the histories, and if that text
/// stands for the metadata, loading gives the metadata.
pub proof fn law_persisted_metadata_is_loaded(
    files: Map<Seq<char>, Seq<u8>>,
    base_path: Seq<char>,
    sessions: &SessionMap,
    plan: PersistPlan,
    w: FileWrite,
    text: Seq<char>,
    parse: spec_fn(Seq<char>) -> Option<PersistedSessionData>,
    file: SessionFile,
    res: Result<PersistedSessionData, String>,
)
    requires
        is_persist_plan(plan, base_path, sessions),
        saves_metadata(w, plan.metadata_path@, text),
        parse(text) == Some(plan.metadata),
        is_read_from(
            written(written(files, seq![w]), plan.histories@),
            plan.metadata_path@,
            parse,
            file,
        ),
        are_loaded_sessions(plan.metadata_path@, file, res),
    ensures
        written(written(files, seq![w]), plan.histories@).contains_key(plan.metadata_path@),
        written(written(files, seq![w]), plan.histories@)[plan.metadata_path@] == encode_utf8(text),
        res == Ok::<PersistedSessionData, String>(plan.metadata),
{
    lemma_one_write(files, w);
    law_histories_spare_the_metadata(
        written(files, seq![w]),
        base_path,
        sessions,
        plan.histories@,
    );
    encode_utf8_valid_utf8(text);
    encode_utf8_decode_utf8(text);
}

/// When all sessions are saved, the histories are saved as `save_all_histories`
/// saves them, and whether the metadata was saved before makes no difference to any
/// file but that of the metadata.
pub proof fn law_metadata_spares_the_histories(
    files: Map<Seq<char>, Seq<u8>>,
    base_path: Seq<char>,
    sessions: &SessionMap,
    plan: PersistPlan,
    w: FileWrite,
    text: Seq<char>,
    other: Seq<char>,
)
    requires
        is_persist_plan(plan, base_path, sessions),
        saves_metadata(w, plan.metadata_path@, text),
        other != plan.metadata_path@,
    ensures
        ({
            let with = written(written(files, seq![w]), plan.histories@);
            let without = written(files, plan.histories@);
            &&& with.contains_key(other) == without.contains_key(other)
            &&& without.contains_key(other) ==> with[other] == without[other]
        }),
{
    lemma_one_write(files, w);
    lemma_written_apart(files, written(files, seq![w]), plan.histories@, other);
}

proof fn lemma_written_apart(
    a: Map<Seq<char>, Seq<u8>>,
    b: Map<Seq<char>, Seq<u8>>,
    writes: Seq<FileWrite>,
    path: Seq<char>,
)
    requires
        a.contains_key(path) == b.contains_key(path),
        a.contains_key(path) ==> a[path] == b[path],
    ensures
        written(a, writes).contains_key(path) == written(b, writes).contains_key(path),
        written(a, writes).contains_key(path) ==> written(a, writes)[path] == written(
            b,
            writes,
        )[path],
    decreases writes.len(),
{
    if writes.len() > 0 {
        lemma_written_apart(a, b, writes.drop_last(), path);
    }
}

/// The metadata of all sessions names each of them exactly once, provided that
/// they are filed by id.
pub proof fn law_metadata_is_complete(sessions: &SessionMap, list: Seq<PersistedSession>)
    requires
        sessions.wf(),
        filed_by_id(sessions@),
        list.len() == sessions.listing().len(),
        forall|i: int|
            0 <= i < list.len() ==> metadata_describes(
                #[trigger] list[i],
                sessions.listing()[i].1,
            ),
    ensures
        forall|i: int, j: int|
            0 <= i < j < list.len() ==> (#[trigger] list[i]).id@ != (#[trigger] list[j]).id@,
        forall|i: int|
            0 <= i < list.len() ==> sessions@.contains_key((#[trigger] list[i]).id@)
                && metadata_describes(list[i], sessions@[list[i].id@]),
        forall|id: Seq<char>| #[trigger]
            sessions@.contains_key(id) ==> exists|i: int|
                0 <= i < list.len() && (#[trigger] list[i]).id@ == id,
{
    sessions.lemma_listing();
    let listing = sessions.listing();
    assert forall|i: int| 0 <= i < list.len() implies (#[trigger] list[i]).id@ == listing[i].0@ by {
        assert(sessions@.contains_key(listing[i].0@));
    }
    assert forall|id: Seq<char>| #[trigger] sessions@.contains_key(id) implies exists|i: int|
        0 <= i < list.len() && (#[trigger] list[i]).id@ == id by {
        let i = choose|i: int| 0 <= i < listing.len() && (#[trigger] listing[i]).0@ == id;
        assert(list[i].id@ == id);
    }
}

/// After the file that `delete_history` gives was removed, the session has no
/// history file, where one is looked for in order to load it. Every other file
/// stays as it is, and so do all of them if there was no such file; a second
/// removal changes nothing.
pub proof fn law_deleted_history_is_gone(
    files: Map<Seq<char>, Seq<u8>>,
    base_path: Seq<char>,
    id: Seq<char>,
    other: Seq<char>,
)
    ensures
        ({
            let path = history_file(history_dir(base_path), id);
            let after = files.remove(path);
            &&& !after.contains_key(path)
            &&& other != path ==> after.contains_key(other) == files.contains_key(other)
            &&& other != path && files.contains_key(other) ==> after[other] == files[other]
            &&& !files.contains_key(path) ==> after == files
            &&& after.remove(path) == after
        }),
{
    let path = history_file(history_dir(base_path), id);
    if !files.contains_key(path) {
        assert(files.remove(path) =~= files);
    }
    assert(files.remove(path).remove(path) =~= files.remove(path));
}

/// A history file is written for every running session that has a history, and
/// for no other session.
pub proof fn law_running_histories_are_saved(sessions: &SessionMap, s: Session)
    requires
        sessions.wf(),
    ensures
        worth_saving(sessions.listing()).contains(s) <==> {
            &&& s.state is Running
            &&& s.history@.len() > 0
            &&& exists|id: Seq<char>| #[trigger] sessions@.contains_key(id) && sessions@[id] == s
        },
{
    sessions.lemma_listing();
    lemma_worth_saving(sessions.listing(), s);
    if exists|id: Seq<char>| #[trigger] sessions@.contains_key(id) && sessions@[id] == s {
        let id = choose|id: Seq<char>| #[trigger]
            sessions@.contains_key(id) && sessions@[id] == s;
        let i = choose|i: int|
            0 <= i < sessions.listing().len() && (#[trigger] sessions.listing()[i]).0@ == id;
        assert(sessions@.contains_key(sessions.listing()[i].0@));
        assert(sessions.listing()[i].1 == s);
    }
    if exists|i: int|
        0 <= i < sessions.listing().len() && (#[trigger] sessions.listing()[i]).1 == s {
        let i = choose|i: int|
            0 <= i < sessions.listing().len() && (#[trigger] sessions.listing()[i]).1 == s;
        assert(sessions@.contains_key(sessions.listing()[i].0@));
    }
}

proof fn lemma_worth_saving(listing: Seq<(String, Session)>, s: Session)
    ensures
        worth_saving(listing).contains(s) <==> {
            &&& s.state is Running
            &&& s.history@.len() > 0
            &&& exists|i: int| 0 <= i < listing.len() && (#[trigger] listing[i]).1 == s
        },
    decreases listing.len(),
{
    if listing.len() > 0 {
        let front = listing.drop_last();
        lemma_worth_saving(front, s);
        let earlier = worth_saving(front);
        let t = listing.last().1;
        assert(earlier.push(t).contains(s) <==> earlier.contains(s) || t == s) by {
            if earlier.contains(s) {
                let k = choose|k: int| 0 <= k < earlier.len() && earlier[k] == s;
                assert(earlier.push(t)[k] == s);
            }
            assert(earlier.push(t)[earlier.len() as int] == t);
        }
        if exists|i: int| 0 <= i < front.len() && (#[trigger] front[i]).1 == s {
            let i = choose|i: int| 0 <= i < front.len() && (#[trigger] front[i]).1 == s;
            assert(listing[i].1 == s);
        }
        if t == s {
            assert(listing[listing.len() - 1].1 == s);
        }
        if exists|i: int| 0 <= i < listing.len() && (#[trigger] listing[i]).1 == s {
            let i = choose|i: int| 0 <= i < listing.len() && (#[trigger] listing[i]).1 == s;
            if i < front.len() {
                assert(front[i].1 == s);
            }
        }
    }
}

} // verus!
