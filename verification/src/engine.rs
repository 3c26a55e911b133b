//! Creating and running sessions: checks on what a client asks for, the command
//! that is launched, and what becomes of the output.

use vstd::prelude::*;
use vstd::string::*;

use crate::constants::{DEFAULT_HISTORY_CAPACITY, ENV_BLOCKLIST, SHELL_WHITELIST};
use crate::history::{last_n, CircularBuffer};
use crate::messages::SessionInfo;
use crate::pty::PtySize;
use crate::reader::{held_part, safe_part, PtyReader};
use crate::session::{
    ends_in_text_of, event_views, filed_by_id, output_event_views, output_events, sessions_wf,
    EventView, Session, SessionEvent, SessionMap, SessionState, SILENCE_THRESHOLD_SECS,
};
use crate::table::{entries_map, Table};
use crate::text::{
    concat3, contains_dot_dot, has_dot_dot, is_listed, list_contains, starts_with_char, str_eq,
};
use crate::views::{opt_bytes, opt_str, opt_string};

verus! {

/// Environment variables by name.
pub type EnvMap = Table<String>;

/// Whether `shell` is one of the shells that a session may be started with.
pub open spec fn is_allowed_shell(shell: Seq<char>) -> bool {
    is_listed(SHELL_WHITELIST@, shell)
}

/// The default shell: the one that `$SHELL` names if it is allowed, and `/bin/sh`
/// otherwise.
pub open spec fn default_shell(shell_var: Option<Seq<char>>) -> Seq<char> {
    match shell_var {
        Some(shell) if is_allowed_shell(shell) => shell,
        _ => "/bin/sh"@,
    }
}

/// The default shell. `shell_var` is the value of the environment variable
/// `SHELL`, if it is set.
pub fn get_default_shell(shell_var: Option<&str>) -> (res: String)
    ensures
        res@ == default_shell(opt_str(shell_var)),
{
    if let Some(shell) = shell_var {
        if list_contains(SHELL_WHITELIST.as_slice(), shell) {
            return shell.to_owned();
        }
    }
    "/bin/sh".to_owned()
}

/// The shell to start: the one asked for, or the default shell if none is.
pub fn resolve_shell(shell: &str, shell_var: Option<&str>) -> (res: String)
    ensures
        res@ == if shell@.len() == 0 {
            default_shell(opt_str(shell_var))
        } else {
            shell@
        },
{
    if shell.is_empty() {
        get_default_shell(shell_var)
    } else {
        shell.to_owned()
    }
}

/// The working directory to start in: the one asked for, or the home directory
/// if none is or if it is the root. `home` is the value of the environment
/// variable `HOME`; where it is not set, the root stands for it.
pub fn resolve_cwd(cwd: &str, home: Option<&str>) -> (res: String)
    ensures
        res@ == if cwd@.len() == 0 || cwd@ == "/"@ {
            match home {
                Some(dir) => dir@,
                None => "/"@,
            }
        } else {
            cwd@
        },
{
    if cwd.is_empty() || str_eq(cwd, "/") {
        match home {
            Some(dir) => dir.to_owned(),
            None => "/".to_owned(),
        }
    } else {
        cwd.to_owned()
    }
}

/// What there is to say against starting `shell`: that it holds a step to a
/// parent directory, that it is no absolute path, or that it is not allowed.
pub open spec fn shell_objection(shell: Seq<char>) -> Option<Seq<char>> {
    if has_dot_dot(shell) {
        Some("Shell path '"@ + shell + "' contains path traversal and is not allowed"@)
    } else if !(shell.len() > 0 && shell[0] == '/') {
        Some("Shell '"@ + shell + "' must be an absolute path"@)
    } else if !is_allowed_shell(shell) {
        Some("Shell '"@ + shell + "' is not in the allowed whitelist"@)
    } else {
        None
    }
}

/// Checks that a shell may be started. Gives a message if it may not.
pub fn validate_shell(shell: &str) -> (res: Option<String>)
    ensures
        opt_string(res) == shell_objection(shell@),
{
    if contains_dot_dot(shell) {
        return Some(
            concat3("Shell path '", shell, "' contains path traversal and is not allowed"),
        );
    }
    if !starts_with_char(shell, '/') {
        return Some(concat3("Shell '", shell, "' must be an absolute path"));
    }
    if !list_contains(SHELL_WHITELIST.as_slice(), shell) {
        return Some(concat3("Shell '", shell, "' is not in the allowed whitelist"));
    }
    None
}

/// What a path leads to.
#[derive(Debug, Clone, Copy, PartialEq, Eq, Structural)]
pub enum PathKind {
    /// Nothing is there.
    Missing,
    /// Something else than a directory is there.
    NotDirectory,
    /// A directory is there.
    Directory,
}

/// What there is to say against starting in `cwd`, which leads to `kind`.
pub open spec fn cwd_objection(cwd: Seq<char>, kind: PathKind) -> Option<Seq<char>> {
    if has_dot_dot(cwd) {
        Some("Working directory '"@ + cwd + "' contains path traversal and is not allowed"@)
    } else {
        match kind {
            PathKind::Missing => Some("Working directory '"@ + cwd + "' does not exist"@),
            PathKind::NotDirectory => Some("Working directory '"@ + cwd + "' is not a directory"@),
            PathKind::Directory => None,
        }
    }
}

/// Checks that a session may start in `cwd`, `kind` being what that path leads
/// to. Gives a message if it may not.
pub fn validate_cwd(cwd: &str, kind: PathKind) -> (res: Option<String>)
    ensures
        opt_string(res) == cwd_objection(cwd@, kind),
{
    if contains_dot_dot(cwd) {
        return Some(
            concat3("Working directory '", cwd, "' contains path traversal and is not allowed"),
        );
    }
    match kind {
        PathKind::Missing => Some(concat3("Working directory '", cwd, "' does not exist")),
        PathKind::NotDirectory => Some(concat3("Working directory '", cwd, "' is not a directory")),
        PathKind::Directory => None,
    }
}

/// A shell that passes the checks is allowed, absolute, and holds no step to a
/// parent directory; a directory that passes them is one, and holds no such step
/// either.
pub proof fn law_what_passes_the_checks(shell: Seq<char>, cwd: Seq<char>, kind: PathKind)
    ensures
        shell_objection(shell) is None <==> is_allowed_shell(shell) && !has_dot_dot(shell)
            && shell.len() > 0 && shell[0] == '/',
        cwd_objection(cwd, kind) is None <==> kind is Directory && !has_dot_dot(cwd),
{
}

/// Whether the variable `key` is withheld from a session's shell.
pub open spec fn is_blocked(key: Seq<char>) -> bool {
    is_listed(ENV_BLOCKLIST@, key)
}

/// The variables of `env` that are not withheld.
pub open spec fn allowed_env(env: Map<Seq<char>, String>) -> Map<Seq<char>, String> {
    env.filter_keys(|k: Seq<char>| !is_blocked(k))
}

/// Removes the variables that are withheld from a session's shell.
pub fn filter_env(env: &EnvMap) -> (res: EnvMap)
    requires
        env.wf(),
    ensures
        res.wf(),
        res@ == allowed_env(env@),
{
    proof {
        env.lemma_listing();
    }
    let mut res: EnvMap = Table::new();
    let n = env.len();
    let mut i: usize = 0;
    assert(env.listing().take(0) == Seq::<(String, String)>::empty());
    assert(allowed_env(entries_map(env.listing().take(0))) =~= Map::empty());
    while i < n
        invariant
            n == env.listing().len(),
            i <= n,
            res.wf(),
            res@ == allowed_env(entries_map(env.listing().take(i as int))),
        decreases n - i,
    {
        let entry = env.entry(i);
        let ghost seen = entries_map(env.listing().take(i as int));
        proof {
            let part = env.listing().take(i + 1);
            assert(part.drop_last() == env.listing().take(i as int));
            assert(entries_map(part) == seen.insert(entry.0@, entry.1));
        }
        if !list_contains(ENV_BLOCKLIST.as_slice(), entry.0.as_str()) {
            res.insert(entry.0.clone(), entry.1.clone());
            assert(allowed_env(seen).insert(entry.0@, entry.1) =~= allowed_env(
                seen.insert(entry.0@, entry.1),
            ));
        } else {
            assert(allowed_env(seen) =~= allowed_env(seen.insert(entry.0@, entry.1)));
        }
        i += 1;
    }
    assert(env.listing().take(n as int) == env.listing());
    res
}

/// The shell gets no withheld variable and every other one, and filtering twice
/// is filtering once.
pub proof fn law_filter_env(env: Map<Seq<char>, String>, key: Seq<char>)
    ensures
        allowed_env(env).contains_key(key) <==> env.contains_key(key) && !is_blocked(key),
        allowed_env(env).contains_key(key) ==> allowed_env(env)[key] == env[key],
        allowed_env(allowed_env(env)) == allowed_env(env),
{
    assert(allowed_env(allowed_env(env)) =~= allowed_env(env));
}

/// `val`, moved into the range that terminal dimensions have.
pub open spec fn clamped(val: int) -> int {
    if val < 1 {
        1
    } else if val > 500 {
        500
    } else {
        val
    }
}

/// Moves a terminal dimension into the valid range (1-500). `_name` says which
/// dimension it is, for those who report the correction.
pub fn clamp_dimension(val: u16, _name: &str) -> (res: u16)
    ensures
        res == clamped(val as int),
        1 <= res <= 500,
{
    if val < 1 {
        1
    } else if val > 500 {
        500
    } else {
        val
    }
}

/// What clients are told of the session `s`.
pub open spec fn info_describes(info: SessionInfo, s: Session) -> bool {
    &&& info.id@ == s.id@
    &&& info.name@ == s.name@
    &&& info.shell@ == s.shell_cmd@
    &&& info.cwd@ == s.cwd@
    &&& info.started_at@ == "now"@
    &&& opt_string(info.state) == Some(s.state.spec_display_name())
    &&& opt_string(info.foreground_process) == opt_string(s.foreground_process)
    &&& opt_string(info.last_activity_at) == match s.last_output_at {
        Some(_) => Some("now"@),
        None => None,
    }
    &&& info.exit_code == s.exit_code
}

/// What clients are told of a session.
fn session_info(s: &Session) -> (res: SessionInfo)
    ensures
        info_describes(res, *s),
{
    SessionInfo {
        id: s.id.clone(),
        name: s.name.clone(),
        shell: s.shell_cmd.clone(),
        cwd: s.cwd.clone(),
        started_at: "now".to_owned(),
        state: Some(s.state.display_name().to_owned()),
        foreground_process: match &s.foreground_process {
            Some(name) => Some(name.clone()),
            None => None,
        },
        last_activity_at: match s.last_output_at {
            Some(_) => Some("now".to_owned()),
            None => None,
        },
        exit_code: s.exit_code,
    }
}

/// What clients are told of all sessions: one entry for each, in the order in
/// which the map lists them.
pub fn build_session_list(sessions: &SessionMap) -> (res: Vec<SessionInfo>)
    requires
        sessions.wf(),
    ensures
        res@.len() == sessions.listing().len(),
        forall|i: int|
            0 <= i < res@.len() ==> info_describes(#[trigger] res@[i], sessions.listing()[i].1),
{
    let mut res: Vec<SessionInfo> = Vec::new();
    let n = sessions.len();
    let mut i: usize = 0;
    while i < n
        invariant
            n == sessions.listing().len(),
            i <= n,
            res@.len() == i,
            forall|j: int|
                0 <= j < i ==> info_describes(#[trigger] res@[j], sessions.listing()[j].1),
        decreases n - i,
    {
        res.push(session_info(&sessions.entry(i).1));
        i += 1;
    }
    res
}

/// A list of all sessions names each of them exactly once, provided that they are
/// filed by id.
pub proof fn law_session_list_is_complete(sessions: &SessionMap, list: Seq<SessionInfo>)
    requires
        sessions.wf(),
        filed_by_id(sessions@),
        list.len() == sessions.listing().len(),
        forall|i: int|
            0 <= i < list.len() ==> info_describes(#[trigger] list[i], sessions.listing()[i].1),
    ensures
        forall|i: int, j: int|
            0 <= i < j < list.len() ==> (#[trigger] list[i]).id@ != (#[trigger] list[j]).id@,
        forall|i: int|
            0 <= i < list.len() ==> sessions@.contains_key((#[trigger] list[i]).id@)
                && info_describes(list[i], sessions@[list[i].id@]),
        forall|id: Seq<char>| #[trigger]
            sessions@.contains_key(id) ==> exists|i: int|
                0 <= i < list.len() && (#[trigger] list[i]).id@ == id,
{
    sessions.lemma_listing();
    let listing = sessions.listing();
    assert forall|i: int| 0 <= i < list.len() implies (#[trigger] list[i]).id@ == listing[i].0@ by {
        assert(sessions@.contains_key(listing[i].0@));
    }
    assert forall|id: Seq<char>| #[trigger] sessions@.contains_key(id) implies exists|i: int|
        0 <= i < list.len() && (#[trigger] list[i]).id@ == id by {
        let i = choose|i: int| 0 <= i < listing.len() && (#[trigger] listing[i]).0@ == id;
        assert(list[i].id@ == id);
    }
}

/// The texts of the variables of `env`.
pub open spec fn env_texts(env: Map<Seq<char>, String>) -> Map<Seq<char>, Seq<char>> {
    env.map_values(|s: String| s@)
}

/// The variables that describe the terminal to the programs in it.
pub open spec fn terminal_env() -> Map<Seq<char>, Seq<char>> {
    Map::empty().insert("TERM"@, "xterm-256color"@).insert("COLORTERM"@, "truecolor"@)
}

/// How the shell of a session is launched.
#[derive(Debug)]
pub struct LaunchPlan {
    /// The program to run.
    pub program: String,
    /// The directory to run it in.
    pub cwd: String,
    /// The variables to set for it, beside those that it inherits.
    pub env: EnvMap,
    /// The dimensions of its terminal.
    pub size: PtySize,
}

/// How the shell of a session is launched: in a terminal of the given dimensions,
/// with the variables that describe the terminal, and with those asked for that
/// are not withheld. Where both name a variable, the latter count.
pub fn plan_launch(shell_cmd: &str, cwd: &str, cols: u16, rows: u16, env: &EnvMap) -> (res:
    LaunchPlan)
    requires
        env.wf(),
    ensures
        res.program@ == shell_cmd@,
        res.cwd@ == cwd@,
        res.size == PtySize::spec_cells(rows, cols),
        res.env.wf(),
        env_texts(res.env@) == terminal_env().union_prefer_right(env_texts(allowed_env(env@))),
{
    let safe_env = filter_env(env);
    let mut all: EnvMap = Table::new();
    all.insert("TERM".to_owned(), "xterm-256color".to_owned());
    all.insert("COLORTERM".to_owned(), "truecolor".to_owned());
    assert(env_texts(all@) =~= terminal_env());
    proof {
        safe_env.lemma_listing();
    }
    let n = safe_env.len();
    let mut i: usize = 0;
    assert(safe_env.listing().take(0) == Seq::<(String, String)>::empty());
    assert(terminal_env().union_prefer_right(env_texts(Map::empty())) =~= terminal_env());
    while i < n
        invariant
            n == safe_env.listing().len(),
            i <= n,
            all.wf(),
            env_texts(all@) == terminal_env().union_prefer_right(
                env_texts(entries_map(safe_env.listing().take(i as int))),
            ),
        decreases n - i,
    {
        let entry = safe_env.entry(i);
        let ghost seen = entries_map(safe_env.listing().take(i as int));
        let ghost before = all@;
        all.insert(entry.0.clone(), entry.1.clone());
        proof {
            let part = safe_env.listing().take(i + 1);
            assert(part.drop_last() == safe_env.listing().take(i as int));
            assert(entries_map(part) == seen.insert(entry.0@, entry.1));
            assert(env_texts(all@) =~= env_texts(before).insert(entry.0@, entry.1@));
            assert(env_texts(seen.insert(entry.0@, entry.1)) =~= env_texts(seen).insert(
                entry.0@,
                entry.1@,
            ));
            assert(env_texts(all@) =~= terminal_env().union_prefer_right(
                env_texts(entries_map(part)),
            ));
        }
        i += 1;
    }
    assert(safe_env.listing().take(n as int) == safe_env.listing());
    LaunchPlan {
        program: shell_cmd.to_owned(),
        cwd: cwd.to_owned(),
        env: all,
        size: PtySize::cells(rows, cols),
    }
}

proof fn lemma_terminal_env_is_allowed()
    ensures
        !is_blocked("TERM"@),
        !is_blocked("COLORTERM"@),
{
    reveal_strlit("TERM");
    reveal_strlit("COLORTERM");
    reveal_strlit("LD_PRELOAD");
    reveal_strlit("LD_LIBRARY_PATH");
    reveal_strlit("LD_AUDIT");
    reveal_strlit("DYLD_INSERT_LIBRARIES");
    reveal_strlit("DYLD_LIBRARY_PATH");
    reveal_strlit("DYLD_FRAMEWORK_PATH");
    reveal_strlit("BASH_ENV");
    reveal_strlit("ENV");
    reveal_strlit("PROMPT_COMMAND");
    reveal_strlit("IFS");
    assert forall|i: int| 0 <= i < ENV_BLOCKLIST@.len() implies {
        &&& (#[trigger] ENV_BLOCKLIST@[i])@ != "TERM"@
        &&& ENV_BLOCKLIST@[i]@ != "COLORTERM"@
    } by {
        let key = ENV_BLOCKLIST@[i]@;
        assert(key.len() != "TERM"@.len());
        assert(key.len() != "COLORTERM"@.len() || key[0] != "COLORTERM"@[0]);
    }
}

/// No variable that is withheld reaches the shell through the launch plan.
pub proof fn law_launch_env_is_filtered(env: Map<Seq<char>, String>, key: Seq<char>)
    requires
        is_blocked(key),
    ensures
        !terminal_env().union_prefer_right(env_texts(allowed_env(env))).contains_key(key),
{
    lemma_terminal_env_is_allowed();
}

/// Whether `c` is a lower-case hexadecimal digit.
pub open spec fn is_lower_hex(c: char) -> bool {
    '0' <= c <= '9' || 'a' <= c <= 'f'
}

/// Whether `s` is the usual notation of a random UUID: groups of 8, 4, 4, 4 and
/// 12 lower-case hexadecimal digits with hyphens between them, the third group
/// starting with the version number 4, the fourth with one of the digits of the
/// standard variant.
pub open spec fn is_random_uuid(s: Seq<char>) -> bool {
    &&& s.len() == 36
    &&& forall|i: int|
        0 <= i < 36 ==> if i == 8 || i == 13 || i == 18 || i == 23 {
            #[trigger] s[i] == '-'
        } else {
            is_lower_hex(s[i])
        }
    &&& s[14] == '4'
    &&& s[19] == '8' || s[19] == '9' || s[19] == 'a' || s[19] == 'b'
}

/// Calls `uuid::Uuid::new_v4` and writes its result out. The result is random;
/// it always has the form of a random UUID in hyphenated lower-case notation.
#[verifier::external_body]
fn new_uuid() -> (res: String)
    ensures
        is_random_uuid(res@),
{
    uuid::Uuid::new_v4().to_string()
}

/// Whether `id` is what a call of the source of random UUIDs gave.
pub closed spec fn is_new_id(id: Seq<char>) -> bool {
    exists|s: String| #[trigger] call_ensures(new_uuid, (), s) && s@ == id
}

/// The history that a new session has, given the scrollback `initial`.
pub open spec fn seeded_history(initial: Option<Seq<u8>>) -> Seq<u8> {
    match initial {
        Some(data) => last_n(data, DEFAULT_HISTORY_CAPACITY as nat),
        None => Seq::empty(),
    }
}

/// Whether `s` is the record of a session just created from these parts.
pub open spec fn is_created(
    s: Session,
    id: Seq<char>,
    name: Seq<char>,
    shell_cmd: Seq<char>,
    cwd: Seq<char>,
    pty_fd: Option<i32>,
    initial_history: Option<Seq<u8>>,
) -> bool {
    &&& s.wf()
    &&& s.is_fresh()
    &&& s.id@ == id
    &&& s.name@ == name
    &&& s.shell_cmd@ == shell_cmd
    &&& s.cwd@ == cwd
    &&& s.pty_fd == pty_fd
    &&& s.history.spec_capacity() == DEFAULT_HISTORY_CAPACITY
    &&& s.history@ == seeded_history(initial_history)
}

/// Enters a session that was launched into the map, under `id`. Scrollback that
/// is given becomes the start of its history.
pub fn register_session(
    id: &str,
    name: &str,
    shell_cmd: &str,
    cwd: &str,
    pty_fd: Option<i32>,
    sessions: &mut SessionMap,
    initial_history: Option<&[u8]>,
)
    requires
        sessions_wf(old(sessions)),
    ensures
        sessions_wf(final(sessions)),
        exists|s: Session| #[trigger]
            is_created(s, id@, name@, shell_cmd@, cwd@, pty_fd, opt_bytes(initial_history))
                && final(sessions)@ == old(sessions)@.insert(id@, s),
{
    let mut history = CircularBuffer::with_default_capacity();
    if let Some(data) = initial_history {
        history.push(data);
        assert(Seq::<u8>::empty() + data@ =~= data@);
    }
    let session = Session {
        id: id.to_owned(),
        name: name.to_owned(),
        shell_cmd: shell_cmd.to_owned(),
        cwd: cwd.to_owned(),
        state: SessionState::Running,
        history,
        pty_fd,
        foreground_process: None,
        last_output_at: None,
        last_bell_at: None,
        child_pid: None,
        exit_code: None,
        silence_notified: false,
        silence_threshold_secs: SILENCE_THRESHOLD_SECS,
    };
    assert(is_created(session, id@, name@, shell_cmd@, cwd@, pty_fd, opt_bytes(initial_history)));
    sessions.insert(id.to_owned(), session);
}

/// Creates a session, after its shell was launched as `plan_launch` says.
///
/// `launched` is the file descriptor of the PTY master, if it has one, or the
/// error that the launch failed with. A failed launch is passed on, and the map
/// stays as it is. Otherwise the session is entered into the map under
/// `session_id`, or under a new id if none is given, and its id is returned.
pub fn create_session(
    session_id: Option<&str>,
    name: &str,
    shell_cmd: &str,
    cwd: &str,
    launched: Result<Option<i32>, String>,
    sessions: &mut SessionMap,
    initial_history: Option<&[u8]>,
) -> (res: Result<String, String>)
    requires
        sessions_wf(old(sessions)),
    ensures
        sessions_wf(final(sessions)),
        match launched {
            Err(e) => res == Err::<String, String>(e) && *final(sessions) == *old(sessions),
            Ok(pty_fd) => {
                &&& res matches Ok(id)
                &&& match session_id {
                    Some(wanted) => id@ == wanted@,
                    None => is_new_id(id@) && is_random_uuid(id@),
                }
                &&& exists|s: Session| #[trigger]
                    is_created(s, id@, name@, shell_cmd@, cwd@, pty_fd, opt_bytes(initial_history))
                        && final(sessions)@ == old(sessions)@.insert(id@, s)
            },
        },
{
    match launched {
        Err(e) => Err(e),
        Ok(pty_fd) => {
            let id: String = match session_id {
                Some(wanted) => wanted.to_owned(),
                None => new_uuid(),
            };
            register_session(
                id.as_str(),
                name,
                shell_cmd,
                cwd,
                pty_fd,
                sessions,
                initial_history,
            );
            Ok(id)
        },
    }
}

/// Creating a session keeps every session filed under its own id.
pub proof fn law_created_sessions_are_filed_by_id(
    sessions: Map<Seq<char>, Session>,
    s: Session,
    id: Seq<char>,
    name: Seq<char>,
    shell_cmd: Seq<char>,
    cwd: Seq<char>,
    pty_fd: Option<i32>,
    initial_history: Option<Seq<u8>>,
)
    requires
        filed_by_id(sessions),
        is_created(s, id, name, shell_cmd, cwd, pty_fd, initial_history),
    ensures
        filed_by_id(sessions.insert(id, s)),
{
}

/// What one read of a session's PTY came to.
#[derive(Debug)]
pub enum PtyRead {
    /// Some bytes.
    Data(Vec<u8>),
    /// The end of the output: the shell exited.
    Eof,
    /// An error, which counts as the end of the output.
    Failed,
}

/// Takes in one read of the PTY of the session `id`. Gives the events to
/// broadcast, and whether reading goes on.
///
/// Complete output is recorded in the session, if it is in the map, and
/// broadcast. The end of the output is broadcast as the exit of the shell. While
/// the output of a session is read that was taken out of the map of all sessions,
/// `sessions` is the map that it was moved to.
pub fn handle_read(
    sessions: &mut SessionMap,
    id: &str,
    reader: &mut PtyReader,
    read: PtyRead,
    now: u64,
) -> (res: (Vec<SessionEvent>, bool))
    requires
        sessions_wf(old(sessions)),
        old(reader).wf(),
    ensures
        sessions_wf(final(sessions)),
        final(reader).wf(),
        match read {
            PtyRead::Data(chunk) => {
                let bytes = safe_part(old(reader)@ + chunk@);
                let known = old(sessions)@.contains_key(id@);
                &&& res.1
                &&& final(reader)@ == held_part(old(reader)@ + chunk@)
                &&& event_views(res.0@) == output_event_views(
                    bytes,
                    known && old(sessions)@[id@].silence_notified,
                )
                &&& ends_in_text_of(event_views(res.0@), bytes)
                &&& known ==> {
                    let next = final(sessions)@[id@];
                    &&& old(sessions)@[id@].after_output(bytes, now, next)
                    &&& final(sessions)@ == old(sessions)@.insert(id@, next)
                }
                &&& !known ==> final(sessions)@ == old(sessions)@
            },
            _ => {
                &&& !res.1
                &&& event_views(res.0@) == seq![EventView::Exited(None)]
                &&& *final(sessions) == *old(sessions)
                &&& *final(reader) == *old(reader)
            },
        },
{
    match read {
        PtyRead::Data(chunk) => {
            let bytes = reader.accept(chunk.as_slice());
            let events = match sessions.get_mut(id) {
                Some(session) => session.record_output(bytes.as_slice(), now),
                None => output_events(bytes.as_slice(), false),
            };
            (events, true)
        },
        _ => {
            let mut events: Vec<SessionEvent> = Vec::new();
            events.push(SessionEvent::Exited(None));
            assert(event_views(events@) =~= seq![EventView::Exited(None)]);
            (events, false)
        },
    }
}

/// Takes in one event that was broadcast for the session `id`, on behalf of the
/// task that waits for the shell to exit. The exit is recorded in the session, if
/// it is still in the map; other events are passed over. Gives whether the task is
/// done.
pub fn handle_exit_event(sessions: &mut SessionMap, id: &str, event: &SessionEvent) -> (res: bool)
    requires
        sessions_wf(old(sessions)),
    ensures
        sessions_wf(final(sessions)),
        res == (*event is Exited),
        match *event {
            SessionEvent::Exited(code) if old(sessions)@.contains_key(id@) => final(sessions)@
                == old(sessions)@.insert(id@, old(sessions)@[id@].after_exit(code)),
            _ => *final(sessions) == *old(sessions),
        },
{
    match event {
        SessionEvent::Exited(code) => {
            let exit_code: Option<i32> = *code;
            match sessions.get_mut(id) {
                Some(session) => {
                    session.record_exit(exit_code);
                },
                None => {},
            }
            true
        },
        _ => false,
    }
}

} // verus!
