//! Laws of creating and running sessions.

use vstd::prelude::*;

use crate::constants::{ENV_BLOCKLIST, SHELL_WHITELIST};
use crate::engine::{
    build_session_list, clamp_dimension, create_session, filter_env, get_default_shell,
    handle_exit_event, handle_read, is_random_uuid, plan_launch, register_session, resolve_cwd,
    resolve_shell, validate_cwd, validate_shell, EnvMap, LaunchPlan, PathKind, PtyRead,
};
use crate::laws::history::law_last_n;
use crate::laws::reader::law_output_is_divided_in_two;
use crate::laws::session::{
    announces, has_recorded, is_same_but_for_end, law_event_view, lemma_announces, lemma_has_recorded,
};
use crate::messages::SessionInfo;
use crate::reader::PtyReader;
use crate::session::{event_views, sessions_wf, Session, SessionEvent, SessionMap, SessionState};
use crate::utf8::find_utf8_safe_boundary;

verus! {

/// The shells that a session may be started with are these.
pub proof fn law_shell_whitelist(shell: Seq<char>)
    ensures
        (exists|i: int| 0 <= i < SHELL_WHITELIST@.len() && (#[trigger] SHELL_WHITELIST@[i])@ == shell)
            <==> {
            ||| shell == "/bin/sh"@
            ||| shell == "/bin/bash"@
            ||| shell == "/bin/zsh"@
            ||| shell == "/bin/fish"@
            ||| shell == "/usr/bin/sh"@
            ||| shell == "/usr/bin/bash"@
            ||| shell == "/usr/bin/zsh"@
            ||| shell == "/usr/bin/fish"@
            ||| shell == "/usr/local/bin/bash"@
            ||| shell == "/usr/local/bin/zsh"@
            ||| shell == "/usr/local/bin/fish"@
        },
{
    let list = SHELL_WHITELIST@;
    assert(list.len() == 11);
    assert(list[0]@ == "/bin/sh"@ && list[1]@ == "/bin/bash"@ && list[2]@ == "/bin/zsh"@);
    assert(list[3]@ == "/bin/fish"@ && list[4]@ == "/usr/bin/sh"@ && list[5]@ == "/usr/bin/bash"@);
    assert(list[6]@ == "/usr/bin/zsh"@ && list[7]@ == "/usr/bin/fish"@);
    assert(list[8]@ == "/usr/local/bin/bash"@ && list[9]@ == "/usr/local/bin/zsh"@);
    assert(list[10]@ == "/usr/local/bin/fish"@);
}

/// The variables that are withheld are these.
pub proof fn law_env_blocklist(key: Seq<char>)
    ensures
        (exists|i: int| 0 <= i < ENV_BLOCKLIST@.len() && (#[trigger] ENV_BLOCKLIST@[i])@ == key)
            <==> {
            ||| key == "LD_PRELOAD"@
            ||| key == "LD_LIBRARY_PATH"@
            ||| key == "LD_AUDIT"@
            ||| key == "DYLD_INSERT_LIBRARIES"@
            ||| key == "DYLD_LIBRARY_PATH"@
            ||| key == "DYLD_FRAMEWORK_PATH"@
            ||| key == "BASH_ENV"@
            ||| key == "ENV"@
            ||| key == "PROMPT_COMMAND"@
            ||| key == "IFS"@
        },
{
    let list = ENV_BLOCKLIST@;
    assert(list.len() == 10);
    assert(list[0]@ == "LD_PRELOAD"@ && list[1]@ == "LD_LIBRARY_PATH"@ && list[2]@ == "LD_AUDIT"@);
    assert(list[3]@ == "DYLD_INSERT_LIBRARIES"@ && list[4]@ == "DYLD_LIBRARY_PATH"@);
    assert(list[5]@ == "DYLD_FRAMEWORK_PATH"@ && list[6]@ == "BASH_ENV"@ && list[7]@ == "ENV"@);
    assert(list[8]@ == "PROMPT_COMMAND"@ && list[9]@ == "IFS"@);
}

/// A shell that is asked for is taken as it is. If none is, it is the one that the
/// environment names, if that is one of those listed, and `/bin/sh` in every other
/// case.
pub proof fn law_resolve_shell(
    shell: &str,
    shell_var: Option<&str>,
    default: String,
    res: String,
)
    requires
        call_ensures(get_default_shell, (shell_var,), default),
        call_ensures(resolve_shell, (shell, shell_var), res),
    ensures
        shell@.len() > 0 ==> res@ == shell@,
        shell@.len() == 0 ==> res@ == default@,
        match shell_var {
            Some(v) => {
                &&& (exists|i: int|
                    0 <= i < SHELL_WHITELIST@.len() && (#[trigger] SHELL_WHITELIST@[i])@ == v@)
                    ==> default@ == v@
                &&& (forall|i: int|
                    0 <= i < SHELL_WHITELIST@.len() ==> (#[trigger] SHELL_WHITELIST@[i])@ != v@)
                    ==> default@ == "/bin/sh"@
            },
            None => default@ == "/bin/sh"@,
        },
{
}

/// A directory that is asked for is taken as it is, the root excepted. Otherwise it
/// is the home directory, and the root if there is none.
pub proof fn law_resolve_cwd(cwd: &str, home: Option<&str>, res: String)
    requires
        call_ensures(resolve_cwd, (cwd, home), res),
    ensures
        cwd@.len() > 0 && cwd@ != "/"@ ==> res@ == cwd@,
        cwd@.len() == 0 || cwd@ == "/"@ ==> match home {
            Some(dir) => res@ == dir@,
            None => res@ == "/"@,
        },
{
}

/// A shell is accepted exactly if no two dots follow each other in its path, the path
/// begins with a slash, and it is one of those listed. The message says which of
/// these fails first.
pub proof fn law_validate_shell(shell: &str, res: Option<String>)
    requires
        call_ensures(validate_shell, (shell,), res),
    ensures
        ({
            let climbs = exists|i: int|
                0 <= i && i + 1 < shell@.len() && #[trigger] shell@[i] == '.' && shell@[i + 1]
                    == '.';
            let absolute = shell@.len() > 0 && shell@[0] == '/';
            let listed = exists|i: int|
                0 <= i < SHELL_WHITELIST@.len() && (#[trigger] SHELL_WHITELIST@[i])@ == shell@;
            &&& res is None <==> !climbs && absolute && listed
            &&& climbs ==> res->0@ == "Shell path '"@ + shell@
                + "' contains path traversal and is not allowed"@
            &&& !climbs && !absolute ==> res->0@ == "Shell '"@ + shell@
                + "' must be an absolute path"@
            &&& !climbs && absolute && !listed ==> res->0@ == "Shell '"@ + shell@
                + "' is not in the allowed whitelist"@
        }),
{
    lemma_climbs(shell@);
}

proof fn lemma_climbs(s: Seq<char>)
    ensures
        crate::text::has_dot_dot(s) <==> exists|i: int|
            0 <= i && i + 1 < s.len() && #[trigger] s[i] == '.' && s[i + 1] == '.',
{
    if exists|i: int| 0 <= i && i + 1 < s.len() && #[trigger] s[i] == '.' && s[i + 1] == '.' {
        let i = choose|i: int|
            0 <= i && i + 1 < s.len() && #[trigger] s[i] == '.' && s[i + 1] == '.';
        assert(s[i] == '.');
    }
}

/// A working directory is accepted exactly if no two dots follow each other in its
/// path and it leads to a directory. The message says which of these fails first.
pub proof fn law_validate_cwd(cwd: &str, kind: PathKind, res: Option<String>)
    requires
        call_ensures(validate_cwd, (cwd, kind), res),
    ensures
        ({
            let climbs = exists|i: int|
                0 <= i && i + 1 < cwd@.len() && #[trigger] cwd@[i] == '.' && cwd@[i + 1] == '.';
            &&& res is None <==> !climbs && kind is Directory
            &&& climbs ==> res->0@ == "Working directory '"@ + cwd@
                + "' contains path traversal and is not allowed"@
            &&& !climbs && kind is Missing ==> res->0@ == "Working directory '"@ + cwd@
                + "' does not exist"@
            &&& !climbs && kind is NotDirectory ==> res->0@ == "Working directory '"@ + cwd@
                + "' is not a directory"@
        }),
{
    lemma_climbs(cwd@);
}

/// The filtered environment has every variable whose name is none of those listed,
/// with the value that it had, and no other variable.
pub proof fn law_filtered_env(env: &EnvMap, res: EnvMap, key: Seq<char>)
    requires
        env.wf(),
        call_ensures(filter_env, (env,), res),
    ensures
        res.wf(),
        (forall|i: int| 0 <= i < ENV_BLOCKLIST@.len() ==> (#[trigger] ENV_BLOCKLIST@[i])@ != key)
            ==> (res@.contains_key(key) <==> env@.contains_key(key)),
        (exists|i: int| 0 <= i < ENV_BLOCKLIST@.len() && (#[trigger] ENV_BLOCKLIST@[i])@ == key)
            ==> !res@.contains_key(key),
        res@.contains_key(key) ==> res@[key] == env@[key],
{
}

/// A dimension from 1 to 500 is kept; a smaller one becomes 1 and a greater one 500.
pub proof fn law_clamp_dimension(val: u16, name: &str, res: u16)
    requires
        call_ensures(clamp_dimension, (val, name), res),
    ensures
        1 <= val <= 500 ==> res == val,
        val < 1 ==> res == 1,
        val > 500 ==> res == 500,
{
}

/// What clients are told of a session is what its record says, field by field.
pub proof fn law_session_list(
    sessions: &SessionMap,
    res: Vec<SessionInfo>,
    i: int,
    display: &'static str,
)
    requires
        sessions.wf(),
        call_ensures(build_session_list, (sessions,), res),
        0 <= i < sessions.listing().len(),
        call_ensures(SessionState::display_name, (&sessions.listing()[i].1.state,), display),
    ensures
        res@.len() == sessions@.len(),
        res@.len() == sessions.listing().len(),
        ({
            let info = res@[i];
            let s = sessions.listing()[i].1;
            &&& info.id@ == s.id@
            &&& info.name@ == s.name@
            &&& info.shell@ == s.shell_cmd@
            &&& info.cwd@ == s.cwd@
            &&& info.started_at@ == "now"@
            &&& info.state matches Some(state) && state@ == display@
            &&& info.foreground_process is Some <==> s.foreground_process is Some
            &&& s.foreground_process is Some ==> info.foreground_process->0@
                == s.foreground_process->0@
            &&& info.last_activity_at is Some <==> s.last_output_at is Some
            &&& s.last_output_at is Some ==> info.last_activity_at->0@ == "now"@
            &&& info.exit_code == s.exit_code
        }),
{
    sessions.lemma_listing();
    assert(crate::engine::info_describes(res@[i], sessions.listing()[i].1));
}

/// The shell is launched as it was asked for: the program, the directory, the size of
/// the terminal, and every variable that is not withheld, with its value. The terminal
/// is described to it unless that is asked for otherwise. There is no other variable.
pub proof fn law_plan_launch(
    shell_cmd: &str,
    cwd: &str,
    cols: u16,
    rows: u16,
    env: &EnvMap,
    res: LaunchPlan,
    key: Seq<char>,
)
    requires
        env.wf(),
        call_ensures(plan_launch, (shell_cmd, cwd, cols, rows, env), res),
    ensures
        res.program@ == shell_cmd@,
        res.cwd@ == cwd@,
        res.size.cols == cols,
        res.size.rows == rows,
        res.size.pixel_width == 0,
        res.size.pixel_height == 0,
        res.env.wf(),
        ({
            let withheld = exists|i: int|
                0 <= i < ENV_BLOCKLIST@.len() && (#[trigger] ENV_BLOCKLIST@[i])@ == key;
            let given = env@.contains_key(key) && !withheld;
            &&& res.env@.contains_key(key) <==> given || key == "TERM"@ || key == "COLORTERM"@
            &&& given ==> res.env@[key]@ == env@[key]@
            &&& !given && key == "TERM"@ ==> res.env@[key]@ == "xterm-256color"@
            &&& !given && key == "COLORTERM"@ ==> res.env@[key]@ == "truecolor"@
        }),
{
    let all = crate::engine::env_texts(res.env@);
    reveal_strlit("TERM");
    reveal_strlit("COLORTERM");
    assert("TERM"@.len() != "COLORTERM"@.len());
    assert(all.contains_key(key) == res.env@.contains_key(key));
    if res.env@.contains_key(key) {
        assert(all[key] == res.env@[key]@);
    }
}

/// The notation of a random UUID: 36 characters, hyphens at four places, lower-case
/// hexadecimal digits at the others, and at two of these the marks of such UUIDs.
pub proof fn law_random_uuid(s: Seq<char>, i: int)
    requires
        is_random_uuid(s),
        0 <= i < 36,
    ensures
        s.len() == 36,
        (i == 8 || i == 13 || i == 18 || i == 23) <==> s[i] == '-',
        s[i] == '-' || '0' <= s[i] <= '9' || 'a' <= s[i] <= 'f',
        s[14] == '4',
        s[19] == '8' || s[19] == '9' || s[19] == 'a' || s[19] == 'b',
{
    assert(s[i] == s[i]);
}

/// Whether `s` is the record of a session that was just created from these parts.
pub open spec fn is_just_created(
    s: Session,
    id: Seq<char>,
    name: Seq<char>,
    shell_cmd: Seq<char>,
    cwd: Seq<char>,
    pty_fd: Option<i32>,
    scrollback: Seq<u8>,
) -> bool {
    let held = s.history@;
    &&& s.id@ == id && s.name@ == name && s.shell_cmd@ == shell_cmd && s.cwd@ == cwd
    &&& s.pty_fd == pty_fd
    &&& s.state == SessionState::Running
    &&& s.foreground_process is None && s.child_pid is None && s.exit_code is None
    &&& s.last_output_at is None && s.last_bell_at is None
    &&& !s.silence_notified && s.silence_threshold_secs == 30
    &&& s.history.spec_capacity() == 10485760
    &&& held.len() == if scrollback.len() < 10485760 {
        scrollback.len()
    } else {
        10485760
    }
    &&& forall|i: int|
        0 <= i < held.len() ==> #[trigger] held[i] == scrollback[scrollback.len() - held.len() + i]
}

/// The scrollback that a session starts with, if any is given.
pub open spec fn scrollback_of(initial_history: Option<&[u8]>) -> Seq<u8> {
    match initial_history {
        Some(data) => data@,
        None => Seq::empty(),
    }
}

proof fn lemma_just_created(
    s: Session,
    id: Seq<char>,
    name: Seq<char>,
    shell_cmd: Seq<char>,
    cwd: Seq<char>,
    pty_fd: Option<i32>,
    initial_history: Option<&[u8]>,
)
    requires
        crate::engine::is_created(
            s,
            id,
            name,
            shell_cmd,
            cwd,
            pty_fd,
            crate::views::opt_bytes(initial_history),
        ),
    ensures
        is_just_created(s, id, name, shell_cmd, cwd, pty_fd, scrollback_of(initial_history)),
{
    law_last_n(scrollback_of(initial_history), 10485760);
}

/// A session that is registered is in the map under its id, as it was described, and
/// every other session is as it was.
pub proof fn law_register_session(
    id: &str,
    name: &str,
    shell_cmd: &str,
    cwd: &str,
    pty_fd: Option<i32>,
    sessions: &mut SessionMap,
    initial_history: Option<&[u8]>,
    res: (),
    other: Seq<char>,
)
    requires
        sessions_wf(old(sessions)),
        call_ensures(
            register_session,
            (id, name, shell_cmd, cwd, pty_fd, sessions, initial_history),
            res,
        ),
    ensures
        sessions_wf(final(sessions)),
        final(sessions)@.contains_key(id@),
        is_just_created(
            final(sessions)@[id@],
            id@,
            name@,
            shell_cmd@,
            cwd@,
            pty_fd,
            scrollback_of(initial_history),
        ),
        other != id@ ==> {
            &&& final(sessions)@.contains_key(other) <==> old(sessions)@.contains_key(other)
            &&& old(sessions)@.contains_key(other) ==> final(sessions)@[other]
                == old(sessions)@[other]
        },
{
    lemma_just_created(
        final(sessions)@[id@],
        id@,
        name@,
        shell_cmd@,
        cwd@,
        pty_fd,
        initial_history,
    );
}

/// A session is created if its shell was launched, under the id that was asked for or
/// else under a random one, and every other session stays as it was. If the launch
/// failed, its error is passed on, and the map stays as it was.
pub proof fn law_create_session(
    session_id: Option<&str>,
    name: &str,
    shell_cmd: &str,
    cwd: &str,
    launched: Result<Option<i32>, String>,
    sessions: &mut SessionMap,
    initial_history: Option<&[u8]>,
    res: Result<String, String>,
    other: Seq<char>,
)
    requires
        sessions_wf(old(sessions)),
        call_ensures(
            create_session,
            (session_id, name, shell_cmd, cwd, launched, sessions, initial_history),
            res,
        ),
    ensures
        sessions_wf(final(sessions)),
        res is Ok <==> launched is Ok,
        launched is Err ==> res->Err_0 == launched->Err_0 && *final(sessions) == *old(sessions),
        res matches Ok(id) ==> {
            &&& session_id is Some ==> id@ == session_id->0@
            &&& session_id is None ==> id@.len() == 36 && is_random_uuid(id@)
            &&& final(sessions)@.contains_key(id@)
            &&& is_just_created(
                final(sessions)@[id@],
                id@,
                name@,
                shell_cmd@,
                cwd@,
                launched->Ok_0,
                scrollback_of(initial_history),
            )
            &&& other != id@ ==> {
                &&& final(sessions)@.contains_key(other) <==> old(sessions)@.contains_key(other)
                &&& old(sessions)@.contains_key(other) ==> final(sessions)@[other]
                    == old(sessions)@[other]
            }
        },
{
    if let Ok(id) = res {
        lemma_just_created(
            final(sessions)@[id@],
            id@,
            name@,
            shell_cmd@,
            cwd@,
            launched->Ok_0,
            initial_history,
        );
    }
}

/// A read of output hands on what comes before the boundary of what was carried over
/// and read: it is announced, and recorded in the session. The rest is carried over,
/// and every other session stays as it was.
pub proof fn law_handle_output(
    sessions: &mut SessionMap,
    id: &str,
    reader: &mut PtyReader,
    read: PtyRead,
    chunk: Vec<u8>,
    now: u64,
    res: (Vec<SessionEvent>, bool),
    all: &[u8],
    boundary: usize,
    other: Seq<char>,
)
    requires
        sessions_wf(old(sessions)),
        old(reader).wf(),
        read == PtyRead::Data(chunk),
        call_ensures(handle_read, (sessions, id, reader, read, now), res),
        all@ == old(reader)@ + chunk@,
        call_ensures(find_utf8_safe_boundary, (all,), boundary),
    ensures
        res.1,
        boundary <= all@.len(),
        final(reader)@ == all@.skip(boundary as int),
        ({
            let bytes = all@.take(boundary as int);
            let known = old(sessions)@.contains_key(id@);
            let was_silent = known && old(sessions)@[id@].silence_notified;
            &&& announces(res.0@, bytes, was_silent)
            &&& bytes.len() > 0 ==> {
                &&& (exists|i: int| 0 <= i < res.0@.len() && (#[trigger] res.0@[i]) is Activity)
                    <==> was_silent
                &&& (exists|i: int| 0 <= i < res.0@.len() && (#[trigger] res.0@[i]) is Bell)
                    <==> exists|i: int| 0 <= i < bytes.len() && #[trigger] bytes[i] == 0x07
            }
            &&& final(sessions)@.contains_key(id@) <==> known
            &&& known ==> has_recorded(
                old(sessions)@[id@],
                bytes,
                now,
                final(sessions)@[id@],
            )
        }),
        other != id@ ==> {
            &&& final(sessions)@.contains_key(other) <==> old(sessions)@.contains_key(other)
            &&& old(sessions)@.contains_key(other) ==> final(sessions)@[other]
                == old(sessions)@[other]
        },
{
    law_output_is_divided_in_two(all@);
    let bytes = all@.take(boundary as int);
    let known = old(sessions)@.contains_key(id@);
    let was_silent = known && old(sessions)@[id@].silence_notified;
    assert(bytes == crate::reader::safe_part(old(reader)@ + chunk@));
    lemma_announces(res.0@, bytes, was_silent);
    if known {
        lemma_has_recorded(old(sessions)@[id@], bytes, now, final(sessions)@[id@]);
    }
}

/// The end of the output, and a failure to read it, is announced as the exit of the
/// shell, once, and reading ends. No session changes.
pub proof fn law_handle_end_of_output(
    sessions: &mut SessionMap,
    id: &str,
    reader: &mut PtyReader,
    read: PtyRead,
    now: u64,
    res: (Vec<SessionEvent>, bool),
)
    requires
        sessions_wf(old(sessions)),
        old(reader).wf(),
        !(read is Data),
        call_ensures(handle_read, (sessions, id, reader, read, now), res),
    ensures
        !res.1,
        res.0@.len() == 1,
        res.0@[0] == SessionEvent::Exited(None),
        *final(sessions) == *old(sessions),
        *final(reader) == *old(reader),
{
    assert(event_views(res.0@).len() == 1);
    assert(event_views(res.0@)[0] == res.0@[0]@);
    law_event_view(res.0@[0]);
}

/// Whoever waits for the shell to exit is done when the exit is announced, and not
/// before. The session then has the exit code, and is exited if it was running;
/// everything else stays as it was.
pub proof fn law_handle_exit_event(
    sessions: &mut SessionMap,
    id: &str,
    event: &SessionEvent,
    res: bool,
    other: Seq<char>,
)
    requires
        sessions_wf(old(sessions)),
        call_ensures(handle_exit_event, (sessions, id, event), res),
    ensures
        res == (*event is Exited),
        !res ==> *final(sessions) == *old(sessions),
        final(sessions)@.contains_key(id@) <==> old(sessions)@.contains_key(id@),
        res && old(sessions)@.contains_key(id@) ==> {
            let before = old(sessions)@[id@];
            let after = final(sessions)@[id@];
            &&& (*event matches SessionEvent::Exited(code) && after.exit_code == code)
            &&& before.state is Running ==> after.state is Exited
            &&& !(before.state is Running) ==> after.state == before.state
            &&& is_same_but_for_end(after, before)
        },
        other != id@ ==> {
            &&& final(sessions)@.contains_key(other) <==> old(sessions)@.contains_key(other)
            &&& old(sessions)@.contains_key(other) ==> final(sessions)@[other]
                == old(sessions)@[other]
        },
{
}

} // verus!
