//! A terminal session: its record, its states and its events.

use vstd::prelude::*;
use vstd::string::*;
use vstd::utf8::{decode_utf8, valid_utf8};

use crate::history::{last_n, CircularBuffer};
use crate::table::Table;
use crate::text::concat3;
use crate::utf8::{from_utf8_lossy, lossy_text};

verus! {

/// The state of a terminal session.
#[derive(Debug, Clone, Copy, PartialEq, Eq, Structural)]
pub enum SessionState {
    /// The PTY is being set up.
    Creating,
    /// The session is running and accepts input.
    Running,
    /// The session is being closed.
    Closing,
    /// The session has been closed.
    Closed,
    /// The shell has exited; the session can still be viewed.
    Exited,
    /// The session met an error.
    Error,
}

impl SessionState {
    /// The transitions of a session's life.
    pub open spec fn may_become(self, target: SessionState) -> bool {
        match self {
            SessionState::Creating => target is Running || target is Error,
            SessionState::Running => target is Closing || target is Exited || target is Error,
            SessionState::Closing => target is Closed || target is Error,
            SessionState::Exited => target is Closed,
            SessionState::Closed => false,
            SessionState::Error => false,
        }
    }

    /// The lower-case name of the state.
    pub open spec fn spec_display_name(self) -> Seq<char> {
        match self {
            SessionState::Creating => "creating"@,
            SessionState::Running => "running"@,
            SessionState::Closing => "closing"@,
            SessionState::Closed => "closed"@,
            SessionState::Exited => "exited"@,
            SessionState::Error => "error"@,
        }
    }

    /// The name of the state as it is written in the program.
    pub open spec fn spec_variant_name(self) -> Seq<char> {
        match self {
            SessionState::Creating => "Creating"@,
            SessionState::Running => "Running"@,
            SessionState::Closing => "Closing"@,
            SessionState::Closed => "Closed"@,
            SessionState::Exited => "Exited"@,
            SessionState::Error => "Error"@,
        }
    }

    /// Whether the session may go from this state to `target`.
    pub fn can_transition_to(&self, target: &SessionState) -> (res: bool)
        ensures
            res == self.may_become(*target),
    {
        if *self == *target {
            return false;
        }
        match (self, target) {
            (SessionState::Creating, SessionState::Running) => true,
            (SessionState::Creating, SessionState::Error) => true,
            (SessionState::Running, SessionState::Closing) => true,
            (SessionState::Running, SessionState::Exited) => true,
            (SessionState::Running, SessionState::Error) => true,
            (SessionState::Closing, SessionState::Closed) => true,
            (SessionState::Closing, SessionState::Error) => true,
            (SessionState::Exited, SessionState::Closed) => true,
            _ => false,
        }
    }

    /// Whether input may be sent to the session: only while it is running.
    pub fn allows_input(&self) -> (res: bool)
        ensures
            res == (*self is Running),
    {
        matches!(self, SessionState::Running)
    }

    /// Whether the session may be resized: only while it is running.
    pub fn allows_resize(&self) -> (res: bool)
        ensures
            res == (*self is Running),
    {
        matches!(self, SessionState::Running)
    }

    /// Whether the session may be attached to: while it is running, and to view
    /// it after the shell has exited.
    pub fn allows_attach(&self) -> (res: bool)
        ensures
            res == (*self is Running || *self is Exited),
    {
        matches!(self, SessionState::Running | SessionState::Exited)
    }

    /// The lower-case name of the state.
    pub fn display_name(&self) -> (res: &'static str)
        ensures
            res@ == self.spec_display_name(),
    {
        match self {
            SessionState::Creating => "creating",
            SessionState::Running => "running",
            SessionState::Closing => "closing",
            SessionState::Closed => "closed",
            SessionState::Exited => "exited",
            SessionState::Error => "error",
        }
    }

    /// The name of the state as it is written in the program.
    pub fn variant_name(&self) -> (res: &'static str)
        ensures
            res@ == self.spec_variant_name(),
    {
        match self {
            SessionState::Creating => "Creating",
            SessionState::Running => "Running",
            SessionState::Closing => "Closing",
            SessionState::Closed => "Closed",
            SessionState::Exited => "Exited",
            SessionState::Error => "Error",
        }
    }
}

/// What is broadcast to those who watch a session.
#[derive(Clone, Debug)]
pub enum SessionEvent {
    Output(String),
    Closed,
    /// The shell exited, with an exit code if it is known.
    Exited(Option<i32>),
    /// A bell character occurred in the output.
    Bell,
    /// First output after silence.
    Activity,
    /// No output for as long as the silence threshold.
    Silence,
    /// Another process is in the foreground.
    ForegroundChanged(Option<String>),
    /// The working directory changed.
    CwdChanged(String),
}

/// A session event, with texts in place of strings.
pub enum EventView {
    Output(Seq<char>),
    Closed,
    Exited(Option<i32>),
    Bell,
    Activity,
    Silence,
    ForegroundChanged(Option<Seq<char>>),
    CwdChanged(Seq<char>),
}

impl View for SessionEvent {
    type V = EventView;

    open spec fn view(&self) -> EventView {
        match self {
            SessionEvent::Output(data) => EventView::Output(data@),
            SessionEvent::Closed => EventView::Closed,
            SessionEvent::Exited(code) => EventView::Exited(*code),
            SessionEvent::Bell => EventView::Bell,
            SessionEvent::Activity => EventView::Activity,
            SessionEvent::Silence => EventView::Silence,
            SessionEvent::ForegroundChanged(Some(name)) => EventView::ForegroundChanged(
                Some(name@),
            ),
            SessionEvent::ForegroundChanged(None) => EventView::ForegroundChanged(None),
            SessionEvent::CwdChanged(cwd) => EventView::CwdChanged(cwd@),
        }
    }
}

/// The events of a list, with texts in place of strings.
pub open spec fn event_views(events: Seq<SessionEvent>) -> Seq<EventView> {
    events.map_values(|e: SessionEvent| e@)
}

/// The bell character.
pub const BELL: u8 = 0x07;

/// The events that complete output bytes give rise to, in order: news of
/// activity if the session had fallen silent, a bell if one occurs, and the
/// output itself. No bytes, no events.
pub open spec fn output_event_views(bytes: Seq<u8>, was_silent: bool) -> Seq<EventView> {
    if bytes.len() == 0 {
        Seq::empty()
    } else {
        (if was_silent {
            seq![EventView::Activity]
        } else {
            Seq::empty()
        }) + (if bytes.contains(BELL) {
            seq![EventView::Bell]
        } else {
            Seq::empty()
        }) + seq![EventView::Output(lossy_text(bytes))]
    }
}

/// Whether a bell character occurs in `bytes`.
fn has_bell(bytes: &[u8]) -> (res: bool)
    ensures
        res == bytes@.contains(BELL),
{
    let mut i: usize = 0;
    while i < bytes.len()
        invariant
            i <= bytes@.len(),
            forall|j: int| 0 <= j < i ==> bytes@[j] != BELL,
        decreases bytes.len() - i,
    {
        if bytes[i] == BELL {
            assert(bytes@[i as int] == BELL);
            return true;
        }
        i += 1;
    }
    false
}

/// Whether `events`, which the complete output `bytes` gave rise to, end in the
/// very text that the bytes encode, if they are the encoding of a text.
pub open spec fn ends_in_text_of(events: Seq<EventView>, bytes: Seq<u8>) -> bool {
    bytes.len() > 0 && valid_utf8(bytes) ==> events.last() == EventView::Output(decode_utf8(bytes))
}

/// The events that the complete output `bytes` give rise to; `was_silent` says
/// whether silence had been announced before. Output that is valid UTF-8 is
/// announced as the text that it encodes.
pub fn output_events(bytes: &[u8], was_silent: bool) -> (res: Vec<SessionEvent>)
    ensures
        event_views(res@) == output_event_views(bytes@, was_silent),
        ends_in_text_of(event_views(res@), bytes@),
{
    let mut res: Vec<SessionEvent> = Vec::new();
    if bytes.len() == 0 {
        assert(event_views(res@) =~= Seq::empty());
        return res;
    }
    if was_silent {
        res.push(SessionEvent::Activity);
    }
    if has_bell(bytes) {
        res.push(SessionEvent::Bell);
    }
    res.push(SessionEvent::Output(from_utf8_lossy(bytes)));
    assert(event_views(res@) =~= output_event_views(bytes@, was_silent));
    res
}

/// Seconds without output after which a session counts as silent.
pub const SILENCE_THRESHOLD_SECS: u64 = 30;

/// The record of a terminal session. Points in time are milliseconds on a clock
/// of the caller's choice.
#[derive(Debug)]
pub struct Session {
    pub id: String,
    pub name: String,
    pub shell_cmd: String,
    /// The working directory that the session was started in.
    pub cwd: String,
    pub state: SessionState,
    /// The terminal output so far.
    pub history: CircularBuffer,
    /// File descriptor of the PTY master, where there is one.
    pub pty_fd: Option<i32>,
    /// Name of the process in the foreground.
    pub foreground_process: Option<String>,
    /// When output was last seen.
    pub last_output_at: Option<u64>,
    /// When a bell character was last seen.
    pub last_bell_at: Option<u64>,
    /// Process id of the shell.
    pub child_pid: Option<u32>,
    /// Exit code of the shell.
    pub exit_code: Option<i32>,
    /// Whether the present silence has been announced.
    pub silence_notified: bool,
    pub silence_threshold_secs: u64,
}

/// All sessions, by id.
pub type SessionMap = Table<Session>;

/// Whether a map of sessions, and each session in it, is well formed.
pub open spec fn sessions_wf(sessions: &SessionMap) -> bool {
    &&& sessions.wf()
    &&& forall|k: Seq<char>| #[trigger] sessions@.contains_key(k) ==> sessions@[k].wf()
}

impl Session {
    /// What every session made by this module satisfies.
    pub open spec fn wf(&self) -> bool {
        self.history.wf()
    }

    /// Whether this is the record of a session that has just been started: it is
    /// running, and nothing has happened in it.
    pub open spec fn is_fresh(&self) -> bool {
        &&& self.state is Running
        &&& self.foreground_process is None
        &&& self.last_output_at is None
        &&& self.last_bell_at is None
        &&& self.child_pid is None
        &&& self.exit_code is None
        &&& !self.silence_notified
        &&& self.silence_threshold_secs == SILENCE_THRESHOLD_SECS
    }

    /// Creates the record of a running session. `writer` says whether the
    /// writer could be taken from the PTY master, or else with which error that
    /// failed; `pty_fd` is the master's file descriptor.
    pub fn new(
        id: String,
        name: String,
        shell_cmd: String,
        cwd: String,
        pty_fd: Option<i32>,
        writer: Result<(), String>,
        history: CircularBuffer,
    ) -> (res: Result<Session, String>)
        requires
            history.wf(),
        ensures
            match res {
                Ok(s) => {
                    &&& writer is Ok
                    &&& s.wf()
                    &&& s.is_fresh()
                    &&& s.id == id
                    &&& s.name == name
                    &&& s.shell_cmd == shell_cmd
                    &&& s.cwd == cwd
                    &&& s.pty_fd == pty_fd
                    &&& s.history == history
                },
                Err(message) => {
                    &&& writer is Err
                    &&& message@ == "Failed to take writer from PTY master: "@ + writer->Err_0@
                },
            },
    {
        match writer {
            Ok(()) => Ok(
                Session {
                    id,
                    name,
                    shell_cmd,
                    cwd,
                    state: SessionState::Running,
                    history,
                    pty_fd,
                    foreground_process: None,
                    last_output_at: None,
                    last_bell_at: None,
                    child_pid: None,
                    exit_code: None,
                    silence_notified: false,
                    silence_threshold_secs: SILENCE_THRESHOLD_SECS,
                },
            ),
            Err(e) => {
                let mut message: String = "Failed to take writer from PTY master: ".to_owned();
                message.append(e.as_str());
                Err(message)
            },
        }
    }

    /// Takes the session to `new_state` if that transition exists. Otherwise the
    /// session stays as it is, and a message says so.
    pub fn transition_to(&mut self, new_state: SessionState) -> (res: Result<(), String>)
        ensures
            match res {
                Ok(()) => {
                    &&& old(self).state.may_become(new_state)
                    &&& *final(self) == (Session { state: new_state, ..*old(self) })
                },
                Err(message) => {
                    &&& !old(self).state.may_become(new_state)
                    &&& *final(self) == *old(self)
                    &&& message@ == "Invalid state transition from "@
                        + old(self).state.spec_variant_name() + " to "@
                        + new_state.spec_variant_name()
                },
            },
    {
        if self.state.can_transition_to(&new_state) {
            self.state = new_state;
            Ok(())
        } else {
            let mut message: String = concat3(
                "Invalid state transition from ",
                self.state.variant_name(),
                " to ",
            );
            message.append(new_state.variant_name());
            Err(message)
        }
    }

    /// Whether `next` is this session after the complete output `bytes` at the
    /// time `now`. No bytes change nothing. Otherwise the history goes on with
    /// them, the times of the last output and, if there is a bell, of the last
    /// bell are `now`, and no silence is announced any more.
    pub open spec fn after_output(self, bytes: Seq<u8>, now: u64, next: Session) -> bool {
        if bytes.len() == 0 {
            next == self
        } else {
            &&& next == (Session {
                history: next.history,
                last_output_at: Some(now),
                last_bell_at: if bytes.contains(BELL) {
                    Some(now)
                } else {
                    self.last_bell_at
                },
                silence_notified: false,
                ..self
            })
            &&& next.history.wf()
            &&& next.history.spec_capacity() == self.history.spec_capacity()
            &&& next.history@ == last_n(self.history@ + bytes, self.history.spec_capacity())
        }
    }

    /// Records complete output of the session, and gives the events that it gives
    /// rise to.
    pub fn record_output(&mut self, bytes: &[u8], now: u64) -> (res: Vec<SessionEvent>)
        requires
            old(self).wf(),
        ensures
            final(self).wf(),
            old(self).after_output(bytes@, now, *final(self)),
            event_views(res@) == output_event_views(bytes@, old(self).silence_notified),
            ends_in_text_of(event_views(res@), bytes@),
    {
        let events = output_events(bytes, self.silence_notified);
        if bytes.len() > 0 {
            self.silence_notified = false;
            self.last_output_at = Some(now);
            if has_bell(bytes) {
                self.last_bell_at = Some(now);
            }
            self.history.push(bytes);
        }
        events
    }

    /// This session after its shell exited with `code`: it is exited, if it may
    /// become so, and has the exit code in any case.
    pub open spec fn after_exit(self, code: Option<i32>) -> Session {
        Session {
            state: if self.state.may_become(SessionState::Exited) {
                SessionState::Exited
            } else {
                self.state
            },
            exit_code: code,
            ..self
        }
    }

    /// Records that the shell exited.
    pub fn record_exit(&mut self, code: Option<i32>)
        ensures
            *final(self) == old(self).after_exit(code),
    {
        let _ = self.transition_to(SessionState::Exited);
        self.exit_code = code;
    }

    /// Whether input may be sent to the session.
    pub fn allows_input(&self) -> (res: bool)
        ensures
            res == (self.state is Running),
    {
        self.state.allows_input()
    }

    /// Whether the session may be resized.
    pub fn allows_resize(&self) -> (res: bool)
        ensures
            res == (self.state is Running),
    {
        self.state.allows_resize()
    }
}

/// A closed session, and one that met an error, stays as it is.
pub proof fn law_terminal_states(state: SessionState, target: SessionState)
    requires
        state is Closed || state is Error,
    ensures
        !state.may_become(target),
{
}

/// No session goes back to being created, and none goes to the state that it is
/// in already.
pub proof fn law_no_way_back_to_creating(state: SessionState)
    ensures
        !state.may_become(SessionState::Creating),
        !state.may_become(state),
{
}

/// How far a session in `state` has come.
pub open spec fn stage(state: SessionState) -> int {
    match state {
        SessionState::Creating => 0,
        SessionState::Running => 1,
        SessionState::Closing => 2,
        SessionState::Exited => 2,
        SessionState::Closed => 3,
        SessionState::Error => 3,
    }
}

/// Whether each state of `path` may become the next one.
pub open spec fn is_life(path: Seq<SessionState>) -> bool {
    forall|i: int| 0 <= i < path.len() - 1 ==> (#[trigger] path[i]).may_become(path[i + 1])
}

/// Every transition leads on: along the states of a session's life the stage
/// grows with each step, so no state comes twice, and there are at most three
/// transitions.
pub proof fn law_life_leads_on(path: Seq<SessionState>, i: int, j: int)
    requires
        is_life(path),
        0 <= i < j < path.len(),
    ensures
        stage(path[i]) + (j - i) <= stage(path[j]),
        path[i] != path[j],
        path.len() <= 4,
    decreases j - i,
{
    lemma_stage(path, i, j);
    lemma_stage(path, 0, path.len() - 1);
}

proof fn lemma_stage(path: Seq<SessionState>, i: int, j: int)
    requires
        is_life(path),
        0 <= i <= j < path.len(),
    ensures
        stage(path[i]) + (j - i) <= stage(path[j]),
    decreases j - i,
{
    if i < j {
        lemma_stage(path, i, j - 1);
        assert(path[j - 1].may_become(path[j - 1 + 1]));
    }
}

/// A session that accepted input and has left that state never accepts input
/// again: one that is closing is not resumed, and an exited shell is not
/// restarted.
pub proof fn law_no_input_after_running(path: Seq<SessionState>, i: int, j: int)
    requires
        is_life(path),
        0 <= i < j < path.len(),
        !(path[i] is Creating),
    ensures
        !(path[j] is Running),
{
    lemma_stage(path, i, j);
}

/// When the shell of a running session exits, the session accepts no input any
/// more but can still be attached to; a session in another state stays in it. In
/// each case the exit code is recorded, and nothing else changes.
pub proof fn law_exit(s: Session, code: Option<i32>)
    ensures
        s.state is Running ==> s.after_exit(code).state is Exited,
        !(s.state is Running) ==> s.after_exit(code).state == s.state,
        s.after_exit(code).exit_code == code,
        s.after_exit(code).history == s.history,
        s.after_exit(code).id == s.id,
{
}

/// Activity is announced once: after output, more output brings no such news
/// until silence has been announced again.
pub proof fn law_activity_is_announced_once(
    s: Session,
    bytes: Seq<u8>,
    now: u64,
    next: Session,
    more: Seq<u8>,
)
    requires
        bytes.len() > 0,
        s.after_output(bytes, now, next),
    ensures
        !output_event_views(more, next.silence_notified).contains(EventView::Activity),
{
}

/// Whether every session is filed under its own id.
pub open spec fn filed_by_id(sessions: Map<Seq<char>, Session>) -> bool {
    forall|k: Seq<char>| #[trigger] sessions.contains_key(k) ==> sessions[k].id@ == k
}

/// Output and the exit of the shell leave every session filed under its own id.
pub proof fn law_sessions_stay_filed_by_id(
    sessions: Map<Seq<char>, Session>,
    id: Seq<char>,
    bytes: Seq<u8>,
    now: u64,
    next: Session,
    code: Option<i32>,
)
    requires
        filed_by_id(sessions),
        sessions.contains_key(id),
        sessions[id].after_output(bytes, now, next),
    ensures
        filed_by_id(sessions.insert(id, next)),
        filed_by_id(sessions.insert(id, sessions[id].after_exit(code))),
{
}

} // verus!
