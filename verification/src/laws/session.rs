//! Laws of the record of a session, its states and its events.

use vstd::prelude::*;
use vstd::utf8::{decode_utf8, valid_utf8};

use crate::history::CircularBuffer;
use crate::laws::history::law_last_n;
use crate::session::{output_events, EventView, Session, SessionEvent, SessionState};
use crate::utf8::lossy_text;

verus! {

/// The transitions of a session's life are these eight and no others.
pub proof fn law_transitions(from: SessionState, to: SessionState, res: bool)
    requires
        call_ensures(SessionState::can_transition_to, (&from, &to), res),
    ensures
        res <==> {
            ||| from is Creating && to is Running
            ||| from is Creating && to is Error
            ||| from is Running && to is Closing
            ||| from is Running && to is Exited
            ||| from is Running && to is Error
            ||| from is Closing && to is Closed
            ||| from is Closing && to is Error
            ||| from is Exited && to is Closed
        },
{
}

/// Input and resizing are allowed exactly while the session is running, and
/// attaching also after its shell has exited.
pub proof fn law_what_states_allow(
    state: SessionState,
    input: bool,
    resize: bool,
    attach: bool,
    session: &Session,
    session_input: bool,
    session_resize: bool,
)
    requires
        call_ensures(SessionState::allows_input, (&state,), input),
        call_ensures(SessionState::allows_resize, (&state,), resize),
        call_ensures(SessionState::allows_attach, (&state,), attach),
        session.state == state,
        call_ensures(Session::allows_input, (session,), session_input),
        call_ensures(Session::allows_resize, (session,), session_resize),
    ensures
        input == (state == SessionState::Running),
        resize == (state == SessionState::Running),
        attach == (state == SessionState::Running || state == SessionState::Exited),
        session_input == input,
        session_resize == resize,
{
}

/// Each state has its own name, in lower case for display.
pub proof fn law_state_names(state: SessionState, display: &'static str, variant: &'static str)
    requires
        call_ensures(SessionState::display_name, (&state,), display),
        call_ensures(SessionState::variant_name, (&state,), variant),
    ensures
        state is Creating ==> display@ == "creating"@ && variant@ == "Creating"@,
        state is Running ==> display@ == "running"@ && variant@ == "Running"@,
        state is Closing ==> display@ == "closing"@ && variant@ == "Closing"@,
        state is Closed ==> display@ == "closed"@ && variant@ == "Closed"@,
        state is Exited ==> display@ == "exited"@ && variant@ == "Exited"@,
        state is Error ==> display@ == "error"@ && variant@ == "Error"@,
{
}

/// A session is taken to the new state exactly if that transition exists, and
/// nothing else of it changes. If not, nothing changes at all, and the message names
/// the two states.
pub proof fn law_transition_to(
    session: &mut Session,
    to: SessionState,
    exists_already: bool,
    from_name: &'static str,
    to_name: &'static str,
    res: Result<(), String>,
)
    requires
        call_ensures(Session::transition_to, (session, to), res),
        call_ensures(SessionState::can_transition_to, (&old(session).state, &to), exists_already),
        call_ensures(SessionState::variant_name, (&old(session).state,), from_name),
        call_ensures(SessionState::variant_name, (&to,), to_name),
    ensures
        res is Ok <==> exists_already,
        res is Ok ==> final(session).state == to,
        res is Err ==> final(session).state == old(session).state,
        res matches Err(m) ==> m@ == "Invalid state transition from "@ + from_name@ + " to "@
            + to_name@,
        is_same_but_for_state(*final(session), *old(session)),
{
}

/// Whether two records differ in nothing but the state and the exit code.
pub open spec fn is_same_but_for_end(a: Session, b: Session) -> bool {
    &&& a.id == b.id
    &&& a.name == b.name
    &&& a.shell_cmd == b.shell_cmd
    &&& a.cwd == b.cwd
    &&& a.history == b.history
    &&& a.pty_fd == b.pty_fd
    &&& a.foreground_process == b.foreground_process
    &&& a.last_output_at == b.last_output_at
    &&& a.last_bell_at == b.last_bell_at
    &&& a.child_pid == b.child_pid
    &&& a.silence_notified == b.silence_notified
    &&& a.silence_threshold_secs == b.silence_threshold_secs
}

/// Whether two records differ in nothing but the state.
pub open spec fn is_same_but_for_state(a: Session, b: Session) -> bool {
    is_same_but_for_end(a, b) && a.exit_code == b.exit_code
}

/// When the shell exits, a running session is exited, and one in another state stays
/// in it. The exit code is recorded, and nothing else changes.
pub proof fn law_record_exit(session: &mut Session, code: Option<i32>, res: ())
    requires
        call_ensures(Session::record_exit, (session, code), res),
    ensures
        old(session).state is Running ==> final(session).state is Exited,
        !(old(session).state is Running) ==> final(session).state == old(session).state,
        final(session).exit_code == code,
        is_same_but_for_end(*final(session), *old(session)),
{
}

/// A session is created if its writer could be taken: running, with what it was
/// given, and nothing has happened in it yet. If not, the message says why.
pub proof fn law_new_session(
    id: String,
    name: String,
    shell_cmd: String,
    cwd: String,
    pty_fd: Option<i32>,
    writer: Result<(), String>,
    history: CircularBuffer,
    res: Result<Session, String>,
)
    requires
        call_ensures(Session::new, (id, name, shell_cmd, cwd, pty_fd, writer, history), res),
    ensures
        res is Ok <==> writer is Ok,
        res matches Ok(s) ==> {
            &&& s.id == id && s.name == name && s.shell_cmd == shell_cmd && s.cwd == cwd
            &&& s.pty_fd == pty_fd && s.history == history
            &&& s.state == SessionState::Running
            &&& s.foreground_process is None && s.child_pid is None && s.exit_code is None
            &&& s.last_output_at is None && s.last_bell_at is None
            &&& !s.silence_notified && s.silence_threshold_secs == 30
        },
        res matches Err(m) ==> m@ == "Failed to take writer from PTY master: "@ + writer->Err_0@,
{
}

/// An event and its view are of one kind and say the same.
pub proof fn law_event_view(e: SessionEvent)
    ensures
        match e {
            SessionEvent::Output(text) => e@ == EventView::Output(text@),
            SessionEvent::Closed => e@ == EventView::Closed,
            SessionEvent::Exited(code) => e@ == EventView::Exited(code),
            SessionEvent::Bell => e@ == EventView::Bell,
            SessionEvent::Activity => e@ == EventView::Activity,
            SessionEvent::Silence => e@ == EventView::Silence,
            SessionEvent::ForegroundChanged(Some(name)) => e@ == EventView::ForegroundChanged(
                Some(name@),
            ),
            SessionEvent::ForegroundChanged(None) => e@ == EventView::ForegroundChanged(None),
            SessionEvent::CwdChanged(cwd) => e@ == EventView::CwdChanged(cwd@),
        },
{
}

/// Whether `events` announce the output `bytes`: nothing for no bytes; otherwise
/// activity first, if and only if silence had been announced; then a bell, if and only
/// if one is among the bytes; then the text of the bytes; and nothing else.
pub open spec fn announces(events: Seq<SessionEvent>, bytes: Seq<u8>, was_silent: bool) -> bool {
    let rings = exists|i: int| 0 <= i < bytes.len() && #[trigger] bytes[i] == 0x07;
    let a: int = if was_silent {
        1
    } else {
        0
    };
    let b: int = if rings {
        1
    } else {
        0
    };
    if bytes.len() == 0 {
        events.len() == 0
    } else {
        &&& events.len() == a + b + 1
        &&& was_silent ==> events[0] is Activity
        &&& rings ==> events[a] is Bell
        &&& events[a + b] matches SessionEvent::Output(text) && {
            &&& text@ == lossy_text(bytes)
            &&& valid_utf8(bytes) ==> text@ == decode_utf8(bytes)
        }
    }
}

/// The events of output are activity after silence, a bell where there is one, and
/// the text, in this order.
pub proof fn law_output_events(bytes: &[u8], was_silent: bool, res: Vec<SessionEvent>)
    requires
        call_ensures(output_events, (bytes, was_silent), res),
    ensures
        announces(res@, bytes@, was_silent),
        bytes@.len() > 0 ==> {
            &&& (exists|i: int| 0 <= i < res@.len() && (#[trigger] res@[i]) is Activity)
                <==> was_silent
            &&& (exists|i: int| 0 <= i < res@.len() && (#[trigger] res@[i]) is Bell)
                <==> exists|i: int| 0 <= i < bytes@.len() && #[trigger] bytes@[i] == 0x07
        },
{
    lemma_announces(res@, bytes@, was_silent);
}

pub(crate) proof fn lemma_announces(events: Seq<SessionEvent>, bytes: Seq<u8>, was_silent: bool)
    requires
        crate::session::event_views(events) == crate::session::output_event_views(
            bytes,
            was_silent,
        ),
        crate::session::ends_in_text_of(crate::session::event_views(events), bytes),
    ensures
        announces(events, bytes, was_silent),
        bytes.len() > 0 ==> {
            &&& (exists|i: int| 0 <= i < events.len() && (#[trigger] events[i]) is Activity)
                <==> was_silent
            &&& (exists|i: int| 0 <= i < events.len() && (#[trigger] events[i]) is Bell)
                <==> exists|i: int| 0 <= i < bytes.len() && #[trigger] bytes[i] == 0x07
        },
{
    let seen = crate::session::event_views(events);
    assert(seen.len() == events.len());
    assert forall|i: int| 0 <= i < events.len() implies #[trigger] seen[i] == events[i]@ by {}
    let rings = exists|i: int| 0 <= i < bytes.len() && #[trigger] bytes[i] == 0x07;
    assert(rings == bytes.contains(0x07u8)) by {
        if bytes.contains(0x07u8) {
            let i = choose|i: int| 0 <= i < bytes.len() && bytes[i] == 0x07u8;
            assert(bytes[i] == 0x07);
        }
    }
    if bytes.len() > 0 {
        let a: int = if was_silent { 1 } else { 0 };
        let b: int = if rings { 1 } else { 0 };
        assert(seen.len() == a + b + 1);
        law_event_view(events[a + b]);
        assert(seen[a + b] == events[a + b]@);
        if was_silent {
            law_event_view(events[0]);
            assert(seen[0] == events[0]@);
        }
        if rings {
            law_event_view(events[a]);
            assert(seen[a] == events[a]@);
        }
        assert forall|i: int| 0 <= i < events.len() implies {
            &&& (#[trigger] events[i]) is Activity <==> was_silent && i == 0
            &&& events[i] is Bell <==> rings && i == a
        } by {
            law_event_view(events[i]);
            assert(seen[i] == events[i]@);
        }
    }
}

/// Whether `after` is the record `before` after the output `bytes` at the time `now`:
/// the history goes on with the bytes, as far as its capacity allows; the times of the
/// last output and, if one of the bytes is a bell, of the last bell are `now`; silence
/// is not announced any more; and nothing else changes. No bytes change nothing.
pub open spec fn has_recorded(before: Session, bytes: Seq<u8>, now: u64, after: Session) -> bool {
    let rings = exists|i: int| 0 <= i < bytes.len() && #[trigger] bytes[i] == 0x07;
    if bytes.len() == 0 {
        after == before
    } else {
        let all = before.history@ + bytes;
        let held = after.history@;
        let capacity = before.history.spec_capacity();
        &&& after.history.spec_capacity() == capacity
        &&& held.len() == if all.len() < capacity {
            all.len()
        } else {
            capacity
        }
        &&& forall|i: int|
            0 <= i < held.len() ==> #[trigger] held[i] == all[all.len() - held.len() + i]
        &&& after.last_output_at == Some(now)
        &&& rings ==> after.last_bell_at == Some(now)
        &&& !rings ==> after.last_bell_at == before.last_bell_at
        &&& !after.silence_notified
        &&& after.id == before.id && after.name == before.name
        &&& after.shell_cmd == before.shell_cmd && after.cwd == before.cwd
        &&& after.state == before.state && after.exit_code == before.exit_code
        &&& after.pty_fd == before.pty_fd && after.child_pid == before.child_pid
        &&& after.foreground_process == before.foreground_process
        &&& after.silence_threshold_secs == before.silence_threshold_secs
    }
}

pub(crate) proof fn lemma_has_recorded(
    before: Session,
    bytes: Seq<u8>,
    now: u64,
    after: Session,
)
    requires
        before.after_output(bytes, now, after),
    ensures
        has_recorded(before, bytes, now, after),
{
    let rings = exists|i: int| 0 <= i < bytes.len() && #[trigger] bytes[i] == 0x07;
    assert(rings == bytes.contains(0x07u8)) by {
        if bytes.contains(0x07u8) {
            let i = choose|i: int| 0 <= i < bytes.len() && bytes[i] == 0x07u8;
            assert(bytes[i] == 0x07);
        }
    }
    law_last_n(before.history@ + bytes, before.history.spec_capacity());
}

/// Output is announced and recorded.
pub proof fn law_record_output(
    session: &mut Session,
    bytes: &[u8],
    now: u64,
    res: Vec<SessionEvent>,
)
    requires
        old(session).wf(),
        call_ensures(Session::record_output, (session, bytes, now), res),
    ensures
        announces(res@, bytes@, old(session).silence_notified),
        has_recorded(*old(session), bytes@, now, *final(session)),
        bytes@.len() > 0 ==> {
            &&& (exists|i: int| 0 <= i < res@.len() && (#[trigger] res@[i]) is Activity)
                <==> old(session).silence_notified
            &&& (exists|i: int| 0 <= i < res@.len() && (#[trigger] res@[i]) is Bell)
                <==> exists|i: int| 0 <= i < bytes@.len() && #[trigger] bytes@[i] == 0x07
        },
{
    lemma_announces(res@, bytes@, old(session).silence_notified);
    lemma_has_recorded(*old(session), bytes@, now, *final(session));
}

} // verus!
