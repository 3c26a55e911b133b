//! Laws of the loopback terminal and of the stand-in child.

use vstd::prelude::*;

use crate::pty::{MockChild, MockMasterPty, MockPtyProvider, MockRead, PtySize, WaitStep};

verus! {

/// A size in cells has the rows and columns that were given, and no pixels.
pub proof fn law_cells(rows: u16, cols: u16, res: PtySize)
    requires
        call_ensures(PtySize::cells, (rows, cols), res),
    ensures
        res.rows == rows,
        res.cols == cols,
        res.pixel_width == 0,
        res.pixel_height == 0,
{
}

/// A terminal has 24 rows and 80 columns at first, nothing in it, and one writer,
/// however it was made.
pub proof fn law_new_terminal(
    provider: &MockPtyProvider,
    cols: u16,
    rows: u16,
    made: MockMasterPty,
    provided: MockMasterPty,
    size: PtySize,
)
    requires
        call_ensures(MockMasterPty::new, (), made),
        call_ensures(MockPtyProvider::create_pty, (provider, cols, rows), provided),
        call_ensures(MockMasterPty::get_size, (&made,), size),
    ensures
        made.pending().len() == 0,
        provided.pending().len() == 0,
        made.senders() == 1,
        provided.senders() == 1,
        size.rows == 24 && size.cols == 80 && size.pixel_width == 0 && size.pixel_height == 0,
        provided.spec_size() == size,
{
}

/// The size is the one that was set last.
pub proof fn law_resize(pty: &mut MockMasterPty, size: PtySize, res: (), after: PtySize)
    requires
        call_ensures(MockMasterPty::resize, (pty, size), res),
        call_ensures(MockMasterPty::get_size, (&*final(pty),), after),
    ensures
        after == size,
        final(pty).pending() == old(pty).pending(),
        final(pty).senders() == old(pty).senders(),
{
}

/// Every byte that is written waits behind those that wait already, in order.
pub proof fn law_write(pty: &mut MockMasterPty, buf: &[u8], res: usize)
    requires
        call_ensures(MockMasterPty::write, (pty, buf), res),
    ensures
        res == buf@.len(),
        final(pty).pending() == old(pty).pending() + buf@,
        final(pty).senders() == old(pty).senders(),
        final(pty).spec_size() == old(pty).spec_size(),
{
}

/// Writers come and go one at a time, and nothing else changes with them.
pub proof fn law_writers_come_and_go(pty: &mut MockMasterPty, other: &mut MockMasterPty, res: ())
    requires
        call_ensures(MockMasterPty::add_sender, (pty,), res),
        call_ensures(MockMasterPty::drop_sender, (other,), res),
    ensures
        final(pty).senders() == old(pty).senders() + 1,
        final(other).senders() == old(other).senders() - 1,
        final(pty).pending() == old(pty).pending(),
        final(other).pending() == old(other).pending(),
        final(pty).spec_size() == old(pty).spec_size(),
        final(other).spec_size() == old(other).spec_size(),
{
}

/// A read gives the bytes that wait, the first ones first, as many as it asks for if
/// there are so many, and leaves the others. It waits if there are none but a writer
/// is left, and ends if none is.
pub proof fn law_try_read(pty: &mut MockMasterPty, max: usize, res: MockRead)
    requires
        call_ensures(MockMasterPty::try_read, (pty, max), res),
    ensures
        final(pty).senders() == old(pty).senders(),
        final(pty).spec_size() == old(pty).spec_size(),
        max > 0 && old(pty).pending().len() > 0 ==> {
            &&& res matches MockRead::Data(bytes)
            &&& bytes@ + final(pty).pending() == old(pty).pending()
            &&& bytes@.len() == if max < old(pty).pending().len() {
                max as nat
            } else {
                old(pty).pending().len()
            }
        },
        max > 0 && old(pty).pending().len() == 0 ==> {
            &&& old(pty).senders() > 0 ==> res is Empty
            &&& old(pty).senders() == 0 ==> res is Eof
            &&& final(pty).pending().len() == 0
        },
        max == 0 ==> res is Eof && final(pty).pending() == old(pty).pending(),
{
    if let MockRead::Data(bytes) = res {
        assert(bytes@ + final(pty).pending() =~= old(pty).pending());
    }
}

/// What is written to an empty terminal is what the next read gives, if it asks for
/// enough.
pub proof fn law_written_is_read(
    pty: &mut MockMasterPty,
    buf: &[u8],
    written: usize,
    then: &mut MockMasterPty,
    max: usize,
    res: MockRead,
)
    requires
        call_ensures(MockMasterPty::write, (pty, buf), written),
        old(pty).pending().len() == 0,
        *old(then) == *final(pty),
        call_ensures(MockMasterPty::try_read, (then, max), res),
        0 < buf@.len() <= max,
    ensures
        res matches MockRead::Data(bytes) && bytes@ == buf@,
        final(then).pending().len() == 0,
{
    assert(old(pty).pending() + buf@ =~= buf@);
    law_try_read(then, max, res);
    if let MockRead::Data(bytes) = res {
        assert(final(then).pending().len() == 0);
        assert(bytes@ + final(then).pending() =~= bytes@);
    }
}

/// A stand-in child is alive until it is killed, and whoever waits for it goes on
/// until then or until time runs out.
pub proof fn law_child(
    provider: &MockPtyProvider,
    made: MockChild,
    provided: MockChild,
    child: &mut MockChild,
    res: (),
    alive: MockChild,
    timed_out: bool,
    step_dead: WaitStep,
    step_alive: WaitStep,
    exited_dead: bool,
    exited_alive: bool,
    pid: Option<u32>,
)
    requires
        call_ensures(MockChild::new, (), made),
        call_ensures(MockPtyProvider::spawn_command, (provider,), provided),
        call_ensures(MockChild::kill, (child,), res),
        alive == made || alive == provided,
        call_ensures(MockChild::wait_step, (&*final(child), timed_out), step_dead),
        call_ensures(MockChild::wait_step, (&alive, timed_out), step_alive),
        call_ensures(MockChild::has_exited, (&*final(child),), exited_dead),
        call_ensures(MockChild::has_exited, (&alive,), exited_alive),
        call_ensures(MockChild::process_id, (&alive,), pid),
    ensures
        exited_dead,
        !exited_alive,
        step_dead == WaitStep::Done,
        step_alive == if timed_out {
            WaitStep::TimedOut
        } else {
            WaitStep::KeepWaiting
        },
        pid == Some(12345u32),
{
}

} // verus!
