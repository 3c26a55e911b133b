//! Terminal dimensions, and the state behind a pseudo terminal that loops its
//! input back to its output.

use std::collections::VecDeque;
use vstd::prelude::*;

verus! {

/// Dimensions of a terminal, in cells and in pixels.
#[derive(Debug, Clone, Copy, PartialEq, Eq, Structural)]
pub struct PtySize {
    pub rows: u16,
    pub cols: u16,
    pub pixel_width: u16,
    pub pixel_height: u16,
}

impl PtySize {
    /// A terminal of `rows` lines and `cols` columns whose size in pixels is not
    /// known.
    pub open spec fn spec_cells(rows: u16, cols: u16) -> PtySize {
        PtySize { rows, cols, pixel_width: 0, pixel_height: 0 }
    }

    /// A terminal of `rows` lines and `cols` columns whose size in pixels is not
    /// known.
    pub fn cells(rows: u16, cols: u16) -> (res: PtySize)
        ensures
            res == Self::spec_cells(rows, cols),
    {
        PtySize { rows, cols, pixel_width: 0, pixel_height: 0 }
    }
}

impl Default for PtySize {
    fn default() -> (res: PtySize)
        ensures
            res == Self::spec_cells(24, 80),
    {
        PtySize::cells(24, 80)
    }
}

/// What one attempt to read from a loopback terminal comes to.
#[derive(Debug)]
pub enum MockRead {
    /// Some bytes, at least one.
    Data(Vec<u8>),
    /// Nothing was written yet; the reader tries again later.
    Empty,
    /// Nothing is left, and nobody can write any more.
    Eof,
}

/// The shared state of a loopback terminal: bytes that were written and not read
/// yet, the number of handles that can still write, and the dimensions.
#[derive(Debug)]
pub struct MockMasterPty {
    queue: VecDeque<u8>,
    senders: usize,
    size: PtySize,
}

impl MockMasterPty {
    /// The bytes that were written and not read yet, first written first.
    pub closed spec fn pending(&self) -> Seq<u8> {
        self.queue@
    }

    /// The number of handles that can write.
    pub closed spec fn senders(&self) -> nat {
        self.senders as nat
    }

    /// The dimensions that were set last.
    pub closed spec fn spec_size(&self) -> PtySize {
        self.size
    }

    /// Creates a loopback terminal of the default size that one handle, the
    /// master, can write to.
    pub fn new() -> (res: Self)
        ensures
            res.pending() == Seq::<u8>::empty(),
            res.senders() == 1,
            res.spec_size() == PtySize::spec_cells(24, 80),
    {
        MockMasterPty { queue: VecDeque::new(), senders: 1, size: PtySize::default() }
    }

    /// Sets the dimensions.
    pub fn resize(&mut self, size: PtySize)
        ensures
            final(self).spec_size() == size,
            final(self).pending() == old(self).pending(),
            final(self).senders() == old(self).senders(),
    {
        self.size = size;
    }

    /// The dimensions that were set last.
    pub fn get_size(&self) -> (res: PtySize)
        ensures
            res == self.spec_size(),
    {
        self.size
    }

    /// Counts one more handle that can write.
    pub fn add_sender(&mut self)
        requires
            old(self).senders() < usize::MAX,
        ensures
            final(self).senders() == old(self).senders() + 1,
            final(self).pending() == old(self).pending(),
            final(self).spec_size() == old(self).spec_size(),
    {
        self.senders = self.senders + 1;
    }

    /// Counts one handle less that can write.
    pub fn drop_sender(&mut self)
        requires
            old(self).senders() > 0,
        ensures
            final(self).senders() == old(self).senders() - 1,
            final(self).pending() == old(self).pending(),
            final(self).spec_size() == old(self).spec_size(),
    {
        self.senders = self.senders - 1;
    }

    /// Writes all of `buf`.
    pub fn write(&mut self, buf: &[u8]) -> (res: usize)
        ensures
            res == buf.len(),
            final(self).pending() == old(self).pending() + buf@,
            final(self).senders() == old(self).senders(),
            final(self).spec_size() == old(self).spec_size(),
    {
        let mut i: usize = 0;
        assert(old(self).pending() + buf@.take(0) == self.pending());
        while i < buf.len()
            invariant
                i <= buf@.len(),
                self.pending() == old(self).pending() + buf@.take(i as int),
                self.senders() == old(self).senders(),
                self.spec_size() == old(self).spec_size(),
            decreases buf.len() - i,
        {
            self.queue.push_back(buf[i]);
            assert(buf@.take(i + 1) == buf@.take(i as int).push(buf@[i as int]));
            i += 1;
        }
        assert(buf@.take(i as int) == buf@);
        buf.len()
    }

    /// Tries to read up to `max` bytes: as many as there are, first written
    /// first. A read of no bytes at all gives none, whatever there is.
    pub fn try_read(&mut self, max: usize) -> (res: MockRead)
        ensures
            final(self).senders() == old(self).senders(),
            final(self).spec_size() == old(self).spec_size(),
            match res {
                MockRead::Data(bytes) => {
                    let n: int = if max <= old(self).pending().len() {
                        max as int
                    } else {
                        old(self).pending().len() as int
                    };
                    &&& n > 0
                    &&& bytes@ == old(self).pending().take(n)
                    &&& final(self).pending() == old(self).pending().skip(n)
                },
                MockRead::Empty => {
                    &&& max > 0
                    &&& old(self).pending().len() == 0
                    &&& old(self).senders() > 0
                    &&& final(self).pending() == old(self).pending()
                },
                MockRead::Eof => {
                    &&& max == 0 || (old(self).pending().len() == 0 && old(self).senders() == 0)
                    &&& final(self).pending() == old(self).pending()
                },
            },
    {
        if max == 0 {
            return MockRead::Eof;
        }
        if self.queue.len() == 0 {
            if self.senders == 0 {
                return MockRead::Eof;
            }
            return MockRead::Empty;
        }
        let mut bytes: Vec<u8> = Vec::new();
        assert(bytes@ + self.pending() == old(self).pending());
        while bytes.len() < max && self.queue.len() > 0
            invariant
                bytes@.len() <= max,
                bytes@ + self.pending() == old(self).pending(),
                self.senders() == old(self).senders(),
                self.spec_size() == old(self).spec_size(),
            decreases self.queue.len(),
        {
            let ghost before = bytes@;
            let ghost left = self.pending();
            match self.queue.pop_front() {
                Some(b) => {
                    bytes.push(b);
                    assert(before + left == bytes@ + self.pending());
                },
                None => {},
            }
        }
        proof {
            let all = old(self).pending();
            assert(bytes@ =~= all.take(bytes@.len() as int));
            assert(self.pending() =~= all.skip(bytes@.len() as int));
        }
        MockRead::Data(bytes)
    }
}

impl Default for MockMasterPty {
    fn default() -> (res: MockMasterPty)
        ensures
            res.pending() == Seq::<u8>::empty(),
            res.senders() == 1,
            res.spec_size() == PtySize::spec_cells(24, 80),
    {
        MockMasterPty::new()
    }
}

/// How long a thread waits for a stand-in child at most, in seconds.
pub const WAIT_TIMEOUT_SECS: u64 = 30;

/// What is said when a thread has waited for a stand-in child in vain.
pub const WAIT_TIMEOUT_MESSAGE: &'static str =
    "MockChild::wait() timed out after 30s - ensure kill() is called";

/// What one wake-up of a thread that waits for a stand-in child comes to.
#[derive(Debug, Clone, Copy, PartialEq, Eq, Structural)]
pub enum WaitStep {
    /// The child has been killed.
    Done,
    /// Time ran out, and the child has not been killed.
    TimedOut,
    /// Neither: the thread goes on waiting.
    KeepWaiting,
}

/// The shared state of a stand-in child process, which ends only when it is
/// killed.
#[derive(Debug, Clone)]
pub struct MockChild {
    killed: bool,
}

impl MockChild {
    /// Whether the child has been killed.
    pub closed spec fn is_killed(&self) -> bool {
        self.killed
    }

    /// Creates a child that is alive.
    pub fn new() -> (res: Self)
        ensures
            !res.is_killed(),
    {
        MockChild { killed: false }
    }

    /// Kills the child.
    pub fn kill(&mut self)
        ensures
            final(self).is_killed(),
    {
        self.killed = true;
    }

    /// Whether the child has an exit status by now.
    pub fn has_exited(&self) -> (res: bool)
        ensures
            res == self.is_killed(),
    {
        self.killed
    }

    /// What a thread that waits for the child does next, `timed_out` saying
    /// whether it woke up because its time was over.
    pub fn wait_step(&self, timed_out: bool) -> (res: WaitStep)
        ensures
            res is Done <==> self.is_killed(),
            res is TimedOut <==> !self.is_killed() && timed_out,
    {
        if self.killed {
            WaitStep::Done
        } else if timed_out {
            WaitStep::TimedOut
        } else {
            WaitStep::KeepWaiting
        }
    }

    /// The process id that the child goes by.
    pub fn process_id(&self) -> (res: Option<u32>)
        ensures
            res == Some(12345u32),
    {
        Some(12345)
    }
}

/// Provides loopback terminals and stand-in children.
#[derive(Debug)]
pub struct MockPtyProvider;

impl MockPtyProvider {
    /// Creates a loopback terminal. Its size is the default size, whatever
    /// dimensions are asked for.
    pub fn create_pty(&self, _cols: u16, _rows: u16) -> (res: MockMasterPty)
        ensures
            res.pending() == Seq::<u8>::empty(),
            res.senders() == 1,
            res.spec_size() == PtySize::spec_cells(24, 80),
    {
        MockMasterPty::new()
    }

    /// Creates a child that is alive.
    pub fn spawn_command(&self) -> (res: MockChild)
        ensures
            !res.is_killed(),
    {
        MockChild::new()
    }
}

/// One use of a loopback terminal: a write, or a read of up to so many bytes.
pub enum PtyUse {
    Write(Seq<u8>),
    Read(nat),
}

/// The bytes read by `uses`, one after the other, of a loopback terminal that
/// was empty at first, and the bytes still pending then.
pub open spec fn after_uses(uses: Seq<PtyUse>) -> (Seq<u8>, Seq<u8>)
    decreases uses.len(),
{
    if uses.len() == 0 {
        (Seq::empty(), Seq::empty())
    } else {
        let (read, pending) = after_uses(uses.drop_last());
        match uses.last() {
            PtyUse::Write(bytes) => (read, pending + bytes),
            PtyUse::Read(max) => {
                let n: int = if max <= pending.len() {
                    max as int
                } else {
                    pending.len() as int
                };
                (read + pending.take(n), pending.skip(n))
            },
        }
    }
}

/// All the bytes that `uses` write.
pub open spec fn written_by(uses: Seq<PtyUse>) -> Seq<u8>
    decreases uses.len(),
{
    if uses.len() == 0 {
        Seq::empty()
    } else {
        match uses.last() {
            PtyUse::Write(bytes) => written_by(uses.drop_last()) + bytes,
            PtyUse::Read(_) => written_by(uses.drop_last()),
        }
    }
}

/// A loopback terminal hands out what was written to it: in whatever portions it
/// is written and read, the bytes read, followed by those still pending, are the
/// bytes written.
pub proof fn law_loopback(uses: Seq<PtyUse>)
    ensures
        after_uses(uses).0 + after_uses(uses).1 == written_by(uses),
    decreases uses.len(),
{
    if uses.len() > 0 {
        law_loopback(uses.drop_last());
        let (read, pending) = after_uses(uses.drop_last());
        match uses.last() {
            PtyUse::Write(bytes) => {
                assert(read + (pending + bytes) =~= (read + pending) + bytes);
            },
            PtyUse::Read(max) => {
                let n: int = if max <= pending.len() {
                    max as int
                } else {
                    pending.len() as int
                };
                assert((read + pending.take(n)) + pending.skip(n) =~= read + pending);
            },
        }
    } else {
        assert(after_uses(uses).0 + after_uses(uses).1 =~= written_by(uses));
    }
}

} // verus!
