use loole::Receiver;
use vstd::prelude::*;

use crate::queue::{spec_consumed, spec_read_len, ByteQueue};
use crate::signal::{recv_signal, signalled, PipeError, SignalSender};
use crate::state::{spec_slices, spec_total_len, SharedState};

verus! {

/// Creates a connected writer and reader.
///
/// What the writer writes, the reader reads; the writer can be cloned, and
/// the reader sees the end of the stream once every writer is dropped.
pub fn pipe() -> (ends: (Writer, Reader))
    ensures
        ends.0.feeds(&ends.1),
        ends.1@ == Seq::<u8>::empty(),
        ends.1.received() == Seq::<u8>::empty(),
        ends.1.accounted(),
{
    let (link, receiver) = SignalSender::channel();
    let state = SharedState::new();
    let w = Writer { link, state: state.share() };
    let r = Reader::new(receiver, state);
    (w, r)
}

/// The writing end of a pipe. Writes never wait: the bytes go to the shared
/// buffer and the reader is signalled. Once the reader is dropped a write
/// fails with `Disconnected`.
pub struct Writer {
    pub(crate) link: SignalSender,
    pub(crate) state: SharedState,
}

impl Clone for Writer {
    /// Another writer on the same pipe: every reader that this writer feeds,
    /// the clone feeds too.
    fn clone(&self) -> (w: Self)
        ensures
            w.same_pipe(self),
            forall|r: Reader| #[trigger] w.feeds(&r) == self.feeds(&r),
    {
        let w = Writer { link: self.link.share(), state: self.state.share() };
        proof {
            assert forall|r: Reader| #[trigger] w.feeds(&r) == self.feeds(&r) by {
                SharedState::lemma_same_buffer(&w.state, &self.state, &r.state);
                SharedState::lemma_same_buffer(&self.state, &w.state, &r.state);
                assert(w.link.feeds(r.receiver) == self.link.feeds(r.receiver));
            }
        }
        w
    }
}

impl Writer {
    /// Whether `self` and `other` write into one pipe: they signal on one
    /// channel and append to one shared buffer.
    pub closed spec fn same_pipe(&self, other: &Writer) -> bool {
        self.link.same_channel(&other.link) && self.state.same_buffer(&other.state)
    }

    /// Whether `r` reads what this writer writes: `r` receives on the
    /// writer's channel and takes bytes from the writer's shared buffer.
    pub closed spec fn feeds(&self, r: &Reader) -> bool {
        self.link.feeds(r.receiver) && self.state.same_buffer(&r.state)
    }

    /// Appends all of `buf` to the pipe and signals the reader. Returns the
    /// number of bytes written, or `Disconnected` when the reader is gone
    /// (the bytes were appended all the same).
    pub fn write(&mut self, buf: &[u8]) -> (r: Result<usize, PipeError>)
        ensures
            *final(self) == *old(self),
            r == Ok::<usize, PipeError>(buf@.len() as usize) || r == Err::<usize, PipeError>(
                PipeError::Disconnected,
            ),
    {
        let (n, _section): (usize, Ghost<(Seq<u8>, Seq<u8>)>) = self.state.write(buf);
        signalled(n, self.link.send())
    }

    /// Appends the buffers of `bufs` in order, as one piece, and signals the
    /// reader once. Returns their total length, or `Disconnected`.
    pub fn write_vectored(&mut self, bufs: &[&[u8]]) -> (r: Result<usize, PipeError>)
        requires
            spec_total_len(spec_slices(bufs@)) <= usize::MAX,
        ensures
            *final(self) == *old(self),
            r == Ok::<usize, PipeError>(spec_total_len(spec_slices(bufs@)) as usize) || r == Err::<
                usize,
                PipeError,
            >(PipeError::Disconnected),
    {
        let (n, _section): (usize, Ghost<(Seq<u8>, Seq<u8>)>) = self.state.write_vectored(bufs);
        signalled(n, self.link.send())
    }

    /// Appends all of `buf` and signals the reader; `Disconnected` when the
    /// reader is gone.
    pub fn write_all(&mut self, buf: &[u8]) -> (r: Result<(), PipeError>)
        ensures
            *final(self) == *old(self),
            r == Ok::<(), PipeError>(()) || r == Err::<(), PipeError>(PipeError::Disconnected),
    {
        let _section: Ghost<(Seq<u8>, Seq<u8>)> = self.state.write_all(buf);
        signalled((), self.link.send())
    }

    /// Nothing is held back by a writer, so flushing always succeeds.
    pub fn flush(&mut self) -> (r: Result<(), PipeError>)
        ensures
            *final(self) == *old(self),
            r == Ok::<(), PipeError>(()),
    {
        self.state.flush()
    }
}

/// A reader stays fed by a writer while it reads: reading changes what it
/// has buffered, not the pipe it reads from.
pub proof fn law_reading_keeps_the_pipe(w: &Writer, before: &Reader, after: &Reader)
    requires
        w.feeds(before),
        after.same_link(before),
    ensures
        w.feeds(after),
{
}

/// Every byte that a reader has handed out, followed by what it still
/// buffers, is every byte it has taken from the shared buffer: it hands
/// bytes out in the order it took them in, none lost, none repeated.
pub proof fn law_reader_hands_out_in_order(r: &Reader)
    requires
        r.accounted(),
    ensures
        r.received().take(r.handed_out().len() as int) == r.handed_out(),
        r.received().skip(r.handed_out().len() as int) == r@,
{
    assert(r.received().take(r.handed_out().len() as int) =~= r.handed_out());
    assert(r.received().skip(r.handed_out().len() as int) =~= r@);
}

/// The reading end of a pipe.
///
/// It keeps the bytes it has taken from the shared buffer and not yet handed
/// out; its view is those bytes, front first. It also keeps account of every
/// byte it has taken in and every byte it has handed out.
pub struct Reader {
    pub(crate) receiver: Receiver<()>,
    pub(crate) buf: ByteQueue,
    pub(crate) state: SharedState,
    pub(crate) received: Ghost<Seq<u8>>,
    pub(crate) handed: Ghost<Seq<u8>>,
    pub(crate) refill: Ghost<(Seq<u8>, Seq<u8>)>,
}

impl View for Reader {
    type V = Seq<u8>;

    closed spec fn view(&self) -> Seq<u8> {
        self.buf@
    }
}

impl Reader {
    /// Whether `self` and `other` hold the same end of a pipe: the same
    /// receiver and the same shared buffer, whatever bytes each has buffered.
    pub closed spec fn same_link(&self, other: &Reader) -> bool {
        self.receiver == other.receiver && self.state == other.state
    }

    /// What `same_link` means, for the other modules of this crate.
    pub(crate) proof fn lemma_same_link(a: &Reader, b: &Reader)
        ensures
            a.same_link(b) <==> (a.receiver == b.receiver && a.state == b.state),
    {
    }

    /// Every byte taken from the shared buffer so far, in the order taken.
    pub closed spec fn received(&self) -> Seq<u8> {
        self.received@
    }

    /// Every byte handed out so far (consumed or read), in order.
    pub closed spec fn handed_out(&self) -> Seq<u8> {
        self.handed@
    }

    /// The critical section of the last refill: the bytes it found in the
    /// shared buffer and the bytes it left there.
    pub closed spec fn last_refill(&self) -> (Seq<u8>, Seq<u8>) {
        self.refill@
    }

    /// The account of the reader balances: what it handed out, then what it
    /// buffers, is what it took in.
    pub open spec fn accounted(&self) -> bool {
        self.handed_out() + self@ == self.received()
    }

    pub(crate) fn new(receiver: Receiver<()>, state: SharedState) -> (r: Self)
        ensures
            r@ == Seq::<u8>::empty(),
            r.receiver == receiver,
            r.state == state,
            r.received() == Seq::<u8>::empty(),
            r.handed_out() == Seq::<u8>::empty(),
            r.accounted(),
    {
        let r = Reader {
            receiver,
            buf: ByteQueue::new(),
            state,
            received: Ghost(Seq::empty()),
            handed: Ghost(Seq::empty()),
            refill: Ghost((Seq::empty(), Seq::empty())),
        };
        assert(r.handed_out() + r@ =~= r.received());
        r
    }

    /// One round of filling: when no byte is buffered, moves everything that
    /// waits in the shared buffer here. Returns whether bytes are buffered
    /// now; when not, the caller waits for a signal (`wait_signal`) and
    /// tries again, or stops at the end of the stream.
    ///
    /// A refill hands nothing out; the bytes it buffers are exactly the bytes
    /// its critical section found in the shared buffer, which it leaves empty.
    pub fn fill_step(&mut self) -> (ready: bool)
        ensures
            final(self).same_link(old(self)),
            ready == (final(self)@.len() > 0),
            old(self)@.len() > 0 ==> final(self)@ == old(self)@,
            final(self).handed_out() == old(self).handed_out(),
            old(self)@.len() > 0 ==> final(self).received() == old(self).received()
                && final(self).last_refill() == old(self).last_refill(),
            old(self)@.len() == 0 ==> {
                &&& final(self)@ == final(self).last_refill().0
                &&& final(self).last_refill().1 == Seq::<u8>::empty()
                &&& final(self).received() == old(self).received() + final(self).last_refill().0
            },
            old(self).accounted() ==> final(self).accounted(),
    {
        if !self.buf.is_empty() {
            return true;
        }
        let (n, section): (u64, Ghost<(Seq<u8>, Seq<u8>)>) = self.state.copy_to(&mut self.buf);
        self.received = Ghost(self.received@ + section@.0);
        self.refill = section;
        proof {
            if old(self).accounted() {
                assert(self.handed_out() + self@ =~= self.received());
            }
        }
        n > 0
    }

    /// Waits for a writer's signal: `true` when one came, `false` when every
    /// writer is gone and no signal is left, which is the end of the stream.
    pub fn wait_signal(&self) -> (received: bool) {
        recv_signal(&self.receiver)
    }

    /// The buffered bytes, front first.
    pub fn buffered(&self) -> (s: &[u8])
        ensures
            s@ == self@,
    {
        self.buf.as_slice()
    }

    /// Marks the first `amt` buffered bytes as read.
    pub fn consume(&mut self, amt: usize)
        requires
            amt <= old(self)@.len(),
        ensures
            final(self).same_link(old(self)),
            final(self)@ == spec_consumed(old(self)@, amt as nat),
            final(self).handed_out() == old(self).handed_out() + old(self)@.take(amt as int),
            final(self).received() == old(self).received(),
            final(self).last_refill() == old(self).last_refill(),
            old(self).accounted() ==> final(self).accounted(),
    {
        let ghost before = self.buf@;
        self.buf.consume(amt);
        self.handed = Ghost(self.handed@ + before.take(amt as int));
        proof {
            if old(self).accounted() {
                assert(self.handed_out() + self@ =~= old(self).handed_out() + before);
            }
        }
    }

    /// Copies as many buffered bytes as fit into the front of `out`, marks
    /// them as read, and returns their number.
    pub fn read_buffered(&mut self, out: &mut [u8]) -> (n: usize)
        ensures
            final(self).same_link(old(self)),
            n == spec_read_len(old(self)@, old(out)@.len()),
            final(out)@ == old(self)@.take(n as int) + old(out)@.skip(n as int),
            final(self)@ == spec_consumed(old(self)@, n as nat),
            final(self).handed_out() == old(self).handed_out() + old(self)@.take(n as int),
            final(self).received() == old(self).received(),
            final(self).last_refill() == old(self).last_refill(),
            old(self).accounted() ==> final(self).accounted(),
    {
        let ghost before = self.buf@;
        let n: usize = self.buf.read(out);
        self.handed = Ghost(self.handed@ + before.take(n as int));
        proof {
            if old(self).accounted() {
                assert(self.handed_out() + self@ =~= old(self).handed_out() + before);
            }
        }
        n
    }
}

} // verus!
