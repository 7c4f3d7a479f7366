use loole::Receiver;
use std::collections::VecDeque;
use std::task::Waker;
use vstd::prelude::*;

use crate::queue::{spec_consumed, spec_read_len};
use crate::signal::{clone_receiver, receivers_same_channel, PipeError, SignalSender, TrySignal};
use crate::state::{spec_concat, spec_slices, spec_total_len, SharedState};
use crate::sync_pipe::{pipe, Reader, Writer};

verus! {

#[verifier::external_type_specification]
#[verifier::external_body]
pub struct ExWaker(Waker);

/// `std::task::Waker::clone`: a waker for the same task.
#[verifier::external_body]
fn clone_waker(w: &Waker) -> (c: Waker) {
    w.clone()
}

/// `std::task::Waker::wake`: wakes the task of `w`.
#[verifier::external_body]
fn wake(w: Waker) {
    w.wake()
}

/// Where an attempt to signal the reader left a write.
#[derive(Debug, Clone, Copy, PartialEq, Eq, Structural)]
pub enum SendPoll {
    /// The reader was signalled.
    Sent,
    /// The signal could not be placed yet; the task is parked.
    Pending,
    /// The reader is gone.
    Closed,
}

/// Where an asynchronous write stands: finished, with its result, or not yet.
#[derive(Debug, PartialEq, Eq, Structural)]
pub enum WritePoll<T> {
    Ready(Result<T, PipeError>),
    Pending,
}

/// The result of a write whose bytes are in the shared buffer, after the
/// attempt to signal the reader came to `sent`.
pub fn write_poll<T>(value: T, sent: SendPoll) -> (r: WritePoll<T>)
    ensures
        sent == SendPoll::Sent ==> r == WritePoll::Ready(Ok::<T, PipeError>(value)),
        sent == SendPoll::Closed ==> r == WritePoll::Ready(Err::<T, PipeError>(PipeError::Disconnected)),
        sent == SendPoll::Pending ==> r == WritePoll::<T>::Pending,
{
    match sent {
        SendPoll::Sent => WritePoll::Ready(Ok(value)),
        SendPoll::Closed => WritePoll::Ready(Err(PipeError::Disconnected)),
        SendPoll::Pending => WritePoll::Pending,
    }
}

/// The wakers left after the one at the front, if any, was taken.
pub open spec fn spec_without_first(ws: Seq<Waker>) -> Seq<Waker> {
    if ws.len() > 0 {
        ws.drop_first()
    } else {
        ws
    }
}

/// Creates a connected asynchronous writer and asynchronous reader.
pub fn async_pipe() -> (ends: (AsyncWriter, AsyncReader))
    ensures
        ends.0.feeds(&ends.1.reading_end()),
        ends.0.parked().len() == 0,
        ends.1@ == Seq::<u8>::empty(),
        ends.1.received() == Seq::<u8>::empty(),
        ends.1.accounted(),
{
    let (link, receiver) = SignalSender::channel();
    let state = SharedState::new();
    let w = AsyncWriter { link, wakers: VecDeque::new(), state: state.share(), appended: Ghost((Seq::empty(), Seq::empty())) };
    let r = AsyncReader { reader: Reader::new(receiver, state) };
    (w, r)
}

/// Creates a connected synchronous writer and asynchronous reader.
pub fn async_reader_pipe() -> (ends: (Writer, AsyncReader))
    ensures
        ends.0.feeds(&ends.1.reading_end()),
        ends.1@ == Seq::<u8>::empty(),
        ends.1.received() == Seq::<u8>::empty(),
        ends.1.accounted(),
{
    let (w, reader) = pipe();
    (w, AsyncReader { reader })
}

/// Creates a connected asynchronous writer and synchronous reader.
pub fn async_writer_pipe() -> (ends: (AsyncWriter, Reader))
    ensures
        ends.0.feeds(&ends.1),
        ends.0.parked().len() == 0,
        ends.1@ == Seq::<u8>::empty(),
        ends.1.received() == Seq::<u8>::empty(),
        ends.1.accounted(),
{
    let (link, receiver) = SignalSender::channel();
    let state = SharedState::new();
    let w = AsyncWriter { link, wakers: VecDeque::new(), state: state.share(), appended: Ghost((Seq::empty(), Seq::empty())) };
    let r = Reader::new(receiver, state);
    (w, r)
}

/// The asynchronous writing end of a pipe.
///
/// It keeps the wakers of the tasks that found the channel full, to wake
/// them in turn; the channel of a pipe is unbounded, so none is ever kept.
pub struct AsyncWriter {
    link: SignalSender,
    wakers: VecDeque<Waker>,
    state: SharedState,
    appended: Ghost<(Seq<u8>, Seq<u8>)>,
}

impl Clone for AsyncWriter {
    /// Another writer on the same pipe, with no parked task: every reader
    /// that this writer feeds, the clone feeds too.
    fn clone(&self) -> (w: Self)
        ensures
            w.same_pipe(self),
            forall|r: Reader| #[trigger] w.feeds(&r) == self.feeds(&r),
            w.parked().len() == 0,
    {
        let w = AsyncWriter {
            link: self.link.share(),
            wakers: VecDeque::new(),
            state: self.state.share(),
            appended: Ghost((Seq::empty(), Seq::empty())),
        };
        proof {
            assert forall|r: Reader| #[trigger] w.feeds(&r) == self.feeds(&r) by {
                SharedState::lemma_same_buffer(&w.state, &self.state, &r.state);
                SharedState::lemma_same_buffer(&self.state, &w.state, &r.state);
                assert(w.link.feeds(r.receiver) == self.link.feeds(r.receiver));
            }
        }
        w
    }
}

impl AsyncWriter {
    /// Whether `self` and `other` write into one pipe: they signal on one
    /// channel and append to one shared buffer.
    pub closed spec fn same_pipe(&self, other: &AsyncWriter) -> bool {
        self.link.same_channel(&other.link) && self.state.same_buffer(&other.state)
    }

    /// Whether `r` reads what this writer writes: `r` receives on the
    /// writer's channel and takes bytes from the writer's shared buffer.
    pub closed spec fn feeds(&self, r: &Reader) -> bool {
        self.link.feeds(r.receiver) && self.state.same_buffer(&r.state)
    }

    /// Whether `self` and `other` are the same end of a pipe, whatever tasks
    /// each has parked.
    pub closed spec fn same_ends(&self, other: &AsyncWriter) -> bool {
        self.link == other.link && self.state == other.state
    }

    /// The critical section of this writer's last append: the bytes it found
    /// in the shared buffer and the bytes it left there.
    pub closed spec fn last_append(&self) -> (Seq<u8>, Seq<u8>) {
        self.appended@
    }

    /// The wakers of the parked tasks, first parked first.
    pub closed spec fn parked(&self) -> Seq<Waker> {
        self.wakers@
    }

    /// Acts on what became of an attempt to signal the reader: on `Sent` or
    /// `Closed` the first parked task, if any, is woken and leaves the queue;
    /// on `Full` the task of `waker` is parked at the back.
    pub fn on_signal(&mut self, outcome: TrySignal, waker: &Waker) -> (r: SendPoll)
        ensures
            final(self).same_ends(old(self)),
            outcome == TrySignal::Sent ==> r == SendPoll::Sent,
            outcome == TrySignal::Closed ==> r == SendPoll::Closed,
            outcome == TrySignal::Full ==> r == SendPoll::Pending,
            final(self).last_append() == old(self).last_append(),
            outcome != TrySignal::Full ==> final(self).parked() == spec_without_first(
                old(self).parked(),
            ),
            outcome == TrySignal::Full ==> {
                &&& final(self).parked().len() == old(self).parked().len() + 1
                &&& final(self).parked().take(old(self).parked().len() as int) == old(
                    self,
                ).parked()
            },
    {
        match outcome {
            TrySignal::Full => {
                self.wakers.push_back(clone_waker(waker));
                assert(self.wakers@.take(old(self).wakers@.len() as int) =~= old(self).wakers@);
                SendPoll::Pending
            },
            _ => {
                if let Some(w) = self.wakers.pop_front() {
                    wake(w);
                }
                if outcome == TrySignal::Sent {
                    SendPoll::Sent
                } else {
                    SendPoll::Closed
                }
            },
        }
    }

    /// Signals the reader without waiting. The channel is unbounded, so this
    /// is never `Pending`: the reader is signalled (`Sent`) or gone
    /// (`Closed`), and the first parked task, if any, is woken.
    pub fn poll_send(&mut self, waker: &Waker) -> (r: SendPoll)
        ensures
            final(self).same_ends(old(self)),
            r == SendPoll::Sent || r == SendPoll::Closed,
            final(self).parked() == spec_without_first(old(self).parked()),
            final(self).last_append() == old(self).last_append(),
    {
        let outcome: TrySignal = self.link.try_send();
        self.on_signal(outcome, waker)
    }

    /// Appends all of `buf` to the pipe and signals the reader. Never
    /// `Pending`: ready with the number of bytes written, or with
    /// `Disconnected` when the reader is gone.
    pub fn poll_write(&mut self, waker: &Waker, buf: &[u8]) -> (r: WritePoll<usize>)
        ensures
            final(self).same_ends(old(self)),
            r == WritePoll::Ready(Ok::<usize, PipeError>(buf@.len() as usize)) || r
                == WritePoll::<usize>::Ready(Err::<usize, PipeError>(PipeError::Disconnected)),
            final(self).parked() == spec_without_first(old(self).parked()),
            final(self).last_append().1 == final(self).last_append().0 + buf@,
    {
        let (n, section): (usize, Ghost<(Seq<u8>, Seq<u8>)>) = self.state.write(buf);
        self.appended = section;
        let sent: SendPoll = self.poll_send(waker);
        write_poll(n, sent)
    }

    /// Appends the buffers of `bufs` in order, as one piece, and signals the
    /// reader. Never `Pending`: ready with their total length, or with
    /// `Disconnected`.
    pub fn poll_write_vectored(&mut self, waker: &Waker, bufs: &[&[u8]]) -> (r: WritePoll<usize>)
        requires
            spec_total_len(spec_slices(bufs@)) <= usize::MAX,
        ensures
            final(self).same_ends(old(self)),
            r == WritePoll::Ready(
                Ok::<usize, PipeError>(spec_total_len(spec_slices(bufs@)) as usize),
            ) || r == WritePoll::<usize>::Ready(Err::<usize, PipeError>(PipeError::Disconnected)),
            final(self).parked() == spec_without_first(old(self).parked()),
            final(self).last_append().1 == final(self).last_append().0 + spec_concat(
                spec_slices(bufs@),
            ),
    {
        let (n, section): (usize, Ghost<(Seq<u8>, Seq<u8>)>) = self.state.write_vectored(bufs);
        self.appended = section;
        let sent: SendPoll = self.poll_send(waker);
        write_poll(n, sent)
    }

    /// Nothing is held back by a writer, so flushing is ready at once.
    pub fn poll_flush(&mut self) -> (r: Result<(), PipeError>)
        ensures
            *final(self) == *old(self),
            r == Ok::<(), PipeError>(()),
    {
        self.state.flush()
    }

    /// Closes the signal channel: from now on every writer of the pipe fails
    /// with `Disconnected`, and the reader sees the end of the stream once it
    /// has read what was written before. Ready at once.
    pub fn poll_close(&mut self) -> (r: Result<(), PipeError>)
        ensures
            *final(self) == *old(self),
            r == Ok::<(), PipeError>(()),
    {
        let _closed_now: bool = self.link.close();
        Ok(())
    }
}

/// The asynchronous reading end of a pipe.
///
/// Its view is the bytes it has taken from the shared buffer and not yet
/// handed out, front first.
pub struct AsyncReader {
    reader: Reader,
}

impl View for AsyncReader {
    type V = Seq<u8>;

    closed spec fn view(&self) -> Seq<u8> {
        self.reader@
    }
}

/// A reader stays fed by an asynchronous writer while it reads: reading
/// changes what it has buffered, not the pipe it reads from.
pub proof fn law_async_reading_keeps_the_pipe(w: &AsyncWriter, before: &Reader, after: &Reader)
    requires
        w.feeds(before),
        after.same_link(before),
    ensures
        w.feeds(after),
{
    Reader::lemma_same_link(after, before);
}

impl AsyncReader {
    /// The synchronous reading end that this reader drives.
    pub closed spec fn reading_end(&self) -> Reader {
        self.reader
    }

    /// Whether `self` and `other` hold the same end of a pipe, whatever bytes
    /// each has buffered.
    pub open spec fn same_link(&self, other: &AsyncReader) -> bool {
        self.reading_end().same_link(&other.reading_end())
    }

    /// Every byte taken from the shared buffer so far, in the order taken.
    pub open spec fn received(&self) -> Seq<u8> {
        self.reading_end().received()
    }

    /// Every byte handed out so far (consumed or read), in order.
    pub open spec fn handed_out(&self) -> Seq<u8> {
        self.reading_end().handed_out()
    }

    /// The critical section of the last refill: the bytes it found in the
    /// shared buffer and the bytes it left there.
    pub open spec fn last_refill(&self) -> (Seq<u8>, Seq<u8>) {
        self.reading_end().last_refill()
    }

    /// The account of the reader balances: what it handed out, then what it
    /// buffers, is what it took in.
    pub open spec fn accounted(&self) -> bool {
        self.reading_end().accounted()
    }

    /// One round of filling: when no byte is buffered, moves everything that
    /// waits in the shared buffer here. Returns whether bytes are buffered
    /// now; when not, the caller awaits a signal (from `signals`) and tries
    /// again, or finishes with `finish_fill` at the end of the stream.
    pub fn fill_step(&mut self) -> (ready: bool)
        ensures
            final(self).same_link(old(self)),
            ready == (final(self)@.len() > 0),
            old(self)@.len() > 0 ==> final(self)@ == old(self)@,
            final(self).handed_out() == old(self).handed_out(),
            old(self)@.len() > 0 ==> final(self).received() == old(self).received()
                && final(self).last_refill() == old(self).last_refill(),
            old(self)@.len() == 0 ==> {
                &&& final(self)@ == final(self).last_refill().0
                &&& final(self).last_refill().1 == Seq::<u8>::empty()
                &&& final(self).received() == old(self).received() + final(self).last_refill().0
            },
            old(self).accounted() ==> final(self).accounted(),
    {
        self.reader.fill_step()
    }

    /// The last round of filling, once the stream has ended: when no byte is
    /// buffered, moves what a writer appended after its final signal.
    pub fn finish_fill(&mut self)
        ensures
            final(self).same_link(old(self)),
            old(self)@.len() > 0 ==> final(self)@ == old(self)@,
            final(self).handed_out() == old(self).handed_out(),
            old(self)@.len() > 0 ==> final(self).received() == old(self).received()
                && final(self).last_refill() == old(self).last_refill(),
            old(self)@.len() == 0 ==> {
                &&& final(self)@ == final(self).last_refill().0
                &&& final(self).last_refill().1 == Seq::<u8>::empty()
                &&& final(self).received() == old(self).received() + final(self).last_refill().0
            },
            old(self).accounted() ==> final(self).accounted(),
    {
        let _ready: bool = self.reader.fill_step();
    }

    /// Whether `r` receives on the signal channel of this reader.
    pub closed spec fn hears_on(&self, r: Receiver<()>) -> bool {
        receivers_same_channel(r, self.reader.receiver)
    }

    /// A receiver of the signal channel, to await a writer's signal with.
    pub fn signals(&self) -> (r: Receiver<()>)
        ensures
            self.hears_on(r),
    {
        clone_receiver(&self.reader.receiver)
    }

    /// The buffered bytes, front first.
    pub fn buffered(&self) -> (s: &[u8])
        ensures
            s@ == self@,
    {
        self.reader.buffered()
    }

    /// Marks the first `amt` buffered bytes as read.
    pub fn consume(&mut self, amt: usize)
        requires
            amt <= old(self)@.len(),
        ensures
            final(self).same_link(old(self)),
            final(self)@ == spec_consumed(old(self)@, amt as nat),
            final(self).handed_out() == old(self).handed_out() + old(self)@.take(amt as int),
            final(self).received() == old(self).received(),
            final(self).last_refill() == old(self).last_refill(),
            old(self).accounted() ==> final(self).accounted(),
    {
        self.reader.consume(amt)
    }

    /// Copies as many buffered bytes as fit into the front of `out`, marks
    /// them as read, and returns their number.
    pub fn read_buffered(&mut self, out: &mut [u8]) -> (n: usize)
        ensures
            final(self).same_link(old(self)),
            n == spec_read_len(old(self)@, old(out)@.len()),
            final(out)@ == old(self)@.take(n as int) + old(out)@.skip(n as int),
            final(self)@ == spec_consumed(old(self)@, n as nat),
            final(self).handed_out() == old(self).handed_out() + old(self)@.take(n as int),
            final(self).received() == old(self).received(),
            final(self).last_refill() == old(self).last_refill(),
            old(self).accounted() ==> final(self).accounted(),
    {
        self.reader.read_buffered(out)
    }
}

} // verus!
