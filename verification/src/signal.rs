use loole::{Receiver, Sender, TrySendError};
use vstd::prelude::*;

verus! {

#[verifier::external_type_specification]
#[verifier::external_body]
#[verifier::reject_recursive_types(T)]
pub struct ExSender<T>(Sender<T>);

#[verifier::external_type_specification]
#[verifier::external_body]
#[verifier::reject_recursive_types(T)]
pub struct ExReceiver<T>(Receiver<T>);

/// The error of a write: the reader has been dropped, so the bytes written
/// can never be read.
#[derive(Debug, Clone, Copy, PartialEq, Eq, Structural)]
pub enum PipeError {
    Disconnected,
}

/// What became of a signal offered without waiting.
#[derive(Debug, Clone, Copy, PartialEq, Eq, Structural)]
pub enum TrySignal {
    /// The signal is in the channel.
    Sent,
    /// The channel is bounded and holds as many signals as it may.
    Full,
    /// The channel is closed: its receivers are gone or a sender closed it.
    Closed,
}

/// The capacity that the channel behind a sender was made with; `None` for
/// an unbounded channel.
pub uninterp spec fn signal_capacity(s: Sender<()>) -> Option<usize>;

/// Whether two senders belong to the same channel.
pub uninterp spec fn senders_same_channel(a: Sender<()>, b: Sender<()>) -> bool;

/// Whether two receivers belong to the same channel.
pub uninterp spec fn receivers_same_channel(a: Receiver<()>, b: Receiver<()>) -> bool;

/// Whether a sender and a receiver are ends of one channel: they hold the
/// same channel core, the one that `Sender::same_channel` and
/// `Receiver::same_channel` compare.
pub uninterp spec fn sender_feeds(s: Sender<()>, r: Receiver<()>) -> bool;

/// `loole::unbounded`: a new channel without a capacity; the sender and the
/// receiver it returns are its two ends.
#[verifier::external_body]
pub(crate) fn unbounded_signals() -> (ch: (Sender<()>, Receiver<()>))
    ensures
        signal_capacity(ch.0) is None,
        sender_feeds(ch.0, ch.1),
{
    loole::unbounded()
}

/// `loole::Sender::clone`: another sender on the same channel (what
/// `Sender::same_channel` reports), which has the same capacity.
#[verifier::external_body]
pub(crate) fn clone_sender(s: &Sender<()>) -> (c: Sender<()>)
    ensures
        signal_capacity(c) == signal_capacity(*s),
        senders_same_channel(c, *s),
        forall|r: Receiver<()>| #[trigger] sender_feeds(c, r) == sender_feeds(*s, r),
{
    s.clone()
}

/// `loole::Sender::send`: puts a signal into the channel, waiting for room
/// where the channel is bounded and full; `true` when it was delivered,
/// `false` when the channel is closed. Which of the two comes back depends on
/// the other end, so nothing is stated of it.
#[verifier::external_body]
pub(crate) fn send_signal(s: &Sender<()>) -> (delivered: bool) {
    s.send(()).is_ok()
}

/// `loole::Sender::try_send`: offers a signal without waiting. A channel
/// without a capacity is never full, so there the answer is never `Full`.
#[verifier::external_body]
pub(crate) fn try_send_signal(s: &Sender<()>) -> (r: TrySignal)
    ensures
        signal_capacity(*s) is None ==> r != TrySignal::Full,
{
    match s.try_send(()) {
        Ok(()) => TrySignal::Sent,
        Err(TrySendError::Full(())) => TrySignal::Full,
        Err(TrySendError::Disconnected(())) => TrySignal::Closed,
    }
}

/// `loole::Sender::close`: closes the channel; `true` when this call closed
/// it, `false` when it was closed already. Signals sent before can still be
/// received.
#[verifier::external_body]
pub(crate) fn close_signals(s: &Sender<()>) -> (closed_now: bool) {
    s.close()
}

/// `loole::Receiver::recv`: waits for a signal; `true` when one came,
/// `false` when the channel is closed and empty. Which comes back depends
/// on the writers, so nothing is stated of it.
#[verifier::external_body]
pub(crate) fn recv_signal(r: &Receiver<()>) -> (received: bool) {
    r.recv().is_ok()
}

/// `loole::Receiver::clone`: another receiver on the same channel (what
/// `Receiver::same_channel` reports).
#[verifier::external_body]
pub(crate) fn clone_receiver(r: &Receiver<()>) -> (c: Receiver<()>)
    ensures
        receivers_same_channel(c, *r),
        forall|s: Sender<()>| #[trigger] sender_feeds(s, c) == sender_feeds(s, *r),
{
    r.clone()
}

/// The sending end of the signal channel of a pipe, whose channel is
/// unbounded.
pub struct SignalSender {
    sender: Sender<()>,
}

impl SignalSender {
    #[verifier::type_invariant]
    spec fn unbounded(self) -> bool {
        signal_capacity(self.sender) is None
    }

    /// Whether `self` and `other` send on the same channel.
    pub closed spec fn same_channel(&self, other: &SignalSender) -> bool {
        senders_same_channel(self.sender, other.sender)
    }

    /// Whether `r` receives what this sender sends.
    pub closed spec fn feeds(&self, r: Receiver<()>) -> bool {
        sender_feeds(self.sender, r)
    }

    /// A new unbounded channel: its sending end and its receiver.
    pub fn channel() -> (ch: (SignalSender, Receiver<()>))
        ensures
            ch.0.feeds(ch.1),
    {
        let (sender, receiver) = unbounded_signals();
        (SignalSender { sender }, receiver)
    }

    /// Another sending end on the same channel.
    pub fn share(&self) -> (s: SignalSender)
        ensures
            s.same_channel(self),
            forall|r: Receiver<()>| #[trigger] s.feeds(r) == self.feeds(r),
    {
        proof {
            use_type_invariant(self);
        }
        SignalSender { sender: clone_sender(&self.sender) }
    }

    /// Sends a signal; `true` when it was delivered. On an unbounded channel
    /// this never waits.
    pub fn send(&self) -> (delivered: bool) {
        send_signal(&self.sender)
    }

    /// Offers a signal without waiting; the channel is unbounded, so the
    /// answer is never `Full`.
    pub fn try_send(&self) -> (r: TrySignal)
        ensures
            r != TrySignal::Full,
    {
        proof {
            use_type_invariant(self);
        }
        try_send_signal(&self.sender)
    }

    /// Closes the channel; `true` when this call closed it.
    pub fn close(&self) -> (closed_now: bool) {
        close_signals(&self.sender)
    }
}

/// The result of a write whose bytes are in the shared buffer: `value` when
/// the reader was signalled, `Disconnected` when it is gone.
pub fn signalled<T>(value: T, delivered: bool) -> (r: Result<T, PipeError>)
    ensures
        delivered ==> r == Ok::<T, PipeError>(value),
        !delivered ==> r == Err::<T, PipeError>(PipeError::Disconnected),
{
    if delivered {
        Ok(value)
    } else {
        Err(PipeError::Disconnected)
    }
}

} // verus!
