use vstd::prelude::*;

verus! {

/// The bytes that remain after `amt` of them have been taken from the front.
pub open spec fn spec_consumed(s: Seq<u8>, amt: nat) -> Seq<u8> {
    s.skip(amt as int)
}

/// How many bytes a read into a destination of `room` bytes takes from `s`.
pub open spec fn spec_read_len(s: Seq<u8>, room: nat) -> nat {
    if room < s.len() {
        room
    } else {
        s.len()
    }
}

/// Bytes come out in the order they went in: after `x` is written behind
/// the queued bytes `s`, reading `s.len()` bytes gives back exactly `s`, and
/// what is left is exactly `x`.
pub proof fn law_first_in_first_out(s: Seq<u8>, x: Seq<u8>)
    ensures
        (s + x).take(spec_read_len(s + x, s.len()) as int) == s,
        spec_consumed(s + x, spec_read_len(s + x, s.len())) == x,
{
    assert((s + x).take(s.len() as int) =~= s);
    assert(spec_consumed(s + x, s.len()) =~= x);
}

/// A read neither loses nor repeats bytes: what it copies out, followed by
/// what stays queued, is what was queued.
pub proof fn law_read_keeps_every_byte(s: Seq<u8>, room: nat)
    ensures
        s.take(spec_read_len(s, room) as int) + spec_consumed(s, spec_read_len(s, room)) == s,
{
    assert(s.take(spec_read_len(s, room) as int) + spec_consumed(s, spec_read_len(s, room)) =~= s);
}

/// A read returns 0 only when nothing is queued or the destination has no
/// room; and with room for everything it takes everything.
pub proof fn law_read_progress(s: Seq<u8>, room: nat)
    ensures
        spec_read_len(s, room) == 0 <==> (s.len() == 0 || room == 0),
        room >= s.len() ==> spec_read_len(s, room) == s.len() && spec_consumed(
            s,
            spec_read_len(s, room),
        ) == Seq::<u8>::empty(),
{
    if room >= s.len() {
        assert(spec_consumed(s, s.len()) =~= Seq::<u8>::empty());
    }
}

/// Marking `a` and then `b` bytes as read is marking `a + b` bytes as read.
pub proof fn law_consume_adds_up(s: Seq<u8>, a: nat, b: nat)
    requires
        a + b <= s.len(),
    ensures
        spec_consumed(spec_consumed(s, a), b) == spec_consumed(s, a + b),
{
    assert(spec_consumed(spec_consumed(s, a), b) =~= spec_consumed(s, a + b));
}

/// A byte queue: bytes are appended at the back and taken from the front.
///
/// It backs the reader's side of a pipe. All bytes that are queued sit in one
/// contiguous run, so `as_slice` always hands out everything that is queued.
pub struct ByteQueue {
    bytes: Vec<u8>,
    head: usize,
}

impl View for ByteQueue {
    type V = Seq<u8>;

    closed spec fn view(&self) -> Seq<u8> {
        self.bytes@.subrange(self.head as int, self.bytes@.len() as int)
    }
}

impl ByteQueue {
    #[verifier::type_invariant]
    spec fn wf(self) -> bool {
        self.head <= self.bytes@.len()
    }

    /// Moves the storage out, leaving the queue empty; returns it with the
    /// position of its first queued byte.
    fn take_parts(&mut self) -> (parts: (Vec<u8>, usize))
        ensures
            parts.1 <= parts.0@.len(),
            final(self).head == 0,
            old(self)@ == parts.0@.subrange(parts.1 as int, parts.0@.len() as int),
    {
        proof {
            use_type_invariant(&*self);
        }
        let head: usize = self.head;
        self.head = 0;
        let mut bytes: Vec<u8> = Vec::new();
        core::mem::swap(&mut bytes, &mut self.bytes);
        (bytes, head)
    }

    /// An empty queue.
    pub fn new() -> (q: Self)
        ensures
            q@ == Seq::<u8>::empty(),
    {
        ByteQueue { bytes: Vec::new(), head: 0 }
    }

    /// The number of queued bytes.
    pub fn len(&self) -> (n: usize)
        ensures
            n == self@.len(),
    {
        proof {
            use_type_invariant(self);
        }
        self.bytes.len() - self.head
    }

    /// Whether no byte is queued.
    pub fn is_empty(&self) -> (b: bool)
        ensures
            b == (self@.len() == 0),
    {
        self.len() == 0
    }

    /// All queued bytes, front first.
    pub fn as_slice(&self) -> (s: &[u8])
        ensures
            s@ == self@,
    {
        proof {
            use_type_invariant(self);
        }
        let all: &[u8] = self.bytes.as_slice();
        &all[self.head..self.bytes.len()]
    }

    /// Appends all of `buf` at the back and returns how many bytes that was.
    pub fn write(&mut self, buf: &[u8]) -> (n: usize)
        ensures
            final(self)@ == old(self)@ + buf@,
            n == buf@.len(),
    {
        proof {
            use_type_invariant(&*self);
        }
        let (mut bytes, head) = self.take_parts();
        let ghost before = bytes@;
        bytes.extend_from_slice(buf);
        proof {
            assert forall|i: int| 0 <= i < bytes@.len() implies bytes@[i] == (before + buf@)[i] by {
                if i >= before.len() {
                    assert(cloned::<u8>(buf@[i - before.len()], bytes@[i]));
                }
            }
            assert(bytes@ =~= before + buf@);
        }
        self.bytes = bytes;
        self.head = head;
        assert(self@ =~= old(self)@ + buf@);
        buf.len()
    }

    /// Appends the bytes of `other` at the back.
    ///
    /// When the queue is empty the vector is taken over as it is, without a copy.
    pub fn append(&mut self, other: Vec<u8>)
        ensures
            final(self)@ == old(self)@ + other@,
    {
        proof {
            use_type_invariant(&*self);
        }
        if self.head == self.bytes.len() {
            self.head = 0;
            self.bytes = other;
            assert(self@ =~= old(self)@ + other@);
        } else {
            let ghost added = other@;
            let mut other = other;
            let (mut bytes, head) = self.take_parts();
            bytes.append(&mut other);
            self.bytes = bytes;
            self.head = head;
            assert(self@ =~= old(self)@ + added);
        }
    }

    /// Removes the first `amt` bytes.
    pub fn consume(&mut self, amt: usize)
        requires
            amt <= old(self)@.len(),
        ensures
            final(self)@ == spec_consumed(old(self)@, amt as nat),
    {
        proof {
            use_type_invariant(&*self);
        }
        assert(self.bytes@.len() == self.bytes.len());
        self.head = self.head + amt;
        if self.head == self.bytes.len() {
            self.head = 0;
            self.bytes = Vec::new();
        }
        assert(self@ =~= spec_consumed(old(self)@, amt as nat));
    }

    /// Copies as many bytes from the front as `out` has room for into the front
    /// of `out`, removes them from the queue, and returns how many they were.
    pub fn read(&mut self, out: &mut [u8]) -> (n: usize)
        ensures
            n == spec_read_len(old(self)@, old(out)@.len()),
            final(out)@ == old(self)@.take(n as int) + old(out)@.skip(n as int),
            final(self)@ == spec_consumed(old(self)@, n as nat),
    {
        proof {
            use_type_invariant(&*self);
        }
        let avail: usize = self.len();
        let room: usize = out.len();
        let n: usize = if room < avail {
            room
        } else {
            avail
        };
        assert(self.bytes@.len() == self.bytes.len());
        let mut i: usize = 0;
        while i < n
            invariant
                n <= avail,
                n <= room,
                room == old(out)@.len(),
                out@.len() == room,
                avail == self@.len(),
                self@ == old(self)@,
                self.head + avail == self.bytes@.len(),
                self.bytes@.len() <= usize::MAX,
                i <= n,
                forall|j: int| 0 <= j < i ==> out@[j] == self@[j],
                forall|j: int| i <= j < room ==> out@[j] == old(out)@[j],
            decreases n - i,
        {
            out[i] = self.bytes[self.head + i];
            i = i + 1;
        }
        assert(out@ =~= old(self)@.take(n as int) + old(out)@.skip(n as int));
        self.consume(n);
        n
    }
}

} // verus!
