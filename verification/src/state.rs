use std::sync::Arc;
use vstd::prelude::*;
use vstd::rwlock::{RwLock, RwLockPredicate};

use crate::queue::ByteQueue;
use crate::signal::PipeError;

verus! {

/// The total number of bytes in a list of buffers.
pub open spec fn spec_total_len(bufs: Seq<Seq<u8>>) -> nat
    decreases bufs.len(),
{
    if bufs.len() == 0 {
        0
    } else {
        spec_total_len(bufs.drop_last()) + bufs.last().len()
    }
}

/// The buffers of a list, one after the other.
pub open spec fn spec_concat(bufs: Seq<Seq<u8>>) -> Seq<u8>
    decreases bufs.len(),
{
    if bufs.len() == 0 {
        Seq::empty()
    } else {
        spec_concat(bufs.drop_last()) + bufs.last()
    }
}

/// Writing a list of buffers at once appends the same bytes as writing its
/// first part and then its second part.
pub proof fn law_vectored_write_splits(a: Seq<Seq<u8>>, b: Seq<Seq<u8>>)
    ensures
        spec_concat(a + b) == spec_concat(a) + spec_concat(b),
    decreases b.len(),
{
    if b.len() == 0 {
        assert(a + b =~= a);
        assert(spec_concat(a) + spec_concat(b) =~= spec_concat(a));
    } else {
        law_vectored_write_splits(a, b.drop_last());
        assert((a + b).drop_last() =~= a + b.drop_last());
        assert(spec_concat(a) + spec_concat(b) =~= spec_concat(a) + spec_concat(b.drop_last())
            + b.last());
    }
}

/// The number of bytes that a vectored write appends is the total length of
/// its buffers.
pub proof fn law_vectored_write_len(bufs: Seq<Seq<u8>>)
    ensures
        spec_concat(bufs).len() == spec_total_len(bufs),
    decreases bufs.len(),
{
    if bufs.len() > 0 {
        law_vectored_write_len(bufs.drop_last());
    }
}

/// Appends the buffers of `bufs` to `bytes`, in order.
pub fn extend_all(bytes: &mut Vec<u8>, bufs: &[&[u8]])
    ensures
        final(bytes)@ == old(bytes)@ + spec_concat(spec_slices(bufs@)),
{
    let mut i: usize = 0;
    while i < bufs.len()
        invariant
            i <= bufs@.len(),
            bytes@ == old(bytes)@ + spec_concat(spec_slices(bufs@.take(i as int))),
        decreases bufs@.len() - i,
    {
        let ghost before = bytes@;
        let b: &[u8] = bufs[i];
        bytes.extend_from_slice(b);
        proof {
            assert forall|j: int| 0 <= j < bytes@.len() implies bytes@[j] == (before + b@)[j] by {
                if j >= before.len() {
                    assert(cloned::<u8>(b@[j - before.len()], bytes@[j]));
                }
            }
            assert(bytes@ =~= before + b@);
            assert(spec_slices(bufs@.take(i as int + 1)).drop_last() =~= spec_slices(
                bufs@.take(i as int),
            ));
            assert(spec_slices(bufs@.take(i as int + 1)).last() == b@);
        }
        i = i + 1;
    }
    proof {
        assert(bufs@.take(bufs@.len() as int) =~= bufs@);
    }
}

/// The contents of the byte slices of `bufs`.
pub open spec fn spec_slices(bufs: Seq<&[u8]>) -> Seq<Seq<u8>> {
    bufs.map_values(|b: &[u8]| b@)
}

/// `Arc::clone`: another pointer to the same value.
#[verifier::external_body]
fn clone_arc<T>(a: &Arc<T>) -> (r: Arc<T>)
    ensures
        r == *a,
{
    Arc::clone(a)
}

/// The invariant of the shared buffer: any bytes at all may wait in it.
pub struct AnyBytes;

impl RwLockPredicate<Vec<u8>> for AnyBytes {
    open spec fn inv(self, v: Vec<u8>) -> bool {
        true
    }
}

/// The buffer that every writer of a pipe appends to and that its reader
/// empties. Clones share one buffer.
///
/// Other threads may append to it or empty it between any two calls, so no
/// contract states what it holds then. Each call works in one critical
/// section and states it exactly: the bytes it found there and the bytes it
/// left. The lock hands the buffer from one section to the next, so in a run
/// of sections each finds what the one before left (`spec_chained`), and
/// `law_copy_after_appends` follows the bytes from the writers to the reader.
pub struct SharedState {
    inner: Arc<RwLock<Vec<u8>, AnyBytes>>,
}

impl SharedState {
    /// Whether `self` and `other` are handles on one and the same buffer.
    pub closed spec fn same_buffer(&self, other: &SharedState) -> bool {
        self.inner == other.inner
    }

    /// Handles on one buffer: being so is symmetric and transitive.
    pub proof fn lemma_same_buffer(a: &SharedState, b: &SharedState, c: &SharedState)
        ensures
            a.same_buffer(b) ==> b.same_buffer(a),
            a.same_buffer(b) && b.same_buffer(c) ==> a.same_buffer(c),
    {
    }

    /// A new, empty shared buffer.
    pub fn new() -> (s: Self) {
        SharedState { inner: Arc::new(RwLock::new(Vec::new(), Ghost(AnyBytes))) }
    }

    /// A second handle on the same buffer.
    pub fn share(&self) -> (s: Self)
        ensures
            s.same_buffer(self),
    {
        SharedState { inner: clone_arc(&self.inner) }
    }

    /// Appends all of `buf`, as one piece that no other write interleaves
    /// with, and returns how many bytes that was, with the critical section:
    /// the bytes it found in the shared buffer and the bytes it left there.
    pub fn write(&self, buf: &[u8]) -> (r: (usize, Ghost<(Seq<u8>, Seq<u8>)>))
        ensures
            r.0 == buf@.len(),
            r.1@.1 == r.1@.0 + buf@,
    {
        let (mut bytes, handle) = self.inner.acquire_write();
        let ghost found = bytes@;
        extend_bytes(&mut bytes, buf);
        let ghost left = bytes@;
        handle.release_write(bytes);
        (buf.len(), Ghost((found, left)))
    }

    /// Appends all of `buf`, as one piece that no other write interleaves
    /// with; returns the critical section: what it found and what it left.
    pub fn write_all(&self, buf: &[u8]) -> (r: Ghost<(Seq<u8>, Seq<u8>)>)
        ensures
            r@.1 == r@.0 + buf@,
    {
        let (mut bytes, handle) = self.inner.acquire_write();
        let ghost found = bytes@;
        extend_bytes(&mut bytes, buf);
        let ghost left = bytes@;
        handle.release_write(bytes);
        Ghost((found, left))
    }

    /// Nothing is held back on the way into the shared buffer, so flushing
    /// always succeeds.
    pub fn flush(&self) -> (r: Result<(), PipeError>)
        ensures
            r == Ok::<(), PipeError>(()),
    {
        Ok(())
    }

    /// Appends every buffer of `bufs` in order, as one piece, and returns the
    /// number of bytes appended, with the critical section: what it found in
    /// the shared buffer and what it left there.
    pub fn write_vectored(&self, bufs: &[&[u8]]) -> (r: (usize, Ghost<(Seq<u8>, Seq<u8>)>))
        requires
            spec_total_len(spec_slices(bufs@)) <= usize::MAX,
        ensures
            r.0 == spec_total_len(spec_slices(bufs@)),
            r.1@.1 == r.1@.0 + spec_concat(spec_slices(bufs@)),
    {
        let n: usize = total_len(bufs);
        let (mut bytes, handle) = self.inner.acquire_write();
        let ghost found = bytes@;
        bytes.reserve(n);
        extend_all(&mut bytes, bufs);
        let ghost left = bytes@;
        handle.release_write(bytes);
        (n, Ghost((found, left)))
    }

    /// Moves every byte that waits in the shared buffer to the back of `dst`,
    /// leaving the shared buffer empty, and returns how many bytes moved,
    /// with the critical section: the bytes it found in the shared buffer,
    /// which are the bytes moved, and what it left there, which is nothing.
    ///
    /// What `dst` held before stays in front, unchanged.
    pub fn copy_to(&self, dst: &mut ByteQueue) -> (r: (u64, Ghost<(Seq<u8>, Seq<u8>)>))
        ensures
            final(dst)@.len() == old(dst)@.len() + r.0,
            final(dst)@.subrange(0, old(dst)@.len() as int) == old(dst)@,
            final(dst)@ == old(dst)@ + r.1@.0,
            r.0 == r.1@.0.len(),
            r.1@.1 == Seq::<u8>::empty(),
    {
        let (bytes, handle) = self.inner.acquire_write();
        let ghost found = bytes@;
        let emptied: Vec<u8> = Vec::new();
        let ghost left = emptied@;
        handle.release_write(emptied);
        let n: usize = bytes.len();
        dst.append(bytes);
        assert(dst@.subrange(0, old(dst)@.len() as int) =~= old(dst)@);
        (n as u64, Ghost((found, left)))
    }
}

/// Whether each critical section of a run found in the shared buffer what
/// the one before it left: the order in which the lock hands the buffer on.
pub open spec fn spec_chained(sections: Seq<(Seq<u8>, Seq<u8>)>) -> bool {
    forall|i: int| 0 < i < sections.len() ==> #[trigger] sections[i].0 == sections[i - 1].1
}

/// Whether each critical section of a run appended the buffer of the same
/// index of `bufs` to what it found.
pub open spec fn spec_appends(sections: Seq<(Seq<u8>, Seq<u8>)>, bufs: Seq<Seq<u8>>) -> bool {
    &&& sections.len() == bufs.len()
    &&& forall|i: int| 0 <= i < sections.len() ==> #[trigger] sections[i].1 == sections[i].0 + bufs[i]
}

/// The bytes that the shared buffer holds at the end of a run of appends
/// that started from `start`: `start`, then the appended buffers in order.
pub proof fn law_appends_keep_order(
    start: Seq<u8>,
    sections: Seq<(Seq<u8>, Seq<u8>)>,
    bufs: Seq<Seq<u8>>,
)
    requires
        sections.len() > 0,
        sections[0].0 == start,
        spec_chained(sections),
        spec_appends(sections, bufs),
    ensures
        sections.last().1 == start + spec_concat(bufs),
    decreases sections.len(),
{
    if sections.len() == 1 {
        assert(bufs.drop_last() =~= Seq::<Seq<u8>>::empty());
        assert(spec_concat(bufs.drop_last()) == Seq::<u8>::empty());
        assert(spec_concat(bufs) =~= bufs[0]);
    } else {
        let s2 = sections.drop_last();
        let b2 = bufs.drop_last();
        assert(s2[0] == sections[0]);
        assert forall|i: int| 0 < i < s2.len() implies #[trigger] s2[i].0 == s2[i - 1].1 by {
            assert(sections[i].0 == sections[i - 1].1);
        }
        assert forall|i: int| 0 <= i < s2.len() implies #[trigger] s2[i].1 == s2[i].0 + b2[i] by {
            assert(sections[i].1 == sections[i].0 + bufs[i]);
        }
        law_appends_keep_order(start, s2, b2);
        let k = sections.len() - 1;
        assert(sections[k].0 == sections[k - 1].1);
        assert(sections[k].1 == sections[k].0 + bufs[k]);
        assert(start + spec_concat(bufs) =~= start + spec_concat(b2) + bufs.last());
    }
}

/// A copy that the lock hands the buffer to right after a run of appends
/// that started on an empty buffer moves exactly the appended buffers, in
/// order, and leaves nothing behind.
pub proof fn law_copy_after_appends(
    sections: Seq<(Seq<u8>, Seq<u8>)>,
    bufs: Seq<Seq<u8>>,
    copy: (Seq<u8>, Seq<u8>),
)
    requires
        sections.len() > 0,
        sections[0].0 == Seq::<u8>::empty(),
        spec_chained(sections),
        spec_appends(sections, bufs),
        copy.0 == sections.last().1,
    ensures
        copy.0 == spec_concat(bufs),
{
    law_appends_keep_order(Seq::<u8>::empty(), sections, bufs);
    assert(Seq::<u8>::empty() + spec_concat(bufs) =~= spec_concat(bufs));
}

/// Appends all of `buf` to `bytes`.
fn extend_bytes(bytes: &mut Vec<u8>, buf: &[u8])
    ensures
        final(bytes)@ == old(bytes)@ + buf@,
{
    let ghost before = bytes@;
    bytes.extend_from_slice(buf);
    proof {
        assert forall|j: int| 0 <= j < bytes@.len() implies bytes@[j] == (before + buf@)[j] by {
            if j >= before.len() {
                assert(cloned::<u8>(buf@[j - before.len()], bytes@[j]));
            }
        }
        assert(bytes@ =~= before + buf@);
    }
}

/// Adds up the lengths of the buffers of `bufs`.
pub fn total_len(bufs: &[&[u8]]) -> (n: usize)
    requires
        spec_total_len(spec_slices(bufs@)) <= usize::MAX,
    ensures
        n == spec_total_len(spec_slices(bufs@)),
{
    let mut n: usize = 0;
    let mut i: usize = 0;
    while i < bufs.len()
        invariant
            i <= bufs@.len(),
            spec_total_len(spec_slices(bufs@)) <= usize::MAX,
            n == spec_total_len(spec_slices(bufs@.take(i as int))),
        decreases bufs@.len() - i,
    {
        proof {
            lemma_total_len_prefix(spec_slices(bufs@), i as int + 1);
            assert(spec_slices(bufs@.take(i as int + 1)) =~= spec_slices(bufs@).take(i as int + 1));
            assert(spec_slices(bufs@.take(i as int)) =~= spec_slices(bufs@).take(i as int));
            assert(spec_slices(bufs@).take(i as int + 1).drop_last() =~= spec_slices(bufs@).take(
                i as int,
            ));
        }
        n = n + bufs[i].len();
        i = i + 1;
    }
    proof {
        assert(bufs@.take(bufs@.len() as int) =~= bufs@);
    }
    n
}

/// A prefix of a list of buffers holds no more bytes than the whole list.
proof fn lemma_total_len_prefix(bufs: Seq<Seq<u8>>, k: int)
    requires
        0 <= k <= bufs.len(),
    ensures
        spec_total_len(bufs.take(k)) <= spec_total_len(bufs),
    decreases bufs.len(),
{
    if k < bufs.len() {
        assert(bufs.drop_last().take(k) =~= bufs.take(k));
        lemma_total_len_prefix(bufs.drop_last(), k);
    } else {
        assert(bufs.take(k) =~= bufs);
    }
}

} // verus!
