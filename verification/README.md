# io_pipe

A multi-writer, single-reader byte pipe, verified with Verus.

Writers append to a buffer shared behind a lock (vstd's verified `RwLock`)
and signal the reader over a `loole` channel; the reader moves what is shared
into its own queue and hands the bytes out front first.

- `src/queue.rs`: the reader's byte queue and its laws (first in, first
  out; a read neither loses nor repeats bytes). These hold of the bytes a
  reader has taken in; the shared buffer has no view, since other threads
  change it at any moment.
- `src/state.rs`: the shared buffer and vectored writes.
- `src/signal.rs`: the signal channel, behind trusted wrappers of `loole`.
- `src/sync_pipe.rs`, `src/async_pipe.rs`: the writing and reading ends;
  their contracts state which writers feed which reader (one channel, one
  shared buffer), and that clones and reads keep those links.
- `app/`: the `std::io` and `futures-io` trait impls, and the waiting loops
  of the readers, which can block without bound.
