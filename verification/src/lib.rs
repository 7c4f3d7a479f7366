//! A multi-writer, single-reader byte pipe.
//!
//! Writers append bytes to a buffer shared behind a lock and then ring a
//! signal channel; the reader moves whatever is shared into a private
//! buffer, hands it out front first, and learns from the channel when new
//! bytes may be waiting or when every writer is gone.
//!
//! - [`queue`]: the reader's byte queue, with its laws.
//! - [`state`]: the locked buffer that all writers share with the reader.
//! - [`signal`]: the notification channel between writers and reader.
//! - [`sync_pipe`]: [`pipe`], [`Writer`] and [`Reader`].
//! - [`async_pipe`]: [`async_pipe`], [`AsyncWriter`] and [`AsyncReader`].
pub mod async_pipe;
pub mod queue;
pub mod signal;
pub mod state;
pub mod sync_pipe;

pub use async_pipe::{
    async_pipe, async_reader_pipe, async_writer_pipe, AsyncReader, AsyncWriter, SendPoll, WritePoll,
};
pub use queue::ByteQueue;
pub use signal::{PipeError, TrySignal};
pub use sync_pipe::{pipe, Reader, Writer};
