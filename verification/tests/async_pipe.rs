use std::task::Waker;

use io_pipe::{async_pipe, async_reader_pipe, async_writer_pipe, AsyncReader, AsyncWriter, PipeError, WritePoll};

fn write_all(writer: &mut AsyncWriter, buf: &[u8]) -> Result<(), PipeError> {
    match writer.poll_write(Waker::noop(), buf) {
        WritePoll::Ready(Ok(_)) => Ok(()),
        WritePoll::Ready(Err(e)) => Err(e),
        WritePoll::Pending => panic!("an unbounded pipe never parks a writer"),
    }
}

/// Fills the reader's buffer, waiting for a signal where none is buffered;
/// `false` at the end of the stream.
fn fill(reader: &mut AsyncReader) -> bool {
    while !reader.fill_step() {
        if reader.signals().recv().is_err() {
            reader.finish_fill();
            return !reader.buffered().is_empty();
        }
    }
    true
}

fn read_to_string(reader: &mut AsyncReader) -> String {
    let mut out = Vec::new();
    while fill(reader) {
        let chunk = reader.buffered().to_vec();
        reader.consume(chunk.len());
        out.extend(chunk);
    }
    String::from_utf8(out).unwrap()
}

fn read_line(reader: &mut AsyncReader, line: &mut String) -> usize {
    let mut taken = Vec::new();
    while fill(reader) {
        let buffered = reader.buffered();
        match buffered.iter().position(|b| *b == b'\n') {
            Some(i) => {
                taken.extend_from_slice(&buffered[..=i]);
                reader.consume(i + 1);
                break;
            }
            None => {
                let n = buffered.len();
                taken.extend_from_slice(buffered);
                reader.consume(n);
            }
        }
    }
    line.push_str(std::str::from_utf8(&taken).unwrap());
    taken.len()
}

#[test]
fn async_pipe_base_write_case() {
    // Checking non-blocking buffer inside writer
    let (mut writer, reader) = async_pipe();
    for _ in 0..1000 {
        write_all(&mut writer, "hello".as_bytes()).unwrap();
    }
    drop(reader)
}

#[test]
fn async_pipe_base_read_case() {
    let (mut writer, mut reader) = async_pipe();

    write_all(&mut writer, "hello ".as_bytes()).unwrap();
    write_all(&mut writer, "world".as_bytes()).unwrap();
    drop(writer);

    let str = read_to_string(&mut reader);

    assert_eq!("hello world".to_string(), str);
}

#[test]
fn async_pipe_base_vectored_case() {
    let (mut writer, mut reader) = async_pipe();
    let _ = writer.poll_write_vectored(Waker::noop(), &["hello ".as_bytes(), "world".as_bytes()]);
    drop(writer);

    let str = read_to_string(&mut reader);

    assert_eq!("hello world".to_string(), str);
}

#[test]
fn async_pipe_writer_err_case() {
    let (mut writer, reader) = async_pipe();
    drop(reader);

    assert!(write_all(&mut writer, "hello".as_bytes()).is_err());
}

#[test]
fn async_pipe_bufread_case() {
    let (mut writer, mut reader) = async_pipe();
    write_all(&mut writer, "hello\n".as_bytes()).unwrap();
    write_all(&mut writer, "world".as_bytes()).unwrap();
    drop(writer);

    let mut str = String::new();
    assert_ne!(0, read_line(&mut reader, &mut str));
    assert_eq!("hello\n".to_string(), str);

    let mut str = String::new();
    assert_ne!(0, read_line(&mut reader, &mut str));
    assert_eq!("world".to_string(), str);

    let mut str = String::new();
    assert_eq!(0, read_line(&mut reader, &mut str));
}

#[test]
fn async_pipe_bufread_lines_case() {
    let (mut writer, mut reader) = async_pipe();
    write_all(&mut writer, "hello\n".as_bytes()).unwrap();
    write_all(&mut writer, "world".as_bytes()).unwrap();
    drop(writer);

    let mut count = 0;
    loop {
        let mut line = String::new();
        if read_line(&mut reader, &mut line) == 0 {
            break;
        }
        count += 1;
    }
    assert_eq!(2, count)
}

#[test]
fn poll_write_is_ready_with_the_length_written() {
    let (mut writer, _reader) = async_pipe();
    assert_eq!(WritePoll::Ready(Ok(5)), writer.poll_write(Waker::noop(), b"hello"));
    assert_eq!(
        WritePoll::Ready(Ok(11)),
        writer.poll_write_vectored(Waker::noop(), &[&b"hello "[..], &b""[..], &b"world"[..]])
    );
    assert_eq!(Ok(()), writer.poll_flush());
}

#[test]
fn poll_write_after_reader_dropped_is_ready_with_disconnected() {
    let (mut writer, reader) = async_pipe();
    drop(reader);
    assert_eq!(
        WritePoll::Ready(Err(PipeError::Disconnected)),
        writer.poll_write(Waker::noop(), b"hello")
    );
}

#[test]
fn poll_close_ends_the_stream_for_every_writer() {
    let (mut writer, mut reader) = async_pipe();
    let mut other = writer.clone();
    write_all(&mut writer, b"before").unwrap();
    assert_eq!(Ok(()), writer.poll_close());
    assert_eq!(Err(PipeError::Disconnected), write_all(&mut other, b"after"));
    assert_eq!("beforeafter", read_to_string(&mut reader));
}

#[test]
fn sync_writer_feeds_async_reader() {
    let (mut writer, mut reader) = async_reader_pipe();
    writer.write_all(b"hello").unwrap();
    drop(writer);
    assert_eq!("hello", read_to_string(&mut reader));
}

#[test]
fn async_writer_feeds_sync_reader() {
    let (mut writer, mut reader) = async_writer_pipe();
    write_all(&mut writer, b"hello").unwrap();
    drop(writer);
    let mut out = Vec::new();
    loop {
        while !reader.fill_step() {
            if !reader.wait_signal() {
                break;
            }
        }
        let chunk = reader.buffered().to_vec();
        if chunk.is_empty() {
            break;
        }
        reader.consume(chunk.len());
        out.extend(chunk);
    }
    assert_eq!(b"hello".to_vec(), out);
}

#[test]
fn async_read_buffered_copies_what_fits() {
    let (mut writer, mut reader) = async_pipe();
    write_all(&mut writer, b"abcdef").unwrap();
    assert!(reader.fill_step());
    let mut out = [0u8; 4];
    assert_eq!(4, reader.read_buffered(&mut out));
    assert_eq!(b"abcd", &out);
    assert_eq!(b"ef", reader.buffered());
}
