use io_pipe::{pipe, PipeError, Reader};

/// Fills the reader's buffer, waiting for writers as the reader would;
/// `false` at the end of the stream.
fn fill(reader: &mut Reader) -> bool {
    while !reader.fill_step() {
        if !reader.wait_signal() {
            return false;
        }
    }
    true
}

fn read_to_end(reader: &mut Reader) -> Vec<u8> {
    let mut out = Vec::new();
    while fill(reader) {
        let chunk = reader.buffered().to_vec();
        reader.consume(chunk.len());
        out.extend(chunk);
    }
    out
}

fn read_to_string(mut reader: Reader) -> String {
    String::from_utf8(read_to_end(&mut reader)).unwrap()
}

/// Reads up to and including the next newline into `line`; returns the
/// number of bytes read, 0 at the end of the stream.
fn read_line(reader: &mut Reader, line: &mut String) -> usize {
    let mut taken = Vec::new();
    while fill(reader) {
        let buffered = reader.buffered();
        match buffered.iter().position(|b| *b == b'\n') {
            Some(i) => {
                taken.extend_from_slice(&buffered[..=i]);
                reader.consume(i + 1);
                break;
            }
            None => {
                let n = buffered.len();
                taken.extend_from_slice(buffered);
                reader.consume(n);
            }
        }
    }
    line.push_str(std::str::from_utf8(&taken).unwrap());
    taken.len()
}

fn count_lines(mut reader: Reader) -> usize {
    let mut count = 0;
    loop {
        let mut line = String::new();
        if read_line(&mut reader, &mut line) == 0 {
            return count;
        }
        count += 1;
    }
}

#[test]
fn sync_pipe_base_write_case() {
    // Checking non-blocking buffer inside writer
    let (mut writer, reader) = pipe();
    for _ in 0..1000 {
        writer.write_all("hello".as_bytes()).unwrap();
    }
    drop(reader)
}

#[test]
fn sync_pipe_base_read_case() {
    let (mut writer, reader) = pipe();
    writer.write_all("hello ".as_bytes()).unwrap();
    writer.write_all("world".as_bytes()).unwrap();
    drop(writer);

    assert_eq!("hello world".to_string(), read_to_string(reader));
}

#[test]
fn sync_pipe_base_vectored_case() {
    let (mut writer, reader) = pipe();
    let _ = writer
        .write_vectored(&["hello ".as_bytes(), "world".as_bytes()])
        .unwrap();
    drop(writer);

    assert_eq!("hello world".to_string(), read_to_string(reader));
}

#[test]
fn sync_pipe_writer_err_case() {
    let (mut writer, reader) = pipe();
    drop(reader);

    assert!(writer.write("hello".as_bytes()).is_err());
}

#[test]
fn sync_pipe_bufread_case() {
    let (mut writer, mut reader) = pipe();
    writer.write_all("hello\n".as_bytes()).unwrap();
    writer.write_all("world".as_bytes()).unwrap();
    drop(writer);

    let mut str = String::new();
    assert_ne!(0, read_line(&mut reader, &mut str));
    assert_eq!("hello\n".to_string(), str);

    let mut str = String::new();
    assert_ne!(0, read_line(&mut reader, &mut str));
    assert_eq!("world".to_string(), str);

    let mut str = String::new();
    assert_eq!(0, read_line(&mut reader, &mut str));
}

#[test]
fn sync_pipe_bufread_lines_case() {
    let (mut writer, reader) = pipe();
    writer.write_all("hello\n".as_bytes()).unwrap();
    writer.write_all("world".as_bytes()).unwrap();
    drop(writer);

    assert_eq!(2, count_lines(reader))
}

#[test]
fn write_returns_the_length_written() {
    let (mut writer, _reader) = pipe();
    assert_eq!(Ok(5), writer.write(b"hello"));
    assert_eq!(Ok(0), writer.write(b""));
    assert_eq!(Ok(11), writer.write_vectored(&[&b"hello "[..], &b""[..], &b"world"[..]]));
    assert_eq!(Ok(()), writer.flush());
}

#[test]
fn write_after_reader_dropped_is_disconnected() {
    let (mut writer, reader) = pipe();
    drop(reader);
    assert_eq!(Err(PipeError::Disconnected), writer.write(b"hello"));
    assert_eq!(Err(PipeError::Disconnected), writer.write_all(b"hello"));
    assert_eq!(Err(PipeError::Disconnected), writer.write_vectored(&[&b"a"[..], &b"b"[..]]));
    assert_eq!(Ok(()), writer.flush());
}

#[test]
fn cloned_writers_feed_one_reader_until_all_are_dropped() {
    let (mut first, reader) = pipe();
    let mut second = first.clone();
    first.write_all(b"ab").unwrap();
    second.write_all(b"cd").unwrap();
    drop(first);
    second.write_all(b"ef").unwrap();
    drop(second);
    assert_eq!("abcdef", read_to_string(reader));
}

#[test]
fn read_buffered_copies_what_fits_and_keeps_the_rest() {
    let (mut writer, mut reader) = pipe();
    writer.write_all(b"hello world").unwrap();
    assert!(reader.fill_step());
    assert_eq!(b"hello world", reader.buffered());

    let mut out = [b'-'; 4];
    assert_eq!(4, reader.read_buffered(&mut out));
    assert_eq!(b"hell", &out);
    assert_eq!(b"o world", reader.buffered());

    let mut out = [b'-'; 10];
    assert_eq!(7, reader.read_buffered(&mut out));
    assert_eq!(b"o world---", &out);
    assert_eq!(b"", reader.buffered());

    let mut empty: [u8; 0] = [];
    writer.write_all(b"x").unwrap();
    assert!(reader.fill_step());
    assert_eq!(0, reader.read_buffered(&mut empty));
    assert_eq!(b"x", reader.buffered());
}

#[test]
fn fill_step_keeps_buffered_bytes_until_consumed() {
    let (mut writer, mut reader) = pipe();
    assert!(!reader.fill_step());
    writer.write_all(b"abc").unwrap();
    assert!(reader.fill_step());
    writer.write_all(b"def").unwrap();
    // Bytes are already buffered: nothing is taken from the shared buffer.
    assert!(reader.fill_step());
    assert_eq!(b"abc", reader.buffered());
    reader.consume(3);
    assert!(reader.fill_step());
    assert_eq!(b"def", reader.buffered());
    reader.consume(1);
    reader.consume(2);
    assert!(!reader.fill_step());
}

#[test]
fn reader_sees_end_of_stream_only_after_the_writers_signals() {
    let (mut writer, mut reader) = pipe();
    writer.write_all(b"a").unwrap();
    drop(writer);
    // The signal of the write is still waiting in the channel.
    assert!(reader.wait_signal());
    assert!(reader.fill_step());
    reader.consume(1);
    assert!(!reader.fill_step());
    assert!(!reader.wait_signal());
}
