use io_pipe::ByteQueue;

#[test]
fn queue_reads_bytes_in_the_order_they_were_written() {
    let mut q = ByteQueue::new();
    assert!(q.is_empty());
    assert_eq!(3, q.write(b"abc"));
    assert_eq!(2, q.write(b"de"));
    assert_eq!(5, q.len());
    assert_eq!(b"abcde", q.as_slice());

    let mut out = [0u8; 3];
    assert_eq!(3, q.read(&mut out));
    assert_eq!(b"abc", &out);
    assert_eq!(b"de", q.as_slice());
}

#[test]
fn queue_read_keeps_every_byte() {
    let mut q = ByteQueue::new();
    q.write(b"hello");
    let mut out = [b'*'; 2];
    assert_eq!(2, q.read(&mut out));
    let mut rest = out.to_vec();
    rest.extend_from_slice(q.as_slice());
    assert_eq!(b"hello".to_vec(), rest);
}

#[test]
fn queue_read_takes_everything_when_there_is_room() {
    let mut q = ByteQueue::new();
    q.write(b"xy");
    let mut out = [b'*'; 5];
    assert_eq!(2, q.read(&mut out));
    assert_eq!(b"xy***", &out);
    assert!(q.is_empty());
    assert_eq!(0, q.read(&mut out));
}

#[test]
fn queue_consume_adds_up() {
    let mut a = ByteQueue::new();
    a.write(b"0123456789");
    a.consume(3);
    a.consume(4);
    let mut b = ByteQueue::new();
    b.write(b"0123456789");
    b.consume(7);
    assert_eq!(a.as_slice(), b.as_slice());
    assert_eq!(b"789", a.as_slice());
    a.consume(3);
    assert!(a.is_empty());
}

#[test]
fn queue_append_puts_bytes_behind_the_queued_ones() {
    let mut q = ByteQueue::new();
    q.append(b"ab".to_vec());
    q.append(b"cd".to_vec());
    q.consume(1);
    q.append(b"ef".to_vec());
    assert_eq!(b"bcdef", q.as_slice());
}
