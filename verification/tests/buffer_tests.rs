use chrdev::buffer::Buffer;

#[test]
fn fresh_buffer_is_empty() {
    let b = Buffer::new(16);
    assert_eq!(b.capacity(), 16);
    assert_eq!(b.head(), 0);
    assert_eq!(b.tail(), 0);
    assert_eq!(b.available(), 0);
    assert_eq!(b.unread(), Vec::<u8>::new());
}

#[test]
fn write_returns_input_length_and_advances_tail() {
    let mut b = Buffer::new(4096);
    let r = b.write(b"hello");
    assert_eq!(r, 5);
    assert_eq!(b.tail(), 5);
    assert_eq!(b.head(), 0);
    assert_eq!(b.available(), 5);
}

#[test]
fn write_empty_input_is_a_no_op() {
    let mut b = Buffer::new(8);
    b.write(b"ab");
    let r = b.write(b"");
    assert_eq!(r, 0);
    assert_eq!(b.tail(), 2);
    assert_eq!(b.head(), 0);
    assert_eq!(b.unread(), b"ab".to_vec());
}

#[test]
fn write_at_capacity_reports_length_but_copies_nothing() {
    let mut b = Buffer::new(4);
    assert_eq!(b.write(b"wxyz"), 4);
    assert_eq!(b.tail(), 4);
    let r = b.write(b"abc");
    assert_eq!(r, 3);
    assert_eq!(b.tail(), 4);
    assert_eq!(b.read(), b"wxyz".to_vec());
}

#[test]
fn read_on_virgin_buffer_returns_nothing() {
    let mut b = Buffer::new(32);
    let out = b.read();
    assert_eq!(out.len(), 0);
    assert_eq!(b.head(), 0);
    assert_eq!(b.tail(), 0);
}

#[test]
fn read_after_drain_resets_cursors() {
    let mut b = Buffer::new(32);
    b.write(b"data");
    let first = b.read();
    assert_eq!(first, b"data".to_vec());
    assert_eq!(b.head(), 4);
    assert_eq!(b.tail(), 4);
    let second = b.read();
    assert_eq!(second.len(), 0);
    assert_eq!(b.head(), 0);
    assert_eq!(b.tail(), 0);
}

#[test]
fn hello_scenario() {
    let mut b = Buffer::new(4096);
    assert_eq!(b.write(b"hello"), 5);
    assert_eq!(b.tail(), 5);
    let out = b.read();
    assert_eq!(out, b"hello".to_vec());
    assert_eq!(out.len(), 5);
    assert_eq!(b.head(), 5);
    let again = b.read();
    assert_eq!(again.len(), 0);
    assert_eq!(b.head(), 0);
    assert_eq!(b.tail(), 0);
    assert_eq!(b.write(b"abc"), 3);
    assert_eq!(b.tail(), 3);
    assert_eq!(b.unread(), b"abc".to_vec());
}

#[test]
fn truncation_scenario() {
    let mut b = Buffer::new(10);
    assert_eq!(b.write(b"12345678"), 8);
    assert_eq!(b.tail(), 8);
    let r = b.write(b"abcde");
    assert_eq!(r, 5);
    assert_eq!(b.tail(), 10);
    assert_eq!(b.read(), b"12345678ab".to_vec());
}

#[test]
fn writes_concatenate_in_order() {
    let mut b = Buffer::new(64);
    let r1 = b.write(b"ab");
    let r2 = b.write(b"");
    let r3 = b.write(b"cde");
    let out = b.read();
    assert_eq!(out, b"abcde".to_vec());
    assert_eq!(out.len(), r1 + r2 + r3);
}

#[test]
fn unread_does_not_advance_cursors() {
    let mut b = Buffer::new(16);
    b.write(b"keep");
    let peek1 = b.unread();
    let peek2 = b.unread();
    assert_eq!(peek1, b"keep".to_vec());
    assert_eq!(peek2, b"keep".to_vec());
    assert_eq!(b.head(), 0);
    assert_eq!(b.tail(), 4);
    let n = b.commit_read();
    assert_eq!(n, 4);
    assert_eq!(b.head(), 4);
    assert_eq!(b.tail(), 4);
    assert_eq!(b.unread(), Vec::<u8>::new());
}

#[test]
fn commit_read_on_empty_buffer_resets() {
    let mut b = Buffer::new(16);
    b.write(b"gone");
    b.commit_read();
    let n = b.commit_read();
    assert_eq!(n, 0);
    assert_eq!(b.head(), 0);
    assert_eq!(b.tail(), 0);
}

#[test]
fn storage_is_reused_after_reset() {
    let mut b = Buffer::new(6);
    b.write(b"aaaaaa");
    assert_eq!(b.read(), b"aaaaaa".to_vec());
    assert_eq!(b.read().len(), 0);
    assert_eq!(b.write(b"bb"), 2);
    assert_eq!(b.tail(), 2);
    assert_eq!(b.read(), b"bb".to_vec());
}

#[test]
fn zero_capacity_buffer_accepts_and_drops_everything() {
    let mut b = Buffer::new(0);
    assert_eq!(b.write(b"xyz"), 3);
    assert_eq!(b.tail(), 0);
    assert_eq!(b.read().len(), 0);
}
