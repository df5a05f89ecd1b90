use ibuf::Cursor;
use ibuf::MBuf;
use ibuf::MPool;

#[test]
fn test_mbuf_basic_operations() {
    let mut buf = MBuf::with_capacity(1024);
    assert_eq!(buf.len(), 0);
    assert_eq!(buf.capacity(), 1024);

    // Test append
    let data = b"hello world";
    let copied = buf.append(data);
    assert_eq!(copied, data.len());
    assert_eq!(buf.len(), data.len());

    // Test deref
    let slice: &[u8] = &buf;
    assert_eq!(slice, data);

    // Test clone
    let buf2 = buf.clone();
    assert_eq!(buf2.len(), data.len());
    assert_eq!(&*buf2, data);
}

#[test]
fn test_mbuf_resize() {
    let mut buf = MBuf::with_capacity(10);
    let data = b"this is a long string that will trigger resize";

    let copied = buf.append(data);
    assert_eq!(copied, data.len());
    assert!(buf.capacity() >= data.len());
    assert_eq!(&*buf, data);
}

#[test]
fn test_mbuf_read_write() {
    let mut buf = MBuf::with_capacity(1024);

    // Test write
    let data = b"test data";
    let written = buf.write(data);
    assert_eq!(written, data.len());
    assert_eq!(buf.len(), data.len());

    // Test read
    let mut read_buf = [0u8; 9];
    let read_len = buf.read(&mut read_buf);
    assert_eq!(read_len, data.len());
    assert_eq!(&read_buf, data);
    assert_eq!(buf.len(), 0);
}

#[test]
fn test_cursor_operations() {
    let mut buf = MBuf::with_capacity(1024);
    let data = b"cursor test data";
    buf.append(data);

    let mut cursor = Cursor::new(&buf);

    // Test next
    assert_eq!(cursor.next(), Some(b'c'));
    assert_eq!(cursor.position(), 1);

    // Test next_slice
    assert_eq!(cursor.next_slice(6), Some(b"ursor ".as_ref()));
    assert_eq!(cursor.position(), 7);

    // Test reset
    cursor.reset();
    assert_eq!(cursor.position(), 0);
    assert_eq!(cursor.next_slice(data.len()), Some(data.as_ref()));
}

#[test]
fn test_mpool_basic() {
    let mut pool = MPool::new(2, 1024);
    assert_eq!(pool.free_count(), 2);
    assert_eq!(pool.allocated_count(), 0);

    let buf1 = pool.acquire();
    assert_eq!(pool.free_count(), 1);
    assert_eq!(pool.allocated_count(), 1);

    let buf2 = pool.acquire();
    assert_eq!(pool.free_count(), 0);
    assert_eq!(pool.allocated_count(), 2);

    pool.free(buf1);
    assert_eq!(pool.free_count(), 1);
    assert_eq!(pool.allocated_count(), 1);

    pool.free(buf2);
    assert_eq!(pool.free_count(), 2);
    assert_eq!(pool.allocated_count(), 0);
}

#[test]
fn test_edge_cases() {
    // Test empty buffer
    let mut buf = MBuf::with_capacity(0);
    assert_eq!(buf.len(), 0);
    assert_eq!(buf.capacity(), 0);

    // Test append to empty buffer
    let data = b"test";
    let copied = buf.append(data);
    assert_eq!(copied, data.len());
    assert!(buf.capacity() >= data.len());

    // Test read from empty buffer
    let mut read_buf = [0u8; 4];
    let read_len = buf.read(&mut read_buf);
    assert_eq!(read_len, data.len());
    assert_eq!(&read_buf, data);

    // Test cursor at end
    let mut cursor = Cursor::new(&buf);
    assert_eq!(cursor.next(), None);
    assert_eq!(cursor.next_slice(1), None);
}
