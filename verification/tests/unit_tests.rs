use ibuf::Cursor;
use ibuf::MBuf;
use ibuf::MPool;
use std::sync::atomic::AtomicUsize;
use std::sync::atomic::Ordering;

#[test]
fn test_mbuf_basic() {
    let mut buf = MBuf::with_capacity(1024);
    assert_eq!(buf.len(), 0);
    assert_eq!(buf.capacity(), 1024);

    let data = b"hello world";
    let copied = buf.append(data);
    assert_eq!(copied, data.len());
    assert_eq!(buf.len(), data.len());

    let slice: &[u8] = &buf;
    assert_eq!(slice, data);
}

#[test]
fn test_cursor() {
    let mut buf = MBuf::with_capacity(1024);
    let data = b"hello world";
    buf.append(data);

    let mut cursor = Cursor::new(&buf);
    assert_eq!(cursor.next(), Some(b'h'));
    assert_eq!(cursor.next_slice(4), Some(b"ello".as_ref()));
    assert_eq!(cursor.position(), 5);

    cursor.reset();
    assert_eq!(cursor.position(), 0);
    assert_eq!(cursor.next_slice(data.len()), Some(data.as_ref()));
}

#[test]
fn test_read() {
    let mut buf = MBuf::with_capacity(1024);
    let data = b"test data";
    buf.append(data);

    let mut read_buf = [0u8; 9];
    let read_len = buf.read(&mut read_buf);
    assert_eq!(read_len, data.len());
    assert_eq!(&read_buf, data);
    assert_eq!(buf.len(), 0);
}

#[test]
fn test_write() {
    let mut buf = MBuf::with_capacity(1024);
    let data = b"write test";

    let written = buf.write(data);
    assert_eq!(written, data.len());
    assert_eq!(buf.len(), data.len());
    assert_eq!(&*buf, data);
}

#[test]
fn test_fetch_sub() {
    let mm = AtomicUsize::new(1);
    let q = mm.fetch_sub(1, Ordering::Relaxed);
    println!("q: {}", q);
    let q = mm.fetch_sub(1, Ordering::Relaxed);
    println!("q: {}", q);
}

#[test]
fn test_mbuf_pool() {
    let mut pool = MPool::new(2, 1024);
    assert_eq!(pool.free_count(), 2);
    assert_eq!(pool.allocated_count(), 0);

    let buf1 = pool.acquire();
    assert_eq!(pool.free_count(), 1);
    assert_eq!(pool.allocated_count(), 1);

    let buf2 = pool.acquire();
    assert_eq!(pool.free_count(), 0);
    assert_eq!(pool.allocated_count(), 2);

    pool.free(buf1);
    assert_eq!(pool.free_count(), 1);
    assert_eq!(pool.allocated_count(), 1);

    pool.free(buf2);
    assert_eq!(pool.free_count(), 2);
    assert_eq!(pool.allocated_count(), 0);
}
