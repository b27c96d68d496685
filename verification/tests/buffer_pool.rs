//! Buffers and their pool.

use filecopier::buffer_pool::{Buffer, BufferPool};

#[test]
fn test_pool_creation() {
    let pool = BufferPool::new(1024, 5);
    assert_eq!(pool.capacity(), 5);
    assert_eq!(pool.available_count(), 5);
}

#[test]
fn test_acquire_release() {
    let mut pool = BufferPool::new(1024, 3);
    let mut buf1 = pool.acquire();
    assert_eq!(pool.available_count(), 2);
    buf1.as_mut_slice()[0] = 42;
    assert_eq!(buf1.as_slice()[0], 42);
    pool.release(buf1);
    assert_eq!(pool.available_count(), 3);
    for _ in 0..3 {
        let buf2 = pool.acquire();
        assert_eq!(buf2.as_slice()[0], 0);
        assert_eq!(buf2.len(), 1024);
    }
}

#[test]
fn test_try_acquire() {
    let mut pool = BufferPool::new(1024, 2);
    let _buf1 = pool.acquire();
    let _buf2 = pool.acquire();
    assert!(pool.try_acquire().is_none());
}

#[test]
fn test_buffer_operations() {
    let mut buffer = Buffer::with_capacity(100);
    assert_eq!(buffer.len(), 0);
    assert!(buffer.is_empty());
    assert_eq!(buffer.capacity(), 100);
    buffer.set_len(50);
    assert_eq!(buffer.len(), 50);
    assert!(!buffer.is_empty());
    buffer.clear();
    assert_eq!(buffer.len(), 0);
    assert!(buffer.is_empty());
}

#[test]
fn buffer_pool_raii_no_leaks() {
    let mut pool = BufferPool::new(64 * 1024, 6);
    assert_eq!(pool.available(), 6);
    let b1 = pool.acquire();
    let b2 = pool.acquire();
    assert_eq!(pool.available(), 4);
    pool.release(b1);
    pool.release(b2);
    assert_eq!(pool.available(), 6);
}

#[test]
fn a_full_pool_drops_what_it_cannot_hold() {
    let mut pool = BufferPool::new(8, 2);
    pool.release(Buffer::with_capacity(8));
    assert_eq!(pool.available_count(), 2);
    let mut empty = BufferPool::new(8, 0);
    assert!(empty.try_acquire().is_none());
    empty.release(Buffer::with_capacity(8));
    assert_eq!(empty.available_count(), 0);
}

#[test]
fn set_len_keeps_the_front_and_zeroes_the_rest() {
    let mut buffer = Buffer::with_capacity(4);
    buffer.set_len(2);
    buffer.as_mut_slice()[1] = 9;
    buffer.set_len(4);
    assert_eq!(buffer.as_slice(), &[0, 9, 0, 0]);
    buffer.set_len(1);
    buffer.set_len(2);
    assert_eq!(buffer.into_vec(), vec![0, 0]);
}
