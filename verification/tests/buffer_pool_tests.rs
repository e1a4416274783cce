use qltp_transport::buffer_pool::{BufferPool, PoolError, DEFAULT_BUFFER_SIZE, DEFAULT_INITIAL_BUFFERS};

#[test]
fn test_buffer_pool_creation() {
    let pool = BufferPool::new();
    let stats = pool.stats();
    assert_eq!(stats.total_allocated, DEFAULT_INITIAL_BUFFERS);
    assert_eq!(stats.in_use, 0);
}

#[test]
fn test_buffer_acquisition() {
    let mut pool = BufferPool::new();
    let buffer = pool.acquire().unwrap();
    assert_eq!(buffer.len(), DEFAULT_BUFFER_SIZE);
    let stats = pool.stats();
    assert_eq!(stats.in_use, 1);
    assert_eq!(stats.total_acquisitions, 1);
}

#[test]
fn test_buffer_release() {
    let mut pool = BufferPool::new();
    {
        let buffer = pool.acquire().unwrap();
        let stats = pool.stats();
        assert_eq!(stats.in_use, 1);
        pool.release(buffer);
    }
    let stats = pool.stats();
    assert_eq!(stats.in_use, 0);
    assert_eq!(stats.total_releases, 1);
}

#[test]
fn test_buffer_reuse() {
    let mut pool = BufferPool::new();
    {
        let buffer = pool.acquire().unwrap();
        pool.release(buffer);
    }
    let _buffer = pool.acquire().unwrap();
    let stats = pool.stats();
    assert_eq!(stats.total_allocated, DEFAULT_INITIAL_BUFFERS);
    assert_eq!(stats.total_acquisitions, 2);
}

#[test]
fn test_pool_growth() {
    let mut pool = BufferPool::with_config(1024, 2, 10);
    let _b1 = pool.acquire().unwrap();
    let _b2 = pool.acquire().unwrap();
    let _b3 = pool.acquire().unwrap();
    let stats = pool.stats();
    assert_eq!(stats.total_allocated, 3);
    assert_eq!(stats.in_use, 3);
}

#[test]
fn test_pool_exhaustion() {
    let mut pool = BufferPool::with_config(1024, 2, 2);
    let _b1 = pool.acquire().unwrap();
    let _b2 = pool.acquire().unwrap();
    let result = pool.acquire();
    assert!(result.is_err());
    let stats = pool.stats();
    assert_eq!(stats.failed_acquisitions, 1);
}

#[test]
fn test_buffer_handle_operations() {
    let mut pool = BufferPool::new();
    let mut buffer = pool.acquire().unwrap();
    buffer.clear();
    assert_eq!(buffer.len(), 0);
    buffer.resize(100, 42);
    assert_eq!(buffer.len(), 100);
    assert_eq!(buffer.as_ref()[0], 42);
}

#[test]
fn released_buffer_comes_back_zeroed_and_full_size() {
    let mut pool = BufferPool::with_config(16, 1, 1);
    let mut b = pool.acquire().unwrap();
    b.as_mut()[3] = 9;
    b.resize(4, 1);
    assert!(!b.is_empty());
    pool.release(b);
    let again = pool.acquire().unwrap();
    assert_eq!(again.as_ref(), &vec![0u8; 16]);
    assert_eq!(pool.buffer_size(), 16);
}

#[test]
fn acquire_release_balance() {
    let mut pool = BufferPool::with_config(8, 0, 3);
    let a = pool.acquire().unwrap();
    let b = pool.acquire().unwrap();
    let c = pool.acquire().unwrap();
    assert!(matches!(pool.acquire(), Err(PoolError::Exhausted)));
    pool.release(b);
    pool.release(a);
    pool.release(c);
    let s = pool.stats();
    assert_eq!(s.total_allocated, 3);
    assert_eq!(s.in_use, 0);
    assert_eq!(s.total_acquisitions, 4);
    assert_eq!(s.total_releases, 3);
    assert_eq!(s.failed_acquisitions, 1);
}

#[test]
fn counters_balance_over_a_run_of_calls() {
    let mut pool = BufferPool::with_config(64, 2, 3);
    let a = pool.acquire().unwrap();
    let b = pool.acquire().unwrap();
    let c = pool.acquire().unwrap();
    assert!(matches!(pool.acquire(), Err(PoolError::Exhausted)));
    pool.release(b);
    pool.release(a);
    let stats = pool.stats();
    assert_eq!(stats.total_acquisitions, 4);
    assert_eq!(stats.failed_acquisitions, 1);
    assert_eq!(stats.total_releases, 2);
    assert_eq!(stats.in_use, 1);
    assert_eq!(stats.in_use as u64, stats.total_acquisitions - stats.failed_acquisitions - stats.total_releases);
    assert_eq!(stats.total_allocated, 3);
    pool.release(c);
    assert_eq!(pool.stats().in_use, 0);
}
