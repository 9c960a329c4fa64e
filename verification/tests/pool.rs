use chunkdl::pool::BufferPool;

#[test]
fn buffers_always_have_the_configured_length() {
    let pool = BufferPool::new(4, 64);
    let a = pool.get();
    assert_eq!(a.len(), 64);
    let b = pool.get();
    assert_eq!(b.len(), 64);
    pool.put(a);
    pool.put(b);
    let c = pool.get();
    assert_eq!(c.len(), 64);
}

#[test]
fn overflowing_the_pool_is_harmless() {
    // capacity one, more buffers than it can hold: every release succeeds
    let pool = BufferPool::new(1, 16);
    let a = pool.get();
    let b = pool.get();
    let c = pool.get();
    pool.put(a);
    pool.put(b);
    pool.put(c);
    // the pool still works afterwards
    let d = pool.get();
    assert_eq!(d.len(), 16);
    pool.put(d);
}

#[test]
fn returned_buffers_come_back_cleared() {
    let pool = BufferPool::new(2, 8);
    let mut a = pool.get();
    a[0] = 0xff;
    pool.put(a);
    let b = pool.get();
    assert_eq!(b, vec![0u8; 8]);
}
