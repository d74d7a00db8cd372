//! The tab-pool capacity model.

use ref_tools::pool::PagePool;

#[test]
fn test_pool_never_exceeds_limit() {
    // For every limit in 1..=20: the pool hands out exactly that many
    // permits, refuses the next, and frees a slot on release.
    for n in 1..=20usize {
        let mut pool = PagePool::new(n);
        let mut outstanding = 0usize;
        for _ in 0..n {
            assert!(pool.try_acquire());
            outstanding += 1;
            assert!(outstanding <= n);
        }
        assert!(!pool.try_acquire());
        pool.release();
        assert!(pool.try_acquire());
        assert!(!pool.try_acquire());
    }
}

#[test]
fn test_pool_idle_after_release_all() {
    let mut pool = PagePool::new(3);
    assert!(pool.is_idle());
    assert!(pool.try_acquire());
    assert!(pool.try_acquire());
    assert!(!pool.is_idle());
    pool.release();
    pool.release();
    assert!(pool.is_idle());
}
