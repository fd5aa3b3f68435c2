use mpi104::{
    ArbitraryAllocator, BufferAllocator, BufferHandle, BufferPool, BufferPoolError, MemPool,
    PoolKind,
};
use std::task::Waker;

#[test]
fn allocator_hands_out_in_order() {
    let mut a: BufferAllocator<4> = BufferAllocator::new();
    assert_eq!(a.free_count(), 4);
    assert_eq!(a.try_alloc(), Ok(0));
    assert_eq!(a.try_alloc(), Ok(1));
    assert_eq!(a.free_count(), 2);
}

#[test]
fn allocator_dealloc_then_alloc_reuses_in_fifo_order() {
    let mut a: BufferAllocator<3> = BufferAllocator::new();
    assert_eq!(a.try_alloc(), Ok(0));
    assert_eq!(a.try_alloc(), Ok(1));
    assert_eq!(a.try_dealloc(0), Ok(()));
    assert_eq!(a.try_alloc(), Ok(2));
    assert_eq!(a.try_alloc(), Ok(0));
    assert_eq!(a.free_count(), 0);
}

#[test]
fn allocator_dealloc_errors() {
    let mut a: BufferAllocator<2> = BufferAllocator::new();
    assert_eq!(a.try_dealloc(0), Err(BufferPoolError::PoolFull));
    assert_eq!(a.try_alloc(), Ok(0));
    assert_eq!(a.try_dealloc(5), Err(BufferPoolError::InvalidIndex));
    assert_eq!(a.try_dealloc(1), Err(BufferPoolError::AlreadyDeallocated));
    assert_eq!(a.try_dealloc(0), Ok(()));
    assert_eq!(a.try_dealloc(0), Err(BufferPoolError::PoolFull));
}

#[test]
fn allocator_refuses_when_empty() {
    let mut a: BufferAllocator<2> = BufferAllocator::new();
    assert_eq!(a.try_alloc(), Ok(0));
    assert_eq!(a.try_alloc(), Ok(1));
    assert_eq!(a.try_alloc(), Err(BufferPoolError::PoolEmpty));
    assert_eq!(a.free_count(), 0);
    assert_eq!(a.try_dealloc(1), Ok(()));
    assert_eq!(a.try_alloc(), Ok(1));
}

#[test]
fn allocator_pop_takes_back_the_oldest_buffer_out() {
    let mut a: BufferAllocator<3> = BufferAllocator::new();
    assert_eq!(a.try_pop(), None);
    assert_eq!(a.try_alloc(), Ok(0));
    assert_eq!(a.try_alloc(), Ok(1));
    assert_eq!(a.try_pop(), Some(0));
    assert_eq!(a.free_count(), 2);
    assert_eq!(a.try_pop(), Some(1));
    assert_eq!(a.free_count(), 3);
    assert_eq!(a.try_pop(), None);
    assert_eq!(a.try_alloc(), Ok(2));
    assert_eq!(a.try_alloc(), Ok(0));
}

#[test]
fn allocator_pop_skips_a_buffer_already_back() {
    let mut a: BufferAllocator<2> = BufferAllocator::new();
    assert_eq!(a.try_alloc(), Ok(0));
    assert_eq!(a.try_alloc(), Ok(1));
    assert_eq!(a.try_dealloc(1), Ok(()));
    // the release position now records buffer 1, which is already free
    assert_eq!(a.try_pop(), None);
    assert_eq!(a.free_count(), 1);
    assert_eq!(a.try_dealloc(0), Ok(()));
    assert_eq!(a.free_count(), 2);
}

#[test]
fn empty_pool_has_no_buffers() {
    let mut a: BufferAllocator<0> = BufferAllocator::new();
    assert_eq!(a.free_count(), 0);
    assert_eq!(a.try_alloc(), Err(BufferPoolError::PoolEmpty));
    assert_eq!(a.try_dealloc(0), Err(BufferPoolError::PoolFull));
    assert_eq!(a.try_pop(), None);
    let mut p: BufferPool<0, 4> = BufferPool::new();
    assert_eq!(p.free_buffers(), 0);
    assert!(matches!(p.request(), Err(BufferPoolError::PoolEmpty)));
}

#[test]
fn buffer_pool_hands_out_full_size_buffers() {
    let mut p: BufferPool<8, 128> = BufferPool::new();
    for i in 0..8u8 {
        let h = p.request().unwrap();
        assert_eq!(h.pool_idx(), i);
        assert_eq!(h.capacity(), 128);
    }
    assert!(p.poll_request(Waker::noop()).is_none());
}

#[test]
fn buffer_pool_request_and_release() {
    let mut p: BufferPool<2, 4> = BufferPool::new();
    assert_eq!(p.free_buffers(), 2);
    let h0 = p.request().unwrap();
    assert_eq!(h0.pool_idx(), 0);
    assert_eq!(h0.capacity(), 4);
    let h1 = p.request().unwrap();
    assert_eq!(h1.pool_idx(), 1);
    assert_eq!(p.free_buffers(), 0);
    assert!(matches!(p.request(), Err(BufferPoolError::PoolEmpty)));
    assert_eq!(p.release(h0), Ok(()));
    assert_eq!(p.free_buffers(), 1);
    let forged = BufferHandle::new(vec![0u8; 4], 0);
    assert_eq!(p.release(forged), Err(BufferPoolError::AlreadyDeallocated));
    assert_eq!(p.release(h1), Ok(()));
    let stray = BufferHandle::new(vec![0u8; 4], 1);
    assert_eq!(p.release(stray), Err(BufferPoolError::PoolFull));
}

#[test]
fn buffer_pool_poll_waits_on_an_empty_pool() {
    let mut p: BufferPool<1, 4> = BufferPool::new();
    let h = p.poll_request(Waker::noop()).unwrap();
    assert_eq!(h.pool_idx(), 0);
    assert!(p.poll_request(Waker::noop()).is_none());
    assert!(p.poll_request(Waker::noop()).is_none());
    assert_eq!(p.release(h), Ok(()));
    let again = p.poll_request(Waker::noop()).unwrap();
    assert_eq!(again.pool_idx(), 0);
    assert_eq!(p.free_buffers(), 0);
}

#[test]
fn mem_pool_first_fit() {
    let mut p: MemPool<16, 3> = MemPool::new();
    assert_eq!(p.alloc_block(), Some(0));
    assert_eq!(p.alloc_block(), Some(1));
    assert_eq!(p.alloc_block(), Some(2));
    assert_eq!(p.alloc_block(), None);
    assert!(p.free(17));
    assert_eq!(p.alloc_block(), Some(1));
    assert!(!p.free(48));
    assert_eq!(p.block(2).len(), 16);
}

#[test]
fn mem_pool_write_byte() {
    let mut p: MemPool<4, 2> = MemPool::new();
    p.set_byte(5, 9);
    assert_eq!(p.block(1), &[0, 9, 0, 0]);
    assert_eq!(p.all_bytes().len(), 8);
}

#[test]
fn arbitrary_allocator_routes_by_size() {
    let mut a = ArbitraryAllocator::new();
    let b = a.request(40).unwrap();
    assert_eq!(b.pool, PoolKind::Medium);
    assert_eq!(b.offset, 0);
    assert_eq!(b.len, 40);
    let s = a.request(16).unwrap();
    assert_eq!(s.pool, PoolKind::Small);
    let l = a.request(200).unwrap();
    assert_eq!(l.pool, PoolKind::Large);
    assert!(a.request(257).is_none());
    let l2 = a.request(256).unwrap();
    assert_eq!(l2.offset, 256);
    assert!(a.request(100).is_none());
}

#[test]
fn arbitrary_allocator_release_frees_the_block() {
    let mut a = ArbitraryAllocator::new();
    let b = a.request(40).unwrap();
    a.set_byte(&b, 0, 0xAA);
    assert_eq!(a.data(&b)[0], 0xAA);
    assert_eq!(a.data(&b).len(), 40);
    a.release(&b);
    let again = a.request(33).unwrap();
    assert_eq!(again.offset, 0);
    assert_eq!(again.pool, PoolKind::Medium);
}

#[test]
fn arbitrary_allocator_small_pool_runs_out() {
    let mut a = ArbitraryAllocator::new();
    for i in 0..8 {
        let b = a.request(1).unwrap();
        assert_eq!(b.offset, i * 16);
    }
    assert!(a.request(0).is_none());
}
