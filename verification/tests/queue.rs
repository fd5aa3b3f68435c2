use mpi104::{AsyncQueueInner, QueueError};
use std::task::Waker;

#[test]
fn queue_push_then_pop_in_order() {
    let mut q: AsyncQueueInner<u32, 3> = AsyncQueueInner::new();
    assert!(q.is_empty());
    assert!(q.has_space());
    q.push(1);
    q.push(2);
    assert_eq!(q.try_pop(), Ok(1));
    q.push(3);
    q.push(4);
    assert!(!q.has_space());
    assert_eq!(q.try_pop(), Ok(2));
    assert_eq!(q.try_pop(), Ok(3));
    assert_eq!(q.try_pop(), Ok(4));
    assert_eq!(q.try_pop(), Err(QueueError::Empty));
}

#[test]
fn queue_try_push_stores_while_there_is_space() {
    let mut q: AsyncQueueInner<u32, 2> = AsyncQueueInner::new();
    assert_eq!(q.try_push(7), Ok(()));
    assert_eq!(q.try_push(8), Ok(()));
    assert_eq!(q.try_push(9), Err(QueueError::Full));
    assert_eq!(q.count(), 2);
    assert_eq!(q.try_pop(), Ok(7));
    assert_eq!(q.try_pop(), Ok(8));
    assert_eq!(q.try_pop(), Err(QueueError::Empty));
}

#[test]
fn queue_two_pushes_then_three_pops() {
    let mut q: AsyncQueueInner<u8, 2> = AsyncQueueInner::new();
    q.push(1);
    q.push(2);
    assert_eq!(q.try_pop(), Ok(1));
    assert_eq!(q.try_pop(), Ok(2));
    assert_eq!(q.try_pop(), Err(QueueError::Empty));
    assert!(q.is_empty());
    assert!(q.has_space());
}

#[test]
fn queue_poll_pop_waits_when_empty() {
    let mut q: AsyncQueueInner<u8, 2> = AsyncQueueInner::new();
    assert_eq!(q.poll_pop(Waker::noop()), None);
    q.push(5);
    assert_eq!(q.poll_pop(Waker::noop()), Some(Ok(5)));
}

#[test]
fn queue_poll_push() {
    let mut q: AsyncQueueInner<u8, 1> = AsyncQueueInner::new();
    let mut item = Some(9u8);
    assert_eq!(q.poll_push(&mut item, Waker::noop()), Some(Ok(())));
    assert_eq!(item, None);
    let mut item = Some(2u8);
    assert_eq!(q.poll_push(&mut item, Waker::noop()), None);
    assert_eq!(item, Some(2));
    assert_eq!(q.try_pop(), Ok(9));
}

#[test]
fn queue_counts_items() {
    let mut q: AsyncQueueInner<u8, 4> = AsyncQueueInner::new();
    q.push(1);
    q.push(2);
    assert_eq!(q.count(), 2);
}
