use vstd::prelude::*;

use crate::const_circular_buffer::wrap_index;
use crate::buffer_pool::next_slot;
use crate::error::QueueError;
use crate::waker::{clone_waker, wake};
use core::task::Waker;

verus! {

/// The abstract state of a queue core: its slots, how many items it counts,
/// where the next item is written and read, and whether a task waits.
pub struct QueueModel<T> {
    pub slots: Seq<Option<T>>,
    pub count: int,
    pub w_idx: int,
    pub r_idx: int,
    pub has_waker: bool,
}

impl<T> QueueModel<T> {
    /// The number of slots.
    pub open spec fn capacity(self) -> int {
        self.slots.len() as int
    }

    /// Both positions lie in the slots, of which there are 1 to 255.
    pub open spec fn wf(self) -> bool {
        &&& 0 < self.capacity() <= 255
        &&& 0 <= self.w_idx < self.capacity()
        &&& 0 <= self.r_idx < self.capacity()
        &&& 0 <= self.count <= 255
    }

    /// The items counted from the read position on, oldest first.
    pub open spec fn items(self) -> Seq<Option<T>> {
        Seq::new(
            self.count as nat,
            |k: int| self.slots[wrap_index(self.r_idx + k, self.capacity())],
        )
    }

    /// The queue holds at most as many items as slots, exactly in the slots
    /// from the read position to the write position.
    pub open spec fn consistent(self) -> bool {
        &&& self.wf()
        &&& self.count <= self.capacity()
        &&& self.w_idx == wrap_index(self.r_idx + self.count, self.capacity())
        &&& forall|k: int| 0 <= k < self.count ==> (#[trigger] self.items()[k]) is Some
        &&& forall|k: int|
            self.count <= k < self.capacity() ==> (#[trigger] self.slots[wrap_index(
                self.r_idx + k,
                self.capacity(),
            )]) is None
    }

    /// Whether the queue counts fewer items than slots.
    pub open spec fn has_space(self) -> bool {
        self.count < self.capacity()
    }

    /// The state after writing `item` at the write position, whatever the
    /// slot held.
    pub open spec fn push(self, item: T) -> QueueModel<T> {
        QueueModel {
            slots: self.slots.update(self.w_idx, Some(item)),
            w_idx: next_slot(self.w_idx, self.capacity()),
            count: self.count + 1,
            ..self
        }
    }

    /// State and result of a push that checks the space: a queue with space
    /// wakes the waiting task and writes the item, a full queue refuses it
    /// and stays as it was.
    pub open spec fn try_push(self, item: T) -> (QueueModel<T>, Result<(), QueueError>) {
        if self.has_space() {
            (QueueModel { has_waker: false, ..self.push(item) }, Ok(()))
        } else {
            (self, Err(QueueError::Full))
        }
    }

    /// State and content of taking the slot at the read position.
    pub open spec fn pop(self) -> (QueueModel<T>, Option<T>) {
        (
            QueueModel {
                slots: self.slots.update(self.r_idx, None),
                r_idx: next_slot(self.r_idx, self.capacity()),
                count: self.count - 1,
                ..self
            },
            self.slots[self.r_idx],
        )
    }

    /// State and result of a pop that checks for an item: an empty queue
    /// refuses it, else the waiting task is woken and the slot taken.
    pub open spec fn try_pop(self) -> (QueueModel<T>, Result<T, QueueError>) {
        if self.count == 0 {
            (self, Err(QueueError::Empty))
        } else {
            let (m, item) = self.pop();
            (
                QueueModel { has_waker: false, ..m },
                match item {
                    Some(t) => Ok(t),
                    None => Err(QueueError::NoItem),
                },
            )
        }
    }
}

/// Writing into a queue with room appends the item at the end and keeps the
/// queue consistent.
pub proof fn lemma_push_appends<T>(m: QueueModel<T>, item: T)
    requires
        m.consistent(),
        m.has_space(),
    ensures
        m.push(item).consistent(),
        m.push(item).items() == m.items().push(Some(item)),
{
    let m2 = m.push(item);
    let cap = m.capacity();
    assert forall|k: int| 0 <= k < m.count implies #[trigger] wrap_index(m.r_idx + k, cap)
        != m.w_idx by {}
    assert(m2.items() =~= m.items().push(Some(item)));
    assert forall|k: int| m2.count <= k < cap implies (#[trigger] m2.slots[wrap_index(
        m2.r_idx + k,
        cap,
    )]) is None by {
        assert(m.slots[wrap_index(m.r_idx + k, cap)] is None);
    }
    assert forall|k: int| 0 <= k < m2.count implies (#[trigger] m2.items()[k]) is Some by {
        if k < m.count {
            assert(m.items()[k] is Some);
        }
    }
}

/// A checked push keeps the queue consistent: with space it appends the item
/// at the end, and a full queue refuses it with its items unchanged.
pub proof fn lemma_try_push_appends<T>(m: QueueModel<T>, item: T)
    requires
        m.consistent(),
    ensures
        m.try_push(item).0.consistent(),
        m.has_space() ==> m.try_push(item).1 == Ok::<(), QueueError>(())
            && m.try_push(item).0.items() == m.items().push(Some(item)),
        !m.has_space() ==> m.try_push(item).1 == Err::<(), QueueError>(QueueError::Full)
            && m.try_push(item).0 == m,
{
    if m.has_space() {
        lemma_push_appends(m, item);
        let m2 = m.try_push(item).0;
        assert(m2.items() =~= m.push(item).items());
        assert forall|k: int| 0 <= k < m2.count implies (#[trigger] m2.items()[k]) is Some by {
            assert(m.push(item).items()[k] is Some);
        }
    }
}

/// Reading from a consistent queue that holds items returns the oldest one,
/// never the error of a missing item, and keeps the queue consistent.
pub proof fn lemma_try_pop_takes_oldest<T>(m: QueueModel<T>)
    requires
        m.consistent(),
        m.count > 0,
    ensures
        m.try_pop().0.consistent(),
        m.try_pop().1 == Ok::<T, QueueError>(m.items()[0]->Some_0),
        m.try_pop().0.items() == m.items().drop_first(),
{
    let m2 = m.try_pop().0;
    let cap = m.capacity();
    assert(m.items()[0] is Some);
    assert forall|k: int| 1 <= k < m.count implies #[trigger] wrap_index(m.r_idx + k, cap)
        != m.r_idx by {}
    assert(m2.items() =~= m.items().drop_first());
    assert forall|k: int| 0 <= k < m2.count implies (#[trigger] m2.items()[k]) is Some by {
        assert(m.items()[k + 1] is Some);
    }
    assert forall|k: int| m2.count <= k < cap implies (#[trigger] m2.slots[wrap_index(
        m2.r_idx + k,
        cap,
    )]) is None by {
        if k == cap - 1 {
            assert(wrap_index(m2.r_idx + k, cap) == m.r_idx);
        } else {
            assert(wrap_index(m2.r_idx + k, cap) == wrap_index(m.r_idx + (k + 1), cap));
            assert(m.slots[wrap_index(m.r_idx + (k + 1), cap)] is None);
        }
    }
}

/// Items leave in the order they came: after writing one item to a queue
/// with room, the next read returns the oldest item, which is the written one
/// only when the queue was empty.
pub proof fn lemma_queue_fifo<T>(m: QueueModel<T>, item: T)
    requires
        m.consistent(),
        m.has_space(),
    ensures
        m.push(item).try_pop().1 == Ok::<T, QueueError>(
            if m.count == 0 {
                item
            } else {
                m.items()[0]->Some_0
            },
        ),
{
    lemma_push_appends(m, item);
    lemma_try_pop_takes_oldest(m.push(item));
}

/// The queue core of an interrupt-safe queue: a ring of `CAPACITY` slots with
/// a count and the waker of a task waiting on it.
pub struct AsyncQueueInner<T, const CAPACITY: usize> {
    count: u8,
    w_idx: u8,
    r_idx: u8,
    buf: Vec<Option<T>>,
    waker: Option<Waker>,
}

impl<T, const CAPACITY: usize> View for AsyncQueueInner<T, CAPACITY> {
    type V = QueueModel<T>;

    closed spec fn view(&self) -> QueueModel<T> {
        QueueModel {
            slots: self.buf@,
            count: self.count as int,
            w_idx: self.w_idx as int,
            r_idx: self.r_idx as int,
            has_waker: self.waker is Some,
        }
    }
}

proof fn lemma_next_slot_mod(i: u8, n: u8)
    requires
        i < n,
    ensures
        ((i + 1) as u8 % n) as int == next_slot(i as int, n as int),
{
    if i + 1 == n {
        assert(n % n == 0) by (nonlinear_arith)
            requires
                n > 0,
        ;
    } else {
        vstd::arithmetic::div_mod::lemma_small_mod((i + 1) as nat, n as nat);
    }
}

impl<T, const CAPACITY: usize> AsyncQueueInner<T, CAPACITY> {
    /// The slots match the capacity.
    pub open spec fn wf(&self) -> bool {
        &&& self@.wf()
        &&& self@.capacity() == CAPACITY
    }

    /// An empty queue with every slot empty and no waiting task.
    pub fn new() -> (q: Self)
        requires
            0 < CAPACITY <= 255,
        ensures
            q.wf(),
            q@.capacity() == CAPACITY,
            q@.consistent(),
            q@.count == 0,
            q@.items() == Seq::<Option<T>>::empty(),
            !q@.has_waker,
    {
        let mut buf: Vec<Option<T>> = Vec::new();
        let mut i: usize = 0;
        while i < CAPACITY
            invariant
                i <= CAPACITY,
                buf@.len() == i,
                forall|k: int| 0 <= k < i ==> (#[trigger] buf@[k]) is None,
            decreases CAPACITY - i,
        {
            buf.push(None);
            i += 1;
        }
        let q = Self { count: u8::MIN, w_idx: u8::MIN, r_idx: u8::MIN, buf, waker: None };
        assert(q@.items() =~= Seq::<Option<T>>::empty());
        q
    }

    /// Whether the queue counts fewer items than slots.
    pub fn has_space(&self) -> (b: bool)
        requires
            self.wf(),
        ensures
            b == self@.has_space(),
    {
        self.count < (CAPACITY as u8)
    }

    /// The number of items the queue counts.
    pub fn count(&self) -> (n: u8)
        ensures
            n == self@.count,
    {
        self.count
    }

    /// Whether the queue counts no item.
    pub fn is_empty(&self) -> (b: bool)
        ensures
            b == (self@.count == 0),
    {
        self.count == 0
    }

    /// Writes `item` at the write position, whatever the slot held.
    pub fn push(&mut self, item: T)
        requires
            old(self).wf(),
            old(self)@.count < 255,
        ensures
            final(self).wf(),
            final(self)@ == old(self)@.push(item),
            old(self)@.consistent() && old(self)@.has_space() ==> final(self)@.consistent(),
    {
        proof {
            if old(self)@.consistent() && old(self)@.has_space() {
                lemma_push_appends(old(self)@, item);
            }
        }
        self.buf[self.w_idx as usize] = Some(item);
        proof {
            lemma_next_slot_mod(self.w_idx, CAPACITY as u8);
        }
        self.w_idx = (self.w_idx + 1) % CAPACITY as u8;
        self.count += 1;
    }

    /// Writes `item` when the queue has a free slot, waking the waiting task;
    /// a full queue refuses it.
    pub fn try_push(&mut self, item: T) -> (r: Result<(), QueueError>)
        requires
            old(self).wf(),
        ensures
            final(self).wf(),
            (final(self)@, r) == old(self)@.try_push(item),
            old(self)@.consistent() ==> final(self)@.consistent(),
    {
        proof {
            if old(self)@.consistent() {
                lemma_try_push_appends(old(self)@, item);
            }
        }
        match self.has_space() {
            true => {
                if let Some(w) = self.waker.take() {
                    wake(w);
                }
                self.push(item);
                Ok(())
            },
            _ => Err(QueueError::Full),
        }
    }

    /// Takes the slot at the read position.
    fn pop(&mut self) -> (r: Option<T>)
        requires
            old(self).wf(),
            old(self)@.count > 0,
        ensures
            final(self).wf(),
            (final(self)@, r) == old(self)@.pop(),
    {
        let item = self.buf[self.r_idx as usize].take();
        proof {
            lemma_next_slot_mod(self.r_idx, CAPACITY as u8);
        }
        self.r_idx = (self.r_idx + 1) % CAPACITY as u8;
        self.count -= 1;
        item
    }

    /// Takes the oldest item and wakes the waiting task; an empty queue
    /// refuses.
    pub fn try_pop(&mut self) -> (r: Result<T, QueueError>)
        requires
            old(self).wf(),
        ensures
            final(self).wf(),
            (final(self)@, r) == old(self)@.try_pop(),
            old(self)@.consistent() ==> final(self)@.consistent(),
    {
        proof {
            if old(self)@.consistent() && old(self)@.count > 0 {
                lemma_try_pop_takes_oldest(old(self)@);
            }
        }
        match self.is_empty() {
            true => Err(QueueError::Empty),
            _ => {
                if let Some(w) = self.waker.take() {
                    wake(w);
                }
                match self.pop() {
                    Some(t) => Ok(t),
                    None => Err(QueueError::NoItem),
                }
            },
        }
    }

    /// One poll of a pending push: with space, the item is handed to
    /// `try_push`, which stores it; without space a copy of `waker` is kept
    /// and the push stays pending (`None`).
    pub fn poll_push(&mut self, item: &mut Option<T>, waker: &Waker) -> (r: Option<
        Result<(), QueueError>,
    >)
        requires
            old(self).wf(),
            old(self)@.has_space() ==> *old(item) is Some,
        ensures
            final(self).wf(),
            old(self)@.has_space() ==> ({
                let (m, res) = old(self)@.try_push((*old(item))->Some_0);
                final(self)@ == m && r == Some(res) && *final(item) is None
            }),
            !old(self)@.has_space() ==> r is None && *final(item) == *old(item) && final(self)@
                == (QueueModel { has_waker: true, ..old(self)@ }),
            old(self)@.consistent() ==> final(self)@.consistent(),
    {
        match self.has_space() {
            true => {
                let it = item.take().unwrap();
                Some(self.try_push(it))
            },
            _ => {
                self.waker = Some(clone_waker(waker));
                None
            },
        }
    }

    /// One poll of a pending pop: an empty queue keeps a copy of `waker` and
    /// the pop stays pending (`None`); else the oldest item is taken.
    pub fn poll_pop(&mut self, waker: &Waker) -> (r: Option<Result<T, QueueError>>)
        requires
            old(self).wf(),
        ensures
            final(self).wf(),
            old(self)@.count == 0 ==> r is None && final(self)@ == (QueueModel {
                has_waker: true,
                ..old(self)@
            }),
            old(self)@.count > 0 ==> ({
                let (m, res) = old(self)@.try_pop();
                final(self)@ == m && r == Some(res)
            }),
            old(self)@.consistent() ==> final(self)@.consistent(),
    {
        match self.is_empty() {
            true => {
                self.waker = Some(clone_waker(waker));
                None
            },
            _ => Some(self.try_pop()),
        }
    }
}

} // verus!
