use vstd::prelude::*;

use crate::const_circular_buffer::wrap_index;
use crate::buffer_handle::BufferHandle;
use crate::error::BufferPoolError;
use crate::waker::{clone_waker, wake, will_wake};
use core::task::Waker;

verus! {

/// Whether bit `i` of `mask` is set.
pub open spec fn mask_bit(mask: u8, i: u8) -> bool {
    (mask >> i) & 1u8 == 1u8
}

/// Setting bit `i` changes no other bit.
pub proof fn lemma_mask_set(mask: u8, i: u8, j: u8)
    requires
        i < 8,
        j < 8,
    ensures
        mask_bit(mask | (1u8 << i), j) == (j == i || mask_bit(mask, j)),
{
    assert(((mask | (1u8 << i)) >> j) & 1u8 == 1u8 <==> (j == i || (mask >> j) & 1u8 == 1u8))
        by (bit_vector)
        requires
            i < 8,
            j < 8,
    ;
}

/// Clearing bit `i` changes no other bit.
pub proof fn lemma_mask_clear(mask: u8, i: u8, j: u8)
    requires
        i < 8,
        j < 8,
    ensures
        mask_bit(mask & !(1u8 << i), j) == (j != i && mask_bit(mask, j)),
{
    assert(((mask & !(1u8 << i)) >> j) & 1u8 == 1u8 <==> (j != i && (mask >> j) & 1u8 == 1u8))
        by (bit_vector)
        requires
            i < 8,
            j < 8,
    ;
}

/// The mask with no bit set has no bit set.
pub proof fn lemma_mask_zero(j: u8)
    requires
        j < 8,
    ensures
        !mask_bit(0u8, j),
{
    assert((0u8 >> j) & 1u8 != 1u8) by (bit_vector)
        requires
            j < 8,
    ;
}

/// Testing bit `i` with a one bit mask agrees with `mask_bit`.
pub proof fn lemma_mask_test(mask: u8, i: u8)
    requires
        i < 8,
    ensures
        (mask & (1u8 << i) == 0) == !mask_bit(mask, i),
{
    assert((mask & (1u8 << i) == 0) <==> !((mask >> i) & 1u8 == 1u8)) by (bit_vector)
        requires
            i < 8,
    ;
}

/// The abstract state of a buffer allocator: a ring of `n` slots holding the
/// indices of the free buffers, read at `alloc_idx` and written at
/// `dealloc_idx`, with `count` of them queued, and a bit mask of the indices
/// in use.
pub struct AllocatorModel {
    pub n: int,
    pub allocations: Seq<u8>,
    pub alloc_idx: int,
    pub dealloc_idx: int,
    pub count: int,
    pub in_use_mask: u8,
}

/// The slot after `i` in a ring of `n` slots.
pub open spec fn next_slot(i: int, n: int) -> int {
    if i + 1 == n {
        0
    } else {
        i + 1
    }
}

impl AllocatorModel {
    /// Whether buffer `i` is marked in use.
    pub open spec fn in_use(self, i: u8) -> bool {
        mask_bit(self.in_use_mask, i)
    }

    /// The queued free indices, next to be handed out first.
    pub open spec fn free_queue(self) -> Seq<u8> {
        Seq::new(
            self.count as nat,
            |k: int| self.allocations[wrap_index(self.alloc_idx + k, self.n)],
        )
    }

    /// The slots, positions and count are in range; the mask covers the pool.
    pub open spec fn wf(self) -> bool {
        &&& 0 <= self.n <= 8
        &&& self.allocations.len() == self.n
        &&& if self.n == 0 {
            self.alloc_idx == 0 && self.dealloc_idx == 0
        } else {
            0 <= self.alloc_idx < self.n && 0 <= self.dealloc_idx < self.n
        }
        &&& 0 <= self.count <= self.n
        &&& forall|k: int| 0 <= k < self.n ==> #[trigger] self.allocations[k] < self.n
    }

    /// Every buffer is either queued as free, exactly once, or marked in use,
    /// and the queue ends where the next release is written.
    pub open spec fn consistent(self) -> bool {
        &&& self.wf()
        &&& self.dealloc_idx == wrap_index(self.alloc_idx + self.count, self.n)
        &&& self.free_queue().no_duplicates()
        &&& forall|i: u8| #![trigger self.in_use(i)] i < self.n ==> (self.in_use(i)
            <==> !self.free_queue().contains(i))
        &&& forall|i: u8| #![trigger self.in_use(i)] self.n <= i < 8 ==> !self.in_use(i)
    }

    /// State and result of handing out the next queued index; an empty queue
    /// refuses and nothing changes.
    pub open spec fn allocate(self) -> (AllocatorModel, Result<u8, BufferPoolError>) {
        if self.count == 0 {
            (self, Err(BufferPoolError::PoolEmpty))
        } else {
            let index = self.allocations[self.alloc_idx];
            (
                AllocatorModel {
                    alloc_idx: next_slot(self.alloc_idx, self.n),
                    count: self.count - 1,
                    in_use_mask: self.in_use_mask | (1u8 << index),
                    ..self
                },
                Ok(index),
            )
        }
    }

    /// State and result of returning buffer `index`.
    pub open spec fn deallocate(self, index: u8) -> (AllocatorModel, Result<(), BufferPoolError>) {
        if self.count == self.n {
            (self, Err(BufferPoolError::PoolFull))
        } else if index >= self.n {
            (self, Err(BufferPoolError::InvalidIndex))
        } else if !self.in_use(index) {
            (self, Err(BufferPoolError::AlreadyDeallocated))
        } else {
            (
                AllocatorModel {
                    allocations: self.allocations.update(self.dealloc_idx, index),
                    dealloc_idx: next_slot(self.dealloc_idx, self.n),
                    count: self.count + 1,
                    in_use_mask: self.in_use_mask & !(1u8 << index),
                    ..self
                },
                Ok(()),
            )
        }
    }

    /// State and result of taking back the buffer recorded at the release
    /// position, the one handed out longest ago when buffers come back in the
    /// order they went out: nothing when no buffer is out or that buffer is
    /// not in use.
    pub open spec fn pop(self) -> (AllocatorModel, Option<u8>) {
        if self.count == self.n {
            (self, None)
        } else {
            let index = self.allocations[self.dealloc_idx];
            if index < self.n && self.in_use(index) {
                (self.deallocate(index).0, Some(index))
            } else {
                (self, None)
            }
        }
    }
}

/// Handing out a buffer keeps the books consistent: the index was free, it
/// leaves the front of the queue and is marked in use; nothing else changes.
pub proof fn lemma_alloc_consistent(m: AllocatorModel)
    requires
        m.consistent(),
        m.count > 0,
    ensures
        m.allocate().0.consistent(),
        m.allocate().1 == Ok::<u8, BufferPoolError>(m.free_queue()[0]),
        !m.in_use(m.free_queue()[0]),
        m.allocate().0.free_queue() == m.free_queue().drop_first(),
        forall|i: u8|
            i < 8 ==> #[trigger] m.allocate().0.in_use(i) == (i == m.free_queue()[0] || m.in_use(i)),
{
    let (m2, r) = m.allocate();
    let index = m.allocations[m.alloc_idx];
    assert(m.free_queue()[0] == index);
    assert(index < m.n);
    assert(m.free_queue().contains(index));
    assert(m2.free_queue() =~= m.free_queue().drop_first());
    assert forall|i: u8| i < 8 implies #[trigger] m2.in_use(i) == (i == index || m.in_use(i)) by {
        lemma_mask_set(m.in_use_mask, index, i);
    }
    assert forall|i: u8| #![trigger m2.in_use(i)] i < m2.n implies (m2.in_use(i)
        <==> !m2.free_queue().contains(i)) by {
        if i == index {
            if m2.free_queue().contains(i) {
                let k = choose|k: int| 0 <= k < m2.free_queue().len() && m2.free_queue()[k] == i;
                assert(m.free_queue()[k + 1] == m.free_queue()[0]);
            }
        } else {
            if m.free_queue().contains(i) {
                let k = choose|k: int| 0 <= k < m.free_queue().len() && m.free_queue()[k] == i;
                assert(k != 0);
                assert(m2.free_queue()[k - 1] == i);
            }
            if m2.free_queue().contains(i) {
                let k = choose|k: int| 0 <= k < m2.free_queue().len() && m2.free_queue()[k] == i;
                assert(m.free_queue()[k + 1] == i);
            }
        }
    }
}

/// Returning a buffer keeps the books consistent: exactly a buffer in use is
/// accepted; it joins the end of the queue and is no longer marked in use.
pub proof fn lemma_dealloc_consistent(m: AllocatorModel, index: u8)
    requires
        m.consistent(),
    ensures
        m.deallocate(index).0.consistent(),
        (m.deallocate(index).1 is Ok) <==> (index < m.n && m.in_use(index)),
        m.deallocate(index).1 is Ok ==> {
            &&& m.deallocate(index).0.free_queue() == m.free_queue().push(index)
            &&& forall|i: u8|
                i < 8 ==> #[trigger] m.deallocate(index).0.in_use(i) == (i != index && m.in_use(i))
        },
        m.deallocate(index).1 is Err ==> m.deallocate(index).0 == m,
{
    if m.count == m.n {
        // a full queue holds every index, so none is in use
        if index < m.n && m.in_use(index) {
            lemma_full_queue_holds_all(m, index);
        }
    } else if index < m.n && m.in_use(index) {
        let (m2, r) = m.deallocate(index);
        assert(m2.free_queue() =~= m.free_queue().push(index)) by {
            assert forall|k: int| 0 <= k < m.count implies #[trigger] wrap_index(m.alloc_idx + k, m.n)
                != m.dealloc_idx by {}
        }
        assert forall|i: u8| i < 8 implies #[trigger] m2.in_use(i) == (i != index && m.in_use(i)) by {
            lemma_mask_clear(m.in_use_mask, index, i);
        }
        assert(!m.free_queue().contains(index));
        assert(m2.free_queue().no_duplicates());
        assert forall|i: u8| #![trigger m2.in_use(i)] i < m2.n implies (m2.in_use(i)
            <==> !m2.free_queue().contains(i)) by {
            if i == index {
                assert(m2.free_queue()[m.count] == index);
            } else {
                if m.free_queue().contains(i) {
                    let k = choose|k: int| 0 <= k < m.free_queue().len() && m.free_queue()[k] == i;
                    assert(m2.free_queue()[k] == i);
                }
                if m2.free_queue().contains(i) {
                    let k = choose|k: int|
                        0 <= k < m2.free_queue().len() && m2.free_queue()[k] == i;
                    assert(k < m.count);
                    assert(m.free_queue()[k] == i);
                }
            }
        }
        assert forall|k: int| 0 <= k < m2.n implies #[trigger] m2.allocations[k] < m2.n by {
            if k != m.dealloc_idx {
                assert(m2.allocations[k] == m.allocations[k]);
            }
        }
    }
}

/// A queue that holds as many distinct indices below `n` as there are slots
/// holds every one of them.
proof fn lemma_full_queue_holds_all(m: AllocatorModel, index: u8)
    requires
        m.consistent(),
        m.count == m.n,
        index < m.n,
    ensures
        m.free_queue().contains(index),
{
    let q = m.free_queue();
    let s = q.to_set();
    let full = Set::new(|i: u8| i < m.n);
    assert(s.subset_of(full));
    q.unique_seq_to_set();
    assert(full =~= Set::new(|i: u8| (i as int) < m.n));
    lemma_u8_range_len(m.n);
    if !s.contains(index) {
        vstd::set_lib::lemma_len_subset(s, full.remove(index));
        assert(false);
    }
}

/// The set of bytes below `n` has `n` elements.
proof fn lemma_u8_range_len(n: int)
    requires
        0 <= n <= 256,
    ensures
        Set::new(|i: u8| (i as int) < n).len() == n,
        Set::new(|i: u8| (i as int) < n).finite(),
    decreases n,
{
    if n == 0 {
        assert(Set::new(|i: u8| (i as int) < n) =~= Set::<u8>::empty());
    } else {
        lemma_u8_range_len(n - 1);
        let last = (n - 1) as u8;
        assert(Set::new(|i: u8| (i as int) < n) =~= Set::new(|i: u8| (i as int) < n - 1).insert(
            last,
        ));
    }
}

/// Two buffers handed out one after the other, with no release between them,
/// are different buffers.
pub proof fn lemma_alloc_twice_distinct(m: AllocatorModel)
    requires
        m.consistent(),
        m.count >= 2,
    ensures
        m.allocate().1 != m.allocate().0.allocate().1,
{
    lemma_alloc_consistent(m);
    let m2 = m.allocate().0;
    lemma_alloc_consistent(m2);
    assert(m.free_queue()[0] != m.free_queue()[1]);
}

/// Handing out a buffer and returning it gives back the same number of free
/// buffers and the same marks of use.
pub proof fn lemma_alloc_then_dealloc(m: AllocatorModel)
    requires
        m.consistent(),
        m.count > 0,
    ensures
        ({
            let (m2, r) = m.allocate();
            let index = r->Ok_0;
            let (m3, r3) = m2.deallocate(index);
            &&& r3 == Ok::<(), BufferPoolError>(())
            &&& m3.count == m.count
            &&& forall|i: u8| i < 8 ==> #[trigger] m3.in_use(i) == m.in_use(i)
        }),
{
    lemma_alloc_consistent(m);
    let (m2, r) = m.allocate();
    let index = r->Ok_0;
    lemma_dealloc_consistent(m2, index);
    assert(m.free_queue().contains(index));
}

/// Taking back the buffer at the release position keeps the books
/// consistent: a buffer is taken back only while some buffer is out, it was in
/// use, and it joins the end of the free queue.
pub proof fn lemma_pop_consistent(m: AllocatorModel)
    requires
        m.consistent(),
    ensures
        m.pop().0.consistent(),
        m.count == m.n ==> m.pop().1 is None,
        m.pop().1 matches Some(i) ==> {
            &&& i < m.n
            &&& m.in_use(i)
            &&& !m.pop().0.in_use(i)
            &&& m.pop().0.free_queue() == m.free_queue().push(i)
        },
        m.pop().1 is None ==> m.pop().0 == m,
{
    if m.count != m.n {
        let index = m.allocations[m.dealloc_idx];
        lemma_dealloc_consistent(m, index);
        if index < m.n && m.in_use(index) {
            lemma_mask_clear(m.in_use_mask, index, index);
        }
    }
}

/// A buffer in use is not handed out again until it is returned: the next
/// buffer handed out is a different one, and an empty pool refuses with
/// nothing changed.
pub proof fn lemma_in_use_not_handed_out(m: AllocatorModel, i: u8)
    requires
        m.consistent(),
        i < m.n,
        m.in_use(i),
    ensures
        m.allocate().1 != Ok::<u8, BufferPoolError>(i),
        m.count == 0 ==> m.allocate() == (m, Err::<u8, BufferPoolError>(BufferPoolError::PoolEmpty)),
{
    if m.count > 0 {
        lemma_alloc_consistent(m);
        assert(m.free_queue().contains(m.free_queue()[0]));
    }
}

/// A buffer pool's bookkeeping: a ring of free buffer indices and a bit mask
/// of the buffers in use.
pub struct BufferAllocator<const BUFFER_COUNT: usize> {
    alloc_idx: u8,
    dealloc_idx: u8,
    allocations: Vec<u8>,
    count: u8,
    in_use_mask: u8,
}

impl<const BUFFER_COUNT: usize> View for BufferAllocator<BUFFER_COUNT> {
    type V = AllocatorModel;

    closed spec fn view(&self) -> AllocatorModel {
        AllocatorModel {
            n: BUFFER_COUNT as int,
            allocations: self.allocations@,
            alloc_idx: self.alloc_idx as int,
            dealloc_idx: self.dealloc_idx as int,
            count: self.count as int,
            in_use_mask: self.in_use_mask,
        }
    }
}

proof fn lemma_next_slot_mod(i: u8, n: u8)
    requires
        i < n,
    ensures
        ((i + 1) as u8 % n) as int == next_slot(i as int, n as int),
{
    if i + 1 == n {
        assert(n % n == 0) by (nonlinear_arith)
            requires
                n > 0,
        ;
    } else {
        vstd::arithmetic::div_mod::lemma_small_mod((i + 1) as nat, n as nat);
    }
}

impl<const BUFFER_COUNT: usize> BufferAllocator<BUFFER_COUNT> {
    /// The model counts exactly the `BUFFER_COUNT` buffers of the allocator.
    pub proof fn lemma_size(&self)
        ensures
            self@.n == BUFFER_COUNT,
    {
    }

    /// An allocator with every buffer free, queued in index order.
    pub fn new() -> (a: Self)
        requires
            BUFFER_COUNT <= 8,
        ensures
            a@.n == BUFFER_COUNT,
            a@.consistent(),
            a@.count == BUFFER_COUNT,
            a@.free_queue() == Seq::new(BUFFER_COUNT as nat, |i: int| i as u8),
            forall|i: u8| i < 8 ==> !#[trigger] a@.in_use(i),
    {
        let mut i: usize = 0;
        let mut free: Vec<u8> = Vec::new();
        while i < BUFFER_COUNT
            invariant
                BUFFER_COUNT <= 8,
                i <= BUFFER_COUNT,
                free@.len() == i,
                forall|k: int| 0 <= k < i ==> free@[k] == k as u8,
            decreases BUFFER_COUNT - i,
        {
            free.push(i as u8);
            i += 1;
        }
        let a = Self {
            alloc_idx: 0,
            dealloc_idx: 0,
            allocations: free,
            count: BUFFER_COUNT as u8,
            in_use_mask: 0,
        };
        proof {
            let m = a@;
            assert(m.free_queue() =~= Seq::new(BUFFER_COUNT as nat, |i: int| i as u8));
            assert forall|i: u8| i < 8 implies !#[trigger] m.in_use(i) by {
                lemma_mask_zero(i);
            }
            assert forall|i: u8| #![trigger m.in_use(i)] i < m.n implies (m.in_use(i)
                <==> !m.free_queue().contains(i)) by {
                assert(m.free_queue()[i as int] == i);
            }
        }
        a
    }

    /// Hands out the next free buffer index; with none free it refuses with
    /// `PoolEmpty` and nothing changes.
    pub fn try_alloc(&mut self) -> (r: Result<u8, BufferPoolError>)
        requires
            old(self)@.wf(),
        ensures
            old(self)@.n == BUFFER_COUNT,
            final(self)@.wf(),
            (final(self)@, r) == old(self)@.allocate(),
            r matches Ok(i) ==> i < BUFFER_COUNT,
    {
        // do we have any buffers to give out
        if self.count == 0 {
            return Err(BufferPoolError::PoolEmpty);
        }
        // grab the buffer index
        let index = self.allocations[self.alloc_idx as usize];
        // increment the allocation index
        proof {
            lemma_next_slot_mod(self.alloc_idx, BUFFER_COUNT as u8);
        }
        self.alloc_idx = (self.alloc_idx + 1) % BUFFER_COUNT as u8;
        // decrement the count
        self.count -= 1;
        // update the in_use_mask
        self.in_use_mask |= 1 << index;
        // return
        Ok(index)
    }

    /// Takes back buffer `index`.
    pub fn try_dealloc(&mut self, index: u8) -> (r: Result<(), BufferPoolError>)
        requires
            old(self)@.wf(),
        ensures
            old(self)@.n == BUFFER_COUNT,
            final(self)@.wf(),
            (final(self)@, r) == old(self)@.deallocate(index),
    {
        // do we have buffers any to give out
        if self.count == BUFFER_COUNT as u8 {
            return Err(BufferPoolError::PoolFull);
        }
        // is the index valid
        if index >= BUFFER_COUNT as u8 {
            return Err(BufferPoolError::InvalidIndex);
        }
        // is the index allocated
        proof {
            lemma_mask_test(self.in_use_mask, index);
        }
        if (self.in_use_mask & (1 << index)) == 0 {
            return Err(BufferPoolError::AlreadyDeallocated);
        }
        // add the index back into the allocations free array
        self.allocations[self.dealloc_idx as usize] = index;
        // increment the deallocation index
        proof {
            lemma_next_slot_mod(self.dealloc_idx, BUFFER_COUNT as u8);
        }
        self.dealloc_idx = (self.dealloc_idx + 1) % BUFFER_COUNT as u8;
        // increment the count
        self.count += 1;
        // clear the in_use_mask
        self.in_use_mask &= !(1 << index);
        // return
        Ok(())
    }

    /// Takes back the buffer recorded at the release position when some
    /// buffer is out and that one is in use, and returns its index; else
    /// nothing changes.
    pub fn try_pop(&mut self) -> (r: Option<u8>)
        requires
            old(self)@.wf(),
        ensures
            old(self)@.n == BUFFER_COUNT,
            final(self)@.wf(),
            (final(self)@, r) == old(self)@.pop(),
    {
        // do we have any buffers out
        if self.count == BUFFER_COUNT as u8 {
            return None;
        }
        // get the index recorded at the release position
        let index = self.allocations[self.dealloc_idx as usize];
        match self.try_dealloc(index) {
            Ok(()) => Some(index),
            Err(_) => None,
        }
    }

    /// The number of free buffers.
    pub fn free_count(&self) -> (n: u8)
        ensures
            n == self@.count,
    {
        self.count
    }
}

/// A pool of `BUFFER_COUNT` buffers of `BUFFER_CAPACITY` bytes: the storage
/// of the free buffers, their bookkeeping and the waker of a task waiting for
/// one.
pub struct BufferPool<const BUFFER_COUNT: usize, const BUFFER_CAPACITY: usize> {
    pool: Vec<Option<Vec<u8>>>,
    allocator: BufferAllocator<BUFFER_COUNT>,
    waker: Option<Waker>,
}

impl<const BUFFER_COUNT: usize, const BUFFER_CAPACITY: usize> BufferPool<BUFFER_COUNT, BUFFER_CAPACITY> {
    /// The bookkeeping of the pool.
    pub closed spec fn allocator(&self) -> AllocatorModel {
        self.allocator@
    }

    /// The storage held for each buffer; a buffer handed out has none.
    pub closed spec fn slots(&self) -> Seq<Option<Seq<u8>>> {
        Seq::new(self.pool@.len(), |i: int| match self.pool@[i] {
            Some(b) => Some(b@),
            None => None,
        })
    }

    /// Whether a task waits to be woken.
    pub closed spec fn has_waker(&self) -> bool {
        self.waker is Some
    }

    /// The books are consistent and the pool holds the storage of exactly the
    /// buffers not in use.
    pub closed spec fn wf(&self) -> bool {
        &&& self.allocator@.consistent()
        &&& self.pool@.len() == BUFFER_COUNT
        &&& forall|i: u8| #![trigger self.allocator@.in_use(i)] i < BUFFER_COUNT ==> (
            self.pool@[i as int] is Some <==> !self.allocator@.in_use(i))
        &&& forall|i: int| #![trigger self.pool@[i]] 0 <= i < BUFFER_COUNT ==> (
            self.pool@[i] matches Some(b) ==> b@.len() == BUFFER_CAPACITY)
    }

    /// A well-formed pool keeps consistent books over its `BUFFER_COUNT`
    /// buffers and holds the storage of exactly the buffers not in use, each
    /// of `BUFFER_CAPACITY` bytes.
    pub proof fn lemma_wf(&self)
        requires
            self.wf(),
        ensures
            self.allocator().consistent(),
            self.allocator().n == BUFFER_COUNT,
            self.slots().len() == BUFFER_COUNT,
            forall|i: u8| #![trigger self.allocator().in_use(i)] i < BUFFER_COUNT ==> (
                self.slots()[i as int] is Some <==> !self.allocator().in_use(i)),
            forall|i: int| #![trigger self.slots()[i]] 0 <= i < BUFFER_COUNT ==> (
                self.slots()[i] matches Some(b) ==> b.len() == BUFFER_CAPACITY),
    {
        assert forall|i: int| #![trigger self.slots()[i]] 0 <= i < BUFFER_COUNT implies (
            self.slots()[i] matches Some(b) ==> b.len() == BUFFER_CAPACITY) by {
            assert(self.pool@[i] matches Some(b) ==> b@.len() == BUFFER_CAPACITY);
        }
        assert forall|i: u8| #![trigger self.allocator().in_use(i)] i < BUFFER_COUNT implies (
            self.slots()[i as int] is Some <==> !self.allocator().in_use(i)) by {
            assert(self.pool@[i as int] is Some <==> !self.allocator@.in_use(i));
        }
    }

    /// A pool with every buffer free and zeroed.
    pub fn new() -> (p: Self)
        requires
            BUFFER_COUNT <= 8,
        ensures
            p.wf(),
            p.allocator().n == BUFFER_COUNT,
            p.allocator().count == BUFFER_COUNT,
            p.allocator().free_queue() == Seq::new(BUFFER_COUNT as nat, |i: int| i as u8),
            forall|i: u8| i < 8 ==> !#[trigger] p.allocator().in_use(i),
            p.slots() == Seq::new(BUFFER_COUNT as nat, |i: int| Some(Seq::new(BUFFER_CAPACITY as nat, |j: int| 0u8))),
            !p.has_waker(),
    {
        let mut pool: Vec<Option<Vec<u8>>> = Vec::new();
        let mut i: usize = 0;
        while i < BUFFER_COUNT
            invariant
                i <= BUFFER_COUNT,
                pool@.len() == i,
                forall|k: int| 0 <= k < i ==> (#[trigger] pool@[k] matches Some(b) && b@ == Seq::new(BUFFER_CAPACITY as nat, |j: int| 0u8)),
            decreases BUFFER_COUNT - i,
        {
            let mut block: Vec<u8> = Vec::new();
            let mut j: usize = 0;
            while j < BUFFER_CAPACITY
                invariant
                    j <= BUFFER_CAPACITY,
                    block@ == Seq::new(j as nat, |k: int| 0u8),
                decreases BUFFER_CAPACITY - j,
            {
                block.push(0);
                j += 1;
                assert(block@ =~= Seq::new(j as nat, |k: int| 0u8));
            }
            pool.push(Some(block));
            i += 1;
        }
        let p = Self { pool, allocator: BufferAllocator::new(), waker: None };
        assert(p.slots() =~= Seq::new(BUFFER_COUNT as nat, |i: int| Some(Seq::new(BUFFER_CAPACITY as nat, |j: int| 0u8))));
        p
    }

    /// The number of free buffers.
    pub fn free_buffers(&self) -> (n: u8)
        ensures
            n == self.allocator().count,
    {
        self.allocator.free_count()
    }

    /// Hands out the next free buffer with its storage; with none free it
    /// refuses with `PoolEmpty` and nothing changes.
    pub fn request(&mut self) -> (r: Result<BufferHandle, BufferPoolError>)
        requires
            old(self).wf(),
        ensures
            final(self).wf(),
            final(self).allocator() == old(self).allocator().allocate().0,
            final(self).has_waker() == old(self).has_waker(),
            old(self).allocator().count == 0 ==> r == Err::<BufferHandle, BufferPoolError>(
                BufferPoolError::PoolEmpty,
            ) && final(self).slots() == old(self).slots(),
            old(self).allocator().count > 0 ==> (r matches Ok(h) && {
                &&& h.spec_pool_idx() == old(self).allocator().free_queue()[0]
                &&& h.storage().len() == BUFFER_CAPACITY
                &&& old(self).slots()[h.spec_pool_idx() as int] == Some(h.storage())
                &&& final(self).slots() == old(self).slots().update(h.spec_pool_idx() as int, None)
            }),
    {
        if self.allocator.free_count() == 0 {
            return Err(BufferPoolError::PoolEmpty);
        }
        proof {
            lemma_alloc_consistent(self.allocator@);
        }
        let index = match self.allocator.try_alloc() {
            Ok(i) => i,
            Err(e) => return Err(e),
        };
        let ghost old_slots = self.slots();
        let buffer = self.pool[index as usize].take().unwrap();
        assert(self.slots() =~= old_slots.update(index as int, None));
        assert forall|i: u8| #![trigger self.allocator@.in_use(i)] i < BUFFER_COUNT implies (
            self.pool@[i as int] is Some <==> !self.allocator@.in_use(i)) by {
        }
        Ok(BufferHandle::new(buffer, index))
    }

    /// One poll of a task waiting for a buffer: a free buffer is handed out
    /// with its storage; with none free, a waker for the task is kept (the one
    /// already kept when it wakes the same task, else a copy of `waker`) and
    /// the poll stays pending (`None`).
    pub fn poll_request(&mut self, waker: &Waker) -> (r: Option<BufferHandle>)
        requires
            old(self).wf(),
        ensures
            final(self).wf(),
            old(self).allocator().count > 0 ==> (r matches Some(h) && {
                &&& final(self).allocator() == old(self).allocator().allocate().0
                &&& h.spec_pool_idx() == old(self).allocator().free_queue()[0]
                &&& h.storage().len() == BUFFER_CAPACITY
                &&& old(self).slots()[h.spec_pool_idx() as int] == Some(h.storage())
                &&& final(self).slots() == old(self).slots().update(h.spec_pool_idx() as int, None)
                &&& final(self).has_waker() == old(self).has_waker()
            }),
            old(self).allocator().count == 0 ==> r is None && final(self).allocator() == old(
                self,
            ).allocator() && final(self).slots() == old(self).slots() && final(self).has_waker(),
    {
        match self.request() {
            Ok(h) => Some(h),
            Err(_) => {
                let keep = match &self.waker {
                    Some(w) => will_wake(w, waker),
                    None => false,
                };
                if !keep {
                    self.waker = Some(clone_waker(waker));
                }
                None
            },
        }
    }

    /// Takes a buffer of the pool's size back; when the pool accepts it, its
    /// storage returns to the pool and a waiting task is woken.
    pub fn release(&mut self, handle: BufferHandle) -> (r: Result<(), BufferPoolError>)
        requires
            old(self).wf(),
            handle.storage().len() == BUFFER_CAPACITY,
        ensures
            final(self).wf(),
            (final(self).allocator(), r) == old(self).allocator().deallocate(handle.spec_pool_idx()),
            r is Ok ==> final(self).slots() == old(self).slots().update(
                handle.spec_pool_idx() as int,
                Some(handle.storage()),
            ) && !final(self).has_waker(),
            r is Err ==> final(self).slots() == old(self).slots() && final(self).has_waker()
                == old(self).has_waker(),
    {
        proof {
            lemma_dealloc_consistent(self.allocator@, handle.spec_pool_idx());
        }
        let index = handle.pool_idx();
        // try to deallocate buffer
        let result = self.allocator.try_dealloc(index);
        if result.is_ok() {
            let ghost old_slots = self.slots();
            self.pool[index as usize] = Some(handle.into_storage());
            assert(self.slots() =~= old_slots.update(index as int, Some(handle.storage())));
            // if the result was OK wake the waker
            if let Some(w) = self.waker.take() {
                wake(w);
            }
        }
        // return
        result
    }
}

} // verus!
