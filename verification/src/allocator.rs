use vstd::prelude::*;

use crate::buffer_pool::{lemma_mask_set, lemma_mask_test, lemma_mask_zero, mask_bit};

verus! {

/// The lowest block below `count` whose bit is clear in `mask`, if any.
pub open spec fn first_free_block(mask: u8, count: int) -> Option<u8> {
    if exists|i: u8| i < count && !mask_bit(mask, i) {
        let i = choose|i: u8| i < count && !mask_bit(mask, i) && forall|j: u8| j < i ==> mask_bit(mask, j);
        Some(i)
    } else {
        None
    }
}

/// A pool of `BLK_COUNT` blocks of `BLK_SIZE` bytes with an 8 bit mask of the
/// blocks in use.
pub struct MemPool<const BLK_SIZE: usize, const BLK_COUNT: usize> {
    // Stores the actual buffer memory, block after block
    storage: Vec<u8>,
    // Tracks allocation state: 0 = free, 1 = allocated
    used_mask: u8,
}

impl<const BLK_SIZE: usize, const BLK_COUNT: usize> MemPool<BLK_SIZE, BLK_COUNT> {
    /// The mask of the blocks in use.
    pub closed spec fn mask(&self) -> u8 {
        self.used_mask
    }

    /// The bytes of all blocks, block after block.
    pub closed spec fn bytes(&self) -> Seq<u8> {
        self.storage@
    }

    /// Whether block `i` is in use.
    pub open spec fn is_used(&self, i: u8) -> bool {
        mask_bit(self.mask(), i)
    }

    /// The pool size in bytes.
    pub open spec fn total_size() -> int {
        BLK_SIZE * BLK_COUNT
    }

    /// The storage holds every block and the mask covers every block.
    pub closed spec fn wf(&self) -> bool {
        &&& BLK_COUNT <= 8
        &&& BLK_SIZE * BLK_COUNT <= isize::MAX
        &&& self.storage@.len() == BLK_SIZE * BLK_COUNT
    }

    /// A pool with every block free and zeroed.
    pub fn new() -> (p: Self)
        requires
            BLK_COUNT <= 8,
            BLK_SIZE * BLK_COUNT <= isize::MAX,
        ensures
            p.wf(),
            p.mask() == 0,
            forall|i: u8| i < 8 ==> !#[trigger] p.is_used(i),
            p.bytes() == Seq::new((BLK_SIZE * BLK_COUNT) as nat, |k: int| 0u8),
    {
        assert(BLK_SIZE * BLK_COUNT <= usize::MAX);
        let total: usize = BLK_SIZE * BLK_COUNT;
        let mut storage: Vec<u8> = Vec::new();
        let mut k: usize = 0;
        while k < total
            invariant
                k <= total,
                storage@ == Seq::new(k as nat, |j: int| 0u8),
            decreases total - k,
        {
            storage.push(0);
            k += 1;
            assert(storage@ =~= Seq::new(k as nat, |j: int| 0u8));
        }
        let p = Self { storage, used_mask: 0 };
        assert forall|i: u8| i < 8 implies !#[trigger] p.is_used(i) by {
            lemma_mask_zero(i);
        }
        p
    }

    /// Marks the lowest free block as used and returns its index.
    pub fn alloc_block(&mut self) -> (r: Option<usize>)
        requires
            old(self).wf(),
        ensures
            final(self).wf(),
            final(self).bytes() == old(self).bytes(),
            r == match first_free_block(old(self).mask(), BLK_COUNT as int) {
                Some(i) => Some(i as usize),
                None => None::<usize>,
            },
            r matches Some(i) ==> final(self).mask() == old(self).mask() | (1u8 << i as u8),
            r is None ==> final(self).mask() == old(self).mask(),
    {
        let mut i: usize = 0;
        while i < BLK_COUNT
            invariant
                self.wf(),
                self.used_mask == old(self).used_mask,
                self.storage == old(self).storage,
                i <= BLK_COUNT,
                forall|j: u8| j < i ==> mask_bit(self.used_mask, j),
            decreases BLK_COUNT - i,
        {
            proof {
                lemma_mask_test(self.used_mask, i as u8);
            }
            if (self.used_mask & (1 << (i as u8))) == 0 {
                let ghost m0 = self.used_mask;
                self.used_mask |= 1 << (i as u8);
                proof {
                    let w = i as u8;
                    assert(w < BLK_COUNT && !mask_bit(m0, w) && forall|j: u8| j < w ==> mask_bit(m0, j));
                    let c = choose|c: u8| c < BLK_COUNT && !mask_bit(m0, c) && forall|j: u8| j < c ==> mask_bit(m0, j);
                    assert(c == w) by {
                        if c < w {
                            assert(mask_bit(m0, c));
                        } else if w < c {
                            assert(mask_bit(m0, w));
                        }
                    }
                }
                return Some(i);
            }
            i += 1;
        }
        assert(!exists|i: u8| i < BLK_COUNT && !mask_bit(self.used_mask, i));
        None
    }

    /// Frees the block holding byte `offset` of the pool; returns whether the
    /// offset lies in the pool.
    pub fn free(&mut self, offset: usize) -> (r: bool)
        requires
            old(self).wf(),
        ensures
            final(self).wf(),
            final(self).bytes() == old(self).bytes(),
            r == (offset < Self::total_size()),
            r ==> final(self).mask() == old(self).mask() & !(1u8 << (offset / BLK_SIZE) as u8),
            !r ==> final(self).mask() == old(self).mask(),
    {
        let end: usize = BLK_SIZE * BLK_COUNT;
        if offset < end {
            proof {
                assert(BLK_SIZE > 0) by (nonlinear_arith)
                    requires
                        offset < BLK_SIZE * BLK_COUNT,
                ;
            }
            let index = offset / BLK_SIZE;
            proof {
                assert(index < BLK_COUNT) by (nonlinear_arith)
                    requires
                        offset < BLK_SIZE * BLK_COUNT,
                        index == offset / BLK_SIZE,
                        BLK_SIZE > 0,
                ;
            }
            self.used_mask &= !(1 << (index as u8));
            return true;
        }
        false
    }

    /// The bytes of block `index`.
    pub fn block(&self, index: usize) -> (b: &[u8])
        requires
            self.wf(),
            index < BLK_COUNT,
        ensures
            b@ == self.bytes().subrange(index * BLK_SIZE, (index + 1) * BLK_SIZE),
    {
        proof {
            assert((index + 1) * BLK_SIZE <= BLK_SIZE * BLK_COUNT) by (nonlinear_arith)
                requires
                    index < BLK_COUNT,
            ;
            assert((index + 1) * BLK_SIZE == index * BLK_SIZE + BLK_SIZE) by (nonlinear_arith);
        }
        let start = index * BLK_SIZE;
        vstd::slice::slice_subrange(self.storage.as_slice(), start, start + BLK_SIZE)
    }

    /// The bytes of all blocks, block after block.
    pub fn all_bytes(&self) -> (b: &[u8])
        ensures
            b@ == self.bytes(),
    {
        self.storage.as_slice()
    }

    /// Writes `byte` at byte `offset` of the pool.
    pub fn set_byte(&mut self, offset: usize, byte: u8)
        requires
            old(self).wf(),
            offset < Self::total_size(),
        ensures
            final(self).wf(),
            final(self).mask() == old(self).mask(),
            final(self).bytes() == old(self).bytes().update(offset as int, byte),
    {
        self.storage[offset] = byte;
    }
}

/// The block a pool hands out is free, below the block count, and every lower
/// block is in use.
pub proof fn lemma_first_free_block(mask: u8, count: int)
    requires
        count <= 8,
    ensures
        first_free_block(mask, count) matches Some(i) ==> i < count && !mask_bit(mask, i)
            && forall|j: u8| j < i ==> mask_bit(mask, j),
        first_free_block(mask, count) is None ==> forall|j: u8| j < count ==> mask_bit(mask, j),
{
    if exists|i: u8| i < count && !mask_bit(mask, i) {
        let w = choose|i: u8| i < count && !mask_bit(mask, i);
        lemma_lowest_free_exists(mask, w);
    }
}

/// Below any free block there is a lowest free block.
proof fn lemma_lowest_free_exists(mask: u8, w: u8)
    requires
        !mask_bit(mask, w),
    ensures
        exists|i: u8| i <= w && !mask_bit(mask, i) && forall|j: u8| j < i ==> mask_bit(mask, j),
    decreases w,
{
    if forall|j: u8| j < w ==> mask_bit(mask, j) {
    } else {
        let v = choose|j: u8| j < w && !mask_bit(mask, j);
        lemma_lowest_free_exists(mask, v);
    }
}

/// Two blocks handed out one after the other, with no free between them, are
/// different blocks.
pub proof fn lemma_alloc_block_twice_distinct(mask: u8, count: int)
    requires
        count <= 8,
        first_free_block(mask, count) is Some,
    ensures
        ({
            let i = first_free_block(mask, count)->Some_0;
            first_free_block(mask | (1u8 << i), count) != Some(i)
        }),
{
    let i = first_free_block(mask, count)->Some_0;
    lemma_first_free_block(mask, count);
    lemma_first_free_block(mask | (1u8 << i), count);
    lemma_mask_set(mask, i, i);
}

/// Freeing a block that was just handed out restores the marks of use.
pub proof fn lemma_alloc_then_free_restores(mask: u8, i: u8)
    requires
        i < 8,
        !mask_bit(mask, i),
    ensures
        (mask | (1u8 << i)) & !(1u8 << i) == mask,
{
    assert(((mask >> i) & 1u8 != 1u8) ==> (mask | (1u8 << i)) & !(1u8 << i) == mask) by (bit_vector)
        requires
            i < 8,
    ;
}

/// The pool a request is served from: the smallest block size that holds it.
#[derive(Debug, PartialEq, Eq, Structural, Clone, Copy)]
pub enum PoolKind {
    Small,
    Medium,
    Large,
}

/// The pool that serves a request of `size` bytes, if any.
pub open spec fn size_class(size: usize) -> Option<PoolKind> {
    if size <= 16 {
        Some(PoolKind::Small)
    } else if size <= 64 {
        Some(PoolKind::Medium)
    } else if size <= 256 {
        Some(PoolKind::Large)
    } else {
        None
    }
}

/// The block size of the pool that `kind` names.
pub open spec fn block_size(kind: PoolKind) -> int {
    match kind {
        PoolKind::Small => 16,
        PoolKind::Medium => 64,
        PoolKind::Large => 256,
    }
}

/// A request is served from the smallest pool whose blocks hold it: the
/// block holds the request, and the blocks of every smaller pool do not.
pub proof fn lemma_size_class_best_fit(size: usize)
    ensures
        size_class(size) matches Some(k) ==> size <= block_size(k) && forall|j: PoolKind|
            block_size(j) < block_size(k) ==> #[trigger] block_size(j) < size,
        size_class(size) is None ==> size > 256,
{
}

/// A block handed out by the allocator: its pool, where it starts in that
/// pool and how many of its bytes were asked for.
#[derive(Debug, PartialEq, Eq, Structural, Clone, Copy)]
pub struct Block {
    pub pool: PoolKind,
    pub offset: usize,
    pub len: usize,
}

/// The block of `size` bytes that block `index` of a pool of `blk_size` byte
/// blocks gives.
pub open spec fn block_at(pool: PoolKind, index: int, blk_size: int, size: usize) -> Block {
    Block { pool, offset: (index * blk_size) as usize, len: size }
}

/// The number of blocks of the pool that `kind` names.
pub open spec fn block_count(kind: PoolKind) -> int {
    match kind {
        PoolKind::Small => 8,
        PoolKind::Medium => 4,
        PoolKind::Large => 2,
    }
}

/// Blocks are laid out one after the other: block `i` of a pool starts at `i`
/// times the pool's block size, lies inside the pool when the request fits a
/// block, maps back to `i` when it is freed, and two different blocks of one
/// pool never overlap.
pub proof fn lemma_block_layout(kind: PoolKind, i: int, j: int, size: usize)
    requires
        0 <= i < block_count(kind),
        0 <= j < block_count(kind),
        size <= block_size(kind),
    ensures
        ({
            let b = block_at(kind, i, block_size(kind), size);
            let c = block_at(kind, j, block_size(kind), size);
            &&& b.pool == kind
            &&& b.len == size
            &&& b.offset == i * block_size(kind)
            &&& b.offset + b.len <= ArbitraryAllocator::pool_size(kind)
            &&& (b.offset as int) / block_size(kind) == i
            &&& i != j ==> (b.offset + b.len <= c.offset || c.offset + c.len <= b.offset)
        }),
{
    let bs = block_size(kind);
    let total = ArbitraryAllocator::pool_size(kind);
    assert(bs * block_count(kind) == total && bs > 0);
    assert(0 <= i * bs && i * bs + bs <= total && (i * bs) / bs == i) by (nonlinear_arith)
        requires
            0 <= i < block_count(kind),
            bs * block_count(kind) == total,
            bs > 0,
    ;
    assert(0 <= j * bs && j * bs + bs <= total) by (nonlinear_arith)
        requires
            0 <= j < block_count(kind),
            bs * block_count(kind) == total,
            bs > 0,
    ;
    if i < j {
        assert(i * bs + bs <= j * bs) by (nonlinear_arith)
            requires
                i < j,
                bs > 0,
        ;
    } else if j < i {
        assert(j * bs + bs <= i * bs) by (nonlinear_arith)
            requires
                j < i,
                bs > 0,
        ;
    }
}

/// An allocator for requests of any size up to 256 bytes, served from three
/// pools of fixed size blocks.
pub struct ArbitraryAllocator {
    small_pool: MemPool<16, 8>,  // 8 blocks of 16 bytes
    medium_pool: MemPool<64, 4>,  // 4 blocks of 64 bytes
    large_pool: MemPool<256, 2>,  // 2 blocks of 256 bytes
}

impl ArbitraryAllocator {
    /// The marks of use of the pool of 16 byte blocks.
    pub closed spec fn small_mask(&self) -> u8 {
        self.small_pool.mask()
    }

    /// The marks of use of the pool of 64 byte blocks.
    pub closed spec fn medium_mask(&self) -> u8 {
        self.medium_pool.mask()
    }

    /// The marks of use of the pool of 256 byte blocks.
    pub closed spec fn large_mask(&self) -> u8 {
        self.large_pool.mask()
    }

    /// The bytes of the pool that `kind` names.
    pub closed spec fn pool_bytes(&self, kind: PoolKind) -> Seq<u8> {
        match kind {
            PoolKind::Small => self.small_pool.bytes(),
            PoolKind::Medium => self.medium_pool.bytes(),
            PoolKind::Large => self.large_pool.bytes(),
        }
    }

    /// The size in bytes of the pool that `kind` names.
    pub open spec fn pool_size(kind: PoolKind) -> int {
        match kind {
            PoolKind::Small => 128,
            PoolKind::Medium => 256,
            PoolKind::Large => 512,
        }
    }

    /// The marks of use of the pool that `kind` names.
    pub open spec fn mask_of(&self, kind: PoolKind) -> u8 {
        match kind {
            PoolKind::Small => self.small_mask(),
            PoolKind::Medium => self.medium_mask(),
            PoolKind::Large => self.large_mask(),
        }
    }

    /// Every pool is well formed.
    pub closed spec fn wf(&self) -> bool {
        &&& self.small_pool.wf()
        &&& self.medium_pool.wf()
        &&& self.large_pool.wf()
    }

    /// An allocator with every block free and zeroed.
    pub fn new() -> (a: Self)
        ensures
            a.wf(),
            forall|k: PoolKind| #[trigger] a.pool_bytes(k) == Seq::new(
                Self::pool_size(k) as nat,
                |i: int| 0u8,
            ),
            a.small_mask() == 0,
            a.medium_mask() == 0,
            a.large_mask() == 0,
    {
        Self { small_pool: MemPool::new(), medium_pool: MemPool::new(), large_pool: MemPool::new() }
    }

    /// Serves a request of `size` bytes from the smallest pool whose blocks
    /// hold it: the lowest free block of that pool, or nothing when that pool
    /// is used up or the size exceeds 256 bytes.
    pub fn request(&mut self, size: usize) -> (r: Option<Block>)
        requires
            old(self).wf(),
        ensures
            final(self).wf(),
            forall|k: PoolKind| #[trigger] final(self).pool_bytes(k) == old(self).pool_bytes(k),
            size_class(size) is None ==> r is None && final(self).small_mask() == old(self).small_mask()
                && final(self).medium_mask() == old(self).medium_mask() && final(self).large_mask()
                == old(self).large_mask(),
            size_class(size) matches Some(kind) ==> {
                let blk = match kind {
                    PoolKind::Small => 16int,
                    PoolKind::Medium => 64int,
                    PoolKind::Large => 256int,
                };
                let count = match kind {
                    PoolKind::Small => 8int,
                    PoolKind::Medium => 4int,
                    PoolKind::Large => 2int,
                };
                &&& r == match first_free_block(old(self).mask_of(kind), count) {
                    Some(i) => Some(block_at(kind, i as int, blk, size)),
                    None => None::<Block>,
                }
                &&& r matches Some(b) ==> b.pool == kind && b.len == size && (b.offset as int) % blk == 0
                    && first_free_block(old(self).mask_of(kind), count) == Some(
                    ((b.offset as int) / blk) as u8,
                )
                &&& forall|k: PoolKind| k != kind ==> #[trigger] final(self).mask_of(k) == old(self).mask_of(k)
                &&& final(self).mask_of(kind) == match first_free_block(old(self).mask_of(kind), count) {
                    Some(i) => old(self).mask_of(kind) | (1u8 << i),
                    None => old(self).mask_of(kind),
                }
            },
    {
        if size <= 16 {
            match self.small_pool.alloc_block() {
                Some(i) => Some(Block { pool: PoolKind::Small, offset: i * 16, len: size }),
                None => None,
            }
        } else if size <= 64 {
            match self.medium_pool.alloc_block() {
                Some(i) => Some(Block { pool: PoolKind::Medium, offset: i * 64, len: size }),
                None => None,
            }
        } else if size <= 256 {
            match self.large_pool.alloc_block() {
                Some(i) => Some(Block { pool: PoolKind::Large, offset: i * 256, len: size }),
                None => None,
            }
        } else {
            None  // Size too large
        }
    }

    /// Frees the block that `block` lies in, in the pool it came from; a
    /// block outside its pool frees nothing.
    pub fn release(&mut self, block: &Block)
        requires
            old(self).wf(),
        ensures
            final(self).wf(),
            forall|k: PoolKind| #[trigger] final(self).pool_bytes(k) == old(self).pool_bytes(k),
            forall|k: PoolKind| k != block.pool ==> #[trigger] final(self).mask_of(k) == old(self).mask_of(k),
            block.offset < Self::pool_size(block.pool) ==> final(self).mask_of(block.pool)
                == old(self).mask_of(block.pool) & !(1u8 << (block.offset / match block.pool {
                    PoolKind::Small => 16usize,
                    PoolKind::Medium => 64usize,
                    PoolKind::Large => 256usize,
                }) as u8),
            block.offset >= Self::pool_size(block.pool) ==> final(self).mask_of(block.pool)
                == old(self).mask_of(block.pool),
    {
        if block.pool == PoolKind::Small && self.small_pool.free(block.offset) {
            return ;
        }
        if block.pool == PoolKind::Medium && self.medium_pool.free(block.offset) {
            return ;
        }
        if block.pool == PoolKind::Large && self.large_pool.free(block.offset) {
            return ;
        }
    }

    /// The bytes of `block`.
    pub fn data(&self, block: &Block) -> (d: &[u8])
        requires
            self.wf(),
            block.offset + block.len <= Self::pool_size(block.pool),
        ensures
            d@ == self.pool_bytes(block.pool).subrange(
                block.offset as int,
                block.offset + block.len,
            ),
    {
        let bytes = match block.pool {
            PoolKind::Small => self.small_pool.all_bytes(),
            PoolKind::Medium => self.medium_pool.all_bytes(),
            PoolKind::Large => self.large_pool.all_bytes(),
        };
        vstd::slice::slice_subrange(bytes, block.offset, block.offset + block.len)
    }

    /// Writes `byte` at position `i` of `block`.
    pub fn set_byte(&mut self, block: &Block, i: usize, byte: u8)
        requires
            old(self).wf(),
            i < block.len,
            block.offset + block.len <= Self::pool_size(block.pool),
        ensures
            final(self).wf(),
            forall|k: PoolKind| #[trigger] final(self).mask_of(k) == old(self).mask_of(k),
            forall|k: PoolKind| k != block.pool ==> #[trigger] final(self).pool_bytes(k) == old(self).pool_bytes(k),
            final(self).pool_bytes(block.pool) == old(self).pool_bytes(block.pool).update(
                block.offset + i,
                byte,
            ),
    {
        match block.pool {
            PoolKind::Small => self.small_pool.set_byte(block.offset + i, byte),
            PoolKind::Medium => self.medium_pool.set_byte(block.offset + i, byte),
            PoolKind::Large => self.large_pool.set_byte(block.offset + i, byte),
        }
    }
}

} // verus!
