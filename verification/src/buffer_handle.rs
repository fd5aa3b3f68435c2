use vstd::prelude::*;

verus! {

/// A buffer handed out by a buffer pool: its storage and the index under
/// which the pool takes it back.
pub struct BufferHandle {
    // the storage of the buffer
    pub(crate) buffer: Vec<u8>,
    // index to return to buffer pool
    pub(crate) pool_idx: u8,
}

impl BufferHandle {
    /// A handle for `buffer`, returned to the pool under `pool_idx`.
    pub fn new(buffer: Vec<u8>, pool_idx: u8) -> (h: Self)
        ensures
            h.storage() == buffer@,
            h.spec_pool_idx() == pool_idx,
    {
        Self { buffer, pool_idx }
    }

    /// The bytes of the buffer.
    pub closed spec fn storage(&self) -> Seq<u8> {
        self.buffer@
    }

    /// The index under which the pool takes the buffer back.
    pub closed spec fn spec_pool_idx(&self) -> u8 {
        self.pool_idx
    }

    /// The index under which the pool takes the buffer back.
    pub fn pool_idx(&self) -> (i: u8)
        ensures
            i == self.spec_pool_idx(),
    {
        self.pool_idx
    }

    /// The buffer size.
    pub fn capacity(&self) -> (n: usize)
        ensures
            n == self.storage().len(),
    {
        self.buffer.len()
    }

    /// The storage of the buffer, taken out of the handle.
    pub fn into_storage(self) -> (v: Vec<u8>)
        ensures
            v@ == self.storage(),
    {
        self.buffer
    }
}

} // verus!
