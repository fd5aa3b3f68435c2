use vstd::prelude::*;

use crate::const_circular_buffer::min_int;
use crate::buffer_handle::BufferHandle;
use crate::error::BufferError;
use vstd::string::StringSliceAdditionalSpecFns;

verus! {

/// The abstract state of a flat buffer: its storage, where the readable bytes
/// start and how many there are. Bytes are written right after them.
pub struct FlatModel {
    pub storage: Seq<u8>,
    pub start: nat,
    pub len: nat,
}

impl FlatModel {
    /// Storage size.
    pub open spec fn capacity(self) -> nat {
        self.storage.len()
    }

    /// Where the next byte is written.
    pub open spec fn write_pos(self) -> nat {
        self.start + self.len
    }

    /// The bytes that can be read, oldest first.
    pub open spec fn contents(self) -> Seq<u8> {
        self.storage.subrange(self.start as int, self.write_pos() as int)
    }

    /// How many bytes may still be written, counted against the length only.
    pub open spec fn free_space(self) -> nat {
        (self.capacity() - self.len) as nat
    }

    /// The positions fit in the storage.
    pub open spec fn valid(self) -> bool {
        self.write_pos() <= self.capacity()
    }

    /// The same storage with nothing to read, positioned at its start.
    pub open spec fn reset(self) -> FlatModel {
        FlatModel { storage: self.storage, start: 0, len: 0 }
    }

    /// State and result of taking the oldest byte.
    pub open spec fn read_byte(self) -> (FlatModel, Result<u8, BufferError>) {
        if self.len == 0 {
            (self, Err(BufferError::BufferEmpty))
        } else {
            (
                FlatModel { storage: self.storage, start: self.start + 1, len: (self.len - 1) as nat },
                Ok(self.storage[self.start as int]),
            )
        }
    }

    /// `bytes` laid over the storage at the write position, the length grown
    /// by their count.
    pub open spec fn append(self, bytes: Seq<u8>) -> FlatModel {
        FlatModel {
            storage: self.storage.subrange(0, self.write_pos() as int) + bytes
                + self.storage.subrange((self.write_pos() + bytes.len()) as int, self.capacity() as int),
            start: self.start,
            len: self.len + bytes.len(),
        }
    }

    /// A one byte write stays inside the storage unless the buffer is full.
    pub open spec fn write_byte_fits(self) -> bool {
        self.len < self.capacity() ==> self.write_pos() < self.capacity()
    }

    /// State and result of appending one byte.
    pub open spec fn write_byte(self, byte: u8) -> (FlatModel, Result<(), BufferError>) {
        if self.len == self.capacity() {
            (self, Err(BufferError::InsufficientSpace))
        } else {
            (self.append(seq![byte]), Ok(()))
        }
    }

    /// How many of `count` bytes a partial write takes.
    pub open spec fn write_len(self, count: nat) -> int {
        min_int(count as int, self.free_space() as int)
    }

    /// A partial write of `count` bytes stays inside the storage unless the
    /// buffer is full.
    pub open spec fn write_fits(self, count: nat) -> bool {
        self.len < self.capacity() ==> self.write_pos() + self.write_len(count) <= self.capacity()
    }

    /// State and result of appending as many of `bytes` as the free space
    /// allows; a full buffer refuses the write.
    pub open spec fn write(self, bytes: Seq<u8>) -> (FlatModel, Result<usize, BufferError>) {
        if self.len == self.capacity() {
            (self, Err(BufferError::InsufficientSpace))
        } else {
            let n = self.write_len(bytes.len());
            (self.append(bytes.subrange(0, n)), Ok(n as usize))
        }
    }

    /// A whole write of `count` bytes stays inside the storage when the free
    /// space allows it.
    pub open spec fn write_all_fits(self, count: nat) -> bool {
        count <= self.free_space() ==> self.write_pos() + count <= self.capacity()
    }

    /// Every write of up to the free space stays inside the storage, as it
    /// does after a reset.
    pub open spec fn writes_fit(self) -> bool {
        self.write_pos() + self.free_space() <= self.capacity()
    }

    /// State and result of appending all of `bytes`, or nothing when the free
    /// space is too small.
    pub open spec fn write_all(self, bytes: Seq<u8>) -> (FlatModel, Result<usize, BufferError>) {
        if self.free_space() < bytes.len() {
            (self, Err(BufferError::InsufficientSpace))
        } else {
            (self.append(bytes), Ok(bytes.len() as usize))
        }
    }
}

/// What a read gives back of a write: after all of `bytes` is appended, the
/// readable bytes are the old ones followed by `bytes`.
pub proof fn lemma_flat_write_all_then_contents(m: FlatModel, bytes: Seq<u8>)
    requires
        m.valid(),
        bytes.len() <= m.free_space(),
        m.write_all_fits(bytes.len()),
    ensures
        m.write_all(bytes).1 == Ok::<usize, BufferError>(bytes.len() as usize),
        m.write_all(bytes).0.valid(),
        m.write_all(bytes).0.contents() == m.contents() + bytes,
        m.write_all(bytes).0.capacity() == m.capacity(),
{
    let m2 = m.write_all(bytes).0;
    assert(m2.storage.len() == m.storage.len());
    assert(m2.contents() =~= m.contents() + bytes);
}

/// The count a partial write reports is the number of bytes it appended: it
/// appends the first `n` of `bytes`, as many as the free space allows, and
/// reports `n`; only a full buffer refuses it, and then nothing changes.
pub proof fn lemma_flat_write_counts(m: FlatModel, bytes: Seq<u8>)
    requires
        m.valid(),
        m.write_fits(bytes.len()),
        bytes.len() <= usize::MAX,
    ensures
        m.write(bytes).1 is Err <==> m.len == m.capacity(),
        m.write(bytes).1 is Err ==> m.write(bytes).0 == m,
        m.write(bytes).1 matches Ok(n) ==> {
            &&& n <= bytes.len()
            &&& m.write(bytes).0.contents() == m.contents() + bytes.subrange(0, n as int)
            &&& m.write(bytes).0.len == m.len + n
            &&& (n == bytes.len() || m.len + n == m.capacity())
        },
{
    if m.len < m.capacity() {
        let n = m.write_len(bytes.len());
        let m2 = m.write(bytes).0;
        assert(m2.storage.len() == m.storage.len());
        assert(m2.contents() =~= m.contents() + bytes.subrange(0, n));
    }
}

/// Bytes leave in the order they came: reading after writing one byte gives
/// the oldest byte, which is the written one only when nothing was readable.
pub proof fn lemma_flat_byte_fifo(m: FlatModel, byte: u8)
    requires
        m.valid(),
        m.len < m.capacity(),
        m.write_byte_fits(),
    ensures
        m.write_byte(byte).0.read_byte().1 == Ok::<u8, BufferError>(
            if m.len == 0 {
                byte
            } else {
                m.contents()[0]
            },
        ),
        m.write_byte(byte).0.read_byte().0.contents() == m.contents().push(byte).drop_first(),
{
    let m1 = m.write_byte(byte).0;
    assert(m1.contents() =~= m.contents().push(byte));
    let m2 = m1.read_byte().0;
    assert(m2.contents() =~= m1.contents().drop_first());
}

/// After a reset the whole storage is free again and any write that fits in
/// the storage is accepted in full.
pub proof fn lemma_flat_reset_frees_all(m: FlatModel, bytes: Seq<u8>)
    requires
        m.valid(),
        bytes.len() <= m.capacity(),
    ensures
        m.reset().contents() == Seq::<u8>::empty(),
        m.reset().free_space() == m.capacity(),
        m.reset().write_all_fits(bytes.len()),
        m.reset().write_all(bytes).1 == Ok::<usize, BufferError>(bytes.len() as usize),
        m.reset().write_all(bytes).0.contents() == bytes,
{
    let m2 = m.reset().write_all(bytes).0;
    assert(m.reset().contents() =~= Seq::<u8>::empty());
    assert(m2.contents() =~= bytes);
}

/// A linear byte buffer over a fixed storage: bytes are written after the
/// readable ones and read from the front; space is only recovered by a reset.
pub struct FlatBuffer {
    // read position
    r_pos: usize,
    // write position
    w_pos: usize,
    // tracked length
    len: usize,
    // storage
    buf: Vec<u8>,
}

impl View for FlatBuffer {
    type V = FlatModel;

    closed spec fn view(&self) -> FlatModel {
        FlatModel { storage: self.buf@, start: self.r_pos as nat, len: self.len as nat }
    }
}

impl FlatBuffer {
    /// The positions describe a valid state of the storage.
    pub closed spec fn wf(&self) -> bool {
        &&& self.r_pos + self.len == self.w_pos
        &&& self.w_pos <= self.buf.len()
    }

    /// A well formed buffer has valid positions.
    pub proof fn lemma_wf_valid(&self)
        requires
            self.wf(),
        ensures
            self@.valid(),
    {
    }

    /// A buffer over `storage` with nothing to read.
    pub fn new(storage: Vec<u8>) -> (b: Self)
        ensures
            b.wf(),
            b@ == (FlatModel { storage: storage@, start: 0, len: 0 }),
    {
        Self { r_pos: 0, w_pos: 0, len: 0, buf: storage }
    }

    /// A buffer over the storage of a pool buffer, with nothing to read.
    pub fn from(handle: BufferHandle) -> (b: Self)
        ensures
            b.wf(),
            b@ == (FlatModel { storage: handle.storage(), start: 0, len: 0 }),
    {
        FlatBuffer::new(handle.into_storage())
    }

    /// The storage size.
    pub fn capacity(&self) -> (n: usize)
        ensures
            n == self@.capacity(),
    {
        self.buf.len()
    }

    /// Where the next byte is written.
    pub fn write_pos(&self) -> (n: usize)
        requires
            self.wf(),
        ensures
            n == self@.write_pos(),
    {
        self.w_pos
    }

    /// The number of bytes that can be read.
    #[inline(always)]
    pub fn len(&self) -> (n: usize)
        requires
            self.wf(),
        ensures
            n == self@.len,
    {
        self.len
    }

    /// The storage size less the readable bytes.
    #[inline(always)]
    pub fn free_space(&self) -> (n: usize)
        requires
            self.wf(),
        ensures
            n == self@.free_space(),
    {
        self.buf.len() - self.len
    }

    /// Whether the readable bytes fill the storage.
    #[inline(always)]
    pub fn is_full(&self) -> (b: bool)
        requires
            self.wf(),
        ensures
            b == (self@.len == self@.capacity()),
    {
        self.len == self.buf.len()
    }

    /// Whether nothing can be read.
    #[inline(always)]
    pub fn is_empty(&self) -> (b: bool)
        requires
            self.wf(),
        ensures
            b == (self@.len == 0),
    {
        self.len == 0
    }

    /// Drops every byte, rewinds to the start of the storage and returns its
    /// size.
    #[inline(always)]
    pub fn reset(&mut self) -> (n: usize)
        requires
            old(self).wf(),
        ensures
            final(self).wf(),
            final(self)@ == old(self)@.reset(),
            n == old(self)@.capacity(),
    {
        self.r_pos = 0;
        self.w_pos = 0;
        self.len = 0;
        return self.buf.len();
    }

    /// Takes the oldest byte.
    #[inline(always)]
    pub fn read_byte(&mut self) -> (r: Result<u8, BufferError>)
        requires
            old(self).wf(),
        ensures
            final(self).wf(),
            (final(self)@, r) == old(self)@.read_byte(),
    {
        // is there anything to read
        if self.is_empty() {
            return Err(BufferError::BufferEmpty);
        }
        // read a byte
        let byte = self.buf[self.r_pos];
        // update the read position
        self.r_pos += 1;
        // update the length
        self.len -= 1;
        // return the next byte
        Ok(byte)
    }

    /// Copies `bytes[..n]` to the write position.
    fn copy_in(&mut self, bytes: &[u8], n: usize)
        requires
            old(self).wf(),
            n <= bytes@.len(),
            old(self).w_pos + n <= old(self).buf@.len(),
        ensures
            final(self).wf(),
            final(self)@ == old(self)@.append(bytes@.subrange(0, n as int)),
    {
        let ghost s0 = *self;
        let mut i: usize = 0;
        while i < n
            invariant
                self.r_pos == s0.r_pos,
                self.w_pos == s0.w_pos,
                self.len == s0.len,
                self.buf@.len() == s0.buf@.len(),
                self.w_pos + n <= self.buf.len(),
                n <= bytes@.len(),
                i <= n,
                forall|k: int|
                    0 <= k < self.buf@.len() ==> self.buf@[k] == if self.w_pos <= k < self.w_pos
                        + i {
                        bytes@[k - self.w_pos]
                    } else {
                        s0.buf@[k]
                    },
            decreases n - i,
        {
            self.buf[self.w_pos + i] = bytes[i];
            i += 1;
        }
        // update the write position
        self.w_pos += n;
        // update length
        self.len += n;
        assert(self.buf@ =~= s0@.append(bytes@.subrange(0, n as int)).storage);
    }

    /// Appends one byte.
    #[inline(always)]
    pub fn write_byte(&mut self, byte: u8) -> (r: Result<(), BufferError>)
        requires
            old(self).wf(),
            old(self)@.write_byte_fits(),
        ensures
            final(self).wf(),
            (final(self)@, r) == old(self)@.write_byte(byte),
    {
        // are we full
        if self.is_full() {
            return Err(BufferError::InsufficientSpace);
        }
        let ghost s0 = self@;
        // write the byte
        self.buf[self.w_pos] = byte;
        // update the write position
        self.w_pos += 1;
        // update the length
        self.len += 1;
        assert(self.buf@ =~= s0.append(seq![byte]).storage);
        // everything is fine
        Ok(())
    }

    /// Appends as many of `bytes` as the free space allows; fails when full.
    #[inline(always)]
    pub fn write(&mut self, bytes: &[u8]) -> (r: Result<usize, BufferError>)
        requires
            old(self).wf(),
            old(self)@.write_fits(bytes@.len()),
        ensures
            final(self).wf(),
            (final(self)@, r) == old(self)@.write(bytes@),
    {
        // can we write any
        if self.is_full() {
            return Err(BufferError::InsufficientSpace);
        }
        // figure out how much we can write
        let free = self.free_space();
        let len = if bytes.len() < free {
            bytes.len()
        } else {
            free
        };
        self.copy_in(bytes, len);
        // return
        Ok(len)
    }

    /// Appends all of `bytes`, or nothing when the free space is too small.
    #[inline(always)]
    pub fn write_all(&mut self, bytes: &[u8]) -> (r: Result<usize, BufferError>)
        requires
            old(self).wf(),
            old(self)@.write_all_fits(bytes@.len()),
        ensures
            final(self).wf(),
            (final(self)@, r) == old(self)@.write_all(bytes@),
    {
        // cache the length
        let len = bytes.len();
        // first see if it will fit
        if self.free_space() < len {
            return Err(BufferError::InsufficientSpace);
        }
        self.copy_in(bytes, len);
        assert(bytes@.subrange(0, len as int) =~= bytes@);
        // return
        Ok(len)
    }

    /// Appends the bytes of `s` as `write_all` does; fails without writing
    /// when they do not fit.
    pub fn write_str(&mut self, s: &str) -> (r: Result<(), BufferError>)
        requires
            old(self).wf(),
            old(self)@.write_all_fits(s.spec_bytes().len()),
        ensures
            final(self).wf(),
            final(self)@ == old(self)@.write_all(s.spec_bytes()).0,
            r == match old(self)@.write_all(s.spec_bytes()).1 {
                Ok(_) => Ok::<(), BufferError>(()),
                Err(e) => Err(e),
            },
    {
        match self.write_all(s.as_bytes()) {
            Ok(_) => Ok(()),
            Err(e) => Err(e),
        }
    }

    /// The bytes that can be read.
    pub fn as_ref(&self) -> (s: &[u8])
        requires
            self.wf(),
        ensures
            s@ == self@.contents(),
    {
        let start = self.r_pos;
        let end = start + self.len;
        vstd::slice::slice_subrange(self.buf.as_slice(), start, end)
    }
}

} // verus!
