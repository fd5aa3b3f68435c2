use vstd::prelude::*;

use crate::const_circular_buffer::wrap_index;
use crate::buffer_handle::BufferHandle;
use crate::error::BufferError;
use vstd::string::StringSliceAdditionalSpecFns;

verus! {

/// Contents after appending one byte to the contents `s` of a ring of `cap`
/// slots that keeps one slot open: the byte is dropped when the ring is full.
pub open spec fn open_ring_write_byte(s: Seq<u8>, byte: u8, cap: int) -> Seq<u8> {
    if s.len() + 1 >= cap {
        s
    } else {
        s.push(byte)
    }
}

/// Contents and result of appending all of `bytes` to the contents `s` of a
/// ring of `cap` slots that keeps one slot open.
pub open spec fn open_ring_write(s: Seq<u8>, bytes: Seq<u8>, cap: int) -> (Seq<u8>, Result<usize, BufferError>) {
    if cap - s.len() - 1 < bytes.len() {
        (s, Err(BufferError::InsufficientSpace))
    } else {
        (s + bytes, Ok(bytes.len() as usize))
    }
}

/// Contents and result of taking the oldest byte of `s`.
pub open spec fn open_ring_read_byte(s: Seq<u8>) -> (Seq<u8>, Option<u8>) {
    if s.len() == 0 {
        (s, None)
    } else {
        (s.drop_first(), Some(s[0]))
    }
}

/// A ring that keeps one slot open never holds more than its capacity less
/// one byte, whatever is written to it.
pub proof fn lemma_open_ring_bounded(s: Seq<u8>, bytes: Seq<u8>, byte: u8, cap: int)
    requires
        s.len() < cap,
    ensures
        open_ring_write_byte(s, byte, cap).len() < cap,
        open_ring_write(s, bytes, cap).0.len() < cap,
{
}

/// What a read gives back of a write: bytes written to a ring come back
/// one by one in the order they were written, after the older ones.
pub proof fn lemma_open_ring_write_then_read(s: Seq<u8>, bytes: Seq<u8>, cap: int)
    requires
        s.len() + bytes.len() < cap,
        bytes.len() > 0,
    ensures
        open_ring_write(s, bytes, cap).1 == Ok::<usize, BufferError>(bytes.len() as usize),
        open_ring_read_byte(open_ring_write(s, bytes, cap).0).1 == Some(
            if s.len() == 0 {
                bytes[0]
            } else {
                s[0]
            },
        ),
        open_ring_read_byte(open_ring_write(s, bytes, cap).0).0 == (s + bytes).drop_first(),
{
}

/// A write to a ring that keeps one slot open is all or nothing: it is
/// refused exactly when the bytes do not fit beside the open slot, and then
/// leaves the ring as it was; else it appends every byte and reports their
/// count.
pub proof fn lemma_open_ring_write_all_or_nothing(s: Seq<u8>, bytes: Seq<u8>, cap: int)
    requires
        bytes.len() <= usize::MAX,
    ensures
        open_ring_write(s, bytes, cap).1 is Err <==> s.len() + bytes.len() >= cap,
        open_ring_write(s, bytes, cap).1 is Err ==> open_ring_write(s, bytes, cap).0 == s,
        open_ring_write(s, bytes, cap).1 matches Ok(n) ==> n == bytes.len()
            && open_ring_write(s, bytes, cap).0 == s + bytes,
{
}

/// A ring buffer over a storage of fixed size that tracks no length: it keeps
/// one slot open so that a full ring can be told from an empty one.
pub struct CircularBuffer {
    // buffer capacity
    capacity: usize,
    // read position
    read_pos: usize,
    // write position
    write_pos: usize,
    // storage
    buf: Vec<u8>,
}

/// The number of bytes between the read and the write position of a ring of
/// `cap` slots.
pub open spec fn ring_distance(r: int, w: int, cap: int) -> int {
    if w >= r {
        w - r
    } else {
        cap - r + w
    }
}

impl View for CircularBuffer {
    type V = Seq<u8>;

    /// The bytes that can be read, oldest first.
    closed spec fn view(&self) -> Seq<u8> {
        Seq::new(
            ring_distance(self.read_pos as int, self.write_pos as int, self.capacity as int) as nat,
            |i: int| self.buf@[wrap_index(self.read_pos + i, self.capacity as int)],
        )
    }
}

impl CircularBuffer {
    /// Both positions lie in the storage, which is not empty.
    pub closed spec fn wf(&self) -> bool {
        &&& self.capacity == self.buf@.len()
        &&& self.capacity <= isize::MAX
        &&& 0 < self.capacity
        &&& self.read_pos < self.capacity
        &&& self.write_pos < self.capacity
    }

    /// The storage size.
    pub closed spec fn spec_capacity(&self) -> nat {
        self.capacity as nat
    }

    /// An empty ring over `storage`.
    pub fn new(storage: Vec<u8>) -> (b: Self)
        requires
            0 < storage@.len() <= isize::MAX,
        ensures
            b.wf(),
            b.spec_capacity() == storage@.len(),
            b@ == Seq::<u8>::empty(),
    {
        let capacity = storage.len();
        let b = Self { capacity, read_pos: 0, write_pos: 0, buf: storage };
        assert(b@ =~= Seq::<u8>::empty());
        b
    }

    /// An empty ring over the storage of a pool buffer.
    pub fn from(handle: BufferHandle) -> (b: Self)
        requires
            0 < handle.storage().len() <= isize::MAX,
        ensures
            b.wf(),
            b.spec_capacity() == handle.storage().len(),
            b@ == Seq::<u8>::empty(),
    {
        CircularBuffer::new(handle.into_storage())
    }

    /// The storage size.
    pub fn capacity(&self) -> (n: usize)
        requires
            self.wf(),
        ensures
            n == self.spec_capacity(),
    {
        self.capacity
    }

    /// The number of bytes that can be read.
    #[inline(always)]
    pub fn len(&self) -> (n: usize)
        requires
            self.wf(),
        ensures
            n == self@.len(),
            n < self.spec_capacity(),
    {
        // if the write position is behind the read position it has wrapped around
        if self.write_pos >= self.read_pos {
            self.write_pos - self.read_pos
        } else {
            self.capacity - self.read_pos + self.write_pos
        }
    }

    /// The number of bytes that can still be written: one slot always stays
    /// open.
    #[inline(always)]
    pub fn free_space(&self) -> (n: usize)
        requires
            self.wf(),
        ensures
            n == self.spec_capacity() - self@.len() - 1,
    {
        // since we don't track length, we always want to leave one slot open so the
        // write position never equals the read position so subtract 1
        self.capacity - self.len() - 1
    }

    /// Takes the oldest byte.
    #[inline(always)]
    pub fn read_byte(&mut self) -> (r: Option<u8>)
        requires
            old(self).wf(),
        ensures
            final(self).wf(),
            final(self).spec_capacity() == old(self).spec_capacity(),
            (final(self)@, r) == open_ring_read_byte(old(self)@),
    {
        // is there anything to read
        if self.read_pos == self.write_pos {
            assert(self@ =~= Seq::<u8>::empty());
            return None;
        }
        let ghost v0 = self@;
        // read a byte
        let byte = self.buf[self.read_pos];
        // update the read position
        self.read_pos += 1;
        // check for wrapping
        if self.read_pos == self.capacity {
            self.read_pos = 0;
        }
        assert(self@ =~= v0.drop_first());
        // return the next byte
        Some(byte)
    }

    /// Appends one byte; a full ring drops it.
    #[inline(always)]
    pub fn write_byte(&mut self, byte: u8)
        requires
            old(self).wf(),
        ensures
            final(self).wf(),
            final(self).spec_capacity() == old(self).spec_capacity(),
            final(self)@ == open_ring_write_byte(old(self)@, byte, old(self).spec_capacity() as int),
    {
        // get the next write position
        let mut next_write_pos = self.write_pos + 1;
        // check for wrapping
        if next_write_pos == self.capacity {
            next_write_pos = 0;
        }
        // if the next write position equals the read position we are full
        if next_write_pos == self.read_pos {
            return ;
        }
        let ghost v0 = self@;
        // write the byte
        self.buf[self.write_pos] = byte;
        // update the write position
        self.write_pos = next_write_pos;
        assert forall|k: int| 0 <= k < v0.len() implies self@[k] == v0[k] by {
            assert(wrap_index(self.read_pos + k, self.capacity as int) != wrap_index(
                self.read_pos + v0.len(),
                self.capacity as int,
            ));
        }
        assert(self@ =~= v0.push(byte));
    }

    /// Appends all of `bytes`, or nothing when they do not fit: first up to
    /// the end of the storage, then from its start.
    #[inline(always)]
    pub fn write(&mut self, bytes: &[u8]) -> (r: Result<usize, BufferError>)
        requires
            old(self).wf(),
        ensures
            final(self).wf(),
            final(self).spec_capacity() == old(self).spec_capacity(),
            (final(self)@, r) == open_ring_write(
                old(self)@,
                bytes@,
                old(self).spec_capacity() as int,
            ),
    {
        // get the length
        let bytes_len = bytes.len();
        // first see if it will fit
        if self.free_space() < bytes_len {
            return Err(BufferError::InsufficientSpace);
        }
        let ghost b0 = self.buf@;
        let ghost v0 = self@;
        let ghost s0 = *self;
        // get the length from the write position to the end
        let space_to_end = self.capacity - self.write_pos;
        // figure out if we can copy the whole thing or just to the end of the buffer
        let first_copy_len = if bytes_len < space_to_end {
            bytes_len
        } else {
            space_to_end
        };
        let mut i: usize = 0;
        while i < first_copy_len
            invariant
                self.buf@.len() == s0.capacity,
                self.capacity == s0.capacity,
                self.read_pos == s0.read_pos,
                self.write_pos == s0.write_pos,
                self.write_pos + first_copy_len <= self.capacity,
                first_copy_len <= bytes_len,
                bytes_len == bytes@.len(),
                i <= first_copy_len,
                forall|k: int|
                    0 <= k < self.capacity ==> self.buf@[k] == if self.write_pos <= k
                        < self.write_pos + i {
                        bytes@[k - self.write_pos]
                    } else {
                        b0[k]
                    },
            decreases first_copy_len - i,
        {
            self.buf[self.write_pos + i] = bytes[i];
            i += 1;
        }
        let ghost w0 = self.write_pos;
        // update the write position
        self.write_pos = self.write_pos + first_copy_len;
        // check for wrapping
        if self.write_pos == self.capacity {
            self.write_pos = 0;
        }
        // figure out if we have a second half to write
        let second_copy_len = bytes_len - first_copy_len;
        if second_copy_len > 0 {
            let mut j: usize = 0;
            while j < second_copy_len
                invariant
                    self.buf@.len() == s0.capacity,
                    self.capacity == s0.capacity,
                    self.read_pos == s0.read_pos,
                    self.write_pos == 0,
                    first_copy_len == s0.capacity - w0,
                    second_copy_len == bytes_len - first_copy_len,
                    second_copy_len < w0,
                    bytes_len == bytes@.len(),
                    j <= second_copy_len,
                    forall|k: int|
                        0 <= k < self.capacity ==> self.buf@[k] == if w0 <= k {
                            bytes@[k - w0]
                        } else if k < j {
                            bytes@[first_copy_len + k]
                        } else {
                            b0[k]
                        },
                decreases second_copy_len - j,
            {
                self.buf[j] = bytes[first_copy_len + j];
                j += 1;
            }
            // update the write position
            self.write_pos = second_copy_len;
        }
        assert(self.write_pos == wrap_index(w0 + bytes_len, self.capacity as int));
        assert(self@.len() == v0.len() + bytes_len);
        assert forall|k: int| 0 <= k < v0.len() + bytes_len implies #[trigger] self@[k] == (v0
            + bytes@)[k] by {
            if k < v0.len() {
                assert(self@[k] == self.buf@[wrap_index(self.read_pos + k, self.capacity as int)]);
            } else {
                assert(wrap_index(self.read_pos + k, self.capacity as int) == wrap_index(
                    w0 + (k - v0.len()),
                    self.capacity as int,
                ));
            }
        }
        assert(self@ =~= v0 + bytes@);
        // return
        Ok(bytes_len)
    }

    /// Appends the bytes of `s` as `write` does.
    pub fn write_str(&mut self, s: &str) -> (r: Result<(), BufferError>)
        requires
            old(self).wf(),
        ensures
            final(self).wf(),
            final(self).spec_capacity() == old(self).spec_capacity(),
            final(self)@ == open_ring_write(
                old(self)@,
                s.spec_bytes(),
                old(self).spec_capacity() as int,
            ).0,
            r == match open_ring_write(
                old(self)@,
                s.spec_bytes(),
                old(self).spec_capacity() as int,
            ).1 {
                Ok(_) => Ok::<(), BufferError>(()),
                Err(e) => Err(e),
            },
    {
        match self.write(s.as_bytes()) {
            Ok(_) => Ok(()),
            Err(e) => Err(e),
        }
    }
}

} // verus!
