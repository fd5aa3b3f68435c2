use vstd::prelude::*;

use crate::error::{BufferError, ReadError, ReadStatus};
use vstd::string::StringSliceAdditionalSpecFns;

verus! {

/// The physical slot of logical position `i` in a ring of `cap` slots, for
/// `i < 2 * cap`.
pub open spec fn wrap_index(i: int, cap: int) -> int {
    if i < cap {
        i
    } else {
        i - cap
    }
}

/// The smaller of two integers.
pub open spec fn min_int(a: int, b: int) -> int {
    if a <= b {
        a
    } else {
        b
    }
}

/// Whether `i` is the position of the first `term` among the first `n`
/// bytes of `s`.
pub open spec fn is_first_term(s: Seq<u8>, n: int, term: u8, i: int) -> bool {
    &&& 0 <= i < n
    &&& s[i] == term
    &&& forall|j: int| 0 <= j < i ==> s[j] != term
}

/// Whether a `term` occurs among the first `n` bytes of `s`.
pub open spec fn has_term_within(s: Seq<u8>, n: int, term: u8) -> bool {
    exists|i: int| is_first_term(s, n, term, i)
}

/// How many bytes a read up to `term` takes out of `s` into a destination of
/// `dest_len` bytes: up to and including the first `term` among the bytes
/// that both sides allow, else all of those bytes.
pub open spec fn terminated_read_len(s: Seq<u8>, dest_len: int, term: u8) -> int {
    let n = min_int(dest_len, s.len() as int);
    if has_term_within(s, n, term) {
        (choose|i: int| is_first_term(s, n, term, i)) + 1
    } else {
        n
    }
}

/// The status of a read up to `term` of `s` into a destination of `dest_len`
/// bytes: complete when the terminator was reached, the destination full
/// when it filled first, partial when the source ran out first.
pub open spec fn terminated_read_status(s: Seq<u8>, dest_len: int, term: u8) -> ReadStatus {
    let n = min_int(dest_len, s.len() as int);
    let k = terminated_read_len(s, dest_len, term) as usize;
    if has_term_within(s, n, term) {
        ReadStatus::Complete(k)
    } else if n == dest_len {
        ReadStatus::BufferFull(k)
    } else {
        ReadStatus::Partial(k)
    }
}

/// The first terminator is unique: any position that is the first `term`
/// among the first `n` bytes is the one that `terminated_read_len` counts to.
pub proof fn lemma_first_term_unique(s: Seq<u8>, n: int, term: u8, i: int)
    requires
        is_first_term(s, n, term, i),
    ensures
        has_term_within(s, n, term),
        (choose|k: int| is_first_term(s, n, term, k)) == i,
{
    let c = choose|k: int| is_first_term(s, n, term, k);
    assert(is_first_term(s, n, term, c));
    if c < i {
        assert(s[c] != term);
    } else if i < c {
        assert(s[i] != term);
    }
}

/// Contents and result of appending all of `bytes` to the contents `s` of a
/// ring of `cap` bytes: nothing is written when they do not all fit.
pub open spec fn ring_write_all(s: Seq<u8>, bytes: Seq<u8>, cap: int) -> (Seq<u8>, Result<usize, BufferError>) {
    if cap - s.len() < bytes.len() {
        (s, Err(BufferError::InsufficientSpace))
    } else {
        (s + bytes, Ok(bytes.len() as usize))
    }
}

/// Contents and result of appending as many of `bytes` as fit to the contents
/// `s` of a ring of `cap` bytes; a full ring refuses the write.
pub open spec fn ring_write(s: Seq<u8>, bytes: Seq<u8>, cap: int) -> (Seq<u8>, Result<usize, BufferError>) {
    if s.len() == cap {
        (s, Err(BufferError::InsufficientSpace))
    } else {
        let n = min_int(bytes.len() as int, cap - s.len());
        (s + bytes.subrange(0, n), Ok(n as usize))
    }
}

/// Contents and result of appending one byte to the contents `s` of a ring of
/// `cap` bytes.
pub open spec fn ring_write_byte(s: Seq<u8>, byte: u8, cap: int) -> (Seq<u8>, Result<(), BufferError>) {
    if s.len() == cap {
        (s, Err(BufferError::InsufficientSpace))
    } else {
        (s.push(byte), Ok(()))
    }
}

/// Contents and result of taking the oldest byte of the contents `s`.
pub open spec fn ring_read_byte(s: Seq<u8>) -> (Seq<u8>, Result<u8, ReadError>) {
    if s.len() == 0 {
        (s, Err(ReadError::SourceEmpty))
    } else {
        (s.drop_first(), Ok(s[0]))
    }
}

/// Contents, destination and result of moving the first `n` bytes of `s`
/// over the front of `dest`.
pub open spec fn move_front(s: Seq<u8>, dest: Seq<u8>, n: int) -> (Seq<u8>, Seq<u8>) {
    (s.subrange(n, s.len() as int), s.subrange(0, n) + dest.subrange(n, dest.len() as int))
}

/// Contents, destination and result of reading as many bytes of `s` as fit
/// into `dest`.
pub open spec fn ring_read(s: Seq<u8>, dest: Seq<u8>) -> (Seq<u8>, Seq<u8>, Result<usize, ReadError>) {
    if dest.len() == 0 {
        (s, dest, Err(ReadError::DestinationEmpty))
    } else if s.len() == 0 {
        (s, dest, Err(ReadError::SourceEmpty))
    } else {
        let n = min_int(dest.len() as int, s.len() as int);
        let (s2, d2) = move_front(s, dest, n);
        (s2, d2, Ok(n as usize))
    }
}

/// Contents, destination and result of reading `s` into `dest` up to the
/// terminator `term`.
pub open spec fn ring_read_to(s: Seq<u8>, dest: Seq<u8>, term: u8) -> (Seq<u8>, Seq<u8>, Result<ReadStatus, ReadError>) {
    if dest.len() == 0 {
        (s, dest, Err(ReadError::DestinationEmpty))
    } else if s.len() == 0 {
        (s, dest, Err(ReadError::SourceEmpty))
    } else {
        let n = terminated_read_len(s, dest.len() as int, term);
        let (s2, d2) = move_front(s, dest, n);
        (s2, d2, Ok(terminated_read_status(s, dest.len() as int, term)))
    }
}

/// What a read gives back of a write: after all of `bytes` is appended to the
/// contents `s`, a read into a destination that holds everything returns `s`
/// followed by `bytes`, in order, and empties the ring.
pub proof fn lemma_ring_write_all_then_read(s: Seq<u8>, bytes: Seq<u8>, dest: Seq<u8>, cap: int)
    requires
        s.len() + bytes.len() <= cap,
        s.len() + bytes.len() > 0,
        dest.len() >= s.len() + bytes.len(),
    ensures
        ({
            let (s1, w) = ring_write_all(s, bytes, cap);
            let (s2, d2, r) = ring_read(s1, dest);
            &&& w == Ok::<usize, BufferError>(bytes.len() as usize)
            &&& r == Ok::<usize, ReadError>((s.len() + bytes.len()) as usize)
            &&& s2.len() == 0
            &&& d2.subrange(0, (s.len() + bytes.len()) as int) == s + bytes
        }),
{
    let (s1, w) = ring_write_all(s, bytes, cap);
    let (s2, d2, r) = ring_read(s1, dest);
    assert(d2.subrange(0, (s.len() + bytes.len()) as int) =~= s + bytes);
}

/// Bytes leave in the order they came: writing `byte` and then reading one
/// byte returns the oldest byte, which is `byte` itself only when the ring was
/// empty.
pub proof fn lemma_ring_byte_fifo(s: Seq<u8>, byte: u8, cap: int)
    requires
        s.len() < cap,
    ensures
        ring_read_byte(ring_write_byte(s, byte, cap).0) == if s.len() == 0 {
            (Seq::<u8>::empty(), Ok::<u8, ReadError>(byte))
        } else {
            (s.drop_first().push(byte), Ok::<u8, ReadError>(s[0]))
        },
{
    if s.len() == 0 {
        assert(s.push(byte).drop_first() =~= Seq::<u8>::empty());
    } else {
        assert(s.push(byte).drop_first() =~= s.drop_first().push(byte));
    }
}

/// No write lets the contents grow past the capacity, and a refused write
/// leaves them as they were.
pub proof fn lemma_ring_writes_bounded(s: Seq<u8>, bytes: Seq<u8>, byte: u8, cap: int)
    requires
        s.len() <= cap,
    ensures
        ring_write_all(s, bytes, cap).0.len() <= cap,
        ring_write(s, bytes, cap).0.len() <= cap,
        ring_write_byte(s, byte, cap).0.len() <= cap,
        ring_write_all(s, bytes, cap).1 is Err ==> ring_write_all(s, bytes, cap).0 == s,
        ring_write(s, bytes, cap).1 is Err ==> ring_write(s, bytes, cap).0 == s,
        ring_write_byte(s, byte, cap).1 is Err ==> ring_write_byte(s, byte, cap).0 == s,
{
}

/// The count a write reports is the number of bytes it appended: a partial
/// write appends the first `n` of `bytes`, as many as fit, and reports `n`; it
/// is refused only by a full ring. A whole write appends everything and
/// reports its length, or is refused, unchanged, when it does not all fit.
pub proof fn lemma_ring_write_counts(s: Seq<u8>, bytes: Seq<u8>, cap: int)
    requires
        s.len() <= cap,
        bytes.len() <= usize::MAX,
    ensures
        ring_write(s, bytes, cap).1 is Err <==> s.len() == cap,
        ring_write(s, bytes, cap).1 matches Ok(n) ==> {
            &&& n <= bytes.len()
            &&& ring_write(s, bytes, cap).0 == s + bytes.subrange(0, n as int)
            &&& (n == bytes.len() || s.len() + n == cap)
        },
        ring_write_all(s, bytes, cap).1 is Err <==> s.len() + bytes.len() > cap,
        ring_write_all(s, bytes, cap).1 matches Ok(n) ==> n == bytes.len()
            && ring_write_all(s, bytes, cap).0 == s + bytes,
        ring_write_byte(s, 0u8, cap).1 is Err <==> s.len() == cap,
{
}

/// A ring buffer of bytes with a fixed capacity and a tracked length.
pub struct ConstCircularBuffer<const CAPACITY: usize> {
    // read position
    r_pos: usize,
    // write position
    w_pos: usize,
    // tracked length
    len: usize,
    // our storage
    buf: Vec<u8>,
}

impl<const CAPACITY: usize> View for ConstCircularBuffer<CAPACITY> {
    type V = Seq<u8>;

    /// The bytes that can be read, oldest first.
    closed spec fn view(&self) -> Seq<u8> {
        Seq::new(
            self.len as nat,
            |i: int| self.buf@[wrap_index(self.r_pos + i, CAPACITY as int)],
        )
    }
}

impl<const CAPACITY: usize> ConstCircularBuffer<CAPACITY> {
    /// The positions and the length describe a ring over `CAPACITY` slots.
    pub closed spec fn wf(&self) -> bool {
        &&& CAPACITY <= isize::MAX
        &&& self.buf@.len() == CAPACITY
        &&& self.len <= CAPACITY
        &&& if CAPACITY == 0 {
            self.r_pos == 0 && self.w_pos == 0
        } else {
            self.r_pos < CAPACITY && self.w_pos < CAPACITY
        }
        &&& self.w_pos == wrap_index(self.r_pos + self.len, CAPACITY as int)
    }

    /// A buffer never holds more bytes than its capacity.
    pub proof fn lemma_len_bounded(&self)
        requires
            self.wf(),
        ensures
            self@.len() <= CAPACITY,
    {
    }

    /// An empty buffer.
    pub fn new() -> (b: Self)
        requires
            CAPACITY <= isize::MAX,
        ensures
            b.wf(),
            b@ == Seq::<u8>::empty(),
    {
        let mut buf: Vec<u8> = Vec::new();
        let mut i: usize = 0;
        while i < CAPACITY
            invariant
                i <= CAPACITY,
                buf@.len() == i,
            decreases CAPACITY - i,
        {
            buf.push(0);
            i += 1;
        }
        let b = Self { r_pos: 0, w_pos: 0, len: 0, buf };
        assert(b@ =~= Seq::<u8>::empty());
        b
    }

    /// The number of bytes that can be read.
    #[inline(always)]
    pub fn len(&self) -> (n: usize)
        requires
            self.wf(),
        ensures
            n == self@.len(),
    {
        self.len
    }

    /// The number of bytes that can still be written.
    #[inline(always)]
    pub fn free_space(&self) -> (n: usize)
        requires
            self.wf(),
        ensures
            n == CAPACITY - self@.len(),
    {
        CAPACITY - self.len
    }

    /// Whether no byte can be written.
    #[inline(always)]
    pub fn is_full(&self) -> (b: bool)
        requires
            self.wf(),
        ensures
            b == (self@.len() == CAPACITY),
    {
        self.len == CAPACITY
    }

    /// Whether no byte can be read.
    #[inline(always)]
    pub fn is_empty(&self) -> (b: bool)
        requires
            self.wf(),
        ensures
            b == (self@.len() == 0),
    {
        self.len == 0
    }

    /// Drops every byte and returns the capacity.
    #[inline(always)]
    pub fn reset(&mut self) -> (n: usize)
        requires
            old(self).wf(),
        ensures
            final(self).wf(),
            final(self)@ == Seq::<u8>::empty(),
            n == CAPACITY,
    {
        self.r_pos = 0;
        self.w_pos = 0;
        self.len = 0;
        assert(self@ =~= Seq::<u8>::empty());
        return CAPACITY;
    }

    /// Takes the oldest byte.
    #[inline(always)]
    pub fn read_byte(&mut self) -> (r: Result<u8, ReadError>)
        requires
            old(self).wf(),
        ensures
            final(self).wf(),
            (final(self)@, r) == ring_read_byte(old(self)@),
    {
        // is there anything to read
        if self.is_empty() {
            return Err(ReadError::SourceEmpty);
        }
        // read a byte
        let byte = self.buf[self.r_pos];
        // update the read position
        self.r_pos += 1;
        // check for wrapping
        if self.r_pos == CAPACITY {
            self.r_pos = 0;
        }
        // update the length
        self.len -= 1;
        assert(self@ =~= old(self)@.drop_first());
        // return the next byte
        Ok(byte)
    }

    /// Copies the `n` oldest bytes into the front of `dest`, first the part up
    /// to the end of the storage, then the part that wraps around.
    fn copy_out(&self, dest: &mut [u8], n: usize)
        requires
            self.wf(),
            n <= self@.len(),
            n <= old(dest)@.len(),
        ensures
            final(dest)@ == self@.subrange(0, n as int) + old(dest)@.subrange(
                n as int,
                old(dest)@.len() as int,
            ),
    {
        let ghost d0 = dest@;
        // get the length from the read position to the end
        let len_to_end = CAPACITY - self.r_pos;
        // figure out if we can copy the whole thing or just to the end of the buffer
        let first_copy_len = if n < len_to_end {
            n
        } else {
            len_to_end
        };
        let mut i: usize = 0;
        while i < first_copy_len
            invariant
                self.wf(),
                first_copy_len <= n,
                self.r_pos + first_copy_len <= CAPACITY,
                n <= self@.len(),
                i <= first_copy_len,
                dest@.len() == d0.len(),
                n <= d0.len(),
                forall|k: int| 0 <= k < i ==> dest@[k] == self@[k],
                forall|k: int| i <= k < d0.len() ==> dest@[k] == d0[k],
            decreases first_copy_len - i,
        {
            dest[i] = self.buf[self.r_pos + i];
            i += 1;
        }
        // figure out if we have a second half to copy
        let second_copy_len = n - first_copy_len;
        if second_copy_len > 0 {
            let mut j: usize = 0;
            while j < second_copy_len
                invariant
                    self.wf(),
                    CAPACITY > 0,
                    first_copy_len == CAPACITY - self.r_pos,
                    second_copy_len == n - first_copy_len,
                    n <= self@.len(),
                    j <= second_copy_len,
                    dest@.len() == d0.len(),
                    n <= d0.len(),
                    forall|k: int| 0 <= k < first_copy_len + j ==> dest@[k] == self@[k],
                    forall|k: int| first_copy_len + j <= k < d0.len() ==> dest@[k] == d0[k],
                decreases second_copy_len - j,
            {
                dest[first_copy_len + j] = self.buf[j];
                j += 1;
            }
        }
        assert(dest@ =~= self@.subrange(0, n as int) + d0.subrange(n as int, d0.len() as int));
    }

    /// Drops the `n` oldest bytes.
    fn advance_read(&mut self, n: usize)
        requires
            old(self).wf(),
            n <= old(self)@.len(),
        ensures
            final(self).wf(),
            final(self)@ == old(self)@.subrange(n as int, old(self)@.len() as int),
    {
        // update the read position
        self.r_pos += n;
        // check for wrapping
        if self.r_pos >= CAPACITY {
            self.r_pos -= CAPACITY;
        }
        // update length
        self.len -= n;
        assert(self@ =~= old(self)@.subrange(n as int, old(self)@.len() as int));
    }

    /// Copies as many of the oldest bytes as fit into `dest` and drops them.
    #[inline(always)]
    pub fn read(&mut self, dest: &mut [u8]) -> (r: Result<usize, ReadError>)
        requires
            old(self).wf(),
        ensures
            final(self).wf(),
            (final(self)@, final(dest)@, r) == ring_read(old(self)@, old(dest)@),
    {
        // is the destination empty
        if dest.len() == 0 {
            return Err(ReadError::DestinationEmpty);
        }
        // do we have anything to read
        if self.is_empty() {
            return Err(ReadError::SourceEmpty);
        }
        // get how much we can read
        let len = if dest.len() < self.len {
            dest.len()
        } else {
            self.len
        };
        self.copy_out(dest, len);
        self.advance_read(len);
        // return
        Ok(len)
    }

    /// Copies the oldest bytes into `dest` and drops them, up to and
    /// including the first `term` (a complete read); without a terminator,
    /// as many as fit (a full destination) or as many as there are (a partial
    /// read).
    #[inline(always)]
    pub fn try_read_to(&mut self, term: u8, dest: &mut [u8]) -> (r: Result<ReadStatus, ReadError>)
        requires
            old(self).wf(),
        ensures
            final(self).wf(),
            (final(self)@, final(dest)@, r) == ring_read_to(old(self)@, old(dest)@, term),
            forall|i: int|
                #[trigger] is_first_term(
                    old(self)@,
                    min_int(old(dest)@.len() as int, old(self)@.len() as int),
                    term,
                    i,
                ) ==> r == Ok::<ReadStatus, ReadError>(ReadStatus::Complete((i + 1) as usize))
                    && final(self)@ == old(self)@.subrange(i + 1, old(self)@.len() as int)
                    && final(dest)@.subrange(0, i + 1) == old(self)@.subrange(0, i + 1),
    {
        // is the destination empty
        if dest.len() == 0 {
            return Err(ReadError::DestinationEmpty);
        }
        // do we have anything to read
        if self.is_empty() {
            return Err(ReadError::SourceEmpty);
        }
        // get how much we can read
        let len_allowed = if dest.len() < self.len {
            dest.len()
        } else {
            self.len
        };
        // search the allowable read length for the terminator
        let mut i: usize = 0;
        let mut idx: usize = self.r_pos;
        let mut term_found = false;
        while i < len_allowed && !term_found
            invariant
                self.wf(),
                CAPACITY > 0,
                1 <= len_allowed <= self@.len(),
                i <= len_allowed,
                idx == wrap_index(self.r_pos + i, CAPACITY as int),
                term_found ==> i < len_allowed && self@[i as int] == term,
                forall|j: int| 0 <= j < i ==> self@[j] != term,
            decreases len_allowed - i + if term_found { 0int } else { 1int },
        {
            if self.buf[idx] == term {
                term_found = true;
            } else {
                i += 1;
                idx += 1;
                if idx == CAPACITY {
                    idx = 0;
                }
            }
        }
        let ghost n = len_allowed as int;
        proof {
            assert forall|k: int| #[trigger] is_first_term(self@, n, term, k) implies term_found && k
                == i by {
                lemma_first_term_unique(self@, n, term, k);
                if !term_found {
                    assert(self@[k] != term);
                } else {
                    assert(is_first_term(self@, n, term, i as int));
                    lemma_first_term_unique(self@, n, term, i as int);
                }
            }
            if term_found {
                assert(is_first_term(self@, n, term, i as int));
                lemma_first_term_unique(self@, n, term, i as int);
            } else {
                assert(!has_term_within(self@, n, term)) by {
                    if has_term_within(self@, n, term) {
                        let c = choose|k: int| is_first_term(self@, n, term, k);
                        assert(self@[c] != term);
                    }
                }
            }
        }
        let len = if term_found {
            i + 1
        } else {
            len_allowed
        };
        self.copy_out(dest, len);
        self.advance_read(len);
        // return
        if term_found {
            Ok(ReadStatus::Complete(len))
        } else if len_allowed == dest.len() {
            Ok(ReadStatus::BufferFull(len))
        } else {
            Ok(ReadStatus::Partial(len))
        }
    }

    /// Appends one byte.
    #[inline(always)]
    pub fn write_byte(&mut self, byte: u8) -> (r: Result<(), BufferError>)
        requires
            old(self).wf(),
        ensures
            final(self).wf(),
            (final(self)@, r) == ring_write_byte(old(self)@, byte, CAPACITY as int),
    {
        // are we full
        if self.is_full() {
            return Err(BufferError::InsufficientSpace);
        }
        let ghost old_view = self@;
        // write the byte
        self.buf[self.w_pos] = byte;
        // update the write position
        self.w_pos += 1;
        // check for wrapping
        if self.w_pos == CAPACITY {
            self.w_pos = 0;
        }
        // update the length
        self.len += 1;
        assert forall|k: int| 0 <= k < old_view.len() implies self@[k] == old_view[k] by {
            assert(wrap_index(self.r_pos + k, CAPACITY as int) != wrap_index(
                self.r_pos + old_view.len(),
                CAPACITY as int,
            ));
        }
        assert(self@ =~= old_view.push(byte));
        // everything is fine
        Ok(())
    }

    /// Appends the first `n` bytes of `bytes`, first up to the end of the
    /// storage, then from its start.
    fn copy_in(&mut self, bytes: &[u8], n: usize)
        requires
            old(self).wf(),
            n <= bytes@.len(),
            n <= CAPACITY - old(self)@.len(),
        ensures
            final(self).wf(),
            final(self)@ == old(self)@ + bytes@.subrange(0, n as int),
    {
        let ghost b0 = self.buf@;
        let ghost v0 = self@;
        let ghost s0 = *self;
        // get the length from the write position to the end
        let len_to_end = CAPACITY - self.w_pos;
        // figure out if we can copy the whole thing or just to the end of the buffer
        let first_copy_len = if n < len_to_end {
            n
        } else {
            len_to_end
        };
        let mut i: usize = 0;
        while i < first_copy_len
            invariant
                self.buf@.len() == CAPACITY,
                self.w_pos == s0.w_pos,
                self.r_pos == s0.r_pos,
                self.len == s0.len,
                self.w_pos + first_copy_len <= CAPACITY,
                first_copy_len <= n,
                n <= bytes@.len(),
                i <= first_copy_len,
                forall|k: int|
                    0 <= k < CAPACITY ==> self.buf@[k] == if self.w_pos <= k < self.w_pos + i {
                        bytes@[k - self.w_pos]
                    } else {
                        b0[k]
                    },
            decreases first_copy_len - i,
        {
            self.buf[self.w_pos + i] = bytes[i];
            i += 1;
        }
        // figure out if we have a second half to write
        let second_copy_len = n - first_copy_len;
        if second_copy_len > 0 {
            let mut j: usize = 0;
            while j < second_copy_len
                invariant
                    self.buf@.len() == CAPACITY,
                    self.w_pos == s0.w_pos,
                    self.r_pos == s0.r_pos,
                    self.len == s0.len,
                    first_copy_len == CAPACITY - self.w_pos,
                    second_copy_len == n - first_copy_len,
                    second_copy_len <= self.w_pos,
                    n <= bytes@.len(),
                    j <= second_copy_len,
                    forall|k: int|
                        0 <= k < CAPACITY ==> self.buf@[k] == if self.w_pos <= k {
                            bytes@[k - self.w_pos]
                        } else if k < j {
                            bytes@[first_copy_len + k]
                        } else {
                            b0[k]
                        },
                decreases second_copy_len - j,
            {
                self.buf[j] = bytes[first_copy_len + j];
                j += 1;
            }
        }
        let ghost w0 = self.w_pos;
        // update the write position
        self.w_pos += n;
        // check for wrapping
        if self.w_pos >= CAPACITY {
            self.w_pos -= CAPACITY;
        }
        // update length
        self.len += n;
        assert forall|k: int| 0 <= k < v0.len() + n implies #[trigger] self@[k] == (v0
            + bytes@.subrange(0, n as int))[k] by {
            if k < v0.len() {
                assert(self@[k] == self.buf@[wrap_index(self.r_pos + k, CAPACITY as int)]);
            } else {
                assert(wrap_index(self.r_pos + k, CAPACITY as int) == wrap_index(
                    w0 + (k - v0.len()),
                    CAPACITY as int,
                ));
            }
        }
        assert(self@ =~= v0 + bytes@.subrange(0, n as int));
    }

    /// Appends all of `bytes`, or nothing when they do not fit.
    #[inline(always)]
    pub fn write_all(&mut self, bytes: &[u8]) -> (r: Result<usize, BufferError>)
        requires
            old(self).wf(),
        ensures
            final(self).wf(),
            (final(self)@, r) == ring_write_all(old(self)@, bytes@, CAPACITY as int),
    {
        // get the length
        let len = bytes.len();
        // first see if it will fit
        if self.free_space() < len {
            return Err(BufferError::InsufficientSpace);
        }
        self.copy_in(bytes, len);
        assert(bytes@.subrange(0, len as int) =~= bytes@);
        // return
        Ok(len)
    }

    /// Appends as many of `bytes` as fit; fails when the buffer is full.
    #[inline(always)]
    pub fn write(&mut self, bytes: &[u8]) -> (r: Result<usize, BufferError>)
        requires
            old(self).wf(),
        ensures
            final(self).wf(),
            (final(self)@, r) == ring_write(old(self)@, bytes@, CAPACITY as int),
    {
        // can we write any
        if self.is_full() {
            return Err(BufferError::InsufficientSpace);
        }
        // figure out how much we can write
        let free = self.free_space();
        let can_copy_len = if bytes.len() < free {
            bytes.len()
        } else {
            free
        };
        self.copy_in(bytes, can_copy_len);
        // return
        Ok(can_copy_len)
    }

    /// Appends as many bytes of `s` as fit, as `write` does; fails only when
    /// the buffer is full.
    pub fn write_str(&mut self, s: &str) -> (r: Result<(), BufferError>)
        requires
            old(self).wf(),
        ensures
            final(self).wf(),
            final(self)@ == ring_write(old(self)@, s.spec_bytes(), CAPACITY as int).0,
            r == match ring_write(old(self)@, s.spec_bytes(), CAPACITY as int).1 {
                Ok(_) => Ok::<(), BufferError>(()),
                Err(e) => Err(e),
            },
    {
        match self.write(s.as_bytes()) {
            Ok(_) => Ok(()),
            Err(e) => Err(e),
        }
    }
}

} // verus!
