use vstd::prelude::*;

use crate::const_circular_buffer::{
    ring_read, ring_read_to, ring_write, ring_write_byte, ConstCircularBuffer,
};
use crate::error::{buffer_error_to_kind, ErrorKind, ReadError, ReadStatus};
use crate::waker::{clone_waker, wake};
use core::task::Waker;

verus! {

/// The receive side of a UART: the ring its interrupt fills and the waker of
/// the task waiting for bytes. Clear-to-send is raised when less than a
/// quarter of the ring is free and lowered again once more than half is.
pub struct UsartReader<const BUFFER_CAPACITY: usize> {
    buffer: ConstCircularBuffer<BUFFER_CAPACITY>,
    waker: Option<Waker>,
}

impl<const BUFFER_CAPACITY: usize> UsartReader<BUFFER_CAPACITY> {
    /// The received bytes not yet read.
    pub closed spec fn contents(&self) -> Seq<u8> {
        self.buffer@
    }

    /// Whether a task waits for bytes.
    pub closed spec fn has_waker(&self) -> bool {
        self.waker is Some
    }

    /// The ring is well formed.
    pub closed spec fn wf(&self) -> bool {
        self.buffer.wf()
    }

    /// Free space below which clear-to-send is raised.
    pub open spec fn deassert_threshold() -> int {
        BUFFER_CAPACITY as int / 4
    }

    /// Free space above which clear-to-send is lowered.
    pub open spec fn reassert_threshold() -> int {
        BUFFER_CAPACITY as int / 2
    }

    /// A reader with nothing received and no waiting task.
    pub fn new() -> (r: Self)
        requires
            BUFFER_CAPACITY <= isize::MAX,
        ensures
            r.wf(),
            r.contents() == Seq::<u8>::empty(),
            !r.has_waker(),
    {
        Self { waker: None, buffer: ConstCircularBuffer::new() }
    }

    /// One receive interrupt: stores the received byte (dropped when the
    /// ring is full), wakes the waiting task and says whether clear-to-send
    /// is to be raised.
    pub fn on_receive(&mut self, byte: u8) -> (deassert_cts: bool)
        requires
            old(self).wf(),
        ensures
            final(self).wf(),
            final(self).contents() == ring_write_byte(
                old(self).contents(),
                byte,
                BUFFER_CAPACITY as int,
            ).0,
            !final(self).has_waker(),
            deassert_cts == (BUFFER_CAPACITY - final(self).contents().len()
                < Self::deassert_threshold()),
    {
        // write the byte.
        let _ = self.buffer.write_byte(byte);
        // manage cts
        let deassert = self.buffer.free_space() < BUFFER_CAPACITY / 4;
        // kick the waker if its set
        if let Some(waker) = self.waker.take() {
            wake(waker);
        }
        deassert
    }

    /// Reads the received bytes into `buf` up to `term`, as the ring does,
    /// and says whether clear-to-send is to be lowered.
    pub fn read_to(&mut self, term: u8, buf: &mut [u8]) -> (r: (
        Result<ReadStatus, ReadError>,
        bool,
    ))
        requires
            old(self).wf(),
        ensures
            final(self).wf(),
            (final(self).contents(), final(buf)@, r.0) == ring_read_to(
                old(self).contents(),
                old(buf)@,
                term,
            ),
            final(self).has_waker() == old(self).has_waker(),
            r.1 == (Self::reassert_threshold() < BUFFER_CAPACITY - final(self).contents().len()),
    {
        // walk the buffer
        let result = self.buffer.try_read_to(term, buf);
        // manage cts
        let reassert = BUFFER_CAPACITY / 2 < self.buffer.free_space();
        (result, reassert)
    }

    /// Reads as many received bytes as fit into `buf` and says whether
    /// clear-to-send is to be lowered.
    pub fn read(&mut self, buf: &mut [u8]) -> (r: (Result<usize, ReadError>, bool))
        requires
            old(self).wf(),
        ensures
            final(self).wf(),
            (final(self).contents(), final(buf)@, r.0) == ring_read(old(self).contents(), old(buf)@),
            final(self).has_waker() == old(self).has_waker(),
            r.1 == (Self::reassert_threshold() < BUFFER_CAPACITY - final(self).contents().len()),
    {
        // read what we can
        let result = self.buffer.read(buf);
        // manage cts
        let reassert = BUFFER_CAPACITY / 2 < self.buffer.free_space();
        (result, reassert)
    }

    /// Whether bytes can be read; when none can, a copy of `waker` is kept.
    pub fn poll_can_read(&mut self, waker: &Waker) -> (ready: bool)
        requires
            old(self).wf(),
        ensures
            final(self).wf(),
            final(self).contents() == old(self).contents(),
            ready == (old(self).contents().len() > 0),
            ready ==> final(self).has_waker() == old(self).has_waker(),
            !ready ==> final(self).has_waker(),
    {
        // see if there is data available
        if self.buffer.len() > 0 {
            return true;
        }
        // else no data to read.  register the waker
        self.waker = Some(clone_waker(waker));
        false
    }
}

/// Clear-to-send has hysteresis: at no free space is it both to be raised
/// (less than a quarter free) and to be lowered (more than half free).
pub proof fn lemma_cts_hysteresis(capacity: int, free: int)
    requires
        0 <= capacity,
    ensures
        !(free < capacity / 4 && capacity / 2 < free),
{
}

/// The transmit side of a UART: the ring of bytes to send, an optional byte
/// that a flush appends, the waker of the task waiting for room and whether
/// the transmitter is idle.
pub struct UsartWriter<const BUFFER_CAPACITY: usize> {
    flush_char_opt: Option<u8>,
    buffer: ConstCircularBuffer<BUFFER_CAPACITY>,
    waker_opt: Option<Waker>,
    tx_idle: bool,
}

impl<const BUFFER_CAPACITY: usize> UsartWriter<BUFFER_CAPACITY> {
    /// The bytes still to send.
    pub closed spec fn contents(&self) -> Seq<u8> {
        self.buffer@
    }

    /// The byte a flush appends, if any.
    pub closed spec fn flush_char(&self) -> Option<u8> {
        self.flush_char_opt
    }

    /// Whether the transmitter is idle, its interrupt disabled.
    pub closed spec fn is_idle(&self) -> bool {
        self.tx_idle
    }

    /// Whether a task waits for room.
    pub closed spec fn has_waker(&self) -> bool {
        self.waker_opt is Some
    }

    /// The ring is well formed.
    pub closed spec fn wf(&self) -> bool {
        self.buffer.wf()
    }

    /// An idle writer with nothing to send and no flush byte.
    pub fn new() -> (w: Self)
        requires
            BUFFER_CAPACITY <= isize::MAX,
        ensures
            w.wf(),
            w.contents() == Seq::<u8>::empty(),
            w.flush_char() is None,
            w.is_idle(),
            !w.has_waker(),
    {
        Self { flush_char_opt: None, buffer: ConstCircularBuffer::new(), waker_opt: None, tx_idle: true }
    }

    /// One data register empty interrupt: when the peer is ready to receive
    /// and a byte is queued, that byte is to be sent; else the transmitter
    /// goes idle (its interrupt is to be disabled). The waiting task is woken.
    pub fn on_tx_ready(&mut self, rts_ok: bool) -> (r: Option<u8>)
        requires
            old(self).wf(),
        ensures
            final(self).wf(),
            final(self).flush_char() == old(self).flush_char(),
            !final(self).has_waker(),
            rts_ok && old(self).contents().len() > 0 ==> r == Some(old(self).contents()[0])
                && final(self).contents() == old(self).contents().drop_first()
                && final(self).is_idle() == old(self).is_idle(),
            !(rts_ok && old(self).contents().len() > 0) ==> r is None && final(self).contents()
                == old(self).contents() && final(self).is_idle(),
    {
        // if we can send try to read a byte from writer
        let mut sent: Option<u8> = None;
        if rts_ok {
            if let Ok(byte) = self.buffer.read_byte() {
                sent = Some(byte);
            }
        }
        if sent.is_none() {
            // set the tx_idle flag
            self.tx_idle = true;
        }
        // are we returning a byte and the waker is set wake it
        if let Some(waker) = self.waker_opt.take() {
            wake(waker);
        }
        sent
    }

    /// Queues as many bytes of `buf` as fit and says whether the transmit
    /// interrupt is to be enabled, which it is when the transmitter was idle.
    pub fn write(&mut self, buf: &[u8]) -> (r: (Result<usize, ErrorKind>, bool))
        requires
            old(self).wf(),
        ensures
            final(self).wf(),
            final(self).flush_char() == old(self).flush_char(),
            final(self).has_waker() == old(self).has_waker(),
            final(self).contents() == ring_write(old(self).contents(), buf@, BUFFER_CAPACITY as int).0,
            r.0 == match ring_write(old(self).contents(), buf@, BUFFER_CAPACITY as int).1 {
                Ok(n) => Ok::<usize, ErrorKind>(n),
                Err(e) => Err(buffer_error_to_kind(e)),
            },
            r.1 == old(self).is_idle(),
            !final(self).is_idle(),
    {
        // write the data
        let write_result = self.buffer.write(buf);
        // see if we need to enable interrupts
        let enable = self.tx_idle;
        if self.tx_idle {
            // clear the tx_idle flag
            self.tx_idle = false;
        }
        // map the error
        let mapped = match write_result {
            Ok(n) => Ok(n),
            Err(e) => Err(ErrorKind::from(e)),
        };
        (mapped, enable)
    }

    /// Queues the flush byte, if any, and says whether the transmit
    /// interrupt is to be enabled, which it is when the transmitter was idle.
    pub fn flush(&mut self) -> (enable: bool)
        requires
            old(self).wf(),
        ensures
            final(self).wf(),
            final(self).flush_char() == old(self).flush_char(),
            final(self).has_waker() == old(self).has_waker(),
            final(self).contents() == match old(self).flush_char() {
                Some(c) => ring_write_byte(old(self).contents(), c, BUFFER_CAPACITY as int).0,
                None => old(self).contents(),
            },
            enable == old(self).is_idle(),
            !final(self).is_idle(),
    {
        // write the flush character
        if let Some(flush_char) = self.flush_char_opt {
            let _ = self.buffer.write_byte(flush_char);
        }
        // see if we need to enable interrupts
        let enable = self.tx_idle;
        if self.tx_idle {
            // clear the tx_idle flag
            self.tx_idle = false;
        }
        enable
    }

    /// Whether a byte can be queued; when none can, a copy of `waker` is
    /// kept.
    pub fn poll_can_write(&mut self, waker: &Waker) -> (ready: bool)
        requires
            old(self).wf(),
        ensures
            final(self).wf(),
            final(self).contents() == old(self).contents(),
            final(self).flush_char() == old(self).flush_char(),
            final(self).is_idle() == old(self).is_idle(),
            ready == (old(self).contents().len() < BUFFER_CAPACITY),
            ready ==> final(self).has_waker() == old(self).has_waker(),
            !ready ==> final(self).has_waker(),
    {
        proof {
            self.buffer.lemma_len_bounded();
        }
        // see if there is space to write
        if !self.buffer.is_full() {
            return true;
        }
        // else no space available to write.  register the waker
        self.waker_opt = Some(clone_waker(waker));
        false
    }

    /// Whether every queued byte was sent; when not, a copy of `waker` is
    /// kept.
    pub fn poll_tx_empty(&mut self, waker: &Waker) -> (ready: bool)
        requires
            old(self).wf(),
        ensures
            final(self).wf(),
            final(self).contents() == old(self).contents(),
            final(self).flush_char() == old(self).flush_char(),
            final(self).is_idle() == old(self).is_idle(),
            ready == (old(self).contents().len() == 0),
            ready ==> final(self).has_waker() == old(self).has_waker(),
            !ready ==> final(self).has_waker(),
    {
        // see if its empty
        if self.buffer.is_empty() {
            return true;
        }
        // else not empty.  register the waker
        self.waker_opt = Some(clone_waker(waker));
        false
    }
}

/// A handle on the receive side of USART1.
pub struct Usart1ReaderHandle;

/// Where reading up to a terminator stands after one step: the bytes read so
/// far and the status, once the read is over.
pub open spec fn read_to_step_spec(total_len: int, step: ReadStatus) -> (int, Option<ReadStatus>) {
    match step {
        ReadStatus::Partial(len) => (total_len + len, None),
        ReadStatus::Complete(len) => (total_len + len, Some(ReadStatus::Complete((total_len + len) as usize))),
        ReadStatus::BufferFull(len) => (total_len + len, Some(ReadStatus::BufferFull((total_len + len) as usize))),
    }
}

/// A step of reading up to a terminator always adds its bytes to the running
/// total; a partial read leaves the read going, while a complete read or a
/// full buffer ends it and reports the same status with the total.
pub proof fn lemma_read_to_step_ends(total_len: int, step: ReadStatus)
    ensures
        step matches ReadStatus::Partial(n) ==> read_to_step_spec(total_len, step) == (
            total_len + n,
            None::<ReadStatus>,
        ),
        step matches ReadStatus::Complete(n) ==> read_to_step_spec(total_len, step) == (
            total_len + n,
            Some(ReadStatus::Complete((total_len + n) as usize)),
        ),
        step matches ReadStatus::BufferFull(n) ==> read_to_step_spec(total_len, step) == (
            total_len + n,
            Some(ReadStatus::BufferFull((total_len + n) as usize)),
        ),
{
}

impl Usart1ReaderHandle {
    /// One step of reading up to a terminator: a partial read adds its bytes
    /// and the read goes on; a complete read, or a full buffer, ends it with
    /// the total.
    pub fn read_to_step(total_len: usize, step: ReadStatus) -> (r: (usize, Option<ReadStatus>))
        requires
            total_len + match step {
                ReadStatus::Partial(n) => n,
                ReadStatus::Complete(n) => n,
                ReadStatus::BufferFull(n) => n,
            } <= usize::MAX,
        ensures
            (r.0 as int, r.1) == read_to_step_spec(total_len as int, step),
            step matches ReadStatus::Partial(n) ==> r.0 == total_len + n && r.1 is None,
            step matches ReadStatus::Complete(n) ==> r.0 == total_len + n && r.1 == Some(
                ReadStatus::Complete((total_len + n) as usize),
            ),
            step matches ReadStatus::BufferFull(n) ==> r.0 == total_len + n && r.1 == Some(
                ReadStatus::BufferFull((total_len + n) as usize),
            ),
    {
        match step {
            // haven't read terminator yet, update length and continue
            ReadStatus::Partial(len) => (total_len + len, None),
            ReadStatus::Complete(len) => (total_len + len, Some(ReadStatus::Complete(total_len + len))),
            ReadStatus::BufferFull(len) => (total_len + len, Some(ReadStatus::BufferFull(total_len + len))),
        }
    }
}

/// A handle on the transmit side of USART1.
pub struct Usart1WriterHandle;

impl Usart1WriterHandle {
    /// Whether a write of `len` bytes may start: nothing to write fails with
    /// `InvalidInput`.
    pub fn check_write_len(len: usize) -> (r: Result<(), ErrorKind>)
        ensures
            len == 0 ==> r == Err::<(), ErrorKind>(ErrorKind::InvalidInput),
            len > 0 ==> r == Ok::<(), ErrorKind>(()),
    {
        // did we get called with a empty buffer
        if len == 0 {
            return Err(ErrorKind::InvalidInput);
        }
        Ok(())
    }
}

} // verus!
