use vstd::prelude::*;

use crate::circular_buffer::{open_ring_write_byte, CircularBuffer};
use crate::error::{BufferError, DriverError};
use crate::flat_buffer::{FlatBuffer, FlatModel};
use crate::waker::{clone_waker, wake};
use core::task::Waker;

verus! {

/// The byte that ends a packet on the USB receive path.
pub const PACKET_END: u8 = 0x0du8;

/// The state of a transmission: the bytes still to send, its outcome once
/// known and the waker of the task waiting for it.
pub struct TxState {
    // store the buffer handle to our backing memory
    pub buffer: FlatBuffer,
    // result set by the isr when transmit is complete or errors encountered
    pub result: Option<Result<(), DriverError>>,
    // waker to notify we're free to transmit
    pub waker: Option<Waker>,
}

impl TxState {
    /// A transmission of the readable bytes of `buffer`, under way.
    pub fn new(buffer: FlatBuffer) -> (s: Self)
        ensures
            s.buffer == buffer,
            s.result is None,
            s.waker is None,
    {
        Self { buffer: buffer, result: None, waker: None }
    }

    /// A transmission that failed with `error` before it started.
    pub fn error(buffer: FlatBuffer, error: DriverError) -> (s: Self)
        ensures
            s.buffer == buffer,
            s.result == Some(Err::<(), DriverError>(error)),
            s.waker is None,
    {
        Self { buffer: buffer, result: Some(Err(error)), waker: None }
    }

    /// Starts the transmission of `buffer`: its first byte is taken to be
    /// sent; an empty buffer gives a transmission that failed with
    /// `BufferEmpty` and no byte.
    pub fn start(buffer: FlatBuffer) -> (r: (TxState, Option<u8>))
        requires
            buffer.wf(),
        ensures
            r.0.buffer.wf(),
            r.0.waker is None,
            ({
                let (m, res) = buffer@.read_byte();
                &&& r.0.buffer@ == m
                &&& match res {
                    Ok(byte) => r.1 == Some(byte) && r.0.result is None,
                    Err(_) => r.1 is None && r.0.result == Some(
                        Err::<(), DriverError>(DriverError::BufferEmpty),
                    ),
                }
            }),
    {
        let mut buffer = buffer;
        // grab the first byte
        match buffer.read_byte() {
            Ok(byte) => (TxState::new(buffer), Some(byte)),
            Err(_) => (TxState::error(buffer, DriverError::BufferEmpty), None),
        }
    }

    /// One transmit ready interrupt: the next byte to send, or, when none is
    /// left, the transmission completes, the waiting task is woken and no
    /// byte is given.
    pub fn on_tx_ready(&mut self) -> (r: Option<u8>)
        requires
            old(self).buffer.wf(),
        ensures
            final(self).buffer.wf(),
            ({
                let (m, res) = old(self).buffer@.read_byte();
                &&& final(self).buffer@ == m
                &&& match res {
                    Ok(byte) => r == Some(byte) && final(self).result == old(self).result
                        && final(self).waker == old(self).waker,
                    Err(_) => r is None && final(self).result == Some(Ok::<(), DriverError>(()))
                        && final(self).waker is None,
                }
            }),
    {
        // grab the next byte
        match self.buffer.read_byte() {
            // write it
            Ok(byte) => Some(byte),
            // all done
            Err(_) => {
                // update the state that we are done
                self.result = Some(Ok(()));
                // kick the waker if its set
                if let Some(waker) = self.waker.take() {
                    wake(waker);
                }
                None
            },
        }
    }
}

/// A future for the end of a transmission.
pub struct UsbTxFuture;

impl UsbTxFuture {
    /// One poll of the transmission in `state`: no state fails with
    /// `MissingGlobalState`; a known outcome ends the transmission, handing
    /// back its buffer or its error; else a copy of `waker` is kept and the
    /// poll stays pending (`None`).
    pub fn poll_state(state: &mut Option<TxState>, waker: &Waker) -> (r: Option<
        Result<FlatBuffer, DriverError>,
    >)
        ensures
            match *old(state) {
                None => r == Some(Err::<FlatBuffer, DriverError>(DriverError::MissingGlobalState))
                    && *final(state) is None,
                Some(s) => match s.result {
                    Some(Ok(())) => r == Some(Ok::<FlatBuffer, DriverError>(s.buffer))
                        && *final(state) is None,
                    Some(Err(e)) => r == Some(Err::<FlatBuffer, DriverError>(e))
                        && *final(state) is None,
                    None => r is None && final(state)->Some_0.buffer == s.buffer
                        && final(state)->Some_0.result is None && final(state)->Some_0.waker is Some,
                },
            },
    {
        if state.is_none() {
            return Some(Err(DriverError::MissingGlobalState));
        }
        let mut tx_state = state.take().unwrap();
        // if the result is set the transmission completed or had errors
        match tx_state.result.take() {
            Some(Ok(())) => Some(Ok(tx_state.buffer)),
            Some(Err(e)) => Some(Err(e)),
            None => {
                //register the waker
                tx_state.waker = Some(clone_waker(waker));
                *state = Some(tx_state);
                None
            },
        }
    }
}

/// The state of reception: the ring the receive interrupt fills, the waker of
/// the task waiting for bytes and the error seen, if any.
pub struct RxState {
    // store the buffer handle to our backing memory
    pub buffer: CircularBuffer,
    // waker to notify data is available to read
    pub waker: Option<Waker>,
    // error status
    pub error: Option<DriverError>,
}

impl RxState {
    /// Reception into `buffer`, with no error and no waiting task.
    pub fn new(buffer: CircularBuffer) -> (s: Self)
        ensures
            s.buffer == buffer,
            s.waker is None,
            s.error is None,
    {
        Self { buffer: buffer, waker: None, error: None }
    }

    /// Whether the ring has room for a received byte.
    pub fn has_room(&self) -> (b: bool)
        requires
            self.buffer.wf(),
        ensures
            b == (self.buffer@.len() + 1 < self.buffer.spec_capacity()),
    {
        self.buffer.free_space() > 0
    }

    /// One receive interrupt with room in the ring: stores the byte read from
    /// the device and wakes the waiting task.
    pub fn receive_byte(&mut self, byte: u8)
        requires
            old(self).buffer.wf(),
        ensures
            final(self).buffer.wf(),
            final(self).buffer.spec_capacity() == old(self).buffer.spec_capacity(),
            final(self).buffer@ == open_ring_write_byte(
                old(self).buffer@,
                byte,
                old(self).buffer.spec_capacity() as int,
            ),
            final(self).error == old(self).error,
            final(self).waker is None,
    {
        self.buffer.write_byte(byte);
        // kick the waker if its set
        if let Some(waker) = self.waker.take() {
            wake(waker);
        }
    }

    /// One receive interrupt without room in the ring: records the overflow
    /// and wakes the waiting task; the byte stays in the device.
    pub fn overflow(&mut self)
        ensures
            final(self).buffer == old(self).buffer,
            final(self).error == Some(DriverError::InsufficientSpace),
            final(self).waker is None,
    {
        // set an error
        self.error = Some(DriverError::InsufficientSpace);
        // kick the waker if its set
        if let Some(waker) = self.waker.take() {
            wake(waker);
        }
    }
}

/// What draining the received bytes `s` into a buffer in state `m` does: how
/// many bytes are taken from the ring, the state of the buffer and whether a
/// packet end was stored. Each byte is stored while the buffer has room, else
/// dropped; the drain stops after storing the packet end.
pub open spec fn rx_drain(s: Seq<u8>, m: FlatModel) -> (int, FlatModel, bool)
    decreases s.len(),
{
    if s.len() == 0 {
        (0, m, false)
    } else {
        let byte = s[0];
        if m.len < m.capacity() {
            let m2 = m.write_byte(byte).0;
            if byte == PACKET_END {
                (1, m2, true)
            } else {
                let (k, m3, d) = rx_drain(s.drop_first(), m2);
                (k + 1, m3, d)
            }
        } else {
            let (k, m3, d) = rx_drain(s.drop_first(), m);
            (k + 1, m3, d)
        }
    }
}

/// Draining takes at most all received bytes and keeps writes inside the
/// storage.
proof fn lemma_rx_drain_bounds(s: Seq<u8>, m: FlatModel)
    requires
        m.valid(),
        m.writes_fit(),
    ensures
        0 <= rx_drain(s, m).0 <= s.len(),
        rx_drain(s, m).1.valid(),
        rx_drain(s, m).1.writes_fit(),
    decreases s.len(),
{
    if s.len() > 0 {
        if m.len < m.capacity() {
            let m2 = m.write_byte(s[0]).0;
            assert(m2.storage.len() == m.storage.len());
            if s[0] != PACKET_END {
                lemma_rx_drain_bounds(s.drop_first(), m2);
            }
        } else {
            lemma_rx_drain_bounds(s.drop_first(), m);
        }
    }
}

/// Appending a byte to a buffer with room adds it to the readable bytes.
proof fn lemma_append_byte_contents(m: FlatModel, byte: u8)
    requires
        m.valid(),
        m.writes_fit(),
        m.len < m.capacity(),
    ensures
        m.write_byte(byte).0.contents() == m.contents().push(byte),
        m.write_byte(byte).0.valid(),
        m.write_byte(byte).0.writes_fit(),
        m.write_byte(byte).0.capacity() == m.capacity(),
        m.write_byte(byte).0.len == m.len + 1,
{
    let m2 = m.write_byte(byte).0;
    assert(m2.storage.len() == m.storage.len());
    assert(m2.contents() =~= m.contents().push(byte));
}

/// What a poll gives back of what was received: when the received bytes hold
/// a packet end at `p`, none before it, and the buffer has room for the
/// packet, the drain takes exactly the packet and the buffer ends with it.
pub proof fn lemma_rx_drain_packet(s: Seq<u8>, m: FlatModel, p: int)
    requires
        m.valid(),
        m.writes_fit(),
        0 <= p < s.len(),
        s[p] == PACKET_END,
        forall|i: int| 0 <= i < p ==> s[i] != PACKET_END,
        m.len + p + 1 <= m.capacity(),
    ensures
        rx_drain(s, m).0 == p + 1,
        rx_drain(s, m).2,
        rx_drain(s, m).1.contents() == m.contents() + s.subrange(0, p + 1),
    decreases p,
{
    lemma_append_byte_contents(m, s[0]);
    let m2 = m.write_byte(s[0]).0;
    if p == 0 {
        assert(s.subrange(0, 1) =~= seq![s[0]]);
    } else {
        let t = s.drop_first();
        assert forall|i: int| 0 <= i < p - 1 implies t[i] != PACKET_END by {
            assert(t[i] == s[i + 1]);
        }
        lemma_rx_drain_packet(t, m2, p - 1);
        assert(m.contents() + s.subrange(0, p + 1) =~= m2.contents() + t.subrange(0, p));
    }
}

/// A future for a packet received over USB into a buffer.
pub struct UsbRxFuture {
    buffer: Option<FlatBuffer>,
}

impl UsbRxFuture {
    /// The buffer the future receives into, until it is handed back.
    pub closed spec fn spec_buffer(&self) -> Option<FlatBuffer> {
        self.buffer
    }

    /// A future receiving into `buffer`.
    pub fn new(buffer: FlatBuffer) -> (f: Self)
        ensures
            f.spec_buffer() == Some(buffer),
    {
        Self { buffer: Some(buffer) }
    }

    /// One poll: no reception state fails with `MissingGlobalState`, no
    /// buffer with `MissingFutureBuffer`; else the received bytes are drained
    /// into the buffer, which is handed back once a packet end was stored, and
    /// otherwise a copy of `waker` is kept and the poll stays pending
    /// (`None`). Unless the poll failed, the receive interrupt is to be
    /// enabled again.
    pub fn poll_state(&mut self, state: &mut Option<RxState>, waker: &Waker) -> (r: Option<
        Result<FlatBuffer, DriverError>,
    >)
        requires
            *old(state) matches Some(st) ==> st.buffer.wf(),
            old(self).spec_buffer() matches Some(b) ==> b.wf() && b@.writes_fit(),
        ensures
            *old(state) is None ==> r == Some(
                Err::<FlatBuffer, DriverError>(DriverError::MissingGlobalState),
            ) && *final(state) is None && final(self).spec_buffer() == old(self).spec_buffer(),
            *old(state) is Some && old(self).spec_buffer() is None ==> r == Some(
                Err::<FlatBuffer, DriverError>(DriverError::MissingFutureBuffer),
            ) && *final(state) == *old(state) && final(self).spec_buffer() is None,
            *old(state) matches Some(st) ==> old(self).spec_buffer() matches Some(b) ==> ({
                let (k, m, detected) = rx_drain(st.buffer@, b@);
                &&& *final(state) matches Some(fs) && fs.buffer.wf() && fs.buffer.spec_capacity()
                    == st.buffer.spec_capacity() && fs.buffer@ == st.buffer@.subrange(
                    k,
                    st.buffer@.len() as int,
                ) && fs.error == st.error && (detected ==> fs.waker == st.waker) && (!detected
                    ==> fs.waker is Some)
                &&& detected ==> (r matches Some(Ok(fb)) && fb.wf() && fb@ == m)
                    && final(self).spec_buffer() is None
                &&& !detected ==> r is None && (final(self).spec_buffer() matches Some(fb)
                    && fb.wf() && fb@ == m)
            }),
    {
        // get the rx state
        let mut rx_state = match state.take() {
            Some(st) => st,
            None => return Some(Err(DriverError::MissingGlobalState)),
        };
        // ensure we have buffer to receive bytes into
        let mut rx_buffer = match self.buffer.take() {
            Some(buffer) => buffer,
            None => {
                *state = Some(rx_state);
                return Some(Err(DriverError::MissingFutureBuffer));
            },
        };
        let ghost s0 = rx_state.buffer@;
        let ghost b0 = rx_buffer@;
        let ghost cap0 = rx_state.buffer.spec_capacity();
        let ghost e0 = rx_state.error;
        let ghost w0 = rx_state.waker;
        proof {
            lemma_rx_drain_bounds(s0, b0);
        }
        let mut packet_detected = false;
        let ghost mut taken: int = 0;
        // loop while there are bytes to get or a packet was detected
        loop
            invariant_except_break
                !packet_detected,
                ({
                    let (k, m, d) = rx_drain(s0, b0);
                    let (k2, m2, d2) = rx_drain(rx_state.buffer@, rx_buffer@);
                    &&& k == taken + k2
                    &&& m == m2
                    &&& d == d2
                }),
            invariant
                rx_state.buffer.wf(),
                rx_buffer.wf(),
                rx_buffer@.writes_fit(),
                0 <= taken <= s0.len(),
                rx_state.buffer@ == s0.subrange(taken, s0.len() as int),
                rx_state.buffer.spec_capacity() == cap0,
                rx_state.error == e0,
                rx_state.waker == w0,
            ensures
                ({
                    let (k, m, d) = rx_drain(s0, b0);
                    &&& k == taken
                    &&& m == rx_buffer@
                    &&& d == packet_detected
                }),
            decreases rx_state.buffer@.len(),
        {
            let ghost cur = rx_state.buffer@;
            let ghost curb = rx_buffer@;
            let next = rx_state.buffer.read_byte();
            match next {
                None => {
                    break ;
                },
                Some(byte) => {
                    proof {
                        taken = taken + 1;
                        assert(s0.subrange(taken, s0.len() as int) =~= cur.drop_first());
                    }
                    // process the byte
                    if !rx_buffer.is_full() {
                        rx_buffer.write_byte(byte);
                        proof {
                            assert(rx_buffer@.storage.len() == curb.storage.len());
                        }
                        // if a packet was read
                        if byte == PACKET_END {
                            packet_detected = true;
                            break ;
                        }
                    }
                },
            }
        }
        // finish up
        if packet_detected {
            *state = Some(rx_state);
            Some(Ok(rx_buffer))
        } else {
            // register the waker
            rx_state.waker = Some(clone_waker(waker));
            *state = Some(rx_state);
            self.buffer = Some(rx_buffer);
            None
        }
    }
}

/// A driver that receives into and transmits from flat buffers.
pub trait Driver {
    type RxFuture: core::future::Future<Output = Result<FlatBuffer, DriverError>>;

    type TxFuture: core::future::Future<Output = Result<FlatBuffer, DriverError>>;

    fn init(&mut self, buffer_handle: CircularBuffer);

    fn read(&mut self, buffer_handle: FlatBuffer) -> Self::RxFuture;

    fn write(&mut self, buffer_handle: FlatBuffer) -> Self::TxFuture;
}

} // verus!
