use vstd::prelude::*;

use crate::error::ErrorKind;
use crate::flat_buffer::FlatBuffer;

verus! {

/// How the data bus of the FT240X is configured.
#[derive(Debug, PartialEq, Eq, Structural, Clone, Copy)]
pub enum BusState {
    Unknown,
    Input,
    Output,
}

/// State and answer of making a bus in state `s` an input: the port must be
/// reconfigured unless it already was an input.
pub open spec fn bus_enter_input(s: BusState) -> (BusState, bool) {
    (BusState::Input, s != BusState::Input)
}

/// State and answer of making a bus in state `s` an output: the port must be
/// reconfigured unless it already was an output.
pub open spec fn bus_enter_output(s: BusState) -> (BusState, bool) {
    (BusState::Output, s != BusState::Output)
}

/// Switching the bus direction is idempotent: a second request for the same
/// direction finds nothing to reconfigure, a request after the other
/// direction, or on a bus of unknown state, reconfigures the port.
pub proof fn lemma_bus_direction_idempotent(s: BusState)
    ensures
        bus_enter_output(bus_enter_output(s).0) == (BusState::Output, false),
        bus_enter_input(bus_enter_input(s).0) == (BusState::Input, false),
        bus_enter_output(bus_enter_input(s).0) == (BusState::Output, true),
        bus_enter_input(bus_enter_output(s).0) == (BusState::Input, true),
        bus_enter_output(BusState::Unknown).1,
        bus_enter_input(BusState::Unknown).1,
{
}

impl BusState {
    /// Makes the bus an input; says whether the port must be reconfigured,
    /// which it must unless it already was an input.
    pub fn enter_input(&mut self) -> (reconfigure: bool)
        ensures
            (*final(self), reconfigure) == bus_enter_input(*old(self)),
    {
        // if its not already an input
        if *self != BusState::Input {
            // update the state
            *self = BusState::Input;
            return true;
        }
        false
    }

    /// Makes the bus an output; says whether the port must be reconfigured,
    /// which it must unless it already was an output.
    pub fn enter_output(&mut self) -> (reconfigure: bool)
        ensures
            (*final(self), reconfigure) == bus_enter_output(*old(self)),
    {
        // if its not already an output
        if *self != BusState::Output {
            // update the state
            *self = BusState::Output;
            return true;
        }
        false
    }
}

/// An 8 bit parallel bus with a line that tells whether the far end is
/// connected.
pub trait IoBus8 {
    type Error;

    fn replicate(&self) -> Self where Self: Sized;

    fn is_connected(&mut self) -> bool;

    fn set_as_output(&mut self) -> Result<(), Self::Error>;

    fn set_as_input(&mut self) -> Result<(), Self::Error>;

    fn write(&mut self, byte: u8) -> Result<(), Self::Error>;

    fn read(&self) -> Result<u8, Self::Error>;
}

/// The port and sense line of a bus together with its configuration.
pub struct InnerBus<PORT, SENSE> {
    pub port: PORT,
    pub sense: SENSE,
    pub state: BusState,
}

/// A slot for a bus that is filled once at start-up.
pub struct StaticBus<PORT, SENSE> {
    slot: Option<InnerBus<PORT, SENSE>>,
}

impl<PORT, SENSE> StaticBus<PORT, SENSE> {
    /// Whether the slot holds a bus.
    pub closed spec fn is_filled(&self) -> bool {
        self.slot is Some
    }

    /// An empty slot.
    pub fn empty() -> (s: Self)
        ensures
            !s.is_filled(),
    {
        Self { slot: None }
    }

    /// Puts the bus of `port` and `sense` in the slot, its configuration not
    /// yet known.
    pub fn install(&mut self, port: PORT, sense: SENSE)
        ensures
            final(self).is_filled(),
            final(self).bus() == (InnerBus { port, sense, state: BusState::Unknown }),
    {
        self.slot = Some(InnerBus { port, sense, state: BusState::Unknown });
    }

    /// The bus in a filled slot.
    pub closed spec fn bus(&self) -> InnerBus<PORT, SENSE> {
        self.slot->Some_0
    }
}

/// The registers of an AVR I/O port, in address order.
pub struct AvrPort {
    pub pin: u8,  // Offset 0x00 (e.g., PINC)
    pub ddr: u8,  // Offset 0x01 (e.g., DDRC)
    pub port: u8,  // Offset 0x02 (e.g., PORTC)
}

/// The pins an FT240X is wired to: SIWU, RD and WR as outputs, TXE, RXF and
/// SENSE as inputs.
pub trait FT240Conf {

}

/// A future that waits until the FT240X has a byte to read.
pub struct Ft240xCanRead;

impl Ft240xCanRead {
    /// One poll, given the sense and RXF lines: a disconnected host fails with
    /// `NotConnected`; a byte to read ends the wait; else the wait goes on
    /// (`None`), the waker kept and the RXF interrupt enabled.
    pub fn poll_lines(connected: bool, can_read: bool) -> (r: Option<Result<(), ErrorKind>>)
        ensures
            !connected ==> r == Some(Err::<(), ErrorKind>(ErrorKind::NotConnected)),
            connected && can_read ==> r == Some(Ok::<(), ErrorKind>(())),
            connected && !can_read ==> r is None,
    {
        // see if we are connected
        if !connected {
            return Some(Err(ErrorKind::NotConnected));
        }
        // now see if there is data to read
        if can_read {
            return Some(Ok(()));
        }
        // else no data to read
        None
    }
}

/// A future that waits until the FT240X can take a byte.
pub struct Ft240xCanWrite;

impl Ft240xCanWrite {
    /// One poll, given the sense and TXE lines: a disconnected host fails with
    /// `NotConnected`; room for a byte ends the wait; else the wait goes on
    /// (`None`), the waker kept and the TXE interrupt enabled.
    pub fn poll_lines(connected: bool, can_write: bool) -> (r: Option<Result<(), ErrorKind>>)
        ensures
            !connected ==> r == Some(Err::<(), ErrorKind>(ErrorKind::NotConnected)),
            connected && can_write ==> r == Some(Ok::<(), ErrorKind>(())),
            connected && !can_write ==> r is None,
    {
        // see if we are connected
        if !connected {
            return Some(Err(ErrorKind::NotConnected));
        }
        // now see if its clear to send
        if can_write {
            return Some(Ok(()));
        }
        // else we cant send
        None
    }
}

/// A handle on the receive side of the FT240X.
pub struct Ft240xReaderHandle;

impl Ft240xReaderHandle {
    /// Whether a read up to a terminator may start: a full buffer fails with
    /// `OutOfMemory`.
    pub fn check_destination(buf: &FlatBuffer) -> (r: Result<(), ErrorKind>)
        requires
            buf.wf(),
        ensures
            buf@.len == buf@.capacity() ==> r == Err::<(), ErrorKind>(ErrorKind::OutOfMemory),
            buf@.len < buf@.capacity() ==> r == Ok::<(), ErrorKind>(()),
    {
        // did we get called with a full buffer
        if buf.is_full() {
            return Err(ErrorKind::OutOfMemory);
        }
        Ok(())
    }

    /// One byte of a read up to `term`, with the sense and RXF lines read
    /// after it: the byte is stored (dropped when the buffer is full); the
    /// terminator completes the read (`Ok(true)`); a full buffer or a
    /// disconnected host fail with `NotConnected`; nothing more to read ends
    /// the read short (`Ok(false)`); else the read goes on (`None`).
    pub fn read_to_step(
        term: u8,
        buf: &mut FlatBuffer,
        byte: u8,
        connected: bool,
        can_read: bool,
    ) -> (r: Option<Result<bool, ErrorKind>>)
        requires
            old(buf).wf(),
            old(buf)@.write_byte_fits(),
        ensures
            final(buf).wf(),
            final(buf)@ == old(buf)@.write_byte(byte).0,
            byte == term ==> r == Some(Ok::<bool, ErrorKind>(true)),
            byte != term && final(buf)@.len == final(buf)@.capacity() ==> r == Some(
                Err::<bool, ErrorKind>(ErrorKind::NotConnected),
            ),
            byte != term && final(buf)@.len < final(buf)@.capacity() && !connected ==> r == Some(
                Err::<bool, ErrorKind>(ErrorKind::NotConnected),
            ),
            byte != term && final(buf)@.len < final(buf)@.capacity() && connected && !can_read
                ==> r == Some(Ok::<bool, ErrorKind>(false)),
            byte != term && final(buf)@.len < final(buf)@.capacity() && connected && can_read
                ==> r is None,
    {
        // write it to the receive buffer, we can discard the result since we checked above
        let _ = buf.write_byte(byte);
        // did we catch the terminator
        if byte == term {
            return Some(Ok(true));
        }
        // is the receiving buffer full
        if buf.is_full() {
            return Some(Err(ErrorKind::NotConnected));
        }
        // make sure were connected
        if !connected {
            return Some(Err(ErrorKind::NotConnected));
        }
        // make sure the ft240x has something to read
        if !can_read {
            return Some(Ok(false));
        }
        None
    }

    /// Whether a plain read into `len` bytes may start: no room fails with
    /// `InvalidInput`.
    pub fn check_read_len(len: usize) -> (r: Result<(), ErrorKind>)
        ensures
            len == 0 ==> r == Err::<(), ErrorKind>(ErrorKind::InvalidInput),
            len > 0 ==> r == Ok::<(), ErrorKind>(()),
    {
        // did we get called with an empty buffer
        if len == 0 {
            return Err(ErrorKind::InvalidInput);
        }
        Ok(())
    }

    /// After byte number `bytes_read` of a plain read into `len` bytes, with
    /// the sense and RXF lines read after it: a disconnected host fails with
    /// `NotConnected`; nothing more to read, or a full destination, ends the
    /// read with the bytes read; else the read goes on (`None`).
    pub fn read_step(bytes_read: usize, len: usize, connected: bool, can_read: bool) -> (r: Option<
        Result<usize, ErrorKind>,
    >)
        ensures
            !connected ==> r == Some(Err::<usize, ErrorKind>(ErrorKind::NotConnected)),
            connected && (!can_read || bytes_read >= len) ==> r == Some(
                Ok::<usize, ErrorKind>(bytes_read),
            ),
            connected && can_read && bytes_read < len ==> r is None,
    {
        // make sure were connected
        if !connected {
            return Some(Err(ErrorKind::NotConnected));
        }
        // make sure the ft240x has something to read
        if !can_read {
            return Some(Ok(bytes_read));
        }
        // the destination is full
        if bytes_read >= len {
            return Some(Ok(bytes_read));
        }
        None
    }
}

/// A handle on the transmit side of the FT240X.
pub struct Ft240xWriterHandle;

impl Ft240xWriterHandle {
    /// Whether a write of `len` bytes may start: nothing to write fails with
    /// `InvalidInput`.
    pub fn check_write_len(len: usize) -> (r: Result<(), ErrorKind>)
        ensures
            len == 0 ==> r == Err::<(), ErrorKind>(ErrorKind::InvalidInput),
            len > 0 ==> r == Ok::<(), ErrorKind>(()),
    {
        // did we get called with an empty buffer
        if len == 0 {
            return Err(ErrorKind::InvalidInput);
        }
        Ok(())
    }

    /// Whether a write of `len` bytes is over after `written` of them, given
    /// the TXE and sense lines: once every byte is written, the device has no
    /// room or the host is gone.
    pub fn write_done(written: usize, len: usize, can_write: bool, connected: bool) -> (done: bool)
        ensures
            done == (written == len || !can_write || !connected),
    {
        written == len || !can_write || !connected
    }

    /// Whether a flush may pulse SIWU: a disconnected host fails with
    /// `NotConnected`.
    pub fn check_flush(connected: bool) -> (r: Result<(), ErrorKind>)
        ensures
            !connected ==> r == Err::<(), ErrorKind>(ErrorKind::NotConnected),
            connected ==> r == Ok::<(), ErrorKind>(()),
    {
        // see if we are connected
        if !connected {
            return Err(ErrorKind::NotConnected);
        }
        Ok(())
    }
}

} // verus!
