use vstd::prelude::*;

verus! {

/// Bit of the USB status: nothing to transmit.
pub const IDLE: u8 = 1u8;

/// Bit of the USB status: bytes are being transmitted.
pub const TRANSMITTING: u8 = 2u8;

/// Bit of the USB status: a writer waits for room in the transmit FIFO.
pub const WAITING_FOR_SPACE: u8 = 4u8;

/// Bit of the USB status: the transmit FIFO has room.
pub const SPACE_AVAILABLE: u8 = 8u8;

/// Bit of the USB status: bytes were received.
pub const DATA_RECEIVED: u8 = 16u8;

/// An event of the USB status that a task waits for.
pub struct UsbEvent {
    event_mask: u8,
    bytes_required: u8,
}

impl UsbEvent {
    /// The status bits the event waits for.
    pub closed spec fn mask(&self) -> u8 {
        self.event_mask
    }

    /// The number of bytes of room the event asks for.
    pub closed spec fn required(&self) -> u8 {
        self.bytes_required
    }

    /// The event of the USB side becoming idle, which asks for no room.
    pub fn idle() -> (e: Self)
        ensures
            e.mask() == IDLE,
            e.required() == 0,
    {
        Self { event_mask: IDLE, bytes_required: 0 }
    }

    /// The event of room for `bytes_required` bytes in the transmit FIFO.
    pub fn space_available(bytes_required: u8) -> (e: Self)
        ensures
            e.mask() == SPACE_AVAILABLE,
            e.required() == bytes_required,
    {
        Self { event_mask: SPACE_AVAILABLE, bytes_required }
    }

    /// The number of bytes of room the event asks for.
    pub fn bytes_required(&self) -> (n: u8)
        ensures
            n == self.required(),
    {
        self.bytes_required
    }

    /// Whether the status `current_status` holds one of the awaited bits.
    pub fn is_ready(&self, current_status: u8) -> (b: bool)
        ensures
            b == (current_status & self.mask() != 0),
    {
        (current_status & self.event_mask) != 0
    }
}

} // verus!
