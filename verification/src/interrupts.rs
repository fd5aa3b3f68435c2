use vstd::prelude::*;

verus! {

/// The external interrupt bits of the FT240X lines on the AT90CAN128: INT5 for
/// TXE and INT6 for RXF.
pub struct At90Can128Interrupts;

impl At90Can128Interrupts {
    /// The interrupt bit of TXE (PE5).
    pub const TX_EXT_INT5: u8 = 32u8;

    /// The interrupt bit of RXF (PE6).
    pub const RX_EXT_INT6: u8 = 64u8;

    /// The interrupt mask with the RXF interrupt enabled.
    pub fn rxf_enabled(eimsk: u8) -> (m: u8)
        ensures
            m == eimsk | 64u8,
    {
        eimsk | Self::RX_EXT_INT6
    }

    /// The interrupt mask with the RXF interrupt disabled.
    pub fn rxf_disabled(eimsk: u8) -> (m: u8)
        ensures
            m == eimsk & !64u8,
    {
        eimsk & !Self::RX_EXT_INT6
    }

    /// The interrupt mask with the TXE interrupt enabled.
    pub fn txe_enabled(eimsk: u8) -> (m: u8)
        ensures
            m == eimsk | 32u8,
    {
        eimsk | Self::TX_EXT_INT5
    }

    /// The interrupt mask with the TXE interrupt disabled.
    pub fn txe_disabled(eimsk: u8) -> (m: u8)
        ensures
            m == eimsk & !32u8,
    {
        eimsk & !Self::TX_EXT_INT5
    }

    /// Whether the interrupt mask has the RXF interrupt enabled.
    pub fn rxf_is_enabled(eimsk: u8) -> (b: bool)
        ensures
            b == (eimsk & 64u8 != 0),
    {
        eimsk & Self::RX_EXT_INT6 != 0
    }

    /// Whether the interrupt mask has the TXE interrupt enabled.
    pub fn txe_is_enabled(eimsk: u8) -> (b: bool)
        ensures
            b == (eimsk & 32u8 != 0),
    {
        eimsk & Self::TX_EXT_INT5 != 0
    }
}

} // verus!
