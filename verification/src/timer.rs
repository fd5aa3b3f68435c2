use vstd::prelude::*;

verus! {

/// The tick at which a delay of `delay` ticks started at tick `tick` ends,
/// on a 16 bit tick counter that wraps around.
pub open spec fn target_tick(tick: u16, delay: u16) -> u16 {
    vstd::wrapping::u16_specs::wrapping_add(tick, delay)
}

/// Whether a delay ending at `target` has ended when the counter reads
/// `tick`: the counter is at most half its range past the target.
pub open spec fn tick_expired(target: u16, tick: u16) -> bool {
    vstd::wrapping::u16_specs::wrapping_sub(tick, target) < 0x8000
}

/// The counter reading `k` ticks after `tick`, for `0 <= k < 65536`.
pub open spec fn tick_plus(tick: u16, k: int) -> u16 {
    if tick + k > u16::MAX {
        (tick + k - 0x1_0000) as u16
    } else {
        (tick + k) as u16
    }
}

/// A delay of at most half the counter range ends exactly when that many ticks
/// have passed, across a wrap of the counter: it has not ended any earlier,
/// and it stays ended for half the counter range.
pub proof fn lemma_timer_expiry(tick: u16, delay: u16, k: int)
    requires
        delay <= 0x8000,
        0 <= k < delay + 0x8000,
    ensures
        tick_expired(target_tick(tick, delay), tick_plus(tick, k)) == (k >= delay),
{
}

/// A future that ends once the tick counter has reached a target tick.
pub struct Timer {
    target_tick: u16,
}

impl Timer {
    /// The tick at which the delay ends.
    pub closed spec fn target(&self) -> u16 {
        self.target_tick
    }

    /// A delay of `delay` ticks starting at counter reading `tick_counter`.
    pub fn delay_from(tick_counter: u16, delay: u16) -> (t: Self)
        ensures
            t.target() == target_tick(tick_counter, delay),
    {
        // adjust to get the target tick when delay completes
        let target_tick = tick_counter.wrapping_add(delay);
        // we're good here
        Self { target_tick }
    }

    /// Whether the delay has ended at counter reading `tick_counter`.
    pub fn is_expired(&self, tick_counter: u16) -> (b: bool)
        ensures
            b == tick_expired(self.target(), tick_counter),
    {
        proof {
            assert((1u16 << 15u16) == 0x8000u16) by (bit_vector);
        }
        // adjust with a wrapping subtract to detect rollover
        tick_counter.wrapping_sub(self.target_tick) < (1u16 << 15u16)
    }
}

} // verus!
