//! The source of random bytes: a linear congruential generator over 32 bits,
//! seeded by the host.

use vstd::prelude::*;

verus! {

/// Multiplier of the generator.
pub const MULTIPLIER: u64 = 1103515245;

/// Increment of the generator.
pub const INCREMENT: u64 = 12345;

/// The state that follows `state`.
pub open spec fn next_state(state: u32) -> u32 {
    ((state * MULTIPLIER + INCREMENT) % 0x1_0000_0000) as u32
}

/// The byte that a state yields: its bits 16 to 23.
pub open spec fn byte_of(state: u32) -> u8 {
    ((state / 0x1_0000) % 256) as u8
}

/// A generator of random bytes. The same seed gives the same bytes.
#[derive(Debug, Clone, Copy, PartialEq, Eq, Structural)]
pub struct Generator {
    /// The current state.
    pub state: u32,
}

impl Generator {
    /// A generator that starts from `seed`.
    pub fn new(seed: u32) -> (g: Generator)
        ensures
            g.state == seed,
    {
        Generator { state: seed }
    }

    /// Moves to the next state and yields its byte.
    pub fn next_byte(&mut self) -> (byte: u8)
        ensures
            final(self).state == next_state(old(self).state),
            byte == byte_of(final(self).state),
    {
        let next: u64 = (self.state as u64 * MULTIPLIER + INCREMENT) % 0x1_0000_0000;
        self.state = next as u32;
        ((self.state / 0x1_0000) % 256) as u8
    }
}

} // verus!
