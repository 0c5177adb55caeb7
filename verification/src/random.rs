//! Xorshift pseudo-random generator and the ephemeral-port draw the
//! network layer makes from it.  The generator is deterministic from
//! its seed; its step function is specified bit for bit.

use vstd::prelude::*;

verus! {

/// First ephemeral TCP port.
pub const EPHEMERAL_PORT_START: u16 = 49152;

/// Number of ephemeral ports drawn from.
pub const EPHEMERAL_PORT_COUNT: u16 = 16383;

/// One xorshift32 step.
pub open spec fn xorshift_step(s: u32) -> u32 {
    let a = s ^ (s << 13);
    let b = a ^ (a >> 17);
    b ^ (b << 5)
}

/// A 32-bit xorshift pseudo-random generator.
pub struct Random {
    state: u32,
}

impl View for Random {
    type V = u32;

    closed spec fn view(&self) -> u32 {
        self.state
    }
}

impl Random {
    /// Seeds the generator.
    pub fn new(seed: u32) -> (r: Self)
        ensures
            r@ == seed,
    {
        Random { state: seed }
    }

    /// Advances the generator one step and returns the new state.
    pub fn next_u32(&mut self) -> (r: u32)
        ensures
            final(self)@ == xorshift_step(old(self)@),
            r == final(self)@,
    {
        self.state = self.state ^ (self.state << 13);
        self.state = self.state ^ (self.state >> 17);
        self.state = self.state ^ (self.state << 5);
        self.state
    }

    /// Draws a value below `upper_bound` by rejection sampling, so
    /// every residue is equally likely over the generator's period.
    /// The number of rejections is capped at the generator's period;
    /// past it the draw is taken unrejected.
    pub fn next(&mut self, upper_bound: u32) -> (r: u32)
        requires
            upper_bound > 0,
        ensures
            r == final(self)@ % upper_bound,
            r < upper_bound,
    {
        let mut i: u64 = 0;
        while i < 0x1_0000_0000
            invariant
                upper_bound > 0,
            decreases 0x1_0000_0000 - i,
        {
            let rand: u32 = self.next_u32();
            let sets: u32 = u32::MAX / upper_bound;
            proof {
                vstd::arithmetic::div_mod::lemma_fundamental_div_mod(
                    u32::MAX as int,
                    upper_bound as int,
                );
            }
            if rand < sets * upper_bound {
                return rand % upper_bound;
            }
            i = i + 1;
        }
        let rand: u32 = self.next_u32();
        rand % upper_bound
    }
}

/// Draws an ephemeral local TCP port.
pub fn generate_local_port(random: &mut Random) -> (p: u16)
    ensures
        p == EPHEMERAL_PORT_START + final(random)@ % (EPHEMERAL_PORT_COUNT as u32),
        EPHEMERAL_PORT_START <= p < EPHEMERAL_PORT_START + EPHEMERAL_PORT_COUNT,
{
    EPHEMERAL_PORT_START + random.next(EPHEMERAL_PORT_COUNT as u32) as u16
}

} // verus!
