use vstd::prelude::*;

verus! {

/// The additive constant of the mixer's state.
pub const GOLDEN_GAMMA: u32 = 0x9E37_79B9;

/// What the mixer outputs when its state, already advanced, is `s`.
pub open spec fn mix32(s: u32) -> u32 {
    let z1 = ((s ^ (s >> 16u32)) as int * 0x85EB_CA6B) % 0x1_0000_0000;
    let z1 = z1 as u32;
    let z2 = ((z1 ^ (z1 >> 13u32)) as int * 0xC2B2_AE35) % 0x1_0000_0000;
    let z2 = z2 as u32;
    z2 ^ (z2 >> 16u32)
}

/// The state after one step.
pub open spec fn advance(s: u32) -> u32 {
    ((s as int + GOLDEN_GAMMA as int) % 0x1_0000_0000) as u32
}

/// A 32-bit splitmix scrambler, used to spread a seed over several words.
#[derive(Clone, Copy)]
pub struct SplitMix32 {
    pub s: u32,
}

impl SplitMix32 {
    pub fn new(seed: u32) -> (r: SplitMix32)
        ensures
            r.s == seed,
    {
        SplitMix32 { s: seed }
    }

    /// Advances the state by the golden gamma and returns its mix.
    pub fn next_u32(&mut self) -> (r: u32)
        ensures
            final(self).s == advance(old(self).s),
            r == mix32(final(self).s),
    {
        self.s = self.s.wrapping_add(GOLDEN_GAMMA);
        let mut z: u32 = self.s;
        z = (z ^ (z >> 16)).wrapping_mul(0x85EB_CA6B);
        z = (z ^ (z >> 13)).wrapping_mul(0xC2B2_AE35);
        z ^ (z >> 16)
    }
}

} // verus!
