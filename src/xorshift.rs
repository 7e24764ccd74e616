use vstd::prelude::*;
use crate::splitmix::{SplitMix32, advance, mix32};

verus! {

/// The four words of a xorshift128 state, in the order x, y, z, w.
pub type Words = (u32, u32, u32, u32);

/// A state from which the recurrence can leave: not all four words are zero.
pub open spec fn nonzero(s: Words) -> bool {
    !(s.0 == 0 && s.1 == 0 && s.2 == 0 && s.3 == 0)
}

/// The feedback word taken from `x`.
pub open spec fn feedback(x: u32) -> u32 {
    x ^ ((x << 11u32) as u32)
}

/// One step of Marsaglia's xorshift128; the output is the new `w`.
pub open spec fn step(s: Words) -> Words {
    let t = feedback(s.0);
    (s.1, s.2, s.3, s.3 ^ (s.3 >> 19u32) ^ t ^ (t >> 8u32))
}

/// The state after `k` steps from `s`.
pub open spec fn steps(s: Words, k: nat) -> Words
    decreases k,
{
    if k == 0 {
        s
    } else {
        step(steps(s, (k - 1) as nat))
    }
}

/// The mixer's state after `i` steps from `seed`.
pub open spec fn mixed(seed: u32, i: nat) -> u32
    decreases i,
{
    if i == 0 {
        seed
    } else {
        advance(mixed(seed, (i - 1) as nat))
    }
}

/// The state a generator seeded with `seed` starts from: four mixer outputs,
/// with the last forced to one when all four are zero.
pub open spec fn seeded(seed: u32) -> Words {
    let x = mix32(mixed(seed, 1));
    let y = mix32(mixed(seed, 2));
    let z = mix32(mixed(seed, 3));
    let w = mix32(mixed(seed, 4));
    if x == 0 && y == 0 && z == 0 && w == 0 {
        (x, y, z, 1u32)
    } else {
        (x, y, z, w)
    }
}

/// The 53-bit integer made of the top 27 bits of `a` followed by the top 26
/// bits of `b`.
pub open spec fn join53(a: u32, b: u32) -> int {
    (a >> 5u32) as int * 0x400_0000 + (b >> 6u32) as int
}

/// 2 to the 53rd: every uniform draw is an integer below it, to be scaled by its inverse.
pub const TWO_POW_53: u64 = 0x20_0000_0000_0000;

proof fn lemma_step_nonzero(s: Words)
    requires
        nonzero(s),
    ensures
        nonzero(step(s)),
{
    let x = s.0;
    let t = feedback(x);
    assert(t ^ (t >> 8u32) == 0 ==> t == 0) by (bit_vector);
    assert(x ^ ((x << 11u32) as u32) == 0 ==> x == 0) by (bit_vector);
    let w = s.3;
    assert(w == 0 ==> w ^ (w >> 19u32) ^ t ^ (t >> 8u32) == t ^ (t >> 8u32)) by (bit_vector);
}

/// Stepping `i` times and then `j` times is stepping `i + j` times: the draws
/// of a generator form one stream.
pub proof fn lemma_steps_add(s: Words, i: nat, j: nat)
    ensures
        steps(steps(s, i), j) == steps(s, i + j),
    decreases j,
{
    if j > 0 {
        lemma_steps_add(s, i, (j - 1) as nat);
    }
}

/// The generator's state never becomes all zero.
pub proof fn lemma_steps_nonzero(s: Words, k: nat)
    requires
        nonzero(s),
    ensures
        nonzero(steps(s, k)),
    decreases k,
{
    if k > 0 {
        lemma_steps_nonzero(s, (k - 1) as nat);
        lemma_step_nonzero(steps(s, (k - 1) as nat));
    }
}

/// Marsaglia's xorshift128 generator over four 32-bit words.
#[derive(Clone, Copy)]
pub struct XorShift128 {
    x: u32,
    y: u32,
    z: u32,
    w: u32,
}

impl View for XorShift128 {
    type V = Words;

    closed spec fn view(&self) -> Words {
        (self.x, self.y, self.z, self.w)
    }
}

impl XorShift128 {
    /// Seeds the four words from four outputs of a splitmix scrambler.
    pub fn new(seed: u32) -> (r: XorShift128)
        ensures
            r@ == seeded(seed),
            nonzero(r@),
    {
        let mut sm = SplitMix32::new(seed);
        let x = sm.next_u32();
        let y = sm.next_u32();
        let z = sm.next_u32();
        let mut w = sm.next_u32();
        assert(sm.s == mixed(seed, 4)) by {
            reveal_with_fuel(mixed, 5);
        }
        if (x | y | z | w) == 0 {
            w = 1;
        }
        proof {
            let w0 = mix32(mixed(seed, 4));
            assert((x | y | z | w0) == 0 <==> (x == 0 && y == 0 && z == 0 && w0 == 0)) by (bit_vector);
            reveal_with_fuel(mixed, 5);
        }
        XorShift128 { x, y, z, w }
    }

    /// The four words of the state, in the order x, y, z, w.
    pub fn words(&self) -> (r: Words)
        ensures
            r == self@,
    {
        (self.x, self.y, self.z, self.w)
    }

    /// The next 32-bit output: one step of the recurrence.
    pub fn next_u32(&mut self) -> (r: u32)
        ensures
            final(self)@ == step(old(self)@),
            r == final(self)@.3,
            nonzero(old(self)@) ==> nonzero(final(self)@),
    {
        proof {
            if nonzero(self@) {
                lemma_step_nonzero(self@);
            }
        }
        let t = self.x ^ (self.x << 11);
        self.x = self.y;
        self.y = self.z;
        self.z = self.w;
        self.w = self.w ^ (self.w >> 19) ^ t ^ (t >> 8);
        self.w
    }

    /// The integer behind a uniform draw in [0, 1): two outputs joined into
    /// 53 bits, the draw being this value times 2^-53.
    pub fn next_u53(&mut self) -> (r: u64)
        ensures
            final(self)@ == steps(old(self)@, 2),
            r as int == join53(step(old(self)@).3, steps(old(self)@, 2).3),
            r < TWO_POW_53,
            nonzero(old(self)@) ==> nonzero(final(self)@),
    {
        let a = self.next_u32();
        let b = self.next_u32();
        let r: u64 = ((a >> 5) as u64) << 26 | ((b >> 6) as u64);
        proof {
            reveal_with_fuel(steps, 3);
            let ha: u64 = (a >> 5u32) as u64;
            let lb: u64 = (b >> 6u32) as u64;
            assert(ha < 0x800_0000) by (bit_vector)
                requires ha == (a >> 5u32) as u64;
            assert(lb < 0x400_0000) by (bit_vector)
                requires lb == (b >> 6u32) as u64;
            assert((ha << 26u64) | lb == ha * 0x400_0000 + lb) by (bit_vector)
                requires ha < 0x800_0000, lb < 0x400_0000;
        }
        r
    }
}

} // verus!
