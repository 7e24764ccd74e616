use vstd::prelude::*;
use crate::xorshift::{XorShift128, Words, join53, lemma_steps_add, step, steps};

verus! {

/// How a Gaussian draw begins.
#[derive(Clone, Copy, Debug, PartialEq, Eq, Structural)]
pub enum Start {
    /// The spare of the previous pair, as the bits of a double; no generator draw was made.
    Spare(u64),
    /// No spare was cached: the 53-bit integers behind the first two uniform
    /// draws of the rejection loop.
    Fresh(u64, u64),
}

/// The two 53-bit integers that four steps from `s` yield, in order.
pub open spec fn candidate(s: Words) -> (int, int) {
    (join53(step(s).3, steps(s, 2).3), join53(steps(s, 3).3, steps(s, 4).3))
}

/// The state of the polar method: whether the second value of the last
/// accepted pair is still owed, and that value as the bits of a double.
#[derive(Clone, Copy)]
pub struct NormalPolar {
    pub has_spare: bool,
    pub spare_bits: u64,
}

impl NormalPolar {
    pub fn new() -> (r: NormalPolar)
        ensures
            !r.has_spare,
    {
        NormalPolar { has_spare: false, spare_bits: 0 }
    }

    /// Begins a draw. A cached spare is handed out and cleared, and the
    /// generator is left alone; otherwise the generator makes exactly four
    /// steps, for the two uniforms of the first candidate pair.
    pub fn start(&mut self, rng: &mut XorShift128) -> (r: Start)
        ensures
            old(self).has_spare ==> r == Start::Spare(old(self).spare_bits) && final(rng)@
                == old(rng)@,
            !old(self).has_spare ==> final(rng)@ == steps(old(rng)@, 4) && (match r {
                Start::Fresh(u, v) => (u as int, v as int) == candidate(old(rng)@),
                Start::Spare(_) => false,
            }),
            !final(self).has_spare,
            final(self).spare_bits == old(self).spare_bits,
    {
        if self.has_spare {
            self.has_spare = false;
            return Start::Spare(self.spare_bits);
        }
        let (u, v) = rng.next_pair();
        Start::Fresh(u, v)
    }

    /// Caches the second value of an accepted pair.
    pub fn keep_spare(&mut self, bits: u64)
        ensures
            final(self).has_spare,
            final(self).spare_bits == bits,
    {
        self.has_spare = true;
        self.spare_bits = bits;
    }
}

impl XorShift128 {
    /// The integers behind the two uniforms of one candidate pair of the
    /// polar method: four steps of the generator.
    pub fn next_pair(&mut self) -> (r: (u64, u64))
        ensures
            final(self)@ == steps(old(self)@, 4),
            (r.0 as int, r.1 as int) == candidate(old(self)@),
    {
        let u = self.next_u53();
        let v = self.next_u53();
        proof {
            reveal_with_fuel(steps, 5);
        }
        (u, v)
    }
}

/// Two Gaussian draws in a row, the first made with no spare cached: `start`
/// takes four integer draws, each of the `k - 1` rejected pairs four more
/// through `next_pair`, and the second draw, served from the spare, none. The
/// generator then stands `4k` draws on, an even count.
pub proof fn lemma_draw_pair_even(s: Words, k: nat)
    requires
        k >= 1,
    ensures
        steps(steps(steps(s, 4), 4 * (k - 1) as nat), 0) == steps(s, 4 * k),
        (4 * k) % 2 == 0,
{
    lemma_steps_add(s, 4, 4 * (k - 1) as nat);
    assert(4 + 4 * (k - 1) as nat == 4 * k) by (nonlinear_arith)
        requires k >= 1;
}

} // verus!
