use vstd::prelude::*;

verus! {

/// The shared random number generator whose seed every peer keeps in step, so that all peers
/// draw the same numbers.
#[derive(Clone, Copy, Debug, PartialEq, Eq, Structural)]
pub struct RollbackRng {
    pub seed: u32,
}

/// The seed a generator starts from, for a given starting number.
pub open spec fn spec_initial_seed(seed: u32) -> u32 {
    ((seed as nat + 54321) % 0x1_0000_0000) as u32
}

/// One step of the linear congruential generator: `seed * 1664525 + 1013904223` modulo 2^32.
pub open spec fn spec_next_seed(seed: u32) -> u32 {
    ((seed as nat * 1664525 + 1013904223) % 0x1_0000_0000) as u32
}

/// The number a step hands out: the low 31 bits of the new seed.
pub open spec fn spec_output(seed: u32) -> u32 {
    (seed % 0x8000_0000) as u32
}

impl RollbackRng {
    /// A generator seeded from `seed` (offset by 54321, wrapping).
    pub fn new(seed: u32) -> (r: RollbackRng)
        ensures
            r.seed == spec_initial_seed(seed),
    {
        RollbackRng { seed: seed.wrapping_add(54321) }
    }

    /// Advances the generator one step and returns the low 31 bits of the new seed; the game
    /// divides this by 2^31 to get its random fraction.
    pub fn next_u31(&mut self) -> (v: u32)
        ensures
            final(self).seed == spec_next_seed(old(self).seed),
            v == spec_output(final(self).seed),
            v < 0x8000_0000,
    {
        let m = self.seed.wrapping_mul(1664525);
        let s = m.wrapping_add(1013904223);
        proof {
            let x = old(self).seed as nat;
            assert(m as nat == (x * 1664525) % 0x1_0000_0000);
            vstd::arithmetic::div_mod::lemma_add_mod_noop(
                (x * 1664525) as int,
                1013904223,
                0x1_0000_0000,
            );
            assert(1013904223int % 0x1_0000_0000 == 1013904223);
            assert((m as nat + 1013904223) % 0x1_0000_0000 == (x * 1664525 + 1013904223) % 0x1_0000_0000);
        }
        self.seed = s;
        let v = s & 0x7FFF_FFFF;
        assert(s & 0x7FFF_FFFF == s % 0x8000_0000) by (bit_vector);
        v
    }
}

} // verus!
