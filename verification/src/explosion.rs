//! The pseudo-random generator behind the bell's particle burst.
use vstd::prelude::*;

verus! {

/// One step of xorshift64 (shifts 13, 7, 17).
pub open spec fn xorshift64(x: u64) -> u64 {
    let a = x ^ (x << 13u64);
    let b = a ^ (a >> 7u64);
    b ^ (b << 17u64)
}

/// Simple xorshift64 generator; its state is never zero.
pub struct Rng {
    state: u64,
}

/// xorshift64 never maps a non-zero state to zero, so a generator never
/// gets stuck.
pub proof fn law_xorshift_nonzero(x: u64)
    requires
        x != 0,
    ensures
        xorshift64(x) != 0,
{
    let a = x ^ (x << 13u64);
    assert(x != 0 ==> x ^ (x << 13u64) != 0) by (bit_vector);
    let b = a ^ (a >> 7u64);
    assert(a != 0 ==> a ^ (a >> 7u64) != 0) by (bit_vector);
    assert(b != 0 ==> b ^ (b << 17u64) != 0) by (bit_vector);
}

impl Rng {
    #[verifier::type_invariant]
    spec fn nonzero(self) -> bool {
        self.state != 0
    }

    /// The current state.
    pub closed spec fn spec_state(self) -> u64 {
        self.state
    }

    /// A generator seeded from a clock reading in nanoseconds (the low bit
    /// forced to one, so the state is not zero).
    pub fn new(clock_nanos: u64) -> (r: Rng)
        ensures
            r.spec_state() == clock_nanos | 1u64,
            r.spec_state() != 0,
    {
        let seed = clock_nanos | 1;
        assert(seed != 0) by (bit_vector)
            requires
                seed == clock_nanos | 1u64,
        ;
        Rng { state: seed }
    }

    /// Advance the generator and return its new state.
    pub fn next_u64(&mut self) -> (r: u64)
        ensures
            r == xorshift64(old(self).spec_state()),
            final(self).spec_state() == r,
            r != 0,
    {
        proof {
            use_type_invariant(&*self);
            law_xorshift_nonzero(self.state);
        }
        let mut x = self.state;
        x = x ^ (x << 13);
        x = x ^ (x >> 7);
        x = x ^ (x << 17);
        self.state = x;
        x
    }
}

} // verus!
