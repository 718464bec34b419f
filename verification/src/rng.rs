//! A small deterministic pseudo-random number generator (xorshift with a
//! multiplicative output mix), seeded from a caller-supplied value.
//!
//! The body placement layer derives its seeds from body positions; the
//! generator itself is a pure function of its state, so the same seed
//! always yields the same sequence.

use vstd::prelude::*;

verus! {

/// The 64-bit output mix multiplier.
pub const MIX64: u64 = 0x2545F4914F6CDD1D;

/// The 32-bit output mix multiplier.
pub const MIX32: u32 = 0x85eb_ca6b;

/// One 64-bit xorshift step of the state.
pub open spec fn xorshift64_spec(x: u64) -> u64 {
    let a = x ^ (x >> 12);
    let b = a ^ (a << 25);
    b ^ (b >> 27)
}

/// One 32-bit xorshift step of the low state half.
pub open spec fn xorshift32_spec(x: u32) -> u32 {
    let a = x ^ (x >> 13);
    let b = a ^ (a << 17);
    b ^ (b >> 5)
}

/// A deterministic pseudo-random generator.
pub struct RNG {
    state: u64,
}

impl RNG {
    /// The state, as the contracts see it.
    pub closed spec fn spec_state(self) -> u64 {
        self.state
    }

    /// A generator with the given seed.
    pub fn new(seed: u64) -> (r: RNG)
        ensures
            r.spec_state() == seed,
    {
        RNG { state: seed }
    }

    /// The next 64-bit value: a xorshift step of the state, mixed by a
    /// multiplication modulo `2^64`.
    fn next_u64(&mut self) -> (r: u64)
        ensures
            final(self).spec_state() == xorshift64_spec(old(self).spec_state()),
            r == mul_mod64(xorshift64_spec(old(self).spec_state()), MIX64),
    {
        let mut x = self.state;
        x = x ^ (x >> 12);
        x = x ^ (x << 25);
        x = x ^ (x >> 27);
        self.state = x;
        proof {
            assert(x == xorshift64_spec(old(self).spec_state()));
        }
        mul_wrap64(x, MIX64)
    }

    /// The next 32-bit value: a xorshift step of the low state half, mixed
    /// by a multiplication modulo `2^32`; the high state half is kept.
    fn next_u32(&mut self) -> (r: u32)
        ensures
            final(self).spec_state() == (old(self).spec_state() & 0xFFFFFFFF00000000) | (
            xorshift32_spec(old(self).spec_state() as u32) as u64),
            r == mul_mod32(xorshift32_spec(old(self).spec_state() as u32), MIX32),
    {
        let mut x = self.state as u32;
        x = x ^ (x >> 13);
        x = x ^ (x << 17);
        x = x ^ (x >> 5);
        self.state = (self.state & 0xFFFFFFFF00000000) | (x as u64);
        mul_wrap32(x, MIX32)
    }

    /// A value in `[min, max)`: the mixed 32-bit step reduced into the
    /// interval.
    pub fn u32(&mut self, min: u32, max: u32) -> (r: u32)
        requires
            min < max,
        ensures
            min <= r < max,
            r == min + mul_mod32(xorshift32_spec(old(self).spec_state() as u32), MIX32) % ((max
                - min) as u32),
            final(self).spec_state() == (old(self).spec_state() & 0xFFFFFFFF00000000) | (
            xorshift32_spec(old(self).spec_state() as u32) as u64),
    {
        let n = self.next_u32();
        min + (n % (max - min))
    }

    /// A value in `[min, max)`: the mixed 64-bit step reduced into the
    /// interval.
    pub fn u64(&mut self, min: u64, max: u64) -> (r: u64)
        requires
            min < max,
        ensures
            min <= r < max,
            r == min + mul_mod64(xorshift64_spec(old(self).spec_state()), MIX64) % ((max
                - min) as u64),
            final(self).spec_state() == xorshift64_spec(old(self).spec_state()),
    {
        let n = self.next_u64();
        min + (n % (max - min))
    }

    /// The next raw 53-bit value, for callers that map it onto a real
    /// interval of their own.
    pub fn norm_bits(&mut self) -> (r: u64)
        ensures
            r < 0x20_0000_0000_0000,
            r == mul_mod64(xorshift64_spec(old(self).spec_state()), MIX64) >> 11,
            final(self).spec_state() == xorshift64_spec(old(self).spec_state()),
    {
        let n = self.next_u64();
        proof {
            assert(n >> 11 < 0x20_0000_0000_0000) by (bit_vector);
        }
        n >> 11
    }
}

/// The product modulo `2^64`.
pub open spec fn mul_mod64(a: u64, b: u64) -> u64 {
    (((a as int) * (b as int)) % 0x1_0000_0000_0000_0000) as u64
}

/// The product modulo `2^32`.
pub open spec fn mul_mod32(a: u32, b: u32) -> u32 {
    (((a as int) * (b as int)) % 0x1_0000_0000) as u32
}

fn mul_wrap64(a: u64, b: u64) -> (r: u64)
    ensures
        r == mul_mod64(a, b),
{
    proof {
        assert((a as u128 as int) * (b as u128 as int) <= 0xFFFF_FFFF_FFFF_FFFF * 0xFFFF_FFFF_FFFF_FFFF)
            by (nonlinear_arith)
            requires
                0 <= a as u128 as int <= 0xFFFF_FFFF_FFFF_FFFF,
                0 <= b as u128 as int <= 0xFFFF_FFFF_FFFF_FFFF;
    }
    let w = ((a as u128) * (b as u128)) % 0x1_0000_0000_0000_0000;
    proof {
        assert((a as int) * (b as int) >= 0 && (a as int) * (b as int) == (a as u128 as int) * (
        b as u128 as int)) by (nonlinear_arith)
            requires
                a as int >= 0 && b as int >= 0;
    }
    w as u64
}

fn mul_wrap32(a: u32, b: u32) -> (r: u32)
    ensures
        r == mul_mod32(a, b),
{
    proof {
        assert((a as u64 as int) * (b as u64 as int) <= 0xFFFF_FFFF * 0xFFFF_FFFF)
            by (nonlinear_arith)
            requires
                0 <= a as u64 as int <= 0xFFFF_FFFF,
                0 <= b as u64 as int <= 0xFFFF_FFFF;
    }
    let w = ((a as u64) * (b as u64)) % 0x1_0000_0000;
    proof {
        assert((a as int) * (b as int) >= 0 && (a as int) * (b as int) == (a as u64 as int) * (
        b as u64 as int)) by (nonlinear_arith)
            requires
                a as int >= 0 && b as int >= 0;
    }
    w as u32
}

} // verus!
