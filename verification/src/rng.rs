//! The integer core of the `mulberry32` generator the sound uses, the
//! seed derivations built on it, and the point hash that seeds a player.
//!
//! Everything here is exact 32-bit arithmetic: the step that turns the state
//! into a uniform number in [0, 1) (a division by 2^32) is left to the
//! caller, which holds the floating-point side.

use vstd::prelude::*;

verus! {

/// The constant `mulberry32` adds to its state before every output.
pub const MULBERRY_STEP: u32 = 0x6d2b_79f5;

/// Wrapping 32-bit multiplication.
pub open spec fn wmul(x: u32, y: u32) -> u32 {
    vstd::wrapping::u32_specs::wrapping_mul(x, y)
}

/// Wrapping addition on 32 bits.
pub open spec fn wadd(x: u32, y: u32) -> u32 {
    vstd::wrapping::u32_specs::wrapping_add(x, y)
}

/// The output mix of `mulberry32`, applied to the already advanced state.
pub open spec fn mix32(a: u32) -> u32 {
    let t1 = wmul(a ^ (a >> 15u32), a | 1u32);
    let t2 = t1 ^ wadd(t1, wmul(t1 ^ (t1 >> 7u32), t1 | 61u32));
    t2 ^ (t2 >> 14u32)
}

/// The output mix, executable.
pub fn mix(a: u32) -> (r: u32)
    ensures
        r == mix32(a),
{
    let t1 = (a ^ (a >> 15)).wrapping_mul(a | 1);
    let t2 = t1 ^ t1.wrapping_add((t1 ^ (t1 >> 7)).wrapping_mul(t1 | 61));
    t2 ^ (t2 >> 14)
}

/// The `mulberry32` generator: a 32-bit state, advanced by a constant and mixed.
#[derive(Clone, Copy, Debug)]
pub struct Mulberry32 {
    a: u32,
}

impl Mulberry32 {
    /// The current state.
    pub closed spec fn state(self) -> u32 {
        self.a
    }

    pub fn new(seed: u32) -> (r: Self)
        ensures
            r.state() == seed,
    {
        Self { a: seed }
    }

    /// The next raw output: the uniform number in [0, 1) that the generator
    /// stands for is this value divided by 2^32.
    pub fn next_u32(&mut self) -> (r: u32)
        ensures
            final(self).state() == wadd(old(self).state(), MULBERRY_STEP),
            r == mix32(final(self).state()),
    {
        self.a = self.a.wrapping_add(MULBERRY_STEP);
        mix(self.a)
    }
}

/// Sample & hold for an LFO: a pure function of the cycle number, one
/// `mulberry32` step from the cycle number taken as a 32-bit integer (its
/// low 32 bits). The LFO value is this hash over 2^32, doubled, minus one.
pub fn cycle_hash(cycle: i64) -> (r: u32)
    ensures
        r == mix32(wadd(cycle as i32 as u32, MULBERRY_STEP)),
{
    let a = (cycle as i32 as u32).wrapping_add(MULBERRY_STEP);
    mix(a)
}

/// The linear congruential step that derives one generator's seed from the
/// previous one (Numerical Recipes' constants).
pub open spec fn lcg(s: u32) -> u32 {
    wadd(wmul(s, 1_664_525u32), 1_013_904_223u32)
}

/// `lcg` applied `k` times.
pub open spec fn lcg_iter(s: u32, k: nat) -> u32
    decreases k,
{
    if k == 0 {
        s
    } else {
        lcg(lcg_iter(s, (k - 1) as nat))
    }
}

/// The seeds the engine hands its generators, one per formula, in order:
/// the first is one step from `seed`, each next one step further.
pub fn slot_seeds(seed: u32, count: usize) -> (r: Vec<u32>)
    ensures
        r@.len() == count,
        forall|i: int| 0 <= i < count ==> r@[i] == #[trigger] lcg_iter(seed, (i + 1) as nat),
{
    let mut out: Vec<u32> = Vec::new();
    let mut s = seed;
    let mut i: usize = 0;
    while i < count
        invariant
            i <= count,
            out@.len() == i,
            s == lcg_iter(seed, i as nat),
            forall|j: int| 0 <= j < i ==> out@[j] == #[trigger] lcg_iter(seed, (j + 1) as nat),
        decreases count - i,
    {
        s = s.wrapping_mul(1_664_525).wrapping_add(1_013_904_223);
        out.push(s);
        i = i + 1;
    }
    out
}

/// FNV-1a over bytes, 32 bits: the hash of a point's JSON is the seed its
/// noisy generators start from, so a point sounds the same from run to run.
pub open spec fn fnv1a_spec(bytes: Seq<u8>) -> u32
    decreases bytes.len(),
{
    if bytes.len() == 0 {
        2_166_136_261u32
    } else {
        wmul(fnv1a_spec(bytes.drop_last()) ^ (bytes.last() as u32), 16_777_619u32)
    }
}

pub fn fnv1a(bytes: &[u8]) -> (h: u32)
    ensures
        h == fnv1a_spec(bytes@),
{
    let mut h: u32 = 2_166_136_261;
    let mut i: usize = 0;
    while i < bytes.len()
        invariant
            i <= bytes@.len(),
            h == fnv1a_spec(bytes@.take(i as int)),
        decreases bytes@.len() - i,
    {
        proof {
            assert(bytes@.take(i + 1).drop_last() =~= bytes@.take(i as int));
        }
        h ^= bytes[i] as u32;
        h = h.wrapping_mul(16_777_619);
        i = i + 1;
    }
    proof {
        assert(bytes@.take(bytes@.len() as int) =~= bytes@);
    }
    h
}

} // verus!
