//! Transform sizes for the spectrum analysis. The transform itself works on
//! floating-point samples and lives with the audio code; its size is chosen
//! here.

use vstd::prelude::*;
use vstd::arithmetic::power2::{pow2, lemma_pow2, lemma_pow2_unfold};
use vstd::arithmetic::power::lemma_pow0;

verus! {

/// Whether `r` is the smallest power of two that is at least `n` (and at
/// least 1).
pub open spec fn is_next_pow2(n: nat, r: nat) -> bool {
    &&& exists|k: nat| pow2(k) == r
    &&& r >= n
    &&& r == 1 || r / 2 < n
}

/// The transform size for `n` samples: the next power of two, 1 for 0.
pub fn next_pow2(n: usize) -> (r: usize)
    requires
        n <= usize::MAX / 2 + 1,
    ensures
        is_next_pow2(n as nat, r as nat),
{
    let mut p: usize = 1;
    let ghost mut k: nat = 0;
    proof {
        lemma_pow2(0);
        lemma_pow0(2);
    }
    while p < n
        invariant
            n <= usize::MAX / 2 + 1,
            pow2(k) == p,
            p >= 1,
            p == 1 || p / 2 < n,
        decreases usize::MAX - p,
    {
        proof {
            lemma_pow2_unfold(k + 1);
        }
        p = p * 2;
        proof {
            k = k + 1;
        }
    }
    assert(pow2(k) == p);
    p
}

} // verus!
