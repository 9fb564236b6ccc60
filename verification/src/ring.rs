//! The ring buffer under the delay line: where the next sample goes and
//! which slots a delay reads. The samples and the fractional part of a
//! delay are the audio code's; the slot arithmetic is here.

use vstd::prelude::*;
use vstd::arithmetic::div_mod::{lemma_mod_add_multiples_vanish, lemma_small_mod};

verus! {

/// The slot after `write` in a ring of `n` slots.
pub open spec fn next_slot(write: int, n: int) -> int {
    (write + 1) % n
}

/// The slot `k` writes after `write`.
pub open spec fn slot_after(write: int, k: int, n: int) -> int {
    (write + k) % n
}

/// The slot a delay of `i` whole samples reads when the write pointer is at
/// `write`: the sample about to be written counts as delay 0.
pub open spec fn tap_slot(write: int, i: int, n: int) -> int {
    (write + 1 + n - i) % n
}

/// `a % n` for `0 <= a < 2n`: one subtraction at most.
proof fn lemma_mod_once(a: int, n: int)
    requires
        0 < n,
        0 <= a < 2 * n,
    ensures
        a % n == if a < n { a } else { a - n },
{
    if a < n {
        lemma_small_mod(a as nat, n as nat);
    } else {
        lemma_mod_add_multiples_vanish(a - n, n);
        lemma_small_mod((a - n) as nat, n as nat);
    }
}

/// Where the next sample goes.
pub fn ring_next(write: usize, n: usize) -> (r: usize)
    requires
        write < n,
    ensures
        r as int == next_slot(write as int, n as int),
        r < n,
{
    (write + 1) % n
}

/// The two slots a delay of `i` whole samples reads (the second for the
/// fraction of a sample beyond it), in a ring of `n` slots whose write
/// pointer is at `write`.
pub fn delay_taps(write: usize, n: usize, i: usize) -> (r: (usize, usize))
    requires
        3 <= n,
        n < usize::MAX / 2,
        write < n,
        1 <= i <= n - 2,
    ensures
        r.0 as int == tap_slot(write as int, i as int, n as int),
        r.1 as int == tap_slot(write as int, i + 1, n as int),
        r.0 < n,
        r.1 < n,
{
    let i0 = (write + 1 + n - i) % n;
    proof {
        let a = write + 1 + n - i;
        lemma_mod_once(a, n as int);
    }
    let i1 = (i0 + n - 1) % n;
    proof {
        lemma_mod_once(i0 + n - 1, n as int);
        let b = write + 1 + n - (i + 1);
        lemma_mod_once(b, n as int);
    }
    (i0, i1)
}

/// A sample written at the next slot comes back `d` writes later as delay
/// `d`: what the delay line plays `d` samples after an impulse is the
/// impulse.
pub proof fn lemma_written_sample_returns_after_its_delay(write: int, d: int, n: int)
    requires
        3 <= n,
        0 <= write < n,
        1 <= d <= n - 2,
    ensures
        tap_slot(slot_after(write, d, n), d, n) == next_slot(write, n),
{
    let later = slot_after(write, d, n);
    lemma_mod_once(write + d, n);
    lemma_mod_once(write + 1, n);
    lemma_mod_once(later + 1 + n - d, n);
}

} // verus!
