//! Sizes that are computed in doubles, computed exactly: an integer as the
//! nearest double holds it, a quotient rounded to a double's 53-bit
//! significand, ties to even. All the values here are whole numbers scaled
//! by a power of two, so integers hold them without loss.

use vstd::prelude::*;
use vstd::arithmetic::div_mod::{lemma_div_denominator, lemma_fundamental_div_mod, lemma_mod_pos_bound};

verus! {

/// The significand of a double holds integers below this exactly.
pub const SIGNIFICAND_LIMIT: u128 = 0x20_0000_0000_0000;

/// 2^n.
pub open spec fn p2(n: nat) -> nat
    decreases n,
{
    if n == 0 {
        1
    } else {
        2 * p2((n - 1) as nat)
    }
}

pub proof fn lemma_p2_pos(n: nat)
    ensures
        p2(n) >= 1,
    decreases n,
{
    if n > 0 {
        lemma_p2_pos((n - 1) as nat);
    }
}

/// `a / b` rounded to the nearest integer, ties to the even one: how a
/// double rounds.
pub open spec fn rne_div(a: nat, b: nat) -> nat {
    let q = a / b;
    let r = a % b;
    if 2 * r > b || (2 * r == b && q % 2 == 1) {
        q + 1
    } else {
        q
    }
}

/// How many low bits of `n` a double's significand cannot keep: the
/// halvings that bring it below 2^53.
pub open spec fn drop_bits(n: nat) -> nat
    decreases n,
{
    if n < 0x20_0000_0000_0000 {
        0
    } else {
        1 + drop_bits(n / 2)
    }
}

/// The double nearest to the integer `n` (ties to even), as an integer.
pub open spec fn to_double(n: nat) -> nat {
    let t = drop_bits(n);
    rne_div(n, p2(t)) * p2(t)
}

/// `a / b` rounded to the nearest integer, ties to even.
pub fn rne_div_exec(a: u128, b: u128) -> (r: u128)
    requires
        b > 0,
        a < u128::MAX,
    ensures
        r == rne_div(a as nat, b as nat),
{
    let q = a / b;
    let rem = a % b;
    proof {
        lemma_fundamental_div_mod(a as int, b as int);
        lemma_mod_pos_bound(a as int, b as int);
        assert(q * b <= a) by (nonlinear_arith)
            requires
                a == b * q + rem,
                rem >= 0;
    }
    if rem > b - rem || (rem == b - rem && q % 2 == 1) {
        q + 1
    } else {
        q
    }
}

/// The double nearest to `n`, as an integer.
pub fn to_double_exec(n: u128) -> (r: u128)
    requires
        n <= 0x100_0000_0000_0000_0000_0000_0000_0000,
    ensures
        r == to_double(n as nat),
        r <= 2 * n,
        n > 0 ==> r > 0,
{
    let mut m = n;
    let mut p: u128 = 1;
    let ghost mut t: nat = 0;
    proof {
        assert(n / 1 == n);
    }
    while m >= SIGNIFICAND_LIMIT
        invariant
            n <= 0x100_0000_0000_0000_0000_0000_0000_0000,
            p == p2(t),
            p >= 1,
            m == n / p,
            p * m <= n,
            n > 0 ==> m >= 1,
            drop_bits(n as nat) == t + drop_bits(m as nat),
        decreases m,
    {
        proof {
            lemma_div_denominator(n as int, p as int, 2);
            assert(p * 2 <= p * m) by (nonlinear_arith)
                requires
                    m >= 2,
                    p >= 1;
        }
        let m2 = m / 2;
        p = p * 2;
        proof {
            t = t + 1;
            lemma_fundamental_div_mod(n as int, p as int);
            lemma_mod_pos_bound(n as int, p as int);
            assert(p * m2 <= n) by (nonlinear_arith)
                requires
                    n == p * (n / p) + n % p,
                    n % p >= 0,
                    m2 == n / p;
        }
        m = m2;
    }
    proof {
        lemma_fundamental_div_mod(n as int, p as int);
        lemma_mod_pos_bound(n as int, p as int);
    }
    let q = rne_div_exec(n, p);
    proof {
        assert(q <= m + 1);
        assert(p * q <= p * m + p) by (nonlinear_arith)
            requires
                q <= m + 1,
                p >= 1;
        if n > 0 {
            assert(p * q >= p) by (nonlinear_arith)
                requires
                    q >= m,
                    m >= 1,
                    p >= 1;
            assert(p <= n) by (nonlinear_arith)
                requires
                    p * m <= n,
                    m >= 1,
                    p >= 1;
        } else {
            assert(m == 0);
            assert(q == 0);
        }
    }
    q * p
}

/// The exponent `s` that puts `384 / l` into a double's significand: the
/// first one from `s` on with `384 · 2^s ≥ 2^52 · l`.
pub open spec fn quot_exp(l: nat, s: nat) -> nat
    decreases 0x20_0000_0000_0000 * l - 384 * p2(s),
{
    if 384 * p2(s) >= 0x10_0000_0000_0000 * l {
        s
    } else {
        proof {
            lemma_p2_pos(s);
            assert(p2(s + 1) == 2 * p2(s));
        }
        quot_exp(l, s + 1)
    }
}

/// `side · 384 / long` as a picture's doubles compute it: `long` and
/// `side` as doubles, `384 / long` rounded to a double (`k / 2^s`), the
/// product rounded to a double (`f / 2^s`), and that rounded to the nearest
/// integer, halves away from zero.
pub open spec fn scaled_by_doubles(side: nat, long: nat) -> nat {
    let l = to_double(long);
    let s = quot_exp(l, 0);
    let k = rne_div(384 * p2(s), l);
    let f = to_double(to_double(side) * k);
    (2 * f + p2(s)) / p2(s + 1)
}

/// `side · 384 / long` as doubles compute it, rounded to an integer.
pub fn scaled_by_doubles_exec(side: u128, long: u128) -> (r: u128)
    requires
        1 <= long <= 0x1_0000_0000_0000_0000,
        side <= 0x1_0000_0000_0000_0000,
    ensures
        r == scaled_by_doubles(side as nat, long as nat),
{
    let l = to_double_exec(long);
    let fs = to_double_exec(side);
    let mut p: u128 = 1;
    let ghost mut s: nat = 0;
    while 384 * p < 0x10_0000_0000_0000 * l
        invariant
            1 <= l <= 0x2_0000_0000_0000_0000,
            p == p2(s),
            p >= 1,
            384 * p < 0x20_0000_0000_0000 * l,
            quot_exp(l as nat, 0) == quot_exp(l as nat, s),
        decreases 0x20_0000_0000_0000 * l - 384 * p,
    {
        p = p * 2;
        proof {
            s = s + 1;
        }
    }
    assert(quot_exp(l as nat, s) == s);
    let k = rne_div_exec(384 * p, l);
    proof {
        lemma_fundamental_div_mod((384 * p) as int, l as int);
        lemma_mod_pos_bound((384 * p) as int, l as int);
        let q = (384 * p) / (l as int);
        assert(q < 0x20_0000_0000_0000) by (nonlinear_arith)
            requires
                384 * p == l * q + (384 * p) % (l as int),
                (384 * p) % (l as int) >= 0,
                384 * p < 0x20_0000_0000_0000 * l,
                l >= 1;
        assert(k <= 0x20_0000_0000_0000);
        assert(fs * k <= 0x2_0000_0000_0000_0000 * 0x20_0000_0000_0000) by (nonlinear_arith)
            requires
                fs <= 0x2_0000_0000_0000_0000,
                k <= 0x20_0000_0000_0000;
    }
    let f = to_double_exec(fs * k);
    proof {
        assert(p2(s + 1) == 2 * p2(s));
    }
    (2 * f + p) / (2 * p)
}


/// A double's significand holds `n / 2^drop_bits(n)`: below 2^53, and at
/// least 2^52 when bits were dropped.
proof fn lemma_drop_bits_window(n: nat)
    ensures
        n / p2(drop_bits(n)) < 0x20_0000_0000_0000,
        drop_bits(n) > 0 ==> n / p2(drop_bits(n)) >= 0x10_0000_0000_0000,
    decreases n,
{
    if n >= 0x20_0000_0000_0000 {
        let t = drop_bits(n / 2);
        lemma_drop_bits_window(n / 2);
        lemma_p2_pos(t);
        lemma_div_denominator(n as int, 2, p2(t) as int);
        assert(p2(t + 1) == 2 * p2(t));
        assert(p2(t) * 2 == 2 * p2(t));
    } else {
        assert(n / 1 == n);
    }
}

/// Rounding a quotient to the nearest integer misses by half at most.
proof fn lemma_rne_close(a: nat, b: nat)
    requires
        b > 0,
    ensures
        2 * rne_div(a, b) * b <= 2 * a + b,
        2 * a <= 2 * rne_div(a, b) * b + b,
{
    let q = a / b;
    let r = a % b;
    lemma_fundamental_div_mod(a as int, b as int);
    lemma_mod_pos_bound(a as int, b as int);
    if rne_div(a, b) == q + 1 {
        assert(2 * r >= b);
        assert(2 * (q + 1) * b == 2 * (b * q) + 2 * b) by (nonlinear_arith);
    } else {
        assert(2 * r <= b);
        assert(2 * q * b == 2 * (b * q)) by (nonlinear_arith);
    }
}

/// The nearest double is within a relative 2^-53 of an integer.
pub proof fn lemma_to_double_close(n: nat)
    ensures
        0x20_0000_0000_0000 * to_double(n) <= 0x20_0000_0000_0001 * n,
        0x1f_ffff_ffff_ffff * n <= 0x20_0000_0000_0000 * to_double(n),
{
    let t = drop_bits(n);
    let pt = p2(t);
    lemma_p2_pos(t);
    lemma_drop_bits_window(n);
    lemma_rne_close(n, pt);
    let q = rne_div(n, pt);
    assert(to_double(n) == q * pt);
    if t == 0 {
        assert(pt == 1);
        assert(n % 1 == 0 && n / 1 == n);
        assert(q == n);
        assert(q * pt == q) by (nonlinear_arith)
            requires
                pt == 1;
        assert(to_double(n) == n);
    } else {
        lemma_fundamental_div_mod(n as int, pt as int);
        lemma_mod_pos_bound(n as int, pt as int);
        let m = n / pt;
        assert(n >= 0x10_0000_0000_0000 * pt) by (nonlinear_arith)
            requires
                n == pt * m + n % pt,
                n % pt >= 0,
                m >= 0x10_0000_0000_0000,
                pt >= 1;
        assert(0x20_0000_0000_0000 * (q * pt) <= 0x20_0000_0000_0001 * n) by (nonlinear_arith)
            requires
                2 * q * pt <= 2 * n + pt,
                n >= 0x10_0000_0000_0000 * pt;
        assert(0x1f_ffff_ffff_ffff * n <= 0x20_0000_0000_0000 * (q * pt)) by (nonlinear_arith)
            requires
                2 * n <= 2 * q * pt + pt,
                n >= 0x10_0000_0000_0000 * pt;
        assert(0x20_0000_0000_0000 * to_double(n) <= 0x20_0000_0000_0001 * n);
    }
}

/// The exponent that [`quot_exp`] settles on puts `384 · 2^s` at least
/// 2^52 times `l`.
proof fn lemma_quot_exp(l: nat, s: nat)
    ensures
        384 * p2(quot_exp(l, s)) >= 0x10_0000_0000_0000 * l,
    decreases 0x20_0000_0000_0000 * l - 384 * p2(s),
{
    if 384 * p2(s) < 0x10_0000_0000_0000 * l {
        lemma_p2_pos(s);
        assert(p2(s + 1) == 2 * p2(s));
        lemma_quot_exp(l, s + 1);
    }
}

/// A side no longer than the long side is scaled to at most 384.
pub proof fn lemma_scaled_at_most_384(side: nat, long: nat)
    requires
        1 <= long,
        side <= long,
    ensures
        scaled_by_doubles(side, long) <= 384,
{
    let l = to_double(long);
    let s = quot_exp(l, 0);
    let x = p2(s);
    let k = rne_div(384 * x, l);
    let ds = to_double(side);
    let f = to_double(ds * k);
    let e: int = 0x20_0000_0000_0000;
    lemma_p2_pos(s);
    lemma_to_double_close(side);
    lemma_to_double_close(long);
    lemma_to_double_close(ds * k);
    lemma_quot_exp(l, 0);
    assert(l >= 1) by (nonlinear_arith)
        requires
            0x1f_ffff_ffff_ffff * long <= 0x20_0000_0000_0000 * l,
            long >= 1;
    lemma_rne_close(384 * x, l);
    assert((e - 1) * ds <= (e + 1) * l) by (nonlinear_arith)
        requires
            e == 0x20_0000_0000_0000,
            e * ds <= (e + 1) * side,
            (e - 1) * long <= e * l,
            side <= long;
    assert(2 * (e - 1) * ds * k <= (e + 1) * (768 * x + l)) by (nonlinear_arith)
        requires
            e == 0x20_0000_0000_0000,
            (e - 1) * ds <= (e + 1) * l,
            2 * k * l <= 768 * x + l,
            k >= 0;
    assert(2 * e * (e - 1) * ds * k <= (e + 1) * (e + 1) * 768 * x) by (nonlinear_arith)
        requires
            e == 0x20_0000_0000_0000,
            2 * (e - 1) * ds * k <= (e + 1) * (768 * x + l),
            e * l <= 768 * x;
    assert(2 * f < 769 * x) by (nonlinear_arith)
        requires
            e == 0x20_0000_0000_0000,
            e * f <= (e + 1) * (ds * k),
            2 * e * (e - 1) * ds * k <= (e + 1) * (e + 1) * 768 * x,
            x >= 1,
            f >= 0;
    assert(p2(s + 1) == 2 * x);
    assert((2 * f + x) / (2 * x) <= 384) by (nonlinear_arith)
        requires
            2 * f < 769 * x,
            x >= 1,
            f >= 0;
}


/// The long side itself is scaled to exactly 384.
pub proof fn lemma_long_side_scales_to_384(long: nat)
    requires
        1 <= long,
    ensures
        scaled_by_doubles(long, long) == 384,
{
    lemma_scaled_at_most_384(long, long);
    let l = to_double(long);
    let s = quot_exp(l, 0);
    let x = p2(s);
    let k = rne_div(384 * x, l);
    let f = to_double(l * k);
    let e: int = 0x20_0000_0000_0000;
    lemma_p2_pos(s);
    lemma_to_double_close(long);
    lemma_to_double_close(l * k);
    lemma_quot_exp(l, 0);
    lemma_rne_close(384 * x, l);
    assert(2 * e * f >= (e - 1) * (768 * x - l)) by (nonlinear_arith)
        requires
            e == 0x20_0000_0000_0000,
            (e - 1) * (l * k) <= e * f,
            768 * x <= 2 * k * l + l;
    assert(2 * f >= 767 * x) by (nonlinear_arith)
        requires
            e == 0x20_0000_0000_0000,
            2 * e * f >= (e - 1) * (768 * x - l),
            e * l <= 768 * x,
            x >= 1;
    assert(p2(s + 1) == 2 * x);
    assert((2 * f + x) / (2 * x) >= 384) by (nonlinear_arith)
        requires
            2 * f >= 767 * x,
            x >= 1;
}


/// `a · x ≤ b · x` with `x` positive gives `a ≤ b`.
proof fn lemma_cancel_factor(a: int, b: int, x: int)
    requires
        a * x <= b * x,
        x > 0,
    ensures
        a <= b,
{
    if a > b {
        assert(a * x > b * x) by (nonlinear_arith)
            requires
                a > b,
                x > 0;
    }
}

/// `a ≤ b` times a non-negative `c`.
proof fn lemma_scale_le(a: int, b: int, c: int)
    requires
        a <= b,
        c >= 0,
    ensures
        a * c <= b * c,
{
    assert(a * c <= b * c) by (nonlinear_arith)
        requires
            a <= b,
            c >= 0;
}

/// The scaled side is the exact `384 · side / long` rounded to the nearest
/// integer, give or take a relative 2^-40 of `long` for the doubles' own
/// rounding: `|2 · v · long − 768 · side| ≤ long · (1 + 2^-40)`.
pub proof fn lemma_scaled_near_exact(side: nat, long: nat)
    requires
        1 <= long,
        side <= long,
    ensures
        0x100_0000_0000 * (2 * scaled_by_doubles(side, long) * long) <= 0x100_0000_0000 * (768 * side + long)
            + long,
        0x100_0000_0000 * (768 * side) <= 0x100_0000_0000 * (2 * scaled_by_doubles(side, long) * long)
            + 0x100_0000_0001 * long,
{
    let l = to_double(long);
    let s = quot_exp(l, 0);
    let x = p2(s);
    let k = rne_div(384 * x, l);
    let ds = to_double(side);
    let p = ds * k;
    let f = to_double(p);
    let v = scaled_by_doubles(side, long);
    lemma_p2_pos(s);
    lemma_to_double_close(side);
    lemma_to_double_close(long);
    lemma_to_double_close(p);
    lemma_quot_exp(l, 0);
    lemma_rne_close(384 * x, l);
    assert(l >= 1) by (nonlinear_arith)
        requires
            0x1fffffffffffff * long <= 0x20000000000000 * l,
            long >= 1;
    assert(p2(s + 1) == 2 * x);
    assert(v == (2 * f + x) / (2 * x));
    lemma_fundamental_div_mod((2 * f + x) as int, (2 * x) as int);
    lemma_mod_pos_bound((2 * f + x) as int, (2 * x) as int);
    assert(2 * x * v <= 2 * f + x < 2 * x * v + 2 * x) by (nonlinear_arith)
        requires
            2 * f + x == (2 * x) * v + (2 * f + x) % (2 * x),
            0 <= (2 * f + x) % (2 * x) < 2 * x;
    // Products named once, so that the rest is linear. The factors
    // 0x20000000000000, 0x20000000000001 and 0x1fffffffffffff are 2^53 and
    // 2^53 ± 1.
    let vl = v * l;
    let vlong = v * long;
    let vxl = vl * x;
    let fl = f * l;
    let xl = l * x;
    let pl = p * l;
    let dx = ds * x;
    let dl = ds * l;
    let sx = side * x;
    let sl = side * l;
    lemma_scale_le((2 * x * v) as int, (2 * f + x) as int, l as int);
    assert(2 * vxl <= 2 * fl + xl) by (nonlinear_arith)
        requires
            (2 * x * v) * l <= (2 * f + x) * l,
            vxl == (v * l) * x,
            fl == f * l,
            xl == l * x;
    assert(2 * fl < 2 * vxl + xl) by (nonlinear_arith)
        requires
            2 * f + x < 2 * x * v + 2 * x,
            l >= 1,
            vxl == (v * l) * x,
            fl == f * l,
            xl == l * x;
    lemma_scale_le((0x20000000000000 * f) as int, (0x20000000000001 * p) as int, l as int);
    lemma_scale_le((0x1fffffffffffff * p) as int, (0x20000000000000 * f) as int, l as int);
    assert(0x20000000000000 * fl <= 0x20000000000001 * pl && 0x1fffffffffffff * pl <= 0x20000000000000 * fl) by (nonlinear_arith)
        requires
            (0x20000000000000 * f) * l <= (0x20000000000001 * p) * l,
            (0x1fffffffffffff * p) * l <= (0x20000000000000 * f) * l,
            fl == f * l,
            pl == p * l;
    lemma_scale_le((2 * k * l) as int, (768 * x + l) as int, ds as int);
    lemma_scale_le((768 * x) as int, (2 * k * l + l) as int, ds as int);
    assert(2 * pl <= 768 * dx + dl && 768 * dx <= 2 * pl + dl) by (nonlinear_arith)
        requires
            (2 * k * l) * ds <= (768 * x + l) * ds,
            (768 * x) * ds <= (2 * k * l + l) * ds,
            pl == (ds * k) * l,
            dx == ds * x,
            dl == ds * l;
    lemma_scale_le((0x20000000000000 * ds) as int, (0x20000000000001 * side) as int, x as int);
    lemma_scale_le((0x1fffffffffffff * side) as int, (0x20000000000000 * ds) as int, x as int);
    lemma_scale_le((0x20000000000000 * ds) as int, (0x20000000000001 * side) as int, l as int);
    assert(0x20000000000000 * dx <= 0x20000000000001 * sx && 0x1fffffffffffff * sx <= 0x20000000000000 * dx && 0x20000000000000 * dl <= 0x20000000000001 * sl) by (nonlinear_arith)
        requires
            (0x20000000000000 * ds) * x <= (0x20000000000001 * side) * x,
            (0x1fffffffffffff * side) * x <= (0x20000000000000 * ds) * x,
            (0x20000000000000 * ds) * l <= (0x20000000000001 * side) * l,
            dx == ds * x,
            sx == side * x,
            dl == ds * l,
            sl == side * l;
    lemma_scale_le((0x20000000000000 * l) as int, (768 * x) as int, side as int);
    lemma_scale_le((0x20000000000000 * l) as int, (768 * x) as int, ds as int);
    assert(0x20000000000000 * sl <= 768 * sx && 0x20000000000000 * dl <= 768 * dx) by (nonlinear_arith)
        requires
            (0x20000000000000 * l) * side <= (768 * x) * side,
            (0x20000000000000 * l) * ds <= (768 * x) * ds,
            sl == side * l,
            sx == side * x,
            dl == ds * l,
            dx == ds * x;
    // Upper side. With e = 2^53: 2^159 is e^3, and the other factor is
    // 768 · (e + 1)^3.
    assert(0x8000000000000000000000000000000000000000 * (2 * vxl) <= 0x1800000000000240000000000012000000000000300 * sx + 0x8000000000000000000000000000000000000000 * xl);
    assert((0x8000000000000000000000000000000000000000 * (2 * vl)) * x == 0x8000000000000000000000000000000000000000 * (2 * vxl) && (0x1800000000000240000000000012000000000000300 * side + 0x8000000000000000000000000000000000000000 * l) * x == 0x1800000000000240000000000012000000000000300 * sx + 0x8000000000000000000000000000000000000000 * xl) by (nonlinear_arith)
        requires
            vxl == (v * l) * x,
            vl == v * l,
            sx == side * x,
            xl == l * x;
    lemma_cancel_factor((0x8000000000000000000000000000000000000000 * (2 * vl)) as int, (0x1800000000000240000000000012000000000000300 * side + 0x8000000000000000000000000000000000000000 * l) as int, x as int);
    lemma_scale_le((0x1fffffffffffff * long) as int, (0x20000000000000 * l) as int, v as int);
    assert(0x1fffffffffffff * vlong <= 0x20000000000000 * vl) by (nonlinear_arith)
        requires
            (0x1fffffffffffff * long) * v <= (0x20000000000000 * l) * v,
            vlong == v * long,
            vl == v * l;
    assert(0x100_0000_0000 * (2 * vlong) <= 0x100_0000_0000 * (768 * side + long) + long);
    // Lower side: the factor on the left is 768 · (e - 1)^3.
    assert(0x17fffffffffffdc0000000000011ffffffffffffd00 * sx <= 0x8000000000000000000000000000000000000000 * (2 * vxl + xl));
    assert((0x17fffffffffffdc0000000000011ffffffffffffd00 * side) * x == 0x17fffffffffffdc0000000000011ffffffffffffd00 * sx && (0x8000000000000000000000000000000000000000 * (2 * vl + l)) * x == 0x8000000000000000000000000000000000000000 * (2 * vxl + xl)) by (nonlinear_arith)
        requires
            vxl == (v * l) * x,
            vl == v * l,
            sx == side * x,
            xl == l * x;
    lemma_cancel_factor((0x17fffffffffffdc0000000000011ffffffffffffd00 * side) as int, (0x8000000000000000000000000000000000000000 * (2 * vl + l)) as int, x as int);
    lemma_scale_le((0x20000000000000 * l) as int, (0x20000000000001 * long) as int, v as int);
    assert(0x20000000000000 * vl <= 0x20000000000001 * vlong) by (nonlinear_arith)
        requires
            (0x20000000000000 * l) * v <= (0x20000000000001 * long) * v,
            vlong == v * long,
            vl == v * l;
    assert(0x100_0000_0000 * (768 * side) <= 0x100_0000_0000 * (2 * vlong) + 0x100_0000_0001 * long);
    assert(2 * v * long == 2 * vlong) by (nonlinear_arith)
        requires
            vlong == v * long;
}

} // verus!
