//! The picture's grid arithmetic and its bookkeeping: how large the
//! simulation grid is for a picture, how large the smooth fields under it
//! are, when those are redrawn, and the RGB image the picture is drawn into.

use vstd::prelude::*;
use crate::explorer::bounded_push;
use crate::rounding::{
    lemma_long_side_scales_to_384, lemma_scaled_at_most_384, lemma_scaled_near_exact, scaled_by_doubles, scaled_by_doubles_exec, to_double, to_double_exec,
};

verus! {

/// The paramfield and the velocity are redrawn at most once in this many
/// steps (5 times a second at 30 Hz).
pub const FIELD_REFRESH_STEPS: u64 = 6;

/// The largest grid side, whatever the terminal.
pub const MAX_GRID_SIDE: usize = 384;

/// The smallest side of the smooth fields.
pub const MIN_FIELD_SIDE: usize = 32;

pub open spec fn max_int(a: int, b: int) -> int {
    if a >= b {
        a
    } else {
        b
    }
}

/// A non-negative number as a cast to `usize` gives it: saturated.
pub open spec fn saturate(v: nat) -> int {
    if v > usize::MAX {
        usize::MAX as int
    } else {
        v as int
    }
}

/// The simulation grid for a picture of `pw`×`ph` pixels: twice each side,
/// so a Gray–Scott pattern reads as a pattern and not as a few blobs; when
/// the long side would pass [`MAX_GRID_SIDE`], both are scaled by
/// `384 / long` in doubles and rounded (halves away from zero), at least 3.
pub open spec fn grid_spec(pw: int, ph: int) -> (int, int) {
    let w = max_int(pw, 2) * 2;
    let h = max_int(ph, 2) * 2;
    let long = max_int(w, h);
    if long <= 384 {
        (w, h)
    } else {
        (
            max_int(saturate(scaled_by_doubles(w as nat, long as nat)), 3),
            max_int(saturate(scaled_by_doubles(h as nat, long as nat)), 3),
        )
    }
}

fn scaled_side(side: usize, long: usize) -> (r: usize)
    requires
        1 <= long,
    ensures
        r == max_int(saturate(scaled_by_doubles(side as nat, long as nat)), 3),
{
    assert(usize::MAX <= 0xffff_ffff_ffff_ffff);
    let v = scaled_by_doubles_exec(side as u128, long as u128);
    let v = if v > usize::MAX as u128 {
        usize::MAX
    } else {
        v as usize
    };
    if v < 3 {
        3
    } else {
        v
    }
}

pub fn grid_for_pixels(pw: usize, ph: usize) -> (r: (usize, usize))
    requires
        pw <= usize::MAX / 2,
        ph <= usize::MAX / 2,
    ensures
        (r.0 as int, r.1 as int) == grid_spec(pw as int, ph as int),
        3 <= r.0 <= MAX_GRID_SIDE,
        3 <= r.1 <= MAX_GRID_SIDE,
{
    proof {
        lemma_grid_fits(pw as int, ph as int);
    }
    let w = (if pw < 2 { 2 } else { pw }) * 2;
    let h = (if ph < 2 { 2 } else { ph }) * 2;
    let long = if w >= h { w } else { h };
    if long <= MAX_GRID_SIDE {
        return (w, h);
    }
    (scaled_side(w, long), scaled_side(h, long))
}

/// Whatever the picture's orientation, neither side of the grid passes
/// [`MAX_GRID_SIDE`] nor falls below 3; a picture too large for twice its
/// size gets a grid whose long side is exactly [`MAX_GRID_SIDE`]; turning the picture turns the
/// grid: the sizes of a `ph`×`pw` picture are those of `pw`×`ph` swapped.
pub proof fn lemma_grid_fits(pw: int, ph: int)
    requires
        pw >= 0,
        ph >= 0,
    ensures
        3 <= grid_spec(pw, ph).0 <= 384,
        3 <= grid_spec(pw, ph).1 <= 384,
        grid_spec(ph, pw) == (grid_spec(pw, ph).1, grid_spec(pw, ph).0),
        pw <= 192 && ph <= 192 ==> grid_spec(pw, ph) == (max_int(pw, 2) * 2, max_int(ph, 2) * 2),
        pw > 192 || ph > 192 ==> max_int(grid_spec(pw, ph).0, grid_spec(pw, ph).1) == 384,
{
    let w = max_int(pw, 2) * 2;
    let h = max_int(ph, 2) * 2;
    let long = max_int(w, h);
    if long > 384 {
        lemma_scaled_at_most_384(w as nat, long as nat);
        lemma_scaled_at_most_384(h as nat, long as nat);
        lemma_long_side_scales_to_384(long as nat);
    }
}

/// `v` is `384 · side / long` rounded to the nearest integer, up to the
/// doubles' own relative 2^-40 of `long`.
pub open spec fn near_scaled(v: int, side: int, long: int) -> bool {
    &&& 0x100_0000_0000 * (2 * v * long) <= 0x100_0000_0000 * (768 * side + long) + long
    &&& 0x100_0000_0000 * (768 * side) <= 0x100_0000_0000 * (2 * v * long) + 0x100_0000_0001 * long
}

/// A picture too large for twice its size keeps its shape: each side of the
/// grid is twice the picture's side scaled by `384 / long` and rounded to
/// the nearest integer (up to the doubles' own rounding), never below 3.
pub proof fn lemma_grid_keeps_the_shape(pw: int, ph: int)
    requires
        pw >= 0,
        ph >= 0,
        pw > 192 || ph > 192,
    ensures
        ({
            let w = max_int(pw, 2) * 2;
            let h = max_int(ph, 2) * 2;
            let long = max_int(w, h);
            &&& exists|v: int| near_scaled(v, w, long) && grid_spec(pw, ph).0 == max_int(v, 3)
            &&& exists|v: int| near_scaled(v, h, long) && grid_spec(pw, ph).1 == max_int(v, 3)
        }),
{
    let w = max_int(pw, 2) * 2;
    let h = max_int(ph, 2) * 2;
    let long = max_int(w, h);
    lemma_scaled_at_most_384(w as nat, long as nat);
    lemma_scaled_at_most_384(h as nat, long as nat);
    lemma_scaled_near_exact(w as nat, long as nat);
    lemma_scaled_near_exact(h as nat, long as nat);
    let vw = scaled_by_doubles(w as nat, long as nat) as int;
    let vh = scaled_by_doubles(h as nat, long as nat) as int;
    assert(near_scaled(vw, w, long));
    assert(near_scaled(vh, h, long));
    assert(saturate(vw as nat) == vw && saturate(vh as nat) == vh);
    assert(grid_spec(pw, ph).0 == max_int(vw, 3));
    assert(grid_spec(pw, ph).1 == max_int(vh, 3));
}

/// Half a side as a double halves it and rounds it (halves away from
/// zero), never below [`MIN_FIELD_SIDE`].
pub open spec fn half_side(n: nat) -> int {
    max_int(((to_double(n) + 1) / 2) as int, 32)
}

/// Below 2^53 a side is its own double: half of it, rounded up, and never
/// below 32.
pub proof fn lemma_half_side_of_exact_sides(n: nat)
    requires
        n < 0x20_0000_0000_0000,
    ensures
        half_side(n) == max_int(((n + 1) / 2) as int, 32),
        half_side(n) >= 32,
{
    crate::rounding::lemma_to_double_close(n);
    assert(to_double(n) == n) by (nonlinear_arith)
        requires
            0x20_0000_0000_0000 * to_double(n) <= 0x20_0000_0000_0001 * n,
            0x1f_ffff_ffff_ffff * n <= 0x20_0000_0000_0000 * to_double(n),
            n < 0x20_0000_0000_0000;
}

/// The smooth fields live at half the grid's side, never below 32 cells.
pub fn half_size(w: usize, h: usize) -> (r: (usize, usize))
    ensures
        r.0 == half_side(w as nat),
        r.1 == half_side(h as nat),
        r.0 >= MIN_FIELD_SIDE,
        r.1 >= MIN_FIELD_SIDE,
{
    (half_side_exec(w), half_side_exec(h))
}

fn half_side_exec(n: usize) -> (r: usize)
    ensures
        r == half_side(n as nat),
        r >= MIN_FIELD_SIDE,
{
    assert(usize::MAX <= 0xffff_ffff_ffff_ffff);
    let d = to_double_exec(n as u128);
    let a = (d + 1) / 2;
    assert(a <= usize::MAX);
    let a = a as usize;
    if a < MIN_FIELD_SIDE {
        MIN_FIELD_SIDE
    } else {
        a
    }
}

/// A field that was never drawn (or was off) is due at once; after that,
/// every [`FIELD_REFRESH_STEPS`].
pub open spec fn due_spec(last: Option<u64>, now: u64) -> bool {
    match last {
        None => true,
        Some(at) => now - at >= FIELD_REFRESH_STEPS,
    }
}

pub fn due(last: Option<u64>, now: u64) -> (r: bool)
    requires
        last matches Some(at) ==> at <= now,
    ensures
        r == due_spec(last, now),
{
    match last {
        None => true,
        Some(at) => now - at >= FIELD_REFRESH_STEPS,
    }
}

/// How often the expensive fields were drawn — for tests and the bench.
#[derive(Clone, Copy, Debug, PartialEq, Eq, Structural)]
pub struct SimStats {
    pub steps: u64,
    pub param_field_draws: u64,
    pub velocity_draws: u64,
}

impl Default for SimStats {
    fn default() -> (r: Self)
        ensures
            r.steps == 0 && r.param_field_draws == 0 && r.velocity_draws == 0,
    {
        SimStats { steps: 0, param_field_draws: 0, velocity_draws: 0 }
    }
}

/// An RGB picture, row 0 at the top, row-major.
#[derive(Clone, Debug, PartialEq)]
pub struct Image {
    pub w: usize,
    pub h: usize,
    pub rgb: Vec<[u8; 3]>,
}

impl Image {
    /// Whether the pixel buffer matches the size.
    pub open spec fn well_formed(&self) -> bool {
        self.rgb@.len() == self.w * self.h
    }

    /// A black `w`×`h` picture.
    pub fn new(w: usize, h: usize) -> (r: Self)
        requires
            w * h <= usize::MAX,
        ensures
            r.w == w,
            r.h == h,
            r.well_formed(),
            forall|i: int| 0 <= i < r.rgb@.len() ==> r.rgb@[i] == [0u8, 0u8, 0u8],
    {
        let n = w * h;
        let mut rgb: Vec<[u8; 3]> = Vec::new();
        let mut i: usize = 0;
        while i < n
            invariant
                i <= n,
                rgb@.len() == i,
                forall|j: int| 0 <= j < i ==> rgb@[j] == [0u8, 0u8, 0u8],
            decreases n - i,
        {
            rgb.push([0u8, 0u8, 0u8]);
            i = i + 1;
        }
        Image { w, h, rgb }
    }

    /// The pixel at column `x` of row `y`.
    pub fn at(&self, x: usize, y: usize) -> (r: [u8; 3])
        requires
            self.well_formed(),
            x < self.w,
            y < self.h,
        ensures
            r == self.rgb@[y * self.w + x],
    {
        let n = self.rgb.len();
        assert(y * self.w + x < self.w * self.h) by (nonlinear_arith)
            requires x < self.w, y < self.h;
        assert(y * self.w <= y * self.w + x);
        self.rgb[y * self.w + x]
    }
}

impl Default for Image {
    fn default() -> (r: Self)
        ensures
            r.w == 0 && r.h == 0 && r.rgb@.len() == 0,
    {
        Image { w: 0, h: 0, rgb: Vec::new() }
    }
}

/// The audio features a card coupling can follow.
#[derive(Clone, Copy, PartialEq, Eq, Debug, Structural)]
pub enum Feature {
    Loudness,
    Brightness,
    Onset,
}

/// At most this many ripples run at once.
pub const MAX_RIPPLES: usize = 4;

/// Appends `item`; when the list then holds more than `cap` entries, the
/// oldest (the first) is dropped, as a new ripple displaces the oldest.
pub fn push_bounded<T>(list: &mut Vec<T>, item: T, cap: usize)
    requires
        old(list)@.len() < usize::MAX,
    ensures
        final(list)@ == bounded_push(old(list)@, item, cap as nat),
{
    list.push(item);
    if list.len() > cap {
        list.remove(0);
        assert(final(list)@ =~= old(list)@.push(item).skip(1));
    }
}

/// A list kept by `push_bounded` never grows past its cap, and what it
/// drops is always the oldest entry.
pub proof fn lemma_push_bounded_keeps_the_newest<T>(h: Seq<T>, item: T, cap: nat)
    requires
        h.len() <= cap,
        cap > 0,
    ensures
        bounded_push(h, item, cap).len() <= cap,
        bounded_push(h, item, cap).last() == item,
        h.len() == cap ==> bounded_push(h, item, cap) == h.skip(1).push(item),
        h.len() < cap ==> bounded_push(h, item, cap) == h.push(item),
{
    if h.len() == cap {
        assert(h.push(item).skip(1) =~= h.skip(1).push(item));
    }
}

} // verus!
