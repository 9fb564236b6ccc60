//! The console's exact logic: what a key means, what fills the screen, how
//! the picture's colours reach the terminal, and where things are placed.
//! Drawing itself is the terminal library's; this is what it is told.

use vstd::prelude::*;
use crate::text::{str_eq, to_chars, contains, contains_chars};
use crate::sim::Image;
use crate::fx::FxSwitches;
use crate::text::join3;
use vstd::string::StringExecFns;

verus! {

/// What a key press means. The app decides what to do with it.
#[derive(Clone, Copy, PartialEq, Eq, Debug, Structural)]
pub enum Action {
    Quit,
    Up,
    Down,
    Enter,
    Escape,
    Delete,
    ToggleSound,
    Like,
    Dislike,
    Surprise,
    Undo,
    Save,
    Points,
    Details,
    Export,
    Help,
    /// Cycles what fills the screen: spectrum → picture → full-screen picture.
    Picture,
}

/// The key of a key event, as far as the key map cares.
#[derive(Clone, Copy, PartialEq, Eq, Debug, Structural)]
pub enum Key {
    Char(char),
    Esc,
    Up,
    Down,
    Enter,
    Delete,
    /// Any other key.
    Other,
}

/// One key event: the key, whether it is a press (not a repeat or a
/// release), and whether Control was held.
#[derive(Clone, Copy, PartialEq, Eq, Debug, Structural)]
pub struct KeyPress {
    pub key: Key,
    pub press: bool,
    pub control: bool,
}

/// The key map.
pub open spec fn decode_spec(k: KeyPress) -> Option<Action> {
    if !k.press {
        None
    } else if k.control && k.key == Key::Char('c') {
        Some(Action::Quit)
    } else {
        match k.key {
            Key::Char('q') => Some(Action::Quit),
            Key::Esc => Some(Action::Escape),
            Key::Up | Key::Char('k') => Some(Action::Up),
            Key::Down | Key::Char('j') => Some(Action::Down),
            Key::Enter => Some(Action::Enter),
            Key::Char('x') | Key::Delete => Some(Action::Delete),
            Key::Char(' ') => Some(Action::ToggleSound),
            Key::Char('l') => Some(Action::Like),
            Key::Char('d') => Some(Action::Dislike),
            Key::Char('r') => Some(Action::Surprise),
            Key::Char('u') => Some(Action::Undo),
            Key::Char('s') => Some(Action::Save),
            Key::Char('p') => Some(Action::Points),
            Key::Char('i') => Some(Action::Details),
            Key::Char('e') => Some(Action::Export),
            Key::Char('?') | Key::Char('h') => Some(Action::Help),
            Key::Char('v') => Some(Action::Picture),
            _ => None,
        }
    }
}

/// What a key press means, or `None` for keys the app ignores.
pub fn decode(k: KeyPress) -> (r: Option<Action>)
    ensures
        r == decode_spec(k),
{
    if !k.press {
        return None;
    }
    if k.control {
        if let Key::Char(c) = k.key {
            if c == 'c' {
                return Some(Action::Quit);
            }
        }
    }
    match k.key {
        Key::Char(c) => {
            if c == 'q' {
                Some(Action::Quit)
            } else if c == 'k' {
                Some(Action::Up)
            } else if c == 'j' {
                Some(Action::Down)
            } else if c == 'x' {
                Some(Action::Delete)
            } else if c == ' ' {
                Some(Action::ToggleSound)
            } else if c == 'l' {
                Some(Action::Like)
            } else if c == 'd' {
                Some(Action::Dislike)
            } else if c == 'r' {
                Some(Action::Surprise)
            } else if c == 'u' {
                Some(Action::Undo)
            } else if c == 's' {
                Some(Action::Save)
            } else if c == 'p' {
                Some(Action::Points)
            } else if c == 'i' {
                Some(Action::Details)
            } else if c == 'e' {
                Some(Action::Export)
            } else if c == '?' || c == 'h' {
                Some(Action::Help)
            } else if c == 'v' {
                Some(Action::Picture)
            } else {
                None
            }
        },
        Key::Esc => Some(Action::Escape),
        Key::Up => Some(Action::Up),
        Key::Down => Some(Action::Down),
        Key::Enter => Some(Action::Enter),
        Key::Delete => Some(Action::Delete),
        Key::Other => None,
    }
}

/// What fills the screen: the spectrum, or the picture in its place, or the
/// picture over the whole window.
#[derive(Clone, Copy, Debug, PartialEq, Eq, Structural)]
pub enum VizMode {
    Spectrum,
    Panel,
    Full,
}

pub open spec fn viz_next(m: VizMode) -> VizMode {
    match m {
        VizMode::Spectrum => VizMode::Panel,
        VizMode::Panel => VizMode::Full,
        VizMode::Full => VizMode::Spectrum,
    }
}

pub open spec fn viz_name(m: VizMode) -> Seq<char> {
    match m {
        VizMode::Spectrum => "spectrum"@,
        VizMode::Panel => "panel"@,
        VizMode::Full => "full"@,
    }
}

pub open spec fn viz_label(m: VizMode) -> Seq<char> {
    match m {
        VizMode::Spectrum => "spectrum"@,
        VizMode::Panel => "picture"@,
        VizMode::Full => "full-screen picture"@,
    }
}

/// The config's spelling; anything unknown is the panel.
pub open spec fn viz_parse(s: Seq<char>) -> VizMode {
    if s == "spectrum"@ || s == "off"@ {
        VizMode::Spectrum
    } else if s == "full"@ {
        VizMode::Full
    } else {
        VizMode::Panel
    }
}

impl VizMode {
    pub fn next(self) -> (r: Self)
        ensures
            r == viz_next(self),
    {
        match self {
            VizMode::Spectrum => VizMode::Panel,
            VizMode::Panel => VizMode::Full,
            VizMode::Full => VizMode::Spectrum,
        }
    }

    /// The config's spelling; anything unknown is the panel.
    pub fn parse(s: &str) -> (r: Self)
        ensures
            r == viz_parse(s@),
    {
        if str_eq(s, "spectrum") || str_eq(s, "off") {
            VizMode::Spectrum
        } else if str_eq(s, "full") {
            VizMode::Full
        } else {
            VizMode::Panel
        }
    }

    pub fn as_str(self) -> (r: &'static str)
        ensures
            r@ == viz_name(self),
    {
        match self {
            VizMode::Spectrum => "spectrum",
            VizMode::Panel => "panel",
            VizMode::Full => "full",
        }
    }

    /// How the status line names it.
    pub fn label(self) -> (r: &'static str)
        ensures
            r@ == viz_label(self),
    {
        match self {
            VizMode::Spectrum => "spectrum",
            VizMode::Panel => "picture",
            VizMode::Full => "full-screen picture",
        }
    }
}

/// Three presses of the picture key come back to where they started, and
/// what the config file says is read back as the mode that wrote it.
pub proof fn lemma_viz_cycle_and_round_trip(m: VizMode)
    ensures
        viz_next(viz_next(viz_next(m))) == m,
        viz_next(m) != m,
        viz_parse(viz_name(m)) == m,
{
    reveal_strlit("spectrum");
    reveal_strlit("panel");
    reveal_strlit("full");
    reveal_strlit("off");
    match m {
        VizMode::Spectrum => {},
        VizMode::Panel => {
            assert("panel"@.len() != "spectrum"@.len());
            assert("panel"@.len() != "off"@.len());
            assert("panel"@[0] != "full"@[0]);
        },
        VizMode::Full => {
            assert("full"@.len() != "spectrum"@.len());
            assert("full"@.len() != "off"@.len());
        },
    }
}

/// How colours reach the terminal: as computed, or through the xterm-256
/// palette.
#[derive(Clone, Copy, Debug, PartialEq, Eq, Structural)]
pub enum ColorMode {
    TrueColor,
    Indexed,
}

pub open spec fn color_mode_spec(setting: Seq<char>, colorterm: Option<Seq<char>>) -> ColorMode {
    if setting == "truecolor"@ {
        ColorMode::TrueColor
    } else if setting == "256"@ {
        ColorMode::Indexed
    } else {
        match colorterm {
            Some(c) => if contains(c, "truecolor"@) || contains(c, "24bit"@) {
                ColorMode::TrueColor
            } else {
                ColorMode::Indexed
            },
            None => ColorMode::Indexed,
        }
    }
}

impl ColorMode {
    /// `setting` is the config's `viz_color`: "truecolor", "256", or anything
    /// else to ask the terminal (`COLORTERM`).
    pub fn pick(setting: &str, colorterm: Option<&str>) -> (r: Self)
        ensures
            r == color_mode_spec(setting@, match colorterm {
                Some(c) => Some(c@),
                None => None,
            }),
    {
        if str_eq(setting, "truecolor") {
            ColorMode::TrueColor
        } else if str_eq(setting, "256") {
            ColorMode::Indexed
        } else {
            match colorterm {
                Some(c) => {
                    let cs = to_chars(c);
                    let t = to_chars("truecolor");
                    let b = to_chars("24bit");
                    if contains_chars(cs.as_slice(), t.as_slice()) || contains_chars(
                        cs.as_slice(),
                        b.as_slice(),
                    ) {
                        ColorMode::TrueColor
                    } else {
                        ColorMode::Indexed
                    }
                },
                None => ColorMode::Indexed,
            }
        }
    }
}

/// The xterm levels of the 6×6×6 cube.
pub open spec fn cube_level(i: int) -> int {
    if i == 0 {
        0
    } else if i == 1 {
        95
    } else if i == 2 {
        135
    } else if i == 3 {
        175
    } else if i == 4 {
        215
    } else {
        255
    }
}

pub open spec fn abs_diff(a: int, b: int) -> int {
    if a >= b {
        a - b
    } else {
        b - a
    }
}

/// `i` is the cube level nearest to `c`, the first of two equally near.
pub open spec fn is_nearest_level(c: u8, i: int) -> bool {
    &&& 0 <= i < 6
    &&& forall|j: int| 0 <= j < i ==> abs_diff(cube_level(j), c as int) > abs_diff(cube_level(i), c as int)
    &&& forall|j: int| i < j < 6 ==> abs_diff(cube_level(j), c as int) >= abs_diff(cube_level(i), c as int)
}

/// Only one level is the nearest to a value, so the colour is determined.
pub proof fn lemma_nearest_level_unique(c: u8, i: int, j: int)
    requires
        is_nearest_level(c, i),
        is_nearest_level(c, j),
    ensures
        i == j,
{
    if i < j {
        assert(abs_diff(cube_level(i), c as int) > abs_diff(cube_level(j), c as int));
    } else if j < i {
        assert(abs_diff(cube_level(j), c as int) > abs_diff(cube_level(i), c as int));
    }
}

fn level(i: usize) -> (r: u8)
    requires
        i < 6,
    ensures
        r as int == cube_level(i as int),
{
    if i == 0 {
        0
    } else if i == 1 {
        95
    } else if i == 2 {
        135
    } else if i == 3 {
        175
    } else if i == 4 {
        215
    } else {
        255
    }
}

fn udiff(a: u8, b: u8) -> (r: u8)
    ensures
        r as int == abs_diff(a as int, b as int),
{
    if a >= b {
        a - b
    } else {
        b - a
    }
}

/// The index of the cube level nearest to `c`.
pub fn cube_index(c: u8) -> (r: usize)
    ensures
        is_nearest_level(c, r as int),
{
    let mut best: usize = 0;
    let mut best_d = udiff(level(0), c);
    let mut i: usize = 1;
    while i < 6
        invariant
            1 <= i <= 6,
            best < i,
            best_d as int == abs_diff(cube_level(best as int), c as int),
            forall|j: int| 0 <= j < best ==> abs_diff(cube_level(j), c as int) > best_d,
            forall|j: int| best < j < i ==> abs_diff(cube_level(j), c as int) >= best_d,
        decreases 6 - i,
    {
        let d = udiff(level(i), c);
        if d < best_d {
            best = i;
            best_d = d;
        }
        i = i + 1;
    }
    best
}

/// The grey ramp step nearest to the mean of a colour (232–255 are
/// 8, 18, …, 238).
pub open spec fn grey_step(r: u8, g: u8, b: u8) -> int {
    let mean = (r as int + g as int + b as int) / 3;
    let above = if mean >= 8 { mean - 8 } else { 0 };
    let k = (above + 5) / 10;
    if k > 23 {
        23
    } else {
        k
    }
}

pub open spec fn sq(x: int) -> int {
    x * x
}

pub open spec fn dist3(a: int, b: int, c: int, r: u8, g: u8, bl: u8) -> int {
    sq(a - r as int) + sq(b - g as int) + sq(c - bl as int)
}

/// The nearest xterm-256 colour: the closer of the nearest cube entry and
/// the grey ramp, the cube on a tie.
pub open spec fn xterm256_spec(r: u8, g: u8, b: u8, ri: int, gi: int, bi: int) -> int {
    let k = grey_step(r, g, b);
    let grey = 8 + 10 * k;
    if dist3(grey, grey, grey, r, g, b) < dist3(cube_level(ri), cube_level(gi), cube_level(bi), r, g, b) {
        232 + k
    } else {
        16 + 36 * ri + 6 * gi + bi
    }
}

fn sq_diff(a: u8, b: u8) -> (r: u32)
    ensures
        r as int == sq(a as int - b as int),
        r <= 65025,
{
    let d = udiff(a, b) as u32;
    assert(d * d == sq(a as int - b as int)) by (nonlinear_arith)
        requires d as int == abs_diff(a as int, b as int);
    assert(d * d <= 255 * 255) by (nonlinear_arith)
        requires d <= 255;
    d * d
}

/// The RGB of xterm colour `j` for `16 <= j <= 255`: the 6×6×6 cube from
/// 16 to 231, then the grey ramp `8 + 10·(j − 232)` from 232 to 255.
pub open spec fn xterm_rgb(j: int) -> (int, int, int) {
    if j < 232 {
        let i = j - 16;
        (cube_level(i / 36), cube_level((i / 6) % 6), cube_level(i % 6))
    } else {
        let v = 8 + 10 * (j - 232);
        (v, v, v)
    }
}

/// The squared distance from xterm colour `j` to an RGB triple.
pub open spec fn palette_dist(j: int, r: u8, g: u8, b: u8) -> int {
    dist3(xterm_rgb(j).0, xterm_rgb(j).1, xterm_rgb(j).2, r, g, b)
}

proof fn lemma_sq_le(a: int, b: int, c: int, d: int)
    requires
        abs_diff(a, b) <= abs_diff(c, d),
    ensures
        sq(a - b) <= sq(c - d),
{
    let x = abs_diff(a, b);
    let y = abs_diff(c, d);
    assert(sq(a - b) == x * x) by (nonlinear_arith)
        requires
            x == abs_diff(a, b);
    assert(sq(c - d) == y * y) by (nonlinear_arith)
        requires
            y == abs_diff(c, d);
    assert(x * x <= y * y) by (nonlinear_arith)
        requires
            0 <= x <= y;
}

/// The nearest level of each channel makes the nearest cube entry.
proof fn lemma_nearest_cube_entry(r: u8, g: u8, b: u8, ri: int, gi: int, bi: int, j: int)
    requires
        is_nearest_level(r, ri),
        is_nearest_level(g, gi),
        is_nearest_level(b, bi),
        16 <= j < 232,
    ensures
        xterm_rgb(16 + 36 * ri + 6 * gi + bi) == (cube_level(ri), cube_level(gi), cube_level(bi)),
        palette_dist(16 + 36 * ri + 6 * gi + bi, r, g, b) <= palette_dist(j, r, g, b),
{
    let i = 36 * ri + 6 * gi + bi;
    assert(i / 36 == ri && (i / 6) % 6 == gi && i % 6 == bi) by (nonlinear_arith)
        requires
            i == 36 * ri + 6 * gi + bi,
            0 <= ri < 6,
            0 <= gi < 6,
            0 <= bi < 6;
    let n = j - 16;
    let (a, c, e) = (n / 36, (n / 6) % 6, n % 6);
    assert(0 <= a < 6 && 0 <= c < 6 && 0 <= e < 6) by (nonlinear_arith)
        requires
            0 <= n < 216,
            a == n / 36,
            c == (n / 6) % 6,
            e == n % 6;
    if a != ri {
        assert(abs_diff(cube_level(ri), r as int) <= abs_diff(cube_level(a), r as int));
    }
    if c != gi {
        assert(abs_diff(cube_level(gi), g as int) <= abs_diff(cube_level(c), g as int));
    }
    if e != bi {
        assert(abs_diff(cube_level(bi), b as int) <= abs_diff(cube_level(e), b as int));
    }
    lemma_sq_le(cube_level(ri), r as int, cube_level(a), r as int);
    lemma_sq_le(cube_level(gi), g as int, cube_level(c), g as int);
    lemma_sq_le(cube_level(bi), b as int, cube_level(e), b as int);
}

/// The grey step taken is a nearest one on the ramp.
proof fn lemma_grey_step_nearest(r: u8, g: u8, b: u8, m: int)
    requires
        0 <= m < 24,
    ensures
        0 <= grey_step(r, g, b) < 24,
        dist3(8 + 10 * grey_step(r, g, b), 8 + 10 * grey_step(r, g, b), 8 + 10 * grey_step(r, g, b), r, g, b)
            <= dist3(8 + 10 * m, 8 + 10 * m, 8 + 10 * m, r, g, b),
        m > grey_step(r, g, b) ==> dist3(
            8 + 10 * grey_step(r, g, b),
            8 + 10 * grey_step(r, g, b),
            8 + 10 * grey_step(r, g, b),
            r,
            g,
            b,
        ) < dist3(8 + 10 * m, 8 + 10 * m, 8 + 10 * m, r, g, b),
{
    let k = grey_step(r, g, b);
    let v = 8 + 10 * k;
    let w = 8 + 10 * m;
    let total = r as int + g as int + b as int;
    let mean = total / 3;
    assert(3 * mean <= total <= 3 * mean + 2);
    assert(dist3(w, w, w, r, g, b) - dist3(v, v, v, r, g, b) == (w - v) * (3 * (w + v) - 2 * total))
        by (nonlinear_arith)
        requires
            total == r as int + g as int + b as int;
    if m > k {
        assert(v + 5 > mean);
        assert((w - v) * (3 * (w + v) - 2 * total) > 0) by (nonlinear_arith)
            requires
                w >= v + 10,
                total <= 3 * mean + 2,
                mean < v + 5;
    } else if m < k {
        assert(mean >= v - 5);
        assert((w - v) * (3 * (w + v) - 2 * total) >= 0) by (nonlinear_arith)
            requires
                w <= v - 10,
                total >= 3 * mean,
                mean >= v - 5;
    }
}

/// The colour picked is a nearest palette entry: no xterm colour from 16 to
/// 255 is closer (in squared RGB distance) to the triple. On a tie the cube
/// wins over the grey ramp (a grey is picked only when every cube colour is
/// farther), and of two equally near greys the lighter one is picked.
pub proof fn lemma_xterm256_is_nearest(r: u8, g: u8, b: u8, ri: int, gi: int, bi: int)
    requires
        is_nearest_level(r, ri),
        is_nearest_level(g, gi),
        is_nearest_level(b, bi),
    ensures
        16 <= xterm256_spec(r, g, b, ri, gi, bi) <= 255,
        forall|j: int|
            16 <= j <= 255 ==> palette_dist(xterm256_spec(r, g, b, ri, gi, bi), r, g, b) <= #[trigger] palette_dist(
                j,
                r,
                g,
                b,
            ),
        xterm256_spec(r, g, b, ri, gi, bi) >= 232 ==> forall|j: int|
            16 <= j < 232 ==> palette_dist(xterm256_spec(r, g, b, ri, gi, bi), r, g, b) < #[trigger] palette_dist(
                j,
                r,
                g,
                b,
            ),
        forall|j: int|
            xterm256_spec(r, g, b, ri, gi, bi) >= 232 && xterm256_spec(r, g, b, ri, gi, bi) < j <= 255
                ==> palette_dist(xterm256_spec(r, g, b, ri, gi, bi), r, g, b) < #[trigger] palette_dist(
                j,
                r,
                g,
                b,
            ),
{
    let c = xterm256_spec(r, g, b, ri, gi, bi);
    let k = grey_step(r, g, b);
    let cube = 16 + 36 * ri + 6 * gi + bi;
    lemma_grey_step_nearest(r, g, b, 0);
    lemma_nearest_cube_entry(r, g, b, ri, gi, bi, 16);
    assert(xterm_rgb(232 + k) == (8 + 10 * k, 8 + 10 * k, 8 + 10 * k));
    assert(palette_dist(c, r, g, b) <= palette_dist(cube, r, g, b));
    assert(palette_dist(c, r, g, b) <= palette_dist(232 + k, r, g, b));
    assert forall|j: int| 16 <= j <= 255 implies palette_dist(c, r, g, b) <= #[trigger] palette_dist(
        j,
        r,
        g,
        b,
    ) by {
        if j < 232 {
            lemma_nearest_cube_entry(r, g, b, ri, gi, bi, j);
        } else {
            lemma_grey_step_nearest(r, g, b, j - 232);
        }
    }
    assert forall|j: int| c >= 232 && 16 <= j < 232 implies palette_dist(c, r, g, b) < #[trigger] palette_dist(
        j,
        r,
        g,
        b,
    ) by {
        lemma_nearest_cube_entry(r, g, b, ri, gi, bi, j);
    }
    assert forall|j: int| c >= 232 && c < j <= 255 implies palette_dist(c, r, g, b) < #[trigger] palette_dist(
        j,
        r,
        g,
        b,
    ) by {
        lemma_grey_step_nearest(r, g, b, j - 232);
    }
}

/// The nearest xterm-256 colour to an RGB triple.
pub fn xterm256(r: u8, g: u8, b: u8) -> (c: u8)
    ensures
        exists|ri: int, gi: int, bi: int|
            is_nearest_level(r, ri) && is_nearest_level(g, gi) && is_nearest_level(b, bi)
                && c as int == xterm256_spec(r, g, b, ri, gi, bi),
        16 <= c,
        forall|j: int| 16 <= j <= 255 ==> palette_dist(c as int, r, g, b) <= #[trigger] palette_dist(j, r, g, b),
{
    let ri = cube_index(r);
    let gi = cube_index(g);
    let bi = cube_index(b);
    let mean = (r as u32 + g as u32 + b as u32) / 3;
    let above = if mean >= 8 { mean - 8 } else { 0 };
    let k0 = (above + 5) / 10;
    let k: u32 = if k0 > 23 { 23 } else { k0 };
    let grey = (8 + 10 * k) as u8;
    let dg = sq_diff(grey, r) + sq_diff(grey, g) + sq_diff(grey, b);
    let dc = sq_diff(level(ri), r) + sq_diff(level(gi), g) + sq_diff(level(bi), b);
    let out = if dg < dc {
        (232 + k) as u8
    } else {
        (16 + 36 * ri + 6 * gi + bi) as u8
    };
    assert(is_nearest_level(r, ri as int) && is_nearest_level(g, gi as int) && is_nearest_level(
        b,
        bi as int,
    ) && out as int == xterm256_spec(r, g, b, ri as int, gi as int, bi as int));
    proof {
        lemma_xterm256_is_nearest(r, g, b, ri as int, gi as int, bi as int);
    }
    out
}

/// Which pixels one cell of the picture shows: the column, and the rows of
/// its upper and lower half. If the image and the area differ in size (a
/// resize not yet caught up with), this is a nearest-neighbour stretch.
pub fn cell_pixels(cx: u16, cy: u16, area_w: u16, area_h: u16, img_w: usize, img_h: usize) -> (r: (
    usize,
    usize,
    usize,
))
    requires
        cx < area_w,
        cy < area_h,
        img_w > 0,
        img_h > 0,
        area_w as int * img_w <= usize::MAX,
        2 * area_h as int * img_h <= usize::MAX,
    ensures
        r.0 == cx as int * img_w / area_w as int,
        r.1 == (2 * cy as int) * img_h / (2 * area_h as int),
        r.2 == (2 * cy as int + 1) * img_h / (2 * area_h as int),
        r.0 < img_w,
        r.1 <= r.2 < img_h,
{
    let rows = (area_h as usize) * 2;
    let cxu = cx as usize;
    let cyu = cy as usize;
    assert(cxu * img_w < area_w as int * img_w) by (nonlinear_arith)
        requires cxu < area_w, img_w > 0;
    let x = cxu * img_w / (area_w as usize);
    assert(x < img_w) by (nonlinear_arith)
        requires x == cxu * img_w / (area_w as int), cxu < area_w, img_w > 0;
    assert((cyu * 2 + 1) * img_h < rows * img_h) by (nonlinear_arith)
        requires cyu < area_h, rows == 2 * area_h, img_h > 0;
    assert((cyu * 2) * img_h <= (cyu * 2 + 1) * img_h) by (nonlinear_arith)
        requires img_h > 0;
    let top = (cyu * 2) * img_h / rows;
    let bottom = (cyu * 2 + 1) * img_h / rows;
    assert(bottom < img_h) by (nonlinear_arith)
        requires bottom == (cyu * 2 + 1) * img_h / (rows as int), (cyu * 2 + 1) < rows, img_h > 0;
    assert(top <= bottom) by (nonlinear_arith)
        requires
            top == (cyu * 2) * img_h / (rows as int),
            bottom == (cyu * 2 + 1) * img_h / (rows as int),
            rows > 0,
            img_h > 0;
    (x, top, bottom)
}

/// The picture as a terminal widget: each cell shows two pixels, the upper
/// as the foreground and the lower as the background of a half block.
pub struct FieldView<'a> {
    pub image: &'a Image,
    pub mode: ColorMode,
}

impl<'a> FieldView<'a> {
    /// The upper and lower pixel of cell (`cx`, `cy`) when the picture fills
    /// an `area_w` × `area_h` area.
    pub fn cell(&self, cx: u16, cy: u16, area_w: u16, area_h: u16) -> (r: ([u8; 3], [u8; 3]))
        requires
            self.image.well_formed(),
            self.image.w > 0,
            self.image.h > 0,
            cx < area_w,
            cy < area_h,
            area_w as int * self.image.w <= usize::MAX,
            2 * area_h as int * self.image.h <= usize::MAX,
        ensures
            ({
                let img = self.image;
                let x = cx as int * img.w / area_w as int;
                let top = (2 * cy as int) * img.h / (2 * area_h as int);
                let bottom = (2 * cy as int + 1) * img.h / (2 * area_h as int);
                &&& r.0 == img.rgb@[top * img.w + x]
                &&& r.1 == img.rgb@[bottom * img.w + x]
            }),
    {
        let img = self.image;
        let (x, top, bottom) = cell_pixels(cx, cy, area_w, area_h, img.w, img.h);
        (img.at(x, top), img.at(x, bottom))
    }
}

/// A rectangle of terminal cells.
#[derive(Clone, Copy, Debug, PartialEq, Eq, Structural)]
pub struct Area {
    pub x: u16,
    pub y: u16,
    pub width: u16,
    pub height: u16,
}

/// The help box: at most 64 by 15 cells, centred in `area`.
pub fn help_popup_area(area: Area) -> (r: Area)
    requires
        area.x as int + area.width <= 0xffff,
        area.y as int + area.height <= 0xffff,
    ensures
        r.width == if area.width < 64 { area.width } else { 64 },
        r.height == if area.height < 15 { area.height } else { 15 },
        r.x == area.x + (area.width - r.width) / 2,
        r.y == area.y + (area.height - r.height) / 2,
{
    let w = if area.width < 64 { area.width } else { 64 };
    let h = if area.height < 15 { area.height } else { 15 };
    Area { x: area.x + (area.width - w) / 2, y: area.y + (area.height - h) / 2, width: w, height: h }
}

/// The points box: at most 60 cells wide, tall enough for the list plus its
/// frame and hint (four rows) but at least five rows, centred in `area`.
pub fn points_popup_area(area: Area, points: usize) -> (r: Area)
    requires
        area.height >= 5,
        area.x as int + area.width <= 0xffff,
        area.y as int + area.height <= 0xffff,
    ensures
        r.width == if area.width < 60 { area.width } else { 60 },
        r.height == if 4 + points < 5 {
            5
        } else if area.height < 4 + points {
            area.height as int
        } else {
            4 + points
        },
        r.x == area.x + (area.width - r.width) / 2,
        r.y == area.y + (area.height - r.height) / 2,
{
    let w = if area.width < 60 { area.width } else { 60 };
    let want: usize = if points > 0xffff { 0xffff } else { points + 4 };
    let h0: u16 = if (area.height as usize) < want { area.height } else { want as u16 };
    let h: u16 = if h0 < 5 { 5 } else { h0 };
    Area { x: area.x + (area.width - w) / 2, y: area.y + (area.height - h) / 2, width: w, height: h }
}

/// The full key line.
pub const FULL_KEYS: &'static str = "[space] sound  [l] like  [d] dislike  [r] surprise  [u] undo  [s] save  [p] points  [v] spectrum/picture  [i] info  [?] help  [q] quit";

/// The key line for a narrow terminal.
pub const SHORT_KEYS: &'static str = "[space] [l]ike [d]islike [r]andom [u]ndo [s]ave [p]oints [v]iew [i]nfo [?] [q]uit";

/// The key line that fits `width` cells: the full one if it fits, else the
/// short one — a footer that runs off the edge hides `q`.
pub fn key_line(width: u16) -> (r: &'static str)
    ensures
        r@ == if width as int >= FULL_KEYS@.len() {
            FULL_KEYS@
        } else {
            SHORT_KEYS@
        },
{
    let full_len = FULL_KEYS.unicode_len();
    if (width as usize) >= full_len {
        FULL_KEYS
    } else {
        SHORT_KEYS
    }
}

/// What the points list says when nothing is kept.
pub const NO_POINTS: &'static str = "no points kept yet \u{2014} press s to keep this one";

/// One row of the points list: a marker for the selected row, then the name.
pub open spec fn point_row(name: Seq<char>, selected: bool) -> Seq<char> {
    (if selected { "\u{203a}"@ } else { " "@ }) + " "@ + name
}

/// The rows of the points list: each kept name with the selected one
/// marked, or the one line saying that nothing is kept.
pub fn points_rows(names: &Vec<String>, selected: usize) -> (r: Vec<String>)
    ensures
        names@.len() == 0 ==> r@.len() == 1 && r@[0]@ == NO_POINTS@,
        names@.len() > 0 ==> r@.len() == names@.len() && forall|i: int|
            0 <= i < names@.len() ==> (#[trigger] r@[i])@ == point_row(names@[i]@, i == selected),
{
    let mut out: Vec<String> = Vec::new();
    if names.len() == 0 {
        out.push(String::from_str(NO_POINTS));
        return out;
    }
    let mut i: usize = 0;
    while i < names.len()
        invariant
            i <= names@.len(),
            out@.len() == i,
            forall|j: int| 0 <= j < i ==> (#[trigger] out@[j])@ == point_row(names@[j]@, j == selected),
        decreases names@.len() - i,
    {
        let marker = if i == selected { "\u{203a}" } else { " " };
        out.push(join3(marker, " ", names[i].as_str()));
        i = i + 1;
    }
    out
}

/// The names of the effect modules that are on, in the chain's order.
pub open spec fn modules_on(s: FxSwitches) -> Seq<Seq<char>> {
    let a = if s.filter_on { seq!["filter"@] } else { seq![] };
    let b = if s.chorus_on { a.push("chorus"@) } else { a };
    let c = if s.phaser_on { b.push("phaser"@) } else { b };
    let d = if s.delay_on { c.push("delay"@) } else { c };
    let e = if s.reverb_on { d.push("reverb"@) } else { d };
    if s.limiter_on { e.push("limiter"@) } else { e }
}

/// `parts` joined with `sep` between them.
pub open spec fn joined(parts: Seq<Seq<char>>, sep: Seq<char>) -> Seq<char>
    decreases parts.len(),
{
    if parts.len() == 0 {
        seq![]
    } else if parts.len() == 1 {
        parts[0]
    } else {
        joined(parts.drop_last(), sep) + sep + parts.last()
    }
}

/// The effects line's list of modules: the ones that are on, joined by a
/// dot, or a dash when none is.
pub fn modules_text(s: FxSwitches) -> (r: String)
    ensures
        r@ == if modules_on(s).len() == 0 {
            "\u{2014}"@
        } else {
            joined(modules_on(s), "\u{b7}"@)
        },
{
    let mut names: Vec<&'static str> = Vec::new();
    if s.filter_on {
        names.push("filter");
    }
    if s.chorus_on {
        names.push("chorus");
    }
    if s.phaser_on {
        names.push("phaser");
    }
    if s.delay_on {
        names.push("delay");
    }
    if s.reverb_on {
        names.push("reverb");
    }
    if s.limiter_on {
        names.push("limiter");
    }
    let ghost parts = modules_on(s);
    assert(names@.map_values(|n: &'static str| n@) =~= parts);
    if names.len() == 0 {
        return String::from_str("\u{2014}");
    }
    let mut out = String::from_str(names[0]);
    let mut i: usize = 1;
    proof {
        assert(parts.take(1).drop_last() =~= Seq::<Seq<char>>::empty());
        assert(joined(parts.take(1), "\u{b7}"@) == parts.take(1)[0]);
    }
    while i < names.len()
        invariant
            1 <= i <= names@.len(),
            names@.map_values(|n: &'static str| n@) == parts,
            out@ == joined(parts.take(i as int), "\u{b7}"@),
        decreases names@.len() - i,
    {
        let ghost before = out@;
        out = out.concat("\u{b7}").concat(names[i]);
        proof {
            assert(parts.take(i + 1).drop_last() =~= parts.take(i as int));
            assert(parts.take(i + 1).last() == parts[i as int]);
            assert(parts[i as int] == names@[i as int]@);
        }
        i = i + 1;
    }
    proof {
        assert(parts.take(names@.len() as int) =~= parts);
    }
    out
}

} // verus!
