use vstd::prelude::*;

use crate::drawer::Side;

verus! {

/// Number of steps of a slide; positions are written at steps `0..=STEPS`.
pub const ANIMATION_STEPS: u64 = 20;

/// Length of a whole slide in milliseconds.
pub const ANIMATION_DURATION_MS: u64 = 200;

/// Drawer size and its gap from the screen edge when shown, in logical
/// units; multiplied by the display's scale.
pub const DRAWER_WIDTH: i64 = 400;

pub const DRAWER_HEIGHT: i64 = 800;

pub const DRAWER_MARGIN: i64 = 20;

/// Size and scale of the display the drawer is on, in physical pixels; the
/// scale is in hundredths (200 for a scale of 2).
#[derive(Clone, Copy, Debug, PartialEq, Eq, Structural)]
pub struct DisplayMetrics {
    pub width: u32,
    pub height: u32,
    pub scale_percent: u32,
}

/// Start and end of a slide along x, at a fixed y.
#[derive(Clone, Copy, Debug, PartialEq, Eq, Structural)]
pub struct SlidePath {
    pub start_x: i64,
    pub end_x: i64,
    pub y: i64,
}

/// Division rounded toward zero, for a positive divisor.
pub open spec fn div_toward_zero(a: int, d: int) -> int {
    if a >= 0 {
        a / d
    } else {
        -((-a) / d)
    }
}

pub open spec fn cube(n: int) -> int {
    n * n * n
}

/// The ease-out-cubic curve at step `i`, `1 - (1 - i/STEPS)^3`, as a
/// numerator over `cube(STEPS)`.
pub open spec fn eased(i: int) -> int {
    cube(ANIMATION_STEPS as int) - cube(ANIMATION_STEPS - i)
}

/// Position at step `i` of a slide from `start` to `end`:
/// `start + (end - start) * eased(i) / cube(STEPS)`, the whole sum rounded
/// toward zero.
pub open spec fn slide_position(start: int, end: int, i: int) -> int {
    div_toward_zero(
        start * cube(ANIMATION_STEPS as int) + (end - start) * eased(i),
        cube(ANIMATION_STEPS as int),
    )
}

/// The ease-out-cubic curve at the rational point `t = n / d`,
/// `1 - (1 - t)^3`, as a numerator over `cube(d)`.
pub open spec fn eased_at(n: int, d: int) -> int {
    cube(d) - cube(d - n)
}

/// Logical units scaled by the display scale, rounded down.
pub open spec fn scaled(units: int, scale_percent: int) -> int {
    units * scale_percent / 100
}

/// The x at which the drawer is fully shown on a side.
pub open spec fn shown_x(side: Side, m: DisplayMetrics) -> int {
    match side {
        Side::Left => scaled(DRAWER_MARGIN as int, m.scale_percent as int),
        Side::Right => div_toward_zero(
            100 * m.width - (DRAWER_WIDTH + DRAWER_MARGIN) * m.scale_percent,
            100,
        ),
    }
}

/// The x at which the drawer is just off screen on a side.
pub open spec fn hidden_x(side: Side, m: DisplayMetrics) -> int {
    match side {
        Side::Left => -scaled(DRAWER_WIDTH as int, m.scale_percent as int),
        Side::Right => m.width as int,
    }
}

/// The y that centers the drawer vertically.
pub open spec fn centered_y(m: DisplayMetrics) -> int {
    div_toward_zero(m.height - scaled(DRAWER_HEIGHT as int, m.scale_percent as int), 2)
}

/// A show slide runs from hidden to shown; a hide slide the other way.
pub open spec fn slide_path(side: Side, showing: bool, m: DisplayMetrics) -> SlidePath {
    let (a, b) = if showing {
        (hidden_x(side, m), shown_x(side, m))
    } else {
        (shown_x(side, m), hidden_x(side, m))
    };
    SlidePath { start_x: a as i64, end_x: b as i64, y: centered_y(m) as i64 }
}

/// The eased curve starts at 0, ends at 1 and rises strictly in between.
pub proof fn lemma_eased_curve(i: int, j: int)
    requires
        0 <= i < j <= ANIMATION_STEPS,
    ensures
        eased(0) == 0,
        eased(ANIMATION_STEPS as int) == cube(ANIMATION_STEPS as int),
        eased(i) < eased(j),
{
    let a = ANIMATION_STEPS - i;
    let b = ANIMATION_STEPS - j;
    assert(cube(b) < cube(a)) by (nonlinear_arith)
        requires 0 <= b < a;
}

proof fn lemma_eased_range(i: int)
    requires
        0 <= i <= ANIMATION_STEPS,
    ensures
        0 <= eased(i) <= cube(ANIMATION_STEPS as int),
        cube(ANIMATION_STEPS as int) == 8000,
{
    let a = ANIMATION_STEPS - i;
    assert(0 <= cube(a) <= cube(ANIMATION_STEPS as int)) by (nonlinear_arith)
        requires 0 <= a <= ANIMATION_STEPS;
}

/// For any two points `0 <= t1 < t2 <= 1` of the unit interval, written
/// `t1 = n1 / d1` and `t2 = n2 / d2`, the eased curve is strictly higher at
/// `t2`: `eased_at(n1, d1) / cube(d1) < eased_at(n2, d2) / cube(d2)`. At
/// `t = 0` it is 0, at `t = 1` it is 1.
pub proof fn lemma_eased_rises(n1: int, d1: int, n2: int, d2: int)
    requires
        d1 > 0,
        d2 > 0,
        0 <= n1 <= d1,
        0 <= n2 <= d2,
        n1 * d2 < n2 * d1,
    ensures
        eased_at(0, d1) == 0,
        eased_at(d1, d1) == cube(d1),
        eased_at(n1, d1) * cube(d2) < eased_at(n2, d2) * cube(d1),
{
    let x = (d2 - n2) * d1;
    let y = (d1 - n1) * d2;
    assert(0 <= x < y) by (nonlinear_arith)
        requires x == (d2 - n2) * d1, y == (d1 - n1) * d2, d1 > 0, d2 > 0, n2 <= d2, n1 * d2 < n2 * d1;
    assert(cube(x) < cube(y)) by (nonlinear_arith)
        requires 0 <= x < y;
    assert(cube(x) == cube(d2 - n2) * cube(d1)) by (nonlinear_arith)
        requires x == (d2 - n2) * d1;
    assert(cube(y) == cube(d1 - n1) * cube(d2)) by (nonlinear_arith)
        requires y == (d1 - n1) * d2;
    assert(eased_at(n1, d1) * cube(d2) == cube(d1) * cube(d2) - cube(y)) by (nonlinear_arith)
        requires cube(y) == cube(d1 - n1) * cube(d2);
    assert(eased_at(n2, d2) * cube(d1) == cube(d1) * cube(d2) - cube(x)) by (nonlinear_arith)
        requires cube(x) == cube(d2 - n2) * cube(d1);
    assert(cube(0int) == 0);
}

proof fn lemma_div_toward_zero_ordered(a: int, b: int, d: int)
    requires
        a <= b,
        d > 0,
    ensures
        div_toward_zero(a, d) <= div_toward_zero(b, d),
{
    if a >= 0 {
        vstd::arithmetic::div_mod::lemma_div_is_ordered(a, b, d);
    } else if b >= 0 {
        vstd::arithmetic::div_mod::lemma_div_is_ordered(0, -a, d);
        vstd::arithmetic::div_mod::lemma_div_is_ordered(0, b, d);
    } else {
        vstd::arithmetic::div_mod::lemma_div_is_ordered(-b, -a, d);
    }
}

proof fn lemma_div_toward_zero_exact(k: int, d: int)
    requires
        d > 0,
    ensures
        div_toward_zero(k * d, d) == k,
{
    if k >= 0 {
        assert(k * d >= 0) by (nonlinear_arith) requires k >= 0, d > 0;
        vstd::arithmetic::div_mod::lemma_div_by_multiple(k, d);
    } else {
        assert(k * d < 0 && -(k * d) == (-k) * d) by (nonlinear_arith) requires k < 0, d > 0;
        vstd::arithmetic::div_mod::lemma_div_by_multiple(-k, d);
    }
}

/// The positions of a slide move monotonically from `start` to `end` and
/// never leave the span between them: step 0 is `start`, the last step is
/// `end`, and a later step is never further from `end` than an earlier one.
pub proof fn lemma_slide_moves_monotonically(start: int, end: int, i: int, j: int)
    requires
        0 <= i <= j <= ANIMATION_STEPS,
    ensures
        slide_position(start, end, 0) == start,
        slide_position(start, end, ANIMATION_STEPS as int) == end,
        start <= end ==> start <= slide_position(start, end, i) <= slide_position(start, end, j) <= end,
        start >= end ==> start >= slide_position(start, end, i) >= slide_position(start, end, j) >= end,
{
    lemma_eased_range(0);
    lemma_eased_range(i);
    lemma_eased_range(j);
    lemma_eased_range(ANIMATION_STEPS as int);
    if i < j {
        lemma_eased_curve(i, j);
    }
    let delta = end - start;
    let s0 = start * 8000;
    let si = start * 8000 + delta * eased(i);
    let sj = start * 8000 + delta * eased(j);
    let sn = end * 8000;
    assert(start * 8000 + delta * eased(0) == s0);
    assert(start * 8000 + delta * 8000 == sn) by (nonlinear_arith)
        requires delta == end - start, sn == end * 8000;
    lemma_div_toward_zero_exact(start, 8000);
    lemma_div_toward_zero_exact(end, 8000);
    if start <= end {
        assert(s0 <= si <= sj <= sn) by (nonlinear_arith)
            requires delta >= 0, 0 <= eased(i) <= eased(j) <= 8000,
                s0 == start * 8000, si == start * 8000 + delta * eased(i),
                sj == start * 8000 + delta * eased(j), start * 8000 + delta * 8000 == sn;
        lemma_div_toward_zero_ordered(s0, si, 8000);
        lemma_div_toward_zero_ordered(si, sj, 8000);
        lemma_div_toward_zero_ordered(sj, sn, 8000);
    }
    if start >= end {
        assert(sn <= sj <= si <= s0) by (nonlinear_arith)
            requires delta <= 0, 0 <= eased(i) <= eased(j) <= 8000,
                s0 == start * 8000, si == start * 8000 + delta * eased(i),
                sj == start * 8000 + delta * eased(j), start * 8000 + delta * 8000 == sn;
        lemma_div_toward_zero_ordered(sn, sj, 8000);
        lemma_div_toward_zero_ordered(sj, si, 8000);
        lemma_div_toward_zero_ordered(si, s0, 8000);
    }
}

/// The position at step `i` of a slide from `start` to `end`.
pub fn step_position(start: i64, end: i64, i: u64) -> (r: i64)
    requires
        i <= ANIMATION_STEPS,
    ensures
        r == slide_position(start as int, end as int, i as int),
{
    let rest: u64 = ANIMATION_STEPS - i;
    proof {
        assert(rest * rest <= 400 && rest * rest * rest <= 8000) by (nonlinear_arith)
            requires rest <= 20;
    }
    let e = 8000 - rest * rest * rest;
    let delta = end as i128 - start as i128;
    let base = start as i128 * 8000;
    proof {
        lemma_eased_range(i as int);
        lemma_slide_moves_monotonically(start as int, end as int, i as int, i as int);
        assert(e == eased(i as int));
        assert(-0x1_0000_0000_0000_0000 * 8000 <= delta * e <= 0x1_0000_0000_0000_0000 * 8000) by (nonlinear_arith)
            requires -0x1_0000_0000_0000_0000 <= delta <= 0x1_0000_0000_0000_0000, 0 <= e <= 8000;
    }
    let e = e as i128;
    let sum = base + delta * e;
    let pos = if sum >= 0 {
        sum / 8000
    } else {
        -((-sum) / 8000)
    };
    pos as i64
}

/// The positions written during a slide, one for each step `0..=STEPS`: they
/// start at `start`, end exactly at `end`, and follow the eased curve.
pub fn slide_positions(start: i64, end: i64) -> (r: Vec<i64>)
    ensures
        r@.len() == ANIMATION_STEPS + 1,
        forall|i: int| 0 <= i <= ANIMATION_STEPS ==> r@[i] == slide_position(start as int, end as int, i),
        r@[0] == start,
        r@[ANIMATION_STEPS as int] == end,
{
    let mut out: Vec<i64> = Vec::new();
    let mut i: u64 = 0;
    while i <= ANIMATION_STEPS
        invariant
            i <= ANIMATION_STEPS + 1,
            out@.len() == i,
            forall|k: int| 0 <= k < i ==> out@[k] == slide_position(start as int, end as int, k),
        decreases ANIMATION_STEPS + 1 - i,
    {
        let p = step_position(start, end, i);
        out.push(p);
        i = i + 1;
    }
    proof {
        lemma_eased_range(0);
        lemma_eased_range(ANIMATION_STEPS as int);
        let d = end - start;
        assert(d * 8000 / 8000 == d) by (nonlinear_arith);
        assert((-d) * 8000 / 8000 == -d) by (nonlinear_arith);
        assert(d * 0 == 0);
    }
    out
}

/// Pause between two steps of a slide, in milliseconds.
pub fn step_delay_ms() -> (r: u64)
    ensures
        r == ANIMATION_DURATION_MS / ANIMATION_STEPS,
{
    ANIMATION_DURATION_MS / ANIMATION_STEPS
}

impl DisplayMetrics {
    /// Metrics used when the display cannot be read: 3840 by 2160 at scale 2.
    pub fn fallback() -> (r: DisplayMetrics)
        ensures
            r == (DisplayMetrics { width: 3840, height: 2160, scale_percent: 200 }),
    {
        DisplayMetrics { width: 3840, height: 2160, scale_percent: 200 }
    }

    /// The metrics read, or the fallback when none could be read.
    pub fn or_fallback(m: Option<DisplayMetrics>) -> (r: DisplayMetrics)
        ensures
            r == (match m {
                Some(v) => v,
                None => DisplayMetrics { width: 3840, height: 2160, scale_percent: 200 },
            }),
    {
        match m {
            Some(v) => v,
            None => DisplayMetrics::fallback(),
        }
    }
}

/// The slide that shows (or hides) the drawer on a side of the display.
pub fn drawer_slide(side: Side, showing: bool, m: &DisplayMetrics) -> (r: SlidePath)
    ensures
        r == slide_path(side, showing, *m),
{
    let p = m.scale_percent as i64;
    let width = DRAWER_WIDTH * p / 100;
    let height = DRAWER_HEIGHT * p / 100;
    let margin = DRAWER_MARGIN * p / 100;
    let screen_w = m.width as i64;
    let screen_h = m.height as i64;
    let reach: i64 = DRAWER_WIDTH + DRAWER_MARGIN;
    assert(reach == 420);
    let right_edge = 100 * screen_w - reach * p;
    let shown = match side {
        Side::Left => margin,
        Side::Right => if right_edge >= 0 {
            right_edge / 100
        } else {
            -((-right_edge) / 100)
        },
    };
    let hidden = match side {
        Side::Left => -width,
        Side::Right => screen_w,
    };
    let gap = screen_h - height;
    let y = if gap >= 0 {
        gap / 2
    } else {
        -((-gap) / 2)
    };
    if showing {
        SlidePath { start_x: hidden, end_x: shown, y }
    } else {
        SlidePath { start_x: shown, end_x: hidden, y }
    }
}

} // verus!
