use vstd::prelude::*;

use crate::geometry::{
    display_for, select_display, work_area, work_area_of, WindowRect, COORD_LIMIT, MENU_BAR_INSET,
};
use crate::text::text_is;
use crate::windows::{views, MoveRequest, WindowInfo, WindowView};

verus! {

/// Where a snapped window goes within the work area.
#[derive(Clone, Copy, Debug, PartialEq, Eq, Structural)]
pub enum SnapDirection {
    Left,
    Right,
    Top,
    Bottom,
    Maximize,
    Center,
}

/// Preset arrangements of several windows.
#[derive(Clone, Copy, Debug, PartialEq, Eq, Structural)]
pub enum PresetLayout {
    Rows2,
    Rows3,
    Columns2,
    Columns3,
    Grid4,
    MainLeft,
    Cascade,
}

/// Distance between successive windows of a cascade, along each axis.
pub const CASCADE_STEP: i64 = 30;

/// Offset of the first cascaded window from the work area's corner.
pub const CASCADE_MARGIN: i64 = 50;

/// Most windows that a cascade arranges.
pub const CASCADE_MAX: usize = 10;

/// Most windows stacked beside the main window of `MainLeft`.
pub const STACK_MAX: usize = 3;

/// A work area that the layout arithmetic accepts: extents within
/// `COORD_LIMIT`, origin within twice that.
pub open spec fn layout_ok(w: WindowRect) -> bool {
    &&& -2 * COORD_LIMIT <= w.x <= 2 * COORD_LIMIT
    &&& -2 * COORD_LIMIT <= w.y <= 2 * COORD_LIMIT
    &&& 0 <= w.width <= COORD_LIMIT
    &&& 0 <= w.height <= COORD_LIMIT
}

/// Offset of the `k`-th of `n` equal bands across `extent` (rounded down, so
/// the bands meet exactly).
pub open spec fn band_start(extent: int, n: int, k: int) -> int {
    extent * k / n
}

pub open spec fn band_size(extent: int, n: int, k: int) -> int {
    band_start(extent, n, k + 1) - band_start(extent, n, k)
}

/// Band `k` of `n` horizontal bands, stacked top to bottom, full width.
pub open spec fn row_band(w: WindowRect, n: int, k: int) -> WindowRect {
    WindowRect {
        x: w.x,
        y: (w.y + band_start(w.height as int, n, k)) as i64,
        width: w.width,
        height: band_size(w.height as int, n, k) as i64,
    }
}

/// Band `k` of `n` vertical bands, left to right, full height.
pub open spec fn column_band(w: WindowRect, n: int, k: int) -> WindowRect {
    WindowRect {
        x: (w.x + band_start(w.width as int, n, k)) as i64,
        y: w.y,
        width: band_size(w.width as int, n, k) as i64,
        height: w.height,
    }
}

/// Quadrant `k` of the work area: top-left, top-right, bottom-left, bottom-right.
pub open spec fn quadrant(w: WindowRect, k: int) -> WindowRect {
    WindowRect {
        x: (w.x + band_start(w.width as int, 2, k % 2)) as i64,
        y: (w.y + band_start(w.height as int, 2, k / 2)) as i64,
        width: band_size(w.width as int, 2, k % 2) as i64,
        height: band_size(w.height as int, 2, k / 2) as i64,
    }
}

/// Width of the main window of `MainLeft`: 60% of the work width.
pub open spec fn main_width(w: WindowRect) -> int {
    w.width * 6 / 10
}

/// The main window of `MainLeft`: the left 60%, full height.
pub open spec fn main_rect(w: WindowRect) -> WindowRect {
    WindowRect { x: w.x, y: w.y, width: main_width(w) as i64, height: w.height }
}

/// Window `k` of the `n` stacked in the right 40% by `MainLeft`.
pub open spec fn stack_rect(w: WindowRect, n: int, k: int) -> WindowRect {
    WindowRect {
        x: (w.x + main_width(w)) as i64,
        y: (w.y + band_start(w.height as int, n, k)) as i64,
        width: (w.width - main_width(w)) as i64,
        height: band_size(w.height as int, n, k) as i64,
    }
}

/// Window `k` of a cascade: 60% by 70% of the work area, each one a fixed
/// step further down and to the right.
pub open spec fn cascade_rect(w: WindowRect, k: int) -> WindowRect {
    WindowRect {
        x: (w.x + CASCADE_MARGIN + k * CASCADE_STEP) as i64,
        y: (w.y + CASCADE_MARGIN + k * CASCADE_STEP) as i64,
        width: (w.width * 6 / 10) as i64,
        height: (w.height * 7 / 10) as i64,
    }
}

/// The rectangle a window snaps to.
pub open spec fn snap_rect(dir: SnapDirection, w: WindowRect) -> WindowRect {
    match dir {
        SnapDirection::Left => column_band(w, 2, 0),
        SnapDirection::Right => column_band(w, 2, 1),
        SnapDirection::Top => row_band(w, 2, 0),
        SnapDirection::Bottom => row_band(w, 2, 1),
        SnapDirection::Maximize => w,
        SnapDirection::Center => WindowRect {
            x: (w.x + w.width / 10) as i64,
            y: (w.y + w.height / 10) as i64,
            width: (w.width * 8 / 10) as i64,
            height: (w.height * 8 / 10) as i64,
        },
    }
}

pub open spec fn min_nat(a: nat, b: nat) -> nat {
    if a <= b { a } else { b }
}

/// Fewest candidate windows that a preset needs; with fewer it does nothing.
pub open spec fn preset_needs(p: PresetLayout) -> nat {
    match p {
        PresetLayout::Rows2 => 2,
        PresetLayout::Rows3 => 3,
        PresetLayout::Columns2 => 2,
        PresetLayout::Columns3 => 3,
        PresetLayout::Grid4 => 4,
        PresetLayout::MainLeft => 2,
        PresetLayout::Cascade => 1,
    }
}

/// Target rectangles of a preset for `count` candidate windows, one for each
/// window that it moves, in the candidates' order.
pub open spec fn preset_rects(p: PresetLayout, w: WindowRect, count: nat) -> Seq<WindowRect> {
    if count < preset_needs(p) {
        Seq::empty()
    } else {
        match p {
            PresetLayout::Rows2 => Seq::new(2, |k: int| row_band(w, 2, k)),
            PresetLayout::Rows3 => Seq::new(3, |k: int| row_band(w, 3, k)),
            PresetLayout::Columns2 => Seq::new(2, |k: int| column_band(w, 2, k)),
            PresetLayout::Columns3 => Seq::new(3, |k: int| column_band(w, 3, k)),
            PresetLayout::Grid4 => Seq::new(4, |k: int| quadrant(w, k)),
            PresetLayout::MainLeft => {
                let n = min_nat((count - 1) as nat, STACK_MAX as nat);
                seq![main_rect(w)] + Seq::new(n, |k: int| stack_rect(w, n as int, k))
            },
            PresetLayout::Cascade => Seq::new(
                min_nat(count, CASCADE_MAX as nat),
                |k: int| cascade_rect(w, k),
            ),
        }
    }
}

/// The direction a name selects: `left`, `right`, `top`, `bottom`,
/// `maximize` or `center`.
pub open spec fn direction_named(s: Seq<char>) -> Option<SnapDirection> {
    if s == "left"@ {
        Some(SnapDirection::Left)
    } else if s == "right"@ {
        Some(SnapDirection::Right)
    } else if s == "top"@ {
        Some(SnapDirection::Top)
    } else if s == "bottom"@ {
        Some(SnapDirection::Bottom)
    } else if s == "maximize"@ {
        Some(SnapDirection::Maximize)
    } else if s == "center"@ {
        Some(SnapDirection::Center)
    } else {
        None
    }
}

/// The preset a name selects: `rows_2`, `rows_3`, `columns_2`, `columns_3`,
/// `grid_4`, `main_left` or `cascade`.
pub open spec fn preset_named(s: Seq<char>) -> Option<PresetLayout> {
    if s == "rows_2"@ {
        Some(PresetLayout::Rows2)
    } else if s == "rows_3"@ {
        Some(PresetLayout::Rows3)
    } else if s == "columns_2"@ {
        Some(PresetLayout::Columns2)
    } else if s == "columns_3"@ {
        Some(PresetLayout::Columns3)
    } else if s == "grid_4"@ {
        Some(PresetLayout::Grid4)
    } else if s == "main_left"@ {
        Some(PresetLayout::MainLeft)
    } else if s == "cascade"@ {
        Some(PresetLayout::Cascade)
    } else {
        None
    }
}

impl SnapDirection {
    pub fn parse(s: &str) -> (r: Option<SnapDirection>)
        ensures
            r == direction_named(s@),
    {
        if text_is(s, "left") {
            Some(SnapDirection::Left)
        } else if text_is(s, "right") {
            Some(SnapDirection::Right)
        } else if text_is(s, "top") {
            Some(SnapDirection::Top)
        } else if text_is(s, "bottom") {
            Some(SnapDirection::Bottom)
        } else if text_is(s, "maximize") {
            Some(SnapDirection::Maximize)
        } else if text_is(s, "center") {
            Some(SnapDirection::Center)
        } else {
            None
        }
    }
}

impl PresetLayout {
    pub fn parse(s: &str) -> (r: Option<PresetLayout>)
        ensures
            r == preset_named(s@),
    {
        if text_is(s, "rows_2") {
            Some(PresetLayout::Rows2)
        } else if text_is(s, "rows_3") {
            Some(PresetLayout::Rows3)
        } else if text_is(s, "columns_2") {
            Some(PresetLayout::Columns2)
        } else if text_is(s, "columns_3") {
            Some(PresetLayout::Columns3)
        } else if text_is(s, "grid_4") {
            Some(PresetLayout::Grid4)
        } else if text_is(s, "main_left") {
            Some(PresetLayout::MainLeft)
        } else if text_is(s, "cascade") {
            Some(PresetLayout::Cascade)
        } else {
            None
        }
    }
}

proof fn lemma_band_bounds(extent: int, n: int, k: int)
    requires
        0 <= extent <= COORD_LIMIT,
        1 <= n <= 3,
        0 <= k <= n,
    ensures
        0 <= band_start(extent, n, k) <= extent,
        k < n ==> band_start(extent, n, k) <= band_start(extent, n, k + 1),
{
    assert(0 <= extent * k <= extent * n) by (nonlinear_arith)
        requires 0 <= extent, 0 <= k <= n;
    assert(extent * n / n == extent) by (nonlinear_arith)
        requires n >= 1;
    vstd::arithmetic::div_mod::lemma_div_is_ordered(0, extent * k, n);
    vstd::arithmetic::div_mod::lemma_div_is_ordered(extent * k, extent * n, n);
    if k < n {
        assert(extent * k <= extent * (k + 1)) by (nonlinear_arith)
            requires 0 <= extent, 0 <= k;
        vstd::arithmetic::div_mod::lemma_div_is_ordered(extent * k, extent * (k + 1), n);
    }
}

/// Offset of band `k` of `n` across `extent`.
fn band_offset(extent: i64, n: i64, k: i64) -> (r: i64)
    requires
        0 <= extent <= COORD_LIMIT,
        1 <= n <= 3,
        0 <= k <= n,
    ensures
        r == band_start(extent as int, n as int, k as int),
        0 <= r <= extent,
{
    proof {
        lemma_band_bounds(extent as int, n as int, k as int);
        assert(extent * k <= COORD_LIMIT * 3) by (nonlinear_arith)
            requires 0 <= extent <= COORD_LIMIT, 0 <= k <= 3;
    }
    extent * k / n
}

fn row_band_exec(w: &WindowRect, n: i64, k: i64) -> (r: WindowRect)
    requires
        layout_ok(*w),
        1 <= n <= 3,
        0 <= k < n,
    ensures
        r == row_band(*w, n as int, k as int),
{
    proof { lemma_band_bounds(w.height as int, n as int, k as int); }
    let top = band_offset(w.height, n, k);
    let bottom = band_offset(w.height, n, k + 1);
    WindowRect { x: w.x, y: w.y + top, width: w.width, height: bottom - top }
}

fn column_band_exec(w: &WindowRect, n: i64, k: i64) -> (r: WindowRect)
    requires
        layout_ok(*w),
        1 <= n <= 3,
        0 <= k < n,
    ensures
        r == column_band(*w, n as int, k as int),
{
    proof { lemma_band_bounds(w.width as int, n as int, k as int); }
    let left = band_offset(w.width, n, k);
    let right = band_offset(w.width, n, k + 1);
    WindowRect { x: w.x + left, y: w.y, width: right - left, height: w.height }
}

fn quadrant_exec(w: &WindowRect, k: i64) -> (r: WindowRect)
    requires
        layout_ok(*w),
        0 <= k < 4,
    ensures
        r == quadrant(*w, k as int),
{
    let col = k % 2;
    let row = k / 2;
    proof {
        lemma_band_bounds(w.width as int, 2, col as int);
        lemma_band_bounds(w.height as int, 2, row as int);
    }
    let left = band_offset(w.width, 2, col);
    let right = band_offset(w.width, 2, col + 1);
    let top = band_offset(w.height, 2, row);
    let bottom = band_offset(w.height, 2, row + 1);
    WindowRect { x: w.x + left, y: w.y + top, width: right - left, height: bottom - top }
}

/// The rectangle that a window snaps to in the given work area.
pub fn snap_frame(dir: SnapDirection, w: &WindowRect) -> (r: WindowRect)
    requires
        layout_ok(*w),
    ensures
        r == snap_rect(dir, *w),
{
    match dir {
        SnapDirection::Left => column_band_exec(w, 2, 0),
        SnapDirection::Right => column_band_exec(w, 2, 1),
        SnapDirection::Top => row_band_exec(w, 2, 0),
        SnapDirection::Bottom => row_band_exec(w, 2, 1),
        SnapDirection::Maximize => *w,
        SnapDirection::Center => WindowRect {
            x: w.x + w.width / 10,
            y: w.y + w.height / 10,
            width: w.width * 8 / 10,
            height: w.height * 8 / 10,
        },
    }
}

/// Target rectangles of a preset for `count` candidate windows, in the
/// candidates' order; empty when there are fewer candidates than it needs.
pub fn preset_frames(p: PresetLayout, w: &WindowRect, count: usize) -> (r: Vec<WindowRect>)
    requires
        layout_ok(*w),
    ensures
        r@ == preset_rects(p, *w, count as nat),
{
    let mut out: Vec<WindowRect> = Vec::new();
    match p {
        PresetLayout::Rows2 => {
            if count >= 2 {
                out.push(row_band_exec(w, 2, 0));
                out.push(row_band_exec(w, 2, 1));
                assert(out@ =~= preset_rects(p, *w, count as nat));
            }
        },
        PresetLayout::Rows3 => {
            if count >= 3 {
                out.push(row_band_exec(w, 3, 0));
                out.push(row_band_exec(w, 3, 1));
                out.push(row_band_exec(w, 3, 2));
                assert(out@ =~= preset_rects(p, *w, count as nat));
            }
        },
        PresetLayout::Columns2 => {
            if count >= 2 {
                out.push(column_band_exec(w, 2, 0));
                out.push(column_band_exec(w, 2, 1));
                assert(out@ =~= preset_rects(p, *w, count as nat));
            }
        },
        PresetLayout::Columns3 => {
            if count >= 3 {
                out.push(column_band_exec(w, 3, 0));
                out.push(column_band_exec(w, 3, 1));
                out.push(column_band_exec(w, 3, 2));
                assert(out@ =~= preset_rects(p, *w, count as nat));
            }
        },
        PresetLayout::Grid4 => {
            if count >= 4 {
                out.push(quadrant_exec(w, 0));
                out.push(quadrant_exec(w, 1));
                out.push(quadrant_exec(w, 2));
                out.push(quadrant_exec(w, 3));
                assert(out@ =~= preset_rects(p, *w, count as nat));
            }
        },
        PresetLayout::MainLeft => {
            if count >= 2 {
                proof {
                    assert(w.width * 6 <= COORD_LIMIT * 6) by (nonlinear_arith)
                        requires 0 <= w.width <= COORD_LIMIT;
                    assert(0 <= w.width * 6 / 10 <= w.width) by (nonlinear_arith)
                        requires 0 <= w.width;
                }
                let main_w = w.width * 6 / 10;
                out.push(WindowRect { x: w.x, y: w.y, width: main_w, height: w.height });
                let n: usize = if count - 1 < STACK_MAX { count - 1 } else { STACK_MAX };
                let ghost stacked = Seq::new(n as nat, |k: int| stack_rect(*w, n as int, k));
                let mut k: usize = 0;
                while k < n
                    invariant
                        layout_ok(*w),
                        1 <= n <= STACK_MAX,
                        main_w == main_width(*w),
                        0 <= main_w <= w.width,
                        0 <= k <= n,
                        stacked == Seq::new(n as nat, |j: int| stack_rect(*w, n as int, j)),
                        out@ =~= seq![main_rect(*w)] + stacked.take(k as int),
                    decreases n - k,
                {
                    proof { lemma_band_bounds(w.height as int, n as int, k as int); }
                    let top = band_offset(w.height, n as i64, k as i64);
                    let bottom = band_offset(w.height, n as i64, k as i64 + 1);
                    out.push(WindowRect {
                        x: w.x + main_w,
                        y: w.y + top,
                        width: w.width - main_w,
                        height: bottom - top,
                    });
                    assert(stacked.take(k as int + 1) =~= stacked.take(k as int).push(stacked[k as int]));
                    k = k + 1;
                }
                assert(stacked.take(n as int) =~= stacked);
                assert(out@ =~= preset_rects(p, *w, count as nat));
            }
        },
        PresetLayout::Cascade => {
            proof {
                assert(w.width * 6 <= COORD_LIMIT * 6) by (nonlinear_arith)
                    requires 0 <= w.width <= COORD_LIMIT;
                assert(w.height * 7 <= COORD_LIMIT * 7) by (nonlinear_arith)
                    requires 0 <= w.height <= COORD_LIMIT;
            }
            let width = w.width * 6 / 10;
            let height = w.height * 7 / 10;
            let n: usize = if count < CASCADE_MAX { count } else { CASCADE_MAX };
            let ghost cascaded = Seq::new(n as nat, |k: int| cascade_rect(*w, k));
            let mut k: usize = 0;
            while k < n
                invariant
                    layout_ok(*w),
                    n <= CASCADE_MAX,
                    width == w.width * 6 / 10,
                    height == w.height * 7 / 10,
                    0 <= k <= n,
                    cascaded == Seq::new(n as nat, |j: int| cascade_rect(*w, j)),
                    out@ =~= cascaded.take(k as int),
                decreases n - k,
            {
                let offset = CASCADE_MARGIN + (k as i64) * CASCADE_STEP;
                out.push(WindowRect { x: w.x + offset, y: w.y + offset, width, height });
                assert(cascaded.take(k as int + 1) =~= cascaded.take(k as int).push(cascaded[k as int]));
                k = k + 1;
            }
            assert(cascaded.take(n as int) =~= cascaded);
            assert(out@ =~= preset_rects(p, *w, count as nat));
        },
    }
    out
}

/// The work area that layouts of these candidates act on: that of the display
/// holding the center of the first candidate. None when there is no
/// candidate or display, or when the frame or display lies outside the limits
/// that the arithmetic takes.
pub open spec fn target_work_area(windows: Seq<WindowView>, displays: Seq<WindowRect>) -> Option<WindowRect> {
    if windows.len() == 0 || !windows[0].frame.wf() {
        None
    } else {
        match display_for(displays, windows[0].frame.center_x(), windows[0].frame.center_y()) {
            Some(i) => if displays[i].wf() {
                Some(work_area_of(displays[i]))
            } else {
                None
            },
            None => None,
        }
    }
}

/// The move that snaps the first candidate window in the named direction;
/// for a name that is no direction, the window is put back at its own frame.
pub open spec fn snap_plan(direction: Seq<char>, windows: Seq<WindowView>, displays: Seq<WindowRect>) -> Option<MoveRequest> {
    match (direction_named(direction), target_work_area(windows, displays)) {
        (Some(d), Some(w)) => Some(MoveRequest { pid: windows[0].pid, frame: snap_rect(d, w) }),
        (None, Some(_)) => Some(MoveRequest { pid: windows[0].pid, frame: windows[0].frame }),
        (_, None) => None,
    }
}

/// The moves of the named preset: the `k`-th target rectangle goes to the
/// `k`-th candidate window.
pub open spec fn preset_plan(name: Seq<char>, windows: Seq<WindowView>, displays: Seq<WindowRect>) -> Seq<MoveRequest> {
    match (preset_named(name), target_work_area(windows, displays)) {
        (Some(p), Some(w)) => {
            let rects = preset_rects(p, w, windows.len());
            Seq::new(rects.len(), |k: int| MoveRequest { pid: windows[k].pid, frame: rects[k] })
        },
        _ => Seq::empty(),
    }
}

/// A preset never asks for more rectangles than there are candidates.
pub proof fn lemma_preset_fits(p: PresetLayout, w: WindowRect, count: nat)
    ensures
        preset_rects(p, w, count).len() <= count,
{
}

proof fn lemma_work_area_ok(bounds: WindowRect)
    requires
        bounds.wf(),
    ensures
        layout_ok(work_area_of(bounds)),
{
}

/// The work area of the display under the first candidate window.
fn find_work_area(windows: &Vec<WindowInfo>, displays: &Vec<WindowRect>) -> (r: Option<WindowRect>)
    ensures
        r == target_work_area(views(windows@), displays@),
        r matches Some(w) ==> layout_ok(w),
{
    if windows.len() == 0 {
        return None;
    }
    let frame = windows[0].frame;
    assert(frame == views(windows@)[0].frame);
    if !frame.is_wf() {
        return None;
    }
    let (cx, cy) = frame.center();
    match select_display(displays, cx, cy) {
        Some(i) => {
            if displays[i].is_wf() {
                proof { lemma_work_area_ok(displays@[i as int]); }
                Some(work_area(&displays[i]))
            } else {
                None
            }
        },
        None => None,
    }
}

/// The move that snaps the first candidate window (`left`, `right`, `top`,
/// `bottom`, `maximize` or `center`) within the work area of the display under
/// its center. For any other name the first candidate is moved to its own
/// frame. None when there is no candidate.
pub fn snap_active_window(direction: &str, windows: &Vec<WindowInfo>, displays: &Vec<WindowRect>) -> (r: Option<MoveRequest>)
    ensures
        r == snap_plan(direction@, views(windows@), displays@),
{
    match find_work_area(windows, displays) {
        Some(w) => {
            assert(windows@[0].pid == views(windows@)[0].pid);
            assert(windows@[0].frame == views(windows@)[0].frame);
            let frame = match SnapDirection::parse(direction) {
                Some(dir) => snap_frame(dir, &w),
                None => windows[0].frame,
            };
            Some(MoveRequest { pid: windows[0].pid, frame })
        },
        None => None,
    }
}

/// The moves of the named preset layout over the candidate windows, within
/// the work area of the display under the first candidate; none for an
/// unknown name or too few candidates.
pub fn apply_preset_layout(layout: &str, windows: &Vec<WindowInfo>, displays: &Vec<WindowRect>) -> (r: Vec<MoveRequest>)
    ensures
        r@ == preset_plan(layout@, views(windows@), displays@),
{
    let preset = match PresetLayout::parse(layout) {
        Some(p) => p,
        None => return Vec::new(),
    };
    let w = match find_work_area(windows, displays) {
        Some(w) => w,
        None => return Vec::new(),
    };
    let rects = preset_frames(preset, &w, windows.len());
    proof { lemma_preset_fits(preset, w, windows.len() as nat); }
    let ghost target = Seq::new(rects@.len(), |k: int| MoveRequest { pid: views(windows@)[k].pid, frame: rects@[k] });
    let mut out: Vec<MoveRequest> = Vec::new();
    let mut k: usize = 0;
    while k < rects.len()
        invariant
            rects@.len() <= windows@.len(),
            0 <= k <= rects@.len(),
            target == Seq::new(rects@.len(), |j: int| MoveRequest { pid: views(windows@)[j].pid, frame: rects@[j] }),
            out@ =~= target.take(k as int),
        decreases rects.len() - k,
    {
        assert(windows@[k as int].pid == views(windows@)[k as int].pid);
        out.push(MoveRequest { pid: windows[k].pid, frame: rects[k] });
        assert(target.take(k as int + 1) =~= target.take(k as int).push(target[k as int]));
        k = k + 1;
    }
    assert(target.take(rects@.len() as int) =~= target);
    out
}

/// `rows_2` splits the work area into two full-width bands: the first starts
/// at the top and is `H/2` high, the second starts where the first ends and
/// takes the rest, so together they tile the area with no gap or overlap;
/// with an even `H` both are `H/2` high.
pub proof fn lemma_rows_2_tiles(w: WindowRect, count: nat)
    requires
        layout_ok(w),
        count >= 2,
    ensures
        ({
            let r = preset_rects(PresetLayout::Rows2, w, count);
            &&& r.len() == 2
            &&& r[0].x == w.x && r[1].x == w.x
            &&& r[0].width == w.width && r[1].width == w.width
            &&& r[0].y == w.y
            &&& r[0].height == w.height / 2
            &&& r[1].y == w.y + w.height / 2
            &&& r[0].y + r[0].height == r[1].y
            &&& r[0].height + r[1].height == w.height
            &&& w.height % 2 == 0 ==> r[1].height == w.height / 2
        }),
{
    let r = preset_rects(PresetLayout::Rows2, w, count);
    assert(r[0] == row_band(w, 2, 0));
    assert(r[1] == row_band(w, 2, 1));
    assert(w.height * 1 / 2 == w.height / 2);
    assert(w.height * 2 / 2 == w.height) by (nonlinear_arith);
}

/// `grid_4` partitions the work area: each quadrant lies within it, every
/// point of it lies in exactly one quadrant, and the quadrants' areas add up
/// to its area.
pub proof fn lemma_grid_4_partitions(w: WindowRect, count: nat)
    requires
        layout_ok(w),
        count >= 4,
    ensures
        ({
            let r = preset_rects(PresetLayout::Grid4, w, count);
            &&& r.len() == 4
            &&& forall|k: int| 0 <= k < 4 ==> w.encloses(#[trigger] r[k])
            &&& forall|px: int, py: int| w.has_point(px, py) ==>
                    exists|k: int| 0 <= k < 4 && #[trigger] r[k].has_point(px, py)
            &&& forall|px: int, py: int, j: int, k: int|
                    0 <= j < k < 4 && #[trigger] r[j].has_point(px, py) ==> !#[trigger] r[k].has_point(px, py)
            &&& r[0].area() + r[1].area() + r[2].area() + r[3].area() == w.area()
            &&& r[0].x == w.x && r[0].y == w.y
            &&& r[1].x == w.x + w.width / 2 && r[1].y == w.y
            &&& r[2].x == w.x && r[2].y == w.y + w.height / 2
            &&& r[3].x == w.x + w.width / 2 && r[3].y == w.y + w.height / 2
            &&& w.width % 2 == 0 && w.height % 2 == 0 ==> forall|k: int|
                    0 <= k < 4 ==> (#[trigger] r[k]).width == w.width / 2 && r[k].height == w.height / 2
        }),
{
    let r = preset_rects(PresetLayout::Grid4, w, count);
    let hw = w.width / 2;
    let hh = w.height / 2;
    assert(w.width * 1 / 2 == hw);
    assert(w.width * 2 / 2 == w.width) by (nonlinear_arith);
    assert(w.height * 1 / 2 == hh);
    assert(w.height * 2 / 2 == w.height) by (nonlinear_arith);
    assert(r[0] == (WindowRect { x: w.x, y: w.y, width: hw as i64, height: hh as i64 }));
    assert(r[1] == (WindowRect { x: (w.x + hw) as i64, y: w.y, width: (w.width - hw) as i64, height: hh as i64 }));
    assert(r[2] == (WindowRect { x: w.x, y: (w.y + hh) as i64, width: hw as i64, height: (w.height - hh) as i64 }));
    assert(r[3] == (WindowRect {
        x: (w.x + hw) as i64,
        y: (w.y + hh) as i64,
        width: (w.width - hw) as i64,
        height: (w.height - hh) as i64,
    }));
    assert forall|px: int, py: int| w.has_point(px, py) implies
        exists|k: int| 0 <= k < 4 && #[trigger] r[k].has_point(px, py) by {
        if px < w.x + hw {
            if py < w.y + hh {
                assert(r[0].has_point(px, py));
            } else {
                assert(r[2].has_point(px, py));
            }
        } else {
            if py < w.y + hh {
                assert(r[1].has_point(px, py));
            } else {
                assert(r[3].has_point(px, py));
            }
        }
    }
    let (ww, wh) = (w.width as int, w.height as int);
    assert(hw * hh + (ww - hw) * hh + hw * (wh - hh) + (ww - hw) * (wh - hh) == ww * wh) by (nonlinear_arith);
}

/// Snapping to `maximize` gives exactly the work area of the display chosen
/// for the first candidate: the first display holding its center when one
/// does. On a display at least as high as the menu bar that is the display's
/// bounds less the menu-bar strip.
pub proof fn lemma_maximize_fills_work_area(windows: Seq<WindowView>, displays: Seq<WindowRect>)
    requires
        target_work_area(windows, displays) is Some,
    ensures
        ({
            let c = windows[0].frame;
            let i = display_for(displays, c.center_x(), c.center_y()).unwrap();
            &&& 0 <= i < displays.len()
            &&& target_work_area(windows, displays) == Some(work_area_of(displays[i]))
            &&& snap_plan("maximize"@, windows, displays)
                    == Some(MoveRequest { pid: windows[0].pid, frame: work_area_of(displays[i]) })
            &&& (exists|j: int| 0 <= j < displays.len() && displays[j].has_point(c.center_x(), c.center_y()))
                    ==> displays[i].has_point(c.center_x(), c.center_y())
            &&& displays[i].height >= MENU_BAR_INSET ==> work_area_of(displays[i]) == (WindowRect {
                    x: displays[i].x,
                    y: (displays[i].y + MENU_BAR_INSET) as i64,
                    width: displays[i].width,
                    height: (displays[i].height - MENU_BAR_INSET) as i64,
                })
        }),
{
    let c = windows[0].frame;
    crate::geometry::lemma_first_display_at(displays, c.center_x(), c.center_y());
    reveal_strlit("maximize");
    reveal_strlit("left");
    reveal_strlit("right");
    reveal_strlit("top");
    reveal_strlit("bottom");
    assert("maximize"@ != "left"@) by { assert("maximize"@.len() != "left"@.len()); }
    assert("maximize"@ != "right"@) by { assert("maximize"@.len() != "right"@.len()); }
    assert("maximize"@ != "top"@) by { assert("maximize"@.len() != "top"@.len()); }
    assert("maximize"@ != "bottom"@) by { assert("maximize"@.len() != "bottom"@.len()); }
    if exists|j: int| 0 <= j < displays.len() && displays[j].has_point(c.center_x(), c.center_y()) {
        let j = choose|j: int| 0 <= j < displays.len() && displays[j].has_point(c.center_x(), c.center_y());
        assert(displays[j].has_point(c.center_x(), c.center_y()));
    }
}

proof fn lemma_target_work_area_ok(windows: Seq<WindowView>, displays: Seq<WindowRect>)
    requires
        target_work_area(windows, displays) is Some,
    ensures
        layout_ok(target_work_area(windows, displays).unwrap()),
{
    let c = windows[0].frame;
    crate::geometry::lemma_first_display_at(displays, c.center_x(), c.center_y());
    let i = display_for(displays, c.center_x(), c.center_y()).unwrap();
    lemma_work_area_ok(displays[i]);
}

/// `rows_2` over at least two candidates moves exactly the first two, in
/// order: the first to the top band of the work area `W`, `W.height / 2` high,
/// the second to the band below it that reaches the bottom of `W`; both span
/// the full width. With an even height both bands are `W.height / 2` high.
pub proof fn lemma_rows_2_plan(windows: Seq<WindowView>, displays: Seq<WindowRect>)
    requires
        windows.len() >= 2,
        target_work_area(windows, displays) is Some,
    ensures
        ({
            let w = target_work_area(windows, displays).unwrap();
            let plan = preset_plan("rows_2"@, windows, displays);
            &&& plan.len() == 2
            &&& plan[0].pid == windows[0].pid && plan[1].pid == windows[1].pid
            &&& plan[0].frame.x == w.x && plan[1].frame.x == w.x
            &&& plan[0].frame.width == w.width && plan[1].frame.width == w.width
            &&& plan[0].frame.y == w.y
            &&& plan[0].frame.height == w.height / 2
            &&& plan[1].frame.y == w.y + w.height / 2
            &&& plan[1].frame.y + plan[1].frame.height == w.y + w.height
            &&& w.height % 2 == 0 ==> plan[1].frame.height == w.height / 2
        }),
{
    let w = target_work_area(windows, displays).unwrap();
    lemma_target_work_area_ok(windows, displays);
    lemma_rows_2_tiles(w, windows.len());
}

/// `grid_4` over at least four candidates moves exactly the first four, in
/// order, to the top-left, top-right, bottom-left and bottom-right quadrants
/// of the work area, which `lemma_grid_4_partitions` shows partition it.
pub proof fn lemma_grid_4_plan(windows: Seq<WindowView>, displays: Seq<WindowRect>)
    requires
        windows.len() >= 4,
        target_work_area(windows, displays) is Some,
    ensures
        ({
            let w = target_work_area(windows, displays).unwrap();
            let plan = preset_plan("grid_4"@, windows, displays);
            let r = preset_rects(PresetLayout::Grid4, w, windows.len());
            &&& layout_ok(w)
            &&& plan.len() == 4
            &&& forall|k: int| 0 <= k < 4 ==> #[trigger] plan[k] == (MoveRequest { pid: windows[k].pid, frame: r[k] })
        }),
{
    lemma_target_work_area_ok(windows, displays);
    reveal_strlit("grid_4");
    reveal_strlit("rows_2");
    reveal_strlit("rows_3");
    reveal_strlit("columns_2");
    reveal_strlit("columns_3");
    assert("grid_4"@ != "rows_2"@) by { assert("grid_4"@[0] != "rows_2"@[0]); }
    assert("grid_4"@ != "rows_3"@) by { assert("grid_4"@[0] != "rows_3"@[0]); }
    assert("grid_4"@ != "columns_2"@) by { assert("grid_4"@.len() != "columns_2"@.len()); }
    assert("grid_4"@ != "columns_3"@) by { assert("grid_4"@.len() != "columns_3"@.len()); }
}

} // verus!
