use vstd::prelude::*;

verus! {

/// Height of the menu bar that is kept out of a display's work area.
pub const MENU_BAR_INSET: i64 = 24;

/// Largest magnitude of a coordinate or an extent that the layout code takes.
/// Sums and small multiples of such values stay far inside `i64`.
pub const COORD_LIMIT: i64 = 1099511627776;

/// An axis-aligned rectangle in window-server coordinates (origin top-left).
#[derive(Clone, Copy, Debug, PartialEq, Eq, Structural)]
pub struct WindowRect {
    pub x: i64,
    pub y: i64,
    pub width: i64,
    pub height: i64,
}

impl WindowRect {
    /// Non-negative extents and coordinates inside `COORD_LIMIT`.
    pub open spec fn wf(self) -> bool {
        &&& -COORD_LIMIT <= self.x <= COORD_LIMIT
        &&& -COORD_LIMIT <= self.y <= COORD_LIMIT
        &&& 0 <= self.width <= COORD_LIMIT
        &&& 0 <= self.height <= COORD_LIMIT
    }

    /// The point lies in the rectangle: min edges included, max edges excluded.
    pub open spec fn has_point(self, px: int, py: int) -> bool {
        &&& self.x <= px < self.x + self.width
        &&& self.y <= py < self.y + self.height
    }

    /// `inner` lies within `self`.
    pub open spec fn encloses(self, inner: WindowRect) -> bool {
        &&& self.x <= inner.x
        &&& self.y <= inner.y
        &&& inner.x + inner.width <= self.x + self.width
        &&& inner.y + inner.height <= self.y + self.height
    }

    pub open spec fn area(self) -> int {
        self.width * self.height
    }

    pub open spec fn center_x(self) -> int {
        self.x + self.width / 2
    }

    pub open spec fn center_y(self) -> int {
        self.y + self.height / 2
    }

    pub fn new(x: i64, y: i64, width: i64, height: i64) -> (r: WindowRect)
        ensures
            r == (WindowRect { x, y, width, height }),
    {
        WindowRect { x, y, width, height }
    }

    /// Whether the point lies in the rectangle.
    pub fn contains(&self, px: i64, py: i64) -> (r: bool)
        ensures
            r == self.has_point(px as int, py as int),
    {
        let right = self.x as i128 + self.width as i128;
        let bottom = self.y as i128 + self.height as i128;
        self.x <= px && (px as i128) < right && self.y <= py && (py as i128) < bottom
    }

    /// Whether the rectangle is within the limits that the arithmetic takes.
    pub fn is_wf(&self) -> (r: bool)
        ensures
            r == self.wf(),
    {
        -COORD_LIMIT <= self.x && self.x <= COORD_LIMIT && -COORD_LIMIT <= self.y
            && self.y <= COORD_LIMIT && 0 <= self.width && self.width <= COORD_LIMIT
            && 0 <= self.height && self.height <= COORD_LIMIT
    }

    /// Center point, rounded down to whole points.
    pub fn center(&self) -> (r: (i64, i64))
        requires
            self.wf(),
        ensures
            r.0 == self.center_x(),
            r.1 == self.center_y(),
    {
        (self.x + self.width / 2, self.y + self.height / 2)
    }
}

/// The work area of a display with the given bounds: the bounds less the
/// menu-bar strip along the top (all of the height, on a display that short).
pub open spec fn work_area_of(bounds: WindowRect) -> WindowRect {
    let inset = if bounds.height >= MENU_BAR_INSET { MENU_BAR_INSET as int } else { bounds.height as int };
    WindowRect {
        x: bounds.x,
        y: (bounds.y + inset) as i64,
        width: bounds.width,
        height: (bounds.height - inset) as i64,
    }
}

/// Index of the first display whose bounds contain the point.
pub open spec fn first_display_at(displays: Seq<WindowRect>, px: int, py: int) -> Option<int>
    decreases displays.len(),
{
    if displays.len() == 0 {
        None
    } else {
        match first_display_at(displays.drop_last(), px, py) {
            Some(i) => Some(i),
            None => if displays.last().has_point(px, py) {
                Some(displays.len() - 1)
            } else {
                None
            },
        }
    }
}

/// The display a point belongs to: the first whose bounds contain it, else the
/// first display; none when there is no display.
pub open spec fn display_for(displays: Seq<WindowRect>, px: int, py: int) -> Option<int> {
    if displays.len() == 0 {
        None
    } else {
        match first_display_at(displays, px, py) {
            Some(i) => Some(i),
            None => Some(0),
        }
    }
}

/// What `first_display_at` finds: the least index of a display holding the
/// point, or nothing when none does.
pub proof fn lemma_first_display_at(displays: Seq<WindowRect>, px: int, py: int)
    ensures
        match first_display_at(displays, px, py) {
            Some(i) => 0 <= i < displays.len() && displays[i].has_point(px, py)
                && forall|k: int| 0 <= k < i ==> !(#[trigger] displays[k]).has_point(px, py),
            None => forall|k: int| 0 <= k < displays.len() ==> !(#[trigger] displays[k]).has_point(px, py),
        },
    decreases displays.len(),
{
    if displays.len() > 0 {
        let prefix = displays.drop_last();
        lemma_first_display_at(prefix, px, py);
        match first_display_at(prefix, px, py) {
            Some(i) => {
                assert forall|k: int| 0 <= k < i implies !(#[trigger] displays[k]).has_point(px, py) by {
                    assert(displays[k] == prefix[k]);
                }
            },
            None => {
                assert forall|k: int| 0 <= k < displays.len() - 1 implies !(#[trigger] displays[k]).has_point(px, py) by {
                    assert(displays[k] == prefix[k]);
                }
            },
        }
    }
}

proof fn lemma_first_display_prefix(displays: Seq<WindowRect>, px: int, py: int, n: int)
    requires
        0 <= n <= displays.len(),
        first_display_at(displays.take(n), px, py) is Some,
    ensures
        first_display_at(displays, px, py) == first_display_at(displays.take(n), px, py),
    decreases displays.len() - n,
{
    if n < displays.len() {
        let prefix = displays.drop_last();
        assert(prefix.take(n) =~= displays.take(n));
        lemma_first_display_prefix(prefix, px, py, n);
    } else {
        assert(displays.take(n) =~= displays);
    }
}

/// The display that a point belongs to, among the active displays.
pub fn select_display(displays: &Vec<WindowRect>, px: i64, py: i64) -> (r: Option<usize>)
    ensures
        match r {
            Some(i) => display_for(displays@, px as int, py as int) == Some(i as int),
            None => display_for(displays@, px as int, py as int) is None,
        },
        r matches Some(i) ==> i < displays.len(),
{
    proof { lemma_first_display_at(displays@, px as int, py as int); }
    if displays.len() == 0 {
        return None;
    }
    let mut i: usize = 0;
    while i < displays.len()
        invariant
            0 < displays.len(),
            0 <= i <= displays.len(),
            first_display_at(displays@.take(i as int), px as int, py as int) is None,
        decreases displays.len() - i,
    {
        assert(displays@.take(i as int + 1).drop_last() =~= displays@.take(i as int));
        if displays[i].contains(px, py) {
            proof {
                lemma_first_display_prefix(displays@, px as int, py as int, i as int + 1);
            }
            return Some(i);
        }
        i = i + 1;
    }
    assert(displays@.take(displays.len() as int) =~= displays@);
    Some(0)
}

/// Work area of a display: its bounds minus the menu-bar inset.
pub fn work_area(bounds: &WindowRect) -> (r: WindowRect)
    requires
        bounds.wf(),
    ensures
        r == work_area_of(*bounds),
        bounds.encloses(r),
        r.width == bounds.width,
        r.height >= 0,
{
    let inset: i64 = if bounds.height >= MENU_BAR_INSET {
        MENU_BAR_INSET
    } else {
        bounds.height
    };
    WindowRect {
        x: bounds.x,
        y: bounds.y + inset,
        width: bounds.width,
        height: bounds.height - inset,
    }
}

} // verus!
