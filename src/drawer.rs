use vstd::prelude::*;

use std::sync::atomic::{AtomicU8, Ordering};

use crate::text::text_is;

verus! {

/// Width of the strip along the left or right screen edge that triggers.
pub const EDGE_ZONE: i64 = 5;

/// Height of the band at the top or bottom of the screen that makes a corner.
pub const CORNER_ZONE: i64 = 50;

/// Which part of the screen edge reveals the drawer.
#[derive(Clone, Copy, Debug, PartialEq, Eq, Structural)]
pub enum DrawerConfig {
    LeftEdge,
    RightEdge,
    HotCorners,
    TopLeft,
    BottomLeft,
    TopRight,
    BottomRight,
}

/// The screen side the drawer slides in from.
#[derive(Clone, Copy, Debug, PartialEq, Eq, Structural)]
pub enum Side {
    Left,
    Right,
}

/// The drawer's state; `Animating` holds for the whole of a slide.
#[derive(Clone, Copy, Debug, PartialEq, Eq, Structural)]
pub enum DrawerState {
    Closed,
    Open,
    Animating,
}

/// What asks the drawer to change state.
#[derive(Clone, Copy, Debug, PartialEq, Eq, Structural)]
pub enum DrawerEvent {
    /// The pointer entered the trigger zone.
    Trigger,
    /// An explicit request to hide.
    Hide,
    /// A show slide reached its end.
    Shown,
    /// A hide slide reached its end.
    Hidden,
}

/// The state after an event, or none when the state refuses it.
pub open spec fn next_state(s: DrawerState, e: DrawerEvent) -> Option<DrawerState> {
    match (s, e) {
        (DrawerState::Closed, DrawerEvent::Trigger) => Some(DrawerState::Animating),
        (DrawerState::Open, DrawerEvent::Hide) => Some(DrawerState::Animating),
        (DrawerState::Animating, DrawerEvent::Shown) => Some(DrawerState::Open),
        (DrawerState::Animating, DrawerEvent::Hidden) => Some(DrawerState::Closed),
        _ => None,
    }
}

/// The configuration a name selects: `left`, `right`, `hot-corners`,
/// `top-left`, `bottom-left`, `top-right` or `bottom-right`; any other name
/// selects the left edge.
pub open spec fn config_named(s: Seq<char>) -> DrawerConfig {
    if s == "right"@ {
        DrawerConfig::RightEdge
    } else if s == "hot-corners"@ {
        DrawerConfig::HotCorners
    } else if s == "top-left"@ {
        DrawerConfig::TopLeft
    } else if s == "bottom-left"@ {
        DrawerConfig::BottomLeft
    } else if s == "top-right"@ {
        DrawerConfig::TopRight
    } else if s == "bottom-right"@ {
        DrawerConfig::BottomRight
    } else {
        DrawerConfig::LeftEdge
    }
}

pub open spec fn at_left(x: int) -> bool {
    x < EDGE_ZONE
}

pub open spec fn at_right(x: int, width: int) -> bool {
    x > width - EDGE_ZONE
}

pub open spec fn at_top(y: int) -> bool {
    y < CORNER_ZONE
}

pub open spec fn at_bottom(y: int, height: int) -> bool {
    y > height - CORNER_ZONE
}

/// The side a pointer sample triggers under a configuration, if any.
pub open spec fn trigger_side(c: DrawerConfig, x: int, y: int, width: int, height: int) -> Option<Side> {
    let left = at_left(x);
    let right = at_right(x, width);
    let corner_band = at_top(y) || at_bottom(y, height);
    match c {
        DrawerConfig::LeftEdge => if left { Some(Side::Left) } else { None },
        DrawerConfig::RightEdge => if right { Some(Side::Right) } else { None },
        DrawerConfig::HotCorners => if left && corner_band {
            Some(Side::Left)
        } else if right && corner_band {
            Some(Side::Right)
        } else {
            None
        },
        DrawerConfig::TopLeft => if left && at_top(y) { Some(Side::Left) } else { None },
        DrawerConfig::BottomLeft => if left && at_bottom(y, height) { Some(Side::Left) } else { None },
        DrawerConfig::TopRight => if right && at_top(y) { Some(Side::Right) } else { None },
        DrawerConfig::BottomRight => if right && at_bottom(y, height) { Some(Side::Right) } else { None },
    }
}

impl DrawerConfig {
    /// The configuration a name selects; unknown names select the left edge.
    pub fn parse(s: &str) -> (r: DrawerConfig)
        ensures
            r == config_named(s@),
    {
        if text_is(s, "right") {
            DrawerConfig::RightEdge
        } else if text_is(s, "hot-corners") {
            DrawerConfig::HotCorners
        } else if text_is(s, "top-left") {
            DrawerConfig::TopLeft
        } else if text_is(s, "bottom-left") {
            DrawerConfig::BottomLeft
        } else if text_is(s, "top-right") {
            DrawerConfig::TopRight
        } else if text_is(s, "bottom-right") {
            DrawerConfig::BottomRight
        } else {
            DrawerConfig::LeftEdge
        }
    }

    pub open spec fn code_of(self) -> u8 {
        match self {
            DrawerConfig::LeftEdge => 0,
            DrawerConfig::RightEdge => 1,
            DrawerConfig::HotCorners => 2,
            DrawerConfig::TopLeft => 3,
            DrawerConfig::BottomLeft => 4,
            DrawerConfig::TopRight => 5,
            DrawerConfig::BottomRight => 6,
        }
    }

    /// The configuration a stored code stands for; unknown codes stand for
    /// the left edge.
    pub open spec fn decode(v: u8) -> DrawerConfig {
        if v == 1 {
            DrawerConfig::RightEdge
        } else if v == 2 {
            DrawerConfig::HotCorners
        } else if v == 3 {
            DrawerConfig::TopLeft
        } else if v == 4 {
            DrawerConfig::BottomLeft
        } else if v == 5 {
            DrawerConfig::TopRight
        } else if v == 6 {
            DrawerConfig::BottomRight
        } else {
            DrawerConfig::LeftEdge
        }
    }

    pub fn code(self) -> (r: u8)
        ensures
            r == self.code_of(),
            DrawerConfig::decode(r) == self,
    {
        match self {
            DrawerConfig::LeftEdge => 0,
            DrawerConfig::RightEdge => 1,
            DrawerConfig::HotCorners => 2,
            DrawerConfig::TopLeft => 3,
            DrawerConfig::BottomLeft => 4,
            DrawerConfig::TopRight => 5,
            DrawerConfig::BottomRight => 6,
        }
    }

    pub fn from_code(v: u8) -> (r: DrawerConfig)
        ensures
            r == DrawerConfig::decode(v),
    {
        if v == 1 {
            DrawerConfig::RightEdge
        } else if v == 2 {
            DrawerConfig::HotCorners
        } else if v == 3 {
            DrawerConfig::TopLeft
        } else if v == 4 {
            DrawerConfig::BottomLeft
        } else if v == 5 {
            DrawerConfig::TopRight
        } else if v == 6 {
            DrawerConfig::BottomRight
        } else {
            DrawerConfig::LeftEdge
        }
    }
}

impl Side {
    pub open spec fn decode(v: u8) -> Side {
        if v == 1 { Side::Right } else { Side::Left }
    }

    pub fn code(self) -> (r: u8)
        ensures
            Side::decode(r) == self,
    {
        match self {
            Side::Left => 0,
            Side::Right => 1,
        }
    }

    pub fn from_code(v: u8) -> (r: Side)
        ensures
            r == Side::decode(v),
    {
        if v == 1 { Side::Right } else { Side::Left }
    }
}

impl DrawerState {
    pub open spec fn code_of(self) -> u8 {
        match self {
            DrawerState::Closed => 0,
            DrawerState::Open => 1,
            DrawerState::Animating => 2,
        }
    }

    /// The state a stored code stands for. Only the three codes of
    /// `code_of` are ever stored; any other reads as `Animating`, the state
    /// that accepts neither a trigger nor a hide.
    pub open spec fn decode(v: u8) -> DrawerState {
        if v == 0 {
            DrawerState::Closed
        } else if v == 1 {
            DrawerState::Open
        } else {
            DrawerState::Animating
        }
    }

    pub fn code(self) -> (r: u8)
        ensures
            r == self.code_of(),
            DrawerState::decode(r) == self,
    {
        match self {
            DrawerState::Closed => 0,
            DrawerState::Open => 1,
            DrawerState::Animating => 2,
        }
    }

    pub fn from_code(v: u8) -> (r: DrawerState)
        ensures
            r == DrawerState::decode(v),
    {
        if v == 0 {
            DrawerState::Closed
        } else if v == 1 {
            DrawerState::Open
        } else {
            DrawerState::Animating
        }
    }

    /// The state after an event, or none when this state refuses it.
    pub fn next(self, e: DrawerEvent) -> (r: Option<DrawerState>)
        ensures
            r == next_state(self, e),
    {
        match (self, e) {
            (DrawerState::Closed, DrawerEvent::Trigger) => Some(DrawerState::Animating),
            (DrawerState::Open, DrawerEvent::Hide) => Some(DrawerState::Animating),
            (DrawerState::Animating, DrawerEvent::Shown) => Some(DrawerState::Open),
            (DrawerState::Animating, DrawerEvent::Hidden) => Some(DrawerState::Closed),
            _ => None,
        }
    }
}

/// The side a pointer sample triggers under a configuration, if any. The
/// sample and the screen size are in whole points of the display under the
/// pointer.
pub fn classify_pointer(c: DrawerConfig, x: i32, y: i32, screen_width: u32, screen_height: u32) -> (r: Option<Side>)
    ensures
        r == trigger_side(c, x as int, y as int, screen_width as int, screen_height as int),
{
    let x = x as i64;
    let y = y as i64;
    let w = screen_width as i64;
    let h = screen_height as i64;
    let left = x < EDGE_ZONE;
    let right = x > w - EDGE_ZONE;
    let top = y < CORNER_ZONE;
    let bottom = y > h - CORNER_ZONE;
    match c {
        DrawerConfig::LeftEdge => if left { Some(Side::Left) } else { None },
        DrawerConfig::RightEdge => if right { Some(Side::Right) } else { None },
        DrawerConfig::HotCorners => if left && (top || bottom) {
            Some(Side::Left)
        } else if right && (top || bottom) {
            Some(Side::Right)
        } else {
            None
        },
        DrawerConfig::TopLeft => if left && top { Some(Side::Left) } else { None },
        DrawerConfig::BottomLeft => if left && bottom { Some(Side::Left) } else { None },
        DrawerConfig::TopRight => if right && top { Some(Side::Right) } else { None },
        DrawerConfig::BottomRight => if right && bottom { Some(Side::Right) } else { None },
    }
}

/// Relies on `AtomicU8::compare_exchange`: it stores `new` only when the cell
/// holds `current`, and returns `Ok` with the previous value (equal to
/// `current`) when it did, `Err` with the value found (not `current`) when it
/// did not.
#[verifier::external_body]
fn exchange_if(cell: &AtomicU8, current: u8, new: u8) -> (r: Result<u8, u8>)
    ensures
        match r {
            Ok(v) => v == current,
            Err(v) => v != current,
        },
{
    cell.compare_exchange(current, new, Ordering::AcqRel, Ordering::Acquire)
}

/// Drawer state shared between the pointer watcher and the slide threads.
/// Each field is one atomic word, so a check never waits on a slide in
/// flight; state changes are single compare-and-exchange steps.
pub struct SharedDrawer {
    state: AtomicU8,
    side: AtomicU8,
    config: AtomicU8,
}

impl SharedDrawer {
    /// Closed, last side left, triggered by the left edge.
    pub fn new() -> SharedDrawer {
        SharedDrawer {
            state: AtomicU8::new(DrawerState::Closed.code()),
            side: AtomicU8::new(Side::Left.code()),
            config: AtomicU8::new(DrawerConfig::LeftEdge.code()),
        }
    }

    pub fn set_config(&self, c: DrawerConfig) {
        self.config.store(c.code(), Ordering::Release);
    }

    pub fn config(&self) -> DrawerConfig {
        DrawerConfig::from_code(self.config.load(Ordering::Acquire))
    }

    pub fn state(&self) -> DrawerState {
        DrawerState::from_code(self.state.load(Ordering::Acquire))
    }

    /// The side of the last accepted trigger.
    pub fn last_side(&self) -> Side {
        Side::from_code(self.side.load(Ordering::Acquire))
    }

    /// Moves the state from `from` to its successor under `e` in one atomic
    /// step; on refusal returns the state found, which refuses `e`.
    fn step(&self, from: DrawerState, e: DrawerEvent) -> (r: Result<(), DrawerState>)
        requires
            from != DrawerState::Animating,
            next_state(from, e) is Some,
            forall|s: DrawerState| next_state(s, e) is Some ==> s == from,
        ensures
            r matches Err(found) ==> next_state(found, e) is None,
    {
        let to = match from.next(e) {
            Some(t) => t,
            None => return Err(from),
        };
        match exchange_if(&self.state, from.code(), to.code()) {
            Ok(_) => Ok(()),
            Err(v) => {
                let found = DrawerState::from_code(v);
                Err(found)
            },
        }
    }

    /// Claims the drawer for a show slide from `side`: succeeds only from
    /// `Closed`, leaving `Animating`; on refusal returns the state found.
    pub fn try_begin_show(&self, side: Side) -> (r: Result<(), DrawerState>)
        ensures
            r matches Err(found) ==> next_state(found, DrawerEvent::Trigger) is None,
            r matches Err(found) ==> found != DrawerState::Closed,
    {
        let r = self.step(DrawerState::Closed, DrawerEvent::Trigger);
        if r.is_ok() {
            self.side.store(side.code(), Ordering::Release);
        }
        r
    }

    /// Claims the drawer for a hide slide: succeeds only from `Open`, leaving
    /// `Animating`, and returns the side it was shown on; on refusal returns
    /// the state found.
    pub fn try_begin_hide(&self) -> (r: Result<Side, DrawerState>)
        ensures
            r matches Err(found) ==> next_state(found, DrawerEvent::Hide) is None,
            r matches Err(found) ==> found != DrawerState::Open,
    {
        match self.step(DrawerState::Open, DrawerEvent::Hide) {
            Ok(()) => Ok(self.last_side()),
            Err(found) => Err(found),
        }
    }

    /// Ends a show slide: `Animating` becomes `Open` in one atomic step.
    /// Returns whether the drawer was animating; in any other state it is
    /// left as it is.
    pub fn finish_show(&self) -> bool {
        exchange_if(&self.state, DrawerState::Animating.code(), DrawerState::Open.code()).is_ok()
    }

    /// Ends a hide slide: `Animating` becomes `Closed` in one atomic step.
    /// Returns whether the drawer was animating; in any other state it is
    /// left as it is.
    pub fn finish_hide(&self) -> bool {
        exchange_if(&self.state, DrawerState::Animating.code(), DrawerState::Closed.code()).is_ok()
    }

    /// Handles one pointer sample: when it lies in the configured trigger
    /// zone and the drawer is closed, claims the drawer and returns the side
    /// to show it from.
    pub fn on_pointer_sample(&self, x: i32, y: i32, screen_width: u32, screen_height: u32) -> (r: Option<Side>)
        ensures
            r matches Some(side) ==> exists|c: DrawerConfig|
                trigger_side(c, x as int, y as int, screen_width as int, screen_height as int) == Some(side),
    {
        let c = self.config();
        match classify_pointer(c, x, y, screen_width, screen_height) {
            Some(side) => match self.try_begin_show(side) {
                Ok(()) => Some(side),
                Err(_) => None,
            },
            None => None,
        }
    }
}

/// At most one slide at a time: a claim (by a trigger or a hide request)
/// leaves the drawer in a state that refuses every further claim until the
/// slide finishes, so of two claims made one after the other only the first
/// succeeds.
pub proof fn lemma_one_slide_at_a_time(s: DrawerState, first: DrawerEvent, second: DrawerEvent)
    requires
        first == DrawerEvent::Trigger || first == DrawerEvent::Hide,
        second == DrawerEvent::Trigger || second == DrawerEvent::Hide,
        next_state(s, first) is Some,
    ensures
        next_state(s, first) == Some(DrawerState::Animating),
        next_state(next_state(s, first).unwrap(), second) is None,
{
}

} // verus!
