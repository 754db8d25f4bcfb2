use vstd::prelude::*;

use crate::geometry::WindowRect;
use crate::text::text_is;

verus! {

/// Smallest width and height of a window worth arranging; narrower windows
/// are status-bar slivers and invisible helpers.
pub const MIN_WINDOW_EXTENT: i64 = 100;

/// Identity and geometry of one on-screen window of another application.
#[derive(Clone, Debug)]
pub struct WindowInfo {
    pub id: u32,
    pub pid: i32,
    pub title: String,
    pub app_name: String,
    pub frame: WindowRect,
}

/// What the logic sees of a `WindowInfo`.
pub struct WindowView {
    pub id: u32,
    pub pid: i32,
    pub title: Seq<char>,
    pub app_name: Seq<char>,
    pub frame: WindowRect,
}

impl View for WindowInfo {
    type V = WindowView;

    open spec fn view(&self) -> WindowView {
        WindowView {
            id: self.id,
            pid: self.pid,
            title: self.title@,
            app_name: self.app_name@,
            frame: self.frame,
        }
    }
}

/// One entry of the window server's list, as read: any field may be missing.
#[derive(Clone, Debug)]
pub struct WindowEntry {
    pub number: Option<u32>,
    pub owner_pid: Option<i32>,
    pub layer: Option<i64>,
    pub owner_name: Option<String>,
    pub name: Option<String>,
    pub bounds: Option<WindowRect>,
}

/// A request to place the first window of a process at a frame.
#[derive(Clone, Copy, Debug, PartialEq, Eq, Structural)]
pub struct MoveRequest {
    pub pid: i32,
    pub frame: WindowRect,
}

pub open spec fn text_or_empty(t: Option<String>) -> Seq<char> {
    match t {
        Some(s) => s@,
        None => Seq::empty(),
    }
}

/// Owners whose windows are system chrome, never arranged.
pub open spec fn is_system_owner(name: Seq<char>) -> bool {
    ||| name == "Dock"@
    ||| name == "Window Server"@
    ||| name == "Control Center"@
    ||| name == "Screenshot"@
    ||| name == "Wallpaper"@
}

/// An entry is listed when it belongs to another process, sits on the normal
/// application layer, is not system chrome, and has bounds of at least
/// `MIN_WINDOW_EXTENT` each way. Missing numbers count as 0, missing names as
/// empty.
pub open spec fn is_listed(my_pid: i32, e: WindowEntry) -> bool {
    &&& e.owner_pid.unwrap_or(0) != my_pid
    &&& e.layer.unwrap_or(0) == 0
    &&& !is_system_owner(text_or_empty(e.owner_name))
    &&& e.bounds is Some
    &&& e.bounds.unwrap().width >= MIN_WINDOW_EXTENT
    &&& e.bounds.unwrap().height >= MIN_WINDOW_EXTENT
}

/// The descriptor made from a listed entry.
pub open spec fn describe(e: WindowEntry) -> WindowView {
    WindowView {
        id: e.number.unwrap_or(0),
        pid: e.owner_pid.unwrap_or(0),
        title: text_or_empty(e.name),
        app_name: text_or_empty(e.owner_name),
        frame: e.bounds.unwrap(),
    }
}

/// Descriptors of the listed entries, in the window server's order.
pub open spec fn listed_windows(my_pid: i32, entries: Seq<WindowEntry>) -> Seq<WindowView>
    decreases entries.len(),
{
    if entries.len() == 0 {
        Seq::empty()
    } else {
        let rest = listed_windows(my_pid, entries.drop_last());
        if is_listed(my_pid, entries.last()) {
            rest.push(describe(entries.last()))
        } else {
            rest
        }
    }
}

pub open spec fn views(ws: Seq<WindowInfo>) -> Seq<WindowView> {
    ws.map_values(|w: WindowInfo| w@)
}

fn text_or_default(t: &Option<String>) -> (r: String)
    ensures
        r@ == text_or_empty(*t),
{
    match t {
        Some(s) => s.clone(),
        None => String::new(),
    }
}

fn system_owner(name: &str) -> (r: bool)
    ensures
        r == is_system_owner(name@),
{
    text_is(name, "Dock") || text_is(name, "Window Server") || text_is(name, "Control Center")
        || text_is(name, "Screenshot") || text_is(name, "Wallpaper")
}

/// The windows of other applications worth arranging, from the window
/// server's list: entries of `my_pid`, off the normal layer, of system chrome
/// or smaller than `MIN_WINDOW_EXTENT` are left out; the order is kept.
pub fn get_open_windows(my_pid: i32, entries: &Vec<WindowEntry>) -> (r: Vec<WindowInfo>)
    ensures
        views(r@) == listed_windows(my_pid, entries@),
{
    let mut out: Vec<WindowInfo> = Vec::new();
    let mut i: usize = 0;
    while i < entries.len()
        invariant
            0 <= i <= entries.len(),
            views(out@) == listed_windows(my_pid, entries@.take(i as int)),
        decreases entries.len() - i,
    {
        let e = &entries[i];
        assert(entries@.take(i as int + 1).drop_last() =~= entries@.take(i as int));
        let pid = match e.owner_pid {
            Some(p) => p,
            None => 0,
        };
        let layer = match e.layer {
            Some(l) => l,
            None => 0,
        };
        let app_name = text_or_default(&e.owner_name);
        let keep_owner = pid != my_pid && layer == 0 && !system_owner(app_name.as_str());
        if keep_owner {
            match e.bounds {
                Some(b) => {
                    if b.width >= MIN_WINDOW_EXTENT && b.height >= MIN_WINDOW_EXTENT {
                        let id = match e.number {
                            Some(n) => n,
                            None => 0,
                        };
                        let title = text_or_default(&e.name);
                        let w = WindowInfo { id, pid, title, app_name, frame: b };
                        let ghost before = out@;
                        out.push(w);
                        assert(views(out@) =~= views(before).push(w@));
                    }
                },
                None => {},
            }
        }
        i = i + 1;
    }
    assert(entries@.take(entries@.len() as int) =~= entries@);
    out
}

/// The stages of identity resolution for a saved window, tried in order.
#[derive(Clone, Copy, Debug, PartialEq, Eq, Structural)]
pub enum MatchStage {
    /// The same window number.
    SameId,
    /// The same application name and title.
    SameAppAndTitle,
    /// The same application name.
    SameApp,
}

pub open spec fn stage_matches(stage: MatchStage, saved: WindowView, w: WindowView) -> bool {
    match stage {
        MatchStage::SameId => w.id == saved.id,
        MatchStage::SameAppAndTitle => w.app_name == saved.app_name && w.title == saved.title,
        MatchStage::SameApp => w.app_name == saved.app_name,
    }
}

/// Index of the first window of `cur` that matches `saved` at `stage`.
pub open spec fn first_match(cur: Seq<WindowView>, saved: WindowView, stage: MatchStage) -> Option<int>
    decreases cur.len(),
{
    if cur.len() == 0 {
        None
    } else {
        match first_match(cur.drop_last(), saved, stage) {
            Some(i) => Some(i),
            None => if stage_matches(stage, saved, cur.last()) {
                Some(cur.len() - 1)
            } else {
                None
            },
        }
    }
}

/// The process that now owns the window a saved descriptor stands for: that
/// of the first current window with the same number; failing that, with the
/// same application and title; failing that, of the same application.
pub open spec fn resolve_pid(saved: WindowView, cur: Seq<WindowView>) -> Option<i32> {
    match first_match(cur, saved, MatchStage::SameId) {
        Some(i) => Some(cur[i].pid),
        None => match first_match(cur, saved, MatchStage::SameAppAndTitle) {
            Some(i) => Some(cur[i].pid),
            None => match first_match(cur, saved, MatchStage::SameApp) {
                Some(i) => Some(cur[i].pid),
                None => None,
            },
        },
    }
}

/// The move for one saved descriptor: none when it resolves to no process.
pub open spec fn restore_step(saved: WindowView, cur: Seq<WindowView>) -> Seq<MoveRequest> {
    match resolve_pid(saved, cur) {
        Some(pid) => seq![MoveRequest { pid, frame: saved.frame }],
        None => Seq::empty(),
    }
}

/// The moves that restore a saved layout, in the saved order.
pub open spec fn restore_plan(saved: Seq<WindowView>, cur: Seq<WindowView>) -> Seq<MoveRequest>
    decreases saved.len(),
{
    if saved.len() == 0 {
        Seq::empty()
    } else {
        restore_plan(saved.drop_last(), cur) + restore_step(saved.last(), cur)
    }
}

/// What `first_match` finds: the least matching index, or nothing when no
/// window matches.
pub proof fn lemma_first_match(cur: Seq<WindowView>, saved: WindowView, stage: MatchStage)
    ensures
        match first_match(cur, saved, stage) {
            Some(i) => 0 <= i < cur.len() && stage_matches(stage, saved, cur[i])
                && forall|k: int| 0 <= k < i ==> !stage_matches(stage, saved, #[trigger] cur[k]),
            None => forall|k: int| 0 <= k < cur.len() ==> !stage_matches(stage, saved, #[trigger] cur[k]),
        },
    decreases cur.len(),
{
    if cur.len() > 0 {
        let prefix = cur.drop_last();
        lemma_first_match(prefix, saved, stage);
        match first_match(prefix, saved, stage) {
            Some(i) => {
                assert forall|k: int| 0 <= k < i implies !stage_matches(stage, saved, #[trigger] cur[k]) by {
                    assert(cur[k] == prefix[k]);
                }
            },
            None => {
                assert forall|k: int| 0 <= k < cur.len() - 1 implies !stage_matches(stage, saved, #[trigger] cur[k]) by {
                    assert(cur[k] == prefix[k]);
                }
            },
        }
    }
}

/// A match found in a prefix is the match of the whole sequence.
proof fn lemma_first_match_prefix(cur: Seq<WindowView>, saved: WindowView, stage: MatchStage, n: int)
    requires
        0 <= n <= cur.len(),
        first_match(cur.take(n), saved, stage) is Some,
    ensures
        first_match(cur, saved, stage) == first_match(cur.take(n), saved, stage),
    decreases cur.len() - n,
{
    if n < cur.len() {
        let prefix = cur.drop_last();
        assert(prefix.take(n) =~= cur.take(n));
        lemma_first_match_prefix(prefix, saved, stage, n);
    } else {
        assert(cur.take(n) =~= cur);
    }
}

fn matches_at(stage: MatchStage, saved: &WindowInfo, w: &WindowInfo) -> (r: bool)
    ensures
        r == stage_matches(stage, saved@, w@),
{
    match stage {
        MatchStage::SameId => w.id == saved.id,
        MatchStage::SameAppAndTitle => w.app_name == saved.app_name && w.title == saved.title,
        MatchStage::SameApp => w.app_name == saved.app_name,
    }
}

fn find_first(cur: &Vec<WindowInfo>, saved: &WindowInfo, stage: MatchStage) -> (r: Option<usize>)
    ensures
        match r {
            Some(i) => first_match(views(cur@), saved@, stage) == Some(i as int),
            None => first_match(views(cur@), saved@, stage) is None,
        },
{
    let ghost cv = views(cur@);
    let mut i: usize = 0;
    while i < cur.len()
        invariant
            0 <= i <= cur.len(),
            cv == views(cur@),
            first_match(cv.take(i as int), saved@, stage) is None,
        decreases cur.len() - i,
    {
        assert(cv.take(i as int + 1).drop_last() =~= cv.take(i as int));
        if matches_at(stage, saved, &cur[i]) {
            proof {
                assert(cv.take(i as int + 1).last() == cur@[i as int]@);
                lemma_first_match_prefix(cv, saved@, stage, i as int + 1);
            }
            return Some(i);
        }
        i = i + 1;
    }
    assert(cv.take(cur.len() as int) =~= cv);
    None
}

/// The process a saved descriptor resolves to among the current windows.
pub fn resolve_window(saved: &WindowInfo, current: &Vec<WindowInfo>) -> (r: Option<i32>)
    ensures
        r == resolve_pid(saved@, views(current@)),
{
    proof {
        lemma_first_match(views(current@), saved@, MatchStage::SameId);
        lemma_first_match(views(current@), saved@, MatchStage::SameAppAndTitle);
        lemma_first_match(views(current@), saved@, MatchStage::SameApp);
    }
    match find_first(current, saved, MatchStage::SameId) {
        Some(i) => Some(current[i].pid),
        None => match find_first(current, saved, MatchStage::SameAppAndTitle) {
            Some(i) => Some(current[i].pid),
            None => match find_first(current, saved, MatchStage::SameApp) {
                Some(i) => Some(current[i].pid),
                None => None,
            },
        },
    }
}

/// Moves that put each saved window back at its saved frame, matched against
/// the current windows; a saved window that matches none is skipped.
pub fn restore_windows(saved: &Vec<WindowInfo>, current: &Vec<WindowInfo>) -> (r: Vec<MoveRequest>)
    ensures
        r@ == restore_plan(views(saved@), views(current@)),
{
    let ghost sv = views(saved@);
    let mut out: Vec<MoveRequest> = Vec::new();
    let mut i: usize = 0;
    while i < saved.len()
        invariant
            0 <= i <= saved.len(),
            sv == views(saved@),
            out@ == restore_plan(sv.take(i as int), views(current@)),
        decreases saved.len() - i,
    {
        assert(sv.take(i as int + 1).drop_last() =~= sv.take(i as int));
        let ghost before = out@;
        match resolve_window(&saved[i], current) {
            Some(pid) => {
                out.push(MoveRequest { pid, frame: saved[i].frame });
                assert(out@ =~= before + restore_step(sv[i as int], views(current@)));
            },
            None => {
                assert(out@ =~= before + restore_step(sv[i as int], views(current@)));
            },
        }
        i = i + 1;
    }
    assert(sv.take(saved.len() as int) =~= sv);
    out
}

/// Restoring a concatenation of saved layouts gives the concatenation of
/// their moves.
pub proof fn lemma_restore_plan_concat(a: Seq<WindowView>, b: Seq<WindowView>, cur: Seq<WindowView>)
    ensures
        restore_plan(a + b, cur) == restore_plan(a, cur) + restore_plan(b, cur),
    decreases b.len(),
{
    if b.len() == 0 {
        assert(a + b =~= a);
        assert(restore_plan(a, cur) + restore_plan(b, cur) =~= restore_plan(a, cur));
    } else {
        assert((a + b).drop_last() =~= a + b.drop_last());
        assert((a + b).last() == b.last());
        lemma_restore_plan_concat(a, b.drop_last(), cur);
        assert(restore_plan(a + b, cur) =~= restore_plan(a, cur) + restore_plan(b, cur));
    }
}

proof fn lemma_single_plan(saved: WindowView, cur: Seq<WindowView>)
    ensures
        restore_plan(seq![saved], cur) == restore_step(saved, cur),
{
    let one = seq![saved];
    assert(one.len() == 1);
    assert(one.last() == saved);
    assert(one.drop_last() =~= Seq::<WindowView>::empty());
    assert(restore_plan(one.drop_last(), cur) == Seq::<MoveRequest>::empty());
    assert(restore_plan(one, cur) == restore_plan(one.drop_last(), cur) + restore_step(saved, cur));
    assert(Seq::<MoveRequest>::empty() + restore_step(saved, cur) =~= restore_step(saved, cur));
}

/// A saved window whose number is gone but whose application and title match
/// a current window is restored through the second stage: it moves the
/// first current window with that application and title.
pub proof fn lemma_restore_by_app_and_title(saved: WindowView, cur: Seq<WindowView>, j: int)
    requires
        0 <= j < cur.len(),
        cur[j].app_name == saved.app_name,
        cur[j].title == saved.title,
        forall|k: int| 0 <= k < cur.len() ==> (#[trigger] cur[k]).id != saved.id,
    ensures
        exists|i: int|
            0 <= i < cur.len() && stage_matches(MatchStage::SameAppAndTitle, saved, #[trigger] cur[i])
            && (forall|k: int| 0 <= k < i ==> !stage_matches(MatchStage::SameAppAndTitle, saved, #[trigger] cur[k]))
            && restore_plan(seq![saved], cur) == seq![MoveRequest { pid: cur[i].pid, frame: saved.frame }],
{
    lemma_first_match(cur, saved, MatchStage::SameId);
    lemma_first_match(cur, saved, MatchStage::SameAppAndTitle);
    lemma_single_plan(saved, cur);
    assert(stage_matches(MatchStage::SameAppAndTitle, saved, cur[j]));
    let i = first_match(cur, saved, MatchStage::SameAppAndTitle).unwrap();
    assert(stage_matches(MatchStage::SameAppAndTitle, saved, cur[i]));
}

/// A saved window that matches no current window by number, nor by
/// application and title, but whose application owns exactly one current
/// window is restored through the third stage, onto that window's process.
pub proof fn lemma_restore_by_app(saved: WindowView, cur: Seq<WindowView>, j: int)
    requires
        0 <= j < cur.len(),
        cur[j].app_name == saved.app_name,
        forall|k: int| 0 <= k < cur.len() && k != j ==> (#[trigger] cur[k]).app_name != saved.app_name,
        forall|k: int| 0 <= k < cur.len() ==> (#[trigger] cur[k]).id != saved.id,
        forall|k: int| 0 <= k < cur.len() ==> !stage_matches(MatchStage::SameAppAndTitle, saved, #[trigger] cur[k]),
    ensures
        restore_plan(seq![saved], cur) == seq![MoveRequest { pid: cur[j].pid, frame: saved.frame }],
{
    lemma_first_match(cur, saved, MatchStage::SameId);
    lemma_first_match(cur, saved, MatchStage::SameAppAndTitle);
    lemma_first_match(cur, saved, MatchStage::SameApp);
    lemma_single_plan(saved, cur);
    assert(stage_matches(MatchStage::SameApp, saved, cur[j]));
}

/// A saved window that matches no current window at all is skipped, and the
/// windows saved before and after it are restored just as without it.
pub proof fn lemma_unmatched_skipped(
    before: Seq<WindowView>,
    lost: WindowView,
    after: Seq<WindowView>,
    cur: Seq<WindowView>,
)
    requires
        forall|k: int| 0 <= k < cur.len() ==> (#[trigger] cur[k]).id != lost.id && cur[k].app_name != lost.app_name,
    ensures
        restore_plan(before.push(lost) + after, cur) == restore_plan(before, cur) + restore_plan(after, cur),
{
    lemma_first_match(cur, lost, MatchStage::SameId);
    lemma_first_match(cur, lost, MatchStage::SameAppAndTitle);
    lemma_first_match(cur, lost, MatchStage::SameApp);
    lemma_restore_plan_concat(before.push(lost), after, cur);
    assert(before.push(lost).drop_last() =~= before);
    assert(restore_plan(before.push(lost), cur) =~= restore_plan(before, cur));
}

} // verus!
