use mydrawer::geometry::{select_display, work_area, WindowRect};
use mydrawer::layout::{
    apply_preset_layout, preset_frames, snap_active_window, snap_frame, PresetLayout, SnapDirection,
};
use mydrawer::windows::{MoveRequest, WindowInfo};

fn window(id: u32, pid: i32, app: &str, title: &str, frame: WindowRect) -> WindowInfo {
    WindowInfo {
        id,
        pid,
        title: title.to_string(),
        app_name: app.to_string(),
        frame,
    }
}

fn one_display() -> Vec<WindowRect> {
    vec![WindowRect::new(0, 0, 1920, 1080)]
}

fn candidates(n: usize) -> Vec<WindowInfo> {
    (0..n)
        .map(|i| window(i as u32 + 1, 100 + i as i32, "App", "w", WindowRect::new(100, 100, 800, 600)))
        .collect()
}

#[test]
fn work_area_drops_menu_bar() {
    let w = work_area(&WindowRect::new(0, 0, 1920, 1080));
    assert_eq!(w, WindowRect::new(0, 24, 1920, 1056));
    let short = work_area(&WindowRect::new(5, 7, 300, 10));
    assert_eq!(short, WindowRect::new(5, 17, 300, 0));
}

#[test]
fn snap_directions_on_work_area() {
    let w = WindowRect::new(0, 24, 1920, 1056);
    assert_eq!(snap_frame(SnapDirection::Left, &w), WindowRect::new(0, 24, 960, 1056));
    assert_eq!(snap_frame(SnapDirection::Right, &w), WindowRect::new(960, 24, 960, 1056));
    assert_eq!(snap_frame(SnapDirection::Top, &w), WindowRect::new(0, 24, 1920, 528));
    assert_eq!(snap_frame(SnapDirection::Bottom, &w), WindowRect::new(0, 552, 1920, 528));
    assert_eq!(snap_frame(SnapDirection::Maximize, &w), w);
    assert_eq!(snap_frame(SnapDirection::Center, &w), WindowRect::new(192, 129, 1536, 844));
}

#[test]
fn snap_halves_of_odd_width_meet() {
    let w = WindowRect::new(10, 0, 101, 50);
    let l = snap_frame(SnapDirection::Left, &w);
    let r = snap_frame(SnapDirection::Right, &w);
    assert_eq!(l, WindowRect::new(10, 0, 50, 50));
    assert_eq!(r, WindowRect::new(60, 0, 51, 50));
}

#[test]
fn snap_maximize_gives_work_area() {
    let windows = candidates(1);
    let m = snap_active_window("maximize", &windows, &one_display());
    assert_eq!(m, Some(MoveRequest { pid: 100, frame: WindowRect::new(0, 24, 1920, 1056) }));
}

#[test]
fn snap_uses_display_under_window_center() {
    let displays = vec![WindowRect::new(0, 0, 1920, 1080), WindowRect::new(1920, 0, 2560, 1440)];
    let windows = vec![window(1, 7, "Editor", "a", WindowRect::new(2000, 100, 800, 600))];
    let m = snap_active_window("maximize", &windows, &displays);
    assert_eq!(m, Some(MoveRequest { pid: 7, frame: WindowRect::new(1920, 24, 2560, 1416) }));
    let left = snap_active_window("left", &windows, &displays);
    assert_eq!(left, Some(MoveRequest { pid: 7, frame: WindowRect::new(1920, 24, 1280, 1416) }));
}

#[test]
fn snap_falls_back_to_first_display() {
    let displays = vec![WindowRect::new(0, 0, 1920, 1080), WindowRect::new(1920, 0, 1920, 1080)];
    let windows = vec![window(1, 7, "Editor", "a", WindowRect::new(-5000, -5000, 800, 600))];
    assert_eq!(select_display(&displays, -4600, -4700), Some(0));
    let m = snap_active_window("top", &windows, &displays);
    assert_eq!(m, Some(MoveRequest { pid: 7, frame: WindowRect::new(0, 24, 1920, 528) }));
}

#[test]
fn snap_without_candidates_or_direction_does_nothing() {
    assert_eq!(snap_active_window("left", &Vec::new(), &one_display()), None);
    assert_eq!(snap_active_window("left", &candidates(1), &Vec::new()), None);
}

#[test]
fn unknown_direction_puts_window_back_at_its_frame() {
    let m = snap_active_window("diagonal", &candidates(2), &one_display());
    assert_eq!(m, Some(MoveRequest { pid: 100, frame: WindowRect::new(100, 100, 800, 600) }));
}

#[test]
fn rows_2_tiles_work_area() {
    let moves = apply_preset_layout("rows_2", &candidates(2), &one_display());
    assert_eq!(
        moves,
        vec![
            MoveRequest { pid: 100, frame: WindowRect::new(0, 24, 1920, 528) },
            MoveRequest { pid: 101, frame: WindowRect::new(0, 552, 1920, 528) },
        ]
    );
    let h = moves[0].frame.height + moves[1].frame.height;
    assert_eq!(h, 1056);
    assert_eq!(moves[0].frame.y + moves[0].frame.height, moves[1].frame.y);
}

#[test]
fn rows_2_with_odd_height_leaves_no_gap() {
    let r = preset_frames(PresetLayout::Rows2, &WindowRect::new(0, 0, 100, 101), 2);
    assert_eq!(r, vec![WindowRect::new(0, 0, 100, 50), WindowRect::new(0, 50, 100, 51)]);
}

#[test]
fn rows_3_and_columns_3_split_in_thirds() {
    let w = WindowRect::new(0, 24, 1920, 1056);
    let rows = preset_frames(PresetLayout::Rows3, &w, 3);
    assert_eq!(
        rows,
        vec![
            WindowRect::new(0, 24, 1920, 352),
            WindowRect::new(0, 376, 1920, 352),
            WindowRect::new(0, 728, 1920, 352),
        ]
    );
    let cols = preset_frames(PresetLayout::Columns3, &w, 5);
    assert_eq!(
        cols,
        vec![
            WindowRect::new(0, 24, 640, 1056),
            WindowRect::new(640, 24, 640, 1056),
            WindowRect::new(1280, 24, 640, 1056),
        ]
    );
    let two = preset_frames(PresetLayout::Columns2, &w, 2);
    assert_eq!(two, vec![WindowRect::new(0, 24, 960, 1056), WindowRect::new(960, 24, 960, 1056)]);
}

#[test]
fn grid_4_quadrants_cover_work_area() {
    let w = WindowRect::new(0, 24, 1921, 1057);
    let q = preset_frames(PresetLayout::Grid4, &w, 4);
    assert_eq!(
        q,
        vec![
            WindowRect::new(0, 24, 960, 528),
            WindowRect::new(960, 24, 961, 528),
            WindowRect::new(0, 552, 960, 529),
            WindowRect::new(960, 552, 961, 529),
        ]
    );
    let area: i64 = q.iter().map(|r| r.width * r.height).sum();
    assert_eq!(area, 1921 * 1057);
}

#[test]
fn presets_need_enough_windows() {
    let d = one_display();
    assert!(apply_preset_layout("rows_3", &candidates(2), &d).is_empty());
    assert!(apply_preset_layout("grid_4", &candidates(3), &d).is_empty());
    assert!(apply_preset_layout("main_left", &candidates(1), &d).is_empty());
    assert!(apply_preset_layout("columns_2", &candidates(1), &d).is_empty());
    assert!(apply_preset_layout("cascade", &Vec::new(), &d).is_empty());
}

#[test]
fn unknown_preset_does_nothing() {
    assert!(apply_preset_layout("spiral", &candidates(4), &one_display()).is_empty());
}

#[test]
fn main_left_stacks_up_to_three() {
    let moves = apply_preset_layout("main_left", &candidates(5), &one_display());
    assert_eq!(
        moves,
        vec![
            MoveRequest { pid: 100, frame: WindowRect::new(0, 24, 1152, 1056) },
            MoveRequest { pid: 101, frame: WindowRect::new(1152, 24, 768, 352) },
            MoveRequest { pid: 102, frame: WindowRect::new(1152, 376, 768, 352) },
            MoveRequest { pid: 103, frame: WindowRect::new(1152, 728, 768, 352) },
        ]
    );
    let two = apply_preset_layout("main_left", &candidates(2), &one_display());
    assert_eq!(two[1], MoveRequest { pid: 101, frame: WindowRect::new(1152, 24, 768, 1056) });
}

#[test]
fn cascade_offsets_up_to_ten() {
    let moves = apply_preset_layout("cascade", &candidates(12), &one_display());
    assert_eq!(moves.len(), 10);
    assert_eq!(moves[0], MoveRequest { pid: 100, frame: WindowRect::new(50, 74, 1152, 739) });
    assert_eq!(moves[9], MoveRequest { pid: 109, frame: WindowRect::new(320, 344, 1152, 739) });
    let two = apply_preset_layout("cascade", &candidates(2), &one_display());
    assert_eq!(two[1].frame, WindowRect::new(80, 104, 1152, 739));
}

#[test]
fn direction_and_preset_names() {
    assert_eq!(SnapDirection::parse("center"), Some(SnapDirection::Center));
    assert_eq!(SnapDirection::parse("Left"), None);
    assert_eq!(PresetLayout::parse("grid_4"), Some(PresetLayout::Grid4));
    assert_eq!(PresetLayout::parse("main_left"), Some(PresetLayout::MainLeft));
    assert_eq!(PresetLayout::parse(""), None);
}

#[test]
fn rect_contains_min_edge_not_max_edge() {
    let r = WindowRect::new(0, 0, 10, 10);
    assert!(r.contains(0, 0));
    assert!(r.contains(9, 9));
    assert!(!r.contains(10, 5));
    assert!(!r.contains(5, 10));
    assert_eq!(WindowRect::new(10, 20, 101, 51).center(), (60, 45));
}
