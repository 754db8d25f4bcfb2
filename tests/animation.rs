use mydrawer::animation::{
    drawer_slide, slide_positions, step_delay_ms, step_position, DisplayMetrics, SlidePath,
};
use mydrawer::drawer::Side;

#[test]
fn eased_steps_hit_exact_values() {
    assert_eq!(step_position(0, 100, 0), 0);
    assert_eq!(step_position(0, 100, 10), 87);
    assert_eq!(step_position(0, 100, 20), 100);
    assert_eq!(step_position(100, 0, 10), 12);
    assert_eq!(step_position(-800, 40, 1), -680);
    assert_eq!(step_position(3840, 3000, 1), 3720);
}

#[test]
fn slide_starts_and_ends_exactly() {
    let p = slide_positions(-800, 40);
    assert_eq!(p.len(), 21);
    assert_eq!(p[0], -800);
    assert_eq!(p[20], 40);
    for w in p.windows(2) {
        assert!(w[0] <= w[1]);
    }
    let back = slide_positions(1840, 3840);
    assert_eq!(back[20], 3840);
}

#[test]
fn steps_decelerate() {
    let p = slide_positions(0, 8000);
    let first = p[1] - p[0];
    let last = p[20] - p[19];
    assert_eq!(first, 1141);
    assert_eq!(last, 1);
}

#[test]
fn show_slide_geometry() {
    let m = DisplayMetrics { width: 1920, height: 1080, scale_percent: 100 };
    assert_eq!(drawer_slide(Side::Left, true, &m), SlidePath { start_x: -400, end_x: 20, y: 140 });
    assert_eq!(drawer_slide(Side::Right, true, &m), SlidePath { start_x: 1920, end_x: 1500, y: 140 });
}

#[test]
fn hide_slide_reverses_show() {
    let m = DisplayMetrics { width: 3840, height: 2160, scale_percent: 200 };
    assert_eq!(drawer_slide(Side::Right, false, &m), SlidePath { start_x: 3000, end_x: 3840, y: 280 });
    assert_eq!(drawer_slide(Side::Left, false, &m), SlidePath { start_x: 40, end_x: -800, y: 280 });
}

#[test]
fn right_side_shown_x_is_truncated_as_a_whole() {
    let m = DisplayMetrics { width: 3840, height: 2160, scale_percent: 133 };
    assert_eq!(drawer_slide(Side::Right, false, &m).start_x, 3281);
    assert_eq!(drawer_slide(Side::Right, true, &m).end_x, 3281);
    assert_eq!(drawer_slide(Side::Left, true, &m).end_x, 26);
    assert_eq!(drawer_slide(Side::Left, true, &m).start_x, -532);
}

#[test]
fn hide_positions_move_monotonically() {
    let p = slide_positions(3281, 3840);
    for w in p.windows(2) {
        assert!(w[0] <= w[1]);
        assert!(3281 <= w[0] && w[1] <= 3840);
    }
    let q = slide_positions(26, -532);
    for w in q.windows(2) {
        assert!(w[0] >= w[1]);
    }
    assert_eq!(q[20], -532);
}

#[test]
fn small_screen_centers_above_top() {
    let m = DisplayMetrics { width: 1280, height: 700, scale_percent: 100 };
    assert_eq!(drawer_slide(Side::Left, true, &m).y, -50);
    let odd = DisplayMetrics { width: 1280, height: 1, scale_percent: 100 };
    assert_eq!(drawer_slide(Side::Left, true, &odd).y, -399);
}

#[test]
fn missing_metrics_fall_back() {
    assert_eq!(
        DisplayMetrics::or_fallback(None),
        DisplayMetrics { width: 3840, height: 2160, scale_percent: 200 }
    );
    let m = DisplayMetrics { width: 1, height: 2, scale_percent: 3 };
    assert_eq!(DisplayMetrics::or_fallback(Some(m)), m);
    assert_eq!(step_delay_ms(), 10);
}
