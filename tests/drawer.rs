use mydrawer::drawer::{classify_pointer, DrawerConfig, DrawerEvent, DrawerState, SharedDrawer, Side};

#[test]
fn left_edge_sample_triggers_left() {
    assert_eq!(classify_pointer(DrawerConfig::LeftEdge, 2, 300, 1920, 1080), Some(Side::Left));
    assert_eq!(classify_pointer(DrawerConfig::RightEdge, 2, 300, 1920, 1080), None);
}

#[test]
fn right_edge_needs_last_five_points() {
    assert_eq!(classify_pointer(DrawerConfig::RightEdge, 1916, 300, 1920, 1080), Some(Side::Right));
    assert_eq!(classify_pointer(DrawerConfig::RightEdge, 1915, 300, 1920, 1080), None);
    assert_eq!(classify_pointer(DrawerConfig::LeftEdge, 5, 300, 1920, 1080), None);
    assert_eq!(classify_pointer(DrawerConfig::LeftEdge, 4, 300, 1920, 1080), Some(Side::Left));
}

#[test]
fn hot_corners_need_a_corner_band() {
    let c = DrawerConfig::HotCorners;
    assert_eq!(classify_pointer(c, 0, 10, 1920, 1080), Some(Side::Left));
    assert_eq!(classify_pointer(c, 0, 1050, 1920, 1080), Some(Side::Left));
    assert_eq!(classify_pointer(c, 0, 500, 1920, 1080), None);
    assert_eq!(classify_pointer(c, 1919, 49, 1920, 1080), Some(Side::Right));
    assert_eq!(classify_pointer(c, 1919, 1031, 1920, 1080), Some(Side::Right));
    assert_eq!(classify_pointer(c, 1919, 1030, 1920, 1080), None);
}

#[test]
fn single_corners_take_one_band_and_side() {
    assert_eq!(classify_pointer(DrawerConfig::TopLeft, 1, 1, 1920, 1080), Some(Side::Left));
    assert_eq!(classify_pointer(DrawerConfig::TopLeft, 1, 1070, 1920, 1080), None);
    assert_eq!(classify_pointer(DrawerConfig::BottomLeft, 1, 1070, 1920, 1080), Some(Side::Left));
    assert_eq!(classify_pointer(DrawerConfig::BottomLeft, 1, 1, 1920, 1080), None);
    assert_eq!(classify_pointer(DrawerConfig::TopRight, 1919, 1, 1920, 1080), Some(Side::Right));
    assert_eq!(classify_pointer(DrawerConfig::TopRight, 1, 1, 1920, 1080), None);
    assert_eq!(classify_pointer(DrawerConfig::BottomRight, 1919, 1070, 1920, 1080), Some(Side::Right));
    assert_eq!(classify_pointer(DrawerConfig::BottomRight, 1919, 1, 1920, 1080), None);
}

#[test]
fn classification_repeats_for_same_sample() {
    for c in [DrawerConfig::LeftEdge, DrawerConfig::HotCorners, DrawerConfig::BottomRight] {
        let a = classify_pointer(c, 1917, 1075, 1920, 1080);
        let b = classify_pointer(c, 1917, 1075, 1920, 1080);
        assert_eq!(a, b);
    }
}

#[test]
fn config_names() {
    assert_eq!(DrawerConfig::parse("left"), DrawerConfig::LeftEdge);
    assert_eq!(DrawerConfig::parse("right"), DrawerConfig::RightEdge);
    assert_eq!(DrawerConfig::parse("hot-corners"), DrawerConfig::HotCorners);
    assert_eq!(DrawerConfig::parse("top-left"), DrawerConfig::TopLeft);
    assert_eq!(DrawerConfig::parse("bottom-left"), DrawerConfig::BottomLeft);
    assert_eq!(DrawerConfig::parse("top-right"), DrawerConfig::TopRight);
    assert_eq!(DrawerConfig::parse("bottom-right"), DrawerConfig::BottomRight);
    assert_eq!(DrawerConfig::parse("middle"), DrawerConfig::LeftEdge);
    assert_eq!(DrawerConfig::from_code(DrawerConfig::TopRight.code()), DrawerConfig::TopRight);
}

#[test]
fn state_transitions() {
    assert_eq!(DrawerState::Closed.next(DrawerEvent::Trigger), Some(DrawerState::Animating));
    assert_eq!(DrawerState::Open.next(DrawerEvent::Hide), Some(DrawerState::Animating));
    assert_eq!(DrawerState::Animating.next(DrawerEvent::Shown), Some(DrawerState::Open));
    assert_eq!(DrawerState::Animating.next(DrawerEvent::Hidden), Some(DrawerState::Closed));
    assert_eq!(DrawerState::Animating.next(DrawerEvent::Trigger), None);
    assert_eq!(DrawerState::Animating.next(DrawerEvent::Hide), None);
    assert_eq!(DrawerState::Open.next(DrawerEvent::Trigger), None);
    assert_eq!(DrawerState::Closed.next(DrawerEvent::Hide), None);
}

#[test]
fn second_show_claim_is_refused() {
    let d = SharedDrawer::new();
    assert_eq!(d.state(), DrawerState::Closed);
    assert_eq!(d.try_begin_show(Side::Right), Ok(()));
    assert_eq!(d.try_begin_show(Side::Left), Err(DrawerState::Animating));
    assert_eq!(d.try_begin_hide(), Err(DrawerState::Animating));
    assert_eq!(d.last_side(), Side::Right);
}

#[test]
fn full_show_hide_cycle() {
    let d = SharedDrawer::new();
    assert_eq!(d.try_begin_hide(), Err(DrawerState::Closed));
    assert_eq!(d.try_begin_show(Side::Left), Ok(()));
    assert!(d.finish_show());
    assert_eq!(d.state(), DrawerState::Open);
    assert_eq!(d.try_begin_show(Side::Right), Err(DrawerState::Open));
    assert_eq!(d.try_begin_hide(), Ok(Side::Left));
    assert_eq!(d.state(), DrawerState::Animating);
    assert!(d.finish_hide());
    assert_eq!(d.state(), DrawerState::Closed);
}

#[test]
fn pointer_sample_claims_with_configured_zone() {
    let d = SharedDrawer::new();
    assert_eq!(d.config(), DrawerConfig::LeftEdge);
    d.set_config(DrawerConfig::RightEdge);
    assert_eq!(d.config(), DrawerConfig::RightEdge);
    assert_eq!(d.on_pointer_sample(2, 300, 1920, 1080), None);
    assert_eq!(d.state(), DrawerState::Closed);
    assert_eq!(d.on_pointer_sample(1918, 300, 1920, 1080), Some(Side::Right));
    assert_eq!(d.state(), DrawerState::Animating);
    assert_eq!(d.on_pointer_sample(1918, 300, 1920, 1080), None);
}

#[test]
fn finishing_without_a_slide_changes_nothing() {
    let d = SharedDrawer::new();
    assert!(!d.finish_show());
    assert_eq!(d.state(), DrawerState::Closed);
    assert_eq!(d.try_begin_show(Side::Left), Ok(()));
    assert!(d.finish_show());
    assert!(!d.finish_hide());
    assert_eq!(d.state(), DrawerState::Open);
}
