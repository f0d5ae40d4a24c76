use path_view::view::{FACTOR_ONE, HALF_UNIT, MIN_RADIUS, UNIT};
use path_view::ViewWindow;

fn window(center: u64, radius: u64) -> ViewWindow {
    ViewWindow { center, radius, translation: 0, scaling: FACTOR_ONE }
}

#[test]
fn enforce_clamps_radius_to_half_domain() {
    let mut v = window(HALF_UNIT, UNIT);
    v.enforce_view_limits();
    assert_eq!(v.radius, HALF_UNIT);
    assert_eq!(v.center, HALF_UNIT);
}

#[test]
fn enforce_pushes_center_off_the_left_edge() {
    let mut v = window(10, 100_000);
    v.enforce_view_limits();
    assert_eq!(v.radius, 100_000);
    assert_eq!(v.center, 100_000);
}

#[test]
fn enforce_pushes_center_off_the_right_edge() {
    let mut v = window(UNIT - 10, 100_000);
    v.enforce_view_limits();
    assert_eq!(v.radius, 100_000);
    assert_eq!(v.center, UNIT - 100_000);
}

#[test]
fn enforce_is_idempotent_on_samples() {
    let samples = [
        (0u64, 0u64),
        (10, 100_000),
        (UNIT, UNIT),
        (HALF_UNIT, HALF_UNIT),
        (UNIT - 1, 3),
        (123_456_789, 400_000_000),
    ];
    for &(c, r) in samples.iter() {
        let mut once = window(c, r);
        once.enforce_view_limits();
        let mut twice = once;
        twice.enforce_view_limits();
        assert_eq!(once.center, twice.center);
        assert_eq!(once.radius, twice.radius);
    }
}

#[test]
fn enforce_lands_window_inside_domain() {
    let samples = [(0u64, UNIT), (UNIT, 1u64), (7, 400_000_000), (999_999_999, 999_999_998)];
    for &(c, r) in samples.iter() {
        let mut v = window(c, r);
        v.enforce_view_limits();
        assert!(v.radius <= HALF_UNIT);
        assert!(v.center >= v.radius);
        assert!(v.center + v.radius <= UNIT);
    }
}

#[test]
fn zoom_identity_is_a_no_op() {
    let mut v = window(HALF_UNIT, 250_000_000);
    v.scaling = 3 * FACTOR_ONE;
    let changed = v.zoom(FACTOR_ONE);
    assert!(!changed);
    assert_eq!(v.radius, 250_000_000);
    assert_eq!(v.scaling, 3 * FACTOR_ONE);
}

#[test]
fn zoom_halves_and_doubles_the_radius() {
    let mut v = window(HALF_UNIT, 400_000_000);
    let changed = v.zoom(FACTOR_ONE / 2);
    assert!(changed);
    assert_eq!(v.radius, 200_000_000);
    assert_eq!(v.scaling, FACTOR_ONE / 2);

    let changed = v.zoom(2 * FACTOR_ONE);
    assert!(changed);
    assert_eq!(v.radius, 400_000_000);
    assert_eq!(v.scaling, FACTOR_ONE);
}

#[test]
fn zoom_clamps_at_the_minimum_radius() {
    let mut v = window(HALF_UNIT, MIN_RADIUS);
    let changed = v.zoom(FACTOR_ONE / 10);
    assert!(!changed);
    assert_eq!(v.radius, MIN_RADIUS);
}

#[test]
fn zoom_clamps_at_half_the_domain() {
    let mut v = window(HALF_UNIT, HALF_UNIT);
    let changed = v.zoom(10 * FACTOR_ONE);
    assert!(!changed);
    assert_eq!(v.radius, HALF_UNIT);
}

#[test]
fn pan_accumulates_translation_and_clamps_center() {
    let mut v = window(HALF_UNIT, 100);
    v.pan(1000);
    assert_eq!(v.translation, 1000);
    assert_eq!(v.center, HALF_UNIT + 1000);

    v.pan(-2000);
    assert_eq!(v.translation, -1000);
    assert_eq!(v.center, HALF_UNIT - 1000);
}

#[test]
fn pan_cannot_leave_the_domain() {
    let mut v = window(100, 100);
    v.pan(-(UNIT as i64));
    assert_eq!(v.center, 100);
    assert_eq!(v.radius, 100);

    let mut v = window(UNIT - 100, 100);
    v.pan(UNIT as i64);
    assert_eq!(v.center, UNIT - 100);
}

#[test]
fn set_visible_range_recomputes_center_and_radius() {
    let mut v = window(0, 0);
    v.set_visible_range(200, 600);
    assert_eq!(v.center, 400);
    assert_eq!(v.radius, 200);

    // the order of the bounds does not matter
    let mut w = window(0, 0);
    w.set_visible_range(600, 200);
    assert_eq!(w.center, 400);
    assert_eq!(w.radius, 200);
}

#[test]
fn set_visible_range_clamps_to_the_domain() {
    let mut v = window(0, 0);
    v.set_visible_range(0, u64::MAX);
    assert_eq!(v.center, HALF_UNIT);
    assert_eq!(v.radius, HALF_UNIT);
}

#[test]
fn reset_zoom_covers_the_whole_domain() {
    let mut v = window(10, 10);
    v.reset_zoom();
    assert_eq!(v.center, HALF_UNIT);
    assert_eq!(v.radius, HALF_UNIT);
}

#[test]
fn default_view_covers_the_whole_domain() {
    let v = ViewWindow::default();
    assert_eq!(v.center, HALF_UNIT);
    assert_eq!(v.radius, HALF_UNIT);
    assert_eq!(v.translation, 0);
    assert_eq!(v.scaling, 0);
}

#[test]
fn zoom_with_a_huge_factor_saturates_the_scale() {
    let mut v = window(HALF_UNIT, MIN_RADIUS);
    v.scaling = u64::MAX;
    let changed = v.zoom(u64::MAX);
    assert!(changed);
    assert_eq!(v.radius, HALF_UNIT);
    assert_eq!(v.scaling, u64::MAX);
}

#[test]
fn pan_translation_saturates_at_the_integer_bounds() {
    let mut v = window(HALF_UNIT, 100);
    v.translation = i64::MAX - 5;
    v.pan(100);
    assert_eq!(v.translation, i64::MAX);

    let mut v = window(HALF_UNIT, 100);
    v.translation = i64::MIN + 5;
    v.pan(-100);
    assert_eq!(v.translation, i64::MIN);
}
