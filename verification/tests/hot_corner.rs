use dban::hot_corner::{
    corner_applied, corner_step, corner_timers_new, cursor_hit, point_in_peek_surface, point_in_top_zone,
    CornerMode, CornerRequest, CursorHit, HitGeometry, Point,
};

#[test]
fn detects_remembered_zone_on_negative_origin_monitor() {
    assert!(point_in_top_zone(Point { x: -500, y: 0 }, 0, -600, -200));
    assert!(point_in_top_zone(Point { x: -201, y: 7 }, 0, -600, -200));
    assert!(!point_in_top_zone(Point { x: -601, y: 7 }, 0, -600, -200));
    assert!(!point_in_top_zone(Point { x: -500, y: 8 }, 0, -600, -200));
}

#[test]
fn respects_monitor_vertical_origin() {
    assert!(point_in_top_zone(Point { x: 2559, y: -200 }, -200, 2200, 2600));
    assert!(!point_in_top_zone(Point { x: 2559, y: -201 }, -200, 2200, 2600));
}

#[test]
fn supports_configurable_zone_width() {
    assert!(point_in_top_zone(Point { x: 400, y: 3 }, 0, 200, 600));
    assert!(!point_in_top_zone(Point { x: 199, y: 3 }, 0, 200, 600));
    assert!(!point_in_top_zone(Point { x: 600, y: 3 }, 0, 200, 600));
}

#[test]
fn detects_pointer_over_visible_peek_surface() {
    assert!(point_in_peek_surface(Point { x: 1600, y: 15 }, 0, 1500, 320, 16));
    assert!(!point_in_peek_surface(Point { x: 1600, y: 16 }, 0, 1500, 320, 16));
    assert!(!point_in_peek_surface(Point { x: 1499, y: 8 }, 0, 1500, 320, 16));
}

#[test]
fn peek_surface_is_at_least_one_pixel_high() {
    assert!(point_in_peek_surface(Point { x: 10, y: 0 }, 0, 0, 20, 0));
    assert!(!point_in_peek_surface(Point { x: 10, y: 1 }, 0, 0, 20, -5));
}

#[test]
fn trigger_strip_is_centred_on_the_panel() {
    let g = HitGeometry { monitor_top: 0, panel_x: 1000, panel_width: 320, peek_height: 16, zone_width: 360 };
    // centre 1160, strip [980, 1340)
    let hit = cursor_hit(Point { x: 980, y: 2 }, Some(g), false);
    assert!(hit.top_zone && !hit.peek_surface);
    let hit = cursor_hit(Point { x: 1339, y: 7 }, Some(g), false);
    assert!(hit.top_zone);
    let hit = cursor_hit(Point { x: 1340, y: 7 }, Some(g), false);
    assert!(!hit.top_zone);
    let hit = cursor_hit(Point { x: 1100, y: 10 }, Some(g), false);
    assert!(!hit.top_zone && hit.peek_surface);
    let hit = cursor_hit(Point { x: 1100, y: 2 }, Some(g), true);
    assert!(!hit.top_zone && !hit.peek_surface);
    let hit = cursor_hit(Point { x: 1100, y: 2 }, None, false);
    assert!(!hit.top_zone && !hit.peek_surface);
}

const MS: u64 = 1_000_000;

#[test]
fn reveal_waits_for_the_dwell_and_spaces_retries() {
    let zone = CursorHit { top_zone: true, peek_surface: false };
    let away = CursorHit { top_zone: false, peek_surface: false };
    let t = corner_timers_new();
    let (t, r) = corner_step(t, CornerMode::Hidden, zone, 1000 * MS, 250);
    assert_eq!(r, None);
    assert_eq!(t.dwell_started, Some(1000 * MS));
    let (t, r) = corner_step(t, CornerMode::Hidden, zone, 1249 * MS, 250);
    assert_eq!(r, None);
    let (t, r) = corner_step(t, CornerMode::Hidden, zone, 1250 * MS, 250);
    assert_eq!(r, Some(CornerRequest::Peek));
    assert_eq!(t.last_attempt, Some(1250 * MS));
    // the reveal failed: no new attempt for 180 ms
    let t = corner_applied(t, CornerRequest::Peek, false);
    let (t, r) = corner_step(t, CornerMode::Hidden, zone, 1429 * MS, 250);
    assert_eq!(r, None);
    let (t, r) = corner_step(t, CornerMode::Hidden, zone, 1430 * MS, 250);
    assert_eq!(r, Some(CornerRequest::Peek));
    let t = corner_applied(t, CornerRequest::Peek, true);
    assert_eq!(t.dwell_started, None);
    assert_eq!(t.last_attempt, None);
    // leaving the strip clears the dwell
    let (t, _) = corner_step(t, CornerMode::Hidden, zone, 2000 * MS, 250);
    let (t, r) = corner_step(t, CornerMode::Hidden, away, 2100 * MS, 250);
    assert_eq!(r, None);
    assert_eq!(t.dwell_started, None);
}

#[test]
fn peek_hides_after_the_cursor_stays_away() {
    let away = CursorHit { top_zone: false, peek_surface: false };
    let over = CursorHit { top_zone: false, peek_surface: true };
    let t = corner_timers_new();
    let (t, r) = corner_step(t, CornerMode::Peek, away, 0, 250);
    assert_eq!(r, None);
    let (t, r) = corner_step(t, CornerMode::Peek, away, 419 * MS, 250);
    assert_eq!(r, None);
    let (t, r) = corner_step(t, CornerMode::Peek, over, 420 * MS, 250);
    assert_eq!(r, None);
    assert_eq!(t.leave_started, None);
    let (t, _) = corner_step(t, CornerMode::Peek, away, 500 * MS, 250);
    let (t, r) = corner_step(t, CornerMode::Peek, away, 920 * MS, 250);
    assert_eq!(r, Some(CornerRequest::Hidden));
    let t = corner_applied(t, CornerRequest::Hidden, true);
    assert_eq!(t.leave_started, None);
    let (t, r) = corner_step(t, CornerMode::Other, away, 1000 * MS, 250);
    assert_eq!(r, None);
    assert_eq!(t.dwell_started, None);
}
