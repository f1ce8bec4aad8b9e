use dban::hot_corner::Point;
use dban::placement::{
    anchor_name, anchor_of, dock_bounds, drag_snap, peek_geometry, placement_geometry, AnchorKind, DockGeometry,
    MonitorPlacement, PlacementStore, finish_drag, snapped_placement,
};
use dban::window::{
    capsule_resize_applies, drag_should_start,
    mode_plan, monitor_at_point, monitor_key, parse_window_mode, toggle_target, window_mode_name, LogicalSize,
    ModePlan, MonitorRect, WindowMode,
};

const PANEL: (f64, f64) = (320.0, 520.0);
const CAPSULE: (f64, f64) = (220.0, 40.0);
const EDGE: f64 = 12.0;

/// The physical size, edge margin and free centre the application computes
/// from a logical size, a scale factor and a placement.
fn physical(logical: (f64, f64), scale: f64, work: MonitorRect, placement: &MonitorPlacement) -> (u32, u32, i32, i32) {
    let width = (logical.0 * scale).round().max(1.0) as u32;
    let height = (logical.1 * scale).round().max(1.0) as u32;
    let edge = (EDGE * scale).round() as i32;
    let ratio = f64::from_bits(placement.center_ratio_bits);
    let center = work.x as f64 + work.width as f64 * ratio.clamp(0.0, 1.0);
    (width, height, edge, center.round() as i32)
}

#[test]
fn docks_to_negative_origin_monitor_at_100_percent() {
    let work = MonitorRect { x: -1920, y: 0, width: 1920, height: 1040 };
    let placement = MonitorPlacement::default();
    let (w, h, edge, center) = physical(CAPSULE, 1.0, work, &placement);
    let g = placement_geometry(w, h, edge, work, &placement, center);

    assert_eq!((g.width, g.height), (220, 40));
    assert_eq!((g.x, g.y), (-232, 12));
}

#[test]
fn scales_size_and_edge_for_150_percent_monitor() {
    let work = MonitorRect { x: 1920, y: -180, width: 2560, height: 1400 };
    let placement = MonitorPlacement::default();
    let (w, h, edge, center) = physical(PANEL, 1.5, work, &placement);
    let g = placement_geometry(w, h, edge, work, &placement, center);

    assert_eq!((g.width, g.height), (480, 780));
    assert_eq!((g.x, g.y), (3982, -162));
}

#[test]
fn clamps_free_placement_inside_monitor_work_area() {
    let work = MonitorRect { x: 0, y: 0, width: 1920, height: 1040 };
    let placement = MonitorPlacement { anchor: "free".into(), center_ratio_bits: 0.5f64.to_bits() };
    let (w, h, edge, center) = physical(PANEL, 1.0, work, &placement);
    let g = placement_geometry(w, h, edge, work, &placement, center);

    assert_eq!((g.width, g.height), (320, 520));
    assert_eq!(g.x, 800);
}

#[test]
fn free_placement_is_kept_within_the_bounds() {
    let work = MonitorRect { x: 0, y: 0, width: 1920, height: 1040 };
    let near_left = MonitorPlacement { anchor: "free".into(), center_ratio_bits: 0.0f64.to_bits() };
    let (w, h, edge, center) = physical(PANEL, 1.0, work, &near_left);
    assert_eq!(placement_geometry(w, h, edge, work, &near_left, center).x, 12);
    let left = MonitorPlacement { anchor: "left".into(), center_ratio_bits: 0.5f64.to_bits() };
    assert_eq!(placement_geometry(w, h, edge, work, &left, 960).x, 12);
    let unknown = MonitorPlacement { anchor: "middle".into(), center_ratio_bits: 0.5f64.to_bits() };
    assert_eq!(placement_geometry(w, h, edge, work, &unknown, 960).x, 1588);
}

#[test]
fn right_bound_never_passes_the_left_one() {
    let narrow = MonitorRect { x: 100, y: 0, width: 200, height: 500 };
    assert_eq!(dock_bounds(narrow, 320, 12), (112, 112));
}

#[test]
fn drag_snaps_to_edges_near_them() {
    let screen = MonitorRect { x: 0, y: 0, width: 1920, height: 1080 };
    let (left, right) = dock_bounds(screen, 320, 12);
    assert_eq!(drag_snap(10, 500, screen, left, right, 18), (12, AnchorKind::Left));
    assert_eq!(drag_snap(900, 25, screen, left, right, 18), (12, AnchorKind::Left));
    assert_eq!(drag_snap(1910, 900, screen, left, right, 18), (1588, AnchorKind::Right));
    assert_eq!(drag_snap(900, 1575, screen, left, right, 18), (1588, AnchorKind::Right));
    assert_eq!(drag_snap(900, 700, screen, left, right, 18), (700, AnchorKind::Free));
    assert_eq!(anchor_name(AnchorKind::Free), "free");
    assert_eq!(anchor_of("left"), AnchorKind::Left);
    assert_eq!(anchor_of("anything"), AnchorKind::Right);
}

#[test]
fn store_reads_back_what_was_inserted() {
    let mut store = PlacementStore::new();
    assert_eq!(store.get_or_default("DISPLAY1").anchor, "right");
    assert_eq!(store.get_or_default("DISPLAY1").center_ratio_bits, 1.0f64.to_bits());
    store.insert("DISPLAY1".into(), MonitorPlacement { anchor: "free".into(), center_ratio_bits: 0.25f64.to_bits() });
    store.insert("DISPLAY2".into(), MonitorPlacement { anchor: "left".into(), center_ratio_bits: 0 });
    store.insert("DISPLAY1".into(), MonitorPlacement { anchor: "left".into(), center_ratio_bits: 7 });
    let p = store.get_or_default("DISPLAY1");
    assert_eq!((p.anchor.as_str(), p.center_ratio_bits), ("left", 7));
    assert_eq!(store.get_or_default("DISPLAY2").anchor, "left");
    assert_eq!(store.get_or_default("DISPLAY3").anchor, "right");
    assert_eq!(store.entries().len(), 2);
    let again = PlacementStore::from_entries(store.entries());
    assert_eq!(again.get_or_default("DISPLAY1").center_ratio_bits, 7);
}

#[test]
fn modes_parse_and_plan() {
    assert_eq!(parse_window_mode("panel"), Some(WindowMode::Panel));
    assert_eq!(parse_window_mode("capsule"), Some(WindowMode::Capsule));
    assert_eq!(parse_window_mode("hidden"), Some(WindowMode::Hidden));
    assert_eq!(parse_window_mode("peek"), Some(WindowMode::Peek));
    assert_eq!(parse_window_mode("Peek"), None);
    assert_eq!(window_mode_name(WindowMode::Peek), "peek");
    assert_eq!(window_mode_name(WindowMode::Capsule), "capsule");
    assert_eq!(mode_plan("panel"), Ok(ModePlan::Show(LogicalSize { width: 320, height: 520 })));
    assert_eq!(mode_plan("capsule"), Ok(ModePlan::Show(LogicalSize { width: 220, height: 40 })));
    assert_eq!(mode_plan("hidden"), Ok(ModePlan::Hide));
    assert_eq!(mode_plan("peek"), Ok(ModePlan::Peek(LogicalSize { width: 320, height: 520 })));
    assert_eq!(mode_plan("expanded"), Err("unknown mode: expanded".to_string()));
}

#[test]
fn toggling_hides_the_panel_and_shows_it_otherwise() {
    assert_eq!(toggle_target("panel"), WindowMode::Hidden);
    assert_eq!(toggle_target("hidden"), WindowMode::Panel);
    assert_eq!(toggle_target("capsule"), WindowMode::Panel);
    let back = toggle_target(&window_mode_name(toggle_target("panel")));
    assert_eq!(back, WindowMode::Panel);
}

#[test]
fn finds_the_monitor_under_the_cursor() {
    let monitors = vec![
        MonitorRect { x: -1920, y: 0, width: 1920, height: 1080 },
        MonitorRect { x: 0, y: 0, width: 2560, height: 1440 },
    ];
    assert_eq!(monitor_at_point(&monitors, Point { x: -1, y: 0 }), Some(0));
    assert_eq!(monitor_at_point(&monitors, Point { x: 0, y: 1439 }), Some(1));
    assert_eq!(monitor_at_point(&monitors, Point { x: 0, y: 1440 }), None);
    assert_eq!(monitor_at_point(&monitors, Point { x: 2560, y: 5 }), None);
}

#[test]
fn monitor_keys_fall_back_to_geometry() {
    let r = MonitorRect { x: -1920, y: 0, width: 1920, height: 1080 };
    assert_eq!(monitor_key(None, r), "-1920:0:1920x1080");
    assert_eq!(monitor_key(Some("\\\\.\\DISPLAY1"), r), "\\\\.\\DISPLAY1");
    let s = MonitorRect { x: i32::MIN, y: 7, width: u32::MAX, height: 0 };
    assert_eq!(monitor_key(None, s), format!("{}:7:{}x0", i32::MIN, u32::MAX));
}

#[test]
fn peeking_raises_the_panel_to_its_bottom_strip() {
    let g = DockGeometry { width: 320, height: 520, x: 1588, y: 12 };
    let p = peek_geometry(g, 0, 16);
    assert_eq!(p, DockGeometry { width: 320, height: 520, x: 1588, y: -504 });
    assert_eq!(p.y + p.height as i32, 16);
    let q = peek_geometry(DockGeometry { width: 480, height: 780, x: 3982, y: -162 }, -180, 24);
    assert_eq!(q.y, -180 + 24 - 780);
}

#[test]
fn a_drag_remembers_only_its_last_placement() {
    let mut store = PlacementStore::new();
    store.insert("DISPLAY2".into(), MonitorPlacement { anchor: "left".into(), center_ratio_bits: 0 });
    let p = snapped_placement(AnchorKind::Free, 0.5f64.to_bits());
    assert_eq!(p.anchor, "free");
    finish_drag(&mut store, Some(("DISPLAY1".into(), p)));
    assert_eq!(store.get_or_default("DISPLAY1").anchor, "free");
    assert_eq!(store.get_or_default("DISPLAY1").center_ratio_bits, 0.5f64.to_bits());
    assert_eq!(store.get_or_default("DISPLAY2").anchor, "left");
    finish_drag(&mut store, None);
    assert_eq!(store.entries().len(), 2);
}

#[test]
fn drags_and_capsule_resizes_act_only_in_their_modes() {
    assert!(drag_should_start("panel", false));
    assert!(!drag_should_start("panel", true));
    assert!(!drag_should_start("capsule", false));
    assert!(capsule_resize_applies("capsule"));
    assert!(!capsule_resize_applies("panel"));
}
