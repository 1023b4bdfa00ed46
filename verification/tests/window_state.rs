use x_gettsu::window_state::{
    capture_transition, compute_restore_geometry, is_visible_enough, overlap_extent,
    position_of_work_area, restore_inputs_valid, select_restore_target, MaximizeTracker, MonitorArea,
    Rect, WindowObservation, WindowState,
};

// A remembered placement at the given position and size and scale factor, not maximized.
fn ws(x: i32, y: i32, width: u32, height: u32, scale: f64) -> WindowState<f64> {
    WindowState { x, y, width, height, maximized: false, scale }
}

// The monitors as the restore rules see them: each work area with the remembered size
// converted from the remembered scale factor to the monitor's, rounded to whole pixels.
fn areas(state: &WindowState<f64>, monitors: &[(Rect, f64)]) -> Vec<MonitorArea> {
    let mut out = Vec::new();
    for &(work, scale) in monitors {
        let ratio = if state.scale > 0.0 { scale / state.scale } else { 1.0 };
        out.push(MonitorArea {
            work,
            scaled_width: ((state.width as f64) * ratio).round() as i32,
            scaled_height: ((state.height as f64) * ratio).round() as i32,
        });
    }
    out
}

fn restore(state: WindowState<f64>, monitors: &[(Rect, f64)], primary: Option<usize>) -> Rect {
    let areas = areas(&state, monitors);
    assert!(restore_inputs_valid(&state, &areas, primary));
    compute_restore_geometry(&state, &areas, primary)
}

#[test]
fn restore_keeps_position_when_unchanged() {
    let monitors = [((0, 0, 1920, 1080), 1.0)];
    let got = restore(ws(100, 100, 800, 600, 1.0), &monitors, Some(0));
    assert_eq!(got, (100, 100, 800, 600));
}

#[test]
fn restore_keeps_position_on_secondary_monitor() {
    let monitors = [((0, 0, 1920, 1080), 1.0), ((1920, 0, 1920, 1080), 1.0)];
    let got = restore(ws(2000, 100, 800, 600, 1.0), &monitors, Some(0));
    assert_eq!(got, (2000, 100, 800, 600));
}

#[test]
fn restore_relocates_when_monitor_removed() {
    let monitors = [((0, 0, 1920, 1080), 1.0)];
    let (x, y, w, h) = restore(ws(2100, 200, 800, 600, 1.0), &monitors, Some(0));
    assert_eq!((w, h), (800, 600));
    assert!(x >= 0 && x + w <= 1920);
    assert!(y >= 0 && y + h <= 1080);
}

#[test]
fn restore_relocates_after_resolution_shrink() {
    let monitors = [((0, 0, 1280, 720), 1.0)];
    let (x, y, w, h) = restore(ws(1500, 900, 400, 300, 1.0), &monitors, Some(0));
    assert_eq!((w, h), (400, 300));
    assert!(x >= 0 && x + w <= 1280);
    assert!(y >= 0 && y + h <= 720);
}

#[test]
fn restore_rescales_size_on_dpi_change() {
    let monitors = [((0, 0, 2560, 1440), 1.5)];
    let got = restore(ws(100, 100, 800, 600, 1.0), &monitors, Some(0));
    assert_eq!(got, (100, 100, 1200, 900));
}

#[test]
fn restore_clamps_oversized_window() {
    let monitors = [((0, 0, 1920, 1080), 1.0)];
    let (_, _, w, h) = restore(ws(0, 0, 3000, 2000, 1.0), &monitors, Some(0));
    assert_eq!((w, h), (1920, 1080));
}

#[test]
fn restore_pulls_down_offscreen_titlebar() {
    let monitors = [((0, 0, 1920, 1080), 1.0)];
    let (x, y, w, h) = restore(ws(100, -500, 800, 600, 1.0), &monitors, Some(0));
    assert_eq!((x, w, h), (100, 800, 600));
    assert!(y >= 0 && y + h <= 1080);
}

#[test]
fn restore_passes_through_without_monitors() {
    let got = restore(ws(50, 60, 800, 600, 1.0), &[], None);
    assert_eq!(got, (50, 60, 800, 600));
}

#[test]
fn relocation_clamps_to_left_top_edges_exactly() {
    let monitors = [((0, 0, 1920, 1080), 1.0)];
    assert_eq!(restore(ws(2100, 200, 800, 600, 1.0), &monitors, Some(0)), (1120, 200, 800, 600));
    assert_eq!(restore(ws(-5000, -5000, 800, 600, 1.0), &monitors, Some(0)), (0, 0, 800, 600));
}

#[test]
fn tiny_window_grows_to_minimum_grabbable_size() {
    let monitors = [((0, 0, 1920, 1080), 1.0)];
    assert_eq!(restore(ws(10, 10, 50, 20, 1.0), &monitors, Some(0)), (10, 10, 120, 60));
}

#[test]
fn restore_prefers_monitor_with_largest_overlap() {
    // Overlaps the second monitor more; that monitor's work area is smaller.
    let monitors = [((0, 0, 1920, 1080), 1.0), ((1920, 0, 1000, 700), 1.0)];
    let (_, _, w, h) = restore(ws(1800, 100, 1200, 900, 1.0), &monitors, Some(0));
    assert_eq!((w, h), (1000, 700));
}

#[test]
fn restore_falls_back_to_primary_then_first_monitor() {
    let state = ws(5000, 5000, 800, 600, 1.0);
    let monitors = [((0, 0, 1920, 1080), 1.0), ((1920, 0, 1280, 720), 2.0)];
    let areas = areas(&state, &monitors);
    assert_eq!(select_restore_target((5000, 5000, 800, 600), &areas, Some(1)), Some(1));
    assert_eq!(select_restore_target((5000, 5000, 800, 600), &areas, None), Some(0));
    assert_eq!(select_restore_target((5000, 5000, 800, 600), &[], None), None);
    // On the primary (scale 2.0) the size doubles, then is cut to its work area.
    assert_eq!(restore(state, &monitors, Some(1)), (1920, 0, 1280, 720));
}

#[test]
fn equal_overlaps_pick_the_last_monitor() {
    let state = ws(900, 0, 200, 200, 1.0);
    let monitors = [((0, 0, 1000, 1000), 1.0), ((1000, 0, 1000, 1000), 1.0)];
    let areas = areas(&state, &monitors);
    assert_eq!(select_restore_target((900, 0, 200, 200), &areas, Some(0)), Some(1));
}

#[test]
fn out_of_range_primary_is_reported() {
    let state = ws(5000, 5000, 800, 600, 1.0);
    let monitors = [((0, 0, 1920, 1080), 1.0)];
    let areas = areas(&state, &monitors);
    assert!(!restore_inputs_valid(&state, &areas, Some(3)));
    // A primary index is only needed where nothing overlaps.
    let near = ws(100, 100, 800, 600, 1.0);
    assert!(restore_inputs_valid(&near, &areas, Some(3)));
}

#[test]
fn overlap_extent_of_rectangles() {
    assert_eq!(overlap_extent((0, 0, 100, 100), (50, 25, 100, 100)), (50, 75));
    assert_eq!(overlap_extent((0, 0, 100, 100), (200, 0, 100, 100)), (0, 100));
    assert_eq!(overlap_extent((i32::MIN, 0, 0, 10), (i32::MAX, 0, 0, 10)), (0, 10));
}

#[test]
fn visibility_requires_reachable_title_bar() {
    let monitors = [MonitorArea { work: (0, 0, 1920, 1080), scaled_width: 0, scaled_height: 0 }];
    assert!(is_visible_enough((100, 100, 800, 600), &monitors));
    // Enough overlap, but the title bar is above the work area.
    assert!(!is_visible_enough((100, -10, 800, 600), &monitors));
    // Title bar too close to the bottom edge.
    assert!(!is_visible_enough((100, 1030, 800, 600), &monitors));
    assert!(is_visible_enough((100, 1020, 800, 600), &monitors));
    // Too little overlap horizontally.
    assert!(!is_visible_enough((1850, 100, 800, 600), &monitors));
}

#[test]
fn primary_monitor_found_by_work_area() {
    let monitors = [
        MonitorArea { work: (0, 0, 1920, 1080), scaled_width: 0, scaled_height: 0 },
        MonitorArea { work: (1920, 0, 1920, 1080), scaled_width: 0, scaled_height: 0 },
    ];
    assert_eq!(position_of_work_area(&monitors, (1920, 0, 1920, 1080)), Some(1));
    assert_eq!(position_of_work_area(&monitors, (0, 0, 1, 1)), None);
}

#[test]
fn capture_while_maximized_keeps_normal_bounds() {
    let last = Some(ws(10, 20, 800, 600, 1.25));
    let after = capture_transition(last, WindowObservation::Maximized).unwrap();
    assert_eq!((after.x, after.y, after.width, after.height), (10, 20, 800, 600));
    assert!(after.maximized);
    assert_eq!(after.scale, 1.25);
    assert!(capture_transition::<f64>(None, WindowObservation::Maximized).is_none());
}

#[test]
fn capture_ignores_minimized_and_unreadable_windows() {
    let last = Some(ws(10, 20, 800, 600, 1.0));
    let a = capture_transition(last, WindowObservation::Minimized).unwrap();
    assert_eq!((a.x, a.y, a.width, a.height, a.maximized), (10, 20, 800, 600, false));
    let b = capture_transition(last, WindowObservation::Unavailable).unwrap();
    assert_eq!((b.x, b.y), (10, 20));
}

#[test]
fn capture_of_normal_window_replaces_state() {
    let mut last = ws(10, 20, 800, 600, 1.0);
    last.maximized = true;
    let obs = WindowObservation::Normal { x: -5, y: 7, width: 1024, height: 768, scale: 1.5 };
    let s = capture_transition(Some(last), obs).unwrap();
    assert_eq!((s.x, s.y, s.width, s.height, s.maximized, s.scale), (-5, 7, 1024, 768, false, 1.5));
}

#[test]
fn maximize_tracker_reports_changes_only() {
    let mut t = MaximizeTracker::new(false);
    assert!(!t.observe(false));
    assert!(t.observe(true));
    assert!(!t.observe(true));
    assert!(t.observe(false));
}
