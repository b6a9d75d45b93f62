use quota_float::geometry::{
    clamp_position_to_monitor, collapse_geometry, collapsed_geometry_for_expand, detect_dock,
    drag_mode_at_start, expand_geometry, expanded_position, expanded_position_in_bounds,
    finish_drag, infer_mode, preview_fits, preview_position, snap_position, window_size_for_visual_size,
    Area, DockState,
    HorizontalDock, Position, Size, VerticalDock, WidgetGeometryState, WidgetMode, WidgetRect,
};

fn rect(x: i32, y: i32, size: u32) -> WidgetRect {
    WidgetRect { position: Position { x, y }, size: Size { width: size, height: size } }
}

fn area(x: i32, y: i32, width: u32, height: u32) -> Area {
    Area { position: Position { x, y }, size: Size { width, height } }
}

fn square(side: u32) -> Size {
    Size { width: side, height: side }
}

/// Physical pixels of a logical length at a scale factor, as the widget
/// rounds them.
fn physical(logical: f64, scale: f64) -> u32 {
    if logical <= 0.0 {
        0
    } else {
        (logical * scale).round().max(1.0) as u32
    }
}

#[test]
fn window_size_includes_the_transparent_safe_inset() {
    assert_eq!(window_size_for_visual_size(80, 4), 88);
    assert_eq!(window_size_for_visual_size(physical(320.0, 1.5), 6), 492);
    assert_eq!(physical(0.0, 1.5), 0);
    assert_eq!(window_size_for_visual_size(physical(80.0, 1.0), physical(0.0, 1.0)), 80);
}

#[test]
fn expansion_stays_above_a_bottom_taskbar() {
    let position = expanded_position_in_bounds(
        rect(1812, 952, 88),
        square(328),
        DockState { horizontal: Some(HorizontalDock::Right), vertical: Some(VerticalDock::Bottom) },
        Position { x: 0, y: 0 },
        Size { width: 1920, height: 1040 },
        4,
    );
    assert_eq!(position, Position { x: 1572, y: 712 });
}

#[test]
fn expansion_handles_negative_origin_work_areas() {
    let position = expanded_position_in_bounds(
        rect(-1284, -4, 88),
        square(328),
        DockState { horizontal: Some(HorizontalDock::Left), vertical: Some(VerticalDock::Top) },
        Position { x: -1280, y: 0 },
        Size { width: 1280, height: 984 },
        4,
    );
    assert_eq!(position, Position { x: -1284, y: -4 });
}

#[test]
fn undocked_expansion_flips_inward_near_work_area_edges() {
    let position = expanded_position_in_bounds(
        rect(1750, 900, 88),
        square(328),
        DockState::undocked(),
        Position { x: 0, y: 0 },
        Size { width: 1920, height: 1040 },
        4,
    );
    assert_eq!(position, Position { x: 1510, y: 660 });
}

#[test]
fn expansion_larger_than_the_bounds_keeps_the_top_left_corner() {
    let position = expanded_position_in_bounds(
        rect(100, 100, 80),
        Size { width: 400, height: 300 },
        DockState::undocked(),
        Position { x: 0, y: 0 },
        Size { width: 300, height: 200 },
        0,
    );
    assert_eq!(position, Position { x: 0, y: 0 });
}

#[test]
fn expanded_position_prefers_the_work_area() {
    let monitor = area(0, 0, 1920, 1080);
    let work = area(0, 0, 1920, 1040);
    let collapsed = rect(1840, 1000, 80);
    let dock = DockState { horizontal: Some(HorizontalDock::Right), vertical: Some(VerticalDock::Bottom) };
    assert_eq!(expanded_position(collapsed, square(320), dock, monitor, Some(work), 0), Position { x: 1600, y: 720 });
    assert_eq!(expanded_position(collapsed, square(320), dock, monitor, None, 0), Position { x: 1600, y: 760 });
}

#[test]
fn clamps_onto_the_monitor() {
    let monitor = area(0, 0, 1920, 1080);
    assert_eq!(clamp_position_to_monitor(Position { x: -50, y: 2000 }, square(80), monitor, 0), Position { x: 0, y: 1000 });
    assert_eq!(clamp_position_to_monitor(Position { x: -50, y: -50 }, square(80), monitor, 4), Position { x: -4, y: -4 });
    assert_eq!(clamp_position_to_monitor(Position { x: 500, y: 400 }, square(80), monitor, 0), Position { x: 500, y: 400 });
}

#[test]
fn detects_and_snaps_to_near_edges() {
    let monitor = area(0, 0, 1920, 1080);
    let near_right_top = Position { x: 1830, y: 10 };
    let dock = detect_dock(near_right_top, square(80), monitor, 24, 0);
    assert_eq!(dock, DockState { horizontal: Some(HorizontalDock::Right), vertical: Some(VerticalDock::Top) });
    assert!(dock.is_docked());
    assert_eq!(snap_position(near_right_top, square(80), dock, monitor, 0), Position { x: 1840, y: 0 });
    let middle = detect_dock(Position { x: 900, y: 500 }, square(80), monitor, 24, 0);
    assert_eq!(middle, DockState::undocked());
    assert!(!middle.is_docked());
    assert_eq!(snap_position(Position { x: 900, y: 500 }, square(80), middle, monitor, 0), Position { x: 900, y: 500 });
}

#[test]
fn infers_the_mode_from_the_size() {
    assert_eq!(infer_mode(rect(0, 0, 82), square(80)), WidgetMode::Collapsed);
    assert_eq!(infer_mode(rect(0, 0, 83), square(80)), WidgetMode::Expanded);
    assert_eq!(drag_mode_at_start(None, rect(0, 0, 320), square(80)), WidgetMode::Expanded);
}

#[test]
fn expanding_from_a_fresh_widget_docks_it() {
    let monitor = area(0, 0, 1920, 1080);
    let (collapsed, dock) = collapsed_geometry_for_expand(Position { x: 1850, y: 1010 }, square(80), monitor, 24, 0, None);
    assert_eq!(collapsed, rect(1840, 1000, 80));
    assert_eq!(dock, DockState { horizontal: Some(HorizontalDock::Right), vertical: Some(VerticalDock::Bottom) });
}

#[test]
fn expand_then_collapse_returns_to_the_anchor() {
    let monitor = area(0, 0, 1920, 1080);
    let collapsed = collapse_geometry(Position { x: 1830, y: 500 }, square(80), monitor, 24, 0, None);
    assert_eq!(collapsed.collapsed_rect, rect(1840, 500, 80));
    assert_eq!(collapsed.mode, WidgetMode::Collapsed);
    let expanded = expand_geometry(Position { x: 1840, y: 500 }, square(80), square(320), monitor, 24, 0, Some(collapsed), None);
    assert_eq!(expanded.mode, WidgetMode::Expanded);
    assert_eq!(expanded.expanded_rect, Some(WidgetRect { position: Position { x: 1600, y: 500 }, size: square(320) }));
    let again = collapse_geometry(Position { x: 1600, y: 500 }, square(80), monitor, 24, 0, Some(expanded));
    assert_eq!(again.collapsed_rect, collapsed.collapsed_rect);
    assert_eq!(again.dock, collapsed.dock);
    assert_eq!(again.expanded_rect, None);
}

#[test]
fn dragging_the_expanded_panel_moves_the_anchor() {
    let monitor = area(0, 0, 1920, 1080);
    let previous = WidgetGeometryState {
        mode: WidgetMode::Expanded,
        dock: DockState::undocked(),
        collapsed_rect: rect(500, 500, 80),
        expanded_rect: Some(WidgetRect { position: Position { x: 500, y: 500 }, size: square(320) }),
        user_moved_expanded: false,
    };
    let current = WidgetRect { position: Position { x: 1800, y: 300 }, size: square(320) };
    let (position, geometry) =
        finish_drag(current, square(80), square(320), monitor, 24, 0, Some(WidgetMode::Expanded), Some(previous));
    assert_eq!(position, Position { x: 1600, y: 300 });
    let geometry = geometry.unwrap();
    assert!(geometry.user_moved_expanded);
    assert_eq!(geometry.collapsed_rect, rect(500, 500, 80));
    let collapsed = collapse_geometry(position, square(80), monitor, 24, 0, Some(geometry));
    assert_eq!(collapsed.collapsed_rect.position, Position { x: 1600, y: 300 });
    let (position, none) =
        finish_drag(current, square(80), square(320), monitor, 24, 0, Some(WidgetMode::Expanded), None);
    assert_eq!(position, Position { x: 1600, y: 300 });
    assert!(none.is_none());
}

#[test]
fn dropping_the_collapsed_widget_docks_it() {
    let monitor = area(0, 0, 1920, 1080);
    let current = rect(5, 700, 80);
    let (position, geometry) = finish_drag(current, square(80), square(320), monitor, 24, 0, None, None);
    assert_eq!(position, Position { x: 0, y: 700 });
    let geometry = geometry.unwrap();
    assert_eq!(geometry.dock, DockState { horizontal: Some(HorizontalDock::Left), vertical: None });
    assert_eq!(geometry.mode, WidgetMode::Collapsed);
}

#[test]
fn tray_preview_stays_on_the_monitor() {
    let monitor = area(0, 0, 1920, 1080);
    assert!(preview_fits(210, monitor));
    assert_eq!(preview_position(1800, 900, 1010, 210, Some(monitor)), Position { x: 1706, y: 900 });
    assert_eq!(preview_position(-20, 2, 40, 210, Some(monitor)), Position { x: 4, y: 40 });
    assert_eq!(preview_position(-20, 2, 40, 210, None), Position { x: -20, y: 2 });
    assert!(!preview_fits(1915, monitor));
}

#[test]
fn settling_twice_changes_nothing() {
    let monitor = area(-1280, 0, 1280, 1024);
    let size = square(88);
    for (x, y) in [(-1300, -50), (-1270, 500), (-10, 1000), (-600, 400), (5000, 5000)] {
        let p = Position { x, y };
        let once = clamp_position_to_monitor(p, size, monitor, 4);
        assert_eq!(clamp_position_to_monitor(once, size, monitor, 4), once);
        let dock = detect_dock(once, size, monitor, 24, 4);
        let snapped = snap_position(once, size, dock, monitor, 4);
        assert_eq!(snap_position(snapped, size, dock, monitor, 4), snapped);
        assert_eq!(detect_dock(snapped, size, monitor, 24, 4), dock);
    }
}
