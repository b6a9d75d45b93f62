//! Placement of the floating widget on a monitor: clamping it onto the
//! screen, docking it to the edges it was dropped near, and choosing where
//! the expanded panel opens so that it stays inside the work area.
//!
//! Coordinates are physical pixels. Positions are `i32` and sizes `u32`, as
//! the windowing system reports them; every function states, as its
//! `requires`, that the `i32` arithmetic it performs does not overflow.

use vstd::prelude::*;

verus! {

/// A window or monitor origin.
#[derive(Clone, Copy, Debug, PartialEq, Eq, Structural)]
pub struct Position {
    pub x: i32,
    pub y: i32,
}

/// A window or monitor extent.
#[derive(Clone, Copy, Debug, PartialEq, Eq, Structural)]
pub struct Size {
    pub width: u32,
    pub height: u32,
}

/// A rectangle of the screen: a monitor or its work area.
#[derive(Clone, Copy, Debug, PartialEq, Eq, Structural)]
pub struct Area {
    pub position: Position,
    pub size: Size,
}

/// The outer rectangle of the widget window.
#[derive(Clone, Copy, Debug, PartialEq, Eq, Structural)]
pub struct WidgetRect {
    pub position: Position,
    pub size: Size,
}

#[derive(Clone, Copy, Debug, PartialEq, Eq, Structural)]
pub enum HorizontalDock {
    Left,
    Right,
}

#[derive(Clone, Copy, Debug, PartialEq, Eq, Structural)]
pub enum VerticalDock {
    Top,
    Bottom,
}

/// The monitor edges the widget is docked to, at most one per axis.
#[derive(Clone, Copy, Debug, PartialEq, Eq, Structural)]
pub struct DockState {
    pub horizontal: Option<HorizontalDock>,
    pub vertical: Option<VerticalDock>,
}

impl DockState {
    /// The state that is docked to no edge.
    pub fn undocked() -> (r: DockState)
        ensures
            r.horizontal is None,
            r.vertical is None,
    {
        DockState { horizontal: None, vertical: None }
    }

    /// Docked to at least one edge.
    pub fn is_docked(self) -> (b: bool)
        ensures
            b == (self.horizontal is Some || self.vertical is Some),
    {
        self.horizontal.is_some() || self.vertical.is_some()
    }
}

/// The value lies in the range of `i32`.
pub open spec fn fits(v: int) -> bool {
    i32::MIN <= v <= i32::MAX
}

/// The value and its negation both lie in the range of `i32`, so that its
/// absolute value can be taken.
pub open spec fn abs_fits(v: int) -> bool {
    -i32::MAX <= v <= i32::MAX
}

pub open spec fn abs(v: int) -> int {
    if v < 0 {
        -v
    } else {
        v
    }
}

/// `v` brought into `lo..=hi` (`Ord::clamp`, for `lo <= hi`).
pub open spec fn clamp_int(v: int, lo: int, hi: int) -> int {
    if v < lo {
        lo
    } else if v > hi {
        hi
    } else {
        v
    }
}

/// Each side of the size converts to `i32` without changing.
pub open spec fn sized(s: Size) -> bool {
    s.width <= i32::MAX && s.height <= i32::MAX
}

pub open spec fn right_of(a: Area) -> int {
    a.position.x + a.size.width
}

pub open spec fn bottom_of(a: Area) -> int {
    a.position.y + a.size.height
}

/// The least `x` of a window kept on the monitor.
pub open spec fn min_x(m: Area, inset: int) -> int {
    m.position.x - inset
}

/// The least `y` of a window kept on the monitor.
pub open spec fn min_y(m: Area, inset: int) -> int {
    m.position.y - inset
}

/// The greatest `x` of a window of size `s` kept on the monitor.
pub open spec fn max_x(s: Size, m: Area, inset: int) -> int {
    right_of(m) - s.width + inset
}

/// The greatest `y` of a window of size `s` kept on the monitor.
pub open spec fn max_y(s: Size, m: Area, inset: int) -> int {
    bottom_of(m) - s.height + inset
}

/// A window of size `s` can be clamped onto the monitor without overflow,
/// and fits on it: the clamp range is not empty.
pub open spec fn clamp_ok(s: Size, m: Area, inset: int) -> bool {
    &&& sized(s)
    &&& sized(m.size)
    &&& fits(right_of(m))
    &&& fits(bottom_of(m))
    &&& fits(min_x(m, inset))
    &&& fits(min_y(m, inset))
    &&& fits(right_of(m) - s.width)
    &&& fits(bottom_of(m) - s.height)
    &&& fits(max_x(s, m, inset))
    &&& fits(max_y(s, m, inset))
    &&& min_x(m, inset) <= max_x(s, m, inset)
    &&& min_y(m, inset) <= max_y(s, m, inset)
}

/// The position of a window of size `s` moved onto the monitor.
pub open spec fn clamped(p: Position, s: Size, m: Area, inset: int) -> Position {
    Position {
        x: clamp_int(p.x as int, min_x(m, inset), max_x(s, m, inset)) as i32,
        y: clamp_int(p.y as int, min_y(m, inset), max_y(s, m, inset)) as i32,
    }
}

/// The window lies on the monitor, the transparent inset allowed past each
/// edge.
pub open spec fn on_monitor(p: Position, s: Size, m: Area, inset: int) -> bool {
    &&& min_x(m, inset) <= p.x <= max_x(s, m, inset)
    &&& min_y(m, inset) <= p.y <= max_y(s, m, inset)
}

/// Moves a window of size `size` onto the monitor: each coordinate is
/// clamped so that the window, less its transparent inset, lies on it.
pub fn clamp_position_to_monitor(position: Position, size: Size, monitor: Area, safe_inset: i32) -> (r:
    Position)
    requires
        clamp_ok(size, monitor, safe_inset as int),
    ensures
        r == clamped(position, size, monitor, safe_inset as int),
        on_monitor(r, size, monitor, safe_inset as int),
{
    let left = monitor.position.x;
    let top = monitor.position.y;
    let right = left + monitor.size.width as i32;
    let bottom = top + monitor.size.height as i32;
    let lo_x = left - safe_inset;
    let hi_x = right - size.width as i32 + safe_inset;
    let lo_y = top - safe_inset;
    let hi_y = bottom - size.height as i32 + safe_inset;
    let x = if position.x < lo_x {
        lo_x
    } else if position.x > hi_x {
        hi_x
    } else {
        position.x
    };
    let y = if position.y < lo_y {
        lo_y
    } else if position.y > hi_y {
        hi_y
    } else {
        position.y
    };
    Position { x, y }
}

/// The distances from the visible part of a window to the four monitor
/// edges can be computed without overflow.
pub open spec fn detect_ok(p: Position, s: Size, m: Area, inset: int) -> bool {
    &&& sized(s)
    &&& sized(m.size)
    &&& fits(p.x + inset)
    &&& fits(p.y + inset)
    &&& fits(p.x + s.width)
    &&& fits(p.y + s.height)
    &&& fits(p.x + s.width - inset)
    &&& fits(p.y + s.height - inset)
    &&& fits(right_of(m))
    &&& fits(bottom_of(m))
    &&& abs_fits(p.x + inset - m.position.x)
    &&& abs_fits(p.y + inset - m.position.y)
    &&& abs_fits(right_of(m) - (p.x + s.width - inset))
    &&& abs_fits(bottom_of(m) - (p.y + s.height - inset))
}

/// Distance from the visible left side of the window to the monitor's left
/// edge.
pub open spec fn left_distance(p: Position, m: Area, inset: int) -> int {
    abs(p.x + inset - m.position.x)
}

pub open spec fn top_distance(p: Position, m: Area, inset: int) -> int {
    abs(p.y + inset - m.position.y)
}

pub open spec fn right_distance(p: Position, s: Size, m: Area, inset: int) -> int {
    abs(right_of(m) - (p.x + s.width - inset))
}

pub open spec fn bottom_distance(p: Position, s: Size, m: Area, inset: int) -> int {
    abs(bottom_of(m) - (p.y + s.height - inset))
}

/// The edges a window is docked to: on each axis, the nearer edge when
/// either lies within `threshold`, the first edge on a tie.
pub open spec fn docked_at(p: Position, s: Size, m: Area, threshold: int, inset: int) -> DockState {
    let l = left_distance(p, m, inset);
    let r = right_distance(p, s, m, inset);
    let t = top_distance(p, m, inset);
    let b = bottom_distance(p, s, m, inset);
    DockState {
        horizontal: if l <= threshold || r <= threshold {
            if l <= r {
                Some(HorizontalDock::Left)
            } else {
                Some(HorizontalDock::Right)
            }
        } else {
            None
        },
        vertical: if t <= threshold || b <= threshold {
            if t <= b {
                Some(VerticalDock::Top)
            } else {
                Some(VerticalDock::Bottom)
            }
        } else {
            None
        },
    }
}

fn abs_i32(v: i32) -> (r: i32)
    requires
        abs_fits(v as int),
    ensures
        r == abs(v as int),
{
    if v < 0 {
        -v
    } else {
        v
    }
}

/// The monitor edges a window at `position` is near enough to dock to.
pub fn detect_dock(position: Position, size: Size, monitor: Area, threshold: i32, safe_inset: i32) -> (r:
    DockState)
    requires
        detect_ok(position, size, monitor, safe_inset as int),
    ensures
        r == docked_at(position, size, monitor, threshold as int, safe_inset as int),
{
    let visible_left = position.x + safe_inset;
    let visible_top = position.y + safe_inset;
    let visible_right = position.x + size.width as i32 - safe_inset;
    let visible_bottom = position.y + size.height as i32 - safe_inset;
    let left_distance = abs_i32(visible_left - monitor.position.x);
    let top_distance = abs_i32(visible_top - monitor.position.y);
    let right_distance = abs_i32(
        monitor.position.x + monitor.size.width as i32 - visible_right,
    );
    let bottom_distance = abs_i32(
        monitor.position.y + monitor.size.height as i32 - visible_bottom,
    );
    let horizontal = if left_distance <= threshold || right_distance <= threshold {
        if left_distance <= right_distance {
            Some(HorizontalDock::Left)
        } else {
            Some(HorizontalDock::Right)
        }
    } else {
        None
    };
    let vertical = if top_distance <= threshold || bottom_distance <= threshold {
        if top_distance <= bottom_distance {
            Some(VerticalDock::Top)
        } else {
            Some(VerticalDock::Bottom)
        }
    } else {
        None
    };
    DockState { horizontal, vertical }
}

/// The position of a window moved onto the monitor and pushed flush against
/// the edges it is docked to.
pub open spec fn snapped(p: Position, s: Size, dock: DockState, m: Area, inset: int) -> Position {
    let c = clamped(p, s, m, inset);
    Position {
        x: match dock.horizontal {
            Some(HorizontalDock::Left) => min_x(m, inset) as i32,
            Some(HorizontalDock::Right) => max_x(s, m, inset) as i32,
            None => c.x,
        },
        y: match dock.vertical {
            Some(VerticalDock::Top) => min_y(m, inset) as i32,
            Some(VerticalDock::Bottom) => max_y(s, m, inset) as i32,
            None => c.y,
        },
    }
}

/// Moves a window onto the monitor and against the edges it is docked to.
pub fn snap_position(position: Position, size: Size, dock: DockState, monitor: Area, safe_inset: i32) -> (r:
    Position)
    requires
        clamp_ok(size, monitor, safe_inset as int),
    ensures
        r == snapped(position, size, dock, monitor, safe_inset as int),
        on_monitor(r, size, monitor, safe_inset as int),
{
    let mut next = clamp_position_to_monitor(position, size, monitor, safe_inset);
    match dock.horizontal {
        Some(HorizontalDock::Left) => next.x = monitor.position.x - safe_inset,
        Some(HorizontalDock::Right) => {
            next.x = monitor.position.x + monitor.size.width as i32 - size.width as i32 + safe_inset
        },
        None => {},
    }
    match dock.vertical {
        Some(VerticalDock::Top) => next.y = monitor.position.y - safe_inset,
        Some(VerticalDock::Bottom) => {
            next.y = monitor.position.y + monitor.size.height as i32 - size.height as i32
                + safe_inset
        },
        None => {},
    }
    next
}

/// The window size that shows `visual_size` pixels with a transparent
/// `safe_inset` on both sides.
pub fn window_size_for_visual_size(visual_size: u32, safe_inset: u32) -> (r: u32)
    requires
        visual_size + 2 * safe_inset <= u32::MAX,
    ensures
        r == visual_size + 2 * safe_inset,
{
    visual_size + safe_inset * 2
}

/// The largest of two integers.
pub open spec fn max_int(a: int, b: int) -> int {
    if a >= b {
        a
    } else {
        b
    }
}

/// Where the expanded panel's left edge goes before it is kept in bounds:
/// at the collapsed widget's left edge, or its right edge when docked right
/// or when opening rightwards would leave the bounds.
pub open spec fn opening_x(c: WidgetRect, es: Size, dock: DockState, b: Area) -> int {
    match dock.horizontal {
        Some(HorizontalDock::Left) => c.position.x as int,
        Some(HorizontalDock::Right) => c.position.x + c.size.width - es.width,
        None => if c.position.x + es.width > right_of(b) {
            c.position.x + c.size.width - es.width
        } else {
            c.position.x as int
        },
    }
}

/// Where the expanded panel's top edge goes before it is kept in bounds.
pub open spec fn opening_y(c: WidgetRect, es: Size, dock: DockState, b: Area) -> int {
    match dock.vertical {
        Some(VerticalDock::Top) => c.position.y as int,
        Some(VerticalDock::Bottom) => c.position.y + c.size.height - es.height,
        None => if c.position.y + es.height > bottom_of(b) {
            c.position.y + c.size.height - es.height
        } else {
            c.position.y as int
        },
    }
}

/// The panel opens from its right edge on the horizontal axis.
pub open spec fn opens_leftwards(c: WidgetRect, es: Size, dock: DockState, b: Area) -> bool {
    match dock.horizontal {
        Some(HorizontalDock::Left) => false,
        Some(HorizontalDock::Right) => true,
        None => c.position.x + es.width > right_of(b),
    }
}

/// The panel opens from its bottom edge on the vertical axis.
pub open spec fn opens_upwards(c: WidgetRect, es: Size, dock: DockState, b: Area) -> bool {
    match dock.vertical {
        Some(VerticalDock::Top) => false,
        Some(VerticalDock::Bottom) => true,
        None => c.position.y + es.height > bottom_of(b),
    }
}

/// The arithmetic of placing the expanded panel does not overflow.
pub open spec fn expand_ok(c: WidgetRect, es: Size, dock: DockState, b: Area, inset: int) -> bool {
    &&& sized(c.size)
    &&& sized(es)
    &&& sized(b.size)
    &&& fits(right_of(b))
    &&& fits(bottom_of(b))
    &&& fits(c.position.x + inset)
    &&& fits(c.position.y + inset)
    &&& fits(c.position.x + c.size.width)
    &&& fits(c.position.y + c.size.height)
    &&& fits(c.position.x + c.size.width - inset)
    &&& fits(c.position.y + c.size.height - inset)
    &&& (dock.horizontal is None ==> fits(c.position.x + inset + es.width) && fits(
        c.position.x + es.width,
    ))
    &&& (dock.vertical is None ==> fits(c.position.y + inset + es.height) && fits(
        c.position.y + es.height,
    ))
    &&& (opens_leftwards(c, es, dock, b) ==> fits(c.position.x + c.size.width - inset - es.width)
        && fits(c.position.x + c.size.width - es.width))
    &&& (opens_upwards(c, es, dock, b) ==> fits(c.position.y + c.size.height - inset - es.height)
        && fits(c.position.y + c.size.height - es.height))
    &&& fits(b.position.x - inset)
    &&& fits(b.position.y - inset)
    &&& fits(right_of(b) - es.width)
    &&& fits(bottom_of(b) - es.height)
    &&& fits(right_of(b) - es.width + inset)
    &&& fits(bottom_of(b) - es.height + inset)
}

/// Where the expanded panel of size `es` opens from the collapsed widget
/// `c`, kept inside the bounds `b`; where it is larger than the bounds it
/// is kept against their top left corner.
pub open spec fn expanded_at(c: WidgetRect, es: Size, dock: DockState, b: Area, inset: int) -> Position {
    Position {
        x: clamp_int(
            opening_x(c, es, dock, b),
            b.position.x - inset,
            max_int(right_of(b) - es.width + inset, b.position.x - inset),
        ) as i32,
        y: clamp_int(
            opening_y(c, es, dock, b),
            b.position.y - inset,
            max_int(bottom_of(b) - es.height + inset, b.position.y - inset),
        ) as i32,
    }
}

/// The position of the expanded panel opened from the collapsed widget
/// `collapsed`: it grows away from the docked edges, or inwards where it
/// would leave the bounds, and is then kept inside the bounds.
pub fn expanded_position_in_bounds(
    collapsed: WidgetRect,
    expanded_size: Size,
    dock: DockState,
    bounds_position: Position,
    bounds_size: Size,
    safe_inset: i32,
) -> (r: Position)
    requires
        expand_ok(
            collapsed,
            expanded_size,
            dock,
            Area { position: bounds_position, size: bounds_size },
            safe_inset as int,
        ),
    ensures
        r == expanded_at(
            collapsed,
            expanded_size,
            dock,
            Area { position: bounds_position, size: bounds_size },
            safe_inset as int,
        ),
        bounds_position.x - safe_inset <= r.x,
        bounds_position.y - safe_inset <= r.y,
        expanded_size.width <= bounds_size.width + 2 * safe_inset ==> r.x + expanded_size.width
            - safe_inset <= bounds_position.x + bounds_size.width,
        expanded_size.height <= bounds_size.height + 2 * safe_inset ==> r.y + expanded_size.height
            - safe_inset <= bounds_position.y + bounds_size.height,
{
    let monitor_right = bounds_position.x + bounds_size.width as i32;
    let monitor_bottom = bounds_position.y + bounds_size.height as i32;
    let collapsed_left = collapsed.position.x + safe_inset;
    let collapsed_top = collapsed.position.y + safe_inset;
    let collapsed_right = collapsed.position.x + collapsed.size.width as i32 - safe_inset;
    let collapsed_bottom = collapsed.position.y + collapsed.size.height as i32 - safe_inset;
    let ew = expanded_size.width as i32;
    let eh = expanded_size.height as i32;
    let x = match dock.horizontal {
        Some(HorizontalDock::Left) => collapsed_left - safe_inset,
        Some(HorizontalDock::Right) => collapsed_right - ew + safe_inset,
        None => {
            if collapsed_left + ew - safe_inset > monitor_right {
                collapsed_right - ew + safe_inset
            } else {
                collapsed_left - safe_inset
            }
        },
    };
    let y = match dock.vertical {
        Some(VerticalDock::Top) => collapsed_top - safe_inset,
        Some(VerticalDock::Bottom) => collapsed_bottom - eh + safe_inset,
        None => {
            if collapsed_top + eh - safe_inset > monitor_bottom {
                collapsed_bottom - eh + safe_inset
            } else {
                collapsed_top - safe_inset
            }
        },
    };
    let min_x = bounds_position.x - safe_inset;
    let min_y = bounds_position.y - safe_inset;
    let right_limit = monitor_right - ew + safe_inset;
    let bottom_limit = monitor_bottom - eh + safe_inset;
    let max_x = if right_limit >= min_x {
        right_limit
    } else {
        min_x
    };
    let max_y = if bottom_limit >= min_y {
        bottom_limit
    } else {
        min_y
    };
    let cx = if x < min_x {
        min_x
    } else if x > max_x {
        max_x
    } else {
        x
    };
    let cy = if y < min_y {
        min_y
    } else if y > max_y {
        max_y
    } else {
        y
    };
    Position { x: cx, y: cy }
}

/// The bounds the expanded panel is kept in: the work area when the page
/// reported one, else the whole monitor.
pub open spec fn panel_bounds(monitor: Area, work_area: Option<Area>) -> Area {
    match work_area {
        Some(a) => a,
        None => monitor,
    }
}

/// The position of the expanded panel, kept inside the work area when one
/// is known and inside the monitor otherwise.
pub fn expanded_position(
    collapsed: WidgetRect,
    expanded_size: Size,
    dock: DockState,
    monitor: Area,
    work_area: Option<Area>,
    safe_inset: i32,
) -> (r: Position)
    requires
        expand_ok(
            collapsed,
            expanded_size,
            dock,
            panel_bounds(monitor, work_area),
            safe_inset as int,
        ),
    ensures
        r == expanded_at(
            collapsed,
            expanded_size,
            dock,
            panel_bounds(monitor, work_area),
            safe_inset as int,
        ),
{
    let bounds = match work_area {
        Some(area) => area,
        None => monitor,
    };
    expanded_position_in_bounds(
        collapsed,
        expanded_size,
        dock,
        bounds.position,
        bounds.size,
        safe_inset,
    )
}

/// Whether the widget shows its small collapsed face or the expanded panel.
#[derive(Clone, Copy, Debug, PartialEq, Eq, Structural)]
pub enum WidgetMode {
    Collapsed,
    Expanded,
}

/// What is remembered of the widget's placement between commands.
#[derive(Clone, Copy, Debug, PartialEq, Eq, Structural)]
pub struct WidgetGeometryState {
    pub mode: WidgetMode,
    pub dock: DockState,
    /// Where the collapsed widget sits, and returns to.
    pub collapsed_rect: WidgetRect,
    pub expanded_rect: Option<WidgetRect>,
    /// The expanded panel was dragged since it opened.
    pub user_moved_expanded: bool,
}

/// How far, in pixels, a window may exceed the collapsed size and still be
/// taken for the collapsed widget.
pub const POSITION_EPSILON: u32 = 2;

/// The mode a window of that rectangle is in, judged by its size.
pub open spec fn mode_of(rect: WidgetRect, collapsed_size: Size) -> WidgetMode {
    if rect.size.width <= collapsed_size.width + POSITION_EPSILON && rect.size.height
        <= collapsed_size.height + POSITION_EPSILON {
        WidgetMode::Collapsed
    } else {
        WidgetMode::Expanded
    }
}

/// Judges from its size whether the widget window is collapsed.
pub fn infer_mode(rect: WidgetRect, collapsed_size: Size) -> (r: WidgetMode)
    requires
        collapsed_size.width + POSITION_EPSILON <= u32::MAX,
        collapsed_size.height + POSITION_EPSILON <= u32::MAX,
    ensures
        r == mode_of(rect, collapsed_size),
{
    if rect.size.width <= collapsed_size.width + POSITION_EPSILON && rect.size.height
        <= collapsed_size.height + POSITION_EPSILON {
        WidgetMode::Collapsed
    } else {
        WidgetMode::Expanded
    }
}

/// The remembered collapsed anchor still stands: the widget is collapsed, or
/// expanded and not dragged since.
pub open spec fn anchor_reusable(previous: WidgetGeometryState) -> bool {
    previous.mode is Collapsed || (previous.mode is Expanded && !previous.user_moved_expanded)
}

pub open spec fn is_docked_spec(d: DockState) -> bool {
    d.horizontal is Some || d.vertical is Some
}

/// Where a collapsed widget at `p` settles: against the edges it is near,
/// or else just moved onto the monitor.
pub open spec fn settled(p: Position, s: Size, d: DockState, m: Area, inset: int) -> Position {
    if is_docked_spec(d) {
        snapped(p, s, d, m, inset)
    } else {
        clamped(p, s, m, inset)
    }
}

/// The collapsed rectangle and dock that an expansion starts from.
pub open spec fn collapsed_for_expand(
    current: Position,
    cs: Size,
    m: Area,
    threshold: int,
    inset: int,
    previous: Option<WidgetGeometryState>,
) -> (WidgetRect, DockState) {
    match previous {
        Some(prev) if anchor_reusable(prev) => (
            WidgetRect {
                position: settled(prev.collapsed_rect.position, cs, prev.dock, m, inset),
                size: cs,
            },
            prev.dock,
        ),
        _ => {
            let p = clamped(current, cs, m, inset);
            let d = docked_at(p, cs, m, threshold, inset);
            (
                WidgetRect {
                    position: if is_docked_spec(d) {
                        snapped(p, cs, d, m, inset)
                    } else {
                        p
                    },
                    size: cs,
                },
                d,
            )
        },
    }
}

/// An expansion starts from the remembered anchor rather than from where
/// the window is.
pub open spec fn reuses_anchor(previous: Option<WidgetGeometryState>) -> bool {
    match previous {
        Some(prev) => anchor_reusable(prev),
        None => false,
    }
}

/// The collapsed rectangle an expansion starts from, and its dock: the
/// remembered one when the widget has not been dragged while expanded,
/// else the current position moved onto the monitor and docked to the
/// edges it is near.
pub fn collapsed_geometry_for_expand(
    current_position: Position,
    collapsed_size: Size,
    monitor: Area,
    threshold: i32,
    safe_inset: i32,
    previous: Option<WidgetGeometryState>,
) -> (r: (WidgetRect, DockState))
    requires
        clamp_ok(collapsed_size, monitor, safe_inset as int),
        !reuses_anchor(previous) ==> detect_ok(
            clamped(current_position, collapsed_size, monitor, safe_inset as int),
            collapsed_size,
            monitor,
            safe_inset as int,
        ),
    ensures
        r == collapsed_for_expand(
            current_position,
            collapsed_size,
            monitor,
            threshold as int,
            safe_inset as int,
            previous,
        ),
        on_monitor(r.0.position, collapsed_size, monitor, safe_inset as int),
        reuses_anchor(previous) ==> {
            &&& r.1 == previous.unwrap().dock
            &&& r.0.size == collapsed_size
            &&& r.0.position == settled(
                previous.unwrap().collapsed_rect.position,
                collapsed_size,
                previous.unwrap().dock,
                monitor,
                safe_inset as int,
            )
        },
{
    if let Some(prev) = previous {
        let can_reuse_anchor = match prev.mode {
            WidgetMode::Collapsed => true,
            WidgetMode::Expanded => !prev.user_moved_expanded,
        };
        if can_reuse_anchor {
            let position = if prev.dock.is_docked() {
                snap_position(
                    prev.collapsed_rect.position,
                    collapsed_size,
                    prev.dock,
                    monitor,
                    safe_inset,
                )
            } else {
                clamp_position_to_monitor(
                    prev.collapsed_rect.position,
                    collapsed_size,
                    monitor,
                    safe_inset,
                )
            };
            return (WidgetRect { position, size: collapsed_size }, prev.dock);
        }
    }
    let current = clamp_position_to_monitor(current_position, collapsed_size, monitor, safe_inset);
    let dock = detect_dock(current, collapsed_size, monitor, threshold, safe_inset);
    let position = if dock.is_docked() {
        snap_position(current, collapsed_size, dock, monitor, safe_inset)
    } else {
        current
    };
    (WidgetRect { position, size: collapsed_size }, dock)
}

/// The widget geometry after the panel expands: the collapsed anchor it
/// opened from, its dock, and where the panel of size `es` opens.
pub open spec fn expanded_state(
    current: Position,
    cs: Size,
    es: Size,
    m: Area,
    threshold: int,
    inset: int,
    previous: Option<WidgetGeometryState>,
    work_area: Option<Area>,
) -> WidgetGeometryState {
    let (cr, d) = collapsed_for_expand(current, cs, m, threshold, inset, previous);
    WidgetGeometryState {
        mode: WidgetMode::Expanded,
        dock: d,
        collapsed_rect: cr,
        expanded_rect: Some(
            WidgetRect {
                position: expanded_at(cr, es, d, panel_bounds(m, work_area), inset),
                size: es,
            },
        ),
        user_moved_expanded: false,
    }
}

/// Expanding the widget on a known monitor: the geometry to remember, whose
/// expanded rectangle is where the window is to be moved and resized.
pub fn expand_geometry(
    current_position: Position,
    collapsed_size: Size,
    expanded_size: Size,
    monitor: Area,
    threshold: i32,
    safe_inset: i32,
    previous: Option<WidgetGeometryState>,
    work_area: Option<Area>,
) -> (r: WidgetGeometryState)
    requires
        clamp_ok(collapsed_size, monitor, safe_inset as int),
        !reuses_anchor(previous) ==> detect_ok(
            clamped(current_position, collapsed_size, monitor, safe_inset as int),
            collapsed_size,
            monitor,
            safe_inset as int,
        ),
        expand_ok(
            collapsed_for_expand(
                current_position,
                collapsed_size,
                monitor,
                threshold as int,
                safe_inset as int,
                previous,
            ).0,
            expanded_size,
            collapsed_for_expand(
                current_position,
                collapsed_size,
                monitor,
                threshold as int,
                safe_inset as int,
                previous,
            ).1,
            panel_bounds(monitor, work_area),
            safe_inset as int,
        ),
    ensures
        r == expanded_state(
            current_position,
            collapsed_size,
            expanded_size,
            monitor,
            threshold as int,
            safe_inset as int,
            previous,
            work_area,
        ),
{
    let (collapsed_rect, dock) = collapsed_geometry_for_expand(
        current_position,
        collapsed_size,
        monitor,
        threshold,
        safe_inset,
        previous,
    );
    let expanded_rect = WidgetRect {
        position: expanded_position(
            collapsed_rect,
            expanded_size,
            dock,
            monitor,
            work_area,
            safe_inset,
        ),
        size: expanded_size,
    };
    WidgetGeometryState {
        mode: WidgetMode::Expanded,
        dock,
        collapsed_rect,
        expanded_rect: Some(expanded_rect),
        user_moved_expanded: false,
    }
}

/// Where collapsing starts from: the current position when the expanded
/// panel was dragged, else the remembered collapsed anchor.
pub open spec fn collapse_candidate(current: Position, previous: Option<WidgetGeometryState>) -> Position {
    match previous {
        Some(prev) => if prev.user_moved_expanded {
            current
        } else {
            prev.collapsed_rect.position
        },
        None => current,
    }
}

/// The widget geometry after it collapses.
pub open spec fn collapsed_state(
    current: Position,
    cs: Size,
    m: Area,
    threshold: int,
    inset: int,
    previous: Option<WidgetGeometryState>,
) -> WidgetGeometryState {
    let c = collapse_candidate(current, previous);
    let d = docked_at(c, cs, m, threshold, inset);
    WidgetGeometryState {
        mode: WidgetMode::Collapsed,
        dock: d,
        collapsed_rect: WidgetRect { position: settled(c, cs, d, m, inset), size: cs },
        expanded_rect: None,
        user_moved_expanded: false,
    }
}

/// Collapsing the widget on a known monitor: the geometry to remember,
/// whose collapsed rectangle is where the window is to be resized and
/// moved.
pub fn collapse_geometry(
    current_position: Position,
    collapsed_size: Size,
    monitor: Area,
    threshold: i32,
    safe_inset: i32,
    previous: Option<WidgetGeometryState>,
) -> (r: WidgetGeometryState)
    requires
        clamp_ok(collapsed_size, monitor, safe_inset as int),
        detect_ok(
            collapse_candidate(current_position, previous),
            collapsed_size,
            monitor,
            safe_inset as int,
        ),
    ensures
        r == collapsed_state(
            current_position,
            collapsed_size,
            monitor,
            threshold as int,
            safe_inset as int,
            previous,
        ),
        on_monitor(r.collapsed_rect.position, collapsed_size, monitor, safe_inset as int),
{
    let user_moved_expanded = match previous {
        Some(prev) => prev.user_moved_expanded,
        None => false,
    };
    let candidate = if user_moved_expanded {
        current_position
    } else {
        match previous {
            Some(prev) => prev.collapsed_rect.position,
            None => current_position,
        }
    };
    let dock = detect_dock(candidate, collapsed_size, monitor, threshold, safe_inset);
    let next_position = if dock.is_docked() {
        snap_position(candidate, collapsed_size, dock, monitor, safe_inset)
    } else {
        clamp_position_to_monitor(candidate, collapsed_size, monitor, safe_inset)
    };
    WidgetGeometryState {
        mode: WidgetMode::Collapsed,
        dock,
        collapsed_rect: WidgetRect { position: next_position, size: collapsed_size },
        expanded_rect: None,
        user_moved_expanded: false,
    }
}

/// The mode a drag starts in: the remembered one, else the one the window's
/// size shows.
pub open spec fn drag_start_mode(
    geometry: Option<WidgetGeometryState>,
    current: WidgetRect,
    collapsed_size: Size,
) -> WidgetMode {
    match geometry {
        Some(g) => g.mode,
        None => mode_of(current, collapsed_size),
    }
}

/// The mode to remember when a drag of the widget begins.
pub fn drag_mode_at_start(
    geometry: Option<WidgetGeometryState>,
    current: WidgetRect,
    collapsed_size: Size,
) -> (r: WidgetMode)
    requires
        geometry is None ==> collapsed_size.width + POSITION_EPSILON <= u32::MAX
            && collapsed_size.height + POSITION_EPSILON <= u32::MAX,
    ensures
        r == drag_start_mode(geometry, current, collapsed_size),
{
    match geometry {
        Some(g) => g.mode,
        None => infer_mode(current, collapsed_size),
    }
}

/// The mode a finished drag is judged in: the one remembered when the drag
/// began, else the remembered geometry's, else the one the window's size
/// shows.
pub open spec fn finished_mode(
    drag_mode: Option<WidgetMode>,
    previous: Option<WidgetGeometryState>,
    current: WidgetRect,
    collapsed_size: Size,
) -> WidgetMode {
    match drag_mode {
        Some(mode) => mode,
        None => drag_start_mode(previous, current, collapsed_size),
    }
}

/// Where a drag leaves the window, and the geometry to remember after it
/// (`None`: nothing is remembered).
pub open spec fn drag_finished(
    current: WidgetRect,
    cs: Size,
    es: Size,
    m: Area,
    threshold: int,
    inset: int,
    drag_mode: Option<WidgetMode>,
    previous: Option<WidgetGeometryState>,
) -> (Position, Option<WidgetGeometryState>) {
    match finished_mode(drag_mode, previous, current, cs) {
        WidgetMode::Collapsed => {
            let d = docked_at(current.position, cs, m, threshold, inset);
            let p = settled(current.position, cs, d, m, inset);
            (
                p,
                Some(
                    WidgetGeometryState {
                        mode: WidgetMode::Collapsed,
                        dock: d,
                        collapsed_rect: WidgetRect { position: p, size: cs },
                        expanded_rect: None,
                        user_moved_expanded: false,
                    },
                ),
            )
        },
        WidgetMode::Expanded => {
            let p = clamped(current.position, es, m, inset);
            (
                p,
                match previous {
                    Some(g) => Some(
                        WidgetGeometryState {
                            mode: WidgetMode::Expanded,
                            dock: g.dock,
                            collapsed_rect: g.collapsed_rect,
                            expanded_rect: Some(WidgetRect { position: p, size: es }),
                            user_moved_expanded: true,
                        },
                    ),
                    None => None,
                },
            )
        },
    }
}

/// The end of a drag on a known monitor: where the window is to be moved,
/// and the geometry to remember. A collapsed widget docks to the edges it
/// was dropped near; an expanded panel is kept on the monitor and marked as
/// moved, so that collapsing it starts from where it was dropped.
pub fn finish_drag(
    current: WidgetRect,
    collapsed_size: Size,
    expanded_size: Size,
    monitor: Area,
    threshold: i32,
    safe_inset: i32,
    drag_mode: Option<WidgetMode>,
    previous: Option<WidgetGeometryState>,
) -> (r: (Position, Option<WidgetGeometryState>))
    requires
        drag_mode is None && previous is None ==> collapsed_size.width + POSITION_EPSILON
            <= u32::MAX && collapsed_size.height + POSITION_EPSILON <= u32::MAX,
        finished_mode(drag_mode, previous, current, collapsed_size) is Collapsed ==> clamp_ok(
            collapsed_size,
            monitor,
            safe_inset as int,
        ) && detect_ok(current.position, collapsed_size, monitor, safe_inset as int),
        finished_mode(drag_mode, previous, current, collapsed_size) is Expanded ==> clamp_ok(
            expanded_size,
            monitor,
            safe_inset as int,
        ),
    ensures
        r == drag_finished(
            current,
            collapsed_size,
            expanded_size,
            monitor,
            threshold as int,
            safe_inset as int,
            drag_mode,
            previous,
        ),
{
    let mode = match drag_mode {
        Some(mode) => mode,
        None => drag_mode_at_start(previous, current, collapsed_size),
    };
    match mode {
        WidgetMode::Collapsed => {
            let dock = detect_dock(current.position, collapsed_size, monitor, threshold, safe_inset);
            let next_position = if dock.is_docked() {
                snap_position(current.position, collapsed_size, dock, monitor, safe_inset)
            } else {
                clamp_position_to_monitor(current.position, collapsed_size, monitor, safe_inset)
            };
            let collapsed_rect = WidgetRect { position: next_position, size: collapsed_size };
            (
                next_position,
                Some(
                    WidgetGeometryState {
                        mode: WidgetMode::Collapsed,
                        dock,
                        collapsed_rect,
                        expanded_rect: None,
                        user_moved_expanded: false,
                    },
                ),
            )
        },
        WidgetMode::Expanded => {
            let position = clamp_position_to_monitor(
                current.position,
                expanded_size,
                monitor,
                safe_inset,
            );
            let updated_rect = WidgetRect { position, size: expanded_size };
            let next = match previous {
                Some(g) => Some(
                    WidgetGeometryState {
                        mode: WidgetMode::Expanded,
                        dock: g.dock,
                        collapsed_rect: g.collapsed_rect,
                        expanded_rect: Some(updated_rect),
                        user_moved_expanded: true,
                    },
                ),
                None => None,
            };
            (position, next)
        },
    }
}

fn fits_i64(v: i64) -> (b: bool)
    ensures
        b == fits(v as int),
{
    i32::MIN as i64 <= v && v <= i32::MAX as i64
}

fn abs_fits_i64(v: i64) -> (b: bool)
    ensures
        b == abs_fits(v as int),
{
    -(i32::MAX as i64) <= v && v <= i32::MAX as i64
}

fn sized_check(s: Size) -> (b: bool)
    ensures
        b == sized(s),
{
    s.width <= i32::MAX as u32 && s.height <= i32::MAX as u32
}

/// Whether a window of size `size` can be clamped onto the monitor
/// (`clamp_ok`): callers test this before `clamp_position_to_monitor` and
/// `snap_position`.
pub fn clamp_fits(size: Size, monitor: Area, safe_inset: i32) -> (b: bool)
    ensures
        b == clamp_ok(size, monitor, safe_inset as int),
{
    let mx = monitor.position.x as i64;
    let my = monitor.position.y as i64;
    let mw = monitor.size.width as i64;
    let mh = monitor.size.height as i64;
    let w = size.width as i64;
    let h = size.height as i64;
    let i = safe_inset as i64;
    sized_check(size) && sized_check(monitor.size) && fits_i64(mx + mw) && fits_i64(my + mh)
        && fits_i64(mx - i) && fits_i64(my - i) && fits_i64(mx + mw - w) && fits_i64(my + mh - h)
        && fits_i64(mx + mw - w + i) && fits_i64(my + mh - h + i) && mx - i <= mx + mw - w + i && my
        - i <= my + mh - h + i
}

/// Whether the distances from a window to the monitor edges can be computed
/// (`detect_ok`): callers test this before `detect_dock`.
pub fn detect_fits(position: Position, size: Size, monitor: Area, safe_inset: i32) -> (b: bool)
    ensures
        b == detect_ok(position, size, monitor, safe_inset as int),
{
    let x = position.x as i64;
    let y = position.y as i64;
    let mx = monitor.position.x as i64;
    let my = monitor.position.y as i64;
    let mw = monitor.size.width as i64;
    let mh = monitor.size.height as i64;
    let w = size.width as i64;
    let h = size.height as i64;
    let i = safe_inset as i64;
    sized_check(size) && sized_check(monitor.size) && fits_i64(x + i) && fits_i64(y + i) && fits_i64(
        x + w,
    ) && fits_i64(y + h) && fits_i64(x + w - i) && fits_i64(y + h - i) && fits_i64(mx + mw)
        && fits_i64(my + mh) && abs_fits_i64(x + i - mx) && abs_fits_i64(y + i - my) && abs_fits_i64(
        mx + mw - (x + w - i),
    ) && abs_fits_i64(my + mh - (y + h - i))
}

/// Whether the expanded panel can be placed without overflow
/// (`expand_ok`): callers test this before `expanded_position`.
pub fn expand_fits(collapsed: WidgetRect, expanded_size: Size, dock: DockState, bounds: Area, safe_inset: i32) -> (b:
    bool)
    ensures
        b == expand_ok(collapsed, expanded_size, dock, bounds, safe_inset as int),
{
    let cx = collapsed.position.x as i64;
    let cy = collapsed.position.y as i64;
    let cw = collapsed.size.width as i64;
    let ch = collapsed.size.height as i64;
    let ew = expanded_size.width as i64;
    let eh = expanded_size.height as i64;
    let bx = bounds.position.x as i64;
    let by = bounds.position.y as i64;
    let bw = bounds.size.width as i64;
    let bh = bounds.size.height as i64;
    let i = safe_inset as i64;
    let left_open = match dock.horizontal {
        Some(HorizontalDock::Left) => false,
        Some(HorizontalDock::Right) => true,
        None => cx + ew > bx + bw,
    };
    let up_open = match dock.vertical {
        Some(VerticalDock::Top) => false,
        Some(VerticalDock::Bottom) => true,
        None => cy + eh > by + bh,
    };
    sized_check(collapsed.size) && sized_check(expanded_size) && sized_check(bounds.size) && fits_i64(
        bx + bw,
    ) && fits_i64(by + bh) && fits_i64(cx + i) && fits_i64(cy + i) && fits_i64(cx + cw) && fits_i64(
        cy + ch,
    ) && fits_i64(cx + cw - i) && fits_i64(cy + ch - i) && (dock.horizontal.is_some() || (fits_i64(
        cx + i + ew,
    ) && fits_i64(cx + ew))) && (dock.vertical.is_some() || (fits_i64(cy + i + eh) && fits_i64(
        cy + eh,
    ))) && (!left_open || (fits_i64(cx + cw - i - ew) && fits_i64(cx + cw - ew))) && (!up_open || (
    fits_i64(cy + ch - i - eh) && fits_i64(cy + ch - eh))) && fits_i64(bx - i) && fits_i64(by - i)
        && fits_i64(bx + bw - ew) && fits_i64(by + bh - eh) && fits_i64(bx + bw - ew + i) && fits_i64(
        by + bh - eh + i,
    )
}

/// The gap, in pixels, the tray preview keeps from the monitor's sides and
/// top.
pub const PREVIEW_MARGIN: i32 = 4;

/// The arithmetic of keeping a preview of width `width` on the monitor does
/// not overflow, and the preview fits between the margins.
pub open spec fn preview_ok(width: u32, m: Area) -> bool {
    &&& sized(m.size)
    &&& width <= i32::MAX
    &&& fits(m.position.x + PREVIEW_MARGIN)
    &&& fits(m.position.y + PREVIEW_MARGIN)
    &&& fits(right_of(m))
    &&& fits(right_of(m) - width)
    &&& fits(right_of(m) - width - PREVIEW_MARGIN)
    &&& m.position.x + PREVIEW_MARGIN <= right_of(m) - width - PREVIEW_MARGIN
}

/// Where the tray preview goes: at `(x, above_y)` above the tray icon;
/// with the monitor known, moved sideways to keep its margins, and put at
/// `below_y`, under the icon, when above it would cross the top margin.
pub open spec fn preview_at(x: i32, above_y: i32, below_y: i32, width: u32, monitor: Option<Area>) -> Position {
    match monitor {
        None => Position { x, y: above_y },
        Some(m) => Position {
            x: clamp_int(
                x as int,
                m.position.x + PREVIEW_MARGIN,
                right_of(m) - width - PREVIEW_MARGIN,
            ) as i32,
            y: if above_y < m.position.y + PREVIEW_MARGIN {
                below_y
            } else {
                above_y
            },
        },
    }
}

/// Whether a preview of width `width` can be kept on the monitor
/// (`preview_ok`).
pub fn preview_fits(width: u32, monitor: Area) -> (b: bool)
    ensures
        b == preview_ok(width, monitor),
{
    let mx = monitor.position.x as i64;
    let my = monitor.position.y as i64;
    let mw = monitor.size.width as i64;
    let w = width as i64;
    let margin = PREVIEW_MARGIN as i64;
    sized_check(monitor.size) && width <= i32::MAX as u32 && fits_i64(mx + margin) && fits_i64(my + margin)
        && fits_i64(mx + mw) && fits_i64(mx + mw - w) && fits_i64(mx + mw - w - margin) && mx + margin
        <= mx + mw - w - margin
}

/// Places the tray preview near the tray icon: see `preview_at`.
pub fn preview_position(x: i32, above_y: i32, below_y: i32, width: u32, monitor: Option<Area>) -> (r: Position)
    requires
        monitor matches Some(m) ==> preview_ok(width, m),
    ensures
        r == preview_at(x, above_y, below_y, width, monitor),
{
    match monitor {
        None => Position { x, y: above_y },
        Some(m) => {
            let lo = m.position.x + PREVIEW_MARGIN;
            let hi = m.position.x + m.size.width as i32 - width as i32 - PREVIEW_MARGIN;
            let cx = if x < lo {
                lo
            } else if x > hi {
                hi
            } else {
                x
            };
            let cy = if above_y < m.position.y + PREVIEW_MARGIN {
                below_y
            } else {
                above_y
            };
            Position { x: cx, y: cy }
        },
    }
}

/// Moving a window onto the monitor a second time leaves it where it is.
pub proof fn lemma_clamp_idempotent(p: Position, s: Size, m: Area, inset: int)
    requires
        clamp_ok(s, m, inset),
    ensures
        clamped(clamped(p, s, m, inset), s, m, inset) == clamped(p, s, m, inset),
        on_monitor(clamped(p, s, m, inset), s, m, inset),
        on_monitor(p, s, m, inset) ==> clamped(p, s, m, inset) == p,
{
}

/// Settling a collapsed widget a second time, against the same edges,
/// leaves it where it is.
pub proof fn lemma_settle_idempotent(p: Position, s: Size, d: DockState, m: Area, inset: int)
    requires
        clamp_ok(s, m, inset),
    ensures
        settled(settled(p, s, d, m, inset), s, d, m, inset) == settled(p, s, d, m, inset),
        snapped(snapped(p, s, d, m, inset), s, d, m, inset) == snapped(p, s, d, m, inset),
        on_monitor(settled(p, s, d, m, inset), s, m, inset),
{
}

/// A collapsed widget dropped on the monitor and settled against the edges
/// it was near is found docked to the same edges where it settled, provided
/// the widget is smaller than the monitor and the snapping distance is not
/// negative.
pub proof fn lemma_settled_keeps_dock(p: Position, s: Size, m: Area, threshold: int, inset: int)
    requires
        clamp_ok(s, m, inset),
        threshold >= 0,
        s.width < m.size.width + 2 * inset,
        s.height < m.size.height + 2 * inset,
        on_monitor(p, s, m, inset),
    ensures
        docked_at(
            settled(p, s, docked_at(p, s, m, threshold, inset), m, inset),
            s,
            m,
            threshold,
            inset,
        ) == docked_at(p, s, m, threshold, inset),
{
}

/// Expanding the collapsed widget and collapsing it again without dragging
/// the panel puts the widget back where it was collapsed, docked to the
/// same edges, when it had been dropped on the monitor and is smaller than
/// the monitor.
pub proof fn lemma_expand_collapse_round_trip(
    dropped: Position,
    before: Option<WidgetGeometryState>,
    at_expand: Position,
    at_collapse: Position,
    cs: Size,
    es: Size,
    m: Area,
    threshold: int,
    inset: int,
    work_area: Option<Area>,
)
    requires
        clamp_ok(cs, m, inset),
        threshold >= 0,
        cs.width < m.size.width + 2 * inset,
        cs.height < m.size.height + 2 * inset,
        on_monitor(collapse_candidate(dropped, before), cs, m, inset),
    ensures
        ({
            let collapsed = collapsed_state(dropped, cs, m, threshold, inset, before);
            let expanded = expanded_state(
                at_expand,
                cs,
                es,
                m,
                threshold,
                inset,
                Some(collapsed),
                work_area,
            );
            let again = collapsed_state(at_collapse, cs, m, threshold, inset, Some(expanded));
            again.collapsed_rect == collapsed.collapsed_rect && again.dock == collapsed.dock
        }),
{
    let c = collapse_candidate(dropped, before);
    let d = docked_at(c, cs, m, threshold, inset);
    lemma_settle_idempotent(c, cs, d, m, inset);
    lemma_settled_keeps_dock(c, cs, m, threshold, inset);
}

/// A remembered collapsed anchor the widget settles at: on the monitor,
/// and docked to the edges detected there.
pub open spec fn consistent_anchor(prev: WidgetGeometryState, cs: Size, m: Area, threshold: int, inset: int) -> bool {
    &&& on_monitor(prev.collapsed_rect.position, cs, m, inset)
    &&& prev.dock == docked_at(prev.collapsed_rect.position, cs, m, threshold, inset)
}

/// Where an expansion anchors the collapsed widget. From a remembered
/// geometry that is collapsed, or expanded and not dragged since (a second
/// expansion, to a new panel size, say), it keeps that geometry's dock and
/// its collapsed anchor, settled on the monitor, wherever the window now
/// is; from one expanded and dragged since, or from none, it starts from the
/// window's current position, moved onto the monitor.
pub proof fn lemma_expansion_anchor(
    current: Position,
    cs: Size,
    es: Size,
    m: Area,
    threshold: int,
    inset: int,
    previous: Option<WidgetGeometryState>,
    work_area: Option<Area>,
)
    ensures
        previous matches Some(prev) ==> ((prev.mode is Collapsed || !prev.user_moved_expanded) ==> ({
            let g = expanded_state(current, cs, es, m, threshold, inset, previous, work_area);
            &&& g.dock == prev.dock
            &&& g.collapsed_rect == WidgetRect {
                position: settled(prev.collapsed_rect.position, cs, prev.dock, m, inset),
                size: cs,
            }
        })),
        previous matches Some(prev) ==> ((prev.mode is Expanded && prev.user_moved_expanded) ==> (
        collapsed_for_expand(current, cs, m, threshold, inset, previous).0.size == cs && {
            let p = clamped(current, cs, m, inset);
            let r = collapsed_for_expand(current, cs, m, threshold, inset, previous);
            &&& r.1 == docked_at(p, cs, m, threshold, inset)
            &&& r.0.position == if is_docked_spec(r.1) {
                snapped(p, cs, r.1, m, inset)
            } else {
                p
            }
        })),
{
}

/// Collapsing the widget after it expanded, with no drag in between, puts
/// it back at the collapsed rectangle the expansion started from, docked to
/// the same edges, when the widget is smaller than the monitor; where the
/// expansion started from a remembered anchor, that anchor is one the
/// widget settles at (as every collapse leaves it for a widget dropped on
/// the monitor).
pub proof fn lemma_expand_then_collapse_restores(
    current: Position,
    previous: Option<WidgetGeometryState>,
    at_collapse: Position,
    cs: Size,
    es: Size,
    m: Area,
    threshold: int,
    inset: int,
    work_area: Option<Area>,
)
    requires
        clamp_ok(cs, m, inset),
        threshold >= 0,
        cs.width < m.size.width + 2 * inset,
        cs.height < m.size.height + 2 * inset,
        reuses_anchor(previous) ==> consistent_anchor(previous->Some_0, cs, m, threshold, inset),
    ensures
        ({
            let expanded = expanded_state(current, cs, es, m, threshold, inset, previous, work_area);
            let collapsed = collapsed_state(at_collapse, cs, m, threshold, inset, Some(expanded));
            &&& collapsed.collapsed_rect == expanded.collapsed_rect
            &&& collapsed.dock == expanded.dock
            &&& collapsed.mode is Collapsed
            &&& collapsed.expanded_rect is None
            &&& !collapsed.user_moved_expanded
        }),
{
    if reuses_anchor(previous) {
        let prev = previous->Some_0;
        let p = prev.collapsed_rect.position;
        lemma_clamp_idempotent(p, cs, m, inset);
        lemma_settle_idempotent(p, cs, prev.dock, m, inset);
        lemma_settled_keeps_dock(p, cs, m, threshold, inset);
    } else {
        let p = clamped(current, cs, m, inset);
        lemma_clamp_idempotent(current, cs, m, inset);
        let d = docked_at(p, cs, m, threshold, inset);
        lemma_clamp_idempotent(p, cs, m, inset);
        lemma_settle_idempotent(p, cs, d, m, inset);
        lemma_settled_keeps_dock(p, cs, m, threshold, inset);
        assert(settled(p, cs, d, m, inset) == (if is_docked_spec(d) {
            snapped(p, cs, d, m, inset)
        } else {
            p
        }));
    }
}

/// The end of a drag leaves the window on the monitor and records it: a
/// collapsed widget is remembered collapsed where it settled, with no
/// expanded rectangle and not marked as moved; an expanded panel with a
/// remembered geometry is remembered expanded where it was dropped, marked
/// as moved, its collapsed anchor kept; without one nothing is remembered.
pub proof fn lemma_finish_drag_records(
    current: WidgetRect,
    cs: Size,
    es: Size,
    m: Area,
    threshold: int,
    inset: int,
    drag_mode: Option<WidgetMode>,
    previous: Option<WidgetGeometryState>,
)
    requires
        finished_mode(drag_mode, previous, current, cs) is Collapsed ==> clamp_ok(cs, m, inset),
        finished_mode(drag_mode, previous, current, cs) is Expanded ==> clamp_ok(es, m, inset),
    ensures
        ({
            let (p, g) = drag_finished(current, cs, es, m, threshold, inset, drag_mode, previous);
            &&& finished_mode(drag_mode, previous, current, cs) is Collapsed ==> {
                &&& on_monitor(p, cs, m, inset)
                &&& g matches Some(state) && state.mode is Collapsed && state.collapsed_rect
                    == WidgetRect { position: p, size: cs } && state.expanded_rect is None
                    && !state.user_moved_expanded
            }
            &&& finished_mode(drag_mode, previous, current, cs) is Expanded ==> {
                &&& on_monitor(p, es, m, inset)
                &&& match previous {
                    Some(prev) => g matches Some(state) && state.mode is Expanded
                        && state.user_moved_expanded && state.expanded_rect == Some(
                        WidgetRect { position: p, size: es },
                    ) && state.collapsed_rect == prev.collapsed_rect && state.dock == prev.dock,
                    None => g is None,
                }
            }
        }),
{
    if finished_mode(drag_mode, previous, current, cs) is Collapsed {
        let d = docked_at(current.position, cs, m, threshold, inset);
        lemma_settle_idempotent(current.position, cs, d, m, inset);
    } else {
        lemma_clamp_idempotent(current.position, es, m, inset);
    }
}

} // verus!
