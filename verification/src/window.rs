//! Placement and pinning of the floating candidate window.
use vstd::prelude::*;

use crate::db::WindowState;

verus! {

/// Label of the floating window.
pub const FLOAT_LABEL: &'static str = "float";

/// Distance between the mouse pointer and the window it opens.
pub const CURSOR_OFFSET: i32 = 16;

/// How the floating window stays on top: not at all, persistently, or only
/// while it is shown.
#[derive(Debug, Clone, Copy, PartialEq, Eq, Structural)]
pub enum PinMode {
    Off,
    Normal,
    Temp,
}

/// The pin mode of the stored flag and the runtime temporary flag; the
/// temporary flag wins.
pub open spec fn pin_mode_spec(normal: bool, temp: bool) -> PinMode {
    if temp {
        PinMode::Temp
    } else if normal {
        PinMode::Normal
    } else {
        PinMode::Off
    }
}

/// The pin mode of the stored and temporary flags.
pub fn pin_mode(normal: bool, temp: bool) -> (r: PinMode)
    ensures
        r == pin_mode_spec(normal, temp),
{
    if temp {
        PinMode::Temp
    } else if normal {
        PinMode::Normal
    } else {
        PinMode::Off
    }
}

/// The mode after one press of the pin button.
pub open spec fn next_pin_mode_spec(current: PinMode) -> PinMode {
    match current {
        PinMode::Off => PinMode::Normal,
        PinMode::Normal => PinMode::Temp,
        PinMode::Temp => PinMode::Off,
    }
}

/// Cycles Off → Normal → Temp → Off.
pub fn next_pin_mode(current: PinMode) -> (r: PinMode)
    ensures
        r == next_pin_mode_spec(current),
{
    match current {
        PinMode::Off => PinMode::Normal,
        PinMode::Normal => PinMode::Temp,
        PinMode::Temp => PinMode::Off,
    }
}

/// The flags that hold a mode: `(stored always-on-top, temporary)`.
/// Temporary pinning keeps the stored flag off, so hiding the window ends it.
pub open spec fn pin_flags_spec(mode: PinMode) -> (bool, bool) {
    match mode {
        PinMode::Off => (false, false),
        PinMode::Normal => (true, false),
        PinMode::Temp => (false, true),
    }
}

/// The stored and temporary flags for a mode.
pub fn pin_flags(mode: PinMode) -> (r: (bool, bool))
    ensures
        r == pin_flags_spec(mode),
{
    match mode {
        PinMode::Off => (false, false),
        PinMode::Normal => (true, false),
        PinMode::Temp => (false, true),
    }
}

/// Three presses of the pin button come back to the start, and the flags
/// chosen for a mode read back as that mode.
pub proof fn lemma_pin_cycle(m: PinMode)
    ensures
        next_pin_mode_spec(next_pin_mode_spec(next_pin_mode_spec(m))) == m,
        next_pin_mode_spec(m) != m,
        pin_mode_spec(pin_flags_spec(m).0, pin_flags_spec(m).1) == m,
{
}

/// A monitor's work area (the desktop without the taskbar), in physical
/// pixels.
#[derive(Debug, Clone, Copy)]
pub struct PhysicalRect {
    pub x: i32,
    pub y: i32,
    pub width: i32,
    pub height: i32,
}

impl PhysicalRect {
    /// The work area given by its edges: origin at the top-left corner,
    /// width and height the distances between opposite edges.
    pub fn from_edges(left: i32, top: i32, right: i32, bottom: i32) -> (r: PhysicalRect)
        requires
            i32::MIN <= right - left <= i32::MAX,
            i32::MIN <= bottom - top <= i32::MAX,
        ensures
            r.x == left,
            r.y == top,
            r.width == right - left,
            r.height == bottom - top,
    {
        PhysicalRect { x: left, y: top, width: right - left, height: bottom - top }
    }
}

/// What placing the window near the mouse needs, in logical pixels.
#[derive(Debug, Clone, Copy)]
pub struct CursorPositionInput {
    pub mouse_x: i32,
    pub mouse_y: i32,
    pub mon_x: i32,
    pub mon_y: i32,
    pub mon_w: i32,
    pub mon_h: i32,
    pub float_w: i32,
    pub float_h: i32,
    pub offset: i32,
}

/// All the sums the placement computes fit in an `i32`.
pub open spec fn placement_fits(i: CursorPositionInput) -> bool {
    let lo = i32::MIN as int;
    let hi = i32::MAX as int;
    &&& lo <= i.mouse_x + i.offset <= hi
    &&& lo <= i.mouse_y + i.offset <= hi
    &&& lo <= i.mouse_x + i.offset + i.float_w <= hi
    &&& lo <= i.mouse_y + i.offset + i.float_h <= hi
    &&& lo <= i.mon_x + i.mon_w <= hi
    &&& lo <= i.mon_y + i.mon_h <= hi
    &&& lo <= i.mouse_x - i.offset <= hi
    &&& lo <= i.mouse_y - i.offset <= hi
    &&& lo <= i.mouse_x - i.offset - i.float_w <= hi
    &&& lo <= i.mouse_y - i.offset - i.float_h <= hi
}

/// One axis of the placement: after the pointer, or before it when the
/// window would pass the far edge, and never before the near edge.
pub open spec fn place_axis(mouse: int, offset: int, size: int, start: int, extent: int) -> int {
    let a = if mouse + offset + size > start + extent {
        mouse - offset - size
    } else {
        mouse + offset
    };
    if a < start {
        start
    } else {
        a
    }
}

/// Where the window opens: below right of the pointer, flipped left or up
/// when it would leave the monitor's work area, and clamped to the area's
/// top-left corner.
pub fn calc_cursor_position(input: CursorPositionInput) -> (r: (i32, i32))
    requires
        placement_fits(input),
    ensures
        r.0 == place_axis(
            input.mouse_x as int,
            input.offset as int,
            input.float_w as int,
            input.mon_x as int,
            input.mon_w as int,
        ),
        r.1 == place_axis(
            input.mouse_y as int,
            input.offset as int,
            input.float_h as int,
            input.mon_y as int,
            input.mon_h as int,
        ),
{
    let mut x = input.mouse_x + input.offset;
    let mut y = input.mouse_y + input.offset;
    if x + input.float_w > input.mon_x + input.mon_w {
        x = input.mouse_x - input.offset - input.float_w;
    }
    if y + input.float_h > input.mon_y + input.mon_h {
        y = input.mouse_y - input.offset - input.float_h;
    }
    if x < input.mon_x {
        x = input.mon_x;
    }
    if y < input.mon_y {
        y = input.mon_y;
    }
    (x, y)
}

/// One axis of the boundary correction: inside `[min, max]`, snapped to
/// `min` when the window is larger than the monitor.
pub open spec fn clamp_axis(v: int, min: int, max: int) -> int {
    if max < min || v < min {
        min
    } else if v > max {
        max
    } else {
        v
    }
}

/// Moves a saved window state back inside a monitor (logical pixels).
pub fn correct_state_boundary(s: &mut WindowState, mon_x: i32, mon_y: i32, mon_w: u32, mon_h: u32)
    requires
        mon_w <= i32::MAX,
        mon_h <= i32::MAX,
        old(s).w <= i32::MAX,
        old(s).h <= i32::MAX,
        i32::MIN <= mon_x + mon_w - old(s).w <= i32::MAX,
        i32::MIN <= mon_y + mon_h - old(s).h <= i32::MAX,
        i32::MIN <= mon_x + mon_w <= i32::MAX,
        i32::MIN <= mon_y + mon_h <= i32::MAX,
    ensures
        final(s).x == clamp_axis(old(s).x as int, mon_x as int, mon_x + mon_w - old(s).w),
        final(s).y == clamp_axis(old(s).y as int, mon_y as int, mon_y + mon_h - old(s).h),
        final(s).w == old(s).w,
        final(s).h == old(s).h,
        final(s).always_on_top == old(s).always_on_top,
{
    let min_x = mon_x;
    let min_y = mon_y;
    let max_x = mon_x + mon_w as i32 - s.w as i32;
    let max_y = mon_y + mon_h as i32 - s.h as i32;
    if max_x < min_x || s.x < min_x {
        s.x = min_x;
    } else if s.x > max_x {
        s.x = max_x;
    }
    if max_y < min_y || s.y < min_y {
        s.y = min_y;
    } else if s.y > max_y {
        s.y = max_y;
    }
}

/// The state of a window never saved: at (100, 100) with the configured
/// size and pinning.
pub fn default_window_state(w: u32, h: u32, always_on_top: bool) -> (r: WindowState)
    ensures
        r == (WindowState { x: 100, y: 100, w, h, always_on_top }),
{
    WindowState { x: 100, y: 100, w, h, always_on_top }
}

/// Whether the window is shown on top: pinned persistently or temporarily.
pub fn effective_on_top(always_on_top: bool, temp: bool) -> (r: bool)
    ensures
        r == (always_on_top || temp),
{
    always_on_top || temp
}

/// The extended window style that keeps a window from being activated.
pub const WS_EX_NOACTIVATE: isize = 0x0800_0000;

/// The extended style with `WS_EX_NOACTIVATE` added, or `None` when it is
/// already set (nothing to write).
pub fn noactivate_style(ex_style: isize) -> (r: Option<isize>)
    ensures
        ex_style & WS_EX_NOACTIVATE != 0 ==> r is None,
        ex_style & WS_EX_NOACTIVATE == 0 ==> r == Some(ex_style | WS_EX_NOACTIVATE),
{
    if ex_style & WS_EX_NOACTIVATE != 0 {
        None
    } else {
        Some(ex_style | WS_EX_NOACTIVATE)
    }
}

} // verus!
