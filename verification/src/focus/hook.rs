//! Filtering of window events: which focus and foreground changes update
//! the focus context.
use vstd::prelude::*;

use crate::focus::tracker::FocusContext;

verus! {

/// Object id of a window's client area in window events.
pub const OBJID_CLIENT: i32 = -4;

/// How often the event thread pumps its messages, in milliseconds.
pub const POLL_INTERVAL_MS: u64 = 100;

/// The foreground window changed.
pub const EVENT_SYSTEM_FOREGROUND: u32 = 0x0003;

/// The keyboard focus changed.
pub const EVENT_OBJECT_FOCUS: u32 = 0x8005;

/// This application's windows, whose events are ignored.
#[derive(Debug, Clone, Copy, PartialEq, Eq)]
pub struct HookFilter {
    pub float_hwnd: isize,
    pub manager_hwnd: isize,
}

impl HookFilter {
    /// A filter for the given windows of this application.
    pub fn new(float_hwnd: isize, manager_hwnd: isize) -> (r: HookFilter)
        ensures
            r.float_hwnd == float_hwnd,
            r.manager_hwnd == manager_hwnd,
    {
        HookFilter { float_hwnd, manager_hwnd }
    }
}

/// Records the floating window's handle (it may be recreated).
pub fn update_float_hwnd(filter: &mut HookFilter, hwnd: isize)
    ensures
        final(filter).float_hwnd == hwnd,
        final(filter).manager_hwnd == old(filter).manager_hwnd,
{
    filter.float_hwnd = hwnd;
}

/// Records the manager window's handle.
pub fn update_manager_hwnd(filter: &mut HookFilter, hwnd: isize)
    ensures
        final(filter).manager_hwnd == hwnd,
        final(filter).float_hwnd == old(filter).float_hwnd,
{
    filter.manager_hwnd = hwnd;
}

/// An event is considered when it concerns the client area of a real
/// window that is not one of this application's.
pub fn accept_event(filter: &HookFilter, id_object: i32, hwnd: isize) -> (r: bool)
    ensures
        r == (id_object == OBJID_CLIENT && hwnd != 0 && hwnd != filter.float_hwnd && hwnd
            != filter.manager_hwnd),
{
    id_object == OBJID_CLIENT && hwnd != 0 && hwnd != filter.float_hwnd && hwnd
        != filter.manager_hwnd
}

/// The top-level window of an event: the window itself for a foreground
/// change, its root ancestor (or itself when none) for a focus change;
/// `None` for other events.
pub fn event_top_hwnd(event: u32, hwnd: isize, root: Option<isize>) -> (r: Option<isize>)
    ensures
        event == EVENT_SYSTEM_FOREGROUND ==> r == Some(hwnd),
        event == EVENT_OBJECT_FOCUS ==> r == Some(
            match root {
                Some(a) => a,
                None => hwnd,
            },
        ),
        event != EVENT_SYSTEM_FOREGROUND && event != EVENT_OBJECT_FOCUS ==> r is None,
{
    if event == EVENT_SYSTEM_FOREGROUND {
        Some(hwnd)
    } else if event == EVENT_OBJECT_FOCUS {
        match root {
            Some(a) => Some(a),
            None => Some(hwnd),
        }
    } else {
        None
    }
}

/// The thread to ask for the focused control: the event's thread when
/// known, else the window's.
pub fn effective_thread(event_thread: u32, window_thread: u32) -> (r: u32)
    ensures
        r == (if event_thread != 0 {
            event_thread
        } else {
            window_thread
        }),
{
    if event_thread != 0 {
        event_thread
    } else {
        window_thread
    }
}

/// Builds the context of an accepted event at `now_ms`: the focused
/// control is the one reported for the thread, else the event's window.
/// `None` when the event kind is not tracked or the top-level window is one
/// of this application's.
pub fn event_context(
    filter: &HookFilter,
    event: u32,
    hwnd: isize,
    root: Option<isize>,
    focused_ctl: Option<isize>,
    pid: u32,
    thread_id: u32,
    now_ms: u64,
) -> (r: Option<FocusContext>)
    ensures
        r matches Some(c) ==> ({
            &&& Some(c.top_hwnd) == event_top_hwnd_spec(event, hwnd, root)
            &&& c.top_hwnd != filter.float_hwnd && c.top_hwnd != filter.manager_hwnd
            &&& c.focus_ctl_hwnd == (match focused_ctl {
                Some(f) => f,
                None => hwnd,
            })
            &&& c.pid == pid && c.thread_id == thread_id && c.updated_at == Some(now_ms)
        }),
        r is None <==> (event_top_hwnd_spec(event, hwnd, root) matches Some(t) ==> (t
            == filter.float_hwnd || t == filter.manager_hwnd)),
{
    let top = match event_top_hwnd(event, hwnd, root) {
        Some(t) => t,
        None => return None,
    };
    if top == filter.float_hwnd || top == filter.manager_hwnd {
        return None;
    }
    let ctl = match focused_ctl {
        Some(f) => f,
        None => hwnd,
    };
    Some(FocusContext { top_hwnd: top, focus_ctl_hwnd: ctl, pid, thread_id, updated_at: Some(now_ms) })
}

/// The top-level window of an event (see `event_top_hwnd`).
pub open spec fn event_top_hwnd_spec(event: u32, hwnd: isize, root: Option<isize>) -> Option<isize> {
    if event == EVENT_SYSTEM_FOREGROUND {
        Some(hwnd)
    } else if event == EVENT_OBJECT_FOCUS {
        Some(
            match root {
                Some(a) => a,
                None => hwnd,
            },
        )
    } else {
        None
    }
}

} // verus!
