//! The cached focus context: the top-level window and focused control the
//! user last worked in, and when that was observed.
use vstd::prelude::*;

verus! {

/// The focus context.  Times are milliseconds of a monotonic clock.
#[derive(Debug, Clone, Copy, PartialEq, Eq)]
pub struct FocusContext {
    pub top_hwnd: isize,
    pub focus_ctl_hwnd: isize,
    pub pid: u32,
    pub thread_id: u32,
    pub updated_at: Option<u64>,
}

/// The context at `now_ms` is older than `max_age_ms` (or was never set).
pub open spec fn stale_at(ctx: FocusContext, max_age_ms: u64, now_ms: u64) -> bool {
    match ctx.updated_at {
        None => true,
        Some(t) => now_ms > t && now_ms - t > max_age_ms,
    }
}

impl FocusContext {
    /// The empty context: no window, never updated.
    pub fn new() -> (r: FocusContext)
        ensures
            r.top_hwnd == 0,
            r.focus_ctl_hwnd == 0,
            r.pid == 0,
            r.thread_id == 0,
            r.updated_at is None,
    {
        FocusContext { top_hwnd: 0, focus_ctl_hwnd: 0, pid: 0, thread_id: 0, updated_at: None }
    }

    /// Whether the context is older than `max_age_ms` at `now_ms`; a context
    /// never updated is stale.
    pub fn is_stale(&self, max_age_ms: u64, now_ms: u64) -> (r: bool)
        ensures
            r == stale_at(*self, max_age_ms, now_ms),
    {
        match self.updated_at {
            None => true,
            Some(t) => now_ms > t && now_ms - t > max_age_ms,
        }
    }

    /// The context has been updated with a real window.
    pub fn is_initialized(&self) -> (r: bool)
        ensures
            r == (self.updated_at is Some && self.top_hwnd != 0),
    {
        self.updated_at.is_some() && self.top_hwnd != 0
    }
}

/// Holds the latest focus context.
#[derive(Debug)]
pub struct FocusTracker {
    context: FocusContext,
}

impl FocusTracker {
    /// The stored context.
    pub closed spec fn current(&self) -> FocusContext {
        self.context
    }

    /// A tracker holding the empty context.
    pub fn new() -> (r: FocusTracker)
        ensures
            r.current() == FocusContext::new_spec(),
    {
        FocusTracker { context: FocusContext::new() }
    }

    /// A copy of the stored context.
    pub fn snapshot(&self) -> (r: FocusContext)
        ensures
            r == self.current(),
    {
        self.context
    }

    /// Replaces the stored context.
    pub fn update(&mut self, ctx: FocusContext)
        ensures
            final(self).current() == ctx,
    {
        self.context = ctx;
    }
}

impl FocusContext {
    /// The empty context.
    pub open spec fn new_spec() -> FocusContext {
        FocusContext { top_hwnd: 0, focus_ctl_hwnd: 0, pid: 0, thread_id: 0, updated_at: None }
    }
}

impl Default for FocusContext {
    /// The empty context.
    fn default() -> (r: FocusContext)
        ensures
            r == FocusContext::new_spec(),
    {
        FocusContext::new()
    }
}

impl Default for FocusTracker {
    /// A tracker holding the empty context.
    fn default() -> (r: FocusTracker)
        ensures
            r.current() == FocusContext::new_spec(),
    {
        FocusTracker::new()
    }
}

} // verus!
