//! Tracking and restoring the input focus of the target window.
//!
//! The focus context is kept up to date from window events; before typing
//! it is checked, repaired through UI Automation when possible, and the
//! target window is brought back to the foreground.
use vstd::prelude::*;

pub mod hook;
pub mod restore;
pub mod tracker;
pub mod uia;
pub mod validate;

use crate::error::AppError;
use crate::focus::tracker::FocusContext;

verus! {

/// What to do after the first validation of the focus context.
#[derive(Debug)]
pub enum FallbackPlan {
    /// The context is valid: restore the focus.
    Proceed,
    /// Look for an editable control of the top window through UI Automation.
    SearchEditControl,
    /// Give up with the validation error.
    Fail(AppError),
}

/// After a failed validation, a UI Automation search is only possible when
/// the top window is known.
pub fn plan_after_validation(ctx: &FocusContext, result: Result<(), AppError>) -> (r: FallbackPlan)
    ensures
        result is Ok ==> r is Proceed,
        result matches Err(e) ==> (ctx.top_hwnd != 0 ==> r is SearchEditControl),
        result matches Err(e) ==> (ctx.top_hwnd == 0 ==> (r matches FallbackPlan::Fail(f) && f == e)),
{
    match result {
        Ok(()) => FallbackPlan::Proceed,
        Err(e) => {
            if ctx.top_hwnd != 0 {
                FallbackPlan::SearchEditControl
            } else {
                FallbackPlan::Fail(e)
            }
        },
    }
}

/// What the UI Automation search leads to: with a control found, the
/// context with that control (to be validated again); otherwise the first
/// validation error.
pub fn apply_edit_control(ctx: &FocusContext, first_error: AppError, found: Result<
    Option<isize>,
    AppError,
>) -> (r: Result<FocusContext, AppError>)
    ensures
        found matches Ok(Some(h)) ==> (r matches Ok(c) && c == (FocusContext {
            focus_ctl_hwnd: h,
            ..*ctx
        })),
        !(found matches Ok(Some(_))) ==> r == Err::<FocusContext, AppError>(first_error),
{
    match found {
        Ok(Some(h)) => Ok(FocusContext { focus_ctl_hwnd: h, ..*ctx }),
        _ => Err(first_error),
    }
}

/// The focus manager's own state: this application's windows and whether
/// the event hook is running.
#[derive(Debug, Clone, Copy, PartialEq, Eq)]
pub struct FocusManagerState {
    pub float_hwnd: isize,
    pub manager_hwnd: isize,
    pub started: bool,
    pub shutdown: bool,
}

impl FocusManagerState {
    /// Not started, no windows known.
    pub fn new() -> (r: FocusManagerState)
        ensures
            r == (FocusManagerState { float_hwnd: 0, manager_hwnd: 0, started: false, shutdown: false }),
    {
        FocusManagerState { float_hwnd: 0, manager_hwnd: 0, started: false, shutdown: false }
    }

    /// Starts with the given windows; starting twice is refused.
    pub fn start(&mut self, float_hwnd: isize, manager_hwnd: isize) -> (r: Result<(), AppError>)
        ensures
            old(self).started ==> r is Err && *final(self) == *old(self) && r->Err_0
                == AppError::Config(r->Err_0->Config_0) && r->Err_0->Config_0@
                == "WinEvent 钩子已启动（重复调用 start）"@,
            !old(self).started ==> r is Ok && *final(self) == (FocusManagerState {
                float_hwnd,
                manager_hwnd,
                started: true,
                shutdown: old(self).shutdown,
            }),
    {
        if self.started {
            return Err(AppError::Config("WinEvent 钩子已启动（重复调用 start）".to_owned()));
        }
        self.float_hwnd = float_hwnd;
        self.manager_hwnd = manager_hwnd;
        self.started = true;
        Ok(())
    }

    /// Asks the hook to stop; returns whether there was a running hook to join.
    pub fn shutdown(&mut self) -> (r: bool)
        ensures
            r == old(self).started,
            final(self).shutdown,
            !final(self).started,
            final(self).float_hwnd == old(self).float_hwnd,
            final(self).manager_hwnd == old(self).manager_hwnd,
    {
        self.shutdown = true;
        let was = self.started;
        self.started = false;
        was
    }

    /// Records a new floating-window handle.
    pub fn update_float_hwnd(&mut self, hwnd: isize)
        ensures
            *final(self) == (FocusManagerState { float_hwnd: hwnd, ..*old(self) }),
    {
        self.float_hwnd = hwnd;
    }

    /// Records a new manager-window handle.
    pub fn update_manager_hwnd(&mut self, hwnd: isize)
        ensures
            *final(self) == (FocusManagerState { manager_hwnd: hwnd, ..*old(self) }),
    {
        self.manager_hwnd = hwnd;
    }
}

} // verus!
