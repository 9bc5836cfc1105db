//! Bringing the target window back to the foreground.
use vstd::prelude::*;

verus! {

/// Whether `hwnd` is the foreground window, given the current foreground
/// window; the null window never is.
pub fn is_foreground(hwnd: isize, foreground: isize) -> (r: bool)
    ensures
        r == (hwnd != 0 && foreground == hwnd),
{
    if hwnd == 0 {
        return false;
    }
    foreground == hwnd
}

/// The next step of the restore loop.
#[derive(Debug, Clone, Copy, PartialEq, Eq)]
pub enum RestoreStep {
    /// Wait the retry interval, then try to set the foreground window.
    Retry,
    /// Try to set the foreground window now.
    Attempt,
    /// Stop: the window is (`true`) or is not (`false`) in the foreground.
    Done(bool),
}

/// The restore loop: attempt `attempt` of `max_retries` (counting from 0),
/// where `confirmed` says the previous attempt put the window in front.
/// The first attempt is immediate, later ones wait; after the last attempt
/// the foreground is checked once more (`final_check`).
pub fn restore_step(hwnd: isize, attempt: u32, max_retries: u32, confirmed: bool, final_check: bool) -> (r:
    RestoreStep)
    ensures
        hwnd == 0 ==> r == RestoreStep::Done(false),
        hwnd != 0 && confirmed ==> r == RestoreStep::Done(true),
        hwnd != 0 && !confirmed && attempt < max_retries ==> r == (if attempt == 0 {
            RestoreStep::Attempt
        } else {
            RestoreStep::Retry
        }),
        hwnd != 0 && !confirmed && attempt >= max_retries ==> r == RestoreStep::Done(final_check),
{
    if hwnd == 0 {
        return RestoreStep::Done(false);
    }
    if confirmed {
        return RestoreStep::Done(true);
    }
    if attempt < max_retries {
        if attempt == 0 {
            RestoreStep::Attempt
        } else {
            RestoreStep::Retry
        }
    } else {
        RestoreStep::Done(final_check)
    }
}

/// Whether setting the keyboard focus to a control can be tried at all:
/// both the control and its thread must be known.
pub fn can_set_focus(ctl_hwnd: isize, target_thread_id: u32) -> (r: bool)
    ensures
        r == (ctl_hwnd != 0 && target_thread_id != 0),
{
    ctl_hwnd != 0 && target_thread_id != 0
}

/// Setting the foreground window from another thread needs its input
/// attached to the foreground thread first.
pub fn needs_attach(foreground_thread: u32, current_thread: u32) -> (r: bool)
    ensures
        r == (foreground_thread != 0 && current_thread != foreground_thread),
{
    foreground_thread != 0 && current_thread != foreground_thread
}

} // verus!
