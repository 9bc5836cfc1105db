//! The check made before typing: the focus context must be recent, name
//! live windows, not belong to this application, and the target window must
//! be shown.
use vstd::prelude::*;

use crate::chars::{concat3, i64_to_string, signed_decimal_seq};
use crate::error::AppError;
use crate::focus::tracker::{stale_at, FocusContext};

verus! {

/// The focus context may be at most this old, in seconds.
pub const MAX_CACHE_AGE_SECS: u64 = 30;

/// What the window system says of the windows of a context.
#[derive(Debug, Clone, Copy)]
pub struct WindowFacts {
    /// The top-level window still exists.
    pub top_valid: bool,
    /// The focused control still exists.
    pub ctl_valid: bool,
    /// The top-level window is minimized.
    pub top_minimized: bool,
    /// The top-level window is visible.
    pub top_visible: bool,
}

/// The reason the context cannot receive input, or `None` when it can.
pub open spec fn input_refusal(
    ctx: FocusContext,
    float_hwnd: isize,
    manager_hwnd: isize,
    now_ms: u64,
    facts: WindowFacts,
) -> Option<Seq<char>> {
    if ctx.updated_at is None {
        Some("焦点上下文未初始化（WinEvent 钩子可能未启动）"@)
    } else if stale_at(ctx, (MAX_CACHE_AGE_SECS * 1000) as u64, now_ms) {
        Some("焦点上下文已过期（超过 30 秒未更新）"@)
    } else if ctx.top_hwnd == 0 {
        Some("顶层窗口 HWND 为 0"@)
    } else if !facts.top_valid {
        Some("顶层窗口已失效 (hwnd="@ + signed_decimal_seq(ctx.top_hwnd as int) + ")"@)
    } else if ctx.focus_ctl_hwnd == 0 {
        Some("焦点控件 HWND 为 0"@)
    } else if !facts.ctl_valid {
        Some("焦点控件已失效 (hwnd="@ + signed_decimal_seq(ctx.focus_ctl_hwnd as int) + ")"@)
    } else if ctx.focus_ctl_hwnd == float_hwnd {
        Some("焦点控件为本程序悬浮窗，禁止输入"@)
    } else if ctx.focus_ctl_hwnd == manager_hwnd {
        Some("焦点控件为本程序管理面板，禁止输入"@)
    } else if ctx.top_hwnd == float_hwnd {
        Some("顶层窗口为本程序悬浮窗，禁止输入"@)
    } else if ctx.top_hwnd == manager_hwnd {
        Some("顶层窗口为本程序管理面板，禁止输入"@)
    } else if facts.top_minimized {
        Some("目标窗口已最小化 (hwnd="@ + signed_decimal_seq(ctx.top_hwnd as int) + ")"@)
    } else if !facts.top_visible {
        Some("目标窗口不可见 (hwnd="@ + signed_decimal_seq(ctx.top_hwnd as int) + ")"@)
    } else {
        None
    }
}

fn with_hwnd(prefix: &str, hwnd: isize) -> (r: String)
    ensures
        r@ == prefix@ + signed_decimal_seq(hwnd as int) + ")"@,
{
    let n = i64_to_string(hwnd as i64);
    concat3(prefix, n.as_str(), ")")
}

/// Checks that the focus context can receive input at `now_ms`, given what
/// the window system reports of its windows; `float_hwnd` and
/// `manager_hwnd` are this application's windows.
pub fn validate_for_input(
    ctx: &FocusContext,
    float_hwnd: isize,
    manager_hwnd: isize,
    now_ms: u64,
    facts: &WindowFacts,
) -> (r: Result<(), AppError>)
    ensures
        r is Ok <==> input_refusal(*ctx, float_hwnd, manager_hwnd, now_ms, *facts) is None,
        r is Err ==> r->Err_0 == AppError::Input(r->Err_0->Input_0) && Some(r->Err_0->Input_0@)
            == input_refusal(*ctx, float_hwnd, manager_hwnd, now_ms, *facts),
{
    if ctx.updated_at.is_none() {
        return Err(AppError::Input("焦点上下文未初始化（WinEvent 钩子可能未启动）".to_owned()));
    }
    if ctx.is_stale(MAX_CACHE_AGE_SECS * 1000, now_ms) {
        return Err(AppError::Input("焦点上下文已过期（超过 30 秒未更新）".to_owned()));
    }
    if ctx.top_hwnd == 0 {
        return Err(AppError::Input("顶层窗口 HWND 为 0".to_owned()));
    }
    if !facts.top_valid {
        return Err(AppError::Input(with_hwnd("顶层窗口已失效 (hwnd=", ctx.top_hwnd)));
    }
    if ctx.focus_ctl_hwnd == 0 {
        return Err(AppError::Input("焦点控件 HWND 为 0".to_owned()));
    }
    if !facts.ctl_valid {
        return Err(AppError::Input(with_hwnd("焦点控件已失效 (hwnd=", ctx.focus_ctl_hwnd)));
    }
    if ctx.focus_ctl_hwnd == float_hwnd {
        return Err(AppError::Input("焦点控件为本程序悬浮窗，禁止输入".to_owned()));
    }
    if ctx.focus_ctl_hwnd == manager_hwnd {
        return Err(AppError::Input("焦点控件为本程序管理面板，禁止输入".to_owned()));
    }
    if ctx.top_hwnd == float_hwnd {
        return Err(AppError::Input("顶层窗口为本程序悬浮窗，禁止输入".to_owned()));
    }
    if ctx.top_hwnd == manager_hwnd {
        return Err(AppError::Input("顶层窗口为本程序管理面板，禁止输入".to_owned()));
    }
    if facts.top_minimized {
        return Err(AppError::Input(with_hwnd("目标窗口已最小化 (hwnd=", ctx.top_hwnd)));
    }
    if !facts.top_visible {
        return Err(AppError::Input(with_hwnd("目标窗口不可见 (hwnd=", ctx.top_hwnd)));
    }
    Ok(())
}

/// A context that this application's windows own is never accepted.
pub proof fn lemma_own_windows_refused(
    ctx: FocusContext,
    float_hwnd: isize,
    manager_hwnd: isize,
    now_ms: u64,
    facts: WindowFacts,
)
    requires
        ctx.focus_ctl_hwnd == float_hwnd || ctx.focus_ctl_hwnd == manager_hwnd || ctx.top_hwnd
            == float_hwnd || ctx.top_hwnd == manager_hwnd,
    ensures
        input_refusal(ctx, float_hwnd, manager_hwnd, now_ms, facts) is Some,
{
}

} // verus!
