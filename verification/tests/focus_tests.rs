use seltalk::error::AppError;
use seltalk::focus::hook::{
    accept_event, event_context, update_float_hwnd, update_manager_hwnd, HookFilter,
    EVENT_OBJECT_FOCUS, EVENT_SYSTEM_FOREGROUND, OBJID_CLIENT, POLL_INTERVAL_MS,
};
use seltalk::focus::restore::{can_set_focus, is_foreground, restore_step, RestoreStep};
use seltalk::focus::tracker::{FocusContext, FocusTracker};
use seltalk::focus::uia::{choose_edit_control, keep_native_handles};
use seltalk::focus::validate::{validate_for_input, WindowFacts};
use seltalk::focus::{apply_edit_control, plan_after_validation, FallbackPlan, FocusManagerState};

const NOW: u64 = 1_000_000;

fn all_good() -> WindowFacts {
    WindowFacts { top_valid: true, ctl_valid: true, top_minimized: false, top_visible: true }
}

fn valid_ctx() -> FocusContext {
    FocusContext { top_hwnd: 12345, focus_ctl_hwnd: 12345, pid: 0, thread_id: 0, updated_at: Some(NOW) }
}

fn input_message(r: Result<(), AppError>) -> String {
    match r {
        Err(AppError::Input(msg)) => msg,
        _ => panic!("应为 Input 错误"),
    }
}

// ===== event hook =====

#[test]
fn test_objid_client_constant() {
    assert_eq!(OBJID_CLIENT, -4);
}

#[test]
fn test_poll_interval_within_target() {
    assert!(POLL_INTERVAL_MS >= 50);
    assert!(POLL_INTERVAL_MS <= 200);
}

#[test]
fn test_update_float_hwnd_no_panic_without_init() {
    let mut filter = HookFilter::new(0, 0);
    update_float_hwnd(&mut filter, 12345);
    update_manager_hwnd(&mut filter, 67890);
    assert_eq!(filter, HookFilter::new(12345, 67890));
}

#[test]
fn own_windows_are_filtered_out() {
    let filter = HookFilter::new(10, 20);
    assert!(accept_event(&filter, OBJID_CLIENT, 30));
    assert!(!accept_event(&filter, OBJID_CLIENT, 10));
    assert!(!accept_event(&filter, OBJID_CLIENT, 0));
    assert!(!accept_event(&filter, 0, 30));
    assert!(event_context(&filter, EVENT_OBJECT_FOCUS, 30, Some(20), None, 1, 2, NOW).is_none());
    let c = event_context(&filter, EVENT_OBJECT_FOCUS, 30, Some(40), None, 1, 2, NOW).unwrap();
    assert_eq!((c.top_hwnd, c.focus_ctl_hwnd, c.updated_at), (40, 30, Some(NOW)));
    let c = event_context(&filter, EVENT_SYSTEM_FOREGROUND, 30, Some(40), Some(31), 1, 2, NOW).unwrap();
    assert_eq!((c.top_hwnd, c.focus_ctl_hwnd), (30, 31));
    assert!(event_context(&filter, 7, 30, None, None, 1, 2, NOW).is_none());
}

// ===== restore =====

#[test]
fn test_is_foreground_zero_returns_false() {
    assert!(!is_foreground(0, 0));
    assert!(!is_foreground(0, 12345));
}

#[test]
fn test_reexported_is_foreground_zero_returns_false() {
    assert!(!is_foreground(0, 777));
}

#[test]
fn is_foreground_compares_with_current() {
    assert!(is_foreground(42, 42));
    assert!(!is_foreground(42, 43));
}

#[test]
fn restore_loop_steps() {
    assert_eq!(restore_step(0, 0, 3, false, false), RestoreStep::Done(false));
    assert_eq!(restore_step(5, 0, 3, false, false), RestoreStep::Attempt);
    assert_eq!(restore_step(5, 1, 3, false, false), RestoreStep::Retry);
    assert_eq!(restore_step(5, 1, 3, true, false), RestoreStep::Done(true));
    assert_eq!(restore_step(5, 3, 3, false, true), RestoreStep::Done(true));
    assert_eq!(restore_step(5, 3, 3, false, false), RestoreStep::Done(false));
}

#[test]
fn test_set_focus_to_ctl_zero_hwnd_returns_false() {
    assert!(!can_set_focus(0, 100));
}

#[test]
fn test_set_focus_to_ctl_zero_thread_returns_false() {
    assert!(!can_set_focus(100, 0));
}

#[test]
fn test_set_focus_to_ctl_both_zero_returns_false() {
    assert!(!can_set_focus(0, 0));
}

// ===== tracker =====

#[test]
fn test_focus_context_default_all_zero() {
    let ctx = FocusContext::default();
    assert_eq!(ctx.top_hwnd, 0);
    assert_eq!(ctx.focus_ctl_hwnd, 0);
    assert_eq!(ctx.pid, 0);
    assert_eq!(ctx.thread_id, 0);
    assert!(ctx.updated_at.is_none());
}

#[test]
fn test_focus_context_is_stale_when_never_updated() {
    let ctx = FocusContext::default();
    assert!(ctx.is_stale(1000, NOW));
}

#[test]
fn test_focus_context_is_stale_within_age_limit() {
    let ctx = FocusContext { updated_at: Some(NOW), ..Default::default() };
    assert!(!ctx.is_stale(30_000, NOW));
}

#[test]
fn test_focus_context_is_stale_beyond_age_limit() {
    let ctx = FocusContext { updated_at: Some(NOW - 10), ..Default::default() };
    assert!(ctx.is_stale(1, NOW));
}

#[test]
fn test_focus_context_is_initialized_false_for_default() {
    let ctx = FocusContext::default();
    assert!(!ctx.is_initialized());
}

#[test]
fn test_focus_context_is_initialized_true_after_update() {
    let ctx = FocusContext { top_hwnd: 12345, updated_at: Some(NOW), ..Default::default() };
    assert!(ctx.is_initialized());
}

#[test]
fn test_focus_tracker_snapshot_returns_clone() {
    let tracker = FocusTracker::new();
    let snap1 = tracker.snapshot();
    let mut snap2 = snap1.clone();
    snap2.top_hwnd = 99999;
    let snap3 = tracker.snapshot();
    assert_eq!(snap3.top_hwnd, 0);
    assert_ne!(snap3.top_hwnd, snap2.top_hwnd);
}

#[test]
fn test_focus_tracker_update_and_snapshot() {
    let mut tracker = FocusTracker::new();
    let ctx = FocusContext {
        top_hwnd: 111,
        focus_ctl_hwnd: 222,
        pid: 333,
        thread_id: 444,
        updated_at: Some(NOW),
    };
    tracker.update(ctx);
    let snap = tracker.snapshot();
    assert_eq!(snap.top_hwnd, 111);
    assert_eq!(snap.focus_ctl_hwnd, 222);
    assert_eq!(snap.pid, 333);
    assert_eq!(snap.thread_id, 444);
    assert!(snap.updated_at.is_some());
}

#[test]
fn test_focus_tracker_snapshot_on_poisoned_lock_returns_default() {
    let tracker = FocusTracker::new();
    let snap = tracker.snapshot();
    assert_eq!(snap.top_hwnd, 0);
}

// ===== validation =====

#[test]
fn test_validate_uninitialized_context() {
    let ctx = FocusContext::default();
    let result = validate_for_input(&ctx, 0, 0, NOW, &all_good());
    assert!(result.is_err());
    assert!(matches!(result, Err(AppError::Input(_))));
}

#[test]
fn test_validate_stale_context() {
    let ctx = FocusContext {
        top_hwnd: 12345,
        focus_ctl_hwnd: 12345,
        updated_at: Some(NOW - 60_000),
        ..Default::default()
    };
    let msg = input_message(validate_for_input(&ctx, 0, 0, NOW, &all_good()));
    assert!(msg.contains("过期"));
}

#[test]
fn test_validate_zero_top_hwnd() {
    let ctx = FocusContext { focus_ctl_hwnd: 12345, updated_at: Some(NOW), ..Default::default() };
    let msg = input_message(validate_for_input(&ctx, 0, 0, NOW, &all_good()));
    assert!(msg.contains("顶层窗口 HWND 为 0"));
}

#[test]
fn test_validate_zero_focus_ctl_hwnd() {
    let mut ctx = valid_ctx();
    ctx.focus_ctl_hwnd = 0;
    let msg = input_message(validate_for_input(&ctx, 0, 0, NOW, &all_good()));
    assert!(msg.contains("焦点控件 HWND 为 0"), "实际错误: {}", msg);
}

#[test]
fn test_validate_focus_ctl_is_float_window() {
    let ctx = valid_ctx();
    let msg = input_message(validate_for_input(&ctx, ctx.focus_ctl_hwnd, 0, NOW, &all_good()));
    assert!(msg.contains("悬浮窗"), "实际错误: {}", msg);
}

#[test]
fn test_validate_focus_ctl_is_manager_window() {
    let ctx = valid_ctx();
    let msg = input_message(validate_for_input(&ctx, 0, ctx.focus_ctl_hwnd, NOW, &all_good()));
    assert!(msg.contains("管理面板"), "实际错误: {}", msg);
}

#[test]
fn test_validate_top_hwnd_is_float_window() {
    let ctx = valid_ctx();
    let msg = input_message(validate_for_input(&ctx, ctx.top_hwnd, 0, NOW, &all_good()));
    assert!(msg.contains("悬浮窗"), "实际错误: {}", msg);
}

#[test]
fn test_validate_nonexistent_hwnd() {
    let ctx = FocusContext {
        top_hwnd: 0x7FFFFFFF,
        focus_ctl_hwnd: 0x7FFFFFFF,
        updated_at: Some(NOW),
        ..Default::default()
    };
    let facts = WindowFacts { top_valid: false, ctl_valid: false, top_minimized: false, top_visible: false };
    let msg = input_message(validate_for_input(&ctx, 0, 0, NOW, &facts));
    assert!(msg.contains("失效") || msg.contains("最小化") || msg.contains("不可见"));
    assert_eq!(msg, "顶层窗口已失效 (hwnd=2147483647)");
}

#[test]
fn validation_accepts_live_visible_window() {
    assert!(validate_for_input(&valid_ctx(), 1, 2, NOW, &all_good()).is_ok());
    let facts = WindowFacts { top_minimized: true, ..all_good() };
    assert_eq!(
        input_message(validate_for_input(&valid_ctx(), 1, 2, NOW, &facts)),
        "目标窗口已最小化 (hwnd=12345)"
    );
}

// ===== fallback and manager =====

#[test]
fn uia_fallback_plan() {
    let ctx = valid_ctx();
    assert!(matches!(plan_after_validation(&ctx, Ok(())), FallbackPlan::Proceed));
    assert!(matches!(
        plan_after_validation(&ctx, Err(AppError::Input("x".into()))),
        FallbackPlan::SearchEditControl
    ));
    let empty = FocusContext::default();
    assert!(matches!(
        plan_after_validation(&empty, Err(AppError::Input("x".into()))),
        FallbackPlan::Fail(AppError::Input(_))
    ));
    let fixed = apply_edit_control(&ctx, AppError::Busy, Ok(Some(99))).unwrap();
    assert_eq!(fixed.focus_ctl_hwnd, 99);
    assert!(apply_edit_control(&ctx, AppError::Busy, Ok(None)).is_err());
}

#[test]
fn test_find_focused_edit_via_uia_zero_current_focus() {
    assert_eq!(choose_edit_control(&vec![5], 0), Some(5));
    assert_eq!(choose_edit_control(&vec![5, 6], 0), None);
}

#[test]
fn edit_control_choice_prefers_current_focus() {
    assert_eq!(choose_edit_control(&vec![], 5), None);
    assert_eq!(choose_edit_control(&vec![4, 5], 5), Some(5));
    assert_eq!(keep_native_handles(&vec![0, 3, 0, 4]), vec![3, 4]);
}

#[test]
fn test_focus_manager_new_does_not_start_hook() {
    let mgr = FocusManagerState::new();
    assert!(!mgr.started);
    assert!(!mgr.shutdown);
}

#[test]
fn test_update_float_hwnd_no_panic() {
    let mut mgr = FocusManagerState::new();
    mgr.update_float_hwnd(12345);
    assert_eq!(mgr.float_hwnd, 12345);
}

#[test]
fn test_update_manager_hwnd_no_panic() {
    let mut mgr = FocusManagerState::new();
    mgr.update_manager_hwnd(67890);
    assert_eq!(mgr.manager_hwnd, 67890);
}

#[test]
fn test_shutdown_without_start_no_panic() {
    let mut mgr = FocusManagerState::new();
    assert!(!mgr.shutdown());
}

#[test]
fn focus_manager_refuses_second_start() {
    let mut mgr = FocusManagerState::new();
    assert!(mgr.start(1, 2).is_ok());
    let e = mgr.start(3, 4).unwrap_err();
    assert_eq!(e.message(), "配置错误：WinEvent 钩子已启动（重复调用 start）");
    assert_eq!(mgr.float_hwnd, 1);
    assert!(mgr.shutdown());
}
