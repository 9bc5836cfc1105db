use seltalk::capture::{
    clipboard_capture, detect_target, identify_window_type, poll_step, require_target,
    text_from_selection, text_from_value, uia_text, CaptureMethod, PollStep, TargetWindowType,
    WindowInfo,
};
use seltalk::capture_flow::{
    captured_text, find_adoptable, history_page, history_records, request_id, typing_event,
    validate_llm_config, CaptureWindows, HistoryRecord, LlmDonePayload, EVENT_TYPING_DONE,
};
use seltalk::clipboard::{
    is_text_format, read_text_or_empty, read_text_with_restore, should_write,
    ClipboardFormatData, CF_OEMTEXT, CF_TEXT, CF_UNICODETEXT,
};
use seltalk::config::{
    check_clipboard_mode, clipboard_mode_or_default, config_from_settings, flag_setting, parse_u32,
    parse_u64, restores_clipboard, AppConfig, DEFAULT_CANDIDATE_COUNT, DEFAULT_HOTKEY,
    DEFAULT_TYPE_MIN_MS,
};
use seltalk::db::{
    check_prompt_index, history_count_query, history_filter, history_list_query, import_step,
    is_sensitive, migration_plan, stored_version, top_limit, word_list_query, BatchResult,
    HistoryFilter, ImportStep, MigrationPlan, SqlParam, WordFilter,
};
use seltalk::error::AppError;
use seltalk::hotkey::{
    float_shortcut_list, is_reserved, normalize_hotkey, route_shortcut, validate_shortcut,
    ShortcutRoute,
};
use seltalk::input::{
    before_char, bmp_code, delay_bounds, is_escape_pressed, legacy_precheck, normalize_newlines,
    random_delay, scan_code, typing_precheck, TypingConfig, TypingStatus, DEFAULT_DELAY_MAX,
    DEFAULT_DELAY_MIN,
};
use seltalk::llm::chat::LlmConfig;
use seltalk::orchestrator::{
    prepare_text, regenerate_outcome, template_or_default, Session, TriggerOutcome, TypingOutcome,
};
use seltalk::security::{
    bytes_to_hex, decode_stored, encode_stored, hex_to_bytes, is_encrypted,
};
use seltalk::state::{acquire, release, CacheVersion, GuardedLock, TaskLock};

// ===== hotkey =====

#[test]
fn test_normalize_lowercases_and_strips_spaces() {
    assert_eq!(normalize_hotkey("Ctrl+Shift+Space"), "ctrl+shift+space");
}

#[test]
fn test_normalize_trims_whitespace() {
    assert_eq!(normalize_hotkey("  Ctrl+C  "), "ctrl+c");
}

#[test]
fn test_is_reserved_ctrl_single_letter() {
    assert!(is_reserved("Ctrl+C"));
    assert!(is_reserved("Ctrl+V"));
    assert!(is_reserved("Ctrl+X"));
    assert!(is_reserved("Ctrl+Z"));
    assert!(is_reserved("Ctrl+A"));
    assert!(is_reserved("Ctrl+S"));
}

#[test]
fn test_is_reserved_alt_f4_and_tab() {
    assert!(is_reserved("Alt+F4"));
    assert!(is_reserved("Alt+Tab"));
}

#[test]
fn test_not_reserved_multi_modifier() {
    assert!(!is_reserved("Alt+X"));
    assert!(!is_reserved("Ctrl+Shift+Space"));
    assert!(!is_reserved("Ctrl+Shift+C"));
    assert!(!is_reserved("Ctrl+Alt+D"));
}

#[test]
fn test_validate_rejects_reserved() {
    assert!(validate_shortcut("Ctrl+C", None).is_err());
    assert!(validate_shortcut("Alt+F4", None).is_err());
}

#[test]
fn test_validate_accepts_normal() {
    assert!(validate_shortcut("Alt+X", None).is_ok());
    assert!(validate_shortcut("Ctrl+Shift+Space", None).is_ok());
}

#[test]
fn parse_errors_are_reported_first() {
    let e = validate_shortcut("Ctrl+?", Some("bad key".to_string())).unwrap_err();
    assert_eq!(e.message(), "热键错误：热键解析失败 'Ctrl+?': bad key");
    assert!(!is_reserved("Ctrl+1"));
    assert!(is_reserved(" ctrl + q "));
}

#[test]
fn test_float_shortcuts_not_empty() {
    assert!(!float_shortcut_list().is_empty());
}

#[test]
fn test_float_shortcuts_no_conflict_with_main_hotkey() {
    let main = normalize_hotkey("Ctrl+Shift+Space");
    for sc in float_shortcut_list() {
        let normalized = normalize_hotkey(sc);
        assert_ne!(normalized, main, "悬浮窗快捷键 '{}' 与主热键冲突", sc);
    }
}

#[test]
fn test_float_shortcuts_contains_required_keys() {
    let normalized: Vec<String> = float_shortcut_list().iter().map(|s| normalize_hotkey(s)).collect();
    assert!(normalized.contains(&"tab".to_string()), "缺少 Tab 键");
    assert!(normalized.contains(&"up".to_string()), "缺少 Up 键");
    assert!(normalized.contains(&"down".to_string()), "缺少 Down 键");
    assert!(normalized.contains(&"r".to_string()), "缺少 R 键");
    assert!(normalized.contains(&"escape".to_string()), "缺少 Escape 键");
}

#[test]
fn shortcut_events_are_routed() {
    assert_eq!(route_shortcut(false, true), ShortcutRoute::Ignore);
    assert_eq!(route_shortcut(true, true), ShortcutRoute::Trigger);
    assert_eq!(route_shortcut(true, false), ShortcutRoute::ForwardToFloat);
}

// ===== typing =====

#[test]
fn test_typing_config_default() {
    let config = TypingConfig::default();
    assert_eq!(config.delay_min_ms, DEFAULT_DELAY_MIN);
    assert_eq!(config.delay_max_ms, DEFAULT_DELAY_MAX);
}

#[test]
fn test_normalize_newlines_crlf() {
    assert_eq!(normalize_newlines("a\r\nb"), "a\nb");
}

#[test]
fn test_normalize_newlines_cr_only() {
    assert_eq!(normalize_newlines("a\rb"), "a\nb");
}

#[test]
fn test_normalize_newlines_lf_preserved() {
    assert_eq!(normalize_newlines("a\nb"), "a\nb");
}

#[test]
fn test_random_delay_normal() {
    let delay = random_delay(50, 150);
    assert!(delay >= 50 && delay <= 150);
}

#[test]
fn test_random_delay_min_equal_max() {
    let delay = random_delay(100, 100);
    assert_eq!(delay, 100);
}

#[test]
fn test_random_delay_min_greater_than_max() {
    let delay = random_delay(150, 50);
    assert_eq!(delay, 150);
}

#[test]
fn test_type_text_empty() {
    let result = legacy_precheck("");
    assert!(result.is_err());
    assert!(result.unwrap_err().message().contains("不能为空"));
}

#[test]
fn test_type_single_char_supplementary_plane() {
    let result = bmp_code('🎉');
    assert!(result.is_err());
    assert!(result.unwrap_err().message().contains("补充平面"));
}

#[test]
fn supplementary_error_shows_code_point() {
    assert_eq!(bmp_code('🎉').unwrap_err().message(), "配置错误：暂不支持补充平面字符: U+1F389");
    assert_eq!(bmp_code('你').ok(), Some(0x4F60));
}

#[test]
fn test_type_text_empty_returns_ok() {
    assert_eq!(typing_precheck("", 10, 20).ok(), Some(false));
}

#[test]
fn test_type_text_invalid_range_errors() {
    let r = typing_precheck("x", 100, 50);
    assert!(matches!(r, Err(AppError::Input(_))));
    assert_eq!(r.unwrap_err().message(), "输入错误：延迟区间非法: min(100) > max(50)");
}

#[test]
fn test_type_text_interrupted_immediately() {
    let r = before_char(true, 0, 0);
    assert!(matches!(r, Err(AppError::Interrupted)));
}

#[test]
fn focus_drift_stops_typing() {
    let e = before_char(false, 10, 11).unwrap_err();
    assert_eq!(e.message(), "输入错误：焦点已漂移，停止输入: 预期 10, 当前 11");
    assert!(before_char(false, 0, 11).is_ok());
    assert!(before_char(false, 10, 10).is_ok());
}

#[test]
fn newline_waits_longer() {
    assert_eq!(delay_bounds('\n', 30, 120), (70, 200));
    assert_eq!(delay_bounds('a', 30, 120), (30, 120));
    assert_eq!(delay_bounds('\n', u64::MAX, u64::MAX), (u64::MAX, u64::MAX));
    assert_eq!(scan_code('你'), 0x4F60);
    assert_eq!(scan_code('🎉'), 0xF389);
    assert!(is_escape_pressed(i16::MIN));
    assert!(!is_escape_pressed(1));
    assert_eq!(TypingStatus::Completed, TypingStatus::Completed);
}

// ===== secrets =====

#[test]
fn test_is_encrypted() {
    assert!(!is_encrypted("sk-plaintext"));
    assert!(is_encrypted("dpapi:deadbeef"));
}

#[test]
fn test_bytes_to_hex_roundtrip() {
    let original = vec![0x00, 0xff, 0xab, 0x12];
    let hex = bytes_to_hex(&original);
    assert_eq!(hex, "00ffab12");
    let decoded = hex_to_bytes(&hex).unwrap();
    assert_eq!(decoded, original);
}

#[test]
fn test_hex_to_bytes_odd_length() {
    let result = hex_to_bytes("abc");
    assert!(result.is_err());
}

#[test]
fn test_decrypt_plaintext_returns_none() {
    let result = decode_stored("sk-plaintext-key").unwrap();
    assert_eq!(result, None);
}

#[test]
fn stored_form_roundtrip_and_errors() {
    let stored = encode_stored(&[1, 2, 254]);
    assert_eq!(stored, "dpapi:0102fe");
    assert_eq!(decode_stored(&stored).unwrap(), Some(vec![1, 2, 254]));
    assert!(decode_stored("dpapi:zz").is_err());
    assert_eq!(hex_to_bytes("+a").unwrap(), vec![10]);
    assert_eq!(
        hex_to_bytes("0g").unwrap_err().message(),
        "配置错误：hex 解码失败: invalid digit found in string"
    );
}

// ===== state =====

#[test]
fn test_acquire_second_fails() {
    let mut lock = TaskLock::new();
    assert!(acquire(&mut lock).is_ok());
    let r2 = acquire(&mut lock);
    assert!(matches!(r2.err().unwrap(), AppError::Busy));
}

#[test]
fn test_release_allows_reacquire() {
    let mut lock = TaskLock::new();
    assert!(acquire(&mut lock).is_ok());
    release(&mut lock);
    assert!(acquire(&mut lock).is_ok());
}

#[test]
fn test_release_when_already_free_is_safe() {
    let mut lock = TaskLock::new();
    release(&mut lock);
    assert!(acquire(&mut lock).is_ok());
}

#[test]
fn test_cache_stale_initial() {
    let v = CacheVersion::new();
    assert!(v.cache_stale());
}

#[test]
fn test_cache_invalidate_and_sync_cycle() {
    let mut v = CacheVersion::new();
    assert!(v.cache_stale());
    v.mark_cache_synced();
    assert!(!v.cache_stale());
    v.invalidate_cache();
    assert!(v.cache_stale());
    v.mark_cache_synced();
    assert!(!v.cache_stale());
}

#[test]
fn test_invalidate_cache_monotonic() {
    let mut v = CacheVersion::new();
    let v0 = v.config_version;
    v.invalidate_cache();
    v.invalidate_cache();
    assert_eq!(v.config_version, v0 + 2);
}

#[test]
fn watchdog_frees_a_stuck_lock() {
    let mut g = GuardedLock::new();
    assert!(g.acquire_with_watchdog(1_000));
    assert!(!g.acquire_with_watchdog(30_000));
    assert!(!g.acquire_with_watchdog(61_999));
    assert!(g.acquire_with_watchdog(62_000));
    assert_eq!(g.acquired_at, Some(62_000));
}

// ===== pipeline session =====

#[test]
fn session_releases_lock_on_every_end() {
    let mut s = Session::new();
    assert!(s.begin_trigger(0));
    assert!(!s.begin_trigger(10));
    s.remember_text("origin".to_string());
    let out = s.finish_generation("origin".to_string(), Ok(vec!["a".to_string()]));
    assert!(matches!(out, TriggerOutcome::Ready { .. }));
    assert!(s.lock.lock.held);
    s.begin_typing();
    match s.finish_typing(Ok(())) {
        TypingOutcome::Record { origin } => assert_eq!(origin, "origin"),
        _ => panic!("应记录历史"),
    }
    assert!(!s.lock.lock.held);
    assert!(s.last_filtered_text.is_none());
    assert!(s.begin_trigger(20));
    let out = s.finish_generation("x".to_string(), Ok(vec![]));
    assert!(matches!(out, TriggerOutcome::Hide));
    assert!(!s.lock.lock.held);
}

#[test]
fn cancel_depends_on_typing() {
    let mut s = Session::new();
    assert!(s.begin_trigger(0));
    s.remember_text("t".to_string());
    s.begin_typing();
    assert!(!s.cancel());
    assert!(s.interrupt && s.lock.lock.held);
    assert!(matches!(s.finish_typing(Err(AppError::Interrupted)), TypingOutcome::Stopped));
    assert!(s.begin_trigger(5));
    s.remember_text("u".to_string());
    assert!(s.cancel());
    assert!(!s.lock.lock.held);
    assert!(s.regenerate_text().is_none());
}

#[test]
fn generation_errors_are_shown() {
    let mut s = Session::new();
    assert!(s.begin_trigger(0));
    match s.finish_generation("o".to_string(), Err(AppError::Llm("boom".to_string()))) {
        TriggerOutcome::ShowError(m) => assert_eq!(m, "LLM 错误：boom"),
        _ => panic!("应显示错误"),
    }
    assert!(!s.lock.lock.held);
    match regenerate_outcome("o".to_string(), Ok(vec![])) {
        TriggerOutcome::ShowError(m) => assert_eq!(m, "无候选"),
        _ => panic!("应显示无候选"),
    }
}

#[test]
fn prepared_text_is_cleaned_masked_and_cut() {
    assert_eq!(prepare_text("   ", &vec![]), None);
    let p = vec!["1[3-9]\\d{9}".to_string()];
    assert_eq!(prepare_text("  电话 13812345678 ", &p), Some("电话 ***".to_string()));
    let long = "字".repeat(6000);
    assert_eq!(prepare_text(&long, &vec![]).unwrap().chars().count(), 5000);
    assert_eq!(template_or_default(None), "回复：{{origin}}");
}

// ===== configuration =====

#[test]
fn test_load_config_defaults_when_empty() {
    let cfg = config_from_settings(None, None, None, None, None, None, None);
    assert_eq!(cfg.hotkey, DEFAULT_HOTKEY);
    assert_eq!(cfg.candidate_count, DEFAULT_CANDIDATE_COUNT);
    assert_eq!(cfg.type_min_ms, DEFAULT_TYPE_MIN_MS);
}

#[test]
fn test_load_config_from_db_values() {
    let cfg = config_from_settings(
        Some("Alt+Q".to_string()),
        Some("5".to_string()),
        None,
        None,
        None,
        None,
        None,
    );
    assert_eq!(cfg.hotkey, "Alt+Q");
    assert_eq!(cfg.candidate_count, 5);
}

#[test]
fn test_read_clipboard_mode_default_when_missing() {
    assert_eq!(clipboard_mode_or_default(None), "B");
}

#[test]
fn test_read_clipboard_mode_reads_value() {
    assert_eq!(clipboard_mode_or_default(Some("A".to_string())), "A");
    assert!(restores_clipboard("A"));
}

#[test]
fn test_read_clipboard_mode_reads_value_b() {
    assert_eq!(clipboard_mode_or_default(Some("B".to_string())), "B");
    assert!(!restores_clipboard("B"));
}

#[test]
fn numbers_parse_like_str_parse() {
    assert_eq!(parse_u32("42"), Some(42));
    assert_eq!(parse_u32("+7"), Some(7));
    assert_eq!(parse_u32("+"), None);
    assert_eq!(parse_u32("-1"), None);
    assert_eq!(parse_u32(" 1"), None);
    assert_eq!(parse_u32("4294967296"), None);
    assert_eq!(parse_u64("18446744073709551615"), Some(u64::MAX));
    assert_eq!(parse_u64("18446744073709551616"), None);
    assert!(flag_setting(Some("TRUE".to_string()), false));
    assert!(!flag_setting(Some("yes".to_string()), true));
    let cfg = config_from_settings(None, Some("x".into()), None, None, None, None, Some("1".into()));
    assert_eq!(cfg.candidate_count, DEFAULT_CANDIDATE_COUNT);
    assert!(cfg.float_always_on_top);
    assert_eq!(AppConfig::default().float_w, 420);
    assert!(check_clipboard_mode("C").is_err());
    assert!(check_clipboard_mode("A").is_ok());
}

// ===== clipboard =====

#[test]
fn test_read_text_or_empty_returns_string() {
    let s = read_text_or_empty(Err(AppError::Clipboard("无文本".to_string())));
    let _s: String = s;
}

#[test]
fn test_read_text_with_restore_fallback_on_non_windows() {
    let (s, snapshot) = read_text_with_restore(
        Err(AppError::Clipboard("不支持".to_string())),
        Ok("abc".to_string()),
    );
    assert!(s.len() >= 0);
    assert!(snapshot.is_none());
}

#[test]
fn test_clipboard_format_data_clone_eq() {
    let a = ClipboardFormatData {
        format: CF_UNICODETEXT,
        data: vec![0x68, 0x00, 0x69, 0x00, 0x00, 0x00],
    };
    let b = a.clone();
    assert_eq!(a, b);
}

#[test]
fn test_is_text_format_standard_text_formats() {
    assert!(is_text_format(CF_UNICODETEXT, None));
    assert!(is_text_format(CF_TEXT, None));
    assert!(is_text_format(CF_OEMTEXT, None));
}

#[test]
fn test_is_text_format_standard_non_text_formats() {
    assert!(!is_text_format(2, None));
    assert!(!is_text_format(3, None));
    assert!(!is_text_format(8, None));
    assert!(!is_text_format(14, None));
    assert!(!is_text_format(15, None));
}

#[test]
fn test_is_text_format_registered_below_threshold() {
    assert!(!is_text_format(100, None));
    assert!(!is_text_format(1000, None));
    assert!(!is_text_format(0xBFFF, Some("HTML Format".to_string())));
}

#[test]
fn test_is_text_format_registered_above_threshold_unregistered_id() {
    assert!(!is_text_format(0xFFFF, None));
}

#[test]
fn registered_text_formats_by_name() {
    assert!(is_text_format(0xC001, Some("HTML Format".to_string())));
    assert!(!is_text_format(0xC001, Some("PNG".to_string())));
    assert!(!should_write(&ClipboardFormatData { format: 1, data: vec![] }));
}

// ===== capture =====

fn window(kind: TargetWindowType) -> WindowInfo {
    WindowInfo {
        hwnd: 7,
        title: "微信".to_string(),
        class_name: "WeChatMainWndForPC".to_string(),
        process_name: "WeChat.exe".to_string(),
        window_type: kind,
        monitor_left: 0,
        monitor_top: 0,
        monitor_width: 1920,
        monitor_height: 1080,
    }
}

#[test]
fn windows_are_recognised_by_process_and_class() {
    assert_eq!(identify_window_type("wechat.EXE", "x"), TargetWindowType::WeChat);
    assert_eq!(identify_window_type("x", "Weixin"), TargetWindowType::WeChat);
    assert_eq!(identify_window_type("QQ.exe", "TXGuiFoundation"), TargetWindowType::QQ);
    assert_eq!(identify_window_type("QQ.exe", "Other"), TargetWindowType::Unknown);
    assert_eq!(TargetWindowType::QQ.name(), "QQ");
}

#[test]
fn capture_falls_back_and_reports_failure() {
    assert!(detect_target(Some(window(TargetWindowType::Unknown))).is_none());
    assert!(detect_target(Some(window(TargetWindowType::QQ))).is_some());
    let e = require_target(None).unwrap_err();
    assert_eq!(e.message(), "配置错误：当前前台窗口非微信/QQ");
    assert_eq!(uia_text(Err(AppError::Busy)), None);
    assert_eq!(uia_text(Ok(Some("t".to_string()))), Some("t".to_string()));
    let c = clipboard_capture(window(TargetWindowType::WeChat), Some("x".to_string())).unwrap();
    assert_eq!(c.method, CaptureMethod::Clipboard);
    assert!(clipboard_capture(window(TargetWindowType::WeChat), None).is_err());
    assert_eq!(text_from_selection(&vec!["a".to_string(), "b".to_string()]), Some("ab".to_string()));
    assert_eq!(text_from_selection(&vec![]), None);
    assert_eq!(text_from_value("v".repeat(201)), None);
    assert_eq!(text_from_value("v".to_string()), Some("v".to_string()));
    assert!(matches!(poll_step(0, Some("".to_string())), PollStep::Wait));
    assert!(matches!(poll_step(9, None), PollStep::GiveUp));
    assert!(matches!(poll_step(3, Some("z".to_string())), PollStep::Captured(_)));
}

// ===== capture-and-reply flow =====

#[test]
fn test_llm_done_payload_empty_candidates() {
    let payload = LlmDonePayload {
        request_id: "req_empty".to_string(),
        captured_text: "测试".to_string(),
        candidates: vec![],
        window_title: "QQ".to_string(),
    };
    assert_eq!(payload.candidates.len(), 0);
}

#[test]
fn test_request_id_format() {
    let id = request_id(1234567890_i64);
    assert!(id.starts_with("req_"));
    assert!(id.len() > 5);
    assert_eq!(id, "req_1234567890");
}

#[test]
fn test_capture_windows_store_and_retrieve() {
    let mut map = CaptureWindows::new();
    map.insert("req_test".to_string(), 12345_isize);
    assert_eq!(map.get("req_test"), Some(12345_isize));
    map.remove("req_test");
    assert_eq!(map.get("req_test"), None);
}

#[test]
fn capture_windows_keep_other_requests() {
    let mut map = CaptureWindows::new();
    map.insert("a".to_string(), 1);
    map.insert("b".to_string(), 2);
    map.insert("a".to_string(), 3);
    assert_eq!(map.get("a"), Some(3));
    map.remove("a");
    assert_eq!(map.get("b"), Some(2));
}

#[test]
fn llm_config_is_checked_per_mode() {
    let cfg = LlmConfig {
        cloud_api_key: " ".to_string(),
        cloud_endpoint: "e".to_string(),
        cloud_model: "m".to_string(),
        local_endpoint: "".to_string(),
        local_model: "m".to_string(),
    };
    assert!(validate_llm_config("cloud", &cfg).unwrap_err().message().contains("API 密钥"));
    assert!(validate_llm_config("local", &cfg).unwrap_err().message().contains("本地 Ollama"));
    assert!(validate_llm_config("x", &cfg).unwrap_err().message().contains("不支持的 LLM 模式: x"));
    assert!(captured_text("  \n ").is_err());
    assert_eq!(captured_text("  hi  ").unwrap(), "hi");
}

#[test]
fn replies_are_recorded_and_adopted_once() {
    let recs = history_records("q", &vec!["a".to_string(), "b".to_string()], "cloud", "t0");
    assert_eq!(recs.len(), 2);
    assert_eq!(recs[1].reply_text, "b");
    assert!(!recs[0].adopted);
    let stored = vec![
        HistoryRecord { id: Some(1), adopted: true, ..recs[0].clone() },
        HistoryRecord { id: Some(2), ..recs[0].clone() },
        HistoryRecord { id: Some(3), ..recs[1].clone() },
    ];
    assert_eq!(find_adoptable(&stored, "a"), Some(2));
    assert_eq!(find_adoptable(&stored, "z"), None);
    assert_eq!(typing_event(TypingStatus::Completed), (EVENT_TYPING_DONE, true));
    assert_eq!(history_page(2, 20), (20, 40));
}

// ===== database queries =====

#[test]
fn history_queries_cap_and_search() {
    let f = HistoryFilter { search: Some("你".to_string()), limit: 1000, offset: 5 };
    let q = history_list_query(&f);
    assert!(q.sql.contains("LIKE ? OR selected LIKE ?"));
    assert_eq!(
        q.params,
        vec![
            SqlParam::Text("%你%".to_string()),
            SqlParam::Text("%你%".to_string()),
            SqlParam::Int(500),
            SqlParam::Int(5),
        ]
    );
    let q = history_list_query(&HistoryFilter { search: Some(String::new()), limit: 10, offset: 0 });
    assert_eq!(q.params, vec![SqlParam::Int(10), SqlParam::Int(0)]);
    assert_eq!(history_count_query(None).sql, "SELECT COUNT(*) FROM history WHERE 1=1");
    let f = history_filter(None, None, None);
    assert_eq!((f.limit, f.offset), (20, 0));
    assert_eq!(top_limit(900), 500);
}

#[test]
fn word_queries_and_import() {
    let q = word_list_query(&WordFilter {
        search: Some("a".to_string()),
        category: Some(String::new()),
        enabled_only: true,
    });
    assert_eq!(
        q.sql,
        "SELECT id, word, category, enabled, created_at, updated_at FROM words WHERE 1=1 AND word LIKE ? COLLATE NOCASE AND enabled = 1 ORDER BY category ASC, id DESC"
    );
    assert_eq!(q.params, vec![SqlParam::Text("%a%".to_string())]);
    assert_eq!(word_list_query(&WordFilter::default()).params, vec![]);
    assert!(matches!(import_step("  ", "c"), ImportStep::Skip));
    match import_step(" w ", " c ") {
        ImportStep::Check { word, category } => assert_eq!((word.as_str(), category.as_str()), ("w", "c")),
        _ => panic!("应检查"),
    }
    let mut r = BatchResult::new();
    r.skip();
    r.record_insert(0, "w", Ok(()));
    r.record_insert(4, "x", Err("dup".to_string()));
    assert_eq!((r.imported, r.skipped), (1, 1));
    assert_eq!(r.errors, vec!["第 5 行「x」导入失败: dup"]);
}

#[test]
fn migrations_and_settings() {
    assert_eq!(migration_plan(0, &vec![2]), MigrationPlan::Fresh);
    assert_eq!(migration_plan(5, &vec![2]), MigrationPlan::Keep(5));
    assert_eq!(migration_plan(1, &vec![2]), MigrationPlan::Apply(vec![0]));
    assert_eq!(migration_plan(2, &vec![2]), MigrationPlan::Apply(vec![]));
    assert_eq!(stored_version(Some("abc".to_string())), 0);
    assert_eq!(stored_version(Some("3".to_string())), 3);
    assert_eq!(stored_version(None), 0);
    assert!(is_sensitive("llm_api_key"));
    assert!(!is_sensitive("hotkey"));
    assert!(check_prompt_index(2, 2).is_err());
    assert_eq!(check_prompt_index(3, 2).unwrap_err(), "模板索引超出范围（共 2 个模板）");
}
