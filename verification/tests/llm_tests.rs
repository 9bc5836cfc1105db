use seltalk::error::{classify_error, AppError};
use seltalk::llm::chat::{
    build_messages, cloud_target, combine_choices, connection_message, local_target, parse_replies,
    replies_or_error, LlmConfig, LlmMode, MessageRole,
};
use seltalk::llm::error::{format_http_error, format_network_error, truncate_body, MAX_BODY_LEN};
use seltalk::llm::prompt::{extract_variables, render_template};
use seltalk::llm::provider::{
    build_chat_url, classify_sse_line, collect_deltas, connection_precheck, connection_result,
    take_line, validate_config, SseLine,
};
use seltalk::llm::{calc_max_tokens, candidates_from_choices, render_with_vars, LLM_TOKENS_MARGIN};

fn llm_message(e: AppError) -> String {
    match e {
        AppError::Llm(msg) => msg,
        _ => panic!("应为 Llm 错误"),
    }
}

// ===== direct client =====

#[test]
fn test_build_messages_normal() {
    let messages = build_messages("你好啊");
    assert_eq!(messages.len(), 2);
    assert!(matches!(messages[0].role, MessageRole::System));
    assert!(matches!(messages[1].role, MessageRole::User));
    assert!(messages[1].content.contains("你好啊"));
}

#[test]
fn test_parse_replies_normal() {
    let raw = "好的，没问题\n收到\n稍等一下";
    let replies = parse_replies(raw, 3);
    assert_eq!(replies.len(), 3);
    assert_eq!(replies[0], "好的，没问题");
}

#[test]
fn test_parse_replies_empty() {
    let replies = parse_replies("", 3);
    assert!(replies.is_empty());
}

#[test]
fn test_parse_replies_only_whitespace() {
    let replies = parse_replies("   \n  \n  ", 3);
    assert!(replies.is_empty());
}

#[test]
fn test_parse_replies_fewer_than_expected() {
    let raw = "好的\n收到";
    let replies = parse_replies(raw, 5);
    assert_eq!(replies.len(), 2);
}

#[test]
fn parse_replies_keeps_at_least_one_and_strips_cr() {
    assert_eq!(parse_replies(" a \r\n\r\nb\nc", 0), vec!["a"]);
    assert_eq!(parse_replies("a\r\nb", 2), vec!["a", "b"]);
}

#[test]
fn empty_reply_list_is_an_error() {
    let e = replies_or_error(" \n ", 3).unwrap_err();
    assert_eq!(e.message(), "配置错误：LLM 未返回有效回复");
    assert_eq!(replies_or_error("x", 3).unwrap(), vec!["x"]);
}

#[test]
fn test_llm_mode_from_str_cloud() {
    let mode = LlmMode::from_str("cloud");
    assert!(matches!(mode.unwrap(), LlmMode::Cloud));
}

#[test]
fn test_llm_mode_from_str_local() {
    let mode = LlmMode::from_str("local");
    assert!(matches!(mode.unwrap(), LlmMode::Local));
}

#[test]
fn test_llm_mode_from_str_invalid() {
    let mode = LlmMode::from_str("invalid");
    assert!(mode.is_err());
}

#[test]
fn llm_mode_ignores_case_and_spaces() {
    assert_eq!(LlmMode::from_str("  CLOUD ").unwrap(), LlmMode::Cloud);
    let e = LlmMode::from_str("remote").unwrap_err();
    assert_eq!(e.message(), "配置错误：不支持的 LLM 模式: remote，请使用 cloud 或 local");
}

fn test_config() -> LlmConfig {
    LlmConfig {
        cloud_api_key: "test-key".to_string(),
        cloud_endpoint: "https://api.deepseek.com/v1".to_string(),
        cloud_model: "deepseek-chat".to_string(),
        local_endpoint: "http://localhost:11434".to_string(),
        local_model: "qwen2.5:7b".to_string(),
    }
}

#[test]
fn cloud_target_requires_key_and_model() {
    let mut config = test_config();
    let t = cloud_target(&config).unwrap();
    assert_eq!(t.url, "https://api.deepseek.com/v1/chat/completions");
    assert_eq!(t.model, "deepseek-chat");
    config.cloud_api_key = "  ".to_string();
    let msg = cloud_target(&config).unwrap_err().message();
    assert!(msg.contains("API 密钥"));
    config.cloud_api_key = "k".to_string();
    config.cloud_model = " ".to_string();
    assert!(cloud_target(&config).unwrap_err().message().contains("云端模型名称未配置"));
}

#[test]
fn local_target_trims_endpoint() {
    let mut config = test_config();
    config.local_endpoint = " http://localhost:11434// ".to_string();
    let t = local_target(&config).unwrap();
    assert_eq!(t.url, "http://localhost:11434/api/chat");
    config.local_model = "".to_string();
    assert!(local_target(&config).is_err());
}

#[test]
fn choices_are_joined_by_newlines() {
    assert_eq!(combine_choices(&vec!["a".to_string(), "b".to_string()]), "a\nb");
    assert_eq!(combine_choices(&vec![]), "");
}

#[test]
fn connection_message_uses_first_reply() {
    assert_eq!(connection_message(&vec!["hi".to_string()]), "连接成功，示例回复：hi");
    assert_eq!(connection_message(&vec![]), "连接成功，示例回复：(空)");
}

// ===== friendly errors =====

#[test]
fn test_format_http_error_400_with_body() {
    let msg = llm_message(format_http_error(400, "invalid model field"));
    assert!(msg.contains("请求格式错误"));
    assert!(msg.contains("invalid model field"));
}

#[test]
fn test_format_http_error_500_with_body() {
    let msg = llm_message(format_http_error(500, "NullPointerException at line 42"));
    assert!(msg.contains("服务端异常"));
    assert!(msg.contains("NullPointerException"));
}

#[test]
fn test_format_http_error_401_no_body_leak() {
    let msg = llm_message(format_http_error(401, "Bearer token expired: sk-secret-key-12345"));
    assert!(msg.contains("API Key 无效"));
    assert!(!msg.contains("secret-key"), "401 不应泄露 body: {msg}");
    assert!(!msg.contains("Bearer"), "401 不应泄露鉴权头: {msg}");
}

#[test]
fn test_format_http_error_403_no_body_leak() {
    let msg = llm_message(format_http_error(403, "permission denied for model gpt-4"));
    assert!(msg.contains("权限不足"));
    assert!(!msg.contains("permission denied"));
}

#[test]
fn test_format_http_error_429_no_body_leak() {
    let msg = llm_message(format_http_error(429, "rate limit exceeded, retry after 60s"));
    assert!(msg.contains("频繁"));
    assert!(!msg.contains("rate limit"));
}

#[test]
fn test_truncate_body_short() {
    let result = truncate_body("short");
    assert_eq!(result, "short");
}

#[test]
fn test_truncate_body_long() {
    let long_body = "a".repeat(500);
    let result = truncate_body(&long_body);
    assert_eq!(result.chars().count(), MAX_BODY_LEN + 1);
    assert!(result.ends_with('…'));
}

#[test]
fn test_truncate_body_empty() {
    let result = truncate_body("");
    assert_eq!(result, "");
}

#[test]
fn test_truncate_body_unicode_safe() {
    let long_body = "你好".repeat(150);
    let result = truncate_body(&long_body);
    assert_eq!(result.chars().count(), MAX_BODY_LEN + 1);
    assert!(result.ends_with('…'));
}

#[test]
fn test_format_http_error_unknown_status() {
    let msg = llm_message(format_http_error(599, "gateway timeout"));
    assert!(msg.contains("599"));
    assert!(msg.contains("服务端异常"));
}

#[test]
fn test_format_http_error_empty_body() {
    let msg = llm_message(format_http_error(500, "   "));
    assert!(msg.contains("服务端异常"));
    assert!(!msg.contains("详情"));
}

#[test]
fn http_error_exact_texts() {
    assert_eq!(llm_message(format_http_error(418, " x ")), "请求错误（418） | 详情: x");
    assert_eq!(
        llm_message(format_http_error(408, "slow")),
        "请求超时，请稍后重试或检查网络"
    );
    let body = "b".repeat(200);
    assert_eq!(truncate_body(&body), body);
}

// ===== error classification =====

#[test]
fn test_classify_non_wechat_window() {
    let err = AppError::Config("当前前台窗口非微信/QQ".to_string());
    let info = classify_error(&err);
    assert_eq!(info.code, "E001");
    assert!(info.silent);
}

#[test]
fn test_classify_capture_failed() {
    let err = AppError::Config("Ctrl+C 也未捕获到文本".to_string());
    let info = classify_error(&err);
    assert_eq!(info.code, "E003");
    assert!(!info.silent);
}

#[test]
fn test_classify_llm_timeout() {
    let err = AppError::Config("请求云端 LLM 失败: operation timed out".to_string());
    let info = classify_error(&err);
    assert_eq!(info.code, "E005");
    assert!(!info.silent);
}

#[test]
fn test_classify_llm_general_failure() {
    let err = AppError::Config("云端 LLM 返回错误状态: 500".to_string());
    let info = classify_error(&err);
    assert_eq!(info.code, "E008");
    assert!(!info.silent);
}

#[test]
fn test_classify_empty_text() {
    let err = AppError::Config("输入文本不能为空".to_string());
    let info = classify_error(&err);
    assert_eq!(info.code, "E004");
    assert!(info.silent);
}

#[test]
fn test_classify_config_save() {
    let err = AppError::Config("配置保存失败，权限不足".to_string());
    let info = classify_error(&err);
    assert_eq!(info.code, "E014");
    assert!(!info.silent);
}

#[test]
fn classify_other_codes() {
    assert_eq!(classify_error(&AppError::Config("余额不足".into())).code, "E006");
    assert_eq!(classify_error(&AppError::Config("本地服务连接失败".into())).code, "E007");
    assert_eq!(classify_error(&AppError::Config("类名未知".into())).code, "E010");
    assert_eq!(classify_error(&AppError::Busy).code, "E000");
    assert_eq!(classify_error(&AppError::Busy).message, "操作失败，请稍后重试");
}

#[test]
fn error_messages_carry_their_kind() {
    assert_eq!(AppError::Config("x".into()).message(), "配置错误：x");
    assert_eq!(AppError::Input("y".into()).message(), "输入错误：y");
    assert_eq!(AppError::Interrupted.message(), "输入已被中断");
}

// ===== token budget and templates =====

#[test]
fn test_calc_max_tokens_basic() {
    assert_eq!(calc_max_tokens(3), 340);
}

#[test]
fn test_calc_max_tokens_single() {
    assert_eq!(calc_max_tokens(1), 180);
}

#[test]
fn test_calc_max_tokens_overflow_safe() {
    let huge = calc_max_tokens(u32::MAX);
    assert!(huge >= LLM_TOKENS_MARGIN);
}

#[test]
fn calc_max_tokens_saturates() {
    assert_eq!(calc_max_tokens(u32::MAX), u32::MAX);
    assert_eq!(calc_max_tokens(0), 100);
}

#[test]
fn test_render_with_vars_substitutes() {
    let r = render_with_vars("回复{{n}}条：{{origin}}", "你好", 3, "词1").unwrap();
    assert_eq!(r, "回复3条：你好");
}

#[test]
fn test_render_replaces_vars() {
    let vars = vec![
        ("origin".to_string(), "你好".to_string()),
        ("n".to_string(), "3".to_string()),
    ];
    let r = render_template("生成{{n}}条回复：{{origin}}", &vars).unwrap();
    assert_eq!(r, "生成3条回复：你好");
}

#[test]
fn test_extract_variables_no_dups() {
    let v = extract_variables("{{origin}} 和 {{n}} 和 {{origin}}");
    assert_eq!(v, vec!["origin", "n"]);
}

#[test]
fn test_render_missing_var_keeps_placeholder() {
    let vars: Vec<(String, String)> = Vec::new();
    let r = render_template("{{origin}}", &vars).unwrap();
    assert_eq!(r, "{{origin}}");
}

#[test]
fn extract_variables_trims_and_skips_empty() {
    assert_eq!(extract_variables("{{ a }}{{}}{{b}} {{ a}} {{open"), vec!["a", "b"]);
}

#[test]
fn candidates_of_all_choices_are_concatenated() {
    let c = candidates_from_choices(&vec!["a\n---\nb".to_string(), "c".to_string()]);
    assert_eq!(c, vec!["a", "b", "c"]);
}

// ===== provider protocol =====

#[test]
fn test_build_url_without_v1() {
    assert_eq!(
        build_chat_url("https://api.openai.com"),
        "https://api.openai.com/v1/chat/completions"
    );
}

#[test]
fn test_build_url_with_v1() {
    assert_eq!(
        build_chat_url("https://api.openai.com/v1"),
        "https://api.openai.com/v1/chat/completions"
    );
}

#[test]
fn test_build_url_with_v1_trailing_slash() {
    assert_eq!(
        build_chat_url("https://api.openai.com/v1/"),
        "https://api.openai.com/v1/chat/completions"
    );
}

#[test]
fn test_build_url_with_trailing_slash_no_v1() {
    assert_eq!(build_chat_url("https://proxy.com/"), "https://proxy.com/v1/chat/completions");
}

#[test]
fn test_build_url_no_duplicate_v1() {
    let url = build_chat_url("https://api.openai.com/v1");
    assert!(!url.contains("/v1/v1/"), "URL 不应包含重复的 /v1/: {url}");
}

#[test]
fn test_validate_rejects_empty_config() {
    assert!(validate_config("", "").is_err());
}

#[test]
fn test_validate_accepts_complete_config() {
    assert!(validate_config("https://api.openai.com", "gpt-4o-mini").is_ok());
}

#[test]
fn sse_lines_are_classified() {
    assert!(matches!(classify_sse_line("data: [DONE]"), SseLine::Done));
    assert!(matches!(classify_sse_line("data:[DONE]"), SseLine::Done));
    assert!(matches!(classify_sse_line(": heartbeat"), SseLine::Skip));
    assert!(matches!(classify_sse_line(""), SseLine::Skip));
    assert!(matches!(classify_sse_line("event: ping"), SseLine::Skip));
    match classify_sse_line("  data: {\"a\":1}  ") {
        SseLine::Data(d) => assert_eq!(d, "{\"a\":1}"),
        _ => panic!("应为 data 行"),
    }
}

#[test]
fn empty_deltas_are_dropped() {
    let d = collect_deltas(vec!["a".to_string(), "".to_string(), "b".to_string()]);
    assert_eq!(d, vec!["a", "b"]);
}

#[test]
fn stream_buffer_yields_complete_lines() {
    let mut buf = b"data: a\ndata: b\npartial".to_vec();
    assert_eq!(take_line(&mut buf), Some(b"data: a\n".to_vec()));
    assert_eq!(take_line(&mut buf), Some(b"data: b\n".to_vec()));
    assert_eq!(take_line(&mut buf), None);
    assert_eq!(buf, b"partial".to_vec());
}

// ===== transport failures and connection tests =====

#[test]
fn network_error_kinds_in_order() {
    assert_eq!(
        llm_message(format_network_error(true, true, true, "x")),
        "网络超时，请检查网络连接或增加超时时间"
    );
    assert_eq!(
        llm_message(format_network_error(false, true, true, "x")),
        "无法连接到服务器，请检查 base_url 或网络"
    );
    assert_eq!(
        llm_message(format_network_error(false, false, true, "x")),
        "响应解析失败，请检查 API 是否兼容 OpenAI 格式"
    );
    assert_eq!(
        llm_message(format_network_error(false, false, false, "dns failure")),
        "网络错误: dns failure"
    );
}

#[test]
fn connection_result_success_and_failure() {
    let ok = connection_result(Ok(()), 42);
    assert!(ok.ok);
    assert_eq!(ok.latency_ms, 42);
    assert_eq!(ok.message, "连接成功");
    let failed = connection_result(Err(AppError::Llm("模型不存在".into())), 7);
    assert!(!failed.ok);
    assert_eq!(failed.latency_ms, 7);
    assert_eq!(failed.message, "LLM 错误：模型不存在");
}

#[test]
fn connection_precheck_needs_all_fields() {
    assert!(connection_precheck("https://api.example.com", "sk-1", "gpt").is_none());
    for (u, k, m) in [("", "sk", "gpt"), ("https://a", "", "gpt"), ("https://a", "sk", "")] {
        let r = connection_precheck(u, k, m).expect("应拒绝");
        assert!(!r.ok);
        assert_eq!(r.latency_ms, 0);
        assert_eq!(r.message, "请先配置接口地址、密钥和模型名称");
    }
}
