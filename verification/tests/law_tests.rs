use seltalk::cleaner::trim_lines;
use seltalk::db::{default_profile_model, profile_to_promote, version_to_record, LATEST_VERSION};
use seltalk::hotkey::{is_reserved, normalize_hotkey};
use seltalk::llm::chat::LlmMode;
use seltalk::error::AppError;
use seltalk::llm::provider::StreamAccumulator;
use seltalk::orchestrator::{Session, TriggerOutcome};
use seltalk::text::clean::clean;
use seltalk::text::wordcloud::{count_words, count_words_batch, extract_words, has_words};

#[test]
fn clean_is_idempotent_on_plain_text() {
    for raw in [
        "  你好   世界  ",
        "a  b\n\n\n\nc",
        " line one \n   line two\t\n",
        "x\r\n  y",
        "",
        "   ",
    ] {
        let once = clean(raw);
        assert_eq!(clean(&once), once, "input {raw:?}");
    }
}

#[test]
fn clean_twice_only_trims() {
    // a control character hides the ideographic space from the first trim
    let raw = "\u{1}\u{3000}a";
    let once = clean(raw);
    assert_eq!(once, "\u{3000}a");
    assert_eq!(clean(&once), once.trim());
}

#[test]
fn has_words_iff_extract_words_nonempty() {
    for text in ["hello world", "的 了 是", "", "12 ab", "你好世界", "a b c", "没有 但是"] {
        assert_eq!(has_words(text), !extract_words(text).is_empty(), "text {text:?}");
    }
}

#[test]
fn count_words_agrees_with_extract_words() {
    let text = "Hello world hello 的 世界和平 世界和平 42";
    let counts = count_words(text);
    let mut words: Vec<String> = counts.iter().map(|(w, _)| w.clone()).collect();
    let mut extracted = extract_words(text);
    words.sort();
    extracted.sort();
    assert_eq!(words, extracted);
    let total: u32 = counts.iter().map(|(_, c)| *c).sum();
    // matches: Hello, world, hello, 世界和平, 世界和平, 42 (none is a stop word)
    assert_eq!(total, 6);
    assert!(counts.iter().all(|(_, c)| *c >= 1));
    assert_eq!(counts[0], ("hello".to_string(), 2));
}

#[test]
fn count_words_batch_equals_joined_text() {
    let texts = ["hello world", "世界 你好 hello", "", "42 world"];
    assert_eq!(count_words_batch(&texts), count_words(&texts.join(" ")));
}

#[test]
fn trim_lines_trims_every_line() {
    assert_eq!(trim_lines("  a  \n b\r\n"), "a\nb");
    assert_eq!(trim_lines("x\n\n  y "), "x\n\ny");
    assert_eq!(trim_lines(""), "");
}

#[test]
fn stream_accumulator_appends_until_done() {
    let mut acc = StreamAccumulator::new();
    let handed = acc.on_line(Some(vec!["He".to_string(), "llo".to_string()]));
    assert_eq!(handed, vec!["He".to_string(), "llo".to_string()]);
    assert_eq!(acc.on_line(Some(Vec::new())), Vec::<String>::new());
    assert_eq!(acc.full, "Hello");
    assert!(!acc.done);
    assert!(acc.on_line(None).is_empty());
    assert!(acc.done);
    assert!(acc.on_line(Some(vec!["late".to_string()])).is_empty());
    assert_eq!(acc.full, "Hello");
}

#[test]
fn version_raised_to_latest_only_when_below() {
    assert_eq!(version_to_record(0), Some(LATEST_VERSION));
    assert_eq!(version_to_record(LATEST_VERSION), None);
    assert_eq!(version_to_record(LATEST_VERSION + 1), None);
}

#[test]
fn default_profile_only_for_first_configured_model() {
    assert_eq!(default_profile_model(0, Some("gpt-4o".into())), Some("gpt-4o".to_string()));
    assert_eq!(default_profile_model(0, Some(String::new())), None);
    assert_eq!(default_profile_model(0, None), None);
    assert_eq!(default_profile_model(2, Some("gpt-4o".into())), None);
}

#[test]
fn failed_generation_clears_lock_start() {
    let mut s = Session::new();
    assert!(s.begin_trigger(5_000));
    assert_eq!(s.lock.acquired_at, Some(5_000));
    let out = s.finish_generation("hi".into(), Err(AppError::Llm("x".into())));
    assert!(matches!(out, TriggerOutcome::ShowError(_)));
    assert!(!s.lock.lock.held);
    assert_eq!(s.lock.acquired_at, None);
    assert!(s.begin_trigger(6_000));
    s.focus_failed();
    assert_eq!(s.lock.acquired_at, None);
}

#[test]
fn promotion_only_when_no_active_profile_left() {
    assert_eq!(profile_to_promote(0, Some(7)), Some(7));
    assert_eq!(profile_to_promote(0, None), None);
    assert_eq!(profile_to_promote(1, Some(7)), None);
}

#[test]
fn uppercase_ascii_hotkeys_and_modes_are_recognised() {
    assert_eq!(normalize_hotkey(" CTRL + C "), "ctrl+c");
    assert!(is_reserved("CTRL+C"));
    assert!(matches!(LlmMode::from_str("CLOUD"), Ok(LlmMode::Cloud)));
}
