use seltalk::cleaner::{clean_text, is_valid_text};
use seltalk::db::{merge_tags, split_tags};
use seltalk::text::clean::clean;
use seltalk::text::filter::{
    apply_blacklist, blacklist_for_display, compile_patterns, default_patterns, is_blacklisted,
    parse_blacklist_json, serialize_blacklist,
};
use seltalk::text::split::split_candidates;
use seltalk::text::wordcloud::{
    count_unique_words, count_words, count_words_batch, extract_words, has_words,
};

// ===== cleaner =====

#[test]
fn test_clean_text_normal() {
    let input = "  你好，   世界  ";
    let result = clean_text(input);
    assert_eq!(result, "你好， 世界");
}

#[test]
fn test_clean_text_control_chars() {
    let input = "你好\x00\x07世界";
    let result = clean_text(input);
    assert_eq!(result, "你好世界");
}

#[test]
fn test_clean_text_newlines() {
    let input = "第一行\n\n\n\n第二行";
    let result = clean_text(input);
    assert_eq!(result, "第一行\n\n第二行");
}

#[test]
fn test_is_valid_text_empty() {
    assert!(!is_valid_text(""));
    assert!(!is_valid_text("   "));
    assert!(!is_valid_text("\n\n"));
}

#[test]
fn test_is_valid_text_normal() {
    assert!(is_valid_text("你好"));
    assert!(is_valid_text("Hello World"));
}

#[test]
fn clean_text_trims_each_line() {
    assert_eq!(clean_text("  a  \n\t b \t"), "a\nb");
}

// ===== text::clean =====

#[test]
fn test_clean_empty() {
    assert_eq!(clean(""), "");
    assert_eq!(clean("   "), "");
}

#[test]
fn test_clean_trims() {
    assert_eq!(clean("  hello  "), "hello");
}

#[test]
fn test_clean_zero_width() {
    assert_eq!(clean("hello\u{200B}world"), "helloworld");
    assert_eq!(clean("\u{FEFF}test"), "test");
}

#[test]
fn test_clean_control_chars() {
    assert_eq!(clean("hello\u{0001}world"), "helloworld");
    assert_eq!(clean("hello\u{0007}world"), "helloworld");
}

#[test]
fn test_clean_preserves_newlines() {
    assert_eq!(clean("line1\nline2"), "line1\nline2");
}

#[test]
fn test_clean_preserves_tabs() {
    assert_eq!(clean("col1\tcol2"), "col1\tcol2");
}

#[test]
fn test_clean_collapses_spaces() {
    assert_eq!(clean("hello     world"), "hello world");
}

#[test]
fn test_clean_collapses_newlines() {
    assert_eq!(clean("para1\n\n\n\npara2"), "para1\n\npara2");
}

#[test]
fn test_clean_mixed() {
    let input = "  hello\u{200B}   world  \n\n\n  foo  ";
    assert_eq!(clean(input), "hello world\n\nfoo");
}

#[test]
fn test_clean_trailing_spaces_before_newline() {
    assert_eq!(clean("hello   \nworld"), "hello\nworld");
}

#[test]
fn test_clean_leading_spaces_after_newline() {
    assert_eq!(clean("hello\n   world"), "hello\nworld");
}

#[test]
fn clean_result_has_no_double_spaces_or_triple_newlines() {
    let out = clean(" a  \u{200B} b \n\n\n\n c  d ");
    assert!(!out.contains("  "));
    assert!(!out.contains("\n\n\n"));
    assert!(!out.starts_with(' '));
    assert!(!out.ends_with(' '));
    assert_eq!(clean(&out), out);
}

// ===== split =====

#[test]
fn test_split_by_separator() {
    let r = split_candidates("你好\n---\n在的\n---\n怎么了");
    assert_eq!(r, vec!["你好", "在的", "怎么了"]);
}

#[test]
fn test_split_by_double_newline() {
    let r = split_candidates("第一条\n\n第二条\n\n第三条");
    assert_eq!(r, vec!["第一条", "第二条", "第三条"]);
}

#[test]
fn test_split_single_returns_one() {
    let r = split_candidates("只有一条回复");
    assert_eq!(r, vec!["只有一条回复"]);
}

#[test]
fn test_split_empty() {
    assert!(split_candidates("").is_empty());
    assert!(split_candidates("   \n  ").is_empty());
}

#[test]
fn split_candidates_are_trimmed_and_non_empty() {
    let r = split_candidates(" a \n---\n\n---\n b ");
    assert_eq!(r, vec!["a", "b"]);
    for c in &r {
        assert!(!c.is_empty());
        assert_eq!(c.trim(), c);
    }
}

// ===== word cloud =====

#[test]
fn test_count_chinese_words() {
    let result = count_words("你好 世界 你好 朋友");
    let hello_count = result.iter().find(|(w, _)| w == "你好").map(|(_, c)| *c);
    assert_eq!(hello_count, Some(2));
}

#[test]
fn test_count_english_words() {
    let result = count_words("hello world hello");
    let hello_count = result.iter().find(|(w, _)| w == "hello").map(|(_, c)| *c);
    assert_eq!(hello_count, Some(2));
}

#[test]
fn test_count_numbers() {
    let result = count_words("订单号 123456 和 123456");
    let num_count = result.iter().find(|(w, _)| w == "123456").map(|(_, c)| *c);
    assert_eq!(num_count, Some(2));
}

#[test]
fn test_count_mixed() {
    let result = count_words("hello 你好 world 世界 hello");
    assert!(result.len() >= 3);
    assert_eq!(result[0].0, "hello");
    assert_eq!(result[0].1, 2);
}

#[test]
fn test_count_sorted_descending() {
    let result = count_words("aaa aaa aaa bbb bbb ccc");
    assert_eq!(result[0], ("aaa".to_string(), 3));
    assert_eq!(result[1], ("bbb".to_string(), 2));
    assert_eq!(result[2], ("ccc".to_string(), 1));
}

#[test]
fn test_case_insensitive_english() {
    let result = count_words("Hello hello HELLO");
    let count = result.iter().find(|(w, _)| w == "hello").map(|(_, c)| *c);
    assert_eq!(count, Some(3));
}

#[test]
fn test_extract_words_dedup() {
    let words = extract_words("你好 你好 世界 世界 世界");
    assert_eq!(words.len(), 2);
    assert!(words.contains(&"你好".to_string()));
    assert!(words.contains(&"世界".to_string()));
}

#[test]
fn test_batch_count() {
    let texts = vec!["你好 世界", "你好 朋友"];
    let result = count_words_batch(&texts);
    let hello_count = result.iter().find(|(w, _)| w == "你好").map(|(_, c)| *c);
    assert_eq!(hello_count, Some(2));
}

#[test]
fn test_empty_text() {
    assert!(count_words("").is_empty());
}

#[test]
fn test_whitespace_only() {
    assert!(count_words("   \n\t  ").is_empty());
}

#[test]
fn test_single_chars_filtered() {
    let result = count_words("啊 我 你 他");
    assert!(result.is_empty());
}

#[test]
fn test_single_english_letter_filtered() {
    let result = count_words("a b c d e");
    assert!(result.is_empty());
}

#[test]
fn test_punctuation_only() {
    assert!(count_words("！@#￥%……&*（）").is_empty());
}

#[test]
fn test_stop_words_filtered() {
    let result = count_words("的话 因为 你好");
    let has_stop = result.iter().any(|(w, _)| w == "的话" || w == "因为");
    assert!(!has_stop);
    let has_hello = result.iter().any(|(w, _)| w == "你好");
    assert!(has_hello);
}

#[test]
fn test_has_words_true() {
    assert!(has_words("你好世界"));
}

#[test]
fn test_has_words_false_empty() {
    assert!(!has_words(""));
}

#[test]
fn test_has_words_false_stop_only() {
    assert!(!has_words("的话 因为"));
}

#[test]
fn test_count_unique_words() {
    assert_eq!(count_unique_words("你好 你好 世界"), 2);
}

#[test]
fn test_count_words_handles_emoji() {
    let result = count_words("🎉 你好世界 🎁");
    assert!(result.iter().any(|(w, _)| w == "你好世界"));
}

#[test]
fn test_count_words_handles_null_bytes() {
    let _ = count_words("\0\0\0");
}

#[test]
fn count_words_keys_are_distinct() {
    let result = count_words("ab AB ab 12 12 你好");
    for i in 0..result.len() {
        for j in (i + 1)..result.len() {
            assert_ne!(result[i].0, result[j].0);
        }
    }
    assert_eq!(result[0], ("ab".to_string(), 3));
}

// ===== blacklist =====

#[test]
fn test_phone_detected() {
    let patterns = compile_patterns(&vec![r"1[3-9]\d{9}".to_string()]);
    assert!(is_blacklisted("我的手机是13812345678", &patterns));
}

#[test]
fn test_id_card_detected() {
    let patterns = compile_patterns(&vec![r"\d{17}[\dXx]".to_string()]);
    assert!(is_blacklisted("身份证号110101199001011234", &patterns));
}

#[test]
fn test_email_detected() {
    let patterns =
        compile_patterns(&vec![r"[A-Za-z0-9.+-]+@[A-Za-z0-9-]+\.[A-Za-z0-9.-]+".to_string()]);
    assert!(is_blacklisted("联系我test@example.com", &patterns));
}

#[test]
fn test_apply_blacklist_replaces() {
    let patterns = compile_patterns(&vec![r"1[3-9]\d{9}".to_string()]);
    let result = apply_blacklist("手机13812345678联系", &patterns);
    assert_eq!(result, "手机***联系");
}

#[test]
fn test_apply_blacklist_multiple_patterns() {
    let patterns = compile_patterns(&vec![
        r"1[3-9]\d{9}".to_string(),
        r"[A-Za-z0-9.+-]+@[A-Za-z0-9-]+\.[A-Za-z0-9.-]+".to_string(),
    ]);
    let result = apply_blacklist("手机13812345678邮箱test@x.com", &patterns);
    assert_eq!(result, "手机***邮箱***");
}

#[test]
fn test_apply_blacklist_no_match() {
    let patterns = compile_patterns(&vec![r"1[3-9]\d{9}".to_string()]);
    let result = apply_blacklist("没有敏感信息", &patterns);
    assert_eq!(result, "没有敏感信息");
}

#[test]
fn test_invalid_regex_skipped() {
    let patterns = compile_patterns(&vec!["[invalid".to_string()]);
    assert!(patterns.is_empty());
}

#[test]
fn test_parse_blacklist_json_valid() {
    let json = r#"["1[3-9]\\d{9}","\\d{17}[\\dXx]"]"#;
    let list = parse_blacklist_json(json);
    assert_eq!(list.len(), 2);
}

#[test]
fn test_parse_blacklist_json_empty() {
    let list = parse_blacklist_json("");
    assert!(list.is_empty());
}

#[test]
fn test_parse_blacklist_json_invalid() {
    let list = parse_blacklist_json("not json");
    assert!(list.is_empty());
}

#[test]
fn test_serialize_roundtrip() {
    let patterns = vec!["1[3-9]\\d{9}".to_string(), "test".to_string()];
    let json = serialize_blacklist(&patterns);
    let parsed = parse_blacklist_json(&json);
    assert_eq!(parsed, patterns);
}

#[test]
fn test_default_blacklist_compiles() {
    let patterns: Vec<String> = default_patterns();
    let compiled = compile_patterns(&patterns);
    assert_eq!(compiled.len(), 3);
}

#[test]
fn invalid_pattern_is_skipped_when_masking() {
    let patterns = vec!["[bad".to_string(), "secret".to_string()];
    assert_eq!(apply_blacklist("my secret", &patterns), "my ***");
    assert!(!is_blacklisted("nothing", &patterns));
}

#[test]
fn blacklist_display_falls_back_to_defaults() {
    assert_eq!(blacklist_for_display(None), default_patterns());
    assert_eq!(blacklist_for_display(Some("[\"x\"]".to_string())), vec!["x".to_string()]);
}

#[test]
fn serialized_blacklist_is_a_json_array() {
    let json = serialize_blacklist(&vec![]);
    assert_eq!(json, "[]");
    assert!(serialize_blacklist(&vec!["a\"b".to_string()]).starts_with('['));
}

// ===== tags =====

#[test]
fn test_split_tags_trims_whitespace() {
    let tags = split_tags(" 简短 , 正式 , ");
    assert_eq!(tags, vec!["简短", "正式"]);
}

#[test]
fn merged_tags_are_sorted_and_distinct() {
    let lists = vec!["b, a".to_string(), "a,c,,".to_string(), "".to_string()];
    assert_eq!(merge_tags(&lists), vec!["a", "b", "c"]);
}
