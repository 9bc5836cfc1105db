//! Runtime configuration: defaults, setting keys, and how stored setting
//! texts are read back into typed values.
use vstd::prelude::*;

use crate::chars::{chars_eq, eq_ignore_ascii_case_chars, eq_ignore_ascii_case_seq, to_chars};

verus! {

pub const DEFAULT_HOTKEY: &'static str = "Ctrl+Shift+Space";
pub const DEFAULT_CANDIDATE_COUNT: u32 = 3;
pub const DEFAULT_TYPE_MIN_MS: u64 = 30;
pub const DEFAULT_TYPE_MAX_MS: u64 = 120;
pub const DEFAULT_FLOAT_W: u32 = 420;
pub const DEFAULT_FLOAT_H: u32 = 360;
pub const DEFAULT_FLOAT_ALWAYS_ON_TOP: bool = true;
pub const DEFAULT_FLOAT_STYLE_PRESET: &'static str = "standard";
pub const DEFAULT_FLOAT_FOLLOW_CURSOR: bool = true;
pub const DEFAULT_LLM_TIMEOUT_SECS: u64 = 30;
pub const DEFAULT_LLM_MAX_TOKENS: u32 = 1024;
pub const DEFAULT_LLM_STREAM_ENABLED: bool = true;
pub const DEFAULT_LLM_MODEL_TYPE: &'static str = "";
pub const DEFAULT_LLM_MAX_CONTEXT_LENGTH: u32 = 0;
pub const LOG_KEEP_DAYS: u64 = 7;
pub const KEY_HOTKEY: &'static str = "hotkey";
pub const KEY_CANDIDATE_COUNT: &'static str = "candidate_count";
pub const KEY_TYPE_MIN_MS: &'static str = "type_min_ms";
pub const KEY_TYPE_MAX_MS: &'static str = "type_max_ms";
pub const KEY_FLOAT_W: &'static str = "float_w";
pub const KEY_FLOAT_H: &'static str = "float_h";
pub const KEY_FLOAT_ALWAYS_ON_TOP: &'static str = "float_always_on_top";
pub const KEY_LLM_BASE_URL: &'static str = "llm_base_url";
pub const KEY_LLM_API_KEY: &'static str = "llm_api_key";
pub const KEY_LLM_MODEL: &'static str = "llm_model";
pub const KEY_LLM_TEMPERATURE: &'static str = "llm_temperature";
pub const KEY_LLM_MAX_TOKENS: &'static str = "llm_max_tokens";
pub const KEY_LLM_STREAM_ENABLED: &'static str = "llm_stream_enabled";
pub const KEY_BLACKLIST: &'static str = "blacklist";
pub const KEY_FLOAT_STYLE_PRESET: &'static str = "float_style_preset";
pub const KEY_FLOAT_FOLLOW_CURSOR: &'static str = "float_follow_cursor";
pub const KEY_AUTOSTART: &'static str = "autostart";
pub const DEFAULT_AUTOSTART: bool = false;
pub const KEY_FLOAT_OPACITY: &'static str = "float_opacity";
pub const KEY_CLIPBOARD_MODE: &'static str = "clipboard_mode";
pub const DEFAULT_CLIPBOARD_MODE: &'static str = "B";
pub const CLIPBOARD_MODE_A: &'static str = "A";
pub const CLIPBOARD_MODE_B: &'static str = "B";

/// The configuration the pipeline reads on every trigger.
#[derive(Debug, Clone)]
pub struct AppConfig {
    pub hotkey: String,
    pub candidate_count: u32,
    pub type_min_ms: u64,
    pub type_max_ms: u64,
    pub float_w: u32,
    pub float_h: u32,
    pub float_always_on_top: bool,
}

impl AppConfig {
    /// The default configuration.
    pub fn default_config() -> (r: AppConfig)
        ensures
            r.hotkey@ == DEFAULT_HOTKEY@,
            r.candidate_count == DEFAULT_CANDIDATE_COUNT,
            r.type_min_ms == DEFAULT_TYPE_MIN_MS,
            r.type_max_ms == DEFAULT_TYPE_MAX_MS,
            r.float_w == DEFAULT_FLOAT_W,
            r.float_h == DEFAULT_FLOAT_H,
            r.float_always_on_top == DEFAULT_FLOAT_ALWAYS_ON_TOP,
    {
        AppConfig {
            hotkey: DEFAULT_HOTKEY.to_owned(),
            candidate_count: DEFAULT_CANDIDATE_COUNT,
            type_min_ms: DEFAULT_TYPE_MIN_MS,
            type_max_ms: DEFAULT_TYPE_MAX_MS,
            float_w: DEFAULT_FLOAT_W,
            float_h: DEFAULT_FLOAT_H,
            float_always_on_top: DEFAULT_FLOAT_ALWAYS_ON_TOP,
        }
    }
}

/// An ASCII decimal digit.
pub open spec fn is_digit(c: char) -> bool {
    '0' <= c <= '9'
}

/// The value of a digit string.
pub open spec fn digits_value(s: Seq<char>) -> nat
    decreases s.len(),
{
    if s.len() == 0 {
        0
    } else {
        digits_value(s.drop_last()) * 10 + ((s.last() as u32) - 48) as nat
    }
}

/// The number written by `s` as Rust's unsigned `FromStr` reads it: an
/// optional `+`, then one or more ASCII digits; `None` otherwise.
pub open spec fn unsigned_value(s: Seq<char>) -> Option<nat> {
    let d = digits_part(s);
    if d.len() == 0 || !all_digits(d) {
        None
    } else {
        Some(digits_value(d))
    }
}

/// `s` without a leading `+`.
pub open spec fn digits_part(s: Seq<char>) -> Seq<char> {
    if s.len() > 0 && s[0] == '+' {
        s.skip(1)
    } else {
        s
    }
}

/// Every character of `d` is an ASCII digit.
pub open spec fn all_digits(d: Seq<char>) -> bool {
    forall|i: int| 0 <= i < d.len() ==> is_digit(#[trigger] d[i])
}

/// `s.parse::<u64>().ok()`.
pub open spec fn parse_u64_spec(s: Seq<char>) -> Option<u64> {
    match unsigned_value(s) {
        Some(v) => if v <= u64::MAX {
            Some(v as u64)
        } else {
            None
        },
        None => None,
    }
}

/// `s.parse::<u32>().ok()`.
pub open spec fn parse_u32_spec(s: Seq<char>) -> Option<u32> {
    match unsigned_value(s) {
        Some(v) => if v <= u32::MAX {
            Some(v as u32)
        } else {
            None
        },
        None => None,
    }
}

proof fn lemma_digits_value_grows(s: Seq<char>, i: int)
    requires
        0 <= i < s.len(),
        forall|k: int| 0 <= k < s.len() ==> is_digit(#[trigger] s[k]),
    ensures
        digits_value(s.take(i + 1)) == digits_value(s.take(i)) * 10 + ((s[i] as u32) - 48) as nat,
        digits_value(s.take(i + 1)) >= digits_value(s.take(i)),
{
    assert(s.take(i + 1).drop_last() =~= s.take(i));
    assert(s.take(i + 1).last() == s[i]);
}

proof fn lemma_digits_value_monotone(s: Seq<char>, i: int, j: int)
    requires
        0 <= i <= j <= s.len(),
        forall|k: int| 0 <= k < s.len() ==> is_digit(#[trigger] s[k]),
    ensures
        digits_value(s.take(j)) >= digits_value(s.take(i)),
    decreases j - i,
{
    if i < j {
        lemma_digits_value_monotone(s, i, j - 1);
        lemma_digits_value_grows(s, j - 1);
    }
}

proof fn lemma_non_digit(s: Seq<char>, k: int)
    requires
        0 <= k < digits_part(s).len(),
        !is_digit(digits_part(s)[k]),
    ensures
        unsigned_value(s) is None,
{
}

/// Reads a decimal `u64` as `str::parse` does (`None` on any error).
pub fn parse_u64(s: &str) -> (r: Option<u64>)
    ensures
        r == parse_u64_spec(s@),
{
    let v = to_chars(s);
    let start: usize = if v.len() > 0 && v[0] == '+' { 1 } else { 0 };
    let ghost d = if v@.len() > 0 && v@[0] == '+' {
        v@.skip(1)
    } else {
        v@
    };
    assert(d =~= v@.skip(start as int));
    if start == v.len() {
        return None;
    }
    let mut value: u64 = 0;
    let mut overflow = false;
    let mut i: usize = start;
    while i < v.len()
        invariant
            start <= i <= v.len(),
            v@ == s@,
            d == v@.skip(start as int),
            d == digits_part(s@),
            forall|k: int| 0 <= k < i - start ==> is_digit(#[trigger] d[k]),
            !overflow ==> value == digits_value(d.take(i - start)),
            overflow ==> digits_value(d.take(i - start)) > u64::MAX,
        decreases v.len() - i,
    {
        let c = v[i];
        if !('0' <= c && c <= '9') {
            assert(d[i - start] == v@[i as int]);
            assert(!is_digit(d[i - start]));
            proof {
                lemma_non_digit(s@, i - start);
            }
            return None;
        }
        let dig: u64 = (c as u32 - 48) as u64;
        let ghost k = i - start;
        proof {
            assert(d.take(k + 1).drop_last() =~= d.take(k));
            assert(d.take(k + 1).last() == d[k]);
            assert(d[k] == c);
        }
        if !overflow {
            if value > (u64::MAX - dig) / 10 {
                overflow = true;
                assert(value * 10 + dig > u64::MAX) by (nonlinear_arith)
                    requires
                        value > (u64::MAX - dig) / 10,
                        dig <= 9,
                ;
            } else {
                assert(value * 10 + dig <= u64::MAX) by (nonlinear_arith)
                    requires
                        value <= (u64::MAX - dig) / 10,
                        dig <= 9,
                ;
                value = value * 10 + dig;
            }
        } else {
            assert(digits_value(d.take(k + 1)) >= digits_value(d.take(k))) by (nonlinear_arith)
                requires
                    digits_value(d.take(k + 1)) == digits_value(d.take(k)) * 10 + dig,
            ;
        }
        i = i + 1;
    }
    assert(d.take(d.len() as int) =~= d);
    if overflow {
        None
    } else {
        Some(value)
    }
}

/// Reads a decimal `u32` as `str::parse` does (`None` on any error).
pub fn parse_u32(s: &str) -> (r: Option<u32>)
    ensures
        r == parse_u32_spec(s@),
{
    match parse_u64(s) {
        Some(v) => if v <= u32::MAX as u64 {
            Some(v as u32)
        } else {
            None
        },
        None => {
            proof {
                match unsigned_value(s@) {
                    Some(n) => {
                        assert(n > u64::MAX);
                    },
                    None => {},
                }
            }
            None
        },
    }
}

/// A stored flag is on when it reads `1` or `true` (any ASCII case).
pub open spec fn flag_on(v: Seq<char>) -> bool {
    v == "1"@ || eq_ignore_ascii_case_seq(v, "true"@)
}

/// Reads a stored flag, with a default when the setting is missing.
pub fn flag_setting(value: Option<String>, default: bool) -> (r: bool)
    ensures
        value matches Some(v) ==> r == flag_on(v@),
        value is None ==> r == default,
{
    match value {
        Some(v) => {
            let c = to_chars(v.as_str());
            chars_eq(&c, &to_chars("1")) || eq_ignore_ascii_case_chars(&c, &to_chars("true"))
        },
        None => default,
    }
}

/// Reads a stored `u32`, with a default when missing or unreadable.
pub fn u32_setting(value: Option<String>, default: u32) -> (r: u32)
    ensures
        r == (match value {
            Some(v) => match parse_u32_spec(v@) {
                Some(n) => n,
                None => default,
            },
            None => default,
        }),
{
    match value {
        Some(v) => match parse_u32(v.as_str()) {
            Some(n) => n,
            None => default,
        },
        None => default,
    }
}

/// Reads a stored `u64`, with a default when missing or unreadable.
pub fn u64_setting(value: Option<String>, default: u64) -> (r: u64)
    ensures
        r == (match value {
            Some(v) => match parse_u64_spec(v@) {
                Some(n) => n,
                None => default,
            },
            None => default,
        }),
{
    match value {
        Some(v) => match parse_u64(v.as_str()) {
            Some(n) => n,
            None => default,
        },
        None => default,
    }
}

/// Builds the configuration from the stored settings (each `None` when
/// missing); unreadable or missing values take their defaults.
pub fn config_from_settings(
    hotkey: Option<String>,
    candidate_count: Option<String>,
    type_min_ms: Option<String>,
    type_max_ms: Option<String>,
    float_w: Option<String>,
    float_h: Option<String>,
    float_always_on_top: Option<String>,
) -> (r: AppConfig)
    ensures
        hotkey matches Some(h) ==> r.hotkey@ == h@,
        hotkey is None ==> r.hotkey@ == DEFAULT_HOTKEY@,
        candidate_count matches Some(v) ==> r.candidate_count == (match parse_u32_spec(v@) {
            Some(n) => n,
            None => DEFAULT_CANDIDATE_COUNT,
        }),
        candidate_count is None ==> r.candidate_count == DEFAULT_CANDIDATE_COUNT,
        type_min_ms matches Some(v) ==> r.type_min_ms == (match parse_u64_spec(v@) {
            Some(n) => n,
            None => DEFAULT_TYPE_MIN_MS,
        }),
        type_min_ms is None ==> r.type_min_ms == DEFAULT_TYPE_MIN_MS,
        type_max_ms matches Some(v) ==> r.type_max_ms == (match parse_u64_spec(v@) {
            Some(n) => n,
            None => DEFAULT_TYPE_MAX_MS,
        }),
        type_max_ms is None ==> r.type_max_ms == DEFAULT_TYPE_MAX_MS,
        float_w matches Some(v) ==> r.float_w == (match parse_u32_spec(v@) {
            Some(n) => n,
            None => DEFAULT_FLOAT_W,
        }),
        float_w is None ==> r.float_w == DEFAULT_FLOAT_W,
        float_h matches Some(v) ==> r.float_h == (match parse_u32_spec(v@) {
            Some(n) => n,
            None => DEFAULT_FLOAT_H,
        }),
        float_h is None ==> r.float_h == DEFAULT_FLOAT_H,
        float_always_on_top matches Some(v) ==> r.float_always_on_top == flag_on(v@),
        float_always_on_top is None ==> r.float_always_on_top == DEFAULT_FLOAT_ALWAYS_ON_TOP,
{
    AppConfig {
        hotkey: match hotkey {
            Some(h) => h,
            None => DEFAULT_HOTKEY.to_owned(),
        },
        candidate_count: u32_setting(candidate_count, DEFAULT_CANDIDATE_COUNT),
        type_min_ms: u64_setting(type_min_ms, DEFAULT_TYPE_MIN_MS),
        type_max_ms: u64_setting(type_max_ms, DEFAULT_TYPE_MAX_MS),
        float_w: u32_setting(float_w, DEFAULT_FLOAT_W),
        float_h: u32_setting(float_h, DEFAULT_FLOAT_H),
        float_always_on_top: flag_setting(float_always_on_top, DEFAULT_FLOAT_ALWAYS_ON_TOP),
    }
}

/// The clipboard mode setting, `B` (read only) when missing.
pub fn clipboard_mode_or_default(value: Option<String>) -> (r: String)
    ensures
        value matches Some(v) ==> r@ == v@,
        value is None ==> r@ == DEFAULT_CLIPBOARD_MODE@,
{
    match value {
        Some(v) => v,
        None => DEFAULT_CLIPBOARD_MODE.to_owned(),
    }
}

/// Mode `A` snapshots and restores the clipboard around the read.
pub fn restores_clipboard(mode: &str) -> (r: bool)
    ensures
        r == (mode@ == CLIPBOARD_MODE_A@),
{
    chars_eq(&to_chars(mode), &to_chars(CLIPBOARD_MODE_A))
}

/// Accepts only the clipboard modes `A` and `B`; the error text is shown
/// to the user as is.
pub fn check_clipboard_mode(mode: &str) -> (r: Result<(), String>)
    ensures
        (mode@ == CLIPBOARD_MODE_A@ || mode@ == CLIPBOARD_MODE_B@) ==> r is Ok,
        !(mode@ == CLIPBOARD_MODE_A@ || mode@ == CLIPBOARD_MODE_B@) ==> r is Err && r->Err_0@
            == "非法剪贴板模式: "@ + mode@ + "（仅支持 \"A\"=兼容复原 或 \"B\"=纯净只读）"@,
{
    let m = to_chars(mode);
    if chars_eq(&m, &to_chars(CLIPBOARD_MODE_A)) || chars_eq(&m, &to_chars(CLIPBOARD_MODE_B)) {
        return Ok(());
    }
    Err(crate::chars::concat3("非法剪贴板模式: ", mode, "（仅支持 \"A\"=兼容复原 或 \"B\"=纯净只读）"))
}

impl Default for AppConfig {
    /// The default configuration.
    fn default() -> (r: AppConfig)
        ensures
            r.hotkey@ == DEFAULT_HOTKEY@,
            r.candidate_count == DEFAULT_CANDIDATE_COUNT,
            r.type_min_ms == DEFAULT_TYPE_MIN_MS,
            r.type_max_ms == DEFAULT_TYPE_MAX_MS,
            r.float_w == DEFAULT_FLOAT_W,
            r.float_h == DEFAULT_FLOAT_H,
            r.float_always_on_top == DEFAULT_FLOAT_ALWAYS_ON_TOP,
    {
        AppConfig::default_config()
    }
}

} // verus!
