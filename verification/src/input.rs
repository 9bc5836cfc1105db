//! Typing text character by character: the checks made before and between
//! characters, the delays between them, and the key codes sent.
use vstd::prelude::*;

use crate::chars::{
    concat, concat3, decimal_seq, from_chars, push_str, replace_chars, replace_seq, to_chars,
    u64_to_string,
};
use crate::error::AppError;
use rand::Rng;

verus! {

/// Default shortest delay between two characters, in milliseconds.
pub const DEFAULT_DELAY_MIN: u64 = 50;

/// Default longest delay between two characters, in milliseconds.
pub const DEFAULT_DELAY_MAX: u64 = 150;

/// The delay range of typing.
#[derive(Debug, Clone, Copy)]
pub struct TypingConfig {
    pub delay_min_ms: u64,
    pub delay_max_ms: u64,
}

impl TypingConfig {
    /// The default delay range, 50 to 150 ms.
    pub fn default_config() -> (r: TypingConfig)
        ensures
            r.delay_min_ms == DEFAULT_DELAY_MIN,
            r.delay_max_ms == DEFAULT_DELAY_MAX,
    {
        TypingConfig { delay_min_ms: DEFAULT_DELAY_MIN, delay_max_ms: DEFAULT_DELAY_MAX }
    }
}

/// How typing ended.
#[derive(Debug, Clone, Copy, PartialEq, Eq, Structural)]
pub enum TypingStatus {
    /// Every character was typed.
    Completed,
    /// The user pressed Escape; what was typed stays.
    Interrupted,
}

/// A uniformly chosen delay in `lo..=hi`, from `rand::thread_rng`.
/// Claims only that the delay lies in the range.
#[verifier::external_body]
fn random_in(lo: u64, hi: u64) -> (r: u64)
    requires
        lo <= hi,
    ensures
        lo <= r <= hi,
{
    rand::thread_rng().gen_range(lo..=hi)
}

/// A random delay between `min_ms` and `max_ms`; `min_ms` when the range is
/// empty or a single value.
pub fn random_delay(min_ms: u64, max_ms: u64) -> (r: u64)
    ensures
        min_ms >= max_ms ==> r == min_ms,
        min_ms < max_ms ==> min_ms <= r <= max_ms,
{
    if min_ms >= max_ms {
        return min_ms;
    }
    random_in(min_ms, max_ms)
}

/// The Escape key is down: the high bit of its `GetAsyncKeyState` state.
pub fn is_escape_pressed(key_state: i16) -> (r: bool)
    ensures
        r == (key_state < 0),
{
    let u = key_state as u16;
    let r = (u & 0x8000u16) != 0;
    assert(((key_state as u16) & 0x8000u16 != 0) == (key_state < 0)) by (bit_vector);
    r
}

/// Line endings as typed: `\r\n` and lone `\r` become `\n`.
pub open spec fn newlines_normalized(text: Seq<char>) -> Seq<char> {
    replace_seq(replace_seq(text, seq!['\r', '\n'], seq!['\n']), seq!['\r'], seq!['\n'])
}

/// Converts `\r\n` and lone `\r` line endings to `\n`.
pub fn normalize_newlines(text: &str) -> (r: String)
    ensures
        r@ == newlines_normalized(text@),
{
    let v = to_chars(text);
    let mut crlf: Vec<char> = Vec::new();
    crlf.push('\r');
    crlf.push('\n');
    let mut lf: Vec<char> = Vec::new();
    lf.push('\n');
    let mut cr: Vec<char> = Vec::new();
    cr.push('\r');
    assert(crlf@ =~= seq!['\r', '\n']);
    assert(lf@ =~= seq!['\n']);
    assert(cr@ =~= seq!['\r']);
    let a = replace_chars(&v, &crlf, &lf);
    let b = replace_chars(&a, &cr, &lf);
    from_chars(&b)
}

/// Checks made before typing: nothing to do for an empty text (`Ok(false)`),
/// an error for an inverted delay range, else go (`Ok(true)`).
pub fn typing_precheck(text: &str, min_ms: u64, max_ms: u64) -> (r: Result<bool, AppError>)
    ensures
        text@.len() == 0 ==> r == Ok::<bool, AppError>(false),
        text@.len() > 0 && min_ms > max_ms ==> r is Err && r->Err_0 == AppError::Input(
            r->Err_0->Input_0,
        ) && r->Err_0->Input_0@ == "延迟区间非法: min("@ + decimal_seq(min_ms as nat) + ") > max("@
            + decimal_seq(max_ms as nat) + ")"@,
        text@.len() > 0 && min_ms <= max_ms ==> r == Ok::<bool, AppError>(true),
{
    if text.is_empty() {
        return Ok(false);
    }
    if min_ms > max_ms {
        let lo = u64_to_string(min_ms);
        let hi = u64_to_string(max_ms);
        let mut m = concat3("延迟区间非法: min(", lo.as_str(), ") > max(");
        push_str(&mut m, hi.as_str());
        push_str(&mut m, ")");
        return Err(AppError::Input(m));
    }
    Ok(true)
}

/// The check made before each character: stop when interrupted, or when
/// the foreground window is no longer the target (a target of 0 is not
/// watched).
pub fn before_char(interrupted: bool, focus_hwnd: isize, current_hwnd: isize) -> (r: Result<
    (),
    AppError,
>)
    ensures
        interrupted ==> r == Err::<(), AppError>(AppError::Interrupted),
        !interrupted && focus_hwnd != 0 && current_hwnd != focus_hwnd ==> r is Err && r->Err_0
            == AppError::Input(r->Err_0->Input_0) && r->Err_0->Input_0@ == "焦点已漂移，停止输入: 预期 "@
            + crate::chars::signed_decimal_seq(focus_hwnd as int) + ", 当前 "@
            + crate::chars::signed_decimal_seq(current_hwnd as int),
        !interrupted && (focus_hwnd == 0 || current_hwnd == focus_hwnd) ==> r is Ok,
{
    if interrupted {
        return Err(AppError::Interrupted);
    }
    if focus_hwnd != 0 && current_hwnd != focus_hwnd {
        let a = crate::chars::i64_to_string(focus_hwnd as i64);
        let b = crate::chars::i64_to_string(current_hwnd as i64);
        let mut m = concat3("焦点已漂移，停止输入: 预期 ", a.as_str(), ", 当前 ");
        push_str(&mut m, b.as_str());
        return Err(AppError::Input(m));
    }
    Ok(())
}

/// `min(a + b, u64::MAX)`.
pub open spec fn sat_add(a: u64, b: u64) -> u64 {
    if a + b > u64::MAX {
        u64::MAX
    } else {
        (a + b) as u64
    }
}

/// The delay range after a character: a newline waits longer (40 to 80 ms
/// more), as a person pauses at the end of a line.
pub fn delay_bounds(ch: char, min_ms: u64, max_ms: u64) -> (r: (u64, u64))
    ensures
        ch == '\n' ==> r == (sat_add(min_ms, 40), sat_add(max_ms, 80)),
        ch != '\n' ==> r == (min_ms, max_ms),
{
    if ch == '\n' {
        let lo = if min_ms > u64::MAX - 40 {
            u64::MAX
        } else {
            min_ms + 40
        };
        let hi = if max_ms > u64::MAX - 80 {
            u64::MAX
        } else {
            max_ms + 80
        };
        (lo, hi)
    } else {
        (min_ms, max_ms)
    }
}

/// The scan code sent for a character: its code point's low 16 bits.
pub fn scan_code(ch: char) -> (r: u16)
    ensures
        r == (ch as u32) % 0x10000,
{
    let u = ch as u32;
    let r = (u & 0xFFFFu32) as u16;
    assert(u & 0xFFFFu32 == u % 0x10000) by (bit_vector);
    r
}

/// The upper-case hex digits of `n`, without leading zeros (`"0"` for zero).
pub open spec fn upper_hex_seq(n: nat) -> Seq<char>
    decreases n,
{
    if n < 16 {
        seq![upper_hex_digit(n)]
    } else {
        upper_hex_seq(n / 16).push(upper_hex_digit(n % 16))
    }
}

/// The upper-case hex digit of `d < 16`.
pub open spec fn upper_hex_digit(d: nat) -> char {
    if d < 10 {
        ((d + 48) as u8) as char
    } else {
        ((d + 55) as u8) as char
    }
}

fn upper_hex_chars(n: u32) -> (v: Vec<char>)
    ensures
        v@ == upper_hex_seq(n as nat),
    decreases n,
{
    let d = n % 16;
    let c: char = if d < 10 {
        ((d + 48) as u8) as char
    } else {
        ((d + 55) as u8) as char
    };
    if n < 16 {
        let mut v: Vec<char> = Vec::new();
        v.push(c);
        assert(v@ =~= seq![upper_hex_digit(n as nat)]);
        v
    } else {
        let mut v = upper_hex_chars(n / 16);
        v.push(c);
        v
    }
}

/// The code point of a character the legacy typist can send: characters
/// outside the Basic Multilingual Plane are refused.
pub fn bmp_code(ch: char) -> (r: Result<u32, AppError>)
    ensures
        (ch as u32) <= 0xFFFF ==> r == Ok::<u32, AppError>(ch as u32),
        (ch as u32) > 0xFFFF ==> r is Err && r->Err_0 == AppError::Config(r->Err_0->Config_0)
            && r->Err_0->Config_0@ == "暂不支持补充平面字符: U+"@ + upper_hex_seq((ch as u32) as nat),
{
    let code = ch as u32;
    if code > 0xFFFF {
        let h = upper_hex_chars(code);
        let hs = from_chars(&h);
        return Err(AppError::Config(concat("暂不支持补充平面字符: U+", hs.as_str())));
    }
    Ok(code)
}

/// The legacy typist refuses an empty text.
pub fn legacy_precheck(text: &str) -> (r: Result<(), AppError>)
    ensures
        text@.len() == 0 ==> r is Err && r->Err_0 == AppError::Config(r->Err_0->Config_0)
            && r->Err_0->Config_0@ == "输入文本不能为空"@,
        text@.len() > 0 ==> r is Ok,
{
    if text.is_empty() {
        return Err(AppError::Config("输入文本不能为空".to_owned()));
    }
    Ok(())
}

impl Default for TypingConfig {
    /// The default delay range, 50 to 150 ms.
    fn default() -> (r: TypingConfig)
        ensures
            r.delay_min_ms == DEFAULT_DELAY_MIN,
            r.delay_max_ms == DEFAULT_DELAY_MAX,
    {
        TypingConfig::default_config()
    }
}

} // verus!
