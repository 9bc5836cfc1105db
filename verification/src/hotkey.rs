//! Hotkey rules: the accelerator text passed to the shortcut plugin, the
//! combinations that are refused because the system or common applications
//! use them, and the keys registered while the floating window is shown.
use vstd::prelude::*;

use crate::chars::{
    chars_eq, concat3, from_chars, is_ascii_alpha, lowercase, push_str, to_chars, to_lowercase,
    trim_seq, trim_str,
};
use crate::error::AppError;

verus! {

/// `s` without its `' '` characters.
pub open spec fn remove_spaces(s: Seq<char>) -> Seq<char>
    decreases s.len(),
{
    if s.len() == 0 {
        s
    } else if s.last() == ' ' {
        remove_spaces(s.drop_last())
    } else {
        remove_spaces(s.drop_last()).push(s.last())
    }
}

/// The accelerator form of a hotkey: trimmed, lower-cased, spaces removed.
pub open spec fn normalized(raw: Seq<char>) -> Seq<char> {
    remove_spaces(lowercase(trim_seq(raw)))
}

/// Turns a hotkey such as `"Ctrl+Shift+Space"` into the accelerator text
/// the shortcut plugin accepts (`"ctrl+shift+space"`).
pub fn normalize_hotkey(raw: &str) -> (r: String)
    ensures
        r@ == normalized(raw@),
{
    let t = trim_str(raw);
    let l = to_lowercase(t.as_str());
    let v = to_chars(l.as_str());
    let mut out: Vec<char> = Vec::new();
    let mut i: usize = 0;
    while i < v.len()
        invariant
            i <= v.len(),
            out@ == remove_spaces(v@.take(i as int)),
        decreases v.len() - i,
    {
        assert(v@.take(i + 1).drop_last() =~= v@.take(i as int));
        if v[i] != ' ' {
            out.push(v[i]);
        }
        i = i + 1;
    }
    assert(v@.take(v.len() as int) =~= v@);
    from_chars(&out)
}

/// A normalized hotkey that may not be registered: `alt+f4`, `alt+tab`, or
/// `ctrl+` followed by one ASCII letter.
pub open spec fn reserved_accelerator(n: Seq<char>) -> bool {
    ||| n == "alt+f4"@
    ||| n == "alt+tab"@
    ||| (n.len() == 6 && n.take(5) == "ctrl+"@ && is_ascii_alpha(n[5]))
}

/// Whether a hotkey collides with system or editing shortcuts (Ctrl plus a
/// single letter, Alt+F4, Alt+Tab).  Combinations with several modifiers
/// are allowed.
pub fn is_reserved(raw: &str) -> (r: bool)
    ensures
        r == reserved_accelerator(normalized(raw@)),
{
    let n = normalize_hotkey(raw);
    let v = to_chars(n.as_str());
    if chars_eq(&v, &to_chars("alt+f4")) || chars_eq(&v, &to_chars("alt+tab")) {
        return true;
    }
    let prefix = to_chars("ctrl+");
    proof {
        reveal_strlit("ctrl+");
    }
    if v.len() == 6 && chars_eq(&v.as_slice()[0..5], &prefix) {
        assert(v@.subrange(0, 5) =~= v@.take(5));
        let u = v[5] as u32;
        let alpha = (65 <= u && u <= 90) || (97 <= u && u <= 122);
        return alpha;
    }
    proof {
        if v@.len() == 6 {
            assert(v@.subrange(0, 5) =~= v@.take(5));
        }
    }
    false
}

/// Checks a hotkey: `parse_error` is what the shortcut parser reported for
/// its accelerator (`None` when it parsed); a reserved combination is
/// refused as well.
pub fn validate_shortcut(raw: &str, parse_error: Option<String>) -> (r: Result<(), AppError>)
    ensures
        parse_error matches Some(e) ==> r is Err && r->Err_0 == AppError::Hotkey(
            r->Err_0->Hotkey_0,
        ) && r->Err_0->Hotkey_0@ == "热键解析失败 '"@ + raw@ + "': "@ + e@,
        parse_error is None && reserved_accelerator(normalized(raw@)) ==> r is Err && r->Err_0
            == AppError::Hotkey(r->Err_0->Hotkey_0) && r->Err_0->Hotkey_0@ == "热键 '"@ + raw@
            + "' 与系统快捷键冲突，请更换为含多个修饰键的组合（如 Ctrl+Shift+Space / Alt+X）"@,
        parse_error is None && !reserved_accelerator(normalized(raw@)) ==> r is Ok,
{
    if let Some(e) = parse_error {
        let mut m = concat3("热键解析失败 '", raw, "': ");
        push_str(&mut m, e.as_str());
        return Err(AppError::Hotkey(m));
    }
    if is_reserved(raw) {
        return Err(
            AppError::Hotkey(
                concat3(
                    "热键 '",
                    raw,
                    "' 与系统快捷键冲突，请更换为含多个修饰键的组合（如 Ctrl+Shift+Space / Alt+X）",
                ),
            ),
        );
    }
    Ok(())
}

/// The keys registered while the floating window is visible.
pub open spec fn float_shortcuts() -> Seq<&'static str> {
    seq!["Tab", "Up", "Down", "R", "Escape", "Ctrl+1", "Ctrl+2", "Ctrl+3"]
}

/// The keys registered while the floating window is visible: navigation,
/// regenerate, cancel and the quick picks `Ctrl+1..3`.
pub fn float_shortcut_list() -> (r: Vec<&'static str>)
    ensures
        r@ == float_shortcuts(),
{
    vec!["Tab", "Up", "Down", "R", "Escape", "Ctrl+1", "Ctrl+2", "Ctrl+3"]
}

/// Where a global shortcut event goes.
#[derive(Debug, Clone, Copy, PartialEq, Eq, Structural)]
pub enum ShortcutRoute {
    /// Start the capture-and-generate pipeline.
    Trigger,
    /// Forward the key to the floating window.
    ForwardToFloat,
    /// Not a key press: nothing to do.
    Ignore,
}

/// Routes a shortcut event: only presses count; the main hotkey triggers
/// the pipeline, every other registered key is forwarded to the window.
pub fn route_shortcut(pressed: bool, is_main: bool) -> (r: ShortcutRoute)
    ensures
        !pressed ==> r == ShortcutRoute::Ignore,
        pressed && is_main ==> r == ShortcutRoute::Trigger,
        pressed && !is_main ==> r == ShortcutRoute::ForwardToFloat,
{
    if !pressed {
        ShortcutRoute::Ignore
    } else if is_main {
        ShortcutRoute::Trigger
    } else {
        ShortcutRoute::ForwardToFloat
    }
}

} // verus!
