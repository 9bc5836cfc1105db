//! Capturing the selected text of a chat window: the target window is
//! recognised by its process and class names; the text is read through UI
//! Automation, falling back to a simulated Ctrl+C.
use vstd::prelude::*;

use crate::chars::{
    chars_eq, eq_ignore_ascii_case_chars, eq_ignore_ascii_case_seq, join_chars, join_seq,
    string_views, to_chars, views,
};
use crate::error::AppError;

verus! {

/// The chat applications recognised.
#[derive(Debug, Clone, Copy, PartialEq, Eq, Structural)]
pub enum TargetWindowType {
    WeChat,
    QQ,
    Unknown,
}

impl TargetWindowType {
    /// The display name of the window type.
    pub fn name(&self) -> (r: &'static str)
        ensures
            *self == TargetWindowType::WeChat ==> r@ == "WeChat"@,
            *self == TargetWindowType::QQ ==> r@ == "QQ"@,
            *self == TargetWindowType::Unknown ==> r@ == "Unknown"@,
    {
        match self {
            TargetWindowType::WeChat => "WeChat",
            TargetWindowType::QQ => "QQ",
            TargetWindowType::Unknown => "Unknown",
        }
    }
}

/// A top-level window and the monitor it is on.
#[derive(Debug, Clone)]
pub struct WindowInfo {
    pub hwnd: isize,
    pub title: String,
    pub class_name: String,
    pub process_name: String,
    pub window_type: TargetWindowType,
    pub monitor_left: i32,
    pub monitor_top: i32,
    pub monitor_width: i32,
    pub monitor_height: i32,
}

/// How the text was captured.
#[derive(Debug, Clone, Copy, PartialEq, Eq, Structural)]
pub enum CaptureMethod {
    UiAutomation,
    Clipboard,
}

/// A captured selection.
#[derive(Debug, Clone)]
pub struct CaptureResult {
    pub text: String,
    pub window: WindowInfo,
    pub method: CaptureMethod,
}

/// `name` equals one of `names`, ignoring ASCII case.
pub open spec fn matches_any(names: Seq<&'static str>, name: Seq<char>) -> bool {
    exists|i: int| 0 <= i < names.len() && eq_ignore_ascii_case_seq(#[trigger] names[i]@, name)
}

/// Process names of WeChat.
pub open spec fn wechat_processes() -> Seq<&'static str> {
    seq!["WeChat.exe", "Weixin.exe"]
}

/// Window classes of WeChat.
pub open spec fn wechat_classes() -> Seq<&'static str> {
    seq!["WeChatMainWndForPC", "Weixin"]
}

/// Process names of QQ.
pub open spec fn qq_processes() -> Seq<&'static str> {
    seq!["QQ.exe"]
}

/// Window classes of QQ.
pub open spec fn qq_classes() -> Seq<&'static str> {
    seq!["TXGuiFoundation"]
}

/// The type of a window: WeChat when its process or class matches, QQ
/// when both its process and class match, otherwise unknown.
pub open spec fn window_type_of(process_name: Seq<char>, class_name: Seq<char>) -> TargetWindowType {
    if matches_any(wechat_processes(), process_name) || matches_any(wechat_classes(), class_name) {
        TargetWindowType::WeChat
    } else if matches_any(qq_processes(), process_name) && matches_any(qq_classes(), class_name) {
        TargetWindowType::QQ
    } else {
        TargetWindowType::Unknown
    }
}

fn matches_any_exec(names: &Vec<&'static str>, name: &str) -> (r: bool)
    ensures
        r == matches_any(names@, name@),
{
    let n = to_chars(name);
    let mut i: usize = 0;
    while i < names.len()
        invariant
            i <= names.len(),
            n@ == name@,
            forall|k: int| 0 <= k < i ==> !eq_ignore_ascii_case_seq(#[trigger] names@[k]@, name@),
        decreases names.len() - i,
    {
        let c = to_chars(names[i]);
        if eq_ignore_ascii_case_chars(&c, &n) {
            return true;
        }
        i = i + 1;
    }
    false
}

/// Recognises the chat application of a window by its process file name
/// and window class.
pub fn identify_window_type(process_name: &str, class_name: &str) -> (r: TargetWindowType)
    ensures
        r == window_type_of(process_name@, class_name@),
{
    let wp: Vec<&'static str> = vec!["WeChat.exe", "Weixin.exe"];
    let wc: Vec<&'static str> = vec!["WeChatMainWndForPC", "Weixin"];
    let qp: Vec<&'static str> = vec!["QQ.exe"];
    let qc: Vec<&'static str> = vec!["TXGuiFoundation"];
    assert(wp@ == wechat_processes());
    assert(wc@ == wechat_classes());
    assert(qp@ == qq_processes());
    assert(qc@ == qq_classes());
    if matches_any_exec(&wp, process_name) || matches_any_exec(&wc, class_name) {
        return TargetWindowType::WeChat;
    }
    if matches_any_exec(&qp, process_name) && matches_any_exec(&qc, class_name) {
        return TargetWindowType::QQ;
    }
    TargetWindowType::Unknown
}

/// The target of a capture: the foreground window when it is a recognised
/// chat window.
pub fn detect_target(info: Option<WindowInfo>) -> (r: Option<WindowInfo>)
    ensures
        info matches Some(w) ==> (w.window_type != TargetWindowType::Unknown ==> r == Some(w)),
        info matches Some(w) ==> (w.window_type == TargetWindowType::Unknown ==> r is None),
        info is None ==> r is None,
{
    match info {
        Some(w) => if w.window_type == TargetWindowType::Unknown {
            None
        } else {
            Some(w)
        },
        None => None,
    }
}

/// The window a capture runs on, or the error when there is none.
pub fn require_target(target: Option<WindowInfo>) -> (r: Result<WindowInfo, AppError>)
    ensures
        target matches Some(w) ==> r == Ok::<WindowInfo, AppError>(w),
        target is None ==> r is Err && r->Err_0 == AppError::Config(r->Err_0->Config_0)
            && r->Err_0->Config_0@ == "当前前台窗口非微信/QQ"@,
{
    match target {
        Some(w) => Ok(w),
        None => Err(AppError::Config("当前前台窗口非微信/QQ".to_owned())),
    }
}

/// The text of a text selection: its ranges joined, if that is not empty.
pub fn text_from_selection(range_texts: &Vec<String>) -> (r: Option<String>)
    ensures
        join_seq(string_views(range_texts@), Seq::empty()).len() > 0 ==> (r matches Some(t) && t@
            == join_seq(string_views(range_texts@), Seq::empty())),
        join_seq(string_views(range_texts@), Seq::empty()).len() == 0 ==> r is None,
{
    let mut parts: Vec<Vec<char>> = Vec::new();
    let mut i: usize = 0;
    while i < range_texts.len()
        invariant
            i <= range_texts.len(),
            views(parts@) == string_views(range_texts@).take(i as int),
        decreases range_texts.len() - i,
    {
        let ghost before = views(parts@);
        let p = to_chars(range_texts[i].as_str());
        assert(p@ == string_views(range_texts@)[i as int]);
        parts.push(p);
        assert(views(parts@) =~= before.push(p@));
        assert(views(parts@) =~= string_views(range_texts@).take(i + 1));
        i = i + 1;
    }
    assert(string_views(range_texts@).take(range_texts.len() as int) =~= string_views(range_texts@));
    let empty: Vec<char> = Vec::new();
    let joined = join_chars(&parts, empty.as_slice());
    assert(empty@ =~= Seq::<char>::empty());
    if joined.len() == 0 {
        None
    } else {
        Some(crate::chars::from_chars(&joined))
    }
}

/// The text of a value field, if it is not empty and at most 200
/// characters long (longer values are whole documents, not a selection).
pub fn text_from_value(value: String) -> (r: Option<String>)
    ensures
        0 < value@.len() <= 200 ==> r == Some(value),
        !(0 < value@.len() <= 200) ==> r is None,
{
    let n = to_chars(value.as_str()).len();
    if n > 0 && n <= 200 {
        Some(value)
    } else {
        None
    }
}

/// The UI Automation result when it gives a text; `None` (fall back to
/// Ctrl+C) when it gives none or fails.
pub fn uia_text(result: Result<Option<String>, AppError>) -> (r: Option<String>)
    ensures
        result matches Ok(Some(t)) ==> r == Some(t),
        !(result matches Ok(Some(_))) ==> r is None,
{
    match result {
        Ok(Some(t)) => Some(t),
        _ => None,
    }
}

/// The result of the Ctrl+C fallback, or the error when it captured nothing.
pub fn clipboard_capture(window: WindowInfo, text: Option<String>) -> (r: Result<CaptureResult, AppError>)
    ensures
        text matches Some(t) ==> r matches Ok(c) && c.text == t && c.window == window && c.method
            == CaptureMethod::Clipboard,
        text is None ==> r is Err && r->Err_0 == AppError::Config(r->Err_0->Config_0)
            && r->Err_0->Config_0@ == "Ctrl+C 也未捕获到文本"@,
{
    match text {
        Some(t) => Ok(CaptureResult { text: t, window, method: CaptureMethod::Clipboard }),
        None => Err(AppError::Config("Ctrl+C 也未捕获到文本".to_owned())),
    }
}

/// How many times the clipboard is polled after Ctrl+C.
pub const CLIPBOARD_POLLS: u32 = 10;

/// One poll of the clipboard after Ctrl+C.
#[derive(Debug)]
pub enum PollStep {
    /// A non-empty text arrived.
    Captured(String),
    /// Wait and poll again.
    Wait,
    /// All polls done without a text.
    GiveUp,
}

/// The clipboard held a non-empty text.
pub open spec fn captured_text(read: Option<String>) -> bool {
    match read {
        Some(t) => t@.len() > 0,
        None => false,
    }
}

/// Decides after poll `attempt` (from 0) what the text read means.
pub fn poll_step(attempt: u32, read: Option<String>) -> (r: PollStep)
    ensures
        read matches Some(t) ==> (t@.len() > 0 ==> (r matches PollStep::Captured(c) && c == t)),
        !captured_text(read) && attempt + 1 < CLIPBOARD_POLLS ==> r is Wait,
        !captured_text(read) && attempt + 1 >= CLIPBOARD_POLLS ==> r is GiveUp,
{
    match read {
        Some(t) => {
            if !t.as_str().is_empty() {
                return PollStep::Captured(t);
            }
        },
        None => {},
    }
    if attempt < CLIPBOARD_POLLS - 1 {
        PollStep::Wait
    } else {
        PollStep::GiveUp
    }
}

} // verus!
