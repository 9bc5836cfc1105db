//! The application error type and its classification into user-facing codes.
//!
//! Every variant carries its detail as plain text; `message` renders the
//! error as the user sees it, and `classify_error` maps that message to an
//! error code, a short hint and whether the front end stays silent.
use vstd::prelude::*;

use crate::chars::{concat, contains_seq, contains_str};

verus! {

/// Errors of the application.
#[derive(Debug, Clone)]
pub enum AppError {
    /// Invalid or missing configuration.
    Config(String),
    /// File-system or OS I/O failure.
    Io(String),
    /// JSON encoding or decoding failure.
    Serde(String),
    /// Failure reported by the window framework.
    Tauri(String),
    /// Failure of a language-model request.
    Llm(String),
    /// Clipboard access failure.
    Clipboard(String),
    /// Database failure.
    Db(String),
    /// Hotkey parsing or registration failure.
    Hotkey(String),
    /// Keyboard input failure (focus lost, bad delay range, ...).
    Input(String),
    /// Window management failure.
    Window(String),
    /// A task is already running.
    Busy,
    /// Typing was interrupted by the user.
    Interrupted,
}

/// The text shown for an error.
pub open spec fn error_message(e: AppError) -> Seq<char> {
    match e {
        AppError::Config(s) => "配置错误："@ + s@,
        AppError::Io(s) => "IO 错误："@ + s@,
        AppError::Serde(s) => "序列化错误："@ + s@,
        AppError::Tauri(s) => "Tauri 错误："@ + s@,
        AppError::Llm(s) => "LLM 错误："@ + s@,
        AppError::Clipboard(s) => "剪贴板错误："@ + s@,
        AppError::Db(s) => "数据库错误："@ + s@,
        AppError::Hotkey(s) => "热键错误："@ + s@,
        AppError::Input(s) => "输入错误："@ + s@,
        AppError::Window(s) => "窗口错误："@ + s@,
        AppError::Busy => "任务进行中，请稍后再试"@,
        AppError::Interrupted => "输入已被中断"@,
    }
}

impl AppError {
    /// The text shown for this error (what `to_string` gives).
    pub fn message(&self) -> (r: String)
        ensures
            r@ == error_message(*self),
    {
        match self {
            AppError::Config(s) => concat("配置错误：", s.as_str()),
            AppError::Io(s) => concat("IO 错误：", s.as_str()),
            AppError::Serde(s) => concat("序列化错误：", s.as_str()),
            AppError::Tauri(s) => concat("Tauri 错误：", s.as_str()),
            AppError::Llm(s) => concat("LLM 错误：", s.as_str()),
            AppError::Clipboard(s) => concat("剪贴板错误：", s.as_str()),
            AppError::Db(s) => concat("数据库错误：", s.as_str()),
            AppError::Hotkey(s) => concat("热键错误：", s.as_str()),
            AppError::Input(s) => concat("输入错误：", s.as_str()),
            AppError::Window(s) => concat("窗口错误：", s.as_str()),
            AppError::Busy => "任务进行中，请稍后再试".to_owned(),
            AppError::Interrupted => "输入已被中断".to_owned(),
        }
    }
}

/// An error code with its hint; `silent` errors are not shown to the user.
#[derive(Debug, Clone)]
pub struct ErrorInfo {
    pub code: &'static str,
    pub message: &'static str,
    pub silent: bool,
}

/// The error classes, in the order in which they are tested.
pub enum ErrorClass {
    NotTargetWindow,
    CaptureFailed,
    EmptyText,
    Timeout,
    NoBalance,
    LocalDown,
    LlmFailed,
    UnknownWindow,
    ConfigSave,
    Unknown,
}

/// `msg` contains the literal `pat`.
pub open spec fn has(msg: Seq<char>, pat: &str) -> bool {
    contains_seq(msg, pat@)
}

/// The class of an error message: the first rule whose keywords occur wins.
pub open spec fn classify_message(msg: Seq<char>) -> ErrorClass {
    if has(msg, "非微信") || has(msg, "非目标") || has(msg, "当前前台窗口") {
        ErrorClass::NotTargetWindow
    } else if has(msg, "Ctrl+C") || has(msg, "未捕获到文本") || has(msg, "未捕获到选中文本") {
        ErrorClass::CaptureFailed
    } else if has(msg, "空") && (has(msg, "文本") || has(msg, "输入")) {
        ErrorClass::EmptyText
    } else if has(msg, "超时") || has(msg, "timed out") || has(msg, "timeout") {
        ErrorClass::Timeout
    } else if has(msg, "余额") || has(msg, "insufficient") || has(msg, "quota") {
        ErrorClass::NoBalance
    } else if has(msg, "本地") && (has(msg, "未启动") || has(msg, "连接")) {
        ErrorClass::LocalDown
    } else if has(msg, "LLM") || has(msg, "云端") || has(msg, "请求") || has(msg, "API") {
        ErrorClass::LlmFailed
    } else if has(msg, "类名") || has(msg, "窗口") {
        ErrorClass::UnknownWindow
    } else if has(msg, "配置") && (has(msg, "保存") || has(msg, "写入") || has(msg, "权限")) {
        ErrorClass::ConfigSave
    } else {
        ErrorClass::Unknown
    }
}

/// The code of a class.
pub open spec fn class_code(c: ErrorClass) -> &'static str {
    match c {
        ErrorClass::NotTargetWindow => "E001",
        ErrorClass::CaptureFailed => "E003",
        ErrorClass::EmptyText => "E004",
        ErrorClass::Timeout => "E005",
        ErrorClass::NoBalance => "E006",
        ErrorClass::LocalDown => "E007",
        ErrorClass::LlmFailed => "E008",
        ErrorClass::UnknownWindow => "E010",
        ErrorClass::ConfigSave => "E014",
        ErrorClass::Unknown => "E000",
    }
}

/// The hint of a class.
pub open spec fn class_hint(c: ErrorClass) -> &'static str {
    match c {
        ErrorClass::NotTargetWindow => "非微信/QQ窗口",
        ErrorClass::CaptureFailed => "文本捕获失败，请重新选中文本",
        ErrorClass::EmptyText => "选中文本为空",
        ErrorClass::Timeout => "AI 响应超时，请稍后重试",
        ErrorClass::NoBalance => "云端模型余额不足",
        ErrorClass::LocalDown => "本地模型未启动，请检查 Ollama",
        ErrorClass::LlmFailed => "AI 生成失败，请稍后重试",
        ErrorClass::UnknownWindow => "当前窗口暂不支持，可在设置中添加",
        ErrorClass::ConfigSave => "配置保存失败，请检查文件权限",
        ErrorClass::Unknown => "操作失败，请稍后重试",
    }
}

/// Whether a class is silent: only the wrong-window and empty-text classes are.
pub open spec fn class_silent(c: ErrorClass) -> bool {
    c is NotTargetWindow || c is EmptyText
}

fn info(code: &'static str, message: &'static str, silent: bool) -> (r: ErrorInfo)
    ensures
        r.code == code,
        r.message == message,
        r.silent == silent,
{
    ErrorInfo { code, message, silent }
}

/// Maps an error to its code, hint and silence by the keywords of its message.
pub fn classify_error(err: &AppError) -> (r: ErrorInfo)
    ensures
        r.code == class_code(classify_message(error_message(*err))),
        r.message == class_hint(classify_message(error_message(*err))),
        r.silent == class_silent(classify_message(error_message(*err))),
{
    let m = err.message();
    let msg = m.as_str();
    if contains_str(msg, "非微信") || contains_str(msg, "非目标") || contains_str(msg, "当前前台窗口") {
        return info("E001", "非微信/QQ窗口", true);
    }
    if contains_str(msg, "Ctrl+C") || contains_str(msg, "未捕获到文本") || contains_str(
        msg,
        "未捕获到选中文本",
    ) {
        return info("E003", "文本捕获失败，请重新选中文本", false);
    }
    if contains_str(msg, "空") && (contains_str(msg, "文本") || contains_str(msg, "输入")) {
        return info("E004", "选中文本为空", true);
    }
    if contains_str(msg, "超时") || contains_str(msg, "timed out") || contains_str(msg, "timeout") {
        return info("E005", "AI 响应超时，请稍后重试", false);
    }
    if contains_str(msg, "余额") || contains_str(msg, "insufficient") || contains_str(msg, "quota") {
        return info("E006", "云端模型余额不足", false);
    }
    if contains_str(msg, "本地") && (contains_str(msg, "未启动") || contains_str(msg, "连接")) {
        return info("E007", "本地模型未启动，请检查 Ollama", false);
    }
    if contains_str(msg, "LLM") || contains_str(msg, "云端") || contains_str(msg, "请求")
        || contains_str(msg, "API") {
        return info("E008", "AI 生成失败，请稍后重试", false);
    }
    if contains_str(msg, "类名") || contains_str(msg, "窗口") {
        return info("E010", "当前窗口暂不支持，可在设置中添加", false);
    }
    if contains_str(msg, "配置") && (contains_str(msg, "保存") || contains_str(msg, "写入")
        || contains_str(msg, "权限")) {
        return info("E014", "配置保存失败，请检查文件权限", false);
    }
    info("E000", "操作失败，请稍后重试", false)
}

} // verus!
