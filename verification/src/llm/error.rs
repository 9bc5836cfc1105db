//! Friendly messages for failed language-model requests.
//!
//! Authentication, rate-limit and size errors (401, 403, 408, 413, 429)
//! never echo the response body; other statuses append the trimmed body,
//! cut to at most 200 characters.
use vstd::prelude::*;

use crate::chars::{
    concat, concat3, decimal_seq, from_chars, push_char, push_str, to_chars, trim_seq, trim_str,
    u64_to_string,
};
use crate::error::AppError;

verus! {

/// Longest body text kept in a message.
pub const MAX_BODY_LEN: usize = 200;

/// The body as shown: unchanged up to 200 characters, else its first 200
/// characters followed by `…`.
pub open spec fn truncated_body(body: Seq<char>) -> Seq<char> {
    if body.len() <= MAX_BODY_LEN {
        body
    } else {
        body.take(MAX_BODY_LEN as int).push('…')
    }
}

/// Cuts a body to a safe length, counting characters (not bytes).
pub fn truncate_body(body: &str) -> (r: String)
    ensures
        r@ == truncated_body(body@),
{
    let v = to_chars(body);
    if v.len() <= MAX_BODY_LEN {
        from_chars(&v)
    } else {
        let mut r = from_chars(&v.as_slice()[0..MAX_BODY_LEN]);
        assert(v@.subrange(0, MAX_BODY_LEN as int) =~= body@.take(MAX_BODY_LEN as int));
        push_char(&mut r, '…');
        r
    }
}

/// The statuses whose body is never shown.
pub open spec fn is_safe_status(status: u16) -> bool {
    status == 401 || status == 403 || status == 408 || status == 413 || status == 429
}

/// The friendly text for an HTTP status.
pub open spec fn friendly_status(status: u16) -> Seq<char> {
    if status == 400 {
        "请求格式错误，请检查 Prompt 模板或模型参数"@
    } else if status == 401 {
        "API Key 无效或已过期，请到设置中检查"@
    } else if status == 403 {
        "API Key 权限不足或模型无访问权限"@
    } else if status == 404 {
        "模型不存在，请检查 model 名称"@
    } else if status == 408 {
        "请求超时，请稍后重试或检查网络"@
    } else if status == 413 {
        "请求内容过大，请缩短文本"@
    } else if status == 429 {
        "请求过于频繁，请稍后再试"@
    } else if 500 <= status <= 599 {
        "服务端异常（"@ + decimal_seq(status as nat) + "），请稍后再试或更换服务商"@
    } else {
        "请求错误（"@ + decimal_seq(status as nat) + "）"@
    }
}

/// The detail of an HTTP error as shown: the message text of the `Llm` error.
pub open spec fn http_error_text(status: u16, body: Seq<char>) -> Seq<char> {
    let friendly = friendly_status(status);
    let detail = truncated_body(trim_seq(body));
    if is_safe_status(status) || detail.len() == 0 {
        friendly
    } else {
        friendly + " | 详情: "@ + detail
    }
}

fn friendly_text(status: u16) -> (r: String)
    ensures
        r@ == friendly_status(status),
{
    if status == 400 {
        "请求格式错误，请检查 Prompt 模板或模型参数".to_owned()
    } else if status == 401 {
        "API Key 无效或已过期，请到设置中检查".to_owned()
    } else if status == 403 {
        "API Key 权限不足或模型无访问权限".to_owned()
    } else if status == 404 {
        "模型不存在，请检查 model 名称".to_owned()
    } else if status == 408 {
        "请求超时，请稍后重试或检查网络".to_owned()
    } else if status == 413 {
        "请求内容过大，请缩短文本".to_owned()
    } else if status == 429 {
        "请求过于频繁，请稍后再试".to_owned()
    } else if 500 <= status && status <= 599 {
        let n = u64_to_string(status as u64);
        concat3("服务端异常（", n.as_str(), "），请稍后再试或更换服务商")
    } else {
        let n = u64_to_string(status as u64);
        concat3("请求错误（", n.as_str(), "）")
    }
}

/// Turns a non-success HTTP status and its body into an `Llm` error.
pub fn format_http_error(status: u16, body: &str) -> (r: AppError)
    ensures
        r == AppError::Llm(r->Llm_0),
        r->Llm_0@ == http_error_text(status, body@),
{
    let friendly = friendly_text(status);
    if status == 401 || status == 403 || status == 408 || status == 413 || status == 429 {
        return AppError::Llm(friendly);
    }
    let trimmed = trim_str(body);
    let detail = truncate_body(trimmed.as_str());
    if detail.as_str().is_empty() {
        AppError::Llm(friendly)
    } else {
        let mut msg = concat(friendly.as_str(), " | 详情: ");
        push_str(&mut msg, detail.as_str());
        AppError::Llm(msg)
    }
}

/// The message of a failed transport (no HTTP status): by kind, checked in
/// the order timeout, connection, decoding; any other failure keeps its
/// own description.
pub open spec fn network_error_text(is_timeout: bool, is_connect: bool, is_decode: bool, detail: Seq<char>) -> Seq<char> {
    if is_timeout {
        "网络超时，请检查网络连接或增加超时时间"@
    } else if is_connect {
        "无法连接到服务器，请检查 base_url 或网络"@
    } else if is_decode {
        "响应解析失败，请检查 API 是否兼容 OpenAI 格式"@
    } else {
        "网络错误: "@ + detail
    }
}

/// Turns a transport failure, given by its kind flags and its description,
/// into an `Llm` error.
pub fn format_network_error(is_timeout: bool, is_connect: bool, is_decode: bool, detail: &str) -> (r: AppError)
    ensures
        r == AppError::Llm(r->Llm_0),
        r->Llm_0@ == network_error_text(is_timeout, is_connect, is_decode, detail@),
{
    if is_timeout {
        AppError::Llm("网络超时，请检查网络连接或增加超时时间".to_owned())
    } else if is_connect {
        AppError::Llm("无法连接到服务器，请检查 base_url 或网络".to_owned())
    } else if is_decode {
        AppError::Llm("响应解析失败，请检查 API 是否兼容 OpenAI 格式".to_owned())
    } else {
        AppError::Llm(concat("网络错误: ", detail))
    }
}

} // verus!
