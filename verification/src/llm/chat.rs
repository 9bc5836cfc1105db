//! The direct reply client: a cloud (OpenAI-compatible) or local (Ollama)
//! model is asked for short replies to a captured message, one per line.
//!
//! This module holds what the client decides; the HTTP exchange itself is
//! done by the caller with the request parts built here.
use vstd::prelude::*;

use crate::chars::{
    concat, concat3, from_chars, is_white_space, join_chars, join_seq, lemma_lines_len,
    lemma_split_two, lemma_trim_fixed, lemma_trim_idempotent, lines_chars, lines_seq, lowercase,
    split_seq, string_views, strip_cr, to_chars, to_lowercase, to_strings, trim_chars, trim_seq,
    trim_str, views,
};
use crate::error::AppError;
use crate::llm::provider::trim_trailing_slashes;

verus! {

/// The system prompt sent before the captured message.
pub const SYSTEM_PROMPT: &'static str = "你是一个聊天回复助手。根据用户给出的对方消息，生成3条简短、自然、得体的候选回复。每条回复单独一行，不要编号。回复风格应贴近日常聊天。";

/// Request timeout of the client, in seconds.
pub const DEFAULT_TIMEOUT_SECS: u64 = 30;

/// The role of a chat message.
#[derive(Debug, Clone, Copy, PartialEq, Eq)]
pub enum MessageRole {
    System,
    User,
    Assistant,
}

/// A chat message of the direct client.
#[derive(Debug, Clone)]
pub struct ChatMessage {
    pub role: MessageRole,
    pub content: String,
}

/// Where the replies are generated.
#[derive(Debug, Clone, Copy, PartialEq, Eq)]
pub enum LlmMode {
    Cloud,
    Local,
}

/// The endpoints and models of the direct client.
#[derive(Debug, Clone)]
pub struct LlmConfig {
    pub cloud_api_key: String,
    pub cloud_endpoint: String,
    pub cloud_model: String,
    pub local_endpoint: String,
    pub local_model: String,
}

/// What to generate replies for.
#[derive(Debug, Clone)]
pub struct GenerateParams {
    pub captured_text: String,
    pub candidate_count: u32,
}

/// The mode named by `s`, if any: its trimmed, lower-cased text must be
/// `cloud` or `local`.
pub open spec fn mode_of(s: Seq<char>) -> Option<LlmMode> {
    let k = lowercase(trim_seq(s));
    if k == "cloud"@ {
        Some(LlmMode::Cloud)
    } else if k == "local"@ {
        Some(LlmMode::Local)
    } else {
        None
    }
}

impl LlmMode {
    /// Parses a mode name, ignoring case and surrounding whitespace.
    pub fn from_str(s: &str) -> (r: Result<LlmMode, AppError>)
        ensures
            mode_of(s@) matches Some(m) ==> r == Ok::<LlmMode, AppError>(m),
            mode_of(s@) is None ==> r is Err && r->Err_0 == AppError::Config(r->Err_0->Config_0)
                && r->Err_0->Config_0@ == "不支持的 LLM 模式: "@ + s@ + "，请使用 cloud 或 local"@,
    {
        let t = trim_str(s);
        let k = to_lowercase(t.as_str());
        let kc = to_chars(k.as_str());
        if crate::chars::chars_eq(&kc, &to_chars("cloud")) {
            Ok(LlmMode::Cloud)
        } else if crate::chars::chars_eq(&kc, &to_chars("local")) {
            Ok(LlmMode::Local)
        } else {
            Err(AppError::Config(concat3("不支持的 LLM 模式: ", s, "，请使用 cloud 或 local")))
        }
    }
}

/// The messages of a request: the system prompt, then the captured message.
pub fn build_messages(captured_text: &str) -> (r: Vec<ChatMessage>)
    ensures
        r@.len() == 2,
        r@[0].role == MessageRole::System,
        r@[0].content@ == SYSTEM_PROMPT@,
        r@[1].role == MessageRole::User,
        r@[1].content@ == "对方消息："@ + captured_text@,
{
    let mut v: Vec<ChatMessage> = Vec::new();
    v.push(ChatMessage { role: MessageRole::System, content: SYSTEM_PROMPT.to_owned() });
    v.push(ChatMessage { role: MessageRole::User, content: concat("对方消息：", captured_text) });
    v
}

/// The trimmed non-empty lines, in order.
pub open spec fn non_empty_lines(lines: Seq<Seq<char>>) -> Seq<Seq<char>>
    decreases lines.len(),
{
    if lines.len() == 0 {
        Seq::empty()
    } else if trim_seq(lines.last()).len() == 0 {
        non_empty_lines(lines.drop_last())
    } else {
        non_empty_lines(lines.drop_last()).push(trim_seq(lines.last()))
    }
}

/// The replies found in a model answer: its trimmed non-empty lines, at
/// most `max(expected, 1)` of them.
pub open spec fn replies_seq(raw: Seq<char>, expected: nat) -> Seq<Seq<char>> {
    let all = non_empty_lines(lines_seq(raw));
    let k: nat = if expected == 0 { 1 } else { expected };
    if all.len() <= k {
        all
    } else {
        all.take(k as int)
    }
}

/// Splits a model answer into replies, one per non-blank line, trimmed,
/// keeping at most `max(expected_count, 1)`.
pub fn parse_replies(raw: &str, expected_count: usize) -> (r: Vec<String>)
    ensures
        string_views(r@) == replies_seq(raw@, expected_count as nat),
{
    let v = to_chars(raw);
    let lines = lines_chars(&v);
    let limit: usize = if expected_count == 0 { 1 } else { expected_count };
    let ghost lv = views(lines@);
    let mut out: Vec<Vec<char>> = Vec::new();
    let mut i: usize = 0;
    while i < lines.len() && out.len() < limit
        invariant
            i <= lines.len(),
            lv == views(lines@),
            lv == lines_seq(raw@),
            views(out@) == non_empty_lines(lv.take(i as int)),
            out@.len() <= limit,
        decreases lines.len() - i,
    {
        assert(lv.take(i + 1).drop_last() =~= lv.take(i as int));
        let t = trim_chars(lines[i].as_slice());
        if t.len() > 0 {
            let ghost before = views(out@);
            out.push(t);
            assert(views(out@) =~= before.push(trim_seq(lv[i as int])));
        }
        i = i + 1;
    }
    proof {
        lemma_non_empty_lines_prefix(lv, i as int);
        assert(lv.take(lv.len() as int) =~= lv);
    }
    to_strings(&out)
}

proof fn lemma_non_empty_lines_len(lines: Seq<Seq<char>>)
    ensures
        non_empty_lines(lines).len() <= lines.len(),
    decreases lines.len(),
{
    if lines.len() > 0 {
        lemma_non_empty_lines_len(lines.drop_last());
    }
}

/// The kept lines of a longer list start with those of a prefix.
proof fn lemma_non_empty_lines_extend(lines: Seq<Seq<char>>, i: int, j: int)
    requires
        0 <= i <= j <= lines.len(),
    ensures
        non_empty_lines(lines.take(i)).len() <= non_empty_lines(lines.take(j)).len(),
        non_empty_lines(lines.take(i)) == non_empty_lines(lines.take(j)).take(
            non_empty_lines(lines.take(i)).len() as int,
        ),
    decreases j - i,
{
    if i < j {
        lemma_non_empty_lines_extend(lines, i, j - 1);
        assert(lines.take(j).drop_last() =~= lines.take(j - 1));
        let a = non_empty_lines(lines.take(j - 1));
        let b = non_empty_lines(lines.take(j));
        if trim_seq(lines.take(j).last()).len() != 0 {
            assert(b == a.push(trim_seq(lines.take(j).last())));
            assert(a.push(trim_seq(lines.take(j).last())).take(a.len() as int) =~= a);
            let c = non_empty_lines(lines.take(i));
            assert(b.take(c.len() as int) =~= a.take(c.len() as int));
        }
    } else {
        let c = non_empty_lines(lines.take(i));
        assert(c.take(c.len() as int) =~= c);
    }
}

/// When the loop stops early (the limit reached) or at the end, what it
/// kept is the answer's reply list.
proof fn lemma_non_empty_lines_prefix(lv: Seq<Seq<char>>, i: int)
    requires
        0 <= i <= lv.len(),
    ensures
        ({
            let a = non_empty_lines(lv.take(i));
            let all = non_empty_lines(lv);
            a.len() <= all.len() && a == all.take(a.len() as int)
        }),
{
    lemma_non_empty_lines_extend(lv, i, lv.len() as int);
    assert(lv.take(lv.len() as int) =~= lv);
}

/// The number of replies kept for an expected count: at least one.
pub open spec fn reply_limit(expected: nat) -> nat {
    if expected == 0 {
        1
    } else {
        expected
    }
}

/// The replies of an answer are its first non-blank lines: asking for `n`
/// gives at most `max(n, 1)` replies, namely the first ones of what a count
/// large enough to keep every line gives, and as many of them as there are
/// up to that limit; asking for fewer gives a prefix of asking for more.
/// Every reply is a non-empty trimmed line.
pub proof fn lemma_replies_first_lines(raw: Seq<char>, n: nat, m: nat)
    requires
        n <= m,
    ensures
        ({
            let all = replies_seq(raw, raw.len() + 1);
            let r = replies_seq(raw, n);
            &&& r.len() <= reply_limit(n)
            &&& r.len() == if all.len() <= reply_limit(n) { all.len() } else { reply_limit(n) }
            &&& r == all.take(r.len() as int)
            &&& r == replies_seq(raw, m).take(r.len() as int)
            &&& forall|i: int| 0 <= i < r.len() ==> (#[trigger] r[i]).len() > 0 && trim_seq(r[i]) == r[i]
        }),
{
    let lines = lines_seq(raw);
    let all_lines = non_empty_lines(lines);
    lemma_lines_len(raw);
    lemma_non_empty_lines_len(lines);
    lemma_non_empty_lines_shape(lines);
    assert(replies_seq(raw, raw.len() + 1) == all_lines);
    let r = replies_seq(raw, n);
    assert(all_lines.take(all_lines.len() as int) =~= all_lines);
    let rm = replies_seq(raw, m);
    if all_lines.len() > reply_limit(n) {
        assert(r =~= all_lines.take(reply_limit(n) as int));
        assert(rm.take(r.len() as int) =~= all_lines.take(reply_limit(n) as int));
    } else {
        assert(rm =~= all_lines);
    }
    assert forall|i: int| 0 <= i < r.len() implies (#[trigger] r[i]).len() > 0 && trim_seq(r[i])
        == r[i] by {
        assert(r[i] == all_lines[i]);
    }
}

proof fn lemma_non_empty_lines_shape(lines: Seq<Seq<char>>)
    ensures
        forall|i: int|
            0 <= i < non_empty_lines(lines).len() ==> (#[trigger] non_empty_lines(lines)[i]).len() > 0
                && trim_seq(non_empty_lines(lines)[i]) == non_empty_lines(lines)[i],
    decreases lines.len(),
{
    if lines.len() > 0 {
        lemma_non_empty_lines_shape(lines.drop_last());
        lemma_trim_idempotent(lines.last());
        let a = non_empty_lines(lines.drop_last());
        let x = trim_seq(lines.last());
        if x.len() > 0 {
            assert forall|i: int| 0 <= i < a.push(x).len() implies (#[trigger] a.push(x)[i]).len()
                > 0 && trim_seq(a.push(x)[i]) == a.push(x)[i] by {
                if i < a.len() {
                    assert(a.push(x)[i] == a[i]);
                }
            }
        }
    }
}

/// An answer of two lines gives those two lines as replies when two or
/// more are asked for, and only the first when fewer are.
pub proof fn lemma_two_lines(a: Seq<char>, b: Seq<char>, n: nat)
    requires
        a.len() > 0 && !is_white_space(a[0]) && !is_white_space(a.last()),
        b.len() > 0 && !is_white_space(b[0]) && !is_white_space(b.last()),
        forall|i: int| 0 <= i < a.len() ==> #[trigger] a[i] != '\n',
        forall|i: int| 0 <= i < b.len() ==> #[trigger] b[i] != '\n',
    ensures
        n >= 2 ==> replies_seq(a + seq!['\n'] + b, n) == seq![a, b],
        n <= 1 ==> replies_seq(a + seq!['\n'] + b, n) == seq![a],
{
    let raw = a + seq!['\n'] + b;
    assert forall|i: int| 0 <= i < a.len() implies #[trigger] a[i] != seq!['\n'][0] by {}
    assert forall|i: int| 0 <= i < b.len() implies #[trigger] b[i] != seq!['\n'][0] by {}
    lemma_split_two(a, b, seq!['\n']);
    let p = split_seq(raw, seq!['\n']);
    assert(p == seq![a, b]);
    assert(a.last() != '\r');
    assert(strip_cr(a) == a);
    let lines = lines_seq(raw);
    assert(lines =~= seq![a, b]);
    lemma_trim_fixed(a);
    lemma_trim_fixed(b);
    assert(lines.drop_last() =~= seq![a]);
    assert(seq![a].drop_last() =~= Seq::<Seq<char>>::empty());
    assert(seq![a].last() == a);
    assert(non_empty_lines(Seq::<Seq<char>>::empty()) == Seq::<Seq<char>>::empty());
    assert(Seq::<Seq<char>>::empty().push(a) =~= seq![a]);
    assert(non_empty_lines(seq![a]) =~= seq![a]);
    assert(non_empty_lines(lines) =~= seq![a, b]);
    assert(seq![a, b].take(1) =~= seq![a]);
}

/// The reply list, or the error given when it is empty.
pub fn replies_or_error(raw: &str, expected_count: usize) -> (r: Result<Vec<String>, AppError>)
    ensures
        replies_seq(raw@, expected_count as nat).len() > 0 ==> r is Ok && string_views(r->Ok_0@)
            == replies_seq(raw@, expected_count as nat),
        replies_seq(raw@, expected_count as nat).len() == 0 ==> r == Err::<Vec<String>, AppError>(
            AppError::Config(r->Err_0->Config_0),
        ) && r->Err_0->Config_0@ == "LLM 未返回有效回复"@,
{
    let replies = parse_replies(raw, expected_count);
    if replies.len() == 0 {
        Err(AppError::Config("LLM 未返回有效回复".to_owned()))
    } else {
        Ok(replies)
    }
}

/// A prepared request: where to send it and for which model.
#[derive(Debug, Clone)]
pub struct RequestTarget {
    pub url: String,
    pub model: String,
}

/// `endpoint` trimmed, without trailing slashes, followed by `path`.
pub open spec fn endpoint_url(endpoint: Seq<char>, path: Seq<char>) -> Seq<char> {
    trim_trailing_slashes(trim_seq(endpoint)) + path
}

fn join_endpoint(endpoint: &str, path: &str) -> (r: String)
    ensures
        r@ == endpoint_url(endpoint@, path@),
{
    let t = trim_str(endpoint);
    let v = to_chars(t.as_str());
    let mut end = v.len();
    assert(v@.take(v.len() as int) =~= v@);
    while end > 0 && v[end - 1] == '/'
        invariant
            end <= v.len(),
            trim_trailing_slashes(v@.take(end as int)) == trim_trailing_slashes(v@),
        decreases end,
    {
        assert(v@.take(end as int).drop_last() =~= v@.take(end - 1));
        end = end - 1;
    }
    let base = crate::chars::sub_chars(&v, 0, end);
    assert(base@ =~= v@.take(end as int));
    assert(trim_trailing_slashes(base@) == base@);
    let b = from_chars(&base);
    concat(b.as_str(), path)
}

/// The cloud request target: the API key and model must be set (after
/// trimming); the URL is the endpoint followed by `/chat/completions`.
pub fn cloud_target(config: &LlmConfig) -> (r: Result<RequestTarget, AppError>)
    ensures
        trim_seq(config.cloud_api_key@).len() == 0 ==> r is Err && r->Err_0 == AppError::Config(
            r->Err_0->Config_0,
        ) && r->Err_0->Config_0@ == "云端 API 密钥未配置"@,
        trim_seq(config.cloud_api_key@).len() > 0 && trim_seq(config.cloud_model@).len() == 0
            ==> r is Err && r->Err_0 == AppError::Config(r->Err_0->Config_0)
            && r->Err_0->Config_0@ == "云端模型名称未配置"@,
        trim_seq(config.cloud_api_key@).len() > 0 && trim_seq(config.cloud_model@).len() > 0
            ==> r is Ok && r->Ok_0.url@ == endpoint_url(
            config.cloud_endpoint@,
            "/chat/completions"@,
        ) && r->Ok_0.model@ == trim_seq(config.cloud_model@),
{
    let key = trim_str(config.cloud_api_key.as_str());
    if key.as_str().is_empty() {
        return Err(AppError::Config("云端 API 密钥未配置".to_owned()));
    }
    let model = trim_str(config.cloud_model.as_str());
    if model.as_str().is_empty() {
        return Err(AppError::Config("云端模型名称未配置".to_owned()));
    }
    let url = join_endpoint(config.cloud_endpoint.as_str(), "/chat/completions");
    Ok(RequestTarget { url, model })
}

/// The local request target: the model must be set (after trimming); the
/// URL is the endpoint followed by `/api/chat`.
pub fn local_target(config: &LlmConfig) -> (r: Result<RequestTarget, AppError>)
    ensures
        trim_seq(config.local_model@).len() == 0 ==> r is Err && r->Err_0 == AppError::Config(
            r->Err_0->Config_0,
        ) && r->Err_0->Config_0@ == "本地模型名称未配置"@,
        trim_seq(config.local_model@).len() > 0 ==> r is Ok && r->Ok_0.url@ == endpoint_url(
            config.local_endpoint@,
            "/api/chat"@,
        ) && r->Ok_0.model@ == trim_seq(config.local_model@),
{
    let model = trim_str(config.local_model.as_str());
    if model.as_str().is_empty() {
        return Err(AppError::Config("本地模型名称未配置".to_owned()));
    }
    let url = join_endpoint(config.local_endpoint.as_str(), "/api/chat");
    Ok(RequestTarget { url, model })
}

/// The contents of all choices of a cloud answer, one per line.
pub fn combine_choices(contents: &Vec<String>) -> (r: String)
    ensures
        r@ == join_seq(string_views(contents@), seq!['\n']),
{
    let mut parts: Vec<Vec<char>> = Vec::new();
    let mut i: usize = 0;
    while i < contents.len()
        invariant
            i <= contents.len(),
            views(parts@) == string_views(contents@).take(i as int),
        decreases contents.len() - i,
    {
        let ghost before = views(parts@);
        let piece = to_chars(contents[i].as_str());
        assert(piece@ == string_views(contents@)[i as int]);
        parts.push(piece);
        assert(views(parts@) =~= before.push(piece@));
        assert(views(parts@) =~= string_views(contents@).take(i + 1));
        i = i + 1;
    }
    assert(string_views(contents@).take(contents.len() as int) =~= string_views(contents@));
    let mut nl: Vec<char> = Vec::new();
    nl.push('\n');
    assert(nl@ =~= seq!['\n']);
    let joined = join_chars(&parts, nl.as_slice());
    from_chars(&joined)
}

/// The error for a non-success answer of the cloud endpoint; `status` is
/// the status as displayed (code and reason) and `body` the answer text.
pub fn cloud_status_error(status: &str, body: &str) -> (r: AppError)
    ensures
        r == AppError::Config(r->Config_0),
        r->Config_0@ == "云端 LLM 返回错误状态: "@ + status@ + "，响应: "@ + body@,
{
    let mut m = concat3("云端 LLM 返回错误状态: ", status, "，响应: ");
    crate::chars::push_str(&mut m, body);
    AppError::Config(m)
}

/// The error for a non-success answer of the local endpoint.
pub fn local_status_error(status: &str, body: &str) -> (r: AppError)
    ensures
        r == AppError::Config(r->Config_0),
        r->Config_0@ == "本地 Ollama 返回错误状态: "@ + status@ + "，响应: "@ + body@,
{
    let mut m = concat3("本地 Ollama 返回错误状态: ", status, "，响应: ");
    crate::chars::push_str(&mut m, body);
    AppError::Config(m)
}

/// The message of a successful connection test: the first reply as a
/// sample, or `(空)` when there is none.
pub fn connection_message(replies: &Vec<String>) -> (r: String)
    ensures
        replies@.len() > 0 ==> r@ == "连接成功，示例回复："@ + replies@[0]@,
        replies@.len() == 0 ==> r@ == "连接成功，示例回复："@ + "(空)"@,
{
    if replies.len() > 0 {
        concat("连接成功，示例回复：", replies[0].as_str())
    } else {
        concat("连接成功，示例回复：", "(空)")
    }
}

} // verus!
