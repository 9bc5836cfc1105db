//! Protocol details of OpenAI-compatible providers: the endpoint URL, the
//! configuration check, and the framing of server-sent-event streams.
use vstd::prelude::*;

use crate::chars::{
    concat, ends_with_chars, ends_with_seq, from_chars, matches_at, push_str, starts_with_chars,
    starts_with_seq, sub_chars, to_chars, trim_chars, trim_seq,
};
use crate::error::{error_message, AppError};
use crate::llm::types::ConnectionTestResult;

verus! {

/// `s` with every trailing `/` removed (`trim_end_matches('/')`).
pub open spec fn trim_trailing_slashes(s: Seq<char>) -> Seq<char>
    decreases s.len(),
{
    if s.len() > 0 && s.last() == '/' {
        trim_trailing_slashes(s.drop_last())
    } else {
        s
    }
}

/// The chat-completions URL for a base URL: `/v1` is added unless the base
/// URL (without trailing slashes) already ends with it.
pub open spec fn chat_url(base_url: Seq<char>) -> Seq<char> {
    let t = trim_trailing_slashes(base_url);
    if ends_with_seq(t, "/v1"@) {
        t + "/chat/completions"@
    } else {
        t + "/v1/chat/completions"@
    }
}

/// Builds the chat-completions URL from a base URL, with or without `/v1`
/// and trailing slashes.
pub fn build_chat_url(base_url: &str) -> (r: String)
    ensures
        r@ == chat_url(base_url@),
{
    let v = to_chars(base_url);
    let mut end = v.len();
    assert(v@.take(v.len() as int) =~= v@);
    while end > 0 && v[end - 1] == '/'
        invariant
            end <= v.len(),
            trim_trailing_slashes(v@.take(end as int)) == trim_trailing_slashes(v@),
        decreases end,
    {
        assert(v@.take(end as int).drop_last() =~= v@.take(end - 1));
        end = end - 1;
    }
    assert(v@.take(v.len() as int) =~= v@);
    let t = sub_chars(&v, 0, end);
    assert(t@ =~= v@.take(end as int));
    assert(trim_trailing_slashes(t@) == t@);
    let trimmed = from_chars(&t);
    let suffix = to_chars("/v1");
    if ends_with_chars(&t, &suffix) {
        concat(trimmed.as_str(), "/chat/completions")
    } else {
        concat(trimmed.as_str(), "/v1/chat/completions")
    }
}

/// A provider needs a base URL and a model.
pub fn validate_config(base_url: &str, model: &str) -> (r: Result<(), AppError>)
    ensures
        r is Ok <==> (base_url@.len() > 0 && model@.len() > 0),
        r is Err ==> r == Err::<(), AppError>(AppError::Llm(r->Err_0->Llm_0)) && r->Err_0->Llm_0@
            == "LLM 配置不完整：base_url 或 model 为空"@,
{
    if base_url.is_empty() || model.is_empty() {
        return Err(AppError::Llm("LLM 配置不完整：base_url 或 model 为空".to_owned()));
    }
    Ok(())
}

/// The connection test's answer for a settled request: success, or the
/// failure's message, with the time it took.
pub fn connection_result(outcome: Result<(), AppError>, latency_ms: u64) -> (r: ConnectionTestResult)
    ensures
        r.ok == outcome is Ok,
        r.latency_ms == latency_ms,
        outcome is Ok ==> r.message@ == "连接成功"@,
        outcome matches Err(e) ==> r.message@ == error_message(e),
{
    match outcome {
        Ok(()) => ConnectionTestResult { ok: true, latency_ms, message: "连接成功".to_owned() },
        Err(e) => ConnectionTestResult { ok: false, latency_ms, message: e.message() },
    }
}

/// The connection test refused before any request: `Some` failed result
/// when the base URL, the key or the model is empty, else `None` (go on).
pub fn connection_precheck(base_url: &str, api_key: &str, model: &str) -> (r: Option<ConnectionTestResult>)
    ensures
        r is Some <==> (base_url@.len() == 0 || api_key@.len() == 0 || model@.len() == 0),
        r matches Some(t) ==> !t.ok && t.latency_ms == 0 && t.message@ == "请先配置接口地址、密钥和模型名称"@,
{
    if base_url.is_empty() || api_key.is_empty() || model.is_empty() {
        Some(ConnectionTestResult { ok: false, latency_ms: 0, message: "请先配置接口地址、密钥和模型名称".to_owned() })
    } else {
        None
    }
}

/// What one line of an event stream carries.
#[derive(Debug)]
pub enum SseLine {
    /// A blank line, a comment or another non-data field.
    Skip,
    /// The `data: [DONE]` end marker.
    Done,
    /// The payload of a `data:` line, trimmed.
    Data(String),
}

/// The classification of a stream line.
pub open spec fn sse_line_spec(line: Seq<char>) -> (bool, bool, Seq<char>) {
    let t = trim_seq(line);
    if t.len() == 0 || !starts_with_seq(t, "data:"@) {
        (false, false, Seq::empty())
    } else {
        let data = trim_seq(t.skip(5));
        if data == "[DONE]"@ {
            (true, false, Seq::empty())
        } else {
            (false, true, data)
        }
    }
}

/// Classifies one event-stream line: blank and non-`data:` lines are
/// skipped, `data: [DONE]` ends the stream, other `data:` lines carry their
/// trimmed payload.
pub fn classify_sse_line(line: &str) -> (r: SseLine)
    ensures
        (r is Done) == sse_line_spec(line@).0,
        (r is Data) == sse_line_spec(line@).1,
        r matches SseLine::Data(d) ==> d@ == sse_line_spec(line@).2,
{
    let v = to_chars(line);
    let t = trim_chars(&v);
    let prefix = to_chars("data:");
    proof {
        reveal_strlit("data:");
    }
    if t.len() == 0 || !starts_with_chars(&t, &prefix) {
        return SseLine::Skip;
    }
    assert(t@.len() >= 5) by {
        assert(matches_at(t@, prefix@, 0));
    }
    let rest = sub_chars(&t, 5, t.len());
    assert(rest@ =~= t@.skip(5));
    let data = trim_chars(&rest);
    let done = to_chars("[DONE]");
    if crate::chars::chars_eq(&data, &done) {
        SseLine::Done
    } else {
        SseLine::Data(from_chars(&data))
    }
}

/// The non-empty contents, in order.
pub open spec fn non_empty_contents(contents: Seq<Seq<char>>) -> Seq<Seq<char>>
    decreases contents.len(),
{
    if contents.len() == 0 {
        Seq::empty()
    } else if contents.last().len() == 0 {
        non_empty_contents(contents.drop_last())
    } else {
        non_empty_contents(contents.drop_last()).push(contents.last())
    }
}

/// The deltas of one stream chunk: the delta contents of its choices, empty
/// ones dropped.
pub fn collect_deltas(contents: Vec<String>) -> (r: Vec<String>)
    ensures
        crate::chars::string_views(r@) == non_empty_contents(crate::chars::string_views(
            contents@,
        )),
{
    let ghost cv = crate::chars::string_views(contents@);
    let mut out: Vec<String> = Vec::new();
    let mut i: usize = 0;
    while i < contents.len()
        invariant
            i <= contents.len(),
            cv == crate::chars::string_views(contents@),
            crate::chars::string_views(out@) == non_empty_contents(cv.take(i as int)),
        decreases contents.len() - i,
    {
        assert(cv.take(i + 1).drop_last() =~= cv.take(i as int));
        assert(cv[i as int] == contents@[i as int]@);
        if !contents[i].as_str().is_empty() {
            let ghost before = crate::chars::string_views(out@);
            out.push(contents[i].clone());
            assert(crate::chars::string_views(out@) =~= before.push(cv[i as int]));
        }
        i = i + 1;
    }
    assert(cv.take(contents.len() as int) =~= cv);
    out
}

/// All parts, one after the other.
pub open spec fn concat_all(parts: Seq<Seq<char>>) -> Seq<char>
    decreases parts.len(),
{
    if parts.len() == 0 {
        Seq::empty()
    } else {
        concat_all(parts.drop_last()) + parts.last()
    }
}

/// The text of a streamed answer read so far, and whether the end marker
/// has arrived (after which nothing more is read).
#[derive(Debug)]
pub struct StreamAccumulator {
    pub full: String,
    pub done: bool,
}

impl StreamAccumulator {
    /// Nothing read yet.
    pub fn new() -> (r: StreamAccumulator)
        ensures
            r.full@.len() == 0,
            !r.done,
    {
        StreamAccumulator { full: String::new(), done: false }
    }

    /// Takes in one parsed line of the stream: `None` for the end marker,
    /// else the line's deltas.  Returns the deltas to hand on, in order; they
    /// are appended to the text.  After the end marker every line is
    /// ignored.
    pub fn on_line(&mut self, parsed: Option<Vec<String>>) -> (r: Vec<String>)
        ensures
            old(self).done ==> final(self).full@ == old(self).full@ && final(self).done
                && r@.len() == 0,
            !old(self).done && parsed is None ==> final(self).done && final(self).full@ == old(
                self,
            ).full@ && r@.len() == 0,
            !old(self).done && parsed is Some ==> !final(self).done && r@ == parsed->0@
                && final(self).full@ == old(self).full@ + concat_all(
                crate::chars::string_views(r@),
            ),
    {
        if self.done {
            return Vec::new();
        }
        match parsed {
            None => {
                self.done = true;
                Vec::new()
            },
            Some(deltas) => {
                let ghost start = self.full@;
                let mut i: usize = 0;
                while i < deltas.len()
                    invariant
                        i <= deltas.len(),
                        !self.done,
                        self.full@ == start + concat_all(
                            crate::chars::string_views(deltas@).take(i as int),
                        ),
                    decreases deltas.len() - i,
                {
                    let ghost sv = crate::chars::string_views(deltas@);
                    assert(sv.take(i + 1).drop_last() =~= sv.take(i as int));
                    assert(sv.take(i + 1).last() == deltas@[i as int]@);
                    push_str(&mut self.full, deltas[i].as_str());
                    i = i + 1;
                }
                assert(crate::chars::string_views(deltas@).take(deltas.len() as int)
                    =~= crate::chars::string_views(deltas@));
                deltas
            },
        }
    }
}

/// The position of the first newline byte at or after `from`, if any.
pub open spec fn first_newline(bytes: Seq<u8>, from: int) -> Option<int>
    decreases bytes.len() - from,
{
    if from < 0 || from >= bytes.len() {
        None
    } else if bytes[from] == 10u8 {
        Some(from)
    } else {
        first_newline(bytes, from + 1)
    }
}

/// Removes the first complete line (up to and including its `\n`) from the
/// front of the stream buffer and returns it; `None`, with the buffer
/// unchanged, when no complete line has arrived yet.
pub fn take_line(buffer: &mut Vec<u8>) -> (r: Option<Vec<u8>>)
    ensures
        r is None <==> first_newline(old(buffer)@, 0) is None,
        r is None ==> final(buffer)@ == old(buffer)@,
        r matches Some(line) ==> {
            let pos = first_newline(old(buffer)@, 0)->0;
            &&& line@ == old(buffer)@.take(pos + 1)
            &&& final(buffer)@ == old(buffer)@.skip(pos + 1)
        },
{
    let mut pos: usize = 0;
    while pos < buffer.len() && buffer[pos] != 10u8
        invariant
            pos <= buffer.len(),
            first_newline(buffer@, 0) == first_newline(buffer@, pos as int),
        decreases buffer.len() - pos,
    {
        pos = pos + 1;
    }
    if pos == buffer.len() {
        return None;
    }
    let mut line: Vec<u8> = Vec::new();
    let mut rest: Vec<u8> = Vec::new();
    let mut i: usize = 0;
    while i < buffer.len()
        invariant
            pos < buffer.len(),
            i <= buffer.len(),
            i <= pos + 1 ==> line@ == buffer@.take(i as int) && rest@.len() == 0,
            i > pos + 1 ==> line@ == buffer@.take(pos + 1) && rest@ == buffer@.subrange(
                pos + 1,
                i as int,
            ),
        decreases buffer.len() - i,
    {
        if i <= pos {
            line.push(buffer[i]);
            assert(buffer@.take(i + 1) =~= buffer@.take(i as int).push(buffer@[i as int]));
        } else {
            rest.push(buffer[i]);
            assert(buffer@.subrange(pos + 1, i + 1) =~= buffer@.subrange(pos + 1, i as int).push(
                buffer@[i as int],
            ));
        }
        i = i + 1;
    }
    assert(rest@ =~= buffer@.skip(pos + 1));
    *buffer = rest;
    Some(line)
}

} // verus!
