//! The capture-and-reply flow of the direct client: capture the selection
//! of a chat window, ask the model for replies, record them, and type the
//! reply the user adopts into the window it came from.
//!
//! Each request is identified by an id; the window it was captured from is
//! kept under that id until its reply is typed.
use vstd::prelude::*;

use crate::chars::{chars_eq, concat, decimal_seq, signed_decimal_seq, string_views, to_chars, trim_seq, trim_str};
use crate::cleaner::{clean_text, cleaned_text};
use crate::error::AppError;
use crate::input::TypingStatus;
use crate::llm::chat::LlmConfig;

verus! {

pub const EVENT_CAPTURE_TRIGGERED: &'static str = "capture.triggered";
pub const EVENT_LLM_GENERATING: &'static str = "llm.generating";
pub const EVENT_LLM_DONE: &'static str = "llm.done";
pub const EVENT_TYPING_STARTED: &'static str = "typing.started";
pub const EVENT_TYPING_DONE: &'static str = "typing.done";
pub const EVENT_TYPING_INTERRUPTED: &'static str = "typing.interrupted";
pub const EVENT_ERROR: &'static str = "error";

/// Sent when a capture starts.
#[derive(Debug, Clone)]
pub struct CaptureTriggeredPayload {
    pub request_id: String,
    pub window_title: String,
}

/// Sent when the replies are ready.
#[derive(Debug, Clone)]
pub struct LlmDonePayload {
    pub request_id: String,
    pub captured_text: String,
    pub candidates: Vec<String>,
    pub window_title: String,
}

/// A generated reply as stored in the history.
#[derive(Debug, Clone)]
pub struct HistoryRecord {
    pub id: Option<i64>,
    pub captured_text: String,
    pub reply_text: String,
    pub adopted: bool,
    pub llm_mode: String,
    pub created_at: String,
}

/// The id of a request started at `millis` (milliseconds since the epoch).
pub fn request_id(millis: i64) -> (r: String)
    ensures
        r@ == "req_"@ + signed_decimal_seq(millis as int),
{
    let n = crate::chars::i64_to_string(millis);
    concat("req_", n.as_str())
}

/// The windows the requests were captured from, by request id.
#[derive(Debug)]
pub struct CaptureWindows {
    entries: Vec<(String, isize)>,
}

/// The map of a list of id/window entries.
pub open spec fn entries_map(e: Seq<(String, isize)>) -> Map<Seq<char>, isize> {
    Map::new(
        |k: Seq<char>| exists|i: int| 0 <= i < e.len() && e[i].0@ == k,
        |k: Seq<char>| e[choose|i: int| 0 <= i < e.len() && e[i].0@ == k].1,
    )
}

/// No id occurs twice in the entries.
pub open spec fn distinct_ids(e: Seq<(String, isize)>) -> bool {
    forall|i: int, j: int| 0 <= i < j < e.len() ==> e[i].0@ != e[j].0@
}

proof fn lemma_entry_lookup(e: Seq<(String, isize)>, i: int)
    requires
        distinct_ids(e),
        0 <= i < e.len(),
    ensures
        entries_map(e).contains_key(e[i].0@),
        entries_map(e)[e[i].0@] == e[i].1,
{
    let k = e[i].0@;
    assert(entries_map(e).dom().contains(k));
    let j = choose|j: int| 0 <= j < e.len() && e[j].0@ == k;
    if j != i {
        if i < j {
        } else {
        }
    }
}

proof fn lemma_entries_agree(e0: Seq<(String, isize)>, e1: Seq<(String, isize)>, m: Map<Seq<char>, isize>)
    requires
        distinct_ids(e1),
        forall|k: Seq<char>|
            #[trigger] m.contains_key(k) <==> exists|i: int| 0 <= i < e1.len() && e1[i].0@ == k,
        forall|i: int| 0 <= i < e1.len() ==> m.contains_key(#[trigger] e1[i].0@) && m[e1[i].0@]
            == e1[i].1,
    ensures
        entries_map(e1) == m,
{
    assert forall|k: Seq<char>| #[trigger] entries_map(e1).contains_key(k) implies entries_map(e1)[k]
        == m[k] by {
        let j = choose|j: int| 0 <= j < e1.len() && e1[j].0@ == k;
        lemma_entry_lookup(e1, j);
    }
    assert(entries_map(e1) =~= m);
}

impl CaptureWindows {
    /// The ids and windows, as a map.
    pub closed spec fn view_map(&self) -> Map<Seq<char>, isize> {
        entries_map(self.entries@)
    }

    /// No id occurs twice.
    #[verifier::type_invariant]
    spec fn well_formed(&self) -> bool {
        distinct_ids(self.entries@)
    }

    proof fn lemma_lookup(&self, i: int)
        requires
            distinct_ids(self.entries@),
            0 <= i < self.entries@.len(),
        ensures
            self.view_map().contains_key(self.entries@[i].0@),
            self.view_map()[self.entries@[i].0@] == self.entries@[i].1,
    {
        lemma_entry_lookup(self.entries@, i);
    }

    /// An empty registry.
    pub fn new() -> (r: CaptureWindows)
        ensures
            r.view_map() == Map::<Seq<char>, isize>::empty(),
    {
        let r = CaptureWindows { entries: Vec::new() };
        assert(r.view_map() =~= Map::<Seq<char>, isize>::empty());
        r
    }

    fn position(&self, id: &str) -> (r: Option<usize>)
        ensures
            r matches Some(i) ==> i < self.entries@.len() && self.entries@[i as int].0@ == id@,
            r is None ==> forall|i: int| 0 <= i < self.entries@.len() ==> self.entries@[i].0@ != id@,
    {
        let key = to_chars(id);
        let mut i: usize = 0;
        while i < self.entries.len()
            invariant
                i <= self.entries@.len(),
                key@ == id@,
                forall|k: int| 0 <= k < i ==> self.entries@[k].0@ != id@,
            decreases self.entries.len() - i,
        {
            let c = to_chars(self.entries[i].0.as_str());
            if chars_eq(&c, &key) {
                return Some(i);
            }
            i = i + 1;
        }
        None
    }

    /// The window of a request.
    pub fn get(&self, id: &str) -> (r: Option<isize>)
        ensures
            r == (if self.view_map().contains_key(id@) {
                Some(self.view_map()[id@])
            } else {
                None::<isize>
            }),
    {
        proof {
            use_type_invariant(self);
        }
        match self.position(id) {
            Some(i) => {
                proof {
                    self.lemma_lookup(i as int);
                }
                Some(self.entries[i].1)
            },
            None => {
                assert(!self.view_map().contains_key(id@));
                None
            },
        }
    }

    /// Records the window of a request (replacing an earlier one).
    pub fn insert(&mut self, id: String, hwnd: isize)
        ensures
            final(self).view_map() == old(self).view_map().insert(id@, hwnd),
    {
        proof {
            use_type_invariant(&*self);
        }
        let ghost m0 = self.view_map();
        match self.position(id.as_str()) {
            Some(i) => {
                let ghost e0 = self.entries@;
                let mut e: Vec<(String, isize)> = Vec::new();
                std::mem::swap(&mut e, &mut self.entries);
                e.set(i, (id, hwnd));
                proof {
                    assert forall|a: int, b: int|
                        0 <= a < b < e@.len() implies e@[a].0@
                        != e@[b].0@ by {
                        if a != i && b != i {
                            assert(e@[a] == e0[a]);
                            assert(e@[b] == e0[b]);
                        } else if a == i {
                            assert(e@[b] == e0[b]);
                        } else {
                            assert(e@[a] == e0[a]);
                        }
                    }
                    let e1 = e@;
                    let m1 = m0.insert(id@, hwnd);
                    assert forall|k: Seq<char>| #[trigger] m1.contains_key(k) <==> exists|j: int|
                        0 <= j < e1.len() && e1[j].0@ == k by {
                        if m0.contains_key(k) {
                            let j = choose|j: int| 0 <= j < e0.len() && e0[j].0@ == k;
                            if j != i {
                                assert(e1[j] == e0[j]);
                            } else {
                                assert(e1[j].0@ == id@);
                            }
                        }
                        if k == id@ {
                            assert(e1[i as int].0@ == k);
                        }
                        if exists|j: int| 0 <= j < e1.len() && e1[j].0@ == k {
                            let j = choose|j: int| 0 <= j < e1.len() && e1[j].0@ == k;
                            if j != i {
                                assert(e0[j] == e1[j]);
                            }
                        }
                    }
                    assert forall|j: int| 0 <= j < e1.len() implies m1.contains_key(#[trigger] e1[j].0@)
                        && m1[e1[j].0@] == e1[j].1 by {
                        if j != i {
                            assert(e1[j] == e0[j]);
                            lemma_entry_lookup(e0, j);
                            assert(e0[j].0@ != e0[i as int].0@);
                        }
                    }
                    lemma_entries_agree(e0, e1, m1);
                }
                self.entries = e;
            },
            None => {
                let ghost e0 = self.entries@;
                let mut e: Vec<(String, isize)> = Vec::new();
                std::mem::swap(&mut e, &mut self.entries);
                e.push((id, hwnd));
                proof {
                    assert forall|a: int, b: int|
                        0 <= a < b < e@.len() implies e@[a].0@
                        != e@[b].0@ by {
                        assert(e@[a] == e0[a]);
                        if b < e0.len() {
                            assert(e@[b] == e0[b]);
                        }
                    }
                    let e1 = e@;
                    let m1 = m0.insert(id@, hwnd);
                    assert forall|k: Seq<char>| #[trigger] m1.contains_key(k) <==> exists|i: int|
                        0 <= i < e1.len() && e1[i].0@ == k by {
                        if m0.contains_key(k) {
                            let j = choose|j: int| 0 <= j < e0.len() && e0[j].0@ == k;
                            assert(e1[j] == e0[j]);
                        }
                        if k == id@ {
                            assert(e1[e0.len() as int].0@ == k);
                        }
                        if exists|i: int| 0 <= i < e1.len() && e1[i].0@ == k {
                            let j = choose|j: int| 0 <= j < e1.len() && e1[j].0@ == k;
                            if j < e0.len() {
                                assert(e0[j] == e1[j]);
                            }
                        }
                    }
                    assert forall|i: int| 0 <= i < e1.len() implies m1.contains_key(#[trigger] e1[i].0@)
                        && m1[e1[i].0@] == e1[i].1 by {
                        if i < e0.len() {
                            assert(e1[i] == e0[i]);
                            lemma_entry_lookup(e0, i);
                        }
                    }
                    lemma_entries_agree(e0, e1, m1);
                }
                self.entries = e;
            },
        }
    }

    /// Forgets the window of a request.
    pub fn remove(&mut self, id: &str)
        ensures
            final(self).view_map() == old(self).view_map().remove(id@),
    {
        proof {
            use_type_invariant(&*self);
        }
        let ghost m0 = self.view_map();
        match self.position(id) {
            Some(i) => {
                let ghost e0 = self.entries@;
                let mut e: Vec<(String, isize)> = Vec::new();
                std::mem::swap(&mut e, &mut self.entries);
                e.remove(i);
                proof {
                    assert(e@ =~= e0.remove(i as int));
                    assert forall|a: int, b: int|
                        0 <= a < b < e@.len() implies e@[a].0@
                        != e@[b].0@ by {
                        let a0 = if a < i { a } else { a + 1 };
                        let b0 = if b < i { b } else { b + 1 };
                        assert(e@[a] == e0[a0]);
                        assert(e@[b] == e0[b0]);
                    }
                    let e1 = e@;
                    let m1 = m0.remove(id@);
                    assert forall|k: Seq<char>| #[trigger] m1.contains_key(k) <==> exists|j: int|
                        0 <= j < e1.len() && e1[j].0@ == k by {
                        if m1.contains_key(k) {
                            let j = choose|j: int| 0 <= j < e0.len() && e0[j].0@ == k;
                            assert(j != i);
                            let j1 = if j < i { j } else { j - 1 };
                            assert(e1[j1] == e0[j]);
                        }
                        if exists|j: int| 0 <= j < e1.len() && e1[j].0@ == k {
                            let j = choose|j: int| 0 <= j < e1.len() && e1[j].0@ == k;
                            let j0 = if j < i { j } else { j + 1 };
                            assert(e1[j] == e0[j0]);
                            assert(e0[j0].0@ != e0[i as int].0@);
                        }
                    }
                    assert forall|j: int| 0 <= j < e1.len() implies m1.contains_key(#[trigger] e1[j].0@)
                        && m1[e1[j].0@] == e1[j].1 by {
                        let j0 = if j < i { j } else { j + 1 };
                        assert(e1[j] == e0[j0]);
                        lemma_entry_lookup(e0, j0);
                        assert(e0[j0].0@ != e0[i as int].0@);
                    }
                    lemma_entries_agree(e0, e1, m1);
                }
                self.entries = e;
            },
            None => {
                assert(!m0.contains_key(id@));
                assert(self.view_map() =~= m0.remove(id@));
            },
        }
    }
}

/// The message of a failed configuration check for `mode` (taken as given,
/// not trimmed), or `None` when the configuration of that mode is usable.
pub open spec fn llm_config_error(mode: Seq<char>, config: LlmConfig) -> Option<Seq<char>> {
    if mode == "cloud"@ {
        if trim_seq(config.cloud_api_key@).len() == 0 {
            Some("云端 API 密钥未配置，请在设置页面填写 LLM API 密钥"@)
        } else if trim_seq(config.cloud_endpoint@).len() == 0 {
            Some("云端 API 端点未配置"@)
        } else {
            None
        }
    } else if mode == "local"@ {
        if trim_seq(config.local_endpoint@).len() == 0 {
            Some("本地 Ollama 端点未配置"@)
        } else {
            None
        }
    } else {
        Some("不支持的 LLM 模式: "@ + mode + "，请使用 cloud 或 local"@)
    }
}

/// Checks that the configuration of the chosen mode is usable: the cloud
/// mode needs an API key and an endpoint, the local mode an endpoint.
pub fn validate_llm_config(mode: &str, config: &LlmConfig) -> (r: Result<(), AppError>)
    ensures
        r is Ok <==> llm_config_error(mode@, *config) is None,
        r is Err ==> r->Err_0 == AppError::Config(r->Err_0->Config_0) && Some(r->Err_0->Config_0@)
            == llm_config_error(mode@, *config),
{
    let m = to_chars(mode);
    if chars_eq(&m, &to_chars("cloud")) {
        if trim_str(config.cloud_api_key.as_str()).as_str().is_empty() {
            return Err(AppError::Config("云端 API 密钥未配置，请在设置页面填写 LLM API 密钥".to_owned()));
        }
        if trim_str(config.cloud_endpoint.as_str()).as_str().is_empty() {
            return Err(AppError::Config("云端 API 端点未配置".to_owned()));
        }
        Ok(())
    } else if chars_eq(&m, &to_chars("local")) {
        if trim_str(config.local_endpoint.as_str()).as_str().is_empty() {
            return Err(AppError::Config("本地 Ollama 端点未配置".to_owned()));
        }
        Ok(())
    } else {
        Err(AppError::Config(crate::chars::concat3("不支持的 LLM 模式: ", mode, "，请使用 cloud 或 local")))
    }
}

/// The captured text, cleaned; an error when nothing is left.
pub fn captured_text(raw: &str) -> (r: Result<String, AppError>)
    ensures
        trim_seq(cleaned_text(raw@)).len() > 0 ==> (r matches Ok(t) && t@ == cleaned_text(raw@)),
        trim_seq(cleaned_text(raw@)).len() == 0 ==> r is Err && r->Err_0 == AppError::Config(
            r->Err_0->Config_0,
        ) && r->Err_0->Config_0@ == "未捕获到选中文本"@,
{
    let cleaned = clean_text(raw);
    if !crate::cleaner::is_valid_text(cleaned.as_str()) {
        return Err(AppError::Config("未捕获到选中文本".to_owned()));
    }
    Ok(cleaned)
}

/// The history records of the replies to one capture, not yet adopted.
pub fn history_records(captured: &str, candidates: &Vec<String>, llm_mode: &str, now: &str) -> (r: Vec<HistoryRecord>)
    ensures
        r@.len() == candidates@.len(),
        forall|i: int|
            0 <= i < r@.len() ==> {
                &&& (#[trigger] r@[i]).id is None
                &&& r@[i].captured_text@ == captured@
                &&& r@[i].reply_text@ == candidates@[i]@
                &&& !r@[i].adopted
                &&& r@[i].llm_mode@ == llm_mode@
                &&& r@[i].created_at@ == now@
            },
{
    let mut out: Vec<HistoryRecord> = Vec::new();
    let mut i: usize = 0;
    while i < candidates.len()
        invariant
            i <= candidates.len(),
            out@.len() == i,
            forall|k: int|
                0 <= k < i ==> {
                    &&& (#[trigger] out@[k]).id is None
                    &&& out@[k].captured_text@ == captured@
                    &&& out@[k].reply_text@ == candidates@[k]@
                    &&& !out@[k].adopted
                    &&& out@[k].llm_mode@ == llm_mode@
                    &&& out@[k].created_at@ == now@
                },
        decreases candidates.len() - i,
    {
        out.push(
            HistoryRecord {
                id: None,
                captured_text: captured.to_owned(),
                reply_text: crate::chars::from_chars(&to_chars(candidates[i].as_str())),
                adopted: false,
                llm_mode: llm_mode.to_owned(),
                created_at: now.to_owned(),
            },
        );
        i = i + 1;
    }
    out
}

/// The record to mark as adopted: the first stored, not yet adopted record
/// with this reply.
pub open spec fn adoptable(records: Seq<HistoryRecord>, reply: Seq<char>, i: int) -> bool {
    records[i].id is Some && records[i].reply_text@ == reply && !records[i].adopted
}

/// Finds the id of the record to mark as adopted, if any.
pub fn find_adoptable(records: &Vec<HistoryRecord>, reply: &str) -> (r: Option<i64>)
    ensures
        r matches Some(id) ==> exists|i: int|
            0 <= i < records@.len() && adoptable(records@, reply@, i) && records@[i].id == Some(id)
                && forall|k: int| 0 <= k < i ==> !adoptable(records@, reply@, k),
        r is None ==> forall|k: int| 0 <= k < records@.len() ==> !adoptable(records@, reply@, k),
{
    let target = to_chars(reply);
    let mut i: usize = 0;
    while i < records.len()
        invariant
            i <= records.len(),
            target@ == reply@,
            forall|k: int| 0 <= k < i ==> !adoptable(records@, reply@, k),
        decreases records.len() - i,
    {
        let rec = &records[i];
        if let Some(id) = rec.id {
            if !rec.adopted && chars_eq(&to_chars(rec.reply_text.as_str()), &target) {
                assert(adoptable(records@, reply@, i as int));
                return Some(id);
            }
        }
        i = i + 1;
    }
    None
}

/// The event after typing, and whether the reply counts as adopted.
pub fn typing_event(status: TypingStatus) -> (r: (&'static str, bool))
    ensures
        status == TypingStatus::Completed ==> r.0@ == EVENT_TYPING_DONE@ && r.1,
        status == TypingStatus::Interrupted ==> r.0@ == EVENT_TYPING_INTERRUPTED@ && !r.1,
{
    match status {
        TypingStatus::Completed => (EVENT_TYPING_DONE, true),
        TypingStatus::Interrupted => (EVENT_TYPING_INTERRUPTED, false),
    }
}

/// The limit and offset of history page `page` of `page_size` rows.
pub fn history_page(page: u32, page_size: u32) -> (r: (i64, i64))
    requires
        page * page_size <= u32::MAX,
    ensures
        r == (page_size as i64, (page * page_size) as i64),
{
    let offset: u32 = page * page_size;
    (page_size as i64, offset as i64)
}

/// Reading a request's window back gives what `insert` recorded for it;
/// after `remove` it is unknown; other requests are unaffected by either.
pub proof fn lemma_windows_read_after_write(
    before: CaptureWindows,
    inserted: CaptureWindows,
    removed: CaptureWindows,
    id: Seq<char>,
    other: Seq<char>,
    hwnd: isize,
)
    requires
        inserted.view_map() == before.view_map().insert(id, hwnd),
        removed.view_map() == before.view_map().remove(id),
        other != id,
    ensures
        inserted.view_map().contains_key(id) && inserted.view_map()[id] == hwnd,
        !removed.view_map().contains_key(id),
        inserted.view_map().contains_key(other) == before.view_map().contains_key(other),
        removed.view_map().contains_key(other) == before.view_map().contains_key(other),
        before.view_map().contains_key(other) ==> inserted.view_map()[other] == before.view_map()[other]
            && removed.view_map()[other] == before.view_map()[other],
{
}

} // verus!
