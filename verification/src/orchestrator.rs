//! The decisions of the main pipeline: hotkey → show the floating window →
//! generate candidates → type the chosen one, with cancel and regenerate.
//!
//! `Session` is the state these steps share.  The task lock is taken when a
//! trigger starts and is released on every path that ends the session: an
//! empty text, a failed or empty generation, a cancel outside typing, and
//! the end of typing.  While the candidates are shown the lock stays held.
use vstd::prelude::*;

use crate::chars::{from_chars, string_views, to_chars};
use crate::error::{error_message, AppError};
use crate::state::{is_stuck, GuardedLock};
use crate::text::clean::{clean, clean_seq};
use crate::text::filter::{apply_blacklist, masked};

verus! {

/// Longest text (in characters) sent to the model.
pub const MAX_REQUEST_CHARS: usize = 5000;

/// The template used when none is configured.
pub const DEFAULT_TEMPLATE: &'static str = "回复：{{origin}}";

/// The text of the current session and the flags the typing loop watches.
#[derive(Debug)]
pub struct Session {
    pub lock: GuardedLock,
    pub interrupt: bool,
    pub typing: bool,
    pub last_filtered_text: Option<String>,
}

/// What the floating window is told after a generation.
#[derive(Debug)]
pub enum TriggerOutcome {
    /// Show these candidates for this (masked) origin text.
    Ready { origin: String, candidates: Vec<String> },
    /// Show this error message.
    ShowError(String),
    /// Hide the window: nothing to show.
    Hide,
}

/// What follows the end of typing.
#[derive(Debug)]
pub enum TypingOutcome {
    /// Typing completed: record the history entry for this origin text.
    Record { origin: String },
    /// The user interrupted typing: nothing to record, no error.
    Stopped,
    /// Typing failed with this error.
    Failed(AppError),
}

/// A trigger at `now_ms` may start a session.
pub open spec fn trigger_allowed(s: Session, now_ms: u64) -> bool {
    !s.lock.lock.held || is_stuck(s.lock.acquired_at, now_ms)
}

/// The text sent to the model for a captured text, or `None` when the
/// cleaned text is empty: cleaned, masked, and cut to 5000 characters.
pub open spec fn request_text(raw: Seq<char>, patterns: Seq<Seq<char>>) -> Option<Seq<char>> {
    let cleaned = clean_seq(raw);
    if cleaned.len() == 0 {
        None
    } else {
        let m = masked(cleaned, patterns);
        Some(
            if m.len() > MAX_REQUEST_CHARS {
                m.take(MAX_REQUEST_CHARS as int)
            } else {
                m
            },
        )
    }
}

/// Prepares the text of a trigger: cleaned; `None` (ignore the trigger)
/// when nothing is left; else masked with the blacklist and cut to
/// `MAX_REQUEST_CHARS` characters.
pub fn prepare_text(raw: &str, patterns: &Vec<String>) -> (r: Option<String>)
    ensures
        r is None <==> request_text(raw@, string_views(patterns@)) is None,
        r matches Some(t) ==> request_text(raw@, string_views(patterns@)) == Some(t@),
{
    let cleaned = clean(raw);
    if cleaned.as_str().is_empty() {
        return None;
    }
    let filtered = apply_blacklist(cleaned.as_str(), patterns);
    let v = to_chars(filtered.as_str());
    if v.len() > MAX_REQUEST_CHARS {
        let cut = from_chars(&v.as_slice()[0..MAX_REQUEST_CHARS]);
        assert(v@.subrange(0, MAX_REQUEST_CHARS as int) =~= v@.take(MAX_REQUEST_CHARS as int));
        Some(cut)
    } else {
        Some(filtered)
    }
}

/// The template to render: the configured one, else the default.
pub fn template_or_default(cached: Option<String>) -> (r: String)
    ensures
        cached matches Some(t) ==> r@ == t@,
        cached is None ==> r@ == DEFAULT_TEMPLATE@,
{
    match cached {
        Some(t) => t,
        None => DEFAULT_TEMPLATE.to_owned(),
    }
}

/// What a regeneration shows: the candidates, or an error (`无候选` when the
/// model gave none).  The session keeps its lock either way.
pub fn regenerate_outcome(origin: String, result: Result<Vec<String>, AppError>) -> (r:
    TriggerOutcome)
    ensures
        result matches Ok(c) ==> (c@.len() > 0 ==> (r matches TriggerOutcome::Ready {
            origin: o,
            candidates: k,
        } && o@ == origin@ && k@ == c@)),
        result matches Ok(c) ==> (c@.len() == 0 ==> (r matches TriggerOutcome::ShowError(m) && m@
            == "无候选"@)),
        result matches Err(e) ==> (r matches TriggerOutcome::ShowError(m) && m@ == error_message(
            e,
        )),
{
    match result {
        Ok(candidates) => {
            if candidates.len() > 0 {
                TriggerOutcome::Ready { origin, candidates }
            } else {
                TriggerOutcome::ShowError("无候选".to_owned())
            }
        },
        Err(e) => TriggerOutcome::ShowError(e.message()),
    }
}

impl Session {
    /// A fresh session state: lock free, no text, flags clear.
    pub fn new() -> (r: Session)
        ensures
            !r.lock.lock.held,
            r.lock.acquired_at is None,
            !r.interrupt,
            !r.typing,
            r.last_filtered_text is None,
    {
        Session {
            lock: GuardedLock::new(),
            interrupt: false,
            typing: false,
            last_filtered_text: None,
        }
    }

    /// Starts a trigger at `now_ms`: takes the lock (the watchdog frees a
    /// stuck one) and clears the interrupt and typing flags.  `false` when
    /// another session runs; the state is then unchanged.
    pub fn begin_trigger(&mut self, now_ms: u64) -> (r: bool)
        ensures
            r == trigger_allowed(*old(self), now_ms),
            r ==> final(self).lock.lock.held && final(self).lock.acquired_at == Some(now_ms)
                && !final(self).interrupt && !final(self).typing
                && final(self).last_filtered_text == old(self).last_filtered_text,
            !r ==> final(self).lock == old(self).lock && final(self).interrupt == old(
                self,
            ).interrupt && final(self).typing == old(self).typing
                && final(self).last_filtered_text == old(self).last_filtered_text,
    {
        if !self.lock.acquire_with_watchdog(now_ms) {
            return false;
        }
        self.interrupt = false;
        self.typing = false;
        true
    }

    /// Ends the session early (configuration, empty text or display
    /// failure): the lock is freed.
    pub fn abort(&mut self)
        ensures
            !final(self).lock.lock.held,
            final(self).lock.acquired_at is None,
            final(self).typing == old(self).typing,
            final(self).interrupt == old(self).interrupt,
            final(self).last_filtered_text == old(self).last_filtered_text,
    {
        self.lock.release();
    }

    /// Keeps the text sent to the model, for regeneration and history.
    pub fn remember_text(&mut self, text: String)
        ensures
            final(self).last_filtered_text == Some(text),
            final(self).lock == old(self).lock,
            final(self).typing == old(self).typing,
            final(self).interrupt == old(self).interrupt,
    {
        self.last_filtered_text = Some(text);
    }

    /// Decides what follows a generation: an error frees the lock and is
    /// shown; no candidates frees the lock and hides the window; otherwise
    /// the candidates are shown and the lock stays held.
    pub fn finish_generation(&mut self, origin: String, result: Result<Vec<String>, AppError>) -> (r:
        TriggerOutcome)
        ensures
            result matches Err(e) ==> (r matches TriggerOutcome::ShowError(m) && m@
                == error_message(e) && !final(self).lock.lock.held
                && final(self).lock.acquired_at is None),
            result matches Ok(c) ==> (c@.len() == 0 ==> r is Hide && !final(self).lock.lock.held
                && final(self).lock.acquired_at is None),
            result matches Ok(c) ==> (c@.len() > 0 ==> (r matches TriggerOutcome::Ready {
                origin: o,
                candidates: k,
            } && o@ == origin@ && k@ == c@ && final(self).lock == old(self).lock)),
            final(self).typing == old(self).typing,
            final(self).interrupt == old(self).interrupt,
            final(self).last_filtered_text == old(self).last_filtered_text,
    {
        match result {
            Err(e) => {
                let m = e.message();
                self.abort();
                TriggerOutcome::ShowError(m)
            },
            Ok(candidates) => {
                if candidates.len() == 0 {
                    self.abort();
                    TriggerOutcome::Hide
                } else {
                    TriggerOutcome::Ready { origin, candidates }
                }
            },
        }
    }

    /// Marks the start of typing a chosen candidate.
    pub fn begin_typing(&mut self)
        ensures
            final(self).typing,
            final(self).lock == old(self).lock,
            final(self).interrupt == old(self).interrupt,
            final(self).last_filtered_text == old(self).last_filtered_text,
    {
        self.typing = true;
    }

    /// The focus could not be restored: typing does not start and the
    /// session ends.
    pub fn focus_failed(&mut self)
        ensures
            !final(self).typing,
            !final(self).lock.lock.held,
            final(self).lock.acquired_at is None,
            final(self).interrupt == old(self).interrupt,
            final(self).last_filtered_text == old(self).last_filtered_text,
    {
        self.typing = false;
        self.abort();
    }

    /// Ends typing: flags cleared, the session text taken (it is the origin
    /// of the history entry) and the lock freed.  A completed typing is
    /// recorded, an interrupted one is not an error.
    pub fn finish_typing(&mut self, result: Result<(), AppError>) -> (r: TypingOutcome)
        ensures
            !final(self).typing,
            !final(self).interrupt,
            !final(self).lock.lock.held,
            final(self).lock.acquired_at is None,
            final(self).last_filtered_text is None,
            result is Ok ==> (r matches TypingOutcome::Record { origin: o } && (match old(
                self,
            ).last_filtered_text {
                Some(t) => o@ == t@,
                None => o@ == Seq::<char>::empty(),
            })),
            result matches Err(e) ==> (e is Interrupted ==> r is Stopped),
            result matches Err(e) ==> (!(e is Interrupted) ==> (r matches TypingOutcome::Failed(f)
                && f == e)),
    {
        self.typing = false;
        self.interrupt = false;
        let origin = match self.last_filtered_text.take() {
            Some(t) => t,
            None => String::new(),
        };
        self.abort();
        match result {
            Ok(()) => TypingOutcome::Record { origin },
            Err(AppError::Interrupted) => TypingOutcome::Stopped,
            Err(e) => TypingOutcome::Failed(e),
        }
    }

    /// Cancels the session (Esc, click outside, close): the interrupt flag
    /// is set in any case; while typing, the typing loop ends the session;
    /// otherwise the text is dropped, the lock freed, and the window must be
    /// hidden (`true`).
    pub fn cancel(&mut self) -> (r: bool)
        ensures
            final(self).interrupt,
            r == !old(self).typing,
            final(self).typing == old(self).typing,
            old(self).typing ==> final(self).lock == old(self).lock
                && final(self).last_filtered_text == old(self).last_filtered_text,
            !old(self).typing ==> !final(self).lock.lock.held
                && final(self).lock.acquired_at is None
                && final(self).last_filtered_text is None,
    {
        self.interrupt = true;
        if self.typing {
            false
        } else {
            self.last_filtered_text = None;
            self.abort();
            true
        }
    }

    /// The text to regenerate from: the session text, if there is a non-empty one.
    pub fn regenerate_text(&self) -> (r: Option<String>)
        ensures
            r matches Some(t) ==> self.last_filtered_text matches Some(s) && t@ == s@ && s@.len()
                > 0,
            r is None ==> (self.last_filtered_text matches Some(s) ==> s@.len() == 0),
    {
        match &self.last_filtered_text {
            Some(t) => {
                if t.as_str().is_empty() {
                    None
                } else {
                    Some(t.clone())
                }
            },
            None => None,
        }
    }
}

/// While a session holds the lock, a second trigger within the watchdog
/// limit is refused; once the limit has passed it is accepted.
pub proof fn lemma_second_trigger_refused(s: Session, t1: u64, t2: u64)
    requires
        t1 <= t2,
    ensures
        ({
            let s2 = Session {
                lock: GuardedLock {
                    lock: crate::state::TaskLock { held: true },
                    acquired_at: Some(t1),
                },
                ..s
            };
            &&& (t2 - t1) / 1000 <= crate::state::TASK_LOCK_WATCHDOG_SECS ==> !trigger_allowed(
                s2,
                t2,
            )
            &&& (t2 - t1) / 1000 > crate::state::TASK_LOCK_WATCHDOG_SECS ==> trigger_allowed(s2, t2)
        }),
{
}

} // verus!
