//! Verified core of the SelTalk chat-reply assistant: text cleaning and
//! masking, candidate splitting, word statistics, prompt templates, hotkey
//! rules, focus and window decisions, and the small state machines that
//! guard the trigger → generate → type pipeline.
use vstd::prelude::*;

pub mod capture;
pub mod capture_flow;
pub mod chars;
pub mod cleaner;
pub mod clipboard;
pub mod config;
pub mod db;
pub mod error;
pub mod focus;
pub mod hotkey;
pub mod input;
pub mod json;
pub mod llm;
pub mod orchestrator;
pub mod pattern;
pub mod security;
pub mod state;
pub mod text;
pub mod tray;
pub mod window;

verus! {

} // verus!
