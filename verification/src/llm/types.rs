//! Data of the OpenAI-compatible chat protocol.
use vstd::prelude::*;

verus! {

/// One chat message (`role` is `system`, `user` or `assistant`).
#[derive(Debug, Clone)]
pub struct ChatMessage {
    pub role: String,
    pub content: String,
}

/// One choice of a chat completion.
#[derive(Debug, Clone)]
pub struct ChatChoice {
    pub message: ChatMessage,
}

/// A chat completion response.
#[derive(Debug, Clone)]
pub struct ChatResponse {
    pub choices: Vec<ChatChoice>,
}

/// The outcome of a connection test.
#[derive(Debug, Clone)]
pub struct ConnectionTestResult {
    pub ok: bool,
    pub latency_ms: u64,
    pub message: String,
}

} // verus!
