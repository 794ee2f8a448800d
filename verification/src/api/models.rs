//! The values that travel between the service and its clients.

use vstd::prelude::*;
use core::time::Duration;
use std::sync::Arc;
use crate::metrics::Metrics;

verus! {

/// What every request handler shares.
#[derive(Clone)]
pub struct AppState {
    pub metrics: Arc<Metrics>,
}

/// The reply to a health check.
pub struct HealthStatus {
    pub status: String,
    pub version: String,
    pub uptime: Duration,
}

/// The reply to a voice request: synthesised speech and its text.
pub struct AudioResponse {
    pub audio_data: Vec<u8>,
    pub text: String,
}

/// One turn of a conversation.
#[derive(Debug, Clone)]
pub struct ChatMessage {
    pub role: String,
    pub content: String,
}

/// A tool that a chat request offers, by its type.
pub struct Tool {
    pub tool_type: String,
}

/// What the chat service answers.
pub struct ChatGPTResponse {
    pub choices: Vec<Choice>,
}

/// One candidate answer.
pub struct Choice {
    pub message: ChatMessage,
}

} // verus!
