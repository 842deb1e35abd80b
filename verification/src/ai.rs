//! Carriers for the assistant chat proxy.

use vstd::prelude::*;

verus! {

/// One turn of an assistant conversation.
pub struct ChatMessage {
    pub role: String,
    pub content: String,
}

/// A prompt with its history.
pub struct ChatRequest {
    pub message: String,
    pub model: Option<String>,
    pub history: Vec<ChatMessage>,
}

/// One available model.
pub struct ModelInfo {
    pub id: String,
    pub name: String,
    pub description: String,
}

} // verus!
