//! Response and stream-chunk shapes of the Chat Completions API. The
//! request shape carries sampling temperatures and lives with the I/O
//! shell.

use vstd::prelude::*;

use crate::openai::types::OpenAIRole;

verus! {

/// The answer to a chat-completion call.
#[derive(Debug, Clone)]
pub struct OpenAIGenerateContentResponse {
    pub choices: Vec<OpenAIResponseChoice>,
    pub created: u64,
    pub id: String,
    pub model: String,
    pub object: String,
    pub usage: OpenAIResponseUsage,
}

/// One generated choice.
#[derive(Debug, Clone)]
pub struct OpenAIResponseChoice {
    pub index: u64,
    pub finish_reason: String,
    pub message: OpenAiMessage,
}

/// One generated message.
#[derive(Debug, Clone)]
pub struct OpenAiMessage {
    pub role: OpenAIRole,
    pub content: Option<String>,
    pub refusal: Option<String>,
    pub annotations: Option<Vec<OpenAIAnnotation>>,
}

/// An annotation attached to a message; its `kind` field carries the
/// wire discriminator.
#[derive(Debug, Clone)]
pub struct OpenAIAnnotation {
    pub kind: String,
    pub url_citation: OpenAIUrlCitation,
}

/// A citation of a URL inside a message.
#[derive(Debug, Clone)]
pub struct OpenAIUrlCitation {
    pub start_index: u64,
    pub end_index: u64,
    pub title: String,
    pub url: String,
}

/// Token accounting of one call.
#[derive(Debug, Clone, Copy, PartialEq, Eq, Structural)]
pub struct OpenAIResponseUsage {
    pub completion_tokens: u64,
    pub prompt_tokens: u64,
    pub total_tokens: u64,
}

/// One streaming chunk of a chat completion.
#[derive(Debug, Clone)]
pub struct OpenAIStreamChunk {
    pub id: String,
    pub object: String,
    pub created: u64,
    pub model: String,
    pub choices: Vec<OpenAIStreamChoice>,
    /// Usage information is only included in the final chunk.
    pub usage: Option<OpenAIResponseUsage>,
}

/// One choice within a streaming chunk.
#[derive(Debug, Clone)]
pub struct OpenAIStreamChoice {
    pub index: u64,
    pub delta: OpenAIDelta,
    pub finish_reason: Option<String>,
}

/// The incremental payload of a streaming chunk.
#[derive(Debug, Clone)]
pub struct OpenAIDelta {
    pub role: Option<OpenAIRole>,
    pub content: Option<String>,
    pub refusal: Option<String>,
}

} // verus!
