//! Shared OpenAI request types and the request-sanitisation rule: before
//! a request is sent, fields a model does not support are stripped, and
//! reasoning-effort values outside a model's supported set are clamped
//! to the nearest value it does support.

use vstd::prelude::*;

use crate::openai::model::{
    allow_temperature_spec, supports_caching_spec, supports_reasoning_spec, OpenAIModel,
};

verus! {

/// How much effort a reasoning model spends before answering.
#[derive(Debug, Clone, Copy, PartialEq, Eq, Structural)]
pub enum OpenAIReasoningEffort {
    NoEffort,
    Minimal,
    Low,
    Medium,
    High,
    XHigh,
}

/// One conversation turn of a chat-completion request.
#[derive(Debug, Clone)]
pub struct OpenAIPrompt {
    pub role: OpenAIRole,
    pub content: String,
}

/// Who speaks a conversation turn.
#[derive(Debug, Clone, Copy, PartialEq, Eq, Structural)]
pub enum OpenAIRole {
    Assistant,
    Developer,
    User,
}

/// Whether the model belongs to the GPT-5 family.
pub open spec fn is_gpt5_family(m: OpenAIModel) -> bool {
    match m {
        OpenAIModel::Gpt5_1 | OpenAIModel::Gpt5 | OpenAIModel::Gpt5Mini
            | OpenAIModel::Gpt5Nano => true,
        _ => false,
    }
}

/// The reasoning effort a request may keep for a model: dropped when
/// the model has no reasoning support; `XHigh`, which no model here
/// supports, is downgraded to `High`, the highest supported value; on
/// the GPT-5 family `Minimal` is downgraded to its `NoEffort`
/// equivalent.
pub open spec fn sanitised_effort_spec(
    m: OpenAIModel,
    e: Option<OpenAIReasoningEffort>,
) -> Option<OpenAIReasoningEffort> {
    if !supports_reasoning_spec(m) {
        None
    } else {
        match e {
            Some(OpenAIReasoningEffort::XHigh) => Some(OpenAIReasoningEffort::High),
            Some(OpenAIReasoningEffort::Minimal) => if is_gpt5_family(m) {
                Some(OpenAIReasoningEffort::NoEffort)
            } else {
                e
            },
            _ => e,
        }
    }
}

/// Sanitises request parameters against the model's capabilities: the
/// reasoning effort is clamped or dropped, the cache fields are cleared
/// when the model does not support prompt caching, and the returned
/// flag says whether the caller must drop its temperature field.
pub fn sanitise_request_params(
    model: &OpenAIModel,
    reasoning_effort: &mut Option<OpenAIReasoningEffort>,
    cache_key: &mut Option<String>,
    cache_retention: &mut Option<String>,
) -> (drop_temperature: bool)
    ensures
        drop_temperature == !allow_temperature_spec(*model),
        *final(reasoning_effort) == sanitised_effort_spec(*model, *old(reasoning_effort)),
        supports_caching_spec(*model) ==> *final(cache_key) == *old(cache_key)
            && *final(cache_retention) == *old(cache_retention),
        !supports_caching_spec(*model) ==> *final(cache_key) is None && *final(cache_retention)
            is None,
{
    if !model.supports_reasoning() {
        *reasoning_effort = None;
    } else {
        match *reasoning_effort {
            Some(OpenAIReasoningEffort::XHigh) => {
                *reasoning_effort = Some(OpenAIReasoningEffort::High);
            },
            Some(OpenAIReasoningEffort::Minimal) => {
                match model {
                    OpenAIModel::Gpt5_1 | OpenAIModel::Gpt5 | OpenAIModel::Gpt5Mini
                        | OpenAIModel::Gpt5Nano => {
                        *reasoning_effort = Some(OpenAIReasoningEffort::NoEffort);
                    },
                    _ => {},
                }
            },
            _ => {},
        }
    }
    if !model.supports_caching() {
        *cache_key = None;
        *cache_retention = None;
    }
    !model.allow_temperature()
}

} // verus!
