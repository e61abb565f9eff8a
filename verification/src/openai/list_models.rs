//! Shapes of the model-listing endpoint.

use vstd::prelude::*;

verus! {

/// The answer to a model-listing call.
#[derive(Debug, Clone)]
pub struct OpenAIModelsListResponse {
    pub models: Vec<OpenAIModelInfo>,
    pub next_page_token: Option<String>,
}

/// One listed model.
#[derive(Debug, Clone)]
pub struct OpenAIModelInfo {
    pub id: String,
    pub object: String,
    pub owned_by: String,
    pub created: u64,
}

} // verus!
