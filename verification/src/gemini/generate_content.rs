//! Content and response shapes of the Gemini `generateContent` API.
//! Request shapes that carry sampling temperatures live with the I/O
//! shell; everything here is plain data with exact contracts.

use vstd::prelude::*;

use crate::utils::{base64_decode, base64_encode, base64_decode_of, base64_of};

verus! {

/// A piece of conversation: an ordered list of parts and the role that
/// produced them.
#[derive(Debug, Clone)]
pub struct Content {
    pub parts: Vec<Part>,
    pub role: Option<Role>,
}

/// Who produced a piece of content.
#[derive(Debug, Clone, Copy, PartialEq, Eq, Hash, Structural)]
pub enum Role {
    User,
    Model,
}

/// One part of a content item: plain text, or an inline blob carried as
/// base64 text next to its MIME type.
#[derive(Debug, Clone)]
pub enum Part {
    Text(String),
    Blob { mime_type: String, data: String },
}

impl Part {
    /// A text part.
    pub fn text(text: &str) -> (r: Self)
        ensures
            r matches Part::Text(t) && t@ == text@,
    {
        Part::Text(text.to_owned())
    }

    /// A blob part: the bytes are stored base64-encoded.
    pub fn blob(mime_type: &str, data: Vec<u8>) -> (r: Self)
        requires
            data@.len() < 0x1000_0000_0000_0000,
        ensures
            r matches Part::Blob { mime_type: m, data: d } && m@ == mime_type@ && d@ == base64_of(
                data@,
            ) && base64_decode_of(d@) == Some(data@),
    {
        Part::Blob { mime_type: mime_type.to_owned(), data: base64_encode(&data) }
    }

    /// A blob part from data that is already base64 text.
    pub fn blob_base64(mime_type: &str, data: &str) -> (r: Self)
        ensures
            r matches Part::Blob { mime_type: m, data: d } && m@ == mime_type@ && d@ == data@,
    {
        Part::Blob { mime_type: mime_type.to_owned(), data: data.to_owned() }
    }

    /// The text of a text part.
    pub fn as_text(&self) -> (r: Option<&str>)
        ensures
            match self {
                Part::Text(t) => r matches Some(s) && s@ == t@,
                Part::Blob { .. } => r is None,
            },
    {
        match self {
            Part::Text(text) => Some(text.as_str()),
            Part::Blob { .. } => None,
        }
    }

    /// The MIME type and decoded bytes of a blob part, when its stored
    /// text is valid base64.
    pub fn as_blob(&self) -> (r: Option<(String, Vec<u8>)>)
        ensures
            match self {
                Part::Text(_) => r is None,
                Part::Blob { mime_type: m, data: d } => match base64_decode_of(d@) {
                    Some(bytes) => r matches Some(p) && p.0@ == m@ && p.1@ == bytes,
                    None => r is None,
                },
            },
    {
        match self {
            Part::Blob { mime_type, data } => match base64_decode(data.as_str()) {
                Ok(bytes) => Some((mime_type.clone(), bytes)),
                Err(_) => None,
            },
            Part::Text(_) => None,
        }
    }

    /// The MIME type and raw base64 text of a blob part.
    pub fn as_blob_base64(&self) -> (r: Option<(&str, &str)>)
        ensures
            match self {
                Part::Text(_) => r is None,
                Part::Blob { mime_type: m, data: d } => r matches Some(p) && p.0@ == m@ && p.1@
                    == d@,
            },
    {
        match self {
            Part::Blob { mime_type, data } => Some((mime_type.as_str(), data.as_str())),
            Part::Text(_) => None,
        }
    }
}

/// One safety rule of a request: block content of a category at a
/// threshold. There should be at most one per category.
#[derive(Debug, Clone, Copy, PartialEq, Eq, Structural)]
pub struct SafetySetting {
    pub category: HarmCategory,
    pub threshold: HarmBlockThreshold,
}

/// The harm categories the API distinguishes.
#[derive(Debug, Clone, Copy, PartialEq, Eq, Hash, Structural)]
pub enum HarmCategory {
    Unspecified,
    Derogatory,
    Toxicity,
    Violence,
    Sexual,
    Medical,
    Dangerous,
    Harassment,
    HateSpeech,
    SexuallyExplicit,
    DangerousContent,
}

impl HarmCategory {
    /// The category's documented description.
    pub open spec fn description_spec(self) -> Seq<char> {
        match self {
            HarmCategory::Unspecified => "Category is unspecified"@,
            HarmCategory::Derogatory => "Negative or harmful comments targeting identity and/or protected attribute"@,
            HarmCategory::Toxicity => "Content that is rude, disrespectful, or profane"@,
            HarmCategory::Violence => "Describes scenarios depicting violence against an individual or group, or general descriptions of gore"@,
            HarmCategory::Sexual => "Contains references to sexual acts or other lewd content"@,
            HarmCategory::Medical => "Promotes unchecked medical advice"@,
            HarmCategory::Dangerous => "Dangerous content that promotes, facilitates, or encourages harmful acts"@,
            HarmCategory::Harassment => "Harassment content"@,
            HarmCategory::HateSpeech => "Hate speech and content"@,
            HarmCategory::SexuallyExplicit => "Sexually explicit content"@,
            HarmCategory::DangerousContent => "Dangerous content"@,
        }
    }

    /// The category's documented description.
    pub fn description(&self) -> (r: String)
        ensures
            r@ == self.description_spec(),
    {
        match self {
            HarmCategory::Unspecified => "Category is unspecified".to_owned(),
            HarmCategory::Derogatory => "Negative or harmful comments targeting identity and/or protected attribute".to_owned(),
            HarmCategory::Toxicity => "Content that is rude, disrespectful, or profane".to_owned(),
            HarmCategory::Violence => "Describes scenarios depicting violence against an individual or group, or general descriptions of gore".to_owned(),
            HarmCategory::Sexual => "Contains references to sexual acts or other lewd content".to_owned(),
            HarmCategory::Medical => "Promotes unchecked medical advice".to_owned(),
            HarmCategory::Dangerous => "Dangerous content that promotes, facilitates, or encourages harmful acts".to_owned(),
            HarmCategory::Harassment => "Harassment content".to_owned(),
            HarmCategory::HateSpeech => "Hate speech and content".to_owned(),
            HarmCategory::SexuallyExplicit => "Sexually explicit content".to_owned(),
            HarmCategory::DangerousContent => "Dangerous content".to_owned(),
        }
    }
}

/// How aggressively a category is blocked.
#[derive(Debug, Clone, Copy, PartialEq, Eq, Hash, Structural)]
pub enum HarmBlockThreshold {
    Unspecified,
    LowAndAbove,
    MediumAndAbove,
    OnlyHigh,
    BlockNone,
}

/// The answer to a `generateContent` call.
#[derive(Debug, Clone)]
pub struct GenerateContentResponse {
    pub candidates: Vec<Candidate>,
    pub prompt_feedback: Option<PromptFeedback>,
    pub usage_metadata: UsageMetadata,
}

/// One generated candidate.
#[derive(Debug, Clone)]
pub struct Candidate {
    pub content: Content,
    pub finish_reason: FinishReason,
    pub safety_ratings: Vec<SafetyRating>,
    pub citation_metadata: Option<CitationMetadata>,
    pub token_count: Option<u64>,
    pub index: u64,
}

/// Why generation stopped.
#[derive(Debug, Clone, Copy, PartialEq, Eq, Hash, Structural)]
pub enum FinishReason {
    Unspecified,
    Stop,
    MaxTokens,
    Safety,
    Recitation,
    Other,
}

/// The safety assessment of one category.
#[derive(Debug, Clone, Copy, PartialEq, Eq, Structural)]
pub struct SafetyRating {
    pub category: HarmCategory,
    pub probability: HarmProbability,
    pub blocked: Option<bool>,
}

impl SafetyRating {
    /// Whether this rating blocked the content; an absent flag counts as
    /// not blocked.
    pub fn blocked(&self) -> (r: bool)
        ensures
            r == (self.blocked == Some(true)),
    {
        match self.blocked {
            Some(b) => b,
            None => false,
        }
    }
}

/// How likely content is to be unsafe in a category.
#[derive(Debug, Clone, Copy, PartialEq, Eq, Hash, Structural)]
pub enum HarmProbability {
    Unspecified,
    Negligible,
    Low,
    Medium,
    High,
}

impl HarmProbability {
    /// The probability's documented description.
    pub open spec fn description_spec(self) -> Seq<char> {
        match self {
            HarmProbability::Unspecified => "Probability is unspecified"@,
            HarmProbability::Negligible => "Content has a negligible chance of being unsafe"@,
            HarmProbability::Low => "Content has a low chance of being unsafe"@,
            HarmProbability::Medium => "Content has a medium chance of being unsafe"@,
            HarmProbability::High => "Content has a high chance of being unsafe"@,
        }
    }

    /// The probability's documented description.
    pub fn description(&self) -> (r: String)
        ensures
            r@ == self.description_spec(),
    {
        match self {
            HarmProbability::Unspecified => "Probability is unspecified".to_owned(),
            HarmProbability::Negligible => "Content has a negligible chance of being unsafe".to_owned(),
            HarmProbability::Low => "Content has a low chance of being unsafe".to_owned(),
            HarmProbability::Medium => "Content has a medium chance of being unsafe".to_owned(),
            HarmProbability::High => "Content has a high chance of being unsafe".to_owned(),
        }
    }
}

/// Citations for a candidate.
#[derive(Debug, Clone)]
pub struct CitationMetadata {
    pub citation_sources: Vec<CitationSource>,
}

/// One cited source.
#[derive(Debug, Clone)]
pub struct CitationSource {
    pub start_index: Option<u64>,
    pub end_index: Option<u64>,
    pub uri: Option<String>,
    pub license: Option<String>,
}

/// Feedback on the prompt itself.
#[derive(Debug, Clone)]
pub struct PromptFeedback {
    pub block_reason: Option<BlockReason>,
    pub safety_ratings: Option<Vec<SafetyRating>>,
}

/// Why a prompt was blocked.
#[derive(Debug, Clone, Copy, PartialEq, Eq, Hash, Structural)]
pub enum BlockReason {
    Unspecified,
    Safety,
    Other,
}

impl BlockReason {
    /// The reason's documented description.
    pub open spec fn description_spec(self) -> Seq<char> {
        match self {
            BlockReason::Unspecified => "Block reason is unspecified"@,
            BlockReason::Safety => "Prompt was blocked due to safety reasons. You can inspect safetyRatings to understand which safety category blocked it"@,
            BlockReason::Other => "Prompt was blocked due to unknown reasons"@,
        }
    }

    /// The reason's documented description.
    pub fn description(&self) -> (r: String)
        ensures
            r@ == self.description_spec(),
    {
        match self {
            BlockReason::Unspecified => "Block reason is unspecified".to_owned(),
            BlockReason::Safety => "Prompt was blocked due to safety reasons. You can inspect safetyRatings to understand which safety category blocked it".to_owned(),
            BlockReason::Other => "Prompt was blocked due to unknown reasons".to_owned(),
        }
    }
}

/// Token accounting of one call.
#[derive(Debug, Clone, Copy, PartialEq, Eq, Structural)]
pub struct UsageMetadata {
    pub prompt_token_count: u64,
    pub candidates_token_count: u64,
    pub total_token_count: u64,
}

} // verus!
