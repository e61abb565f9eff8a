//! The Gemini side of the library: model identifiers, content shapes,
//! client configuration and endpoint URLs.

pub mod api_types;
pub mod client;
pub mod generate_content;
pub mod model;

pub use api_types::CountTokensResponse;
pub use api_types::ModelsListRequest;
pub use client::GeminiClientBuilder;
pub use generate_content::BlockReason;
pub use generate_content::Candidate;
pub use generate_content::CitationMetadata;
pub use generate_content::CitationSource;
pub use generate_content::Content;
pub use generate_content::FinishReason;
pub use generate_content::GenerateContentResponse;
pub use generate_content::HarmBlockThreshold;
pub use generate_content::HarmCategory;
pub use generate_content::HarmProbability;
pub use generate_content::Part;
pub use generate_content::PromptFeedback;
pub use generate_content::Role;
pub use generate_content::SafetyRating;
pub use generate_content::SafetySetting;
pub use generate_content::UsageMetadata;
pub use model::GenerationMethod;
pub use model::Model;
