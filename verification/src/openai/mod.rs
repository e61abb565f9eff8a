//! The OpenAI side of the library: model identifiers and capabilities,
//! request sanitisation, response shapes, client configuration and
//! endpoint URLs.

pub mod client;
pub mod create_chat_completion;
pub mod create_response;
pub mod list_models;
pub mod model;
pub mod types;

pub use client::OpenAIClientBuilder;
pub use create_chat_completion::OpenAIAnnotation;
pub use create_chat_completion::OpenAIDelta;
pub use create_chat_completion::OpenAIGenerateContentResponse;
pub use create_chat_completion::OpenAIResponseChoice;
pub use create_chat_completion::OpenAIStreamChoice;
pub use create_chat_completion::OpenAIStreamChunk;
pub use create_chat_completion::OpenAIUrlCitation;
pub use create_chat_completion::OpenAiMessage;
pub use create_response::OpenAIImageAction;
pub use create_response::OpenAIImageBackground;
pub use create_response::OpenAIImageFormat;
pub use create_response::OpenAIImageGenerationCallItem;
pub use create_response::OpenAIImageGenerationCompleteEvent;
pub use create_response::OpenAIImageGenerationPartialEvent;
pub use create_response::OpenAIImageGenerationStatusEvent;
pub use create_response::OpenAIImageGenerationTool;
pub use create_response::OpenAIImageInputFidelity;
pub use create_response::OpenAIImageModel;
pub use create_response::OpenAIImageQuality;
pub use create_response::OpenAIImageSize;
pub use create_response::OpenAIInputTokensDetails;
pub use create_response::OpenAIOutputTokensDetails;
pub use create_response::OpenAIResponseOutputTextDelta;
pub use create_response::OpenAIResponseOutputTextDone;
pub use create_response::OpenAIResponseStatus;
pub use create_response::OpenAIResponsesInput;
pub use create_response::OpenAIResponsesInputContent;
pub use create_response::OpenAIResponsesInputContentPart;
pub use create_response::OpenAIResponsesInputItem;
pub use create_response::OpenAIResponsesReasoning;
pub use create_response::OpenAIResponsesTool;
pub use list_models::OpenAIModelInfo;
pub use list_models::OpenAIModelsListResponse;
pub use model::ModelCapabilities;
pub use model::OpenAIModel;
pub use types::sanitise_request_params;
pub use types::OpenAIPrompt;
pub use types::OpenAIReasoningEffort;
pub use types::OpenAIRole;
