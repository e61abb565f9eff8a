//! Input, tool and streaming-event shapes of the Responses API. Shapes
//! that carry raw JSON values or sampling temperatures live with the
//! I/O shell; here are the plain-data shapes with their constructors.

use vstd::prelude::*;
use vstd::string::StringExecFns;

use crate::openai::model::OpenAIModel;
use crate::utils::{base64_decode, base64_decode_of};

verus! {

/// Text, or an ordered list of structured input items.
#[derive(Debug, Clone)]
pub enum OpenAIResponsesInput {
    Text(String),
    Items(Vec<OpenAIResponsesInputItem>),
}

/// One structured input item: a role and its content.
#[derive(Debug, Clone)]
pub struct OpenAIResponsesInputItem {
    pub role: String,
    pub content: OpenAIResponsesInputContent,
}

/// Input content: a plain string, or a list of content parts.
#[derive(Debug, Clone)]
pub enum OpenAIResponsesInputContent {
    Text(String),
    Parts(Vec<OpenAIResponsesInputContentPart>),
}

impl From<String> for OpenAIResponsesInputContent {
    fn from(s: String) -> (r: Self) {
        OpenAIResponsesInputContent::Text(s)
    }
}

impl vstd::std_specs::convert::FromSpecImpl<String> for OpenAIResponsesInputContent {
    open spec fn obeys_from_spec() -> bool {
        true
    }

    open spec fn from_spec(s: String) -> Self {
        OpenAIResponsesInputContent::Text(s)
    }
}

impl From<Vec<OpenAIResponsesInputContentPart>> for OpenAIResponsesInputContent {
    fn from(parts: Vec<OpenAIResponsesInputContentPart>) -> (r: Self) {
        OpenAIResponsesInputContent::Parts(parts)
    }
}

impl vstd::std_specs::convert::FromSpecImpl<Vec<OpenAIResponsesInputContentPart>> for OpenAIResponsesInputContent {
    open spec fn obeys_from_spec() -> bool {
        true
    }

    open spec fn from_spec(parts: Vec<OpenAIResponsesInputContentPart>) -> Self {
        OpenAIResponsesInputContent::Parts(parts)
    }
}

/// One content part of a multimodal input: text, or an image given by
/// URL or data URI, with an optional detail level.
#[derive(Debug, Clone)]
pub enum OpenAIResponsesInputContentPart {
    InputText { text: String },
    InputImage { image_url: String, detail: Option<String> },
}

impl OpenAIResponsesInputContentPart {
    /// A text input part.
    pub fn text(text: &str) -> (r: Self)
        ensures
            r matches OpenAIResponsesInputContentPart::InputText { text: t } && t@ == text@,
    {
        OpenAIResponsesInputContentPart::InputText { text: text.to_owned() }
    }

    /// An image input part from a URL.
    pub fn image_url(url: &str) -> (r: Self)
        ensures
            r matches OpenAIResponsesInputContentPart::InputImage { image_url: u, detail: d } && u@
                == url@ && d is None,
    {
        OpenAIResponsesInputContentPart::InputImage { image_url: url.to_owned(), detail: None }
    }

    /// An image input part from base64 data, as a data URI.
    pub fn image_base64(mime_type: &str, base64_data: &str) -> (r: Self)
        ensures
            r matches OpenAIResponsesInputContentPart::InputImage { image_url: u, detail: d } && u@
                == "data:"@ + mime_type@ + ";base64,"@ + base64_data@ && d is None,
    {
        let mut u = "data:".to_owned();
        u.append(mime_type);
        u.append(";base64,");
        u.append(base64_data);
        OpenAIResponsesInputContentPart::InputImage { image_url: u, detail: None }
    }

    /// An image input part with a detail level.
    pub fn image_with_detail(url: &str, detail: &str) -> (r: Self)
        ensures
            r matches OpenAIResponsesInputContentPart::InputImage { image_url: u, detail: d } && u@
                == url@ && (d matches Some(dd) && dd@ == detail@),
    {
        OpenAIResponsesInputContentPart::InputImage {
            image_url: url.to_owned(),
            detail: Some(detail.to_owned()),
        }
    }
}

/// The reasoning configuration of a request.
#[derive(Debug, Clone)]
pub struct OpenAIResponsesReasoning {
    pub effort: Option<crate::openai::types::OpenAIReasoningEffort>,
}

/// A tool the model may use.
#[derive(Debug, Clone)]
pub enum OpenAIResponsesTool {
    ImageGeneration(OpenAIImageGenerationTool),
}

impl OpenAIResponsesTool {
    /// An image generation tool with default settings.
    pub fn image_generation() -> (r: Self)
        ensures
            r matches OpenAIResponsesTool::ImageGeneration(t) && t.model is None && t.size is None
                && t.quality is None && t.background is None && t.output_format is None
                && t.partial_images is None && t.action is None && t.input_fidelity is None,
    {
        OpenAIResponsesTool::ImageGeneration(Default::default())
    }

    /// An image generation tool pinned to one model.
    pub fn image_generation_with_model(model: OpenAIImageModel) -> (r: Self)
        ensures
            r matches OpenAIResponsesTool::ImageGeneration(t) && t.model == Some(model) && t.size
                is None && t.quality is None && t.background is None && t.output_format is None
                && t.partial_images is None && t.action is None && t.input_fidelity is None,
    {
        OpenAIResponsesTool::ImageGeneration(
            OpenAIImageGenerationTool {
                model: Some(model),
                size: None,
                quality: None,
                background: None,
                output_format: None,
                partial_images: None,
                action: None,
                input_fidelity: None,
            },
        )
    }
}

/// Configuration of the image generation tool.
#[derive(Debug, Clone, Copy, PartialEq, Eq, Structural)]
pub struct OpenAIImageGenerationTool {
    pub model: Option<OpenAIImageModel>,
    pub size: Option<OpenAIImageSize>,
    pub quality: Option<OpenAIImageQuality>,
    pub background: Option<OpenAIImageBackground>,
    pub output_format: Option<OpenAIImageFormat>,
    /// Number of partial images for streaming (0-3).
    pub partial_images: Option<u8>,
    pub action: Option<OpenAIImageAction>,
    pub input_fidelity: Option<OpenAIImageInputFidelity>,
}

impl Default for OpenAIImageGenerationTool {
    /// Every setting left to the service's default.
    fn default() -> (r: Self)
        ensures
            r.model is None,
            r.size is None,
            r.quality is None,
            r.background is None,
            r.output_format is None,
            r.partial_images is None,
            r.action is None,
            r.input_fidelity is None,
    {
        OpenAIImageGenerationTool {
            model: None,
            size: None,
            quality: None,
            background: None,
            output_format: None,
            partial_images: None,
            action: None,
            input_fidelity: None,
        }
    }
}

/// The image generation models.
#[derive(Debug, Clone, Copy, PartialEq, Eq, Structural)]
pub enum OpenAIImageModel {
    /// Fast and cheap model (default).
    GptImage1Mini,
    /// Standard model.
    GptImage1,
    /// Best quality model.
    GptImage1_5,
}

impl Default for OpenAIImageModel {
    fn default() -> (r: Self)
        ensures
            r == OpenAIImageModel::GptImage1Mini,
    {
        OpenAIImageModel::GptImage1Mini
    }
}

/// Image size options.
#[derive(Debug, Clone, Copy, PartialEq, Eq, Structural)]
pub enum OpenAIImageSize {
    Square1024,
    Landscape,
    Portrait,
    Auto,
}

impl Default for OpenAIImageSize {
    fn default() -> (r: Self)
        ensures
            r == OpenAIImageSize::Auto,
    {
        OpenAIImageSize::Auto
    }
}

/// Image quality options.
#[derive(Debug, Clone, Copy, PartialEq, Eq, Structural)]
pub enum OpenAIImageQuality {
    Low,
    Medium,
    High,
    Auto,
}

impl Default for OpenAIImageQuality {
    fn default() -> (r: Self)
        ensures
            r == OpenAIImageQuality::Auto,
    {
        OpenAIImageQuality::Auto
    }
}

/// Image background options.
#[derive(Debug, Clone, Copy, PartialEq, Eq, Structural)]
pub enum OpenAIImageBackground {
    Transparent,
    Opaque,
    Auto,
}

impl Default for OpenAIImageBackground {
    fn default() -> (r: Self)
        ensures
            r == OpenAIImageBackground::Auto,
    {
        OpenAIImageBackground::Auto
    }
}

/// Image output format options.
#[derive(Debug, Clone, Copy, PartialEq, Eq, Structural)]
pub enum OpenAIImageFormat {
    Png,
    Webp,
    Jpeg,
}

impl Default for OpenAIImageFormat {
    fn default() -> (r: Self)
        ensures
            r == OpenAIImageFormat::Png,
    {
        OpenAIImageFormat::Png
    }
}

/// What the image tool should do.
#[derive(Debug, Clone, Copy, PartialEq, Eq, Structural)]
pub enum OpenAIImageAction {
    /// Let the model decide (recommended).
    Auto,
    /// Always generate a new image.
    Generate,
    /// Edit an existing image (requires an image in context).
    Edit,
}

impl Default for OpenAIImageAction {
    fn default() -> (r: Self)
        ensures
            r == OpenAIImageAction::Auto,
    {
        OpenAIImageAction::Auto
    }
}

/// Input fidelity for image editing.
#[derive(Debug, Clone, Copy, PartialEq, Eq, Structural)]
pub enum OpenAIImageInputFidelity {
    High,
    Low,
}

impl Default for OpenAIImageInputFidelity {
    fn default() -> (r: Self)
        ensures
            r == OpenAIImageInputFidelity::High,
    {
        OpenAIImageInputFidelity::High
    }
}

/// The lifecycle states of a response.
#[derive(Debug, Clone, Copy, PartialEq, Eq, Structural)]
pub enum OpenAIResponseStatus {
    Completed,
    Failed,
    InProgress,
    Cancelled,
    Queued,
    Incomplete,
}

/// Token accounting of one response.
#[derive(Debug, Clone)]
pub struct OpenAIResponseUsage {
    pub input_tokens: u64,
    pub input_tokens_details: Option<OpenAIInputTokensDetails>,
    pub output_tokens: u64,
    pub output_tokens_details: Option<OpenAIOutputTokensDetails>,
    pub total_tokens: u64,
}

/// Detail of the input-token count.
#[derive(Debug, Clone, Copy, PartialEq, Eq, Structural)]
pub struct OpenAIInputTokensDetails {
    pub cached_tokens: u64,
}

/// Detail of the output-token count.
#[derive(Debug, Clone, Copy, PartialEq, Eq, Structural)]
pub struct OpenAIOutputTokensDetails {
    pub reasoning_tokens: u64,
}

/// The result of an image generation tool call: the image bytes arrive
/// base64-encoded in `result`.
#[derive(Debug, Clone)]
pub struct OpenAIImageGenerationCallItem {
    pub id: Option<String>,
    pub status: Option<String>,
    /// Base64-encoded image data.
    pub result: String,
    pub size: Option<String>,
    pub quality: Option<String>,
    pub background: Option<String>,
}

impl OpenAIImageGenerationCallItem {
    /// Decodes the base64 result to raw image bytes; text that is not
    /// valid base64 yields the decoder's description.
    pub fn decode_image(&self) -> (r: Result<Vec<u8>, String>)
        ensures
            r is Ok <==> base64_decode_of(self.result@) is Some,
            r matches Ok(v) ==> base64_decode_of(self.result@) == Some(v@),
    {
        base64_decode(self.result.as_str())
    }
}

/// A partial image pushed while generation is in progress.
#[derive(Debug, Clone)]
pub struct OpenAIImageGenerationPartialEvent {
    pub item_id: String,
    pub sequence_number: u32,
    pub output_index: u32,
    /// Base64-encoded partial image data.
    pub partial_image: String,
    pub size: Option<String>,
    pub quality: Option<String>,
    pub background: Option<String>,
}

impl OpenAIImageGenerationPartialEvent {
    /// Decodes the partial image to raw bytes; text that is not valid
    /// base64 yields the decoder's description.
    pub fn decode_image(&self) -> (r: Result<Vec<u8>, String>)
        ensures
            r is Ok <==> base64_decode_of(self.partial_image@) is Some,
            r matches Ok(v) ==> base64_decode_of(self.partial_image@) == Some(v@),
    {
        base64_decode(self.partial_image.as_str())
    }
}

/// An image generation status change.
#[derive(Debug, Clone)]
pub struct OpenAIImageGenerationStatusEvent {
    pub item_id: String,
    pub sequence_number: u32,
    pub output_index: u32,
}

/// The completion of an image generation call.
#[derive(Debug, Clone)]
pub struct OpenAIImageGenerationCompleteEvent {
    pub item_id: String,
    pub sequence_number: u32,
    pub output_index: u32,
    pub item: OpenAIImageGenerationCallItem,
}

/// An incremental update to an output-text content part.
#[derive(Debug, Clone)]
pub struct OpenAIResponseOutputTextDelta {
    pub item_id: String,
    pub sequence_number: u32,
    pub output_index: u32,
    pub content_index: u32,
    pub delta: String,
}

/// The final text of an output-text content part.
#[derive(Debug, Clone)]
pub struct OpenAIResponseOutputTextDone {
    pub item_id: String,
    pub sequence_number: u32,
    pub output_index: u32,
    pub content_index: u32,
    pub text: String,
}

} // verus!
