use ai_client::gemini::api_types::{CountTokensResponse, ModelsListRequest};
use ai_client::gemini::generate_content::{
    BlockReason, HarmCategory, HarmProbability, Part, SafetyRating,
};
use ai_client::openai::create_response::{
    OpenAIImageGenerationCallItem, OpenAIImageModel, OpenAIResponsesInputContentPart,
    OpenAIResponsesTool,
};
use ai_client::utils::{check_status, i32_to_dec, u64_to_dec, Url};

#[test]
fn url_without_query_is_the_base() {
    assert_eq!(Url::new("https://example.test/v1").build(), "https://example.test/v1");
}

#[test]
fn url_with_queries_joins_them() {
    let url = Url::new("https://example.test/v1/models")
        .with_query("pageSize", "10")
        .with_query("pageToken", "abc")
        .build();
    assert_eq!(url, "https://example.test/v1/models?pageSize=10&pageToken=abc");
}

#[test]
fn url_from_models_list_request() {
    let params = ModelsListRequest { page_token: Some("tok".to_string()), page_size: Some(25) };
    let url = Url::new("base").with_query_from(params).build();
    assert_eq!(url, "base?pageToken=tok&pageSize=25");

    let empty = ModelsListRequest::default();
    assert_eq!(Url::new("base").with_query_from(empty).build(), "base");

    let negative = ModelsListRequest { page_token: None, page_size: Some(-3) };
    assert_eq!(Url::new("base").with_query_from(negative).build(), "base?pageSize=-3");
}

#[test]
fn decimal_formatting() {
    assert_eq!(u64_to_dec(0), "0");
    assert_eq!(u64_to_dec(1234567890), "1234567890");
    assert_eq!(i32_to_dec(-2147483648), "-2147483648");
    assert_eq!(i32_to_dec(7), "7");
}

#[test]
fn status_classification() {
    assert_eq!(check_status(204, "ok".to_string()).unwrap(), "ok");
    match check_status(404, "missing".to_string()) {
        Err(ai_client::error::AiError::ApiError(status, body)) => {
            assert_eq!(status, 404);
            assert_eq!(body, "missing");
        },
        _ => panic!("expected an ApiError"),
    }
}

#[test]
fn count_tokens_response_round_trip() {
    let r = CountTokensResponse::new(42);
    assert_eq!(r.total_tokens(), 42);
}

#[test]
fn text_parts() {
    let p = Part::text("Hello, World!");
    assert_eq!(p.as_text(), Some("Hello, World!"));
    assert!(p.as_blob().is_none());
    assert!(p.as_blob_base64().is_none());
}

#[test]
fn blob_parts_encode_to_base64() {
    let p = Part::blob("application/octet-stream", vec![1, 2, 3]);
    let (mime, data) = p.as_blob_base64().unwrap();
    assert_eq!(mime, "application/octet-stream");
    assert_eq!(data, "AQID");
    let (mime, bytes) = p.as_blob().unwrap();
    assert_eq!(mime, "application/octet-stream");
    assert_eq!(bytes, vec![1, 2, 3]);
    assert!(p.as_text().is_none());
}

#[test]
fn blob_base64_keeps_the_text() {
    let p = Part::blob_base64("image/png", "AQID");
    let (mime, data) = p.as_blob_base64().unwrap();
    assert_eq!(mime, "image/png");
    assert_eq!(data, "AQID");
    let (_, bytes) = p.as_blob().unwrap();
    assert_eq!(bytes, vec![1, 2, 3]);
}

#[test]
fn invalid_base64_blob_decodes_to_none() {
    let p = Part::blob_base64("image/png", "!!not base64!!");
    assert!(p.as_blob().is_none());
}

#[test]
fn safety_rating_blocked_defaults_to_false() {
    let mut rating = SafetyRating {
        category: HarmCategory::Harassment,
        probability: HarmProbability::Low,
        blocked: None,
    };
    assert!(!rating.blocked());
    rating.blocked = Some(false);
    assert!(!rating.blocked());
    rating.blocked = Some(true);
    assert!(rating.blocked());
}

#[test]
fn documented_descriptions() {
    assert_eq!(HarmCategory::Harassment.description(), "Harassment content");
    assert_eq!(
        HarmProbability::Negligible.description(),
        "Content has a negligible chance of being unsafe"
    );
    assert_eq!(BlockReason::Other.description(), "Prompt was blocked due to unknown reasons");
}

#[test]
fn image_input_parts() {
    let p = OpenAIResponsesInputContentPart::image_base64("image/jpeg", "QUJD");
    match p {
        OpenAIResponsesInputContentPart::InputImage { image_url, detail } => {
            assert_eq!(image_url, "data:image/jpeg;base64,QUJD");
            assert!(detail.is_none());
        },
        _ => panic!("expected an image part"),
    }
    let p = OpenAIResponsesInputContentPart::image_with_detail("https://example.test/x.png", "low");
    match p {
        OpenAIResponsesInputContentPart::InputImage { image_url, detail } => {
            assert_eq!(image_url, "https://example.test/x.png");
            assert_eq!(detail.as_deref(), Some("low"));
        },
        _ => panic!("expected an image part"),
    }
}

#[test]
fn image_generation_tools() {
    match OpenAIResponsesTool::image_generation() {
        OpenAIResponsesTool::ImageGeneration(t) => {
            assert!(t.model.is_none());
            assert!(t.size.is_none());
        },
    }
    match OpenAIResponsesTool::image_generation_with_model(OpenAIImageModel::GptImage1_5) {
        OpenAIResponsesTool::ImageGeneration(t) => {
            assert_eq!(t.model, Some(OpenAIImageModel::GptImage1_5));
            assert!(t.quality.is_none());
        },
    }
}

#[test]
fn image_call_items_decode() {
    let item = OpenAIImageGenerationCallItem {
        id: None,
        status: None,
        result: "AQID".to_string(),
        size: None,
        quality: None,
        background: None,
    };
    assert_eq!(item.decode_image().unwrap(), vec![1, 2, 3]);
    let bad = OpenAIImageGenerationCallItem { result: "%%".to_string(), ..item };
    assert!(bad.decode_image().is_err());
}
