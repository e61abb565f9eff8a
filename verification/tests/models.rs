use ai_client::error::AiError;
use ai_client::gemini::model::{GenerationMethod, Model};
use ai_client::gemini::client::GeminiClientBuilder;
use ai_client::openai::client::OpenAIClientBuilder;
use ai_client::openai::model::OpenAIModel;

#[test]
fn gemini_model_names() {
    assert_eq!(Model::Gemini1_0Pro.name(), "gemini-1.0-pro");
    assert_eq!(Model::Gemini1_5Flash.name(), "gemini-1.5-flash");
    assert_eq!(Model::Gemini1_5Pro.path(), "models/gemini-1.5-pro");
    assert_eq!(Model::Gemini1_0ProVisionLatest.path(), "models/gemini-1.0-pro-vision-latest");
}

#[test]
fn gemini_model_parsing() {
    assert_eq!(Model::from_name("gemini-1.5-pro").unwrap(), Model::Gemini1_5Pro);
    assert_eq!(Model::from_name("models/gemini-1.0-pro-latest").unwrap(), Model::Gemini1_0ProLatest);
    assert!(matches!(Model::from_name("gemini-9000"), Err(AiError::InvalidModel)));
    assert_eq!(Model::default(), Model::Gemini1_5Flash);
}

#[test]
fn generation_method_names() {
    assert_eq!(GenerationMethod::GenerateContent.name(), "generateContent");
    assert_eq!(GenerationMethod::CreateCachedContent.name(), "createCachedContent");
}

#[test]
fn openai_model_names() {
    assert_eq!(OpenAIModel::Gpt4oMini.name(), "gpt-4o-mini");
    assert_eq!(OpenAIModel::Gpt4_1.name(), "gpt-4.1");
    assert_eq!(OpenAIModel::Gpt5Nano.name(), "gpt-5-nano");
}

#[test]
fn openai_model_parsing() {
    assert_eq!(OpenAIModel::from_name("gpt-5.1").unwrap(), OpenAIModel::Gpt5_1);
    assert_eq!(OpenAIModel::from_name("models/gpt-4o").unwrap(), OpenAIModel::Gpt4o);
    assert_eq!(OpenAIModel::from_name("gpt-4-1-mini").unwrap(), OpenAIModel::Gpt4_1Mini);
    assert!(matches!(OpenAIModel::from_name("gpt-0"), Err(AiError::InvalidModel)));
    assert_eq!(OpenAIModel::default(), OpenAIModel::Gpt4oMini);
}

#[test]
fn capability_table() {
    assert!(OpenAIModel::Gpt4o.allow_temperature());
    assert!(!OpenAIModel::Gpt5.allow_temperature());
    assert!(OpenAIModel::Gpt4_1.supports_reasoning());
    assert!(!OpenAIModel::Gpt4_1Mini.supports_reasoning());
    assert!(OpenAIModel::Gpt5_1.supports_caching());
    assert!(!OpenAIModel::Gpt4oMini.supports_caching());
    let caps = OpenAIModel::Gpt5.capabilities();
    assert!(!caps.allow_temperature);
    assert!(caps.supports_reasoning);
    assert!(caps.supports_caching);
}

#[test]
fn endpoint_urls() {
    assert_eq!(ai_client::gemini::client::models_url(),
        "https://generativelanguage.googleapis.com/v1/models");
    assert_eq!(ai_client::gemini::client::generate_content_url(&Model::Gemini1_5Flash),
        "https://generativelanguage.googleapis.com/v1/models/gemini-1.5-flash:generateContent");
    assert_eq!(ai_client::gemini::client::stream_generate_content_url(&Model::Gemini1_5Pro),
        "https://generativelanguage.googleapis.com/v1/models/gemini-1.5-pro:streamGenerateContent");
    assert_eq!(ai_client::gemini::client::count_tokens_url(&Model::Gemini1_0Pro),
        "https://generativelanguage.googleapis.com/v1/models/gemini-1.0-pro:countTokens");
    assert_eq!(ai_client::openai::client::models_url(), "https://api.openai.com/v1/models");
    assert_eq!(ai_client::openai::client::model_url(&OpenAIModel::Gpt4o),
        "https://api.openai.com/v1/models/gpt-4o");
    assert_eq!(ai_client::openai::client::chat_completions_url(),
        "https://api.openai.com/v1/chat/completions");
    assert_eq!(ai_client::openai::client::responses_url(), "https://api.openai.com/v1/responses");
}

#[test]
fn client_builders_resolve() {
    let cfg = GeminiClientBuilder::default()
        .api_key("k".to_string())
        .timeout(30)
        .build_config()
        .unwrap();
    assert_eq!(cfg.api_key, "k");
    assert_eq!(cfg.timeout, Some(30));
    assert!(matches!(
        GeminiClientBuilder::default().build_config(),
        Err(AiError::MissingApiKey)
    ));

    let cfg = OpenAIClientBuilder::default().api_key("s".to_string()).build_config().unwrap();
    assert_eq!(cfg.api_key, "s");
    assert_eq!(cfg.timeout, None);
    assert!(matches!(
        OpenAIClientBuilder::default().timeout(5).build_config(),
        Err(AiError::MissingApiKey)
    ));
}
