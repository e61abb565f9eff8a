use ai_client::openai::model::OpenAIModel;
use ai_client::openai::types::{sanitise_request_params, OpenAIReasoningEffort};

fn run(
    model: OpenAIModel,
    effort: Option<OpenAIReasoningEffort>,
    cache_key: Option<&str>,
    cache_retention: Option<&str>,
) -> (bool, Option<OpenAIReasoningEffort>, Option<String>, Option<String>) {
    let mut e = effort;
    let mut ck = cache_key.map(str::to_string);
    let mut cr = cache_retention.map(str::to_string);
    let drop_temperature = sanitise_request_params(&model, &mut e, &mut ck, &mut cr);
    (drop_temperature, e, ck, cr)
}

#[test]
fn temperature_is_kept_only_where_allowed() {
    let (drop_t, _, _, _) = run(OpenAIModel::Gpt4o, None, None, None);
    assert!(!drop_t);
    let (drop_t, _, _, _) = run(OpenAIModel::Gpt5, None, None, None);
    assert!(drop_t);
}

#[test]
fn effort_dropped_without_reasoning_support() {
    let (_, e, _, _) = run(OpenAIModel::Gpt4o, Some(OpenAIReasoningEffort::High), None, None);
    assert_eq!(e, None);
    let (_, e, _, _) = run(OpenAIModel::Gpt5Mini, Some(OpenAIReasoningEffort::Low), None, None);
    assert_eq!(e, None);
}

#[test]
fn xhigh_downgraded_to_high_on_gpt5_family() {
    let (_, e, _, _) = run(OpenAIModel::Gpt5, Some(OpenAIReasoningEffort::XHigh), None, None);
    assert_eq!(e, Some(OpenAIReasoningEffort::High));
    let (_, e, _, _) = run(OpenAIModel::Gpt5_1, Some(OpenAIReasoningEffort::XHigh), None, None);
    assert_eq!(e, Some(OpenAIReasoningEffort::High));
}

#[test]
fn minimal_becomes_no_effort_on_gpt5_family() {
    let (_, e, _, _) = run(OpenAIModel::Gpt5, Some(OpenAIReasoningEffort::Minimal), None, None);
    assert_eq!(e, Some(OpenAIReasoningEffort::NoEffort));
    let (_, e, _, _) = run(OpenAIModel::Gpt5_1, Some(OpenAIReasoningEffort::Minimal), None, None);
    assert_eq!(e, Some(OpenAIReasoningEffort::NoEffort));
}

#[test]
fn gpt4_1_clamps_only_xhigh() {
    // gpt-4.1 supports reasoning; the unsupported maximum is downgraded
    // to the highest supported value, everything else passes through.
    let (_, e, _, _) = run(OpenAIModel::Gpt4_1, Some(OpenAIReasoningEffort::XHigh), None, None);
    assert_eq!(e, Some(OpenAIReasoningEffort::High));
    let (_, e, _, _) = run(OpenAIModel::Gpt4_1, Some(OpenAIReasoningEffort::Minimal), None, None);
    assert_eq!(e, Some(OpenAIReasoningEffort::Minimal));
    let (_, e, _, _) = run(OpenAIModel::Gpt4_1, Some(OpenAIReasoningEffort::Low), None, None);
    assert_eq!(e, Some(OpenAIReasoningEffort::Low));
}

#[test]
fn cache_fields_cleared_without_caching_support() {
    let (_, _, ck, cr) = run(OpenAIModel::Gpt4oMini, None, Some("key"), Some("24h"));
    assert_eq!(ck, None);
    assert_eq!(cr, None);
}

#[test]
fn cache_fields_kept_with_caching_support() {
    let (_, _, ck, cr) = run(OpenAIModel::Gpt5, None, Some("key"), Some("24h"));
    assert_eq!(ck.as_deref(), Some("key"));
    assert_eq!(cr.as_deref(), Some("24h"));
}
