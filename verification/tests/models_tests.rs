use ollama_relay::models::GenRecord;
use ollama_relay::models::RunningModel;
use ollama_relay::models::RunningResponse;
use ollama_relay::models::TagModelEntry;
use ollama_relay::models::TagsResponse;
use ollama_relay::models::extract_generate_text;
use ollama_relay::models::resolve_active_models;
use ollama_relay::models::status_success;
use ollama_relay::models::running_model_names;
use ollama_relay::models::tag_model_names;
use ollama_relay::models::unload_outcome;

#[test]
fn tag_names_in_listing_order() {
    let tags = TagsResponse {
        models: vec![
            TagModelEntry { name: String::from("llama3"), size: Some(42) },
            TagModelEntry { name: String::from("phi3"), size: None },
        ],
    };
    assert_eq!(tag_model_names(&tags), vec!["llama3".to_string(), "phi3".to_string()]);
}

#[test]
fn running_names_in_listing_order() {
    let running = RunningResponse {
        models: vec![RunningModel { name: String::from("llama3") }],
    };
    assert_eq!(running_model_names(&running), vec!["llama3".to_string()]);
}

#[test]
fn active_models_fallback_uses_second_endpoint() {
    // the first candidate endpoint failed (404); the second answered
    let running = RunningResponse {
        models: vec![RunningModel { name: String::from("llama3") }],
    };
    let second = running_model_names(&running);
    let result = resolve_active_models(vec![None, Some(second)]);
    assert_eq!(result, vec!["llama3".to_string()]);
}

#[test]
fn active_models_first_endpoint_wins() {
    let result = resolve_active_models(vec![
        Some(vec!["a".to_string()]),
        Some(vec!["b".to_string()]),
    ]);
    assert_eq!(result, vec!["a".to_string()]);
}

#[test]
fn active_models_empty_when_all_fail() {
    let result = resolve_active_models(vec![None, None]);
    assert!(result.is_empty());
}

#[test]
fn status_class_decides_success() {
    assert!(status_success(200));
    assert!(status_success(299));
    assert!(!status_success(199));
    assert!(!status_success(300));
    assert!(!status_success(404));
}

#[test]
fn unload_succeeds_only_on_success_status() {
    assert_eq!(unload_outcome(200), Ok(()));
    assert_eq!(unload_outcome(204), Ok(()));
    assert_eq!(unload_outcome(299), Ok(()));
    assert_eq!(unload_outcome(199), Err(199));
    assert_eq!(unload_outcome(300), Err(300));
    assert_eq!(unload_outcome(404), Err(404));
    assert_eq!(unload_outcome(500), Err(500));
}

#[test]
fn generate_text_prefers_response_field() {
    assert_eq!(
        extract_generate_text("{\"response\":\"hi\",\"done\":true}"),
        Some("hi".to_string())
    );
}

#[test]
fn generate_text_falls_back_to_message_content() {
    assert_eq!(
        extract_generate_text("{\"message\":{\"content\":\"from chat\"}}"),
        Some("from chat".to_string())
    );
}

#[test]
fn generate_text_last_resort_is_canonical_rendering() {
    assert_eq!(
        extract_generate_text("{\"other\":1}"),
        Some("{\"other\":1}".to_string())
    );
}

#[test]
fn generate_text_none_on_invalid_json() {
    assert_eq!(extract_generate_text("not json"), None);
    assert_eq!(extract_generate_text(""), None);
}

#[test]
fn gen_record_fields_are_plain_values() {
    let g = GenRecord {
        response: Some(String::from("r")),
        message_content: None,
        canonical: String::from("{}"),
    };
    assert_eq!(g.response.as_deref(), Some("r"));
}
