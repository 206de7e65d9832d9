use emailbrain_backend::adapter::resolve_adapter_path;
use emailbrain_backend::chat::truncate_for_log;
use emailbrain_backend::config::{
    jkca_runtime_generate_url, lm_chat_url, parse_bind_addr, parse_chat_max_tokens,
    preferred_inference_provider, InferenceProvider, DEFAULT_BIND_ADDR, DEFAULT_CHAT_MAX_TOKENS,
};
use emailbrain_backend::json::{extract_jkca_generated_text, JsonValue};
use emailbrain_backend::origins::configured_frontend_origins;
use emailbrain_backend::text::count_words;

#[test]
fn trims_trailing_slash_when_building_lm_studio_url() {
    assert_eq!(
        lm_chat_url("http://127.0.0.1:1234/"),
        "http://127.0.0.1:1234/v1/chat/completions"
    );
}

#[test]
fn trims_trailing_slash_when_building_jkca_runtime_url() {
    assert_eq!(
        jkca_runtime_generate_url("http://127.0.0.1:8100/"),
        "http://127.0.0.1:8100/api/runtime/generate"
    );
}

#[test]
fn counts_words_from_whitespace_boundaries() {
    assert_eq!(count_words("one   two\nthree"), 3);
}

#[test]
fn extracts_generated_text_from_jkca_proxy_shape() {
    let payload = JsonValue::Object(vec![(
        "downstream".to_string(),
        JsonValue::Object(vec![(
            "text".to_string(),
            JsonValue::String("shared response".to_string()),
        )]),
    )]);

    assert_eq!(
        extract_jkca_generated_text(&payload).as_deref(),
        Some("shared response")
    );
}

#[test]
fn prefers_lm_studio_when_adapter_is_selected() {
    assert!(matches!(
        preferred_inference_provider(InferenceProvider::Jkca, true),
        InferenceProvider::LmStudio
    ));
}

#[test]
fn preserves_default_provider_for_base_chat() {
    assert!(matches!(
        preferred_inference_provider(InferenceProvider::Jkca, false),
        InferenceProvider::Jkca
    ));
}

#[test]
fn adds_localhost_alias_for_default_frontend_origin() {
    let origins = configured_frontend_origins("http://localhost:3900");
    assert_eq!(origins.len(), 2);
}

#[test]
fn falls_back_to_default_bind_addr_when_invalid() {
    // "not-an-addr" is no socket address.
    assert_eq!(parse_bind_addr("not-an-addr", false), DEFAULT_BIND_ADDR);
}

#[test]
fn falls_back_to_default_chat_max_tokens_when_invalid() {
    assert_eq!(parse_chat_max_tokens("oops"), DEFAULT_CHAT_MAX_TOKENS);
}

#[test]
fn rejects_adapter_paths_that_escape_project_root() {
    let result = resolve_adapter_path("/tmp/project", "../escape");
    assert!(result.is_err());
}

#[test]
fn truncates_large_log_entries() {
    let value = "x".repeat(2_100);
    let truncated = truncate_for_log(&value);
    assert!(truncated.len() < value.len());
    assert!(truncated.ends_with("..."));
}
