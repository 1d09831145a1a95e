use git_ai_commit_core::config::provider::Provider;
use git_ai_commit_core::config::resolve::default_redaction_rules;
use git_ai_commit_core::config::types::{Config, ReasoningEffort};
use git_ai_commit_core::openai::context::{
    apply_auto_diff_token_limit, catalog_context_tokens, models_lookup_outcome,
    resolve_model_context_config, ModelCatalogEntry, ModelsCatalog,
};
use git_ai_commit_core::openai::diagnostics::{
    describe_error_chain, format_headers, format_hex, preview_header_value, push_tail_bytes,
    supports_json_object_only,
};
use git_ai_commit_core::openai::endpoints::{
    api_endpoint_url, chat_completions_url, checked_api_endpoint_url, checked_endpoint_preference,
    endpoint_preference, models_url, responses_url, ApiEndpointPreference,
};
use serde_json::Value;
use std::error::Error;
use std::fmt;
use std::io;

fn sample_config(api_base: &str, model: &str, model_context_tokens: Option<usize>) -> Config {
    Config {
        provider: Provider::OpenAiCompatible,
        api_base: api_base.to_string(),
        api_key: "secret-token".to_string(),
        model: model.to_string(),
        confirm_commit: true,
        open_editor: false,
        enable_fallback: false,
        redact_secrets: true,
        redaction_rules: default_redaction_rules(),
        show_timing: true,
        use_env_proxy: false,
        timeout_secs: 5,
        max_diff_tokens: 16_000,
        max_diff_tokens_explicit: false,
        model_context_tokens,
        reasoning_effort: ReasoningEffort::Off,
        suppress_diff_dirs: vec![".sqlx".to_string()],
    }
}

/// A models catalog as an OpenRouter answer body lists it.
fn catalog(body: &str) -> ModelsCatalog {
    let value: Value = serde_json::from_str(body).expect("catalog JSON");
    let data = value["data"]
        .as_array()
        .expect("data")
        .iter()
        .map(|entry| ModelCatalogEntry {
            id: entry["id"].as_str().expect("id").to_string(),
            context_length: entry["context_length"].as_u64().map(|n| n as usize),
            top_provider_context_length: entry["top_provider"]["context_length"]
                .as_u64()
                .map(|n| n as usize),
        })
        .collect();
    ModelsCatalog { data }
}

#[test]
fn rewrites_known_endpoint_urls() {
    assert_eq!(
        api_endpoint_url("https://api.openai.com/v1/chat/completions", "responses"),
        "https://api.openai.com/v1/responses"
    );
    assert_eq!(
        api_endpoint_url("https://api.openai.com/v1/responses", "chat/completions"),
        "https://api.openai.com/v1/chat/completions"
    );
    assert_eq!(
        models_url("http://localhost:11434").expect("base parses"),
        "http://localhost:11434/v1/models"
    );
    assert_eq!(
        api_endpoint_url("https://example.com/openai/v1/models", "responses"),
        "https://example.com/openai/v1/responses"
    );
    assert_eq!(
        api_endpoint_url("https://example.com/openai", "chat/completions"),
        "https://example.com/openai/v1/chat/completions"
    );
}

#[test]
fn detects_explicit_endpoint_preferences() {
    assert_eq!(
        endpoint_preference("https://api.openai.com/v1/chat/completions"),
        ApiEndpointPreference::ChatCompletionsOnly
    );
    assert_eq!(
        endpoint_preference("https://api.openai.com/v1/responses"),
        ApiEndpointPreference::ResponsesOnly
    );
    assert_eq!(endpoint_preference("https://api.openai.com/v1"), ApiEndpointPreference::Auto);
    assert_eq!(
        endpoint_preference("https://example.com/openai/v1/models"),
        ApiEndpointPreference::Auto
    );
}

#[test]
fn endpoint_urls_drop_the_query_and_empty_segments() {
    assert_eq!(
        responses_url("  https://example.com//api/?key=1  "),
        Some("https://example.com/api/v1/responses".to_string())
    );
    assert_eq!(
        chat_completions_url("https://example.com/v1/"),
        Some("https://example.com/v1/chat/completions".to_string())
    );
    assert_eq!(checked_api_endpoint_url("not a url", "models"), None);
    assert_eq!(checked_endpoint_preference("not a url"), None);
    assert_eq!(
        checked_endpoint_preference("http://localhost:11434/v1/chat/completions"),
        Some(ApiEndpointPreference::ChatCompletionsOnly)
    );
}

#[test]
fn preserves_explicit_model_context_tokens() {
    let cfg = sample_config("https://openrouter.ai/api/v1", "google/gemma-4-31b-it:free", Some(12345));
    let resolved = resolve_model_context_config(&cfg, None);
    assert_eq!(resolved.model_context_tokens, Some(12345));
    let resolved = resolve_model_context_config(&cfg, Some(65536));
    assert_eq!(resolved.model_context_tokens, Some(12345));
}

#[test]
fn auto_raises_default_max_diff_tokens_up_to_cap() {
    let mut cfg = sample_config("https://openrouter.ai/api/v1", "deepseek/deepseek-v4-flash", None);
    apply_auto_diff_token_limit(&mut cfg, 1_048_576);
    assert_eq!(cfg.max_diff_tokens, 64_000);
}

#[test]
fn preserves_explicit_max_diff_tokens() {
    let mut cfg = sample_config(
        "https://openrouter.ai/api/v1",
        "deepseek/deepseek-v4-flash",
        Some(1_048_576),
    );
    cfg.max_diff_tokens = 20_000;
    cfg.max_diff_tokens_explicit = true;
    let resolved = resolve_model_context_config(&cfg, None);
    assert_eq!(resolved.max_diff_tokens, 20_000);
}

#[test]
fn detected_context_sets_the_budget_within_bounds() {
    let cfg = sample_config("https://openrouter.ai/api/v1", "m", None);
    let resolved = resolve_model_context_config(&cfg, Some(200_000));
    assert_eq!(resolved.model_context_tokens, Some(200_000));
    assert_eq!(resolved.max_diff_tokens, 50_000);
    let resolved = resolve_model_context_config(&cfg, Some(8_192));
    assert_eq!(resolved.max_diff_tokens, 32_000);
    let elsewhere = sample_config("https://api.openai.com/v1", "m", None);
    assert_eq!(resolve_model_context_config(&elsewhere, Some(200_000)).model_context_tokens, None);
}

#[test]
fn fetches_openrouter_model_context_tokens() {
    let body = r#"{"data":[{"id":"google/gemma-4-31b-it:free","context_length":32768,"top_provider":{"context_length":65536}}]}"#;
    let detected = models_lookup_outcome(200, Ok(catalog(body)), "google/gemma-4-31b-it:free")
        .expect("context token lookup");
    assert_eq!(detected, Some(65536));
}

#[test]
fn returns_none_when_model_missing_from_openrouter_catalog() {
    let body = r#"{"data":[{"id":"other/model","context_length":8192}]}"#;
    let detected = models_lookup_outcome(200, Ok(catalog(body)), "google/gemma-4-31b-it:free")
        .expect("lookup result");
    assert_eq!(detected, None);
}

#[test]
fn catalog_lookups_report_failures() {
    assert_eq!(
        models_lookup_outcome(503, Ok(ModelsCatalog { data: Vec::new() }), "m"),
        Err("openrouter models lookup failed with status 503".to_string())
    );
    assert_eq!(
        models_lookup_outcome(200, Err("expected value".to_string()), "m"),
        Err("invalid OpenRouter models payload: expected value".to_string())
    );
    let own = catalog(r#"{"data":[{"id":"m","context_length":4096}]}"#);
    assert_eq!(catalog_context_tokens(&own, "m"), Some(4096));
}

#[derive(Debug)]
struct BodyReadError {
    source: io::Error,
}

impl fmt::Display for BodyReadError {
    fn fmt(&self, formatter: &mut fmt::Formatter<'_>) -> fmt::Result {
        formatter.write_str("response body read failed")
    }
}

impl Error for BodyReadError {
    fn source(&self) -> Option<&(dyn Error + 'static)> {
        Some(&self.source)
    }
}

/// The messages of an error and of its causes, in turn.
fn chain_of(error: &dyn Error) -> Vec<String> {
    let mut messages = vec![error.to_string()];
    let mut source = error.source();
    while let Some(cause) = source {
        messages.push(cause.to_string());
        source = cause.source();
    }
    messages
}

#[test]
fn includes_nested_error_causes() {
    let body = BodyReadError {
        source: io::Error::new(io::ErrorKind::ConnectionReset, "peer reset stream"),
    };
    assert_eq!(
        describe_error_chain(&chain_of(&body)),
        "response body read failed; caused by: peer reset stream"
    );
}

#[test]
fn error_chains_skip_repeats_and_stop_after_eight_causes() {
    let chain: Vec<String> = ["a", "a", "b", "b", "a"].iter().map(|s| s.to_string()).collect();
    assert_eq!(describe_error_chain(&chain), "a; caused by: b; caused by: a");
    let long: Vec<String> = (0..12).map(|i| i.to_string()).collect();
    assert_eq!(
        describe_error_chain(&long),
        "0; caused by: 1; caused by: 2; caused by: 3; caused by: 4; caused by: 5; caused by: 6; caused by: 7; caused by: 8"
    );
}

#[test]
fn diagnostics_format_headers_and_bytes() {
    let headers = vec![
        ("content-type".to_string(), Some("text/event-stream".to_string())),
        ("x-odd".to_string(), None),
    ];
    assert_eq!(format_headers(&headers), "content-type=text/event-stream, x-odd=<non-utf8>");
    let bytes: Vec<u8> = (0u8..18).collect();
    assert_eq!(
        format_hex(&bytes),
        "00 01 02 03 04 05 06 07 08 09 0a 0b 0c 0d 0e 0f\n10 11"
    );
    let mut tail = vec![1u8, 2, 3];
    push_tail_bytes(&mut tail, &[4, 5, 6], 4);
    assert_eq!(tail, vec![3, 4, 5, 6]);
    push_tail_bytes(&mut tail, &[], 1);
    assert_eq!(tail, vec![3, 4, 5, 6]);
    assert_eq!(preview_header_value(" a \n b "), "a b");
    assert!(supports_json_object_only(
        "This model does not support 'json_schema'. Supported formats: json_object, text"
    ));
    assert!(!supports_json_object_only("does not support 'json_schema'"));
}
