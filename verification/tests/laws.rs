use git_ai_commit_core::commit::args::should_bypass_ai_commit;
use git_ai_commit_core::config::provider::Provider;
use git_ai_commit_core::config::resolve::default_redaction_rules;
use git_ai_commit_core::config::types::{Config, ReasoningEffort};
use git_ai_commit_core::openai::endpoints::api_endpoint_url;
use git_ai_commit_core::message::{first_line, sanitize_message, validate_message};
use git_ai_commit_core::openai::context::resolve_model_context_config;
use git_ai_commit_core::openai::endpoints::ApiEndpointPreference;
use git_ai_commit_core::openai::generation::{GenerationAction, GenerationFlow, GenerationStep};

fn openrouter_config(max_diff_tokens: usize, explicit: bool) -> Config {
    Config {
        provider: Provider::OpenAiCompatible,
        api_base: "https://openrouter.ai/api/v1".to_string(),
        api_key: "secret-token".to_string(),
        model: "deepseek/deepseek-v4-flash".to_string(),
        confirm_commit: true,
        open_editor: false,
        enable_fallback: false,
        redact_secrets: true,
        redaction_rules: default_redaction_rules(),
        show_timing: true,
        use_env_proxy: false,
        timeout_secs: 5,
        max_diff_tokens,
        max_diff_tokens_explicit: explicit,
        model_context_tokens: None,
        reasoning_effort: ReasoningEffort::Off,
        suppress_diff_dirs: vec![".sqlx".to_string()],
    }
}

fn strings(items: &[&str]) -> Vec<String> {
    items.iter().map(|item| item.to_string()).collect()
}

#[test]
fn responses_are_tried_before_chat_completions() {
    for (pref, streaming, step) in [
        (ApiEndpointPreference::Auto, true, GenerationStep::ResponsesStream),
        (ApiEndpointPreference::Auto, false, GenerationStep::ResponsesPlain),
        (ApiEndpointPreference::ResponsesOnly, true, GenerationStep::ResponsesStream),
        (ApiEndpointPreference::ChatCompletionsOnly, true, GenerationStep::ChatStream),
        (ApiEndpointPreference::ChatCompletionsOnly, false, GenerationStep::ChatPlain),
    ] {
        let (_, action) = GenerationFlow::start(pref, streaming);
        assert_eq!(action, GenerationAction::Attempt { step, reset_renderer: false });
    }
}

#[test]
fn detected_context_budget_stays_between_default_and_cap() {
    let cfg = openrouter_config(32_000, false);
    let small = resolve_model_context_config(&cfg, Some(8_192));
    let middle = resolve_model_context_config(&cfg, Some(200_000));
    let large = resolve_model_context_config(&cfg, Some(1_048_576));
    assert_eq!(small.max_diff_tokens, 32_000);
    assert_eq!(middle.max_diff_tokens, 50_000);
    assert_eq!(large.max_diff_tokens, 64_000);
    assert_eq!(large.model_context_tokens, Some(1_048_576));

    let explicit = openrouter_config(20_000, true);
    let kept = resolve_model_context_config(&explicit, Some(1_048_576));
    assert_eq!(kept.max_diff_tokens, 20_000);
    assert_eq!(kept.model_context_tokens, Some(1_048_576));
}

#[test]
fn message_amend_and_path_arguments_skip_generation() {
    for args in [
        strings(&["-s", "-m", "fix: typo"]),
        strings(&["--amend"]),
        strings(&["--no-confirm", "--fixup", "HEAD~1"]),
        strings(&["-a"]),
        strings(&["src/main.rs"]),
    ] {
        assert!(should_bypass_ai_commit(&args), "{args:?}");
    }
    assert!(!should_bypass_ai_commit(&strings(&["-s", "--no-confirm", "--show-redactions"])));
}

#[test]
fn sanitized_messages_pass_the_message_check() {
    let long_subject = "feat: add an extremely detailed and unnecessarily verbose subject line that keeps going";
    for raw in [
        format!("```\n{long_subject}\n\nbody text\n```"),
        long_subject.to_string(),
        "   fix: typo   \n\n  details  ".to_string(),
        "x".repeat(100),
    ] {
        let message = sanitize_message(&raw);
        assert!(first_line(&message).chars().count() <= 72, "{message:?}");
        assert_eq!(validate_message(&message), Ok(()), "{message:?}");
    }
}

#[test]
fn provider_and_effort_names_ignore_case_and_blanks() {
    assert_eq!(Provider::parse("openai"), Some(Provider::OpenAiCompatible));
    assert_eq!(Provider::parse(" OLLAMA "), Some(Provider::Ollama));
    assert_eq!(Provider::parse("anthropic"), Some(Provider::AnthropicCompatible));
    assert_eq!(Provider::parse("\tAnthropic-Compatible\n"), Some(Provider::AnthropicCompatible));
    assert_eq!(Provider::parse("wat"), None);
    assert_eq!(Provider::parse(""), None);
    assert_eq!(ReasoningEffort::parse(" HIGH "), Some(ReasoningEffort::High));
    assert_eq!(ReasoningEffort::parse("None"), Some(ReasoningEffort::Off));
    assert_eq!(ReasoningEffort::parse("max"), None);
    assert_eq!(ReasoningEffort::parse(""), None);
}

#[test]
fn endpoint_urls_from_an_endpoint_match_those_from_the_base() {
    for base in [
        "https://api.openai.com/v1",
        "https://example.com/api",
        "https://example.com/v1/chat/completions?x=1",
    ] {
        for first in ["responses", "chat/completions", "models"] {
            let endpoint = api_endpoint_url(base, first);
            for second in ["responses", "chat/completions", "models"] {
                assert_eq!(api_endpoint_url(&endpoint, second), api_endpoint_url(base, second));
            }
        }
    }
    assert_eq!(
        api_endpoint_url("https://example.com/api", "models"),
        "https://example.com/api/v1/models"
    );
}
