use git_ai_commit_core::anthropic::{
    anthropic_message_from_response, disabled_thinking, messages_url, ContentBlock,
    MessagesResponse, ProviderError,
};
use git_ai_commit_core::commit::doctor::{
    display_doctor_value, doctor_ollama_lines, parse_ollama_probe_response, ModelSummary,
    ModelsResponse, OllamaProbe,
};
use git_ai_commit_core::config::resolve::{resolve_config, ConfigSnapshot};
use git_ai_commit_core::config::types::RawConfigValues;
use git_ai_commit_core::prompt::{build_prompt, build_prompt_scaffold, RepoContext};
use git_ai_commit_core::tokenizer::Tokenizer;

#[test]
fn appends_messages_endpoint() {
    assert_eq!(
        messages_url("https://api.deepseek.com/anthropic"),
        "https://api.deepseek.com/anthropic/v1/messages"
    );
    assert_eq!(
        messages_url("https://api.deepseek.com/anthropic/v1"),
        "https://api.deepseek.com/anthropic/v1/messages"
    );
}

#[test]
fn enables_disabled_thinking_for_deepseek_anthropic() {
    assert!(disabled_thinking("https://api.deepseek.com/anthropic").is_some());
    assert!(disabled_thinking("https://api.deepseek.com/anthropic/v1").is_some());
    assert!(disabled_thinking("https://api.anthropic.com").is_none());
}

#[test]
fn messages_url_keeps_an_explicit_endpoint() {
    assert_eq!(
        messages_url(" https://example.com/v1/messages/ "),
        "https://example.com/v1/messages"
    );
    assert_eq!(disabled_thinking("https://api.deepseek.com/anthropic").unwrap().kind, "disabled");
}

fn block(kind: &str, text: Option<&str>) -> ContentBlock {
    ContentBlock {
        block_type: kind.to_string(),
        text: text.map(str::to_string),
        thinking: None,
    }
}

#[test]
fn only_text_blocks_make_the_message() {
    let response = MessagesResponse {
        content: vec![
            ContentBlock {
                block_type: "thinking".to_string(),
                text: None,
                thinking: Some("hmm".to_string()),
            },
            block("text", Some("feat: add")),
            block("tool_use", Some("ignored")),
            block("text", Some(" parser")),
        ],
        error: None,
    };
    assert_eq!(response.text_content(), "feat: add parser");
    assert_eq!(response.block_types(), vec!["thinking", "text", "tool_use", "text"]);
    assert!(response.has_thinking());
    assert_eq!(
        anthropic_message_from_response(200, "{}", Ok(response)),
        Ok("feat: add parser".to_string())
    );
}

#[test]
fn anthropic_errors_name_the_failure() {
    assert_eq!(
        anthropic_message_from_response(500, "  oops  ", Err("bad json".to_string())),
        Err("anthropic messages request failed: oops".to_string())
    );
    assert_eq!(
        anthropic_message_from_response(200, "x", Err("bad json".to_string())),
        Err("invalid anthropic messages payload: bad json".to_string())
    );
    let with_error = MessagesResponse {
        content: vec![],
        error: Some(ProviderError { message: "overloaded".to_string() }),
    };
    assert_eq!(
        anthropic_message_from_response(529, "{}", Ok(with_error)),
        Err("overloaded".to_string())
    );
    let without = MessagesResponse { content: vec![], error: None };
    assert_eq!(
        anthropic_message_from_response(401, "{}", Ok(without.clone())),
        Err("anthropic messages request failed with status 401".to_string())
    );
    assert_eq!(
        anthropic_message_from_response(200, "{}", Ok(without)),
        Err("anthropic response did not contain any text blocks".to_string())
    );
    let thinking_only = MessagesResponse {
        content: vec![ContentBlock {
            block_type: "thinking".to_string(),
            text: None,
            thinking: Some("pondering".to_string()),
        }],
        error: None,
    };
    assert_eq!(
        anthropic_message_from_response(200, "{}", Ok(thinking_only)),
        Err("anthropic response contained only thinking blocks and no final text; try disabling provider thinking or using the OpenAI-compatible endpoint".to_string())
    );
    let fenced = MessagesResponse { content: vec![block("text", Some("```\n```"))], error: None };
    assert_eq!(
        anthropic_message_from_response(200, "{}", Ok(fenced)),
        Err("model returned an empty message".to_string())
    );
}

#[test]
fn uses_token_budget_wording_when_requested() {
    let prompt = build_prompt(&RepoContext {
        repo_name: "repo".to_string(),
        branch_name: "main".to_string(),
        diff_truncated: true,
        diff_budget_is_token_mode: true,
        changed_file_count: 3,
        represented_file_count: 2,
        ..RepoContext::default()
    });

    assert!(prompt.contains("Diff coverage: selective sample within token budget"));
}

#[test]
fn scaffold_includes_worst_case_coverage_lines() {
    let prompt = build_prompt_scaffold("repo", "main", 4);

    assert!(prompt.contains("Diff coverage: selective sample within token budget"));
    assert!(prompt.contains("Diff stat coverage: truncated"));
}

#[test]
fn tokenizer_counts_and_trims_in_tokens() {
    let tokenizer = Tokenizer::new().expect("tokenizer");
    let text = "hello world, this is a sentence with several tokens in it";
    let n = tokenizer.count(text);
    assert!(n > 3);
    assert_eq!(tokenizer.count(""), 0);
    let cut = tokenizer.trim_to_budget(text, 3);
    assert!(cut.len() < text.len());
    assert!(text.starts_with(&cut));
    assert!(tokenizer.count(&cut) <= 3);
    assert_eq!(tokenizer.trim_to_budget(text, n), text);
}

fn raw() -> RawConfigValues {
    RawConfigValues {
        provider: Some("ollama".to_string()),
        api_base: Some("http://127.0.0.1:11434".to_string()),
        api_key: None,
        model: Some("llama3.2".to_string()),
        confirm_commit: None,
        open_editor: None,
        enable_fallback: None,
        redact_secrets: None,
        redaction_secret: None,
        redaction_domain: None,
        redaction_url: None,
        redaction_email: None,
        redaction_ip: None,
        redaction_cidr: None,
        redaction_phone: None,
        redaction_person: None,
        redaction_organization: None,
        show_timing: None,
        use_env_proxy: None,
        timeout_sec: None,
        max_diff_tokens: None,
        model_context_tokens: None,
        reasoning_effort: None,
        suppress_diff_dirs: None,
    }
}

#[test]
fn doctor_reads_ollama_probes() {
    let mut git = raw();
    git.provider = None;
    let cfg = resolve_config(&ConfigSnapshot { env: raw(), git, file: None }).expect("config");
    let listing = ModelsResponse {
        data: vec![
            ModelSummary { id: "qwen".to_string() },
            ModelSummary { id: "llama3.2".to_string() },
        ],
        error: None,
    };
    assert_eq!(
        parse_ollama_probe_response(200, Ok(listing), &cfg),
        Ok(OllamaProbe { visible_model_count: 2, model_found: true })
    );
    assert_eq!(
        parse_ollama_probe_response(404, Err("x".to_string()), &cfg),
        Err("incompatible endpoint (expected OpenAI-compatible /v1/models)".to_string())
    );
    assert_eq!(
        parse_ollama_probe_response(500, Err("x".to_string()), &cfg),
        Err("probe failed with status 500".to_string())
    );
    let lines = doctor_ollama_lines(
        &cfg,
        Ok(OllamaProbe { visible_model_count: 1, model_found: false }),
    );
    assert_eq!(
        lines,
        vec![
            "ollama endpoint: reachable (1 model(s) visible)".to_string(),
            "ollama model: missing (llama3.2). Pull it first with: ollama pull llama3.2"
                .to_string(),
        ]
    );
    let lines = doctor_ollama_lines(&cfg, Err("probe failed: refused".to_string()));
    assert_eq!(lines, vec!["ollama endpoint: probe failed: refused".to_string()]);
    assert_eq!(display_doctor_value("  "), "(unset)");
    assert_eq!(display_doctor_value("x"), "x");
}
