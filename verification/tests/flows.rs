use git_ai_commit_core::cli::{cli_route, resolve_stream_output, CliRoute};
use git_ai_commit_core::commit::alias::{init_alias_action, AliasAction, CAI_ALIAS_VALUE};
use git_ai_commit_core::commit::confirm::CommitConfirmation;
use git_ai_commit_core::config::sources::needs_interactive_setup;
use git_ai_commit_core::commit::doctor::{
    context_detection_line, doctor_args_error, doctor_config_error_line, doctor_config_lines,
    doctor_ollama_lines, doctor_ollama_precheck, parse_ollama_probe_response, repo_line,
    DoctorProviderError, ModelSummary, ModelsResponse,
};
use git_ai_commit_core::commit::flow::{
    context_summary, plain_commit_args, CommitAction, CommitFlow, CommitSettings,
};
use git_ai_commit_core::config::provider::Provider;
use git_ai_commit_core::config::resolve::default_redaction_rules;
use git_ai_commit_core::config::types::{Config, ReasoningEffort};
use git_ai_commit_core::openai::endpoints::ApiEndpointPreference;
use git_ai_commit_core::openai::generation::{
    finish_generation, GenerationAction, GenerationFlow, GenerationStep,
};
use git_ai_commit_core::openai::stream::StreamRenderer;
use git_ai_commit_core::openai::stream_palette::StreamPalette;
use git_ai_commit_core::openai::transport::{
    bearer_auth_header, request_headers, ApiAttemptError, TransportEndpoint,
};
use git_ai_commit_core::openai::StreamOutput;
use serde_json::Value;

fn sample_config(provider: Provider, api_base: &str, api_key: &str, model: &str) -> Config {
    Config {
        provider,
        api_base: api_base.to_string(),
        api_key: api_key.to_string(),
        model: model.to_string(),
        confirm_commit: true,
        open_editor: false,
        enable_fallback: false,
        redact_secrets: true,
        redaction_rules: default_redaction_rules(),
        show_timing: true,
        use_env_proxy: false,
        timeout_secs: 5,
        max_diff_tokens: 16_000,
        max_diff_tokens_explicit: false,
        model_context_tokens: None,
        reasoning_effort: ReasoningEffort::Off,
        suppress_diff_dirs: vec![".sqlx".to_string()],
    }
}

/// A `/v1/models` answer as its body reads, or the parser's error.
fn models_response(body: &str) -> Result<ModelsResponse, String> {
    let value: Value = serde_json::from_str(body).map_err(|err| err.to_string())?;
    let data = value["data"]
        .as_array()
        .map(|items| {
            items
                .iter()
                .map(|item| ModelSummary { id: item["id"].as_str().unwrap_or_default().to_string() })
                .collect()
        })
        .unwrap_or_default();
    let error = value["error"]["message"]
        .as_str()
        .map(|message| DoctorProviderError { message: message.to_string() });
    Ok(ModelsResponse { data, error })
}

fn strings(items: &[&str]) -> Vec<String> {
    items.iter().map(|s| s.to_string()).collect()
}

#[test]
fn omits_bearer_auth_for_local_ollama_without_key() {
    let cfg = sample_config(Provider::Ollama, "http://127.0.0.1:11434", "", "llama3.2");
    assert!(bearer_auth_header(&cfg).is_none());
}

#[test]
fn includes_bearer_auth_when_api_key_is_configured() {
    let cfg = sample_config(Provider::Ollama, "https://ollama.com/v1", "secret-token", "gpt-oss:20b");
    assert_eq!(bearer_auth_header(&cfg), Some("Bearer secret-token".to_string()));
}

#[test]
fn doctor_reports_ollama_local_success() {
    let cfg = sample_config(Provider::Ollama, "http://127.0.0.1:11434", "", "llama3.2");
    let probe = parse_ollama_probe_response(
        200,
        models_response(r#"{"data":[{"id":"llama3.2"},{"id":"qwen3:8b"}]}"#),
        &cfg,
    );
    let lines = doctor_ollama_lines(&cfg, probe);
    assert!(lines.iter().any(|line| line.contains("reachable (2 model(s) visible)")));
    assert!(lines.iter().any(|line| line.contains("found (llama3.2)")));
}

#[test]
fn doctor_reports_missing_ollama_model() {
    let cfg = sample_config(Provider::Ollama, "http://127.0.0.1:11434", "", "llama3.2");
    let probe =
        parse_ollama_probe_response(200, models_response(r#"{"data":[{"id":"qwen3:8b"}]}"#), &cfg);
    let lines = doctor_ollama_lines(&cfg, probe);
    assert!(lines.iter().any(|line| line.contains("ollama model: missing (llama3.2)")));
}

#[test]
fn doctor_reports_cloud_auth_missing_before_probe() {
    let cfg = sample_config(Provider::Ollama, "https://ollama.com/v1", "", "gpt-oss:20b");
    assert_eq!(
        doctor_ollama_precheck(&cfg),
        Some(vec!["ollama endpoint: auth missing for ollama cloud".to_string()])
    );
}

#[test]
fn doctor_reports_incompatible_ollama_endpoint() {
    let cfg = sample_config(Provider::Ollama, "http://127.0.0.1:11434", "", "llama3.2");
    let probe = parse_ollama_probe_response(404, models_response("missing"), &cfg);
    assert!(probe.is_err());
    let lines = doctor_ollama_lines(&cfg, probe);
    assert!(lines.iter().any(|line| line.contains("incompatible endpoint")));
}

#[test]
fn doctor_reports_the_configuration() {
    let cfg = sample_config(Provider::OpenAiCompatible, "https://api.openai.com/v1", "", "  ");
    assert_eq!(
        doctor_config_lines(&cfg),
        strings(&[
            "config: not ready (missing ai.commit.apiKey, ai.commit.model)",
            "provider: openai-compatible",
            "transport: openai-compatible",
            "api base: https://api.openai.com/v1",
            "model: (unset)",
            "model context tokens: (unset)",
            "auth: missing bearer token",
        ])
    );
    assert_eq!(doctor_config_lines(&cfg)[0], "config: not ready (missing ai.commit.apiKey, ai.commit.model)");
    let ready = sample_config(Provider::Ollama, "http://localhost:11434", "", "llama3.2");
    assert_eq!(doctor_config_lines(&ready)[0], "config: ready");
    assert_eq!(doctor_config_error_line("bad"), "config: not ready (bad)");
    assert_eq!(context_detection_line(Ok(Some(131072))), "model context tokens (auto): 131072");
    assert_eq!(context_detection_line(Ok(None)), "model context tokens (auto): unavailable");
    assert_eq!(
        context_detection_line(Err("timeout".to_string())),
        "model context tokens (auto): lookup failed (timeout)"
    );
    assert_eq!(repo_line(Ok("/work/repo\n".to_string())), "repo: /work/repo");
    assert_eq!(repo_line(Err("not a git repository".to_string())), "repo: not detected (not a git repository)");
    assert_eq!(doctor_args_error(&strings(&["x"])), Some("doctor does not accept arguments".to_string()));
    assert_eq!(doctor_args_error(&[]), None);
}

#[test]
fn commit_flow_hands_over_to_plain_git_commit() {
    let (flow, action) = CommitFlow::start(&strings(&["-m", "msg"]), true);
    assert!(flow.is_none());
    assert_eq!(
        action,
        CommitAction::PlainCommit { args: strings(&["commit", "-m", "msg"]), notice: None }
    );
    let (flow, action) = CommitFlow::start(&strings(&["--edit"]), true);
    assert!(flow.is_none());
    assert_eq!(action, CommitAction::Fail("unknown git-ai-commit flag: --edit".to_string()));

    let (flow, action) = CommitFlow::start(&strings(&["-s", "--no-confirm"]), true);
    assert_eq!(action, CommitAction::LoadConfig);
    let mut flow = flow.expect("flow");
    assert_eq!(
        flow.config_loaded(Err("missing ai.commit.model".to_string())),
        CommitAction::PlainCommit {
            args: strings(&["commit", "-s"]),
            notice: Some("git-ai-commit: falling back to plain git commit: missing ai.commit.model".to_string()),
        }
    );
    let settings = CommitSettings { confirm_commit: true, open_editor: false };
    assert_eq!(flow.config_loaded(Ok(settings)), CommitAction::CollectContext);
    assert_eq!(
        flow.context_collected(Ok(context_summary(" ", "\n", ""))),
        CommitAction::PlainCommit {
            args: strings(&["commit", "-s"]),
            notice: Some(
                "git-ai-commit: falling back to plain git commit: no staged changes available for AI prompt"
                    .to_string()
            ),
        }
    );
}

#[test]
fn commit_flow_generates_reviews_and_commits() {
    let (flow, _) = CommitFlow::start(&strings(&["-s", "--show-redactions"]), true);
    let mut flow = flow.expect("flow");
    flow.config_loaded(Ok(CommitSettings { confirm_commit: true, open_editor: false }));
    assert_eq!(
        flow.context_collected(Ok(context_summary(" a.rs | 1 +", "diff", "preview"))),
        CommitAction::Generate { show_redaction_preview: true, stream: StreamOutput::Stdout }
    );
    assert_eq!(
        flow.generated(Err("timeout".to_string())),
        CommitAction::Fail("git-ai-commit: failed to generate commit message: timeout".to_string())
    );
    assert_eq!(flow.generated(Ok(true)), CommitAction::Review { show_preview: false, confirm: true });
    assert_eq!(flow.reviewed(CommitConfirmation::Proceed), CommitAction::Commit { open_editor: false });
    assert_eq!(flow.reviewed(CommitConfirmation::Edit), CommitAction::Commit { open_editor: true });
    assert_eq!(flow.reviewed(CommitConfirmation::Cancel), CommitAction::Cancel);
    assert_eq!(
        flow.commit_args("/tmp/msg".to_string(), true),
        strings(&["commit", "-e", "-F", "/tmp/msg", "-s"])
    );
    let (quiet, _) = CommitFlow::start(&strings(&["--no-confirm"]), false);
    let mut quiet = quiet.expect("flow");
    quiet.config_loaded(Ok(CommitSettings { confirm_commit: true, open_editor: true }));
    assert_eq!(
        quiet.context_collected(Ok(context_summary("", "diff", "preview"))),
        CommitAction::Generate { show_redaction_preview: false, stream: StreamOutput::Silent }
    );
    assert_eq!(quiet.generated(Ok(false)), CommitAction::Review { show_preview: true, confirm: false });
    assert_eq!(quiet.reviewed(CommitConfirmation::Proceed), CommitAction::Commit { open_editor: true });
    assert_eq!(plain_commit_args(&[]), strings(&["commit"]));
}

fn attempt_error(message: &str, should_fallback: bool) -> ApiAttemptError {
    ApiAttemptError { message: message.to_string(), should_fallback }
}

#[test]
fn generation_falls_back_from_responses_to_chat() {
    let (mut flow, action) = GenerationFlow::start(ApiEndpointPreference::Auto, true);
    assert_eq!(
        action,
        GenerationAction::Attempt { step: GenerationStep::ResponsesStream, reset_renderer: false }
    );
    assert_eq!(
        flow.on_result(Err(attempt_error("stream failed: transport error", false))),
        GenerationAction::Attempt { step: GenerationStep::ResponsesPlain, reset_renderer: false }
    );
    assert_eq!(
        flow.on_result(Err(attempt_error("responses request failed with status 404", false))),
        GenerationAction::Attempt { step: GenerationStep::ChatStream, reset_renderer: true }
    );
    assert_eq!(
        flow.on_result(Ok("feat: x".to_string())),
        GenerationAction::Finish("feat: x".to_string())
    );
}

#[test]
fn generation_fails_without_fallback() {
    let (mut flow, _) = GenerationFlow::start(ApiEndpointPreference::ResponsesOnly, false);
    assert_eq!(
        flow.on_result(Err(attempt_error("unsupported", true))),
        GenerationAction::Fail("unsupported".to_string())
    );
    let (mut flow, action) = GenerationFlow::start(ApiEndpointPreference::Auto, true);
    assert!(matches!(action, GenerationAction::Attempt { .. }));
    assert_eq!(
        flow.on_result(Err(attempt_error("invalid api key", false))),
        GenerationAction::Fail("invalid api key".to_string())
    );
    let (mut chat, action) = GenerationFlow::start(ApiEndpointPreference::ChatCompletionsOnly, true);
    assert_eq!(
        action,
        GenerationAction::Attempt { step: GenerationStep::ChatStream, reset_renderer: false }
    );
    assert_eq!(
        chat.on_result(Err(attempt_error("EventStream error", false))),
        GenerationAction::Attempt { step: GenerationStep::ChatPlain, reset_renderer: false }
    );
    assert_eq!(
        chat.on_result(Err(attempt_error("boom", true))),
        GenerationAction::Fail("boom".to_string())
    );
}

#[test]
fn finishing_a_generation_checks_the_message() {
    let mut renderer = StreamRenderer::new(StreamOutput::Stdout, StreamPalette::Plain);
    renderer.push("feat: shown");
    let (message, metrics) =
        finish_generation(&mut renderer, "feat: shown".to_string(), 1234).expect("valid");
    assert_eq!(message, "feat: shown");
    assert_eq!(metrics.api_duration_ms, 1234);
    assert!(metrics.streamed_render_completed);
    let mut silent = StreamRenderer::new(StreamOutput::Silent, StreamPalette::Plain);
    assert_eq!(
        finish_generation(&mut silent, "  ".to_string(), 1).unwrap_err(),
        "model returned an empty message"
    );
}

#[test]
fn init_alias_leaves_other_aliases_alone() {
    assert_eq!(init_alias_action(None, false), AliasAction::Install);
    assert_eq!(init_alias_action(Some("  \n"), false), AliasAction::Install);
    assert_eq!(init_alias_action(Some("!git status"), false), AliasAction::KeepOther);
    assert_eq!(init_alias_action(Some("!git status"), true), AliasAction::Install);
    let current = format!("{CAI_ALIAS_VALUE}\n");
    assert_eq!(init_alias_action(Some(&current), true), AliasAction::AlreadySet);
    assert_eq!(
        AliasAction::KeepOther.notice(),
        Some("git-ai-commit: alias.cai already exists; use --force to replace it")
    );
    assert_eq!(AliasAction::Install.notice(), None);
}

#[test]
fn requests_carry_the_endpoint_headers() {
    assert_eq!(
        request_headers(TransportEndpoint::Responses, true),
        vec![
            ("content-type", "application/json"),
            ("accept-encoding", "identity"),
            ("accept", "text/event-stream"),
            ("OpenAI-Beta", "responses=v1"),
        ]
    );
    assert_eq!(
        request_headers(TransportEndpoint::ChatCompletions, false),
        vec![("content-type", "application/json"), ("accept-encoding", "identity")]
    );
}

#[test]
fn missing_settings_are_asked_for_only_interactively() {
    assert!(needs_interactive_setup("missing ai.commit.model", true));
    assert!(!needs_interactive_setup("missing ai.commit.model", false));
    assert!(!needs_interactive_setup("invalid ai.commit.provider value \"x\"", true));
}

#[test]
fn forwards_leading_flags_to_commit_mode() {
    let args = strings(&["--edit"]);
    assert_eq!(cli_route(&args), CliRoute::Commit);
    let (flow, action) = CommitFlow::start(&args, false);
    assert!(flow.is_none());
    match action {
        CommitAction::Fail(err) => assert!(err.contains("unknown git-ai-commit flag")),
        other => panic!("expected commit parse error, got {other:?}"),
    }
}

#[test]
fn command_lines_reach_their_part() {
    assert_eq!(cli_route(&[]), CliRoute::Commit);
    assert_eq!(cli_route(&strings(&["-V"])), CliRoute::Version);
    assert_eq!(cli_route(&strings(&["--help"])), CliRoute::Help);
    assert_eq!(cli_route(&strings(&["doctor"])), CliRoute::Subcommand);
    assert_eq!(cli_route(&strings(&["-s", "--version"])), CliRoute::Commit);
    assert_eq!(resolve_stream_output(true, true, false), StreamOutput::Stdout);
    assert_eq!(resolve_stream_output(true, false, true), StreamOutput::Silent);
    assert_eq!(resolve_stream_output(false, false, true), StreamOutput::Stdout);
}
