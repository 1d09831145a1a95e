use git_ai_commit_core::config::git_values::{parse_git_config_list, raw_values_from_map};
use git_ai_commit_core::config::provider::{
    is_anthropic_compatible_url, is_loopback_url, is_ollama_cloud_url, is_openrouter_url, Provider,
    DEFAULT_OLLAMA_API_BASE,
};
use git_ai_commit_core::config::resolve::{
    missing_required_config_keys, require_complete_config, resolve_config, ConfigSnapshot,
};
use git_ai_commit_core::config::types::{FileConfig, RawConfigValues, ReasoningEffort};
use git_ai_commit_core::config::values::{
    parse_comma_list, parse_git_bool, parse_positive_usize, strip_jsonc_comments,
};

fn empty_raw() -> RawConfigValues {
    RawConfigValues {
        provider: None,
        api_base: None,
        api_key: None,
        model: None,
        confirm_commit: None,
        open_editor: None,
        enable_fallback: None,
        redact_secrets: None,
        redaction_secret: None,
        redaction_domain: None,
        redaction_url: None,
        redaction_email: None,
        redaction_ip: None,
        redaction_cidr: None,
        redaction_phone: None,
        redaction_person: None,
        redaction_organization: None,
        show_timing: None,
        use_env_proxy: None,
        timeout_sec: None,
        max_diff_tokens: None,
        model_context_tokens: None,
        reasoning_effort: None,
        suppress_diff_dirs: None,
    }
}

fn empty_file() -> FileConfig {
    FileConfig {
        provider: None,
        api_base: None,
        api_key: None,
        model: None,
        confirm_commit: None,
        open_editor: None,
        enable_fallback: None,
        redact_secrets: None,
        redaction_rules: None,
        show_timing: None,
        use_env_proxy: None,
        timeout_sec: None,
        max_diff_tokens: None,
        model_context_tokens: None,
        reasoning_effort: None,
        suppress_diff_dirs: None,
    }
}

fn snapshot(env: RawConfigValues, git: RawConfigValues, file: Option<FileConfig>) -> ConfigSnapshot {
    ConfigSnapshot { env, git, file }
}

#[test]
fn parses_null_records_case_insensitively_and_keeps_last_value() {
    let parsed = parse_git_config_list(
        b"AI.Commit.Model\nfirst\0ai.commit.model\nsecond\0ai.commit.apiKey\n\0",
    );
    let values = raw_values_from_map(&parsed);

    assert_eq!(values.model.as_deref(), Some("second"));
    assert_eq!(values.api_key, None);
}

#[test]
fn preserves_newlines_inside_values() {
    let parsed = parse_git_config_list(b"ai.commit.model\nline one\nline two\0");

    assert_eq!(
        parsed.get("ai.commit.model").map(String::as_str),
        Some("line one\nline two")
    );
}

#[test]
fn ignores_records_without_key_value_separator() {
    let parsed = parse_git_config_list(b"invalid\0ai.commit.model\nvalid\0");

    assert_eq!(parsed.len(), 1);
    assert_eq!(
        parsed.get("ai.commit.model").map(String::as_str),
        Some("valid")
    );
}

#[test]
fn git_style_booleans_parse_in_any_case() {
    for v in ["true", " YES ", "on", "1"] {
        assert_eq!(parse_git_bool(v), Some(true));
    }
    for v in ["false", "No", "OFF", "0"] {
        assert_eq!(parse_git_bool(v), Some(false));
    }
    assert_eq!(parse_git_bool("maybe"), None);
}

#[test]
fn positive_counts_reject_zero_signs_and_overflow() {
    assert_eq!(parse_positive_usize(" 3000 "), Some(3000));
    assert_eq!(parse_positive_usize("+7"), Some(7));
    assert_eq!(parse_positive_usize("0"), None);
    assert_eq!(parse_positive_usize("-1"), None);
    assert_eq!(parse_positive_usize("+"), None);
    assert_eq!(parse_positive_usize("12a"), None);
    assert_eq!(parse_positive_usize("99999999999999999999999"), None);
}

#[test]
fn comma_lists_trim_entries_and_trailing_slashes() {
    assert_eq!(
        parse_comma_list(".sqlx, dist/,target/generated"),
        vec![".sqlx", "dist", "target/generated"]
            .into_iter()
            .map(str::to_string)
            .collect::<Vec<_>>()
    );
    assert_eq!(
        parse_comma_list(" .sqlx , build/out "),
        vec![".sqlx".to_string(), "build/out".to_string()]
    );
    assert!(parse_comma_list("").is_empty());
    assert!(parse_comma_list(" , /").is_empty());
}

#[test]
fn jsonc_comments_are_blanked_keeping_layout() {
    let input = "{\n  // a comment\n  \"a\": \"x // not a comment\", /* b */ \"c\": 1\n}";
    let out = strip_jsonc_comments(input);
    assert_eq!(out.chars().count(), input.chars().count());
    assert_eq!(out.lines().count(), input.lines().count());
    assert!(!out.contains("// a comment"));
    assert!(!out.contains("/* b */"));
    assert!(out.contains("\"x // not a comment\""));
    let parsed: serde_json::Value = serde_json::from_str(&out).expect("valid json");
    assert_eq!(parsed["c"], 1);
}

#[test]
fn provider_values_round_trip() {
    for p in [Provider::OpenAiCompatible, Provider::Ollama, Provider::AnthropicCompatible] {
        assert_eq!(Provider::parse(p.as_config_value()), Some(p));
    }
    assert_eq!(Provider::parse(" OpenAI "), Some(Provider::OpenAiCompatible));
    assert_eq!(Provider::parse("anthropic"), Some(Provider::AnthropicCompatible));
    assert_eq!(Provider::parse("wat"), None);
}

#[test]
fn reasoning_effort_values_round_trip() {
    for e in [
        ReasoningEffort::Off,
        ReasoningEffort::Low,
        ReasoningEffort::Medium,
        ReasoningEffort::High,
    ] {
        assert_eq!(ReasoningEffort::parse(e.as_api_value()), Some(e));
    }
    assert_eq!(ReasoningEffort::parse("none"), Some(ReasoningEffort::Off));
    assert_eq!(ReasoningEffort::parse("extreme"), None);
}

#[test]
fn url_predicates_read_the_host_and_path() {
    assert!(is_loopback_url(DEFAULT_OLLAMA_API_BASE));
    assert!(is_loopback_url("http://127.0.0.1:11434"));
    assert!(is_loopback_url(" http://LOCALHOST/v1 "));
    assert!(!is_loopback_url("http://10.0.0.5:11434"));
    assert!(!is_loopback_url("not a url"));
    assert!(is_ollama_cloud_url("https://ollama.com/v1"));
    assert!(!is_ollama_cloud_url("https://example.com/v1"));
    assert!(is_openrouter_url("https://openrouter.ai/api/v1"));
    assert!(is_openrouter_url("https://api.openrouter.ai/v1"));
    assert!(!is_openrouter_url("https://openrouter.example.com"));
    assert!(is_anthropic_compatible_url("https://api.deepseek.com/anthropic"));
    assert!(is_anthropic_compatible_url("https://api.deepseek.com/Anthropic/"));
    assert!(!is_anthropic_compatible_url("https://api.openai.com/v1"));
}

#[test]
fn environment_wins_over_git_which_wins_over_file() {
    let mut env = empty_raw();
    env.model = Some("env-model".to_string());
    env.confirm_commit = Some("yes".to_string());
    env.max_diff_tokens = Some("3000".to_string());
    let mut git = empty_raw();
    git.api_base = Some("https://git.example.com/v1".to_string());
    git.api_key = Some("git-token".to_string());
    git.model = Some("git-model".to_string());
    git.confirm_commit = Some("no".to_string());
    git.open_editor = Some("yes".to_string());
    git.max_diff_tokens = Some("2000".to_string());
    git.model_context_tokens = Some("4000".to_string());
    let mut file = empty_file();
    file.api_base = Some("https://file.example.com/v1".to_string());
    file.api_key = Some("file-token".to_string());
    file.model = Some("file-model".to_string());
    file.confirm_commit = Some(false);
    file.open_editor = Some(false);

    let cfg = resolve_config(&snapshot(env, git, Some(file))).expect("config");
    assert_eq!(cfg.api_base, "https://git.example.com/v1");
    assert_eq!(cfg.api_key, "git-token");
    assert_eq!(cfg.model, "env-model");
    assert!(cfg.confirm_commit);
    assert!(cfg.open_editor);
    assert_eq!(cfg.max_diff_tokens, 3000);
    assert!(cfg.max_diff_tokens_explicit);
    assert_eq!(cfg.model_context_tokens, Some(4000));
}

#[test]
fn defaults_apply_when_nothing_is_set() {
    let mut env = empty_raw();
    env.api_base = Some("https://example.com/v1".to_string());
    env.api_key = Some("token".to_string());
    env.model = Some("gpt-4.1-mini".to_string());
    let cfg = resolve_config(&snapshot(env, empty_raw(), None)).expect("config");
    assert_eq!(cfg.provider, Provider::OpenAiCompatible);
    assert!(cfg.confirm_commit);
    assert!(!cfg.open_editor);
    assert!(!cfg.enable_fallback);
    assert!(cfg.redact_secrets);
    assert!(cfg.show_timing);
    assert!(!cfg.use_env_proxy);
    assert_eq!(cfg.timeout_secs, 180);
    assert_eq!(cfg.max_diff_tokens, 32_000);
    assert!(!cfg.max_diff_tokens_explicit);
    assert_eq!(cfg.model_context_tokens, None);
    assert_eq!(cfg.reasoning_effort.as_api_value(), "none");
    assert!(cfg.redaction_rules.domain);
    assert!(!cfg.redaction_rules.person);
    assert_eq!(cfg.suppress_diff_dirs, vec![".sqlx".to_string()]);
    assert!(missing_required_config_keys(&cfg).is_empty());
}

#[test]
fn invalid_values_are_reported_by_key() {
    let mut env = empty_raw();
    env.confirm_commit = Some("maybe".to_string());
    env.open_editor = Some("maybe".to_string());
    let err = resolve_config(&snapshot(env, empty_raw(), None)).unwrap_err();
    assert!(err.contains("invalid ai.commit.confirmCommit value"));

    let mut env = empty_raw();
    env.redaction_domain = Some("maybe".to_string());
    let err = resolve_config(&snapshot(env, empty_raw(), None)).unwrap_err();
    assert!(err.contains("invalid ai.commit.redaction.domain value"));

    let mut env = empty_raw();
    env.provider = Some("wat".to_string());
    let err = resolve_config(&snapshot(env, empty_raw(), None)).unwrap_err();
    assert_eq!(err, "invalid ai.commit.provider value \"wat\"");

    let mut file = empty_file();
    file.max_diff_tokens = Some(0);
    let err = resolve_config(&snapshot(empty_raw(), empty_raw(), Some(file))).unwrap_err();
    assert_eq!(err, "invalid ai.commit.maxDiffTokens value 0");
}

#[test]
fn ollama_gets_its_local_default_and_needs_no_key() {
    let mut env = empty_raw();
    env.provider = Some("ollama".to_string());
    env.model = Some("llama3.2".to_string());
    let cfg = resolve_config(&snapshot(env, empty_raw(), None)).expect("config");
    assert_eq!(cfg.provider, Provider::Ollama);
    assert_eq!(cfg.api_base, DEFAULT_OLLAMA_API_BASE);
    assert!(cfg.is_local_ollama());
    assert!(!cfg.requires_api_key());
    assert_eq!(cfg.auth_mode_description(), "none (local ollama)");
    assert!(require_complete_config(cfg).is_ok());
}

#[test]
fn ollama_cloud_requires_a_key() {
    let mut env = empty_raw();
    env.provider = Some("ollama".to_string());
    env.api_base = Some("https://ollama.com/v1".to_string());
    env.model = Some("gpt-oss:20b".to_string());
    let cfg = resolve_config(&snapshot(env, empty_raw(), None)).expect("config");
    assert!(cfg.requires_api_key());
    assert_eq!(
        cfg.auth_mode_description(),
        "missing bearer token (required for ollama cloud)"
    );
    let err = require_complete_config(cfg).unwrap_err();
    assert_eq!(err, "missing ai.commit.apiKey");
}

#[test]
fn missing_keys_are_listed_in_order() {
    let cfg = resolve_config(&snapshot(empty_raw(), empty_raw(), None)).expect("config");
    assert_eq!(
        missing_required_config_keys(&cfg),
        vec!["ai.commit.apiBase", "ai.commit.apiKey", "ai.commit.model"]
    );
    assert_eq!(
        require_complete_config(cfg).unwrap_err(),
        "missing ai.commit.apiBase, ai.commit.apiKey, ai.commit.model"
    );
}

#[test]
fn suppress_dirs_from_each_source() {
    let mut git = empty_raw();
    git.suppress_diff_dirs = Some(".sqlx, dist/,target/generated".to_string());
    let cfg = resolve_config(&snapshot(empty_raw(), git, None)).expect("config");
    assert_eq!(cfg.suppress_diff_dirs, vec![".sqlx", "dist", "target/generated"]);

    let mut env = empty_raw();
    env.suppress_diff_dirs = Some(String::new());
    let mut git = empty_raw();
    git.suppress_diff_dirs = Some(".sqlx".to_string());
    let cfg = resolve_config(&snapshot(env, git, None)).expect("config");
    assert!(cfg.suppress_diff_dirs.is_empty());
}

#[test]
fn openrouter_context_is_detected_only_without_explicit_value() {
    let mut env = empty_raw();
    env.api_base = Some("https://openrouter.ai/api/v1".to_string());
    env.api_key = Some("token".to_string());
    env.model = Some("m".to_string());
    let cfg = resolve_config(&snapshot(env.clone(), empty_raw(), None)).expect("config");
    assert!(cfg.should_auto_detect_model_context_tokens());
    env.model_context_tokens = Some("32768".to_string());
    let cfg = resolve_config(&snapshot(env, empty_raw(), None)).expect("config");
    assert!(!cfg.should_auto_detect_model_context_tokens());
}
