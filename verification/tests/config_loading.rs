use git_ai_commit_core::config::git_values::ConfigValueMap;
use git_ai_commit_core::config::provider::{Provider, DEFAULT_OLLAMA_API_BASE};
use git_ai_commit_core::config::resolve::{load_config_from, resolve_config, ConfigSnapshot};
use git_ai_commit_core::config::sources::{load_env_values, load_git_values_with};
use git_ai_commit_core::config::types::{Config, FileConfig, FileRedactionRules, RawConfigValues};

/// The environment's `GIT_AI_COMMIT_*` variables, as the library reads them.
fn env_values(pairs: &[(&str, &str)]) -> RawConfigValues {
    let mut vars = ConfigValueMap::new();
    for (key, value) in pairs {
        vars.insert(key.to_string(), value.to_string());
    }
    load_env_values(&vars)
}

/// The values of a global git config file, as `git config --null --list` prints them.
fn git_values(pairs: &[(&str, &str)]) -> RawConfigValues {
    let mut out: Vec<u8> = Vec::new();
    for (key, value) in pairs {
        out.extend_from_slice(key.to_ascii_lowercase().as_bytes());
        out.push(b'\n');
        out.extend_from_slice(value.as_bytes());
        out.push(0);
    }
    load_git_values_with(Some(&out))
}

fn file_config() -> FileConfig {
    FileConfig {
        provider: None,
        api_base: None,
        api_key: None,
        model: None,
        confirm_commit: None,
        open_editor: None,
        enable_fallback: None,
        redact_secrets: None,
        redaction_rules: None,
        show_timing: None,
        use_env_proxy: None,
        timeout_sec: None,
        max_diff_tokens: None,
        model_context_tokens: None,
        reasoning_effort: None,
        suppress_diff_dirs: None,
    }
}

/// A file with the three required keys.
fn required_file() -> FileConfig {
    FileConfig {
        api_base: Some("https://example.com/v1".to_string()),
        api_key: Some("token".to_string()),
        model: Some("gpt-4.1-mini".to_string()),
        ..file_config()
    }
}

const REQUIRED_OPENAI_ENV: [(&str, &str); 3] = [
    ("GIT_AI_COMMIT_API_BASE", "https://example.com/v1"),
    ("GIT_AI_COMMIT_API_KEY", "token"),
    ("GIT_AI_COMMIT_MODEL", "gpt-4.1-mini"),
];

const REQUIRED_GIT: [(&str, &str); 3] = [
    ("ai.commit.apiBase", "https://example.com/v1"),
    ("ai.commit.apiKey", "token"),
    ("ai.commit.model", "gpt-4.1-mini"),
];

fn with_required_env(extra: &[(&str, &str)]) -> RawConfigValues {
    let mut pairs: Vec<(&str, &str)> = REQUIRED_OPENAI_ENV.to_vec();
    pairs.extend_from_slice(extra);
    env_values(&pairs)
}

fn with_required_git(extra: &[(&str, &str)]) -> RawConfigValues {
    let mut pairs: Vec<(&str, &str)> = REQUIRED_GIT.to_vec();
    pairs.extend_from_slice(extra);
    git_values(&pairs)
}

fn load(env: RawConfigValues, git: RawConfigValues, file: Option<FileConfig>) -> Result<Config, String> {
    load_config_from(&ConfigSnapshot { env, git, file })
}

fn load_partial(env: RawConfigValues, git: RawConfigValues, file: Option<FileConfig>) -> Result<Config, String> {
    resolve_config(&ConfigSnapshot { env, git, file })
}

#[test]
fn defaults_confirm_commit_to_true_and_open_editor_to_false() {
    let cfg = load(env_values(&REQUIRED_OPENAI_ENV), git_values(&[]), None).expect("expected config");
    assert!(cfg.confirm_commit);
    assert!(!cfg.open_editor);
    assert!(!cfg.enable_fallback);
    assert_eq!(cfg.max_diff_tokens, 32_000);
    assert_eq!(cfg.model_context_tokens, None);
    assert_eq!(cfg.reasoning_effort.as_api_value(), "none");
    assert!(cfg.redaction_rules.domain);
    assert!(!cfg.redaction_rules.person);
    assert_eq!(cfg.suppress_diff_dirs, vec![".sqlx".to_string()]);
}

#[test]
fn reads_suppress_diff_dirs_from_git_config() {
    let git = with_required_git(&[("ai.commit.suppressDiffDirs", ".sqlx, dist/,target/generated")]);
    let cfg = load(env_values(&[]), git, None).expect("expected config");
    assert_eq!(
        cfg.suppress_diff_dirs,
        vec![".sqlx", "dist", "target/generated"]
            .into_iter()
            .map(str::to_string)
            .collect::<Vec<_>>()
    );
}

#[test]
fn reads_suppress_diff_dirs_from_config_file() {
    let file = FileConfig {
        suppress_diff_dirs: Some(" .sqlx , build/out ".to_string()),
        ..required_file()
    };
    let cfg = load(env_values(&[]), git_values(&[]), Some(file)).expect("expected config");
    assert_eq!(
        cfg.suppress_diff_dirs,
        vec![".sqlx", "build/out"].into_iter().map(str::to_string).collect::<Vec<_>>()
    );
}

#[test]
fn env_overrides_git_for_suppress_diff_dirs() {
    let git = with_required_git(&[("ai.commit.suppressDiffDirs", ".sqlx")]);
    let env = env_values(&[("GIT_AI_COMMIT_SUPPRESS_DIFF_DIRS", "generated,out")]);
    let cfg = load(env, git, None).expect("expected config");
    assert_eq!(
        cfg.suppress_diff_dirs,
        vec!["generated", "out"].into_iter().map(str::to_string).collect::<Vec<_>>()
    );
}

#[test]
fn empty_env_value_disables_suppress_diff_dirs() {
    let env = with_required_env(&[("GIT_AI_COMMIT_SUPPRESS_DIFF_DIRS", "")]);
    let cfg = load(env, git_values(&[]), None).expect("expected config");
    assert!(cfg.suppress_diff_dirs.is_empty());
}

#[test]
fn empty_git_config_value_disables_suppress_diff_dirs() {
    let git = with_required_git(&[("ai.commit.suppressDiffDirs", "")]);
    let cfg = load(env_values(&[]), git, None).expect("expected config");
    assert!(cfg.suppress_diff_dirs.is_empty());
}

#[test]
fn reads_token_budget_from_config_file() {
    let file = FileConfig {
        max_diff_tokens: Some(4096),
        model_context_tokens: Some(8192),
        ..required_file()
    };
    let cfg = load(env_values(&[]), git_values(&[]), Some(file)).expect("expected config");
    assert_eq!(cfg.max_diff_tokens, 4096);
    assert_eq!(cfg.model_context_tokens, Some(8192));
}

#[test]
fn reads_reasoning_effort_from_config_file() {
    let file = FileConfig { reasoning_effort: Some("high".to_string()), ..required_file() };
    let cfg = load(env_values(&[]), git_values(&[]), Some(file)).expect("expected config");
    assert_eq!(cfg.reasoning_effort.as_api_value(), "high");
}

#[test]
fn reads_disabled_reasoning_effort_from_config_file() {
    let file = FileConfig { reasoning_effort: Some("none".to_string()), ..required_file() };
    let cfg = load(env_values(&[]), git_values(&[]), Some(file)).expect("expected config");
    assert_eq!(cfg.reasoning_effort.as_api_value(), "none");
}

#[test]
fn reads_reasoning_effort_from_git_config() {
    let git = with_required_git(&[("ai.commit.reasoningEffort", "medium")]);
    let cfg = load(env_values(&[]), git, None).expect("expected config");
    assert_eq!(cfg.reasoning_effort.as_api_value(), "medium");
}

#[test]
fn reads_open_editor_from_config_file_and_env_override() {
    let file = FileConfig {
        confirm_commit: Some(false),
        open_editor: Some(true),
        enable_fallback: Some(true),
        ..required_file()
    };
    let from_file =
        load(env_values(&[]), git_values(&[]), Some(file.clone())).expect("expected config from file");
    let env = env_values(&[
        ("GIT_AI_COMMIT_OPEN_EDITOR", "false"),
        ("GIT_AI_COMMIT_CONFIRM_COMMIT", "true"),
        ("GIT_AI_COMMIT_ENABLE_FALLBACK", "false"),
    ]);
    let from_env = load(env, git_values(&[]), Some(file)).expect("expected config from env");

    assert!(!from_file.confirm_commit);
    assert!(from_file.open_editor);
    assert!(from_file.enable_fallback);
    assert!(from_env.confirm_commit);
    assert!(!from_env.open_editor);
    assert!(!from_env.enable_fallback);
}

#[test]
fn accepts_git_style_boolean_values() {
    let env = with_required_env(&[
        ("GIT_AI_COMMIT_CONFIRM_COMMIT", "yes"),
        ("GIT_AI_COMMIT_OPEN_EDITOR", "yes"),
        ("GIT_AI_COMMIT_REDACT_SECRETS", "on"),
        ("GIT_AI_COMMIT_SHOW_TIMING", "1"),
        ("GIT_AI_COMMIT_USE_ENV_PROXY", "on"),
    ]);
    let cfg = load(env, git_values(&[]), None).expect("expected config");
    assert!(cfg.confirm_commit);
    assert!(cfg.open_editor);
    assert!(cfg.redact_secrets);
    assert!(cfg.show_timing);
    assert!(cfg.use_env_proxy);
}

#[test]
fn accepts_false_git_style_boolean_values_from_git_config() {
    let git = with_required_git(&[
        ("ai.commit.confirmCommit", "no"),
        ("ai.commit.openEditor", "no"),
        ("ai.commit.redactSecrets", "off"),
        ("ai.commit.showTiming", "0"),
        ("ai.commit.useEnvProxy", "off"),
    ]);
    let cfg = load(env_values(&[]), git, None).expect("expected config");
    assert!(!cfg.confirm_commit);
    assert!(!cfg.open_editor);
    assert!(!cfg.redact_secrets);
    assert!(!cfg.show_timing);
    assert!(!cfg.use_env_proxy);
}

#[test]
fn accepts_redaction_rule_booleans_from_env_and_git_config() {
    let env = with_required_env(&[("GIT_AI_COMMIT_REDACTION_PERSON", "false")]);
    let git = git_values(&[("ai.commit.redaction.domain", "off"), ("ai.commit.redaction.person", "on")]);
    let cfg = load(env, git, None).expect("expected config");
    assert!(!cfg.redaction_rules.domain);
    assert!(!cfg.redaction_rules.person);
}

#[test]
fn rejects_invalid_boolean_value() {
    let env = with_required_env(&[
        ("GIT_AI_COMMIT_CONFIRM_COMMIT", "maybe"),
        ("GIT_AI_COMMIT_OPEN_EDITOR", "maybe"),
    ]);
    let err = load(env, git_values(&[]), None).expect_err("expected invalid bool error");
    assert!(err.contains("invalid ai.commit.confirmCommit value"));
}

#[test]
fn rejects_invalid_redaction_rule_boolean_value() {
    let env = with_required_env(&[("GIT_AI_COMMIT_REDACTION_DOMAIN", "maybe")]);
    let err = load(env, git_values(&[]), None).expect_err("expected invalid bool error");
    assert!(err.contains("invalid ai.commit.redaction.domain value"));
}

#[test]
fn rejects_invalid_token_budget_values() {
    let file = FileConfig { max_diff_tokens: Some(0), ..required_file() };
    let err = load_partial(env_values(&[]), git_values(&[]), Some(file))
        .expect_err("expected invalid token budget");
    assert!(err.contains("invalid ai.commit.maxDiffTokens value"));
}

#[test]
fn reads_redact_secrets_from_file_config() {
    let file = FileConfig { redact_secrets: Some(false), ..required_file() };
    let cfg = load_partial(env_values(&[]), git_values(&[]), Some(file)).expect("expected config from file");
    assert!(!cfg.redact_secrets);
}

#[test]
fn reads_redaction_rules_from_file_config() {
    let rules = FileRedactionRules {
        secret: None,
        domain: Some(false),
        url: None,
        email: None,
        ip: None,
        cidr: None,
        phone: None,
        person: Some(true),
        organization: None,
    };
    let file = FileConfig { redaction_rules: Some(rules), ..required_file() };
    let cfg = load_partial(env_values(&[]), git_values(&[]), Some(file)).expect("expected config from file");
    assert!(!cfg.redaction_rules.domain);
    assert!(cfg.redaction_rules.person);
    assert!(cfg.redaction_rules.secret);
}

#[test]
fn preserves_env_git_file_precedence() {
    let file = FileConfig {
        api_base: Some("https://file.example.com/v1".to_string()),
        api_key: Some("file-token".to_string()),
        model: Some("file-model".to_string()),
        confirm_commit: Some(false),
        open_editor: Some(false),
        ..file_config()
    };
    let git = git_values(&[
        ("ai.commit.apiBase", "https://git.example.com/v1"),
        ("ai.commit.apiKey", "git-token"),
        ("ai.commit.model", "git-model"),
        ("ai.commit.confirmCommit", "no"),
        ("ai.commit.openEditor", "yes"),
        ("ai.commit.maxDiffTokens", "2000"),
        ("ai.commit.modelContextTokens", "4000"),
    ]);
    let env = env_values(&[
        ("GIT_AI_COMMIT_MODEL", "env-model"),
        ("GIT_AI_COMMIT_CONFIRM_COMMIT", "yes"),
        ("GIT_AI_COMMIT_MAX_DIFF_TOKENS", "3000"),
    ]);

    let cfg = load(env, git, Some(file)).expect("expected config");

    assert_eq!(cfg.api_base, "https://git.example.com/v1");
    assert_eq!(cfg.api_key, "git-token");
    assert_eq!(cfg.model, "env-model");
    assert!(cfg.confirm_commit);
    assert!(cfg.open_editor);
    assert_eq!(cfg.max_diff_tokens, 3000);
    assert_eq!(cfg.model_context_tokens, Some(4000));
}

#[test]
fn defaults_provider_to_openai_compatible() {
    let cfg = load(env_values(&REQUIRED_OPENAI_ENV), git_values(&[]), None).expect("expected config");
    assert_eq!(cfg.provider, Provider::OpenAiCompatible);
}

#[test]
fn reads_provider_with_normal_precedence() {
    let file = FileConfig {
        provider: Some("openai-compatible".to_string()),
        api_base: Some("https://file.example.com/v1".to_string()),
        api_key: Some("file-token".to_string()),
        model: Some("file-model".to_string()),
        ..file_config()
    };
    let git = git_values(&[("ai.commit.provider", "ollama"), ("ai.commit.model", "git-model")]);
    let env = env_values(&[
        ("GIT_AI_COMMIT_PROVIDER", "openai"),
        ("GIT_AI_COMMIT_API_BASE", "https://env.example.com/v1"),
        ("GIT_AI_COMMIT_API_KEY", "env-token"),
        ("GIT_AI_COMMIT_MODEL", "env-model"),
    ]);

    let cfg = load(env, git, Some(file)).expect("expected config");

    assert_eq!(cfg.provider, Provider::OpenAiCompatible);
    assert_eq!(cfg.model, "env-model");
}

#[test]
fn defaults_ollama_api_base_and_allows_missing_local_api_key() {
    let env = env_values(&[("GIT_AI_COMMIT_PROVIDER", "ollama"), ("GIT_AI_COMMIT_MODEL", "llama3.2")]);
    let cfg = load(env, git_values(&[]), None).expect("expected ollama config");
    assert_eq!(cfg.provider, Provider::Ollama);
    assert_eq!(cfg.api_base, DEFAULT_OLLAMA_API_BASE);
    assert_eq!(cfg.api_key, "");
    assert!(cfg.is_local_ollama());
}

#[test]
fn requires_api_key_for_ollama_cloud() {
    let env = env_values(&[
        ("GIT_AI_COMMIT_PROVIDER", "ollama"),
        ("GIT_AI_COMMIT_API_BASE", "https://ollama.com/v1"),
        ("GIT_AI_COMMIT_MODEL", "gpt-oss:20b"),
    ]);
    let err = load(env, git_values(&[]), None).expect_err("expected missing api key");
    assert!(err.contains("ai.commit.apiKey"));
}

#[test]
fn allows_missing_api_key_for_custom_remote_ollama() {
    let env = env_values(&[
        ("GIT_AI_COMMIT_PROVIDER", "ollama"),
        ("GIT_AI_COMMIT_API_BASE", "http://10.0.0.5:11434"),
        ("GIT_AI_COMMIT_MODEL", "llama3.2"),
    ]);
    let cfg = load(env, git_values(&[]), None).expect("expected remote ollama config");
    assert_eq!(cfg.api_key, "");
    assert!(!cfg.requires_api_key());
}

#[test]
fn rejects_invalid_provider_values() {
    let env = with_required_env(&[("GIT_AI_COMMIT_PROVIDER", "wat")]);
    let err = load_partial(env, git_values(&[]), None).expect_err("expected invalid provider");
    assert!(err.contains("invalid ai.commit.provider value"));
}

#[test]
fn auto_detects_context_only_for_openrouter_without_explicit_value() {
    let base: [(&str, &str); 4] = [
        ("GIT_AI_COMMIT_PROVIDER", "openai-compatible"),
        ("GIT_AI_COMMIT_API_BASE", "https://openrouter.ai/api/v1"),
        ("GIT_AI_COMMIT_API_KEY", "token"),
        ("GIT_AI_COMMIT_MODEL", "google/gemma-4-31b-it:free"),
    ];
    let cfg = load(env_values(&base), git_values(&[]), None).expect("expected config");
    assert!(cfg.should_auto_detect_model_context_tokens());

    let mut with_context = base.to_vec();
    with_context.push(("GIT_AI_COMMIT_MODEL_CONTEXT_TOKENS", "32768"));
    let cfg = load(env_values(&with_context), git_values(&[]), None)
        .expect("expected config with explicit context");
    assert!(!cfg.should_auto_detect_model_context_tokens());
}

#[test]
fn command_failure_returns_empty_git_config() {
    let values = load_git_values_with(None);
    assert_eq!(values.api_base, None);
    assert_eq!(values.model, None);
}

#[test]
fn blank_environment_values_count_as_unset() {
    let env = env_values(&[("GIT_AI_COMMIT_MODEL", "   "), ("GIT_AI_COMMIT_API_KEY", "  key  ")]);
    assert_eq!(env.model, None);
    assert_eq!(env.api_key.as_deref(), Some("key"));
    assert_eq!(env.provider, None);
}

#[test]
fn missing_keys_are_named_in_the_error() {
    let err = load(env_values(&[]), git_values(&[]), None).expect_err("expected missing keys");
    assert_eq!(err, "missing ai.commit.apiBase, ai.commit.apiKey, ai.commit.model");
}

#[test]
fn refuses_an_api_base_that_is_no_url() {
    let env = env_values(&[
        ("GIT_AI_COMMIT_API_BASE", "not a url"),
        ("GIT_AI_COMMIT_API_KEY", "token"),
        ("GIT_AI_COMMIT_MODEL", "gpt-4.1-mini"),
        ("GIT_AI_COMMIT_CONFIRM_COMMIT", "maybe"),
    ]);
    let snapshot = ConfigSnapshot { env, git: git_values(&[]), file: None };
    assert_eq!(
        resolve_config(&snapshot).unwrap_err(),
        "invalid ai.commit.apiBase URL \"not a url\""
    );
    let blank = ConfigSnapshot {
        env: env_values(&[("GIT_AI_COMMIT_MODEL", "gpt-4.1-mini")]),
        git: git_values(&[]),
        file: None,
    };
    assert_eq!(resolve_config(&blank).expect("partial config").api_base, "");
}
