//! Where the raw values come from: the `GIT_AI_COMMIT_*` environment variables and
//! the output of `git config --null --list`, and the whole configuration they make.
use vstd::prelude::*;

use super::git_values::{
    entry_value, get_trimmed, get_value, git_config_values, git_raw_values,
    parse_git_config_list, raw_values_from_map, trimmed_entry, ConfigValueMap,
};
use super::types::{Config, RawConfigValues};
use super::values::opt_text;

verus! {

/// A source that sets nothing.
pub open spec fn unset(r: RawConfigValues) -> bool {
    &&& r.provider is None
    &&& r.api_base is None
    &&& r.api_key is None
    &&& r.model is None
    &&& r.confirm_commit is None
    &&& r.open_editor is None
    &&& r.enable_fallback is None
    &&& r.redact_secrets is None
    &&& r.redaction_secret is None
    &&& r.redaction_domain is None
    &&& r.redaction_url is None
    &&& r.redaction_email is None
    &&& r.redaction_ip is None
    &&& r.redaction_cidr is None
    &&& r.redaction_phone is None
    &&& r.redaction_person is None
    &&& r.redaction_organization is None
    &&& r.show_timing is None
    &&& r.use_env_proxy is None
    &&& r.timeout_sec is None
    &&& r.max_diff_tokens is None
    &&& r.model_context_tokens is None
    &&& r.reasoning_effort is None
    &&& r.suppress_diff_dirs is None
}

impl RawConfigValues {
    /// The values of a source that sets nothing.
    pub fn unset() -> (r: RawConfigValues)
        ensures
            unset(r),
    {
        RawConfigValues {
            provider: None,
            api_base: None,
            api_key: None,
            model: None,
            confirm_commit: None,
            open_editor: None,
            enable_fallback: None,
            redact_secrets: None,
            redaction_secret: None,
            redaction_domain: None,
            redaction_url: None,
            redaction_email: None,
            redaction_ip: None,
            redaction_cidr: None,
            redaction_phone: None,
            redaction_person: None,
            redaction_organization: None,
            show_timing: None,
            use_env_proxy: None,
            timeout_sec: None,
            max_diff_tokens: None,
            model_context_tokens: None,
            reasoning_effort: None,
            suppress_diff_dirs: None,
        }
    }
}

/// `r` holds the `GIT_AI_COMMIT_*` values of the environment `m`: blank ones are
/// unset, except the list of directories whose diff is suppressed, which is only
/// trimmed (so that an empty value turns the suppression off).
pub open spec fn env_raw_values(r: RawConfigValues, m: Map<Seq<char>, Seq<char>>) -> bool {
    &&& opt_text(r.provider) == entry_value(m, "GIT_AI_COMMIT_PROVIDER"@)
    &&& opt_text(r.api_base) == entry_value(m, "GIT_AI_COMMIT_API_BASE"@)
    &&& opt_text(r.api_key) == entry_value(m, "GIT_AI_COMMIT_API_KEY"@)
    &&& opt_text(r.model) == entry_value(m, "GIT_AI_COMMIT_MODEL"@)
    &&& opt_text(r.confirm_commit) == entry_value(m, "GIT_AI_COMMIT_CONFIRM_COMMIT"@)
    &&& opt_text(r.open_editor) == entry_value(m, "GIT_AI_COMMIT_OPEN_EDITOR"@)
    &&& opt_text(r.enable_fallback) == entry_value(m, "GIT_AI_COMMIT_ENABLE_FALLBACK"@)
    &&& opt_text(r.redact_secrets) == entry_value(m, "GIT_AI_COMMIT_REDACT_SECRETS"@)
    &&& opt_text(r.redaction_secret) == entry_value(m, "GIT_AI_COMMIT_REDACTION_SECRET"@)
    &&& opt_text(r.redaction_domain) == entry_value(m, "GIT_AI_COMMIT_REDACTION_DOMAIN"@)
    &&& opt_text(r.redaction_url) == entry_value(m, "GIT_AI_COMMIT_REDACTION_URL"@)
    &&& opt_text(r.redaction_email) == entry_value(m, "GIT_AI_COMMIT_REDACTION_EMAIL"@)
    &&& opt_text(r.redaction_ip) == entry_value(m, "GIT_AI_COMMIT_REDACTION_IP"@)
    &&& opt_text(r.redaction_cidr) == entry_value(m, "GIT_AI_COMMIT_REDACTION_CIDR"@)
    &&& opt_text(r.redaction_phone) == entry_value(m, "GIT_AI_COMMIT_REDACTION_PHONE"@)
    &&& opt_text(r.redaction_person) == entry_value(m, "GIT_AI_COMMIT_REDACTION_PERSON"@)
    &&& opt_text(r.redaction_organization) == entry_value(m, "GIT_AI_COMMIT_REDACTION_ORGANIZATION"@)
    &&& opt_text(r.show_timing) == entry_value(m, "GIT_AI_COMMIT_SHOW_TIMING"@)
    &&& opt_text(r.use_env_proxy) == entry_value(m, "GIT_AI_COMMIT_USE_ENV_PROXY"@)
    &&& opt_text(r.timeout_sec) == entry_value(m, "GIT_AI_COMMIT_TIMEOUT_SEC"@)
    &&& opt_text(r.max_diff_tokens) == entry_value(m, "GIT_AI_COMMIT_MAX_DIFF_TOKENS"@)
    &&& opt_text(r.model_context_tokens) == entry_value(m, "GIT_AI_COMMIT_MODEL_CONTEXT_TOKENS"@)
    &&& opt_text(r.reasoning_effort) == entry_value(m, "GIT_AI_COMMIT_REASONING_EFFORT"@)
    &&& opt_text(r.suppress_diff_dirs) == trimmed_entry(m, "GIT_AI_COMMIT_SUPPRESS_DIFF_DIRS"@)
}

/// The `GIT_AI_COMMIT_*` values among the environment's variables: blank ones are
/// unset, except the list of directories whose diff is suppressed, which is only
/// trimmed (so that an empty value turns the suppression off).
pub fn load_env_values(vars: &ConfigValueMap) -> (r: RawConfigValues)
    requires
        vars.wf(),
    ensures
        env_raw_values(r, vars@),
{
    RawConfigValues {
        provider: get_value(vars, "GIT_AI_COMMIT_PROVIDER"),
        api_base: get_value(vars, "GIT_AI_COMMIT_API_BASE"),
        api_key: get_value(vars, "GIT_AI_COMMIT_API_KEY"),
        model: get_value(vars, "GIT_AI_COMMIT_MODEL"),
        confirm_commit: get_value(vars, "GIT_AI_COMMIT_CONFIRM_COMMIT"),
        open_editor: get_value(vars, "GIT_AI_COMMIT_OPEN_EDITOR"),
        enable_fallback: get_value(vars, "GIT_AI_COMMIT_ENABLE_FALLBACK"),
        redact_secrets: get_value(vars, "GIT_AI_COMMIT_REDACT_SECRETS"),
        redaction_secret: get_value(vars, "GIT_AI_COMMIT_REDACTION_SECRET"),
        redaction_domain: get_value(vars, "GIT_AI_COMMIT_REDACTION_DOMAIN"),
        redaction_url: get_value(vars, "GIT_AI_COMMIT_REDACTION_URL"),
        redaction_email: get_value(vars, "GIT_AI_COMMIT_REDACTION_EMAIL"),
        redaction_ip: get_value(vars, "GIT_AI_COMMIT_REDACTION_IP"),
        redaction_cidr: get_value(vars, "GIT_AI_COMMIT_REDACTION_CIDR"),
        redaction_phone: get_value(vars, "GIT_AI_COMMIT_REDACTION_PHONE"),
        redaction_person: get_value(vars, "GIT_AI_COMMIT_REDACTION_PERSON"),
        redaction_organization: get_value(vars, "GIT_AI_COMMIT_REDACTION_ORGANIZATION"),
        show_timing: get_value(vars, "GIT_AI_COMMIT_SHOW_TIMING"),
        use_env_proxy: get_value(vars, "GIT_AI_COMMIT_USE_ENV_PROXY"),
        timeout_sec: get_value(vars, "GIT_AI_COMMIT_TIMEOUT_SEC"),
        max_diff_tokens: get_value(vars, "GIT_AI_COMMIT_MAX_DIFF_TOKENS"),
        model_context_tokens: get_value(vars, "GIT_AI_COMMIT_MODEL_CONTEXT_TOKENS"),
        reasoning_effort: get_value(vars, "GIT_AI_COMMIT_REASONING_EFFORT"),
        suppress_diff_dirs: get_trimmed(vars, "GIT_AI_COMMIT_SUPPRESS_DIFF_DIRS"),
    }
}

/// The values `git config` sets, from what `git config --null --list` printed:
/// `None` when the command could not run or failed, and then nothing is set.
pub fn load_git_values_with(output: Option<&[u8]>) -> (r: RawConfigValues)
    ensures
        output is None ==> unset(r),
        output matches Some(bytes) ==> git_raw_values(r, git_config_values(bytes@)),
{
    match output {
        None => RawConfigValues::unset(),
        Some(bytes) => {
            let values = parse_git_config_list(bytes);
            raw_values_from_map(&values)
        },
    }
}

/// Whether an interactive session asks for the missing settings: when the
/// configuration lacks keys (its error starts with `missing `) and the session is
/// interactive.
pub fn needs_interactive_setup(error: &str, interactive: bool) -> (b: bool)
    ensures
        b == (interactive && error@.len() >= 8 && error@.take(8) == "missing "@),
{
    let cs = crate::text::chars_of(error);
    let starts = crate::text::starts_with_str(cs.as_slice(), "missing ");
    proof {
        reveal_strlit("missing ");
    }
    interactive && starts
}

/// How a configuration file is read, by its extension.
#[derive(Clone, Copy, Debug, PartialEq, Eq, Structural)]
pub enum ConfigFormat {
    Toml,
    Json,
    Jsonc,
}

/// The format a file extension names, or the error for a file of another type.
pub open spec fn format_of(extension: Option<Seq<char>>, path: Seq<char>) -> Result<ConfigFormat, Seq<char>> {
    match extension {
        Some(e) => if e == "toml"@ {
            Ok(ConfigFormat::Toml)
        } else if e == "json"@ {
            Ok(ConfigFormat::Json)
        } else if e == "jsonc"@ {
            Ok(ConfigFormat::Jsonc)
        } else {
            Err(unsupported_type(path))
        },
        None => Err(unsupported_type(path)),
    }
}

pub open spec fn unsupported_type(path: Seq<char>) -> Seq<char> {
    "config file type not supported for "@ + path + " (expected .toml, .json, or .jsonc)"@
}

/// The format of a configuration file with this extension (and path, for the
/// error).
pub fn config_format(extension: Option<&str>, path: &str) -> (r: Result<ConfigFormat, String>)
    ensures
        match format_of(
            match extension {
                Some(e) => Some(e@),
                None => None,
            },
            path@,
        ) {
            Ok(f) => r == Ok::<ConfigFormat, String>(f),
            Err(e) => r matches Err(m) && m@ == e,
        },
{
    match extension {
        Some(e) => {
            let cs = crate::text::chars_of(e);
            if crate::text::equals_str(cs.as_slice(), "toml") {
                return Ok(ConfigFormat::Toml);
            } else if crate::text::equals_str(cs.as_slice(), "json") {
                return Ok(ConfigFormat::Json);
            } else if crate::text::equals_str(cs.as_slice(), "jsonc") {
                return Ok(ConfigFormat::Jsonc);
            }
        },
        None => {},
    }
    let mut out: Vec<char> = Vec::new();
    crate::text::push_str(&mut out, "config file type not supported for ");
    crate::text::push_str(&mut out, path);
    crate::text::push_str(&mut out, " (expected .toml, .json, or .jsonc)");
    Err(crate::text::string_of(out))
}

/// The error for a configuration file that could not be read or parsed.
pub fn config_file_error(path: &str, err: &str) -> (r: String)
    ensures
        r@ == "failed to read config file "@ + path@ + ": "@ + err@,
{
    let mut out: Vec<char> = Vec::new();
    crate::text::push_str(&mut out, "failed to read config file ");
    crate::text::push_str(&mut out, path);
    crate::text::push_str(&mut out, ": ");
    crate::text::push_str(&mut out, err);
    crate::text::string_of(out)
}

/// The error for a configuration file that did not parse as its format says.
pub fn config_parse_error(format: ConfigFormat, path: &str, err: &str) -> (r: String)
    ensures
        r@ == "failed to parse "@ + match format {
            ConfigFormat::Toml => "TOML"@,
            ConfigFormat::Json => "JSON"@,
            ConfigFormat::Jsonc => "JSONC"@,
        } + " config "@ + path@ + ": "@ + err@,
{
    let mut out: Vec<char> = Vec::new();
    crate::text::push_str(&mut out, "failed to parse ");
    crate::text::push_str(
        &mut out,
        match format {
            ConfigFormat::Toml => "TOML",
            ConfigFormat::Json => "JSON",
            ConfigFormat::Jsonc => "JSONC",
        },
    );
    crate::text::push_str(&mut out, " config ");
    crate::text::push_str(&mut out, path);
    crate::text::push_str(&mut out, ": ");
    crate::text::push_str(&mut out, err);
    crate::text::string_of(out)
}

} // verus!
