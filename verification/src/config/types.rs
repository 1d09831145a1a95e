//! The resolved configuration and the values it is resolved from.
use vstd::prelude::*;

use super::provider::{
    anthropic_path, host_is_one_of, is_anthropic_compatible_url, is_loopback_url,
    is_ollama_cloud_url, is_openrouter_url, loopback_base, Provider,
};
use crate::diff_sampling::budget::DiffBudgetConfig;
use crate::message::owned;
use crate::text::{chars_of, equals_str, lower_seq, trim, trim_bounds, trimmed_lower};

verus! {

/// How hard a reasoning model is asked to think.
#[derive(Clone, Copy, Debug, PartialEq, Eq, Structural)]
pub enum ReasoningEffort {
    Off,
    Low,
    Medium,
    High,
}

impl Default for ReasoningEffort {
    fn default() -> (r: ReasoningEffort)
        ensures
            r == ReasoningEffort::Off,
    {
        ReasoningEffort::Off
    }
}

/// The effort a configured value names, ignoring surrounding whitespace and ASCII
/// case.
pub open spec fn effort_named(raw: Seq<char>) -> Option<ReasoningEffort> {
    let w = lower_seq(trim(raw));
    if w == "none"@ {
        Some(ReasoningEffort::Off)
    } else if w == "low"@ {
        Some(ReasoningEffort::Low)
    } else if w == "medium"@ {
        Some(ReasoningEffort::Medium)
    } else if w == "high"@ {
        Some(ReasoningEffort::High)
    } else {
        None
    }
}

/// The value the API takes for an effort.
pub open spec fn effort_text(e: ReasoningEffort) -> Seq<char> {
    match e {
        ReasoningEffort::Off => "none"@,
        ReasoningEffort::Low => "low"@,
        ReasoningEffort::Medium => "medium"@,
        ReasoningEffort::High => "high"@,
    }
}

impl ReasoningEffort {
    /// The effort a configured value names.
    pub fn parse(raw: &str) -> (r: Option<ReasoningEffort>)
        ensures
            r == effort_named(raw@),
    {
        let w = trimmed_lower(raw);
        let w = w.as_slice();
        if equals_str(w, "none") {
            Some(ReasoningEffort::Off)
        } else if equals_str(w, "low") {
            Some(ReasoningEffort::Low)
        } else if equals_str(w, "medium") {
            Some(ReasoningEffort::Medium)
        } else if equals_str(w, "high") {
            Some(ReasoningEffort::High)
        } else {
            None
        }
    }

    /// The value the API takes for this effort.
    pub fn as_api_value(self) -> (r: &'static str)
        ensures
            r@ == effort_text(self),
    {
        match self {
            ReasoningEffort::Off => "none",
            ReasoningEffort::Low => "low",
            ReasoningEffort::Medium => "medium",
            ReasoningEffort::High => "high",
        }
    }
}

/// Which kinds of sensitive-looking values are redacted from the diff.
#[derive(Clone, Copy, Debug, PartialEq, Eq, Structural)]
pub struct RedactionRules {
    pub secret: bool,
    pub domain: bool,
    pub url: bool,
    pub email: bool,
    pub ip: bool,
    pub cidr: bool,
    pub phone: bool,
    pub person: bool,
    pub organization: bool,
}

/// The values one source (the environment, or `git config`) sets, as text.
#[derive(Clone, Debug)]
pub struct RawConfigValues {
    pub provider: Option<String>,
    pub api_base: Option<String>,
    pub api_key: Option<String>,
    pub model: Option<String>,
    pub confirm_commit: Option<String>,
    pub open_editor: Option<String>,
    pub enable_fallback: Option<String>,
    pub redact_secrets: Option<String>,
    pub redaction_secret: Option<String>,
    pub redaction_domain: Option<String>,
    pub redaction_url: Option<String>,
    pub redaction_email: Option<String>,
    pub redaction_ip: Option<String>,
    pub redaction_cidr: Option<String>,
    pub redaction_phone: Option<String>,
    pub redaction_person: Option<String>,
    pub redaction_organization: Option<String>,
    pub show_timing: Option<String>,
    pub use_env_proxy: Option<String>,
    pub timeout_sec: Option<String>,
    pub max_diff_tokens: Option<String>,
    pub model_context_tokens: Option<String>,
    pub reasoning_effort: Option<String>,
    pub suppress_diff_dirs: Option<String>,
}

/// The redaction switches a configuration file sets.
#[derive(Clone, Copy, Debug, PartialEq, Eq, Structural)]
pub struct FileRedactionRules {
    pub secret: Option<bool>,
    pub domain: Option<bool>,
    pub url: Option<bool>,
    pub email: Option<bool>,
    pub ip: Option<bool>,
    pub cidr: Option<bool>,
    pub phone: Option<bool>,
    pub person: Option<bool>,
    pub organization: Option<bool>,
}

/// The values a configuration file sets.
#[derive(Clone, Debug)]
pub struct FileConfig {
    pub provider: Option<String>,
    pub api_base: Option<String>,
    pub api_key: Option<String>,
    pub model: Option<String>,
    pub confirm_commit: Option<bool>,
    pub open_editor: Option<bool>,
    pub enable_fallback: Option<bool>,
    pub redact_secrets: Option<bool>,
    pub redaction_rules: Option<FileRedactionRules>,
    pub show_timing: Option<bool>,
    pub use_env_proxy: Option<bool>,
    pub timeout_sec: Option<usize>,
    pub max_diff_tokens: Option<usize>,
    pub model_context_tokens: Option<usize>,
    pub reasoning_effort: Option<String>,
    pub suppress_diff_dirs: Option<String>,
}

/// A resolved configuration.
#[derive(Clone, Debug)]
pub struct Config {
    pub provider: Provider,
    pub api_base: String,
    pub api_key: String,
    pub model: String,
    pub confirm_commit: bool,
    pub open_editor: bool,
    pub enable_fallback: bool,
    pub redact_secrets: bool,
    pub redaction_rules: RedactionRules,
    pub show_timing: bool,
    pub use_env_proxy: bool,
    pub timeout_secs: u64,
    pub max_diff_tokens: usize,
    pub max_diff_tokens_explicit: bool,
    pub model_context_tokens: Option<usize>,
    pub reasoning_effort: ReasoningEffort,
    pub suppress_diff_dirs: Vec<String>,
}

/// Whether the model's context size is looked up: for an OpenAI-compatible
/// OpenRouter base, unless the size is configured.
pub open spec fn detects_context(c: Config) -> bool {
    c.provider == Provider::OpenAiCompatible && c.model_context_tokens is None && host_is_one_of(
        c.api_base@,
        seq!["openrouter.ai"@, "api.openrouter.ai"@],
    )
}

/// Whether requests go to the Anthropic messages API: for the Anthropic provider, or
/// an OpenAI-compatible base whose path ends in `/anthropic`.
pub open spec fn anthropic_transport(provider: Provider, base: Seq<char>) -> bool {
    provider == Provider::AnthropicCompatible || (provider == Provider::OpenAiCompatible
        && anthropic_path(base))
}

/// Whether the provider needs a key: always, but for Ollama only its cloud service.
pub open spec fn provider_needs_key(provider: Provider, base: Seq<char>) -> bool {
    match provider {
        Provider::Ollama => host_is_one_of(base, seq!["ollama.com"@]),
        _ => true,
    }
}

/// How requests authenticate, as `doctor` reports it.
pub open spec fn auth_mode(provider: Provider, base: Seq<char>, key: Seq<char>) -> Seq<char> {
    let blank = trim(key).len() == 0;
    let local = loopback_base(base);
    let cloud = host_is_one_of(base, seq!["ollama.com"@]);
    if anthropic_transport(provider, base) {
        if blank {
            "missing x-api-key"@
        } else {
            "x-api-key"@
        }
    } else {
        match provider {
            Provider::OpenAiCompatible => if blank {
                "missing bearer token"@
            } else {
                "bearer token"@
            },
            Provider::AnthropicCompatible => "x-api-key"@,
            Provider::Ollama => if local && blank {
                "none (local ollama)"@
            } else if local {
                "bearer token configured (optional for local ollama)"@
            } else if cloud && blank {
                "missing bearer token (required for ollama cloud)"@
            } else if blank {
                "none"@
            } else {
                "bearer token"@
            },
        }
    }
}

fn is_blank(s: &str) -> (b: bool)
    ensures
        b == (trim(s@).len() == 0),
{
    let cs = chars_of(s);
    let (a, z) = trim_bounds(cs.as_slice(), 0, cs.len());
    assert(cs@.subrange(0, cs@.len() as int) =~= cs@);
    a == z
}

impl Config {
    /// Whether `provider` at `api_base` needs an API key.
    pub fn provider_requires_api_key(provider: Provider, api_base: &str) -> (b: bool)
        ensures
            b == provider_needs_key(provider, api_base@),
    {
        match provider {
            Provider::OpenAiCompatible => true,
            Provider::Ollama => is_ollama_cloud_url(api_base),
            Provider::AnthropicCompatible => true,
        }
    }

    /// Whether requests go to the Anthropic messages API.
    pub fn should_use_anthropic_transport(&self) -> (b: bool)
        ensures
            b == anthropic_transport(self.provider, self.api_base@),
    {
        self.provider == Provider::AnthropicCompatible || (self.provider
            == Provider::OpenAiCompatible && is_anthropic_compatible_url(self.api_base.as_str()))
    }

    /// Whether a key must be configured.
    pub fn requires_api_key(&self) -> (b: bool)
        ensures
            b == (anthropic_transport(self.provider, self.api_base@) || provider_needs_key(
                self.provider,
                self.api_base@,
            )),
    {
        self.should_use_anthropic_transport() || Self::provider_requires_api_key(
            self.provider,
            self.api_base.as_str(),
        )
    }

    /// Whether requests carry a bearer token: when a key is set.
    pub fn should_send_bearer_auth(&self) -> (b: bool)
        ensures
            b == (trim(self.api_key@).len() > 0),
    {
        !is_blank(self.api_key.as_str())
    }

    /// Whether this is an Ollama on this machine.
    pub fn is_local_ollama(&self) -> (b: bool)
        ensures
            b == (self.provider == Provider::Ollama && loopback_base(self.api_base@)),
    {
        self.provider == Provider::Ollama && is_loopback_url(self.api_base.as_str())
    }

    /// Whether this is Ollama's cloud service.
    pub fn is_ollama_cloud(&self) -> (b: bool)
        ensures
            b == (self.provider == Provider::Ollama && host_is_one_of(
                self.api_base@,
                seq!["ollama.com"@],
            )),
    {
        self.provider == Provider::Ollama && is_ollama_cloud_url(self.api_base.as_str())
    }

    /// Whether the model's context size is looked up: for OpenRouter, unless it is
    /// configured.
    pub fn should_auto_detect_model_context_tokens(&self) -> (b: bool)
        ensures
            b == detects_context(*self),
    {
        self.provider == Provider::OpenAiCompatible && self.model_context_tokens.is_none()
            && is_openrouter_url(self.api_base.as_str())
    }

    /// Whether the answer is streamed: everywhere but the Anthropic messages API.
    pub fn should_use_streaming_generation(&self) -> (b: bool)
        ensures
            b == !anthropic_transport(self.provider, self.api_base@),
    {
        !self.should_use_anthropic_transport()
    }

    /// How requests authenticate.
    pub fn auth_mode_description(&self) -> (r: String)
        ensures
            r@ == auth_mode(self.provider, self.api_base@, self.api_key@),
    {
        let blank = is_blank(self.api_key.as_str());
        if self.should_use_anthropic_transport() {
            return if blank {
                owned("missing x-api-key")
            } else {
                owned("x-api-key")
            };
        }
        match self.provider {
            Provider::OpenAiCompatible => if blank {
                owned("missing bearer token")
            } else {
                owned("bearer token")
            },
            Provider::AnthropicCompatible => owned("x-api-key"),
            Provider::Ollama => {
                let local = self.is_local_ollama();
                if local && blank {
                    owned("none (local ollama)")
                } else if local {
                    owned("bearer token configured (optional for local ollama)")
                } else if self.is_ollama_cloud() && blank {
                    owned("missing bearer token (required for ollama cloud)")
                } else if blank {
                    owned("none")
                } else {
                    owned("bearer token")
                }
            },
        }
    }

    /// The diff budget configured: tokens, with the model's context size if known.
    pub fn diff_budget(&self) -> (b: DiffBudgetConfig)
        ensures
            b == (DiffBudgetConfig::Tokens {
                max_tokens: self.max_diff_tokens,
                model_context_tokens: self.model_context_tokens,
            }),
    {
        DiffBudgetConfig::Tokens {
            max_tokens: self.max_diff_tokens,
            model_context_tokens: self.model_context_tokens,
        }
    }
}

} // verus!
