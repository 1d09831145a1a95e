//! Resolving a configuration: the environment wins over `git config`, which wins
//! over the configuration file, which wins over the defaults.
use vstd::prelude::*;

use super::provider::{provider_named, Provider, DEFAULT_OLLAMA_API_BASE};
use super::types::{
    anthropic_transport, provider_needs_key, effort_named, Config, FileConfig, FileRedactionRules, RawConfigValues, ReasoningEffort,
    RedactionRules,
};
use super::values::{
    comma_list, git_bool, opt_text, parse_comma_list, parse_git_bool, parse_positive_usize,
    positive_count,
};
use crate::diff_parse::texts;
use crate::openai::endpoints::{api_base_parses, base_parses};
use crate::message::owned;
use crate::text::{chars_of, decimal, push_decimal, push_str, string_of, trim};

verus! {

/// Seconds a request may take unless configured.
pub const DEFAULT_TIMEOUT_SEC: u64 = 180;

/// The diff budget in tokens unless configured.
pub const DEFAULT_MAX_DIFF_TOKENS: usize = 32000;

/// The largest diff budget that is set from the model's context size.
pub const MAX_AUTO_DIFF_TOKENS: usize = 64000;

/// Everything a configuration is resolved from.
#[derive(Clone, Debug)]
pub struct ConfigSnapshot {
    pub env: RawConfigValues,
    pub git: RawConfigValues,
    pub file: Option<FileConfig>,
}

/// What `format!("{:?}", s)` writes for the text `s`.
pub uninterp spec fn debug_text(s: Seq<char>) -> Seq<char>;

/// Writes `s` with `Debug`, as `format!("{:?}", s)` does: quoted, with escapes. The
/// result is named `debug_text` of `s`; nothing more is claimed.
#[verifier::external_body]
fn debug_quoted(s: &str) -> (r: String)
    ensures
        r@ == debug_text(s@),
{
    format!("{:?}", s)
}

/// The error for a configured text that is no valid value of `key`.
pub open spec fn invalid_value(key: Seq<char>, raw: Seq<char>) -> Seq<char> {
    "invalid "@ + key + " value "@ + debug_text(raw)
}

/// The error for a number in the file that is no valid value of `key`.
pub open spec fn invalid_number(key: Seq<char>, v: nat) -> Seq<char> {
    "invalid "@ + key + " value "@ + decimal(v)
}

fn invalid_value_error(key: &str, raw: &str) -> (r: String)
    ensures
        r@ == invalid_value(key@, raw@),
{
    let mut out: Vec<char> = Vec::new();
    push_str(&mut out, "invalid ");
    push_str(&mut out, key);
    push_str(&mut out, " value ");
    push_str(&mut out, debug_quoted(raw).as_str());
    assert(out@ =~= invalid_value(key@, raw@));
    string_of(out)
}

fn invalid_number_error(key: &str, v: usize) -> (r: String)
    ensures
        r@ == invalid_number(key@, v as nat),
{
    let mut out: Vec<char> = Vec::new();
    push_str(&mut out, "invalid ");
    push_str(&mut out, key);
    push_str(&mut out, " value ");
    push_decimal(&mut out, v);
    assert(out@ =~= invalid_number(key@, v as nat));
    string_of(out)
}

pub open spec fn opt_ref_text(o: Option<&String>) -> Option<Seq<char>> {
    match o {
        Some(s) => Some(s@),
        None => None,
    }
}

/// The value from the environment, else from `git config`.
pub open spec fn chosen(env: Option<Seq<char>>, git: Option<Seq<char>>) -> Option<Seq<char>> {
    if env is Some {
        env
    } else {
        git
    }
}

fn chosen_ref<'a>(env: &'a Option<String>, git: &'a Option<String>) -> (r: Option<&'a String>)
    ensures
        opt_ref_text(r) == chosen(opt_text(*env), opt_text(*git)),
{
    match env {
        Some(v) => Some(v),
        None => match git {
            Some(v) => Some(v),
            None => None,
        },
    }
}

/// A text value: from the environment, `git config`, the file, or empty.
pub open spec fn text_setting(env: Option<Seq<char>>, git: Option<Seq<char>>, file: Option<Seq<char>>) -> Seq<
    char,
> {
    match chosen(env, git) {
        Some(v) => v,
        None => match file {
            Some(v) => v,
            None => Seq::empty(),
        },
    }
}

/// A text value: from the environment, `git config`, the file, or empty.
pub fn string_value(env: &Option<String>, git: &Option<String>, file: Option<&String>) -> (r: String)
    ensures
        r@ == text_setting(opt_text(*env), opt_text(*git), opt_ref_text(file)),
{
    match chosen_ref(env, git) {
        Some(v) => owned(v.as_str()),
        None => match file {
            Some(v) => owned(v.as_str()),
            None => string_of(Vec::new()),
        },
    }
}

/// A boolean: as git spells it from the environment or `git config` (an error if it
/// is none), else from the file, else `fallback`.
pub open spec fn bool_setting(
    key: Seq<char>,
    env: Option<Seq<char>>,
    git: Option<Seq<char>>,
    file: Option<bool>,
    fallback: bool,
) -> Result<bool, Seq<char>> {
    match chosen(env, git) {
        Some(raw) => match git_bool(raw) {
            Some(b) => Ok(b),
            None => Err(invalid_value(key, raw)),
        },
        None => Ok(
            match file {
                Some(b) => b,
                None => fallback,
            },
        ),
    }
}

pub open spec fn result_view<T>(r: Result<T, String>) -> Result<T, Seq<char>> {
    match r {
        Ok(v) => Ok(v),
        Err(e) => Err(e@),
    }
}

/// A boolean setting.
pub fn bool_value(
    config_key: &str,
    env: &Option<String>,
    git: &Option<String>,
    file: Option<bool>,
    fallback: bool,
) -> (r: Result<bool, String>)
    ensures
        result_view(r) == bool_setting(config_key@, opt_text(*env), opt_text(*git), file, fallback),
{
    match chosen_ref(env, git) {
        Some(raw) => match parse_git_bool(raw.as_str()) {
            Some(b) => Ok(b),
            None => Err(invalid_value_error(config_key, raw.as_str())),
        },
        None => Ok(
            match file {
                Some(b) => b,
                None => fallback,
            },
        ),
    }
}

/// A positive count: from the environment or `git config` (an error if it is none),
/// else from the file (an error if it is zero), else `fallback`.
pub open spec fn count_setting(
    key: Seq<char>,
    env: Option<Seq<char>>,
    git: Option<Seq<char>>,
    file: Option<usize>,
    fallback: usize,
) -> Result<Option<nat>, Seq<char>> {
    match chosen(env, git) {
        Some(raw) => match positive_count(raw) {
            Some(v) => Ok(Some(v)),
            None => Err(invalid_value(key, raw)),
        },
        None => match file {
            Some(v) => if v > 0 {
                Ok(Some(v as nat))
            } else {
                Err(invalid_number(key, v as nat))
            },
            None => Ok(None),
        },
    }
}

/// A positive count, `fallback` when nothing sets it.
pub fn int_value(
    config_key: &str,
    env: &Option<String>,
    git: &Option<String>,
    file: Option<usize>,
    fallback: usize,
) -> (r: Result<usize, String>)
    ensures
        match count_setting(config_key@, opt_text(*env), opt_text(*git), file, fallback) {
            Ok(Some(v)) => r == Ok::<usize, String>(v as usize) && v <= usize::MAX,
            Ok(None) => r == Ok::<usize, String>(fallback),
            Err(e) => r matches Err(m) && m@ == e,
        },
{
    match optional_int_value(config_key, env, git, file) {
        Ok(Some(v)) => Ok(v),
        Ok(None) => Ok(fallback),
        Err(e) => Err(e),
    }
}

/// A positive count, `None` when nothing sets it.
pub fn optional_int_value(
    config_key: &str,
    env: &Option<String>,
    git: &Option<String>,
    file: Option<usize>,
) -> (r: Result<Option<usize>, String>)
    ensures
        match count_setting(config_key@, opt_text(*env), opt_text(*git), file, 0) {
            Ok(Some(v)) => r == Ok::<Option<usize>, String>(Some(v as usize)) && v <= usize::MAX,
            Ok(None) => r == Ok::<Option<usize>, String>(None),
            Err(e) => r matches Err(m) && m@ == e,
        },
{
    match chosen_ref(env, git) {
        Some(raw) => match parse_positive_usize(raw.as_str()) {
            Some(v) => Ok(Some(v)),
            None => Err(invalid_value_error(config_key, raw.as_str())),
        },
        None => match file {
            Some(v) => if v > 0 {
                Ok(Some(v))
            } else {
                Err(invalid_number_error(config_key, v))
            },
            None => Ok(None),
        },
    }
}

/// A reasoning effort: from the environment, `git config` or the file (an error if
/// the first of these that is set names none), else `fallback`.
pub open spec fn effort_setting(
    key: Seq<char>,
    env: Option<Seq<char>>,
    git: Option<Seq<char>>,
    file: Option<Seq<char>>,
    fallback: ReasoningEffort,
) -> Result<ReasoningEffort, Seq<char>> {
    let raw = match chosen(env, git) {
        Some(v) => Some(v),
        None => file,
    };
    match raw {
        Some(raw) => match effort_named(raw) {
            Some(e) => Ok(e),
            None => Err(invalid_value(key, raw)),
        },
        None => Ok(fallback),
    }
}

/// A reasoning effort setting.
pub fn reasoning_effort_value(
    config_key: &str,
    env: &Option<String>,
    git: &Option<String>,
    file: Option<&String>,
    fallback: ReasoningEffort,
) -> (r: Result<ReasoningEffort, String>)
    ensures
        result_view(r) == effort_setting(
            config_key@,
            opt_text(*env),
            opt_text(*git),
            opt_ref_text(file),
            fallback,
        ),
{
    let raw = match chosen_ref(env, git) {
        Some(v) => Some(v),
        None => file,
    };
    match raw {
        Some(raw) => match ReasoningEffort::parse(raw.as_str()) {
            Some(e) => Ok(e),
            None => Err(invalid_value_error(config_key, raw.as_str())),
        },
        None => Ok(fallback),
    }
}

/// A list: the entries of the first of the environment, `git config` and the file
/// that sets it, else `fallback`.
pub open spec fn list_setting(
    env: Option<Seq<char>>,
    git: Option<Seq<char>>,
    file: Option<Seq<char>>,
    fallback: Seq<Seq<char>>,
) -> Seq<Seq<char>> {
    let raw = match chosen(env, git) {
        Some(v) => Some(v),
        None => file,
    };
    match raw {
        Some(raw) => comma_list(raw),
        None => fallback,
    }
}

/// A list setting.
pub fn list_value(
    env: &Option<String>,
    git: &Option<String>,
    file: Option<&String>,
    fallback: Vec<String>,
) -> (r: Vec<String>)
    ensures
        texts(r@) == list_setting(
            opt_text(*env),
            opt_text(*git),
            opt_ref_text(file),
            texts(fallback@),
        ),
{
    let raw = match chosen_ref(env, git) {
        Some(v) => Some(v),
        None => file,
    };
    match raw {
        Some(raw) => parse_comma_list(raw.as_str()),
        None => fallback,
    }
}

/// Whether any source sets a count.
pub fn has_configured_value(env: &Option<String>, git: &Option<String>, file: Option<usize>) -> (b:
    bool)
    ensures
        b == (env is Some || git is Some || file is Some),
{
    env.is_some() || git.is_some() || file.is_some()
}

/// The redaction switches of the file, if it has any.
pub open spec fn file_rules(file: Option<FileConfig>) -> Option<FileRedactionRules> {
    match file {
        Some(f) => f.redaction_rules,
        None => None,
    }
}

/// One redaction switch: as git spells it from the environment or `git config`, else
/// from the file's switches, else `fallback`.
pub fn redaction_rule_value(
    config_key: &str,
    env: &Option<String>,
    git: &Option<String>,
    file: Option<bool>,
    fallback: bool,
) -> (r: Result<bool, String>)
    ensures
        result_view(r) == bool_setting(config_key@, opt_text(*env), opt_text(*git), file, fallback),
{
    bool_value(config_key, env, git, file, fallback)
}

/// The switches on unless configured: all but `person`.
pub open spec fn default_rules() -> RedactionRules {
    RedactionRules {
        secret: true,
        domain: true,
        url: true,
        email: true,
        ip: true,
        cidr: true,
        phone: true,
        person: false,
        organization: true,
    }
}

/// The redaction switches on unless configured: all but `person`.
pub fn default_redaction_rules() -> (r: RedactionRules)
    ensures
        r == default_rules(),
{
    RedactionRules {
        secret: true,
        domain: true,
        url: true,
        email: true,
        ip: true,
        cidr: true,
        phone: true,
        person: false,
        organization: true,
    }
}

pub open spec fn file_rule(rules: Option<FileRedactionRules>, pick: spec_fn(FileRedactionRules) -> Option<bool>) -> Option<bool> {
    match rules {
        Some(r) => pick(r),
        None => None,
    }
}

/// The redaction switches, each resolved in turn; the first invalid one is the error.
pub open spec fn rules_setting(s: ConfigSnapshot) -> Result<RedactionRules, Seq<char>> {
    let d = default_rules();
    let fr = file_rules(s.file);
    let secret = bool_setting("ai.commit.redaction.secret"@, opt_text(s.env.redaction_secret), opt_text(s.git.redaction_secret), file_rule(fr, |r: FileRedactionRules| r.secret), d.secret);
    let domain = bool_setting("ai.commit.redaction.domain"@, opt_text(s.env.redaction_domain), opt_text(s.git.redaction_domain), file_rule(fr, |r: FileRedactionRules| r.domain), d.domain);
    let url = bool_setting("ai.commit.redaction.url"@, opt_text(s.env.redaction_url), opt_text(s.git.redaction_url), file_rule(fr, |r: FileRedactionRules| r.url), d.url);
    let email = bool_setting("ai.commit.redaction.email"@, opt_text(s.env.redaction_email), opt_text(s.git.redaction_email), file_rule(fr, |r: FileRedactionRules| r.email), d.email);
    let ip = bool_setting("ai.commit.redaction.ip"@, opt_text(s.env.redaction_ip), opt_text(s.git.redaction_ip), file_rule(fr, |r: FileRedactionRules| r.ip), d.ip);
    let cidr = bool_setting("ai.commit.redaction.cidr"@, opt_text(s.env.redaction_cidr), opt_text(s.git.redaction_cidr), file_rule(fr, |r: FileRedactionRules| r.cidr), d.cidr);
    let phone = bool_setting("ai.commit.redaction.phone"@, opt_text(s.env.redaction_phone), opt_text(s.git.redaction_phone), file_rule(fr, |r: FileRedactionRules| r.phone), d.phone);
    let person = bool_setting("ai.commit.redaction.person"@, opt_text(s.env.redaction_person), opt_text(s.git.redaction_person), file_rule(fr, |r: FileRedactionRules| r.person), d.person);
    let organization = bool_setting("ai.commit.redaction.organization"@, opt_text(s.env.redaction_organization), opt_text(s.git.redaction_organization), file_rule(fr, |r: FileRedactionRules| r.organization), d.organization);
    if secret is Err {
        Err(secret->Err_0)
    } else if domain is Err {
        Err(domain->Err_0)
    } else if url is Err {
        Err(url->Err_0)
    } else if email is Err {
        Err(email->Err_0)
    } else if ip is Err {
        Err(ip->Err_0)
    } else if cidr is Err {
        Err(cidr->Err_0)
    } else if phone is Err {
        Err(phone->Err_0)
    } else if person is Err {
        Err(person->Err_0)
    } else if organization is Err {
        Err(organization->Err_0)
    } else {
        Ok(
            RedactionRules {
                secret: secret->Ok_0,
                domain: domain->Ok_0,
                url: url->Ok_0,
                email: email->Ok_0,
                ip: ip->Ok_0,
                cidr: cidr->Ok_0,
                phone: phone->Ok_0,
                person: person->Ok_0,
                organization: organization->Ok_0,
            },
        )
    }
}

/// The redaction switches, each resolved in turn; the first invalid one is the error.
pub fn redaction_rules(s: &ConfigSnapshot) -> (r: Result<RedactionRules, String>)
    ensures
        result_view(r) == rules_setting(*s),
{
    let d = default_redaction_rules();
    let fr: Option<FileRedactionRules> = match &s.file {
        Some(f) => f.redaction_rules,
        None => None,
    };
    let secret = match redaction_rule_value(
        "ai.commit.redaction.secret",
        &s.env.redaction_secret,
        &s.git.redaction_secret,
        match fr {
            Some(f) => f.secret,
            None => None,
        },
        d.secret,
    ) {
        Ok(b) => b,
        Err(e) => {
            return Err(e);
        },
    };
    let domain = match redaction_rule_value(
        "ai.commit.redaction.domain",
        &s.env.redaction_domain,
        &s.git.redaction_domain,
        match fr {
            Some(f) => f.domain,
            None => None,
        },
        d.domain,
    ) {
        Ok(b) => b,
        Err(e) => {
            return Err(e);
        },
    };
    let url = match redaction_rule_value(
        "ai.commit.redaction.url",
        &s.env.redaction_url,
        &s.git.redaction_url,
        match fr {
            Some(f) => f.url,
            None => None,
        },
        d.url,
    ) {
        Ok(b) => b,
        Err(e) => {
            return Err(e);
        },
    };
    let email = match redaction_rule_value(
        "ai.commit.redaction.email",
        &s.env.redaction_email,
        &s.git.redaction_email,
        match fr {
            Some(f) => f.email,
            None => None,
        },
        d.email,
    ) {
        Ok(b) => b,
        Err(e) => {
            return Err(e);
        },
    };
    let ip = match redaction_rule_value(
        "ai.commit.redaction.ip",
        &s.env.redaction_ip,
        &s.git.redaction_ip,
        match fr {
            Some(f) => f.ip,
            None => None,
        },
        d.ip,
    ) {
        Ok(b) => b,
        Err(e) => {
            return Err(e);
        },
    };
    let cidr = match redaction_rule_value(
        "ai.commit.redaction.cidr",
        &s.env.redaction_cidr,
        &s.git.redaction_cidr,
        match fr {
            Some(f) => f.cidr,
            None => None,
        },
        d.cidr,
    ) {
        Ok(b) => b,
        Err(e) => {
            return Err(e);
        },
    };
    let phone = match redaction_rule_value(
        "ai.commit.redaction.phone",
        &s.env.redaction_phone,
        &s.git.redaction_phone,
        match fr {
            Some(f) => f.phone,
            None => None,
        },
        d.phone,
    ) {
        Ok(b) => b,
        Err(e) => {
            return Err(e);
        },
    };
    let person = match redaction_rule_value(
        "ai.commit.redaction.person",
        &s.env.redaction_person,
        &s.git.redaction_person,
        match fr {
            Some(f) => f.person,
            None => None,
        },
        d.person,
    ) {
        Ok(b) => b,
        Err(e) => {
            return Err(e);
        },
    };
    let organization = match redaction_rule_value(
        "ai.commit.redaction.organization",
        &s.env.redaction_organization,
        &s.git.redaction_organization,
        match fr {
            Some(f) => f.organization,
            None => None,
        },
        d.organization,
    ) {
        Ok(b) => b,
        Err(e) => {
            return Err(e);
        },
    };
    Ok(RedactionRules { secret, domain, url, email, ip, cidr, phone, person, organization })
}

pub open spec fn file_text(file: Option<FileConfig>, pick: spec_fn(FileConfig) -> Option<String>) -> Option<Seq<char>> {
    match file {
        Some(f) => opt_text(pick(f)),
        None => None,
    }
}

pub open spec fn file_flag(file: Option<FileConfig>, pick: spec_fn(FileConfig) -> Option<bool>) -> Option<bool> {
    match file {
        Some(f) => pick(f),
        None => None,
    }
}

pub open spec fn file_count(file: Option<FileConfig>, pick: spec_fn(FileConfig) -> Option<usize>) -> Option<usize> {
    match file {
        Some(f) => pick(f),
        None => None,
    }
}

/// The provider: named by the environment, `git config` or the file (an error if the
/// first of these that is set names none), else OpenAI-compatible.
pub open spec fn provider_setting(s: ConfigSnapshot) -> Result<Provider, Seq<char>> {
    let raw = match chosen(opt_text(s.env.provider), opt_text(s.git.provider)) {
        Some(v) => Some(v),
        None => file_text(s.file, |f: FileConfig| f.provider),
    };
    match raw {
        Some(raw) => match provider_named(raw) {
            Some(p) => Ok(p),
            None => Err(invalid_value("ai.commit.provider"@, raw)),
        },
        None => Ok(Provider::OpenAiCompatible),
    }
}

/// The provider setting.
pub fn provider_value(s: &ConfigSnapshot) -> (r: Result<Provider, String>)
    ensures
        result_view(r) == provider_setting(*s),
{
    let raw = match chosen_ref(&s.env.provider, &s.git.provider) {
        Some(v) => Some(v),
        None => match &s.file {
            Some(f) => f.provider.as_ref(),
            None => None,
        },
    };
    match raw {
        Some(raw) => match Provider::parse(raw.as_str()) {
            Some(p) => Ok(p),
            None => Err(invalid_value_error("ai.commit.provider", raw.as_str())),
        },
        None => Ok(Provider::OpenAiCompatible),
    }
}

/// A resolved configuration as plain values.
pub struct ConfigView {
    pub provider: Provider,
    pub api_base: Seq<char>,
    pub api_key: Seq<char>,
    pub model: Seq<char>,
    pub confirm_commit: bool,
    pub open_editor: bool,
    pub enable_fallback: bool,
    pub redact_secrets: bool,
    pub redaction_rules: RedactionRules,
    pub show_timing: bool,
    pub use_env_proxy: bool,
    pub timeout_secs: nat,
    pub max_diff_tokens: nat,
    pub max_diff_tokens_explicit: bool,
    pub model_context_tokens: Option<nat>,
    pub reasoning_effort: ReasoningEffort,
    pub suppress_diff_dirs: Seq<Seq<char>>,
}

pub open spec fn config_view(c: Config) -> ConfigView {
    ConfigView {
        provider: c.provider,
        api_base: c.api_base@,
        api_key: c.api_key@,
        model: c.model@,
        confirm_commit: c.confirm_commit,
        open_editor: c.open_editor,
        enable_fallback: c.enable_fallback,
        redact_secrets: c.redact_secrets,
        redaction_rules: c.redaction_rules,
        show_timing: c.show_timing,
        use_env_proxy: c.use_env_proxy,
        timeout_secs: c.timeout_secs as nat,
        max_diff_tokens: c.max_diff_tokens as nat,
        max_diff_tokens_explicit: c.max_diff_tokens_explicit,
        model_context_tokens: match c.model_context_tokens {
            Some(v) => Some(v as nat),
            None => None,
        },
        reasoning_effort: c.reasoning_effort,
        suppress_diff_dirs: texts(c.suppress_diff_dirs@),
    }
}

/// The switches of a configuration.
#[derive(Clone, Copy)]
pub struct ConfigFlags {
    pub confirm_commit: bool,
    pub open_editor: bool,
    pub enable_fallback: bool,
    pub redact_secrets: bool,
    pub redaction_rules: RedactionRules,
    pub show_timing: bool,
    pub use_env_proxy: bool,
}

/// The switches, each resolved in turn; the first invalid one is the error.
pub open spec fn flags_setting(s: ConfigSnapshot) -> Result<ConfigFlags, Seq<char>> {
    let e = s.env;
    let g = s.git;
    let f = s.file;
    let confirm = bool_setting(
        "ai.commit.confirmCommit"@,
        opt_text(e.confirm_commit),
        opt_text(g.confirm_commit),
        file_flag(f, |c: FileConfig| c.confirm_commit),
        true,
    );
    let editor = bool_setting(
        "ai.commit.openEditor"@,
        opt_text(e.open_editor),
        opt_text(g.open_editor),
        file_flag(f, |c: FileConfig| c.open_editor),
        false,
    );
    let fallback = bool_setting(
        "ai.commit.enableFallback"@,
        opt_text(e.enable_fallback),
        opt_text(g.enable_fallback),
        file_flag(f, |c: FileConfig| c.enable_fallback),
        false,
    );
    let redact = bool_setting(
        "ai.commit.redactSecrets"@,
        opt_text(e.redact_secrets),
        opt_text(g.redact_secrets),
        file_flag(f, |c: FileConfig| c.redact_secrets),
        true,
    );
    let rules = rules_setting(s);
    let timing = bool_setting(
        "ai.commit.showTiming"@,
        opt_text(e.show_timing),
        opt_text(g.show_timing),
        file_flag(f, |c: FileConfig| c.show_timing),
        true,
    );
    let proxy = bool_setting(
        "ai.commit.useEnvProxy"@,
        opt_text(e.use_env_proxy),
        opt_text(g.use_env_proxy),
        file_flag(f, |c: FileConfig| c.use_env_proxy),
        false,
    );
    if confirm is Err {
        Err(confirm->Err_0)
    } else if editor is Err {
        Err(editor->Err_0)
    } else if fallback is Err {
        Err(fallback->Err_0)
    } else if redact is Err {
        Err(redact->Err_0)
    } else if rules is Err {
        Err(rules->Err_0)
    } else if timing is Err {
        Err(timing->Err_0)
    } else if proxy is Err {
        Err(proxy->Err_0)
    } else {
        Ok(
            ConfigFlags {
                confirm_commit: confirm->Ok_0,
                open_editor: editor->Ok_0,
                enable_fallback: fallback->Ok_0,
                redact_secrets: redact->Ok_0,
                redaction_rules: rules->Ok_0,
                show_timing: timing->Ok_0,
                use_env_proxy: proxy->Ok_0,
            },
        )
    }
}

fn flag_of(file: &Option<FileConfig>, k: u8) -> (r: Option<bool>)
    ensures
        r == match k {
            0 => file_flag(*file, |c: FileConfig| c.confirm_commit),
            1 => file_flag(*file, |c: FileConfig| c.open_editor),
            2 => file_flag(*file, |c: FileConfig| c.enable_fallback),
            3 => file_flag(*file, |c: FileConfig| c.redact_secrets),
            4 => file_flag(*file, |c: FileConfig| c.show_timing),
            _ => file_flag(*file, |c: FileConfig| c.use_env_proxy),
        },
{
    match file {
        Some(f) => match k {
            0 => f.confirm_commit,
            1 => f.open_editor,
            2 => f.enable_fallback,
            3 => f.redact_secrets,
            4 => f.show_timing,
            _ => f.use_env_proxy,
        },
        None => None,
    }
}

/// The switches of the configuration.
pub fn resolve_flags(s: &ConfigSnapshot) -> (r: Result<ConfigFlags, String>)
    ensures
        result_view(r) == flags_setting(*s),
{
    let confirm_commit = match bool_value(
        "ai.commit.confirmCommit",
        &s.env.confirm_commit,
        &s.git.confirm_commit,
        flag_of(&s.file, 0),
        true,
    ) {
        Ok(b) => b,
        Err(e) => {
            return Err(e);
        },
    };
    let open_editor = match bool_value(
        "ai.commit.openEditor",
        &s.env.open_editor,
        &s.git.open_editor,
        flag_of(&s.file, 1),
        false,
    ) {
        Ok(b) => b,
        Err(e) => {
            return Err(e);
        },
    };
    let enable_fallback = match bool_value(
        "ai.commit.enableFallback",
        &s.env.enable_fallback,
        &s.git.enable_fallback,
        flag_of(&s.file, 2),
        false,
    ) {
        Ok(b) => b,
        Err(e) => {
            return Err(e);
        },
    };
    let redact_secrets = match bool_value(
        "ai.commit.redactSecrets",
        &s.env.redact_secrets,
        &s.git.redact_secrets,
        flag_of(&s.file, 3),
        true,
    ) {
        Ok(b) => b,
        Err(e) => {
            return Err(e);
        },
    };
    let redaction_rules = match redaction_rules(s) {
        Ok(r) => r,
        Err(e) => {
            return Err(e);
        },
    };
    let show_timing = match bool_value(
        "ai.commit.showTiming",
        &s.env.show_timing,
        &s.git.show_timing,
        flag_of(&s.file, 4),
        true,
    ) {
        Ok(b) => b,
        Err(e) => {
            return Err(e);
        },
    };
    let use_env_proxy = match bool_value(
        "ai.commit.useEnvProxy",
        &s.env.use_env_proxy,
        &s.git.use_env_proxy,
        flag_of(&s.file, 5),
        false,
    ) {
        Ok(b) => b,
        Err(e) => {
            return Err(e);
        },
    };
    Ok(
        ConfigFlags {
            confirm_commit,
            open_editor,
            enable_fallback,
            redact_secrets,
            redaction_rules,
            show_timing,
            use_env_proxy,
        },
    )
}

/// The counts and the effort of a configuration.
#[derive(Clone, Copy)]
pub struct ConfigCounts {
    pub timeout_secs: usize,
    pub max_diff_tokens: usize,
    pub model_context_tokens: Option<usize>,
    pub reasoning_effort: ReasoningEffort,
}

/// A count that is set, or `fallback`.
pub open spec fn or_default(v: Option<nat>, fallback: nat) -> nat {
    match v {
        Some(v) => v,
        None => fallback,
    }
}

/// The counts and the effort, each resolved in turn; the first invalid one is the
/// error. Unset, the timeout is 180 seconds and the diff budget 32000 tokens.
pub open spec fn counts_setting(s: ConfigSnapshot) -> Result<(nat, nat, Option<nat>, ReasoningEffort), Seq<char>> {
    let e = s.env;
    let g = s.git;
    let f = s.file;
    let timeout = count_setting(
        "ai.commit.timeoutSec"@,
        opt_text(e.timeout_sec),
        opt_text(g.timeout_sec),
        file_count(f, |c: FileConfig| c.timeout_sec),
        0,
    );
    let tokens = count_setting(
        "ai.commit.maxDiffTokens"@,
        opt_text(e.max_diff_tokens),
        opt_text(g.max_diff_tokens),
        file_count(f, |c: FileConfig| c.max_diff_tokens),
        0,
    );
    let context = count_setting(
        "ai.commit.modelContextTokens"@,
        opt_text(e.model_context_tokens),
        opt_text(g.model_context_tokens),
        file_count(f, |c: FileConfig| c.model_context_tokens),
        0,
    );
    let effort = effort_setting(
        "ai.commit.reasoningEffort"@,
        opt_text(e.reasoning_effort),
        opt_text(g.reasoning_effort),
        file_text(f, |c: FileConfig| c.reasoning_effort),
        ReasoningEffort::Off,
    );
    if timeout is Err {
        Err(timeout->Err_0)
    } else if tokens is Err {
        Err(tokens->Err_0)
    } else if context is Err {
        Err(context->Err_0)
    } else if effort is Err {
        Err(effort->Err_0)
    } else {
        Ok(
            (
                or_default(timeout->Ok_0, DEFAULT_TIMEOUT_SEC as nat),
                or_default(tokens->Ok_0, DEFAULT_MAX_DIFF_TOKENS as nat),
                context->Ok_0,
                effort->Ok_0,
            ),
        )
    }
}

pub open spec fn counts_view(c: ConfigCounts) -> (nat, nat, Option<nat>, ReasoningEffort) {
    (
        c.timeout_secs as nat,
        c.max_diff_tokens as nat,
        match c.model_context_tokens {
            Some(v) => Some(v as nat),
            None => None,
        },
        c.reasoning_effort,
    )
}

/// The counts and the effort of the configuration.
pub fn resolve_counts(s: &ConfigSnapshot) -> (r: Result<ConfigCounts, String>)
    ensures
        match counts_setting(*s) {
            Ok(v) => r matches Ok(c) && counts_view(c) == v,
            Err(e) => r matches Err(m) && m@ == e,
        },
{
    let (file_timeout, file_tokens, file_context) = match &s.file {
        Some(f) => (f.timeout_sec, f.max_diff_tokens, f.model_context_tokens),
        None => (None, None, None),
    };
    let timeout_secs = match int_value(
        "ai.commit.timeoutSec",
        &s.env.timeout_sec,
        &s.git.timeout_sec,
        file_timeout,
        180,
    ) {
        Ok(v) => v,
        Err(e) => {
            return Err(e);
        },
    };
    let max_diff_tokens = match int_value(
        "ai.commit.maxDiffTokens",
        &s.env.max_diff_tokens,
        &s.git.max_diff_tokens,
        file_tokens,
        DEFAULT_MAX_DIFF_TOKENS,
    ) {
        Ok(v) => v,
        Err(e) => {
            return Err(e);
        },
    };
    let model_context_tokens = match optional_int_value(
        "ai.commit.modelContextTokens",
        &s.env.model_context_tokens,
        &s.git.model_context_tokens,
        file_context,
    ) {
        Ok(v) => v,
        Err(e) => {
            return Err(e);
        },
    };
    let reasoning_effort = match reasoning_effort_value(
        "ai.commit.reasoningEffort",
        &s.env.reasoning_effort,
        &s.git.reasoning_effort,
        file_string(&s.file, 3),
        ReasoningEffort::Off,
    ) {
        Ok(v) => v,
        Err(e) => {
            return Err(e);
        },
    };
    Ok(ConfigCounts { timeout_secs, max_diff_tokens, model_context_tokens, reasoning_effort })
}

fn file_string(file: &Option<FileConfig>, which: u8) -> (r: Option<&String>)
    ensures
        opt_ref_text(r) == match which {
            0 => file_text(*file, |c: FileConfig| c.api_base),
            1 => file_text(*file, |c: FileConfig| c.api_key),
            2 => file_text(*file, |c: FileConfig| c.model),
            3 => file_text(*file, |c: FileConfig| c.reasoning_effort),
            4 => file_text(*file, |c: FileConfig| c.suppress_diff_dirs),
            _ => file_text(*file, |c: FileConfig| c.provider),
        },
{
    match file {
        Some(f) => match which {
            0 => f.api_base.as_ref(),
            1 => f.api_key.as_ref(),
            2 => f.model.as_ref(),
            3 => f.reasoning_effort.as_ref(),
            4 => f.suppress_diff_dirs.as_ref(),
            _ => f.provider.as_ref(),
        },
        None => None,
    }
}

/// The error for an API base that is no URL.
pub open spec fn invalid_base(base: Seq<char>) -> Seq<char> {
    "invalid ai.commit.apiBase URL "@ + debug_text(base)
}

/// The API base: the first of the environment, `git config` and the file that sets
/// one; for an Ollama without one, the local default.
pub open spec fn base_setting(s: ConfigSnapshot, provider: Provider) -> Seq<char> {
    let base = text_setting(
        opt_text(s.env.api_base),
        opt_text(s.git.api_base),
        file_text(s.file, |c: FileConfig| c.api_base),
    );
    if provider == Provider::Ollama && base.len() == 0 {
        DEFAULT_OLLAMA_API_BASE@
    } else {
        base
    }
}

/// The configuration resolved from `s`: the provider, then the API base (refused when
/// it is set and no URL), then the switches, then the counts, the first invalid
/// setting being the error. An Ollama without an API base gets the local default;
/// the directories whose diff is suppressed are `.sqlx` unless configured.
pub open spec fn config_resolution(s: ConfigSnapshot) -> Result<ConfigView, Seq<char>> {
    let e = s.env;
    let g = s.git;
    let f = s.file;
    match provider_setting(s) {
        Err(err) => Err(err),
        Ok(provider) => {
            let api_base = base_setting(s, provider);
            if api_base.len() > 0 && !base_parses(api_base) {
                Err(invalid_base(api_base))
            } else {
                match flags_setting(s) {
                    Err(err) => Err(err),
                    Ok(flags) => match counts_setting(s) {
                        Err(err) => Err(err),
                        Ok((timeout, tokens, context, effort)) => Ok(
                            ConfigView {
                                provider,
                                api_base,
                                api_key: text_setting(
                                    opt_text(e.api_key),
                                    opt_text(g.api_key),
                                    file_text(f, |c: FileConfig| c.api_key),
                                ),
                                model: text_setting(
                                    opt_text(e.model),
                                    opt_text(g.model),
                                    file_text(f, |c: FileConfig| c.model),
                                ),
                                confirm_commit: flags.confirm_commit,
                                open_editor: flags.open_editor,
                                enable_fallback: flags.enable_fallback,
                                redact_secrets: flags.redact_secrets,
                                redaction_rules: flags.redaction_rules,
                                show_timing: flags.show_timing,
                                use_env_proxy: flags.use_env_proxy,
                                timeout_secs: timeout,
                                max_diff_tokens: tokens,
                                max_diff_tokens_explicit: e.max_diff_tokens is Some
                                    || g.max_diff_tokens is Some || file_count(
                                    f,
                                    |c: FileConfig| c.max_diff_tokens,
                                ) is Some,
                                model_context_tokens: context,
                                reasoning_effort: effort,
                                suppress_diff_dirs: list_setting(
                                    opt_text(e.suppress_diff_dirs),
                                    opt_text(g.suppress_diff_dirs),
                                    file_text(f, |c: FileConfig| c.suppress_diff_dirs),
                                    seq![".sqlx"@],
                                ),
                            },
                        ),
                    },
                }
            }
        },
    }
}

/// The API base, as `base_setting` says, or the error for one that is no URL.
fn resolve_api_base(s: &ConfigSnapshot, provider: Provider) -> (r: Result<String, String>)
    ensures
        ({
            let b = base_setting(*s, provider);
            if b.len() > 0 && !base_parses(b) {
                r matches Err(m) && m@ == invalid_base(b)
            } else {
                r matches Ok(x) && x@ == b
            }
        }),
{
    let base = string_value(&s.env.api_base, &s.git.api_base, file_string(&s.file, 0));
    let api_base = if provider == Provider::Ollama && chars_of(base.as_str()).len() == 0 {
        owned(DEFAULT_OLLAMA_API_BASE)
    } else {
        base
    };
    if chars_of(api_base.as_str()).len() > 0 && !api_base_parses(api_base.as_str()) {
        let mut out: Vec<char> = Vec::new();
        push_str(&mut out, "invalid ai.commit.apiBase URL ");
        let quoted = debug_quoted(api_base.as_str());
        push_str(&mut out, quoted.as_str());
        return Err(string_of(out));
    }
    Ok(api_base)
}

/// Resolves the configuration from its sources, as `config_resolution` says.
pub fn resolve_config(s: &ConfigSnapshot) -> (r: Result<Config, String>)
    ensures
        match config_resolution(*s) {
            Ok(v) => r matches Ok(c) && config_view(c) == v,
            Err(e) => r matches Err(m) && m@ == e,
        },
{
    let provider = match provider_value(s) {
        Ok(p) => p,
        Err(e) => {
            return Err(e);
        },
    };
    let api_base = match resolve_api_base(s, provider) {
        Ok(b) => b,
        Err(e) => {
            return Err(e);
        },
    };
    let flags = match resolve_flags(s) {
        Ok(f) => f,
        Err(e) => {
            return Err(e);
        },
    };
    let counts = match resolve_counts(s) {
        Ok(c) => c,
        Err(e) => {
            return Err(e);
        },
    };
    let mut default_dirs: Vec<String> = Vec::new();
    default_dirs.push(owned(".sqlx"));
    assert(texts(default_dirs@) =~= seq![".sqlx"@]);
    let file_tokens = match &s.file {
        Some(f) => f.max_diff_tokens,
        None => None,
    };
    Ok(
        Config {
            provider,
            api_base,
            api_key: string_value(&s.env.api_key, &s.git.api_key, file_string(&s.file, 1)),
            model: string_value(&s.env.model, &s.git.model, file_string(&s.file, 2)),
            confirm_commit: flags.confirm_commit,
            open_editor: flags.open_editor,
            enable_fallback: flags.enable_fallback,
            redact_secrets: flags.redact_secrets,
            redaction_rules: flags.redaction_rules,
            show_timing: flags.show_timing,
            use_env_proxy: flags.use_env_proxy,
            timeout_secs: counts.timeout_secs as u64,
            max_diff_tokens: counts.max_diff_tokens,
            max_diff_tokens_explicit: has_configured_value(
                &s.env.max_diff_tokens,
                &s.git.max_diff_tokens,
                file_tokens,
            ),
            model_context_tokens: counts.model_context_tokens,
            reasoning_effort: counts.reasoning_effort,
            suppress_diff_dirs: list_value(
                &s.env.suppress_diff_dirs,
                &s.git.suppress_diff_dirs,
                file_string(&s.file, 4),
                default_dirs,
            ),
        },
    )
}

pub open spec fn str_texts(v: Seq<&str>) -> Seq<Seq<char>> {
    v.map_values(|s: &str| s@)
}

/// The keys a usable configuration lacks: the API base, the API key where one is
/// needed, the model (a blank value counts as missing).
pub open spec fn missing_keys(provider: Provider, base: Seq<char>, key: Seq<char>, model: Seq<char>) -> Seq<
    Seq<char>,
> {
    let needs_key = anthropic_transport(provider, base) || provider_needs_key(provider, base);
    (if trim(base).len() == 0 {
        seq!["ai.commit.apiBase"@]
    } else {
        Seq::empty()
    }) + (if needs_key && trim(key).len() == 0 {
        seq!["ai.commit.apiKey"@]
    } else {
        Seq::empty()
    }) + (if trim(model).len() == 0 {
        seq!["ai.commit.model"@]
    } else {
        Seq::empty()
    })
}

fn blank(s: &str) -> (b: bool)
    ensures
        b == (trim(s@).len() == 0),
{
    let cs = chars_of(s);
    let (a, z) = crate::text::trim_bounds(cs.as_slice(), 0, cs.len());
    assert(cs@.subrange(0, cs@.len() as int) =~= cs@);
    a == z
}

/// The keys `cfg` lacks to be usable.
pub fn missing_required_config_keys(cfg: &Config) -> (r: Vec<&'static str>)
    ensures
        str_texts(r@) == missing_keys(cfg.provider, cfg.api_base@, cfg.api_key@, cfg.model@),
{
    let mut missing: Vec<&'static str> = Vec::new();
    if blank(cfg.api_base.as_str()) {
        missing.push("ai.commit.apiBase");
    }
    if cfg.requires_api_key() && blank(cfg.api_key.as_str()) {
        missing.push("ai.commit.apiKey");
    }
    if blank(cfg.model.as_str()) {
        missing.push("ai.commit.model");
    }
    assert(str_texts(missing@) =~= missing_keys(cfg.provider, cfg.api_base@, cfg.api_key@, cfg.model@));
    missing
}

/// The pieces joined with `sep` between them.
pub open spec fn joined(pieces: Seq<Seq<char>>, sep: Seq<char>) -> Seq<char>
    decreases pieces.len(),
{
    if pieces.len() == 0 {
        Seq::empty()
    } else if pieces.len() == 1 {
        pieces[0]
    } else {
        joined(pieces.drop_last(), sep) + sep + pieces.last()
    }
}

/// `cfg` if it lacks no key, else the error that names the keys it lacks.
pub open spec fn completeness(provider: Provider, base: Seq<char>, key: Seq<char>, model: Seq<char>) -> Option<
    Seq<char>,
> {
    let missing = missing_keys(provider, base, key, model);
    if missing.len() == 0 {
        None
    } else {
        Some("missing "@ + joined(missing, ", "@))
    }
}

/// `cfg` if it is usable, else the error naming the keys it lacks.
pub fn require_complete_config(cfg: Config) -> (r: Result<Config, String>)
    ensures
        match completeness(cfg.provider, cfg.api_base@, cfg.api_key@, cfg.model@) {
            None => r matches Ok(c) && c == cfg,
            Some(e) => r matches Err(m) && m@ == e,
        },
{
    let missing = missing_required_config_keys(&cfg);
    if missing.len() == 0 {
        return Ok(cfg);
    }
    let ghost keys = str_texts(missing@);
    let mut out: Vec<char> = Vec::new();
    push_str(&mut out, "missing ");
    let ghost head = out@;
    let mut k: usize = 0;
    while k < missing.len()
        invariant
            k <= missing@.len(),
            missing@.len() > 0,
            keys == str_texts(missing@),
            k == 0 ==> out@ == head,
            k > 0 ==> out@ == head + joined(keys.take(k as int), ", "@),
        decreases missing@.len() - k,
    {
        if k > 0 {
            push_str(&mut out, ", ");
        }
        push_str(&mut out, missing[k]);
        assert(keys.take(k + 1).drop_last() =~= keys.take(k as int));
        if k == 0 {
            assert(joined(keys.take(1), ", "@) == keys[0]);
        }
        assert(out@ =~= head + joined(keys.take(k + 1), ", "@));
        k = k + 1;
    }
    assert(keys.take(k as int) =~= keys);
    Err(string_of(out))
}

} // verus!

verus! {

/// What a whole configuration resolves to: the error of resolving it, else the
/// error naming the keys it lacks, else the configuration.
pub open spec fn complete_resolution(s: ConfigSnapshot) -> Result<ConfigView, Seq<char>> {
    match config_resolution(s) {
        Err(e) => Err(e),
        Ok(v) => match completeness(v.provider, v.api_base, v.api_key, v.model) {
            None => Ok(v),
            Some(e) => Err(e),
        },
    }
}

/// Resolves the configuration from its sources and refuses one that lacks a key a
/// request needs.
pub fn load_config_from(s: &ConfigSnapshot) -> (r: Result<Config, String>)
    ensures
        match complete_resolution(*s) {
            Ok(v) => r matches Ok(c) && config_view(c) == v,
            Err(e) => r matches Err(m) && m@ == e,
        },
{
    match resolve_config(s) {
        Ok(cfg) => require_complete_config(cfg),
        Err(e) => Err(e),
    }
}

} // verus!
