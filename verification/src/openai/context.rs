//! The model's context size: looked up in OpenRouter's model catalog when it is not
//! configured, and then used to raise the diff budget.
use vstd::prelude::*;

use crate::config::resolve::{config_view, ConfigView, DEFAULT_MAX_DIFF_TOKENS, MAX_AUTO_DIFF_TOKENS};
use crate::config::types::{detects_context, Config};
use crate::diff_sampling::suppress::copy_strings;
use crate::message::owned;
use crate::text::{chars_of, decimal, equals_str, push_decimal, push_str, string_of};

verus! {

/// The diff budget a context size suggests: a quarter of it, within the default
/// budget and the largest budget set this way.
pub open spec fn suggested_diff_tokens(context: nat) -> nat {
    let q = context / 4;
    if q < DEFAULT_MAX_DIFF_TOKENS {
        DEFAULT_MAX_DIFF_TOKENS as nat
    } else if q > MAX_AUTO_DIFF_TOKENS {
        MAX_AUTO_DIFF_TOKENS as nat
    } else {
        q
    }
}

/// A configuration with another diff budget.
pub open spec fn with_budget(v: ConfigView, tokens: nat) -> ConfigView {
    ConfigView { max_diff_tokens: tokens, ..v }
}

/// A configuration with a detected context size, and the budget it suggests unless
/// one is configured.
pub open spec fn with_context(v: ConfigView, context: nat) -> ConfigView {
    let c = ConfigView { model_context_tokens: Some(context), ..v };
    if v.max_diff_tokens_explicit {
        c
    } else {
        with_budget(c, suggested_diff_tokens(context))
    }
}

/// A copy of a configuration.
pub fn copy_config(cfg: &Config) -> (r: Config)
    ensures
        config_view(r) == config_view(*cfg),
{
    Config {
        provider: cfg.provider,
        api_base: owned(cfg.api_base.as_str()),
        api_key: owned(cfg.api_key.as_str()),
        model: owned(cfg.model.as_str()),
        confirm_commit: cfg.confirm_commit,
        open_editor: cfg.open_editor,
        enable_fallback: cfg.enable_fallback,
        redact_secrets: cfg.redact_secrets,
        redaction_rules: cfg.redaction_rules,
        show_timing: cfg.show_timing,
        use_env_proxy: cfg.use_env_proxy,
        timeout_secs: cfg.timeout_secs,
        max_diff_tokens: cfg.max_diff_tokens,
        max_diff_tokens_explicit: cfg.max_diff_tokens_explicit,
        model_context_tokens: cfg.model_context_tokens,
        reasoning_effort: cfg.reasoning_effort,
        suppress_diff_dirs: copy_strings(&cfg.suppress_diff_dirs),
    }
}

/// Raises (or lowers) the diff budget to what the context size suggests, unless the
/// budget is configured.
pub fn apply_auto_diff_token_limit(cfg: &mut Config, model_context_tokens: usize)
    ensures
        config_view(*final(cfg)) == if old(cfg).max_diff_tokens_explicit {
            config_view(*old(cfg))
        } else {
            with_budget(config_view(*old(cfg)), suggested_diff_tokens(model_context_tokens as nat))
        },
{
    if cfg.max_diff_tokens_explicit {
        return;
    }
    let q = model_context_tokens / 4;
    let suggested = if q < DEFAULT_MAX_DIFF_TOKENS {
        DEFAULT_MAX_DIFF_TOKENS
    } else if q > MAX_AUTO_DIFF_TOKENS {
        MAX_AUTO_DIFF_TOKENS
    } else {
        q
    };
    cfg.max_diff_tokens = suggested;
}

/// The configuration a run uses: when the context size is to be looked up and the
/// lookup found one, with that size and the budget it suggests; otherwise as it is.
pub fn resolve_model_context_config(cfg: &Config, detected: Option<usize>) -> (r: Config)
    ensures
        config_view(r) == match detected {
            Some(v) => if detects_context(*cfg) {
                with_context(config_view(*cfg), v as nat)
            } else {
                config_view(*cfg)
            },
            None => config_view(*cfg),
        },
{
    let mut resolved = copy_config(cfg);
    if !cfg.should_auto_detect_model_context_tokens() {
        return resolved;
    }
    match detected {
        Some(value) => {
            resolved.model_context_tokens = Some(value);
            apply_auto_diff_token_limit(&mut resolved, value);
            resolved
        },
        None => resolved,
    }
}

/// One model of a catalog: its id and the context sizes it lists.
#[derive(Clone, Debug)]
pub struct ModelCatalogEntry {
    pub id: String,
    pub context_length: Option<usize>,
    pub top_provider_context_length: Option<usize>,
}

/// A models catalog.
#[derive(Clone, Debug)]
pub struct ModelsCatalog {
    pub data: Vec<ModelCatalogEntry>,
}

/// The context size of the first entry for `model`: its top provider's, else its
/// own.
pub open spec fn catalog_context(entries: Seq<ModelCatalogEntry>, model: Seq<char>) -> Option<usize>
    decreases entries.len(),
{
    if entries.len() == 0 {
        None
    } else if entries[0].id@ == model {
        match entries[0].top_provider_context_length {
            Some(n) => Some(n),
            None => entries[0].context_length,
        }
    } else {
        catalog_context(entries.drop_first(), model)
    }
}

/// The context size a catalog lists for `model`, if it lists the model and a size.
pub fn catalog_context_tokens(catalog: &ModelsCatalog, model: &str) -> (r: Option<usize>)
    ensures
        r == catalog_context(catalog.data@, model@),
{
    let mut k: usize = 0;
    assert(catalog.data@.skip(0) =~= catalog.data@);
    while k < catalog.data.len()
        invariant
            k <= catalog.data@.len(),
            catalog_context(catalog.data@, model@) == catalog_context(
                catalog.data@.skip(k as int),
                model@,
            ),
        decreases catalog.data@.len() - k,
    {
        let entry = &catalog.data[k];
        assert(catalog.data@.skip(k as int)[0] == catalog.data@[k as int]);
        if equals_str(chars_of(entry.id.as_str()).as_slice(), model) {
            return match entry.top_provider_context_length {
                Some(n) => Some(n),
                None => entry.context_length,
            };
        }
        assert(catalog.data@.skip(k as int).drop_first() =~= catalog.data@.skip(k + 1));
        k = k + 1;
    }
    assert(catalog.data@.skip(k as int) =~= Seq::<ModelCatalogEntry>::empty());
    None
}

/// What a catalog lookup comes to: an error status fails, an answer that is no
/// catalog fails with the parser's error, otherwise the context size listed for the
/// model, if any.
pub open spec fn lookup_outcome(
    status_code: u16,
    parsed: Result<Seq<ModelCatalogEntry>, Seq<char>>,
    model: Seq<char>,
) -> Result<Option<usize>, Seq<char>> {
    if status_code >= 400 {
        Err("openrouter models lookup failed with status "@ + decimal(status_code as nat))
    } else {
        match parsed {
            Err(e) => Err("invalid OpenRouter models payload: "@ + e),
            Ok(entries) => Ok(catalog_context(entries, model)),
        }
    }
}

pub open spec fn parsed_view(parsed: Result<ModelsCatalog, String>) -> Result<
    Seq<ModelCatalogEntry>,
    Seq<char>,
> {
    match parsed {
        Ok(c) => Ok(c.data@),
        Err(e) => Err(e@),
    }
}

/// The context size an OpenRouter models answer gives for `model`, from its status
/// and the catalog read from its body (or the error of reading it).
pub fn models_lookup_outcome(
    status_code: u16,
    parsed: Result<ModelsCatalog, String>,
    model: &str,
) -> (r: Result<Option<usize>, String>)
    ensures
        match lookup_outcome(status_code, parsed_view(parsed), model@) {
            Ok(v) => r == Ok::<Option<usize>, String>(v),
            Err(e) => r matches Err(m) && m@ == e,
        },
{
    if status_code >= 400 {
        let mut out: Vec<char> = Vec::new();
        push_str(&mut out, "openrouter models lookup failed with status ");
        push_decimal(&mut out, status_code as usize);
        return Err(string_of(out));
    }
    match parsed {
        Err(e) => {
            let mut out: Vec<char> = Vec::new();
            push_str(&mut out, "invalid OpenRouter models payload: ");
            push_str(&mut out, e.as_str());
            Err(string_of(out))
        },
        Ok(catalog) => Ok(catalog_context_tokens(&catalog, model)),
    }
}

} // verus!
