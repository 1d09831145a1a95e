//! The `doctor` report: how the configuration reads, and what an Ollama endpoint
//! answered.
use vstd::prelude::*;

use crate::config::provider::{host_is_one_of, Provider};
use crate::config::provider::provider_value_text;
use crate::config::resolve::{completeness, require_complete_config};
use crate::config::types::{anthropic_transport, auth_mode, Config};
use crate::openai::context::copy_config;
use crate::message::owned;
use crate::text::{chars_of, decimal, push_decimal, push_str, string_of, trim, trim_bounds};

verus! {

/// A value as the report shows it: `(unset)` when blank.
pub open spec fn shown_value(v: Seq<char>) -> Seq<char> {
    if trim(v).len() == 0 {
        "(unset)"@
    } else {
        v
    }
}

fn blank(s: &str) -> (b: bool)
    ensures
        b == (trim(s@).len() == 0),
{
    let cs = chars_of(s);
    let (a, z) = trim_bounds(cs.as_slice(), 0, cs.len());
    assert(cs@.subrange(0, cs@.len() as int) =~= cs@);
    a == z
}

/// A value as the report shows it.
pub fn display_doctor_value(value: &str) -> (r: &str)
    ensures
        r@ == shown_value(value@),
{
    if blank(value) {
        "(unset)"
    } else {
        value
    }
}

/// The model's context size as the report shows it.
pub fn display_model_context_tokens(cfg: &Config) -> (r: String)
    ensures
        r@ == match cfg.model_context_tokens {
            Some(v) => decimal(v as nat),
            None => "(unset)"@,
        },
{
    match cfg.model_context_tokens {
        Some(v) => {
            let mut out: Vec<char> = Vec::new();
            push_decimal(&mut out, v);
            string_of(out)
        },
        None => owned("(unset)"),
    }
}

/// The transport as the report names it.
pub open spec fn transport_name(provider: Provider, base: Seq<char>) -> Seq<char> {
    if anthropic_transport(provider, base) {
        if provider == Provider::AnthropicCompatible {
            "anthropic-compatible"@
        } else {
            "anthropic-compatible (auto)"@
        }
    } else {
        "openai-compatible"@
    }
}

/// The transport as the report names it.
pub fn transport_label(cfg: &Config) -> (r: &'static str)
    ensures
        r@ == transport_name(cfg.provider, cfg.api_base@),
{
    if cfg.should_use_anthropic_transport() {
        if cfg.provider == Provider::AnthropicCompatible {
            "anthropic-compatible"
        } else {
            "anthropic-compatible (auto)"
        }
    } else {
        "openai-compatible"
    }
}

/// One model an endpoint lists.
#[derive(Clone, Debug)]
pub struct ModelSummary {
    pub id: String,
}

/// The error an endpoint reports.
#[derive(Clone, Debug)]
pub struct DoctorProviderError {
    pub message: String,
}

/// What `/v1/models` answered.
#[derive(Clone, Debug)]
pub struct ModelsResponse {
    pub data: Vec<ModelSummary>,
    pub error: Option<DoctorProviderError>,
}

/// What probing an Ollama endpoint found.
#[derive(Clone, Copy, Debug, PartialEq, Eq)]
pub struct OllamaProbe {
    pub visible_model_count: usize,
    pub model_found: bool,
}

/// What a probe comes to: for an error status, an incompatible endpoint (404, 405,
/// 415, 501), the reported error if it is not blank, or the status; otherwise the
/// models listed and whether the configured one is among them, or an incompatible
/// endpoint if the answer did not parse.
pub open spec fn probe_outcome(status: u16, parsed: Result<ModelsResponse, String>, model: Seq<char>) -> Result<
    (nat, bool),
    Seq<char>,
> {
    if status >= 400 {
        if status == 404 || status == 405 || status == 415 || status == 501 {
            Err("incompatible endpoint (expected OpenAI-compatible /v1/models)"@)
        } else {
            match parsed {
                Ok(p) => match p.error {
                    Some(e) => if trim(e.message@).len() > 0 {
                        Err("probe failed: "@ + e.message@)
                    } else {
                        Err("probe failed with status "@ + decimal(status as nat))
                    },
                    None => Err("probe failed with status "@ + decimal(status as nat)),
                },
                Err(_) => Err("probe failed with status "@ + decimal(status as nat)),
            }
        }
    } else {
        match parsed {
            Ok(p) => Ok(
                (
                    p.data@.len(),
                    exists|i: int| 0 <= i < p.data@.len() && (#[trigger] p.data@[i]).id@ == model,
                ),
            ),
            Err(e) => Err("incompatible endpoint (invalid /v1/models response: "@ + e@ + ")"@),
        }
    }
}

fn status_error(status: u16) -> (r: String)
    ensures
        r@ == "probe failed with status "@ + decimal(status as nat),
{
    let mut out: Vec<char> = Vec::new();
    push_str(&mut out, "probe failed with status ");
    push_decimal(&mut out, status as usize);
    string_of(out)
}

/// Reads the answer of an Ollama endpoint's `/v1/models`: its status and the body as
/// parsed (or the parse error).
pub fn parse_ollama_probe_response(
    status: u16,
    parsed: Result<ModelsResponse, String>,
    cfg: &Config,
) -> (r: Result<OllamaProbe, String>)
    ensures
        match probe_outcome(status, parsed, cfg.model@) {
            Ok((count, found)) => r matches Ok(p) && p.visible_model_count == count
                && p.model_found == found,
            Err(e) => r matches Err(m) && m@ == e,
        },
{
    if status >= 400 {
        if status == 404 || status == 405 || status == 415 || status == 501 {
            return Err(owned("incompatible endpoint (expected OpenAI-compatible /v1/models)"));
        }
        return match parsed {
            Ok(p) => match p.error {
                Some(e) => if !blank(e.message.as_str()) {
                    let mut out: Vec<char> = Vec::new();
                    push_str(&mut out, "probe failed: ");
                    push_str(&mut out, e.message.as_str());
                    Err(string_of(out))
                } else {
                    Err(status_error(status))
                },
                None => Err(status_error(status)),
            },
            Err(_) => Err(status_error(status)),
        };
    }
    match parsed {
        Ok(p) => {
            let mut found = false;
            let mut k: usize = 0;
            while k < p.data.len()
                invariant
                    k <= p.data@.len(),
                    found == exists|i: int| 0 <= i < k && (#[trigger] p.data@[i]).id@ == cfg.model@,
                decreases p.data@.len() - k,
            {
                let same = crate::text::equals_str(
                    chars_of(p.data[k].id.as_str()).as_slice(),
                    cfg.model.as_str(),
                );
                if same {
                    found = true;
                }
                k = k + 1;
            }
            Ok(OllamaProbe { visible_model_count: p.data.len(), model_found: found })
        },
        Err(e) => {
            let mut out: Vec<char> = Vec::new();
            push_str(&mut out, "incompatible endpoint (invalid /v1/models response: ");
            push_str(&mut out, e.as_str());
            push_str(&mut out, ")");
            Err(string_of(out))
        },
    }
}

/// The lines reported for an Ollama endpoint without probing it: only when it is the
/// cloud service and no key is set.
pub fn doctor_ollama_precheck(cfg: &Config) -> (r: Option<Vec<String>>)
    ensures
        r is Some <==> (cfg.provider == Provider::Ollama && host_is_one_of(cfg.api_base@, seq!["ollama.com"@])
            && trim(cfg.api_key@).len() == 0),
        r matches Some(lines) ==> lines@.len() == 1 && lines@[0]@
            == "ollama endpoint: auth missing for ollama cloud"@,
{
    if cfg.is_ollama_cloud() && blank(cfg.api_key.as_str()) {
        let mut lines: Vec<String> = Vec::new();
        lines.push(owned("ollama endpoint: auth missing for ollama cloud"));
        Some(lines)
    } else {
        None
    }
}

/// The lines reported for an Ollama endpoint after probing it.
pub open spec fn ollama_report(model: Seq<char>, probe: Result<OllamaProbe, String>) -> Seq<Seq<char>> {
    match probe {
        Ok(p) => seq![
            "ollama endpoint: reachable ("@ + decimal(p.visible_model_count as nat)
                + " model(s) visible)"@,
            if trim(model).len() == 0 {
                "ollama model: not checked (model unset)"@
            } else if p.model_found {
                "ollama model: found ("@ + model + ")"@
            } else {
                "ollama model: missing ("@ + model + "). Pull it first with: ollama pull "@ + model
            },
        ],
        Err(e) => seq!["ollama endpoint: "@ + e@],
    }
}

/// The lines reported for an Ollama endpoint after probing it.
pub fn doctor_ollama_lines(cfg: &Config, probe: Result<OllamaProbe, String>) -> (r: Vec<String>)
    ensures
        r@.map_values(|s: String| s@) == ollama_report(cfg.model@, probe),
{
    let mut lines: Vec<String> = Vec::new();
    match probe {
        Ok(p) => {
            let mut first: Vec<char> = Vec::new();
            push_str(&mut first, "ollama endpoint: reachable (");
            push_decimal(&mut first, p.visible_model_count);
            push_str(&mut first, " model(s) visible)");
            lines.push(string_of(first));
            let second = if blank(cfg.model.as_str()) {
                owned("ollama model: not checked (model unset)")
            } else if p.model_found {
                let mut out: Vec<char> = Vec::new();
                push_str(&mut out, "ollama model: found (");
                push_str(&mut out, cfg.model.as_str());
                push_str(&mut out, ")");
                string_of(out)
            } else {
                let mut out: Vec<char> = Vec::new();
                push_str(&mut out, "ollama model: missing (");
                push_str(&mut out, cfg.model.as_str());
                push_str(&mut out, "). Pull it first with: ollama pull ");
                push_str(&mut out, cfg.model.as_str());
                string_of(out)
            };
            lines.push(second);
        },
        Err(e) => {
            let mut out: Vec<char> = Vec::new();
            push_str(&mut out, "ollama endpoint: ");
            push_str(&mut out, e.as_str());
            lines.push(string_of(out));
        },
    }
    assert(lines@.map_values(|s: String| s@) =~= ollama_report(cfg.model@, probe));
    lines
}

/// The error for `doctor` with arguments.
pub fn doctor_args_error(args: &[String]) -> (r: Option<String>)
    ensures
        r is Some <==> args@.len() > 0,
        r matches Some(e) ==> e@ == "doctor does not accept arguments"@,
{
    if args.len() > 0 {
        Some(owned("doctor does not accept arguments"))
    } else {
        None
    }
}

/// The report's lines on a configuration that loaded: whether it is ready (or the
/// keys it lacks), then its provider, transport, API base, model, context size and
/// authentication.
pub open spec fn config_report(cfg: Config) -> Seq<Seq<char>> {
    seq![
        match completeness(cfg.provider, cfg.api_base@, cfg.api_key@, cfg.model@) {
            None => "config: ready"@,
            Some(e) => "config: not ready ("@ + e + ")"@,
        },
        "provider: "@ + provider_value_text(cfg.provider),
        "transport: "@ + transport_name(cfg.provider, cfg.api_base@),
        "api base: "@ + shown_value(cfg.api_base@),
        "model: "@ + shown_value(cfg.model@),
        "model context tokens: "@ + match cfg.model_context_tokens {
            Some(v) => decimal(v as nat),
            None => "(unset)"@,
        },
        "auth: "@ + auth_mode(cfg.provider, cfg.api_base@, cfg.api_key@),
    ]
}

fn labelled(label: &str, value: &str) -> (r: String)
    ensures
        r@ == label@ + value@,
{
    let mut out = chars_of(label);
    push_str(&mut out, value);
    string_of(out)
}

/// The report's lines on a configuration that loaded.
pub fn doctor_config_lines(cfg: &Config) -> (r: Vec<String>)
    ensures
        r@.map_values(|s: String| s@) == config_report(*cfg),
{
    let mut lines: Vec<String> = Vec::new();
    let ready = match require_complete_config(copy_config(cfg)) {
        Ok(_) => owned("config: ready"),
        Err(e) => {
            let mut out: Vec<char> = Vec::new();
            push_str(&mut out, "config: not ready (");
            push_str(&mut out, e.as_str());
            push_str(&mut out, ")");
            string_of(out)
        },
    };
    lines.push(ready);
    lines.push(labelled("provider: ", cfg.provider.as_config_value()));
    lines.push(labelled("transport: ", transport_label(cfg)));
    lines.push(labelled("api base: ", display_doctor_value(cfg.api_base.as_str())));
    lines.push(labelled("model: ", display_doctor_value(cfg.model.as_str())));
    let tokens = display_model_context_tokens(cfg);
    lines.push(labelled("model context tokens: ", tokens.as_str()));
    let auth = cfg.auth_mode_description();
    lines.push(labelled("auth: ", auth.as_str()));
    assert(lines@.map_values(|s: String| s@) =~= config_report(*cfg));
    lines
}

/// The report's line on a configuration that did not load.
pub fn doctor_config_error_line(err: &str) -> (r: String)
    ensures
        r@ == "config: not ready ("@ + err@ + ")"@,
{
    let mut out: Vec<char> = Vec::new();
    push_str(&mut out, "config: not ready (");
    push_str(&mut out, err);
    push_str(&mut out, ")");
    string_of(out)
}

/// The report's line on the context size looked up for the model.
pub open spec fn detection_report(result: Result<Option<usize>, Seq<char>>) -> Seq<char> {
    "model context tokens (auto): "@ + match result {
        Ok(Some(v)) => decimal(v as nat),
        Ok(None) => "unavailable"@,
        Err(e) => "lookup failed ("@ + e + ")"@,
    }
}

/// The report's line on the context size looked up for the model.
pub fn context_detection_line(result: Result<Option<usize>, String>) -> (r: String)
    ensures
        r@ == detection_report(match result {
            Ok(v) => Ok(v),
            Err(e) => Err(e@),
        }),
{
    let mut out: Vec<char> = Vec::new();
    push_str(&mut out, "model context tokens (auto): ");
    match result {
        Ok(Some(v)) => push_decimal(&mut out, v),
        Ok(None) => push_str(&mut out, "unavailable"),
        Err(e) => {
            push_str(&mut out, "lookup failed (");
            push_str(&mut out, e.as_str());
            push_str(&mut out, ")");
        },
    }
    string_of(out)
}

/// The report's line on the repository: its top-level directory, or why none was
/// found.
pub fn repo_line(result: Result<String, String>) -> (r: String)
    ensures
        r@ == match result {
            Ok(root) => "repo: "@ + trim(root@),
            Err(e) => "repo: not detected ("@ + e@ + ")"@,
        },
{
    let mut out: Vec<char> = Vec::new();
    match result {
        Ok(root) => {
            push_str(&mut out, "repo: ");
            let cs = chars_of(root.as_str());
            let (a, z) = trim_bounds(cs.as_slice(), 0, cs.len());
            assert(cs@.subrange(0, cs@.len() as int) =~= cs@);
            crate::text::push_range(&mut out, cs.as_slice(), a, z);
        },
        Err(e) => {
            push_str(&mut out, "repo: not detected (");
            push_str(&mut out, e.as_str());
            push_str(&mut out, ")");
        },
    }
    string_of(out)
}

} // verus!
