//! The model providers, and what an API base URL says about the provider behind it.
use vstd::prelude::*;

use crate::lines::{range_seqs, ranges_within, split_char, split_ranges};
use crate::text::{
    chars_of, ends_with_str, equals_str, has_suffix, lower_seq, lowered, trim, trimmed_lower,
};

verus! {

/// Where a local Ollama listens by default.
pub const DEFAULT_OLLAMA_API_BASE: &'static str = "http://localhost:11434";

/// The kind of API the configured endpoint speaks.
#[derive(Clone, Copy, Debug, PartialEq, Eq, Structural)]
pub enum Provider {
    OpenAiCompatible,
    Ollama,
    AnthropicCompatible,
}

impl Default for Provider {
    fn default() -> (p: Provider)
        ensures
            p == Provider::OpenAiCompatible,
    {
        Provider::OpenAiCompatible
    }
}

/// The provider a configured value names, ignoring surrounding whitespace and ASCII
/// case.
pub open spec fn provider_named(raw: Seq<char>) -> Option<Provider> {
    let w = lower_seq(trim(raw));
    if w == "openai"@ || w == "openai-compatible"@ {
        Some(Provider::OpenAiCompatible)
    } else if w == "ollama"@ {
        Some(Provider::Ollama)
    } else if w == "anthropic"@ || w == "anthropic-compatible"@ {
        Some(Provider::AnthropicCompatible)
    } else {
        None
    }
}

/// The value that configures a provider.
pub open spec fn provider_value_text(p: Provider) -> Seq<char> {
    match p {
        Provider::OpenAiCompatible => "openai-compatible"@,
        Provider::Ollama => "ollama"@,
        Provider::AnthropicCompatible => "anthropic-compatible"@,
    }
}

impl Provider {
    /// The provider a configured value names.
    pub fn parse(raw: &str) -> (r: Option<Provider>)
        ensures
            r == provider_named(raw@),
    {
        let w = trimmed_lower(raw);
        let w = w.as_slice();
        if equals_str(w, "openai") || equals_str(w, "openai-compatible") {
            Some(Provider::OpenAiCompatible)
        } else if equals_str(w, "ollama") {
            Some(Provider::Ollama)
        } else if equals_str(w, "anthropic") || equals_str(w, "anthropic-compatible") {
            Some(Provider::AnthropicCompatible)
        } else {
            None
        }
    }

    /// The value that configures this provider.
    pub fn as_config_value(self) -> (r: &'static str)
        ensures
            r@ == provider_value_text(self),
    {
        match self {
            Provider::OpenAiCompatible => "openai-compatible",
            Provider::Ollama => "ollama",
            Provider::AnthropicCompatible => "anthropic-compatible",
        }
    }
}

/// What `Url::parse` gives for `text`, and then `Url::host_str`: `None` when `text`
/// is no absolute URL, otherwise the URL's host, if it has one.
pub uninterp spec fn url_host(text: Seq<char>) -> Option<Option<Seq<char>>>;

/// What `Url::parse` gives for `text`, and then `Url::path`: `None` when `text` is no
/// absolute URL, otherwise the URL's path.
pub uninterp spec fn url_path(text: Seq<char>) -> Option<Seq<char>>;

pub open spec fn host_view(r: Option<Option<String>>) -> Option<Option<Seq<char>>> {
    match r {
        Some(Some(h)) => Some(Some(h@)),
        Some(None) => Some(None),
        None => None,
    }
}

/// Calls `Url::parse` (`reqwest::Url`, the `url` crate's type) on `text` and, when it
/// parses, `Url::host_str`. The result is named `url_host` of `text`; beyond that the
/// contract states only what the `url` crate documents of `host_str`: an IPv6 host
/// comes between brackets, so a host with a `':'` starts with `'['`.
#[verifier::external_body]
fn parse_url_host(text: &str) -> (r: Option<Option<String>>)
    ensures
        host_view(r) == url_host(text@),
        r matches Some(Some(h)) ==> (h@.contains(':') ==> h@.len() > 0 && h@[0] == '['),
{
    match reqwest::Url::parse(text) {
        Ok(url) => Some(url.host_str().map(|h| h.to_string())),
        Err(_) => None,
    }
}

/// Calls `Url::parse` on `text` and, when it parses, `Url::path`. The result is named
/// `url_path` of `text`; nothing more is claimed.
#[verifier::external_body]
pub(crate) fn parse_url_path(text: &str) -> (r: Option<String>)
    ensures
        match r {
            Some(p) => url_path(text@) == Some(p@),
            None => url_path(text@) is None,
        },
{
    match reqwest::Url::parse(text) {
        Ok(url) => Some(url.path().to_string()),
        Err(_) => None,
    }
}

/// A decimal digit.
pub open spec fn is_digit(c: char) -> bool {
    '0' <= c && c <= '9'
}

/// The value of a string of decimal digits.
pub open spec fn digits_value(s: Seq<char>) -> nat
    decreases s.len(),
{
    if s.len() == 0 {
        0
    } else {
        digits_value(s.drop_last()) * 10 + ((s.last() as u32) - ('0' as u32)) as nat
    }
}

/// One part of a dotted IPv4 address as `Ipv4Addr` reads it: one to three digits,
/// no leading zero, at most 255.
pub open spec fn ipv4_octet(s: Seq<char>) -> bool {
    &&& 1 <= s.len() <= 3
    &&& forall|i: int| 0 <= i < s.len() ==> is_digit(#[trigger] s[i])
    &&& s.len() > 1 ==> s[0] != '0'
    &&& digits_value(s) <= 255
}

/// A dotted IPv4 address in `127.0.0.0/8`.
pub open spec fn ipv4_loopback(h: Seq<char>) -> bool {
    let parts = split_char(h, '.');
    &&& parts.len() == 4
    &&& forall|i: int| 0 <= i < 4 ==> ipv4_octet(#[trigger] parts[i])
    &&& digits_value(parts[0]) == 127
}

/// A loopback host: `localhost` in any ASCII case, or an IPv4 loopback address. (A
/// host with a `':'` is bracketed, and no bracketed text reads as an address.)
pub open spec fn loopback_host(h: Seq<char>) -> bool {
    lower_seq(h) == "localhost"@ || ipv4_loopback(h)
}

fn octet_value(s: &[char], a: usize, b: usize) -> (r: Option<u32>)
    requires
        a <= b <= s@.len(),
    ensures
        match r {
            Some(v) => ipv4_octet(s@.subrange(a as int, b as int)) && v == digits_value(
                s@.subrange(a as int, b as int),
            ),
            None => !ipv4_octet(s@.subrange(a as int, b as int)),
        },
{
    let ghost t = s@.subrange(a as int, b as int);
    if b - a < 1 || b - a > 3 {
        return None;
    }
    if b - a > 1 && s[a] == '0' {
        assert(t[0] == s@[a as int]);
        return None;
    }
    let mut v: u32 = 0;
    let mut k = a;
    while k < b
        invariant
            a <= k <= b <= s@.len(),
            b - a <= 3,
            t == s@.subrange(a as int, b as int),
            forall|i: int| 0 <= i < k - a ==> is_digit(#[trigger] t[i]),
            v == digits_value(t.take(k - a)),
            v < 1000int,
            k - a <= 2 ==> v < 100 || k - a == 3,
            (k - a) as int == 0 ==> v == 0,
            (k - a) as int == 1 ==> v < 10,
            (k - a) as int == 2 ==> v < 100,
        decreases b - k,
    {
        let c = s[k];
        assert(t[k - a] == c);
        if !('0' <= c && c <= '9') {
            return None;
        }
        assert(t.take(k - a + 1).drop_last() =~= t.take(k - a));
        v = v * 10 + ((c as u32) - ('0' as u32));
        k = k + 1;
    }
    assert(t.take(k - a) =~= t);
    if v > 255 {
        return None;
    }
    Some(v)
}

fn is_ipv4_loopback(h: &[char]) -> (b: bool)
    ensures
        b == ipv4_loopback(h@),
{
    let ranges = split_ranges(h, 0, h.len(), '.');
    assert(h@.subrange(0, h@.len() as int) =~= h@);
    let ghost parts = split_char(h@, '.');
    if ranges.len() != 4 {
        return false;
    }
    let mut k: usize = 0;
    while k < 4
        invariant
            k <= 4,
            ranges@.len() == 4,
            range_seqs(h@, ranges@) == parts,
            parts == split_char(h@, '.'),
            ranges_within(ranges@, 0, h@.len() as int),
            forall|i: int| 0 <= i < k ==> ipv4_octet(#[trigger] parts[i]),
        decreases 4 - k,
    {
        let (a, b) = ranges[k];
        assert(ranges@[k as int].0 <= ranges@[k as int].1);
        assert(parts[k as int] == h@.subrange(a as int, b as int));
        if octet_value(h, a, b).is_none() {
            assert(!ipv4_octet(parts[k as int]));
            return false;
        }
        k = k + 1;
    }
    let (a, b) = ranges[0];
    assert(ranges@[0].0 <= ranges@[0].1);
    assert(parts[0] == h@.subrange(a as int, b as int));
    match octet_value(h, a, b) {
        Some(v) => v == 127,
        None => false,
    }
}

fn is_loopback_host(h: &[char]) -> (b: bool)
    ensures
        b == loopback_host(h@),
{
    let l = lowered(h);
    equals_str(l.as_slice(), "localhost") || is_ipv4_loopback(h)
}

fn trimmed_text(raw: &str) -> (r: String)
    ensures
        r@ == trim(raw@),
{
    let cs = chars_of(raw);
    let (a, b) = crate::text::trim_bounds(cs.as_slice(), 0, cs.len());
    assert(cs@.subrange(0, cs@.len() as int) =~= cs@);
    crate::text::string_of(crate::text::slice_range(cs.as_slice(), a, b))
}

/// Whether the host of `base` is a loopback host.
pub open spec fn loopback_base(base: Seq<char>) -> bool {
    match url_host(trim(base)) {
        Some(Some(h)) => loopback_host(h),
        _ => false,
    }
}

/// Whether `base` points at this machine.
pub fn is_loopback_url(base: &str) -> (b: bool)
    ensures
        b == loopback_base(base@),
{
    match parse_url_host(trimmed_text(base).as_str()) {
        Some(Some(h)) => {
            let cs = chars_of(h.as_str());
            is_loopback_host(cs.as_slice())
        },
        _ => false,
    }
}

/// Whether the host of `base` is, in any ASCII case, one of the names `names`.
pub open spec fn host_is_one_of(base: Seq<char>, names: Seq<Seq<char>>) -> bool {
    match url_host(trim(base)) {
        Some(Some(h)) => names.contains(lower_seq(h)),
        _ => false,
    }
}

/// Whether `base` is Ollama's cloud service.
pub fn is_ollama_cloud_url(base: &str) -> (b: bool)
    ensures
        b == host_is_one_of(base@, seq!["ollama.com"@]),
{
    match parse_url_host(trimmed_text(base).as_str()) {
        Some(Some(h)) => {
            let l = lowered(chars_of(h.as_str()).as_slice());
            let r = equals_str(l.as_slice(), "ollama.com");
            assert(seq!["ollama.com"@].contains(l@) == (l@ == "ollama.com"@)) by {
                if l@ == "ollama.com"@ {
                    assert(seq!["ollama.com"@][0] == l@);
                }
            }
            r
        },
        _ => false,
    }
}

/// Whether `base` is OpenRouter.
pub fn is_openrouter_url(base: &str) -> (b: bool)
    ensures
        b == host_is_one_of(base@, seq!["openrouter.ai"@, "api.openrouter.ai"@]),
{
    match parse_url_host(trimmed_text(base).as_str()) {
        Some(Some(h)) => {
            let l = lowered(chars_of(h.as_str()).as_slice());
            let r = equals_str(l.as_slice(), "openrouter.ai") || equals_str(
                l.as_slice(),
                "api.openrouter.ai",
            );
            let ghost names = seq!["openrouter.ai"@, "api.openrouter.ai"@];
            assert(names.contains(l@) == (l@ == "openrouter.ai"@ || l@ == "api.openrouter.ai"@))
                by {
                if l@ == "openrouter.ai"@ {
                    assert(names[0] == l@);
                }
                if l@ == "api.openrouter.ai"@ {
                    assert(names[1] == l@);
                }
            }
            r
        },
        _ => false,
    }
}

/// `s` without its trailing slashes, as `trim_end_matches('/')`.
pub open spec fn without_trailing_slashes(s: Seq<char>) -> Seq<char>
    decreases s.len(),
{
    if s.len() > 0 && s.last() == '/' {
        without_trailing_slashes(s.drop_last())
    } else {
        s
    }
}

/// Whether the path of `base`, without trailing slashes and in lower case, ends with
/// `/anthropic`.
pub open spec fn anthropic_path(base: Seq<char>) -> bool {
    match url_path(trim(base)) {
        Some(p) => has_suffix(lower_seq(without_trailing_slashes(p)), "/anthropic"@),
        None => false,
    }
}

/// Whether `base` is an Anthropic-compatible endpoint.
pub fn is_anthropic_compatible_url(base: &str) -> (b: bool)
    ensures
        b == anthropic_path(base@),
{
    match parse_url_path(trimmed_text(base).as_str()) {
        Some(p) => {
            let cs = chars_of(p.as_str());
            let mut n = cs.len();
            assert(cs@.take(cs@.len() as int) =~= cs@);
            while n > 0 && cs[n - 1] == '/'
                invariant
                    n <= cs@.len(),
                    without_trailing_slashes(cs@) == without_trailing_slashes(cs@.take(n as int)),
                decreases n,
            {
                assert(cs@.take(n as int).drop_last() =~= cs@.take(n - 1));
                n = n - 1;
            }
            assert(without_trailing_slashes(cs@.take(n as int)) == cs@.take(n as int));
            let stripped = crate::text::slice_range(cs.as_slice(), 0, n);
            assert(stripped@ =~= cs@.take(n as int));
            let l = lowered(stripped.as_slice());
            ends_with_str(l.as_slice(), "/anthropic")
        },
        None => false,
    }
}

} // verus!
