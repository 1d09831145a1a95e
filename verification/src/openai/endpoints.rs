//! The endpoint URLs of an OpenAI-compatible API base: a base that already names an
//! endpoint (`/responses`, `/chat/completions`, `/models`) has it replaced, any
//! other base gets `/v1` unless it ends in it.
use vstd::prelude::*;

use crate::config::provider::{parse_url_path, url_path};
use crate::lines::{join_char, range_seqs, ranges_within, split_char, split_ranges};
use crate::text::{chars_of, equals_str, push_range, slice_range, string_of, trim, trim_bounds};

verus! {

/// The endpoint a base URL already names.
#[derive(Clone, Copy, Debug, PartialEq, Eq, Structural)]
pub enum ExplicitEndpoint {
    Unnamed,
    Responses,
    ChatCompletions,
    Models,
}

/// Which endpoints a request may use.
#[derive(Clone, Copy, Debug, PartialEq, Eq, Structural)]
pub enum ApiEndpointPreference {
    Auto,
    ResponsesOnly,
    ChatCompletionsOnly,
}

/// What `Url::parse` gives for `text`, with its path replaced by `path`
/// (`Url::set_path`) and its query removed, written out (`to_string`).
pub uninterp spec fn url_with_path(text: Seq<char>, path: Seq<char>) -> Seq<char>;

/// Parses `text` with `Url::parse` (`reqwest::Url`); when it parses, sets its path to
/// `path`, drops its query and writes it out. The text is named `url_with_path` of
/// `text` and `path`; that it parses exactly when `Url::parse` gives `url_path` of
/// `text` is the one parse behind both names. Nothing more is claimed.
#[verifier::external_body]
fn replace_url_path(text: &str, path: &str) -> (r: Option<String>)
    ensures
        r is Some <==> url_path(text@) is Some,
        r matches Some(s) ==> s@ == url_with_path(text@, path@),
{
    match reqwest::Url::parse(text) {
        Ok(mut url) => {
            url.set_path(path);
            url.set_query(None);
            Some(url.to_string())
        },
        Err(_) => None,
    }
}

/// The segments of a URL path, as `Url::path_segments` gives them: the pieces
/// between slashes after the leading one; none for a path that does not start with
/// a slash.
pub open spec fn raw_segments(path: Seq<char>) -> Seq<Seq<char>> {
    if path.len() > 0 && path[0] == '/' {
        split_char(path.drop_first(), '/')
    } else {
        Seq::empty()
    }
}

/// The pieces that are not empty, in order.
pub open spec fn nonempty_pieces(ps: Seq<Seq<char>>) -> Seq<Seq<char>>
    decreases ps.len(),
{
    if ps.len() == 0 {
        Seq::empty()
    } else if ps.last().len() > 0 {
        nonempty_pieces(ps.drop_last()).push(ps.last())
    } else {
        nonempty_pieces(ps.drop_last())
    }
}

/// The endpoint the last segments name.
pub open spec fn explicit_of(segs: Seq<Seq<char>>) -> ExplicitEndpoint {
    let n = segs.len();
    if n >= 2 && segs[n - 2] == "chat"@ && segs[n - 1] == "completions"@ {
        ExplicitEndpoint::ChatCompletions
    } else if n >= 1 && segs[n - 1] == "responses"@ {
        ExplicitEndpoint::Responses
    } else if n >= 1 && segs[n - 1] == "models"@ {
        ExplicitEndpoint::Models
    } else {
        ExplicitEndpoint::Unnamed
    }
}

/// The segments without the endpoint they name.
pub open spec fn base_segments(segs: Seq<Seq<char>>) -> Seq<Seq<char>> {
    match explicit_of(segs) {
        ExplicitEndpoint::ChatCompletions => segs.take(segs.len() - 2),
        ExplicitEndpoint::Unnamed => segs,
        _ => segs.take(segs.len() - 1),
    }
}

/// The segments of the endpoint's path: the base's, then `v1` when the base named
/// no endpoint and does not end in `v1`, then the endpoint's pieces.
pub open spec fn endpoint_segments(path: Seq<char>, endpoint: Seq<char>) -> Seq<Seq<char>> {
    let segs = nonempty_pieces(raw_segments(path));
    let base = base_segments(segs);
    let with_v1 = if explicit_of(segs) == ExplicitEndpoint::Unnamed && !(base.len() > 0
        && base.last() == "v1"@) {
        base.push("v1"@)
    } else {
        base
    };
    with_v1 + split_char(endpoint, '/')
}

/// The path of the endpoint.
pub open spec fn endpoint_path(path: Seq<char>, endpoint: Seq<char>) -> Seq<char> {
    "/"@ + join_char(endpoint_segments(path, endpoint), '/')
}

/// The URL of `endpoint` for an API base whose URL parses.
pub open spec fn endpoint_url(base: Seq<char>, endpoint: Seq<char>) -> Seq<char> {
    let t = trim(base);
    url_with_path(t, endpoint_path(url_path(t)->0, endpoint))
}

/// Whether a base URL parses.
pub open spec fn base_parses(base: Seq<char>) -> bool {
    url_path(trim(base)) is Some
}

/// The preference a base URL's named endpoint gives.
pub open spec fn preference_of(base: Seq<char>) -> ApiEndpointPreference {
    match explicit_of(nonempty_pieces(raw_segments(url_path(trim(base))->0))) {
        ExplicitEndpoint::Responses => ApiEndpointPreference::ResponsesOnly,
        ExplicitEndpoint::ChatCompletions => ApiEndpointPreference::ChatCompletionsOnly,
        _ => ApiEndpointPreference::Auto,
    }
}

/// The pieces of `s` between `'/'`, each as its own vector.
fn split_pieces(s: &[char], lo: usize, hi: usize) -> (r: Vec<Vec<char>>)
    requires
        lo <= hi <= s@.len(),
    ensures
        r@.map_values(|v: Vec<char>| v@) == split_char(s@.subrange(lo as int, hi as int), '/'),
{
    let ranges = split_ranges(s, lo, hi, '/');
    let mut out: Vec<Vec<char>> = Vec::new();
    let mut k: usize = 0;
    while k < ranges.len()
        invariant
            k <= ranges@.len(),
            ranges_within(ranges@, lo as int, hi as int),
            hi <= s@.len(),
            out@.len() == k,
            forall|i: int|
                0 <= i < k ==> (#[trigger] out@[i])@ == s@.subrange(
                    ranges@[i].0 as int,
                    ranges@[i].1 as int,
                ),
        decreases ranges@.len() - k,
    {
        let (a, b) = ranges[k];
        assert(lo <= ranges@[k as int].0 <= ranges@[k as int].1 <= hi);
        out.push(slice_range(s, a, b));
        k = k + 1;
    }
    assert(out@.map_values(|v: Vec<char>| v@) =~= range_seqs(s@, ranges@));
    out
}

fn seg_is(segs: &Vec<Vec<char>>, i: usize, word: &str) -> (b: bool)
    requires
        i < segs@.len(),
    ensures
        b == (segs@[i as int]@ == word@),
{
    equals_str(segs[i].as_slice(), word)
}

/// The non-empty segments of a URL path.
fn path_segments(path: &str) -> (r: Vec<Vec<char>>)
    ensures
        r@.map_values(|v: Vec<char>| v@) == nonempty_pieces(raw_segments(path@)),
{
    let cs = chars_of(path);
    if cs.len() == 0 || cs[0] != '/' {
        assert(nonempty_pieces(Seq::<Seq<char>>::empty()) =~= Seq::<Seq<char>>::empty());
        return Vec::new();
    }
    let pieces = split_pieces(cs.as_slice(), 1, cs.len());
    assert(cs@.subrange(1, cs@.len() as int) =~= cs@.drop_first());
    let ghost ps = pieces@.map_values(|v: Vec<char>| v@);
    let mut out: Vec<Vec<char>> = Vec::new();
    let mut k: usize = 0;
    while k < pieces.len()
        invariant
            k <= pieces@.len(),
            ps == pieces@.map_values(|v: Vec<char>| v@),
            out@.map_values(|v: Vec<char>| v@) == nonempty_pieces(ps.take(k as int)),
        decreases pieces@.len() - k,
    {
        assert(ps.take(k + 1).drop_last() =~= ps.take(k as int));
        assert(ps.take(k + 1).last() == pieces@[k as int]@);
        if pieces[k].len() > 0 {
            let p = slice_range(pieces[k].as_slice(), 0, pieces[k].len());
            assert(p@ =~= pieces@[k as int]@);
            out.push(p);
            assert(out@.map_values(|v: Vec<char>| v@) =~= nonempty_pieces(ps.take(k + 1)));
        }
        k = k + 1;
    }
    assert(ps.take(k as int) =~= ps);
    out
}

/// What the base segments name, and the segments without it.
fn normalized_base_segments(path: &str) -> (r: (Vec<Vec<char>>, ExplicitEndpoint))
    ensures
        r.0@.map_values(|v: Vec<char>| v@) == base_segments(nonempty_pieces(raw_segments(path@))),
        r.1 == explicit_of(nonempty_pieces(raw_segments(path@))),
{
    let mut segs = path_segments(path);
    let ghost all = segs@.map_values(|v: Vec<char>| v@);
    let n = segs.len();
    let explicit = if n >= 2 && seg_is(&segs, n - 2, "chat") && seg_is(&segs, n - 1, "completions") {
        ExplicitEndpoint::ChatCompletions
    } else if n >= 1 && seg_is(&segs, n - 1, "responses") {
        ExplicitEndpoint::Responses
    } else if n >= 1 && seg_is(&segs, n - 1, "models") {
        ExplicitEndpoint::Models
    } else {
        ExplicitEndpoint::Unnamed
    };
    assert(n >= 2 ==> all[n - 2] == segs@[n - 2]@);
    assert(n >= 1 ==> all[n - 1] == segs@[n - 1]@);
    match explicit {
        ExplicitEndpoint::ChatCompletions => {
            segs.truncate(n - 2);
        },
        ExplicitEndpoint::Responses | ExplicitEndpoint::Models => {
            segs.truncate(n - 1);
        },
        ExplicitEndpoint::Unnamed => {},
    }
    assert(segs@.map_values(|v: Vec<char>| v@) =~= base_segments(all));
    (segs, explicit)
}

/// The path of `endpoint` under a base URL's path.
fn endpoint_path_of(path: &str, endpoint: &str) -> (r: String)
    ensures
        r@ == endpoint_path(path@, endpoint@),
{
    let (mut segs, explicit) = normalized_base_segments(path);
    let ghost base = segs@.map_values(|v: Vec<char>| v@);
    let n = segs.len();
    let ends_in_v1 = n > 0 && seg_is(&segs, n - 1, "v1");
    assert(n > 0 ==> base.last() == segs@[n - 1]@);
    if explicit == ExplicitEndpoint::Unnamed && !ends_in_v1 {
        segs.push(chars_of("v1"));
        assert(segs@.map_values(|v: Vec<char>| v@) =~= base.push("v1"@));
    }
    let ghost with_v1 = segs@.map_values(|v: Vec<char>| v@);
    let ec = chars_of(endpoint);
    let tail = split_pieces(ec.as_slice(), 0, ec.len());
    assert(ec@.subrange(0, ec@.len() as int) =~= endpoint@);
    let ghost tail_v = tail@.map_values(|v: Vec<char>| v@);
    let ghost all = with_v1 + tail_v;
    assert(all == endpoint_segments(path@, endpoint@));
    let mut j: usize = 0;
    while j < tail.len()
        invariant
            j <= tail@.len(),
            tail_v == tail@.map_values(|v: Vec<char>| v@),
            segs@.map_values(|v: Vec<char>| v@) == with_v1 + tail_v.take(j as int),
        decreases tail@.len() - j,
    {
        let piece = slice_range(tail[j].as_slice(), 0, tail[j].len());
        assert(piece@ =~= tail_v[j as int]);
        let ghost prev = segs@;
        segs.push(piece);
        assert(segs@ == prev.push(piece));
        assert(segs@.map_values(|v: Vec<char>| v@) =~= prev.map_values(|v: Vec<char>| v@).push(piece@));
        assert(tail_v.take(j + 1) =~= tail_v.take(j as int).push(tail_v[j as int]));
        assert(segs@.map_values(|v: Vec<char>| v@) =~= with_v1 + tail_v.take(j + 1));
        j = j + 1;
    }
    assert(tail_v.take(j as int) =~= tail_v);
    let mut out: Vec<char> = Vec::new();
    out.push('/');
    let mut k: usize = 0;
    while k < segs.len()
        invariant
            k <= segs@.len(),
            all == segs@.map_values(|v: Vec<char>| v@),
            out@ == seq!['/'] + join_char(all.take(k as int), '/'),
        decreases segs@.len() - k,
    {
        if k > 0 {
            out.push('/');
        }
        let piece: &Vec<char> = &segs[k];
        assert(piece@ == all[k as int]);
        push_range(&mut out, piece.as_slice(), 0, piece.len());
        assert(piece@.subrange(0, piece@.len() as int) =~= piece@);
        assert(all.take(k + 1).drop_last() =~= all.take(k as int));
        if k == 0 {
            assert(join_char(all.take(1), '/') == all[0]);
        }
        assert(out@ =~= seq!['/'] + join_char(all.take(k + 1), '/'));
        k = k + 1;
    }
    assert(all.take(k as int) =~= all);
    assert("/"@ =~= seq!['/']) by {
        reveal_strlit("/");
    }
    string_of(out)
}

/// The URL of `endpoint` for `base`; the base must be a URL that parses (a
/// configuration is checked for that before it is used).
pub fn api_endpoint_url(base: &str, endpoint: &str) -> (r: String)
    requires
        base_parses(base@),
    ensures
        r@ == endpoint_url(base@, endpoint@),
{
    let cs = chars_of(base);
    let (a, b) = trim_bounds(cs.as_slice(), 0, cs.len());
    assert(cs@.subrange(0, cs@.len() as int) =~= cs@);
    let trimmed = string_of(slice_range(cs.as_slice(), a, b));
    let path = match parse_url_path(trimmed.as_str()) {
        Some(p) => p,
        None => {
            return trimmed;
        },
    };
    let new_path = endpoint_path_of(path.as_str(), endpoint);
    match replace_url_path(trimmed.as_str(), new_path.as_str()) {
        Some(url) => url,
        None => trimmed,
    }
}

/// The URL of `endpoint` for `base`, or nothing when `base` is no URL.
pub fn checked_api_endpoint_url(base: &str, endpoint: &str) -> (r: Option<String>)
    ensures
        base_parses(base@) <==> r is Some,
        r matches Some(u) ==> u@ == endpoint_url(base@, endpoint@),
{
    let cs = chars_of(base);
    let (a, b) = trim_bounds(cs.as_slice(), 0, cs.len());
    assert(cs@.subrange(0, cs@.len() as int) =~= cs@);
    let trimmed = string_of(slice_range(cs.as_slice(), a, b));
    match parse_url_path(trimmed.as_str()) {
        Some(_) => Some(api_endpoint_url(base, endpoint)),
        None => None,
    }
}

/// The responses endpoint of a base.
pub fn responses_url(base: &str) -> (r: Option<String>)
    ensures
        base_parses(base@) <==> r is Some,
        r matches Some(u) ==> u@ == endpoint_url(base@, "responses"@),
{
    checked_api_endpoint_url(base, "responses")
}

/// The chat completions endpoint of a base.
pub fn chat_completions_url(base: &str) -> (r: Option<String>)
    ensures
        base_parses(base@) <==> r is Some,
        r matches Some(u) ==> u@ == endpoint_url(base@, "chat/completions"@),
{
    checked_api_endpoint_url(base, "chat/completions")
}

/// The models endpoint of a base.
pub fn models_url(base: &str) -> (r: Option<String>)
    ensures
        base_parses(base@) <==> r is Some,
        r matches Some(u) ==> u@ == endpoint_url(base@, "models"@),
{
    checked_api_endpoint_url(base, "models")
}

/// Which endpoints a base allows: only the one it names, else both (responses
/// first).
pub fn endpoint_preference(base: &str) -> (r: ApiEndpointPreference)
    requires
        base_parses(base@),
    ensures
        r == preference_of(base@),
{
    let cs = chars_of(base);
    let (a, b) = trim_bounds(cs.as_slice(), 0, cs.len());
    assert(cs@.subrange(0, cs@.len() as int) =~= cs@);
    let trimmed = string_of(slice_range(cs.as_slice(), a, b));
    let path = match parse_url_path(trimmed.as_str()) {
        Some(p) => p,
        None => {
            return ApiEndpointPreference::Auto;
        },
    };
    let (_, explicit) = normalized_base_segments(path.as_str());
    match explicit {
        ExplicitEndpoint::Responses => ApiEndpointPreference::ResponsesOnly,
        ExplicitEndpoint::ChatCompletions => ApiEndpointPreference::ChatCompletionsOnly,
        _ => ApiEndpointPreference::Auto,
    }
}

/// Whether an API base, without its surrounding whitespace, parses as a URL.
pub fn api_base_parses(base: &str) -> (b: bool)
    ensures
        b == base_parses(base@),
{
    let cs = chars_of(base);
    let (a, b) = trim_bounds(cs.as_slice(), 0, cs.len());
    assert(cs@.subrange(0, cs@.len() as int) =~= cs@);
    let trimmed = string_of(slice_range(cs.as_slice(), a, b));
    parse_url_path(trimmed.as_str()).is_some()
}

/// Which endpoints a base allows, or nothing when it is no URL.
pub fn checked_endpoint_preference(base: &str) -> (r: Option<ApiEndpointPreference>)
    ensures
        base_parses(base@) <==> r is Some,
        r matches Some(p) ==> p == preference_of(base@),
{
    let cs = chars_of(base);
    let (a, b) = trim_bounds(cs.as_slice(), 0, cs.len());
    assert(cs@.subrange(0, cs@.len() as int) =~= cs@);
    let trimmed = string_of(slice_range(cs.as_slice(), a, b));
    match parse_url_path(trimmed.as_str()) {
        Some(_) => Some(endpoint_preference(base)),
        None => None,
    }
}

} // verus!
