//! Token counting and token-budget trimming with the `o200k_base` encoding.
use vstd::prelude::*;

use crate::text::{chars_of, slice_range, string_of};

verus! {

/// The `o200k_base` ordinary (special-token-free) encoding of a text.
pub uninterp spec fn o200k_encode(text: Seq<char>) -> Seq<u32>;

/// The `o200k_base` decoding of a token sequence: `None` where the bytes it names
/// are not valid UTF-8 or a token is unknown.
pub uninterp spec fn o200k_decode(tokens: Seq<u32>) -> Option<Seq<char>>;

/// Calls `CoreBPE::encode_ordinary` on the process-wide `o200k_base` encoder
/// (`tiktoken_rs::o200k_base_singleton`). The contract claims only that the result is
/// the encoding named `o200k_encode` of the text; the encoder is built from the ranks
/// embedded in the crate, so the result depends on the text alone.
#[verifier::external_body]
fn encode_text(text: &str) -> (r: Vec<u32>)
    ensures
        r@ == o200k_encode(text@),
{
    tiktoken_rs::o200k_base_singleton().encode_ordinary(text)
}

/// Calls `CoreBPE::decode` on the process-wide `o200k_base` encoder. The contract
/// claims only that a success carries the text named `o200k_decode` of the tokens and
/// that a failure is where that name is `None`.
#[verifier::external_body]
fn decode_tokens(tokens: &[u32]) -> (r: Option<String>)
    ensures
        r is None <==> o200k_decode(tokens@) is None,
        r matches Some(t) ==> o200k_decode(tokens@) == Some(t@),
{
    tiktoken_rs::o200k_base_singleton().decode(tokens).ok()
}

/// Number of `o200k_base` tokens in a text.
pub open spec fn token_count(s: Seq<char>) -> nat {
    o200k_encode(s).len()
}

/// The text of the longest decodable prefix of at most `n` tokens.
pub open spec fn decoded_prefix(tokens: Seq<u32>, n: nat) -> Seq<char>
    decreases n,
{
    if n == 0 {
        Seq::empty()
    } else {
        match o200k_decode(tokens.take(n as int)) {
            Some(t) => t,
            None => decoded_prefix(tokens, (n - 1) as nat),
        }
    }
}

/// A text cut to a token budget: kept whole when it fits, otherwise the text of
/// its longest decodable token prefix within the budget.
pub open spec fn token_trimmed(s: Seq<char>, max: nat) -> Seq<char> {
    let tokens = o200k_encode(s);
    if tokens.len() <= max {
        s
    } else {
        decoded_prefix(tokens, max)
    }
}

/// Counts and trims text in `o200k_base` tokens.
pub struct Tokenizer {}

impl Tokenizer {
    /// A tokenizer for the `o200k_base` encoding.
    pub fn new() -> (r: Result<Tokenizer, String>)
        ensures
            r is Ok,
    {
        Ok(Tokenizer {  })
    }

    /// Number of tokens in `text`.
    pub fn count(&self, text: &str) -> (n: usize)
        ensures
            n == token_count(text@),
    {
        encode_text(text).len()
    }

    /// `text` cut to at most `budget` tokens.
    pub fn trim_to_budget(&self, text: &str, budget: usize) -> (r: String)
        ensures
            r@ == token_trimmed(text@, budget as nat),
    {
        let cs = chars_of(text);
        string_of(token_trim(cs.as_slice(), budget))
    }
}

/// Number of tokens in `s`.
pub fn count_tokens(s: &[char]) -> (n: usize)
    ensures
        n == token_count(s@),
{
    let v = slice_range(s, 0, s.len());
    assert(s@.subrange(0, s@.len() as int) =~= s@);
    let text = string_of(v);
    encode_text(text.as_str()).len()
}

/// `s` cut to at most `max` tokens.
pub fn token_trim(s: &[char], max: usize) -> (r: Vec<char>)
    ensures
        r@ == token_trimmed(s@, max as nat),
{
    let v = slice_range(s, 0, s.len());
    assert(s@.subrange(0, s@.len() as int) =~= s@);
    let text = string_of(v);
    let tokens = encode_text(text.as_str());
    if tokens.len() <= max {
        return slice_range(s, 0, s.len());
    }
    let mut n = max;
    while n > 0
        invariant
            0 <= n <= max < tokens@.len(),
            tokens@ == o200k_encode(s@),
            decoded_prefix(tokens@, max as nat) == decoded_prefix(tokens@, n as nat),
        decreases n,
    {
        let mut prefix: Vec<u32> = Vec::new();
        let mut i: usize = 0;
        while i < n
            invariant
                0 <= i <= n < tokens@.len(),
                prefix@ == tokens@.take(i as int),
            decreases n - i,
        {
            prefix.push(tokens[i]);
            assert(prefix@ =~= tokens@.take(i + 1));
            i = i + 1;
        }
        match decode_tokens(prefix.as_slice()) {
            Some(t) => {
                return chars_of(t.as_str());
            },
            None => {},
        }
        n = n - 1;
    }
    Vec::new()
}

} // verus!
