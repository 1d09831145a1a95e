//! The Anthropic messages API: its endpoint, its thinking switch, and reading its
//! answer into a commit message.
use vstd::prelude::*;

use crate::config::provider::without_trailing_slashes;
use crate::message::{
    empty_message_error, first_line_of, long_subject_error, owned, sanitize_message, sanitized,
    validate_message, MAX_SUBJECT_CHARS,
};
use crate::openai::sse::{preview_text_within, preview_within};
use crate::text::{
    chars_of, contains, contains_str, decimal, ends_with_str, equals_str, has_suffix, lower_seq,
    push_decimal, push_range, push_str, slice_range, string_of, trim, trim_bounds, trimmed_lower,
};

verus! {

/// The API version sent with every request.
pub const ANTHROPIC_VERSION: &'static str = "2023-06-01";

/// How much of a body a debug line shows.
pub const DEBUG_BODY_CHARS: usize = 400;

/// A body as a debug line shows it: whitespace collapsed, cut after 400 characters
/// with `...`.
pub fn truncate_debug_body(text: &str) -> (r: String)
    ensures
        r@ == preview_within(text@, DEBUG_BODY_CHARS as nat),
{
    preview_text_within(text, DEBUG_BODY_CHARS)
}

/// The `thinking` setting of a request.
#[derive(Clone, Copy, Debug, PartialEq, Eq)]
pub struct ThinkingConfig {
    pub kind: &'static str,
}

/// The messages endpoint for an API base: after `/v1`, as is when it already ends in
/// `/messages`, after `/v1/` otherwise (surrounding whitespace and trailing slashes
/// dropped first).
pub open spec fn messages_endpoint(base: Seq<char>) -> Seq<char> {
    let b = without_trailing_slashes(trim(base));
    if has_suffix(b, "/v1"@) {
        b + "/messages"@
    } else if has_suffix(b, "/messages"@) {
        b
    } else {
        b + "/v1/messages"@
    }
}

/// The messages endpoint for an API base.
pub fn messages_url(base: &str) -> (r: String)
    ensures
        r@ == messages_endpoint(base@),
{
    let cs = chars_of(base);
    let (a, z) = trim_bounds(cs.as_slice(), 0, cs.len());
    assert(cs@.subrange(0, cs@.len() as int) =~= cs@);
    let mut e = z;
    assert(cs@.subrange(a as int, z as int) =~= cs@.subrange(a as int, e as int));
    while e > a && cs[e - 1] == '/'
        invariant
            a <= e <= z <= cs@.len(),
            without_trailing_slashes(cs@.subrange(a as int, z as int)) == without_trailing_slashes(
                cs@.subrange(a as int, e as int),
            ),
        decreases e,
    {
        assert(cs@.subrange(a as int, e as int).drop_last() =~= cs@.subrange(a as int, e - 1));
        e = e - 1;
    }
    let mut b = slice_range(cs.as_slice(), a, e);
    assert(without_trailing_slashes(b@) == b@);
    if ends_with_str(b.as_slice(), "/v1") {
        push_str(&mut b, "/messages");
    } else if ends_with_str(b.as_slice(), "/messages") {
    } else {
        push_str(&mut b, "/v1/messages");
    }
    string_of(b)
}

/// Whether the base is DeepSeek's Anthropic endpoint, whose thinking is switched off.
pub open spec fn thinking_disabled_for(base: Seq<char>) -> bool {
    contains(lower_seq(trim(base)), "deepseek.com/anthropic"@)
}

/// The thinking setting sent to an API base: `disabled` for DeepSeek's Anthropic
/// endpoint, none otherwise.
pub fn disabled_thinking(base: &str) -> (r: Option<ThinkingConfig>)
    ensures
        r is Some <==> thinking_disabled_for(base@),
        r matches Some(t) ==> t.kind@ == "disabled"@,
{
    let l = trimmed_lower(base);
    if contains_str(l.as_slice(), "deepseek.com/anthropic") {
        Some(ThinkingConfig { kind: "disabled" })
    } else {
        None
    }
}

/// One block of an answer.
#[derive(Clone, Debug)]
pub struct ContentBlock {
    pub block_type: String,
    pub text: Option<String>,
    pub thinking: Option<String>,
}

/// The error a provider reports.
#[derive(Clone, Debug)]
pub struct ProviderError {
    pub message: String,
}

/// An answer of the messages API.
#[derive(Clone, Debug)]
pub struct MessagesResponse {
    pub content: Vec<ContentBlock>,
    pub error: Option<ProviderError>,
}

/// The texts of the `text` blocks, in order.
pub open spec fn text_of_blocks(blocks: Seq<ContentBlock>) -> Seq<char>
    decreases blocks.len(),
{
    if blocks.len() == 0 {
        Seq::empty()
    } else {
        let b = blocks.last();
        text_of_blocks(blocks.drop_last()) + if b.block_type@ == "text"@ && b.text is Some {
            b.text->Some_0@
        } else {
            Seq::empty()
        }
    }
}

/// Whether a block is a `thinking` block with text that is not blank.
pub open spec fn is_thinking_block(b: ContentBlock) -> bool {
    b.block_type@ == "thinking"@ && b.thinking is Some && trim(b.thinking->Some_0@).len() > 0
}

impl MessagesResponse {
    /// The texts of the `text` blocks, joined.
    pub fn text_content(&self) -> (r: String)
        ensures
            r@ == text_of_blocks(self.content@),
    {
        let mut out: Vec<char> = Vec::new();
        let mut k: usize = 0;
        while k < self.content.len()
            invariant
                k <= self.content@.len(),
                out@ == text_of_blocks(self.content@.take(k as int)),
            decreases self.content@.len() - k,
        {
            let b = &self.content[k];
            assert(self.content@.take(k + 1).drop_last() =~= self.content@.take(k as int));
            if equals_str(chars_of(b.block_type.as_str()).as_slice(), "text") {
                match &b.text {
                    Some(t) => push_str(&mut out, t.as_str()),
                    None => {},
                }
            }
            assert(out@ =~= text_of_blocks(self.content@.take(k + 1)));
            k = k + 1;
        }
        assert(self.content@.take(k as int) =~= self.content@);
        string_of(out)
    }

    /// The type of each block, in order.
    pub fn block_types(&self) -> (r: Vec<&str>)
        ensures
            r@.len() == self.content@.len(),
            forall|i: int| 0 <= i < r@.len() ==> (#[trigger] r@[i])@ == self.content@[i].block_type@,
    {
        let mut out: Vec<&str> = Vec::new();
        let mut k: usize = 0;
        while k < self.content.len()
            invariant
                k <= self.content@.len(),
                out@.len() == k,
                forall|i: int| 0 <= i < k ==> (#[trigger] out@[i])@ == self.content@[i].block_type@,
            decreases self.content@.len() - k,
        {
            out.push(self.content[k].block_type.as_str());
            k = k + 1;
        }
        out
    }

    /// Whether some block is a thinking block with text.
    pub fn has_thinking(&self) -> (b: bool)
        ensures
            b == exists|i: int| 0 <= i < self.content@.len() && is_thinking_block(
                #[trigger] self.content@[i],
            ),
    {
        let mut k: usize = 0;
        while k < self.content.len()
            invariant
                k <= self.content@.len(),
                forall|i: int| 0 <= i < k ==> !is_thinking_block(#[trigger] self.content@[i]),
            decreases self.content@.len() - k,
        {
            let b = &self.content[k];
            if equals_str(chars_of(b.block_type.as_str()).as_slice(), "thinking") {
                match &b.thinking {
                    Some(t) => {
                        let cs = chars_of(t.as_str());
                        let (x, y) = trim_bounds(cs.as_slice(), 0, cs.len());
                        assert(cs@.subrange(0, cs@.len() as int) =~= cs@);
                        if x < y {
                            assert(is_thinking_block(self.content@[k as int]));
                            return true;
                        }
                    },
                    None => {},
                }
            }
            k = k + 1;
        }
        false
    }
}

/// A message if it passes the checks: not empty, subject within 72 characters.
pub open spec fn checked_message(m: Seq<char>) -> Result<Seq<char>, Seq<char>> {
    if trim(m).len() == 0 {
        Err(empty_message_error())
    } else if first_line_of(m).len() > MAX_SUBJECT_CHARS {
        Err(long_subject_error())
    } else {
        Ok(m)
    }
}

/// What an answer of the messages API comes to: for a body that did not parse, the
/// failed request with the body (status 400 and up) or the parse error; for an error
/// status, the provider's message or the status; for blank text, an error that says
/// whether only thinking came back; otherwise the text blocks, sanitized and
/// checked.
pub open spec fn messages_outcome(
    status: u16,
    body: Seq<char>,
    parsed: Result<MessagesResponse, String>,
) -> Result<Seq<char>, Seq<char>> {
    match parsed {
        Err(e) => if status >= 400 {
            Err("anthropic messages request failed: "@ + trim(body))
        } else {
            Err("invalid anthropic messages payload: "@ + e@)
        },
        Ok(p) => if status >= 400 {
            match p.error {
                Some(err) => Err(err.message@),
                None => Err(
                    "anthropic messages request failed with status "@ + decimal(status as nat),
                ),
            }
        } else {
            let text = text_of_blocks(p.content@);
            if trim(text).len() == 0 {
                if exists|i: int| 0 <= i < p.content@.len() && is_thinking_block(#[trigger] p.content@[i]) {
                    Err(THINKING_ONLY_ERROR@)
                } else {
                    Err(NO_TEXT_BLOCKS_ERROR@)
                }
            } else {
                checked_message(sanitized(text))
            }
        },
    }
}

/// The error for an answer that holds thinking blocks and no text.
pub const THINKING_ONLY_ERROR: &'static str = "anthropic response contained only thinking blocks and no final text; try disabling provider thinking or using the OpenAI-compatible endpoint";

/// The error for an answer with no text at all.
pub const NO_TEXT_BLOCKS_ERROR: &'static str = "anthropic response did not contain any text blocks";

/// The commit message from an answer of the messages API: its status, its body, and
/// the body as parsed (or the parse error).
pub fn anthropic_message_from_response(
    status: u16,
    body: &str,
    parsed: Result<MessagesResponse, String>,
) -> (r: Result<String, String>)
    ensures
        match messages_outcome(status, body@, parsed) {
            Ok(m) => r matches Ok(s) && s@ == m,
            Err(e) => r matches Err(s) && s@ == e,
        },
{
    match parsed {
        Err(e) => {
            let mut out: Vec<char> = Vec::new();
            if status >= 400 {
                push_str(&mut out, "anthropic messages request failed: ");
                let cs = chars_of(body);
                let (a, b) = trim_bounds(cs.as_slice(), 0, cs.len());
                assert(cs@.subrange(0, cs@.len() as int) =~= cs@);
                push_range(&mut out, cs.as_slice(), a, b);
            } else {
                push_str(&mut out, "invalid anthropic messages payload: ");
                push_str(&mut out, e.as_str());
            }
            Err(string_of(out))
        },
        Ok(p) => {
            if status >= 400 {
                return match p.error {
                    Some(err) => Err(err.message),
                    None => {
                        let mut out: Vec<char> = Vec::new();
                        push_str(&mut out, "anthropic messages request failed with status ");
                        push_decimal(&mut out, status as usize);
                        Err(string_of(out))
                    },
                };
            }
            let text = p.text_content();
            let tc = chars_of(text.as_str());
            let (a, b) = trim_bounds(tc.as_slice(), 0, tc.len());
            assert(tc@.subrange(0, tc@.len() as int) =~= tc@);
            if a == b {
                if p.has_thinking() {
                    return Err(owned(THINKING_ONLY_ERROR));
                }
                return Err(owned(NO_TEXT_BLOCKS_ERROR));
            }
            let message = sanitize_message(text.as_str());
            match validate_message(message.as_str()) {
                Ok(()) => Ok(message),
                Err(e) => Err(e),
            }
        },
    }
}

} // verus!
