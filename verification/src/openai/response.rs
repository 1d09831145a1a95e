//! Reading what the provider answered: when to fall back from the responses API to
//! chat completions, and when to retry without streaming.
use vstd::prelude::*;

use crate::text::{chars_of, contains, contains_str, equals_str, lower_seq, lowered};

verus! {

/// Words in an error that say the responses endpoint is not there.
pub open spec fn unsupported_signal(message: Seq<char>) -> bool {
    let l = lower_seq(message);
    contains(l, "unsupported"@) || contains(l, "not supported"@) || contains(
        l,
        "unrecognized request url"@,
    ) || contains(l, "unknown request url"@) || contains(l, "unknown path"@) || contains(
        l,
        "invalid url"@,
    ) || contains(l, "no route"@) || contains(l, "not implemented"@) || contains(
        l,
        "404 page not found"@,
    ) || contains(l, "method not allowed"@) || contains(l, "unsupported media type"@)
}

/// Whether an error says the responses endpoint is not there, in any ASCII case.
pub fn has_responses_endpoint_unsupported_signal(error_message: &str) -> (b: bool)
    ensures
        b == unsupported_signal(error_message@),
{
    let l = lowered(chars_of(error_message).as_slice());
    let l = l.as_slice();
    contains_str(l, "unsupported") || contains_str(l, "not supported") || contains_str(
        l,
        "unrecognized request url",
    ) || contains_str(l, "unknown request url") || contains_str(l, "unknown path")
        || contains_str(l, "invalid url") || contains_str(l, "no route") || contains_str(
        l,
        "not implemented",
    ) || contains_str(l, "404 page not found") || contains_str(l, "method not allowed")
        || contains_str(l, "unsupported media type")
}

/// Falling back to chat completions: always for 405, 415 and 501; for 400, 404 and
/// 422 when the error says the endpoint is not there; never otherwise.
pub open spec fn falls_back(status_code: u16, message: Seq<char>) -> bool {
    if status_code == 405 || status_code == 415 || status_code == 501 {
        true
    } else if status_code == 400 || status_code == 404 || status_code == 422 {
        unsupported_signal(message)
    } else {
        false
    }
}

/// Whether a failed responses request falls back to chat completions.
pub fn should_fallback_from_responses(status_code: u16, error_message: &str) -> (b: bool)
    ensures
        b == falls_back(status_code, error_message@),
{
    if status_code == 405 || status_code == 415 || status_code == 501 {
        return true;
    }
    if !(status_code == 400 || status_code == 404 || status_code == 422) {
        return false;
    }
    has_responses_endpoint_unsupported_signal(error_message)
}

/// Whether a failure without a status falls back, judged by its message alone.
pub fn should_fallback_from_responses_message(error_message: &str) -> (b: bool)
    ensures
        b == unsupported_signal(error_message@),
{
    has_responses_endpoint_unsupported_signal(error_message)
}

/// The error when a responses payload holds no text.
pub const NO_OUTPUT_TEXT_ERROR: &'static str = "responses request returned no output text";

/// Whether the failure is a responses payload without text, which also falls back.
pub fn should_fallback_from_empty_responses_payload(error_message: &str) -> (b: bool)
    ensures
        b == (error_message@ == NO_OUTPUT_TEXT_ERROR@),
{
    equals_str(chars_of(error_message).as_slice(), NO_OUTPUT_TEXT_ERROR)
}

/// Words in an error that say the stream itself broke.
pub open spec fn stream_failure(message: Seq<char>) -> bool {
    let l = lower_seq(message);
    contains(l, "stream failed"@) || contains(l, "eventstream error"@) || contains(
        l,
        "transport error"@,
    ) || contains(l, "error decoding response body"@)
}

/// Whether a failed streaming request is tried again without streaming.
pub fn should_retry_without_stream_message(error_message: &str) -> (b: bool)
    ensures
        b == stream_failure(error_message@),
{
    let l = lowered(chars_of(error_message).as_slice());
    let l = l.as_slice();
    contains_str(l, "stream failed") || contains_str(l, "eventstream error") || contains_str(
        l,
        "transport error",
    ) || contains_str(l, "error decoding response body")
}

} // verus!
