//! The decisions around one request to an OpenAI-compatible endpoint: what a
//! failure says and whether it falls back, the defaults a request body gets, and
//! what a stream of events comes to.
use vstd::prelude::*;

use super::json::{field, text_field, JsonValue};
use super::response::{
    falls_back, has_responses_endpoint_unsupported_signal, should_fallback_from_responses,
    unsupported_signal, NO_OUTPUT_TEXT_ERROR,
};
use super::response_stream::{
    append_response_stream_event_text, event_effect, AccView, ResponseTextAccumulator,
};
use super::response_text::{
    chat_stream_delta, event_error, extract_chat_stream_delta, extract_error_message, opt_seq,
};
use super::sse::{preview_text_within, preview_within};
use super::stream::{pushed, pushed_all, StreamRenderer};
use crate::anthropic::{truncate_debug_body, DEBUG_BODY_CHARS};
use crate::config::types::{effort_text, Config, ReasoningEffort};
use crate::message::{owned, sanitize_message, sanitized};
use crate::text::{chars_of, decimal, equals_str, is_ws, push_decimal, push_str, string_of, trim};

verus! {

/// A failed attempt at an endpoint, and whether the other endpoint is worth a try.
#[derive(Clone, Debug, PartialEq, Eq)]
pub struct ApiAttemptError {
    pub message: String,
    pub should_fallback: bool,
}

/// A failure that does not fall back.
pub fn api_attempt_error(message: String) -> (e: ApiAttemptError)
    ensures
        e.message == message,
        !e.should_fallback,
{
    ApiAttemptError { message, should_fallback: false }
}

/// Whether a text is blank.
pub open spec fn blank(s: Seq<char>) -> bool {
    trim(s).len() == 0
}

/// What a streamed responses answer comes to. A stream that ended well gives its
/// text, cleaned, unless that is blank: then the error it reported (or that it had
/// no text) is returned, falling back when that says the endpoint is not there or
/// that there was no text. A stream that broke still gives its text when a message
/// was complete; otherwise its error, which does not fall back.
pub open spec fn stream_outcome(
    stream_result: Result<(), Seq<char>>,
    content: Seq<char>,
    completed_message_seen: bool,
    error_message: Option<Seq<char>>,
) -> Result<Seq<char>, (Seq<char>, bool)> {
    let s = sanitized(content);
    match stream_result {
        Ok(()) => if !blank(s) {
            Ok(s)
        } else {
            let m = match error_message {
                Some(m) => m,
                None => NO_OUTPUT_TEXT_ERROR@,
            };
            Err((m, unsupported_signal(m) || m == NO_OUTPUT_TEXT_ERROR@))
        },
        Err(m) => if completed_message_seen && !blank(s) {
            Ok(s)
        } else {
            Err((m, false))
        },
    }
}

pub open spec fn unit_result(r: Result<(), String>) -> Result<(), Seq<char>> {
    match r {
        Ok(()) => Ok(()),
        Err(m) => Err(m@),
    }
}

fn is_blank(s: &str) -> (b: bool)
    ensures
        b == blank(s@),
{
    let cs = chars_of(s);
    let (a, b) = crate::text::trim_bounds(cs.as_slice(), 0, cs.len());
    assert(cs@.subrange(0, cs@.len() as int) =~= cs@);
    a == b
}

/// What a streamed responses answer comes to.
pub fn finalize_responses_stream_result(
    stream_result: Result<(), String>,
    content: &str,
    completed_message_seen: bool,
    error_message: Option<String>,
) -> (r: Result<String, ApiAttemptError>)
    ensures
        match stream_outcome(
            unit_result(stream_result),
            content@,
            completed_message_seen,
            opt_seq(error_message),
        ) {
            Ok(m) => r matches Ok(s) && s@ == m,
            Err((m, f)) => r matches Err(e) && e.message@ == m && e.should_fallback == f,
        },
{
    let sanitized_text = sanitize_message(content);
    match stream_result {
        Ok(()) => {
            if !is_blank(sanitized_text.as_str()) {
                return Ok(sanitized_text);
            }
            let message = match error_message {
                Some(m) => m,
                None => owned(NO_OUTPUT_TEXT_ERROR),
            };
            let fallback = has_responses_endpoint_unsupported_signal(message.as_str())
                || equals_str(chars_of(message.as_str()).as_slice(), NO_OUTPUT_TEXT_ERROR);
            Err(ApiAttemptError { message, should_fallback: fallback })
        },
        Err(message) => {
            if completed_message_seen && !is_blank(sanitized_text.as_str()) {
                Ok(sanitized_text)
            } else {
                Err(api_attempt_error(message))
            }
        },
    }
}

/// The two endpoints a request can go to.
#[derive(Clone, Copy, Debug, PartialEq, Eq, Structural)]
pub enum TransportEndpoint {
    Responses,
    ChatCompletions,
}

/// The kind of endpoint, as the request body defaults see it.
#[derive(Clone, Copy, Debug, PartialEq, Eq, Structural)]
pub enum EndpointKind {
    Responses,
    ChatCompletions,
}

impl TransportEndpoint {
    pub fn endpoint_kind(self) -> (k: EndpointKind)
        ensures
            (k == EndpointKind::Responses) == (self == TransportEndpoint::Responses),
    {
        match self {
            TransportEndpoint::Responses => EndpointKind::Responses,
            TransportEndpoint::ChatCompletions => EndpointKind::ChatCompletions,
        }
    }

    /// The name of the request in messages.
    pub fn request_label(self) -> (r: &'static str)
        ensures
            r@ == if self == TransportEndpoint::Responses {
                "responses"@
            } else {
                "chat.completions"@
            },
    {
        match self {
            TransportEndpoint::Responses => "responses",
            TransportEndpoint::ChatCompletions => "chat.completions",
        }
    }

    /// The name of a stream event in messages.
    pub fn stream_event_label(self) -> (r: &'static str)
        ensures
            r@ == if self == TransportEndpoint::Responses {
                "responses"@
            } else {
                "chat"@
            },
    {
        match self {
            TransportEndpoint::Responses => "responses",
            TransportEndpoint::ChatCompletions => "chat",
        }
    }

    /// The name under which stream events are logged.
    pub fn stream_debug_label(self) -> (r: &'static str)
        ensures
            r@ == if self == TransportEndpoint::Responses {
                "responses.stream.event"@
            } else {
                "chat.completions.stream.event"@
            },
    {
        match self {
            TransportEndpoint::Responses => "responses.stream.event",
            TransportEndpoint::ChatCompletions => "chat.completions.stream.event",
        }
    }

    /// The failure for an answer with an error status: a responses request falls
    /// back as `should_fallback_from_responses` says, a chat request never.
    pub fn status_error(self, status_code: u16, body: &str) -> (e: ApiAttemptError)
        ensures
            e.message@ == (if self == TransportEndpoint::Responses {
                "responses request failed with status "@
            } else {
                "chat completion request failed with status "@
            }) + decimal(status_code as nat) + ": "@ + preview_within(
                body@,
                DEBUG_BODY_CHARS as nat,
            ),
            e.should_fallback == (self == TransportEndpoint::Responses && falls_back(
                status_code,
                body@,
            )),
    {
        let mut out: Vec<char> = Vec::new();
        match self {
            TransportEndpoint::Responses => push_str(&mut out, "responses request failed with status "),
            TransportEndpoint::ChatCompletions => push_str(
                &mut out,
                "chat completion request failed with status ",
            ),
        }
        push_decimal(&mut out, status_code as usize);
        push_str(&mut out, ": ");
        let preview = truncate_debug_body(body);
        push_str(&mut out, preview.as_str());
        let should_fallback = match self {
            TransportEndpoint::Responses => should_fallback_from_responses(status_code, body),
            TransportEndpoint::ChatCompletions => false,
        };
        ApiAttemptError { message: string_of(out), should_fallback }
    }
}

/// A stream error with the last event that was read, when there was one.
pub fn append_last_event_context(message: String, last_event_summary: Option<&str>) -> (r: String)
    ensures
        r@ == match last_event_summary {
            Some(s) => message@ + "; last parsed event: "@ + s@,
            None => message@,
        },
{
    match last_event_summary {
        Some(summary) => {
            let mut out = chars_of(message.as_str());
            push_str(&mut out, "; last parsed event: ");
            push_str(&mut out, summary);
            string_of(out)
        },
        None => message,
    }
}

/// What a chat stream comes to: its text, cleaned, or the error that it had none.
pub open spec fn chat_stream_outcome(content: Seq<char>) -> Result<Seq<char>, Seq<char>> {
    if sanitized(content).len() == 0 {
        Err("chat completion returned no stream chunks"@)
    } else {
        Ok(sanitized(content))
    }
}

/// The text of a chat stream as its events arrive.
pub struct ChatStreamCollector {
    content: String,
}

impl ChatStreamCollector {
    pub fn new() -> (c: ChatStreamCollector)
        ensures
            c.content() == Seq::<char>::empty(),
    {
        ChatStreamCollector { content: string_of(Vec::new()) }
    }

    /// The text so far.
    pub closed spec fn content(&self) -> Seq<char> {
        self.content@
    }

    /// Takes one event: an event that reports an error ends the stream with it;
    /// otherwise the text of its choices is added and shown.
    pub fn take_event(&mut self, event: &JsonValue, renderer: &mut StreamRenderer) -> (r: Result<
        (),
        String,
    >)
        ensures
            match event_error(*event) {
                Some(m) => r matches Err(x) && x@ == m && final(self).content() == old(self).content()
                    && final(renderer)@ == old(renderer)@,
                None => r is Ok && final(self).content() == old(self).content() + chat_stream_delta(
                    *event,
                ) && final(renderer)@ == pushed(old(renderer)@, chat_stream_delta(*event)),
            },
    {
        match extract_error_message(event) {
            Some(m) => {
                return Err(m);
            },
            None => {},
        }
        let delta = extract_chat_stream_delta(event);
        if !delta.as_str().is_empty() {
            renderer.push(delta.as_str());
            let mut cs = chars_of(self.content.as_str());
            push_str(&mut cs, delta.as_str());
            self.content = string_of(cs);
        } else {
            assert(self.content@ =~= self.content@ + delta@);
        }
        Ok(())
    }

    /// What the stream came to.
    pub fn finish(&self) -> (r: Result<String, String>)
        ensures
            match chat_stream_outcome(self.content()) {
                Ok(m) => r matches Ok(s) && s@ == m,
                Err(e) => r matches Err(s) && s@ == e,
            },
    {
        let m = sanitize_message(self.content.as_str());
        if m.as_str().is_empty() {
            Err(owned("chat completion returned no stream chunks"))
        } else {
            Ok(m)
        }
    }
}

/// An event after which a message counts as complete: the end of an output text,
/// of an output item, or of the whole response.
pub open spec fn completes_message(event: JsonValue) -> bool {
    let ty = text_field(event, "type"@);
    ty == Some("response.output_text.done"@) || ty == Some("response.output_item.done"@) || ty
        == Some("response.completed"@)
}

fn type_is(event: &JsonValue, expected: &str) -> (b: bool)
    ensures
        b == (text_field(*event, "type"@) == Some(expected@)),
{
    match event.get("type") {
        Some(v) => match v.as_str() {
            Some(t) => equals_str(chars_of(t).as_slice(), expected),
            None => false,
        },
        None => false,
    }
}

/// Whether an event completes a message.
pub fn stream_event_completes_message(event: &JsonValue) -> (b: bool)
    ensures
        b == completes_message(*event),
{
    type_is(event, "response.output_text.done") || type_is(event, "response.output_item.done")
        || type_is(event, "response.completed")
}

/// What a responses stream gathered: its text, the last error an event reported,
/// and whether a message was complete while there was text.
pub struct ResponsesStreamCollector {
    pub accumulator: ResponseTextAccumulator,
    pub error_message: Option<String>,
    pub completed_message_seen: bool,
}

impl ResponsesStreamCollector {
    pub fn new() -> (c: ResponsesStreamCollector)
        ensures
            c.accumulator@.content == Seq::<char>::empty(),
            c.accumulator@.emitted == Set::<(Seq<char>, u32, u32)>::empty(),
            c.error_message is None,
            !c.completed_message_seen,
    {
        ResponsesStreamCollector {
            accumulator: ResponseTextAccumulator::new(),
            error_message: None,
            completed_message_seen: false,
        }
    }

    /// Takes one event of the stream; a refused event ends the stream with its error.
    pub fn take_event(&mut self, event: &JsonValue, renderer: &mut StreamRenderer) -> (r: Result<
        (),
        String,
    >)
        ensures
            match event_effect(old(self).accumulator@, *event) {
                Err(e) => r matches Err(m) && m@ == e && final(self).accumulator@ == old(
                    self,
                ).accumulator@,
                Ok((a2, ps, err)) => r is Ok && final(self).accumulator@ == a2 && final(renderer)@
                    == pushed_all(old(renderer)@, ps) && opt_seq(final(self).error_message) == (
                match err {
                    Some(m) => Some(m),
                    None => opt_seq(old(self).error_message),
                }) && final(self).completed_message_seen == (old(self).completed_message_seen
                    || (completes_message(*event) && !blank(a2.content))),
            },
    {
        match append_response_stream_event_text(event, renderer, &mut self.accumulator) {
            Ok(Some(m)) => {
                self.error_message = Some(m);
            },
            Ok(None) => {},
            Err(e) => {
                return Err(e);
            },
        }
        if stream_event_completes_message(event) && !is_blank(self.accumulator.content()) {
            self.completed_message_seen = true;
        }
        Ok(())
    }

    /// What the stream came to, given how the stream itself ended.
    pub fn finish(self, stream_result: Result<(), String>) -> (r: Result<String, ApiAttemptError>)
        ensures
            match stream_outcome(
                unit_result(stream_result),
                self.accumulator@.content,
                self.completed_message_seen,
                opt_seq(self.error_message),
            ) {
                Ok(m) => r matches Ok(s) && s@ == m,
                Err((m, f)) => r matches Err(e) && e.message@ == m && e.should_fallback == f,
            },
    {
        finalize_responses_stream_result(
            stream_result,
            self.accumulator.content(),
            self.completed_message_seen,
            self.error_message,
        )
    }
}

/// The value `{"effort": e}`.
pub open spec fn effort_object(v: Option<JsonValue>, e: Seq<char>) -> bool {
    match v {
        Some(JsonValue::Object(es)) => {
            &&& es@.len() == 1
            &&& es@[0].0@ == "effort"@
            &&& es@[0].1 matches JsonValue::Str(s) && s@ == e
        },
        _ => false,
    }
}

/// Whether the defaults add a reasoning setting: to a responses request without
/// one.
pub open spec fn gets_reasoning(kind: EndpointKind, body: JsonValue) -> bool {
    kind == EndpointKind::Responses && field(body, "reasoning"@) is None
}

/// What the defaults leave: a responses request without a reasoning setting gets
/// `{"effort": ...}` with the configured effort; any other body stays as it is.
pub open spec fn with_defaults(cfg: Config, kind: EndpointKind, before: JsonValue, after: JsonValue) -> bool {
    if gets_reasoning(kind, before) {
        &&& after is Object
        &&& effort_object(field(after, "reasoning"@), effort_text(cfg.reasoning_effort))
        &&& forall|k: Seq<char>| k != "reasoning"@ ==> field(after, k) == field(before, k)
    } else {
        after == before
    }
}

/// Gives a request body the provider defaults: a responses request without a
/// reasoning setting gets the configured effort.
pub fn apply_provider_body_defaults(cfg: &Config, endpoint_kind: EndpointKind, body: &mut JsonValue)
    requires
        gets_reasoning(endpoint_kind, *old(body)) ==> (*old(body) is Object || *old(body) is Null),
    ensures
        with_defaults(*cfg, endpoint_kind, *old(body), *final(body)),
{
    if endpoint_kind != EndpointKind::Responses || body.get("reasoning").is_some() {
        return;
    }
    let mut effort: Vec<(String, JsonValue)> = Vec::new();
    effort.push((owned("effort"), JsonValue::Str(owned(cfg.reasoning_effort.as_api_value()))));
    let mut taken = JsonValue::Null;
    std::mem::swap(&mut taken, body);
    *body = taken.with_field("reasoning", JsonValue::Object(effort));
}

/// The body a request is sent with: the serialized request, marked as a stream when
/// it is one, with the provider defaults.
pub fn request_body(cfg: &Config, body: JsonValue, stream: bool, endpoint_kind: EndpointKind) -> (r:
    JsonValue)
    requires
        body is Object || body is Null,
    ensures
        ({
            let streamed = if stream {
                field(r, "stream"@) == Some(JsonValue::Bool(true))
            } else {
                field(r, "stream"@) == field(body, "stream"@)
            };
            &&& streamed
            &&& r is Object || (r == body && !stream)
            &&& gets_reasoning(endpoint_kind, body) ==> effort_object(
                field(r, "reasoning"@),
                effort_text(cfg.reasoning_effort),
            )
            &&& !gets_reasoning(endpoint_kind, body) ==> field(r, "reasoning"@) == field(
                body,
                "reasoning"@,
            )
            &&& forall|k: Seq<char>| k != "reasoning"@ && k != "stream"@ ==> field(r, k) == field(
                body,
                k,
            )
        }),
{
    let mut out = if stream {
        body.with_field("stream", JsonValue::Bool(true))
    } else {
        body
    };
    apply_provider_body_defaults(cfg, endpoint_kind, &mut out);
    proof {
        reveal_strlit("stream");
        reveal_strlit("reasoning");
        assert("stream"@.len() != "reasoning"@.len());
    }
    out
}

/// The `Authorization` value of a request: `Bearer` and the key, when a key is set
/// (a local Ollama needs none).
pub fn bearer_auth_header(cfg: &Config) -> (r: Option<String>)
    ensures
        r is Some <==> !blank(cfg.api_key@),
        r matches Some(h) ==> h@ == "Bearer "@ + cfg.api_key@,
{
    if cfg.should_send_bearer_auth() {
        let mut out: Vec<char> = Vec::new();
        push_str(&mut out, "Bearer ");
        push_str(&mut out, cfg.api_key.as_str());
        Some(string_of(out))
    } else {
        None
    }
}

/// The headers of a request: JSON content, no compressed answer, an event stream
/// when streamed, and the beta header of the responses API.
pub open spec fn headers_of(endpoint: TransportEndpoint, stream: bool) -> Seq<(Seq<char>, Seq<char>)> {
    seq![("content-type"@, "application/json"@), ("accept-encoding"@, "identity"@)] + (if stream {
        seq![("accept"@, "text/event-stream"@)]
    } else {
        Seq::empty()
    }) + (if endpoint == TransportEndpoint::Responses {
        seq![("OpenAI-Beta"@, "responses=v1"@)]
    } else {
        Seq::empty()
    })
}

pub open spec fn pair_views(v: Seq<(&str, &str)>) -> Seq<(Seq<char>, Seq<char>)> {
    v.map_values(|p: (&str, &str)| (p.0@, p.1@))
}

/// The headers a request is sent with, as names and values.
pub fn request_headers(endpoint: TransportEndpoint, stream: bool) -> (r: Vec<(&'static str, &'static str)>)
    ensures
        pair_views(r@) == headers_of(endpoint, stream),
{
    let mut headers: Vec<(&'static str, &'static str)> = Vec::new();
    headers.push(("content-type", "application/json"));
    headers.push(("accept-encoding", "identity"));
    if stream {
        headers.push(("accept", "text/event-stream"));
    }
    if endpoint == TransportEndpoint::Responses {
        headers.push(("OpenAI-Beta", "responses=v1"));
    }
    assert(pair_views(headers@) =~= headers_of(endpoint, stream));
    headers
}

} // verus!
