//! Finding the message in a provider's JSON answer: the responses API's output
//! items, a chat completion's first choice, the deltas of a chat stream, and the
//! error an event reports.
use vstd::prelude::*;

use super::response::NO_OUTPUT_TEXT_ERROR;
use super::json::{
    array_field, compact_json, field, json_text, text_field, JsonValue,
};
use crate::message::{owned, sanitize_message, sanitized};
use crate::text::{chars_of, equals_str, push_str, string_of};

verus! {

/// `s`, unless it is empty.
pub open spec fn nonempty(s: Seq<char>) -> Option<Seq<char>> {
    if s.len() == 0 {
        None
    } else {
        Some(s)
    }
}

pub open spec fn opt_seq(o: Option<String>) -> Option<Seq<char>> {
    match o {
        Some(s) => Some(s@),
        None => None,
    }
}

/// The text of an output part: the string `text` of a part of type `output_text`.
pub open spec fn output_part_text(part: JsonValue) -> Option<Seq<char>> {
    if text_field(part, "type"@) == Some("output_text"@) {
        text_field(part, "text"@)
    } else {
        None
    }
}

/// The texts of the output parts, one after another.
pub open spec fn parts_text(parts: Seq<JsonValue>) -> Seq<char>
    decreases parts.len(),
{
    if parts.len() == 0 {
        Seq::empty()
    } else {
        parts_text(parts.drop_last()) + match output_part_text(parts.last()) {
            Some(t) => t,
            None => Seq::empty(),
        }
    }
}

/// The text of an output item of type `message`: its parts' texts, if any.
pub open spec fn message_item_text(item: JsonValue) -> Option<Seq<char>> {
    if text_field(item, "type"@) != Some("message"@) {
        None
    } else {
        match array_field(item, "content"@) {
            Some(parts) => nonempty(parts_text(parts)),
            None => None,
        }
    }
}

/// The texts of the message items, one after another.
pub open spec fn items_text(items: Seq<JsonValue>) -> Seq<char>
    decreases items.len(),
{
    if items.len() == 0 {
        Seq::empty()
    } else {
        items_text(items.drop_last()) + match message_item_text(items.last()) {
            Some(t) => t,
            None => Seq::empty(),
        }
    }
}

/// The text of a responses answer's `output` items, if there is any.
pub open spec fn response_output_text(response: JsonValue) -> Option<Seq<char>> {
    match array_field(response, "output"@) {
        Some(items) => nonempty(items_text(items)),
        None => None,
    }
}

/// What a piece of chat content contributes: a string, or the `text` of an item
/// (else the item itself when it is a string).
pub open spec fn content_piece(item: JsonValue) -> Seq<char> {
    match text_field(item, "text"@) {
        Some(t) => t,
        None => match item {
            JsonValue::Str(s) => s@,
            _ => Seq::empty(),
        },
    }
}

pub open spec fn content_pieces(items: Seq<JsonValue>) -> Seq<char>
    decreases items.len(),
{
    if items.len() == 0 {
        Seq::empty()
    } else {
        content_pieces(items.drop_last()) + content_piece(items.last())
    }
}

/// The text of chat content: a string, or the pieces of an array, if any.
pub open spec fn value_text(v: JsonValue) -> Option<Seq<char>> {
    match v {
        JsonValue::Str(s) => Some(s@),
        JsonValue::Array(items) => nonempty(content_pieces(items@)),
        _ => None,
    }
}

fn is_text(v: Option<&JsonValue>, expected: &str) -> (b: bool)
    ensures
        b == (match v {
            Some(x) => x is Str && x->Str_0@ == expected@,
            None => false,
        }),
{
    match v {
        Some(JsonValue::Str(s)) => {
            let cs = chars_of(s.as_str());
            equals_str(cs.as_slice(), expected)
        },
        _ => false,
    }
}

/// The text of an output part, if it is an `output_text` part.
fn part_text(part: &JsonValue) -> (r: Option<&str>)
    ensures
        match r {
            Some(t) => output_part_text(*part) == Some(t@),
            None => output_part_text(*part) is None,
        },
{
    if !is_text(part.get("type"), "output_text") {
        return None;
    }
    match part.get("text") {
        Some(t) => t.as_str(),
        None => None,
    }
}

/// The text of an output item of type `message`, if it has any.
pub fn extract_message_item_text(item: &JsonValue) -> (r: Option<String>)
    ensures
        opt_seq(r) == message_item_text(*item),
{
    if !is_text(item.get("type"), "message") {
        return None;
    }
    let parts = match item.get("content") {
        Some(c) => match c.as_array() {
            Some(parts) => parts,
            None => {
                return None;
            },
        },
        None => {
            return None;
        },
    };
    let mut out: Vec<char> = Vec::new();
    let mut k: usize = 0;
    while k < parts.len()
        invariant
            k <= parts@.len(),
            out@ == parts_text(parts@.take(k as int)),
        decreases parts@.len() - k,
    {
        assert(parts@.take(k + 1).drop_last() =~= parts@.take(k as int));
        match part_text(&parts[k]) {
            Some(t) => push_str(&mut out, t),
            None => {
                assert(out@ =~= out@ + Seq::<char>::empty());
            },
        }
        k = k + 1;
    }
    assert(parts@.take(k as int) =~= parts@);
    if out.len() == 0 {
        None
    } else {
        Some(string_of(out))
    }
}

/// The text of the message items among `items`, if there is any.
pub fn extract_output_items_text(items: &Vec<JsonValue>) -> (r: Option<String>)
    ensures
        opt_seq(r) == nonempty(items_text(items@)),
{
    let mut out: Vec<char> = Vec::new();
    let mut k: usize = 0;
    while k < items.len()
        invariant
            k <= items@.len(),
            out@ == items_text(items@.take(k as int)),
        decreases items@.len() - k,
    {
        assert(items@.take(k + 1).drop_last() =~= items@.take(k as int));
        match extract_message_item_text(&items[k]) {
            Some(t) => push_str(&mut out, t.as_str()),
            None => {
                assert(out@ =~= out@ + Seq::<char>::empty());
            },
        }
        k = k + 1;
    }
    assert(items@.take(k as int) =~= items@);
    if out.len() == 0 {
        None
    } else {
        Some(string_of(out))
    }
}

/// The text of a responses answer's `output` items, if there is any.
pub fn extract_response_output_text(response: &JsonValue) -> (r: Option<String>)
    ensures
        opt_seq(r) == response_output_text(*response),
{
    match response.get("output") {
        Some(o) => match o.as_array() {
            Some(items) => extract_output_items_text(items),
            None => None,
        },
        None => None,
    }
}

/// The message of a responses answer, or where it could be: the answer's
/// `output_text`, else its output items, else the answer read as one message item;
/// for an array, its message items.
pub open spec fn response_text_value(response: JsonValue) -> Option<Seq<char>> {
    match response {
        JsonValue::Object(_) => match text_field(response, "output_text"@) {
            Some(t) => Some(t),
            None => match match array_field(response, "output"@) {
                Some(items) => nonempty(items_text(items)),
                None => None,
            } {
                Some(t) => Some(t),
                None => message_item_text(response),
            },
        },
        JsonValue::Array(items) => nonempty(items_text(items@)),
        _ => None,
    }
}

/// The message text of a responses answer, wherever it stands.
pub fn extract_response_text_value(response: &JsonValue) -> (r: Option<String>)
    ensures
        opt_seq(r) == response_text_value(*response),
{
    match response {
        JsonValue::Object(_) => {
            match response.get("output_text") {
                Some(v) => match v.as_str() {
                    Some(t) => {
                        return Some(owned(t));
                    },
                    None => {},
                },
                None => {},
            }
            match extract_response_output_text(response) {
                Some(t) => Some(t),
                None => extract_message_item_text(response),
            }
        },
        JsonValue::Array(items) => extract_output_items_text(items),
        _ => None,
    }
}

/// The error a chat answer without a message is refused with.
pub const NO_CHAT_CHOICES: &'static str = "chat completion returned no choices";

/// The message of a responses answer: its `output_text`, else the text of its output
/// items, cleaned; an answer with no such text, or only text that cleans to nothing,
/// is refused.
pub open spec fn response_message(response: JsonValue) -> Result<Seq<char>, Seq<char>> {
    let candidate = match text_field(response, "output_text"@) {
        Some(t) => Some(t),
        None => response_output_text(response),
    };
    match candidate {
        Some(t) => if sanitized(t).len() > 0 {
            Ok(sanitized(t))
        } else {
            Err(NO_OUTPUT_TEXT_ERROR@)
        },
        None => Err(NO_OUTPUT_TEXT_ERROR@),
    }
}

/// The commit message in a responses answer.
pub fn extract_response_text(response: &JsonValue) -> (r: Result<String, String>)
    ensures
        match response_message(*response) {
            Ok(m) => r matches Ok(s) && s@ == m,
            Err(e) => r matches Err(s) && s@ == e,
        },
{
    let candidate = match response.get("output_text") {
        Some(v) => match v.as_str() {
            Some(t) => Some(owned(t)),
            None => extract_response_output_text(response),
        },
        None => extract_response_output_text(response),
    };
    match candidate {
        Some(t) => {
            let m = sanitize_message(t.as_str());
            if chars_of(m.as_str()).len() > 0 {
                Ok(m)
            } else {
                Err(owned(NO_OUTPUT_TEXT_ERROR))
            }
        },
        None => Err(owned(NO_OUTPUT_TEXT_ERROR)),
    }
}

/// The text of chat content: a string, or the joined pieces of an array.
pub fn value_as_text(value: &JsonValue) -> (r: Option<String>)
    ensures
        opt_seq(r) == value_text(*value),
{
    match value {
        JsonValue::Str(s) => Some(owned(s.as_str())),
        JsonValue::Array(items) => {
            let mut out: Vec<char> = Vec::new();
            let mut k: usize = 0;
            while k < items.len()
                invariant
                    k <= items@.len(),
                    out@ == content_pieces(items@.take(k as int)),
                decreases items@.len() - k,
            {
                assert(items@.take(k + 1).drop_last() =~= items@.take(k as int));
                let item = &items[k];
                let piece = match item.get("text") {
                    Some(t) => t.as_str(),
                    None => None,
                };
                match piece {
                    Some(t) => push_str(&mut out, t),
                    None => match item {
                        JsonValue::Str(s) => push_str(&mut out, s.as_str()),
                        _ => {
                            assert(out@ =~= out@ + Seq::<char>::empty());
                        },
                    },
                }
                k = k + 1;
            }
            assert(items@.take(k as int) =~= items@);
            if out.len() == 0 {
                None
            } else {
                Some(string_of(out))
            }
        },
        _ => None,
    }
}

/// The content of a chat answer's first choice.
pub open spec fn chat_content(response: JsonValue) -> Option<Seq<char>> {
    match array_field(response, "choices"@) {
        Some(choices) => if choices.len() > 0 {
            match field(choices[0], "message"@) {
                Some(m) => match field(m, "content"@) {
                    Some(c) => value_text(c),
                    None => None,
                },
                None => None,
            }
        } else {
            None
        },
        None => None,
    }
}

/// The message of a chat answer: its first choice's content, cleaned; refused when
/// there is none or it cleans to nothing.
pub open spec fn chat_message(response: JsonValue) -> Result<Seq<char>, Seq<char>> {
    match chat_content(response) {
        Some(t) => if sanitized(t).len() > 0 {
            Ok(sanitized(t))
        } else {
            Err(NO_CHAT_CHOICES@)
        },
        None => Err(NO_CHAT_CHOICES@),
    }
}

/// The commit message in a chat completion.
pub fn extract_chat_message(response: &JsonValue) -> (r: Result<String, String>)
    ensures
        match chat_message(*response) {
            Ok(m) => r matches Ok(s) && s@ == m,
            Err(e) => r matches Err(s) && s@ == e,
        },
{
    let content = match response.get("choices") {
        Some(c) => match c.as_array() {
            Some(choices) => if choices.len() > 0 {
                match choices[0].get("message") {
                    Some(m) => match m.get("content") {
                        Some(c) => value_as_text(c),
                        None => None,
                    },
                    None => None,
                }
            } else {
                None
            },
            None => None,
        },
        None => None,
    };
    match content {
        Some(t) => {
            let m = sanitize_message(t.as_str());
            if chars_of(m.as_str()).len() > 0 {
                Ok(m)
            } else {
                Err(owned(NO_CHAT_CHOICES))
            }
        },
        None => Err(owned(NO_CHAT_CHOICES)),
    }
}

/// The error an event reports: its `message`, else its `error`'s `message`, else the
/// `error` value written as JSON.
pub open spec fn event_error(event: JsonValue) -> Option<Seq<char>> {
    match text_field(event, "message"@) {
        Some(m) => Some(m),
        None => match field(event, "error"@) {
            Some(err) => match text_field(err, "message"@) {
                Some(m) => Some(m),
                None => Some(json_text(err)),
            },
            None => None,
        },
    }
}

/// The error an event reports, if any.
pub fn extract_error_message(event: &JsonValue) -> (r: Option<String>)
    ensures
        opt_seq(r) == event_error(*event),
{
    match event.get("message") {
        Some(m) => match m.as_str() {
            Some(t) => {
                return Some(owned(t));
            },
            None => {},
        },
        None => {},
    }
    match event.get("error") {
        Some(err) => {
            match err.get("message") {
                Some(m) => match m.as_str() {
                    Some(t) => {
                        return Some(owned(t));
                    },
                    None => {},
                },
                None => {},
            }
            Some(compact_json(err))
        },
        None => None,
    }
}

/// What a chat stream choice adds: the text of its delta's content.
pub open spec fn choice_delta(choice: JsonValue) -> Seq<char> {
    match field(choice, "delta"@) {
        Some(d) => match field(d, "content"@) {
            Some(c) => match value_text(c) {
                Some(t) => t,
                None => Seq::empty(),
            },
            None => Seq::empty(),
        },
        None => Seq::empty(),
    }
}

pub open spec fn choices_delta(choices: Seq<JsonValue>) -> Seq<char>
    decreases choices.len(),
{
    if choices.len() == 0 {
        Seq::empty()
    } else {
        choices_delta(choices.drop_last()) + choice_delta(choices.last())
    }
}

/// The text a chat stream event adds: the deltas of all its choices.
pub open spec fn chat_stream_delta(event: JsonValue) -> Seq<char> {
    match array_field(event, "choices"@) {
        Some(choices) => choices_delta(choices),
        None => Seq::empty(),
    }
}

/// The text a chat stream event adds.
pub fn extract_chat_stream_delta(event: &JsonValue) -> (r: String)
    ensures
        r@ == chat_stream_delta(*event),
{
    let choices = match event.get("choices") {
        Some(c) => match c.as_array() {
            Some(choices) => choices,
            None => {
                return string_of(Vec::new());
            },
        },
        None => {
            return string_of(Vec::new());
        },
    };
    let mut out: Vec<char> = Vec::new();
    let mut k: usize = 0;
    while k < choices.len()
        invariant
            k <= choices@.len(),
            out@ == choices_delta(choices@.take(k as int)),
        decreases choices@.len() - k,
    {
        assert(choices@.take(k + 1).drop_last() =~= choices@.take(k as int));
        let piece = match choices[k].get("delta") {
            Some(d) => match d.get("content") {
                Some(c) => value_as_text(c),
                None => None,
            },
            None => None,
        };
        match piece {
            Some(t) => push_str(&mut out, t.as_str()),
            None => {
                assert(out@ =~= out@ + Seq::<char>::empty());
            },
        }
        k = k + 1;
    }
    assert(choices@.take(k as int) =~= choices@);
    string_of(out)
}

} // verus!
