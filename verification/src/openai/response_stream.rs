//! Assembling a streamed responses answer from its events: text arrives as deltas
//! and again, complete, in the events that close a text, a part or an item. Each
//! slot (item, output index, content index) is shown once.
use vstd::prelude::*;

use super::json::{array_field, field, text_field, u32_value, JsonValue};
use super::response_text::{event_error, extract_error_message, opt_seq, output_part_text};
use super::stream::{pushed, pushed_all, StreamRenderer};
use crate::message::owned;
use crate::text::{chars_of, equals_str, push_str, string_of};

verus! {

/// Where a piece of text belongs: the item's id, the output index and the content
/// index.
pub type SlotView = (Seq<char>, u32, u32);

/// An accumulator as plain values: the text so far and the slots already shown.
pub struct AccView {
    pub content: Seq<char>,
    pub emitted: Set<SlotView>,
}

/// Text always added (a delta); its slot is marked shown.
pub open spec fn add_delta(a: AccView, key: SlotView, text: Seq<char>) -> (AccView, Seq<Seq<char>>) {
    if text.len() == 0 {
        (a, Seq::empty())
    } else {
        (AccView { content: a.content + text, emitted: a.emitted.insert(key) }, seq![text])
    }
}

/// Text added only if its slot was not shown yet.
pub open spec fn add_if_missing(a: AccView, key: SlotView, text: Seq<char>) -> (AccView, Seq<Seq<char>>) {
    if text.len() == 0 || a.emitted.contains(key) {
        (a, Seq::empty())
    } else {
        (AccView { content: a.content + text, emitted: a.emitted.insert(key) }, seq![text])
    }
}

/// An output part of a finished item, at content index `ci`.
pub open spec fn add_part(a: AccView, id: Seq<char>, oi: u32, ci: u32, part: JsonValue) -> (
    AccView,
    Seq<Seq<char>>,
) {
    match output_part_text(part) {
        Some(t) => add_if_missing(a, (id, oi, ci), t),
        None => (a, Seq::empty()),
    }
}

/// The output parts of a finished item, in order.
pub open spec fn add_parts(a: AccView, id: Seq<char>, oi: u32, parts: Seq<JsonValue>) -> (
    AccView,
    Seq<Seq<char>>,
)
    decreases parts.len(),
{
    if parts.len() == 0 {
        (a, Seq::empty())
    } else {
        let (a1, p1) = add_parts(a, id, oi, parts.drop_last());
        let (a2, p2) = add_part(a1, id, oi, (parts.len() - 1) as u32, parts.last());
        (a2, p1 + p2)
    }
}

/// A finished output item: the parts of a `message` item that has an id and content.
pub open spec fn add_item(a: AccView, oi: u32, item: JsonValue) -> (AccView, Seq<Seq<char>>) {
    if text_field(item, "type"@) != Some("message"@) {
        (a, Seq::empty())
    } else {
        match (text_field(item, "id"@), array_field(item, "content"@)) {
            (Some(id), Some(parts)) => add_parts(a, id, oi, parts),
            _ => (a, Seq::empty()),
        }
    }
}

/// A string field an event must have.
pub open spec fn required_text(e: JsonValue, key: Seq<char>) -> Result<Seq<char>, Seq<char>> {
    match text_field(e, key) {
        Some(t) => Ok(t),
        None => Err("responses stream event missing string field "@ + key),
    }
}

/// An index field an event must have: a whole number within `u32`.
pub open spec fn required_index(e: JsonValue, key: Seq<char>) -> Result<u32, Seq<char>> {
    match u32_value(field(e, key)) {
        Some(n) => Ok(n),
        None => Err("responses stream event missing integer field "@ + key),
    }
}

/// The slot an event names, read in order: `item_id`, `output_index`,
/// `content_index`.
pub open spec fn event_slot(e: JsonValue) -> Result<SlotView, Seq<char>> {
    match required_text(e, "item_id"@) {
        Err(m) => Err(m),
        Ok(id) => match required_index(e, "output_index"@) {
            Err(m) => Err(m),
            Ok(oi) => match required_index(e, "content_index"@) {
                Err(m) => Err(m),
                Ok(ci) => Ok((id, oi, ci)),
            },
        },
    }
}

/// What an event does: the accumulator after it, the pieces shown, and the error
/// it reports; or why the event is refused.
pub open spec fn event_effect(a: AccView, e: JsonValue) -> Result<
    (AccView, Seq<Seq<char>>, Option<Seq<char>>),
    Seq<char>,
> {
    let ty = text_field(e, "type"@);
    if ty == Some("response.output_text.delta"@) || ty == Some("response.output_text.done"@) {
        let text_key = if ty == Some("response.output_text.delta"@) {
            "delta"@
        } else {
            "text"@
        };
        match event_slot(e) {
            Err(m) => Err(m),
            Ok(key) => match required_text(e, text_key) {
                Err(m) => Err(m),
                Ok(t) => {
                    let (a2, ps) = if ty == Some("response.output_text.delta"@) {
                        add_delta(a, key, t)
                    } else {
                        add_if_missing(a, key, t)
                    };
                    Ok((a2, ps, None))
                },
            },
        }
    } else if ty == Some("response.content_part.done"@) || ty == Some(
        "response.content_part.added"@,
    ) {
        match event_slot(e) {
            Err(m) => Err(m),
            Ok(key) => match field(e, "part"@) {
                None => Err("responses stream event missing part"@),
                Some(part) => {
                    let (a2, ps) = add_part(a, key.0, key.1, key.2, part);
                    Ok((a2, ps, None))
                },
            },
        }
    } else if ty == Some("response.output_item.done"@) || ty == Some(
        "response.output_item.added"@,
    ) {
        match required_index(e, "output_index"@) {
            Err(m) => Err(m),
            Ok(oi) => match field(e, "item"@) {
                None => Err("responses stream event missing item"@),
                Some(item) => {
                    let (a2, ps) = add_item(a, oi, item);
                    Ok((a2, ps, None))
                },
            },
        }
    } else if ty == Some("error"@) || ty == Some("response.error"@) {
        Ok((a, Seq::empty(), event_error(e)))
    } else {
        Ok((a, Seq::empty(), None))
    }
}

/// A slot as stored.
pub struct SlotKey {
    pub item_id: String,
    pub output_index: u32,
    pub content_index: u32,
}

pub open spec fn slot_view(k: SlotKey) -> SlotView {
    (k.item_id@, k.output_index, k.content_index)
}

/// The text of a streamed responses answer, and which slots were shown.
pub struct ResponseTextAccumulator {
    content: String,
    emitted: Vec<SlotKey>,
}

impl View for ResponseTextAccumulator {
    type V = AccView;

    closed spec fn view(&self) -> AccView {
        AccView {
            content: self.content@,
            emitted: self.emitted@.map_values(|k: SlotKey| slot_view(k)).to_set(),
        }
    }
}

fn same_text(a: &str, b: &str) -> (r: bool)
    ensures
        r == (a@ == b@),
{
    let ac = chars_of(a);
    equals_str(ac.as_slice(), b)
}

impl ResponseTextAccumulator {
    /// An accumulator with no text.
    pub fn new() -> (r: ResponseTextAccumulator)
        ensures
            r@.content == Seq::<char>::empty(),
            r@.emitted == Set::<SlotView>::empty(),
    {
        let r = ResponseTextAccumulator { content: string_of(Vec::new()), emitted: Vec::new() };
        assert(r@.emitted =~= Set::<SlotView>::empty());
        r
    }

    /// The text so far.
    pub fn content(&self) -> (r: &str)
        ensures
            r@ == self@.content,
    {
        self.content.as_str()
    }

    fn was_emitted(&self, id: &str, oi: u32, ci: u32) -> (b: bool)
        ensures
            b == self@.emitted.contains((id@, oi, ci)),
    {
        let ghost keys = self.emitted@.map_values(|k: SlotKey| slot_view(k));
        let mut k: usize = 0;
        while k < self.emitted.len()
            invariant
                k <= self.emitted@.len(),
                keys == self.emitted@.map_values(|k: SlotKey| slot_view(k)),
                forall|i: int| 0 <= i < k ==> keys[i] != (id@, oi, ci),
            decreases self.emitted@.len() - k,
        {
            let e = &self.emitted[k];
            if e.output_index == oi && e.content_index == ci && same_text(e.item_id.as_str(), id) {
                assert(keys[k as int] == (id@, oi, ci));
                return true;
            }
            k = k + 1;
        }
        assert(!keys.contains((id@, oi, ci)));
        false
    }

    fn mark(&mut self, id: &str, oi: u32, ci: u32)
        ensures
            final(self)@.emitted == old(self)@.emitted.insert((id@, oi, ci)),
            final(self)@.content == old(self)@.content,
    {
        let ghost before = self.emitted@.map_values(|k: SlotKey| slot_view(k));
        self.emitted.push(SlotKey { item_id: owned(id), output_index: oi, content_index: ci });
        let ghost after = self.emitted@.map_values(|k: SlotKey| slot_view(k));
        assert(after =~= before.push((id@, oi, ci)));
        assert(after.to_set() =~= before.to_set().insert((id@, oi, ci))) by {
            assert forall|x: SlotView| after.contains(x) <==> before.contains(x) || x == (
            id@,
            oi,
            ci,
            ) by {
                if after.contains(x) {
                    let i = choose|i: int| 0 <= i < after.len() && after[i] == x;
                    if i < before.len() {
                        assert(before[i] == x);
                    }
                }
                if before.contains(x) {
                    let i = choose|i: int| 0 <= i < before.len() && before[i] == x;
                    assert(after[i] == x);
                }
                if x == (id@, oi, ci) {
                    assert(after[before.len() as int] == x);
                }
            }
        }
    }

    fn append(&mut self, text: &str)
        ensures
            final(self)@.content == old(self)@.content + text@,
            final(self)@.emitted == old(self)@.emitted,
    {
        let mut cs = chars_of(self.content.as_str());
        push_str(&mut cs, text);
        self.content = string_of(cs);
    }

    /// Adds a delta and shows it; its slot counts as shown.
    pub fn push_delta(
        &mut self,
        item_id: &str,
        output_index: u32,
        content_index: u32,
        text: &str,
        renderer: &mut StreamRenderer,
    )
        ensures
            ({
                let (a2, ps) = add_delta(old(self)@, (item_id@, output_index, content_index), text@);
                final(self)@ == a2 && final(renderer)@ == pushed_all(old(renderer)@, ps)
            }),
    {
        if text.is_empty() {
            return;
        }
        let ghost r0 = renderer@;
        renderer.push(text);
        proof {
            lemma_pushed_all_one(r0, text@);
        }
        self.append(text);
        if !self.was_emitted(item_id, output_index, content_index) {
            self.mark(item_id, output_index, content_index);
        } else {
            assert(self@.emitted.insert((item_id@, output_index, content_index)) =~= self@.emitted);
        }
    }

    /// Adds and shows text whose slot was not shown yet.
    pub fn push_slot_text_if_missing(
        &mut self,
        item_id: &str,
        output_index: u32,
        content_index: u32,
        text: &str,
        renderer: &mut StreamRenderer,
    )
        ensures
            ({
                let (a2, ps) = add_if_missing(
                    old(self)@,
                    (item_id@, output_index, content_index),
                    text@,
                );
                final(self)@ == a2 && final(renderer)@ == pushed_all(old(renderer)@, ps)
            }),
    {
        if text.is_empty() || self.was_emitted(item_id, output_index, content_index) {
            return;
        }
        let ghost r0 = renderer@;
        renderer.push(text);
        proof {
            lemma_pushed_all_one(r0, text@);
        }
        self.append(text);
        self.mark(item_id, output_index, content_index);
    }

    /// Adds and shows the text of an `output_text` part, unless its slot was shown.
    pub fn push_output_text_if_missing_from_value(
        &mut self,
        item_id: &str,
        output_index: u32,
        content_index: u32,
        part: &JsonValue,
        renderer: &mut StreamRenderer,
    )
        ensures
            ({
                let (a2, ps) = add_part(old(self)@, item_id@, output_index, content_index, *part);
                final(self)@ == a2 && final(renderer)@ == pushed_all(old(renderer)@, ps)
            }),
    {
        let is_output_text = match part.get("type") {
            Some(t) => match t.as_str() {
                Some(s) => same_text(s, "output_text"),
                None => false,
            },
            None => false,
        };
        if !is_output_text {
            return;
        }
        match part.get("text") {
            Some(t) => match t.as_str() {
                Some(s) => self.push_slot_text_if_missing(
                    item_id,
                    output_index,
                    content_index,
                    s,
                    renderer,
                ),
                None => {},
            },
            None => {},
        }
    }

    /// Adds and shows the parts of a finished `message` item whose slots were not
    /// shown, in order.
    pub fn push_output_item_if_missing_from_value(
        &mut self,
        output_index: u32,
        item: &JsonValue,
        renderer: &mut StreamRenderer,
    )
        ensures
            ({
                let (a2, ps) = add_item(old(self)@, output_index, *item);
                final(self)@ == a2 && final(renderer)@ == pushed_all(old(renderer)@, ps)
            }),
    {
        let is_message = match item.get("type") {
            Some(t) => match t.as_str() {
                Some(s) => same_text(s, "message"),
                None => false,
            },
            None => false,
        };
        if !is_message {
            return;
        }
        let id = match item.get("id") {
            Some(v) => match v.as_str() {
                Some(s) => s,
                None => {
                    return;
                },
            },
            None => {
                return;
            },
        };
        let parts = match item.get("content") {
            Some(v) => match v.as_array() {
                Some(p) => p,
                None => {
                    return;
                },
            },
            None => {
                return;
            },
        };
        let ghost a0 = self@;
        let ghost r0 = renderer@;
        let mut k: usize = 0;
        while k < parts.len()
            invariant
                k <= parts@.len(),
                ({
                    let (a, ps) = add_parts(a0, id@, output_index, parts@.take(k as int));
                    self@ == a && renderer@ == pushed_all(r0, ps)
                }),
            decreases parts@.len() - k,
        {
            assert(parts@.take(k + 1).drop_last() =~= parts@.take(k as int));
            assert(parts@.take(k + 1).last() == parts@[k as int]);
            let ghost (a1, p1) = add_parts(a0, id@, output_index, parts@.take(k as int));
            #[verifier::truncate]
            let ci = k as u32;
            assert(((k + 1) - 1) as u32 == ci);
            self.push_output_text_if_missing_from_value(id, output_index, ci, &parts[k], renderer);
            proof {
                let (a2, p2) = add_part(a1, id@, output_index, ci, parts@[k as int]);
                lemma_pushed_all_concat(r0, p1, p2);
            }
            k = k + 1;
        }
        assert(parts@.take(k as int) =~= parts@);
    }
}

proof fn lemma_pushed_all_one(r: super::stream::RendererView, t: Seq<char>)
    ensures
        pushed_all(r, seq![t]) == pushed(r, t),
{
    assert(seq![t].drop_last() =~= Seq::<Seq<char>>::empty());
    assert(pushed_all(r, Seq::<Seq<char>>::empty()) == r);
    assert(seq![t].last() == t);
}

proof fn lemma_pushed_all_concat(
    r: super::stream::RendererView,
    a: Seq<Seq<char>>,
    b: Seq<Seq<char>>,
)
    ensures
        pushed_all(r, a + b) == pushed_all(pushed_all(r, a), b),
    decreases b.len(),
{
    if b.len() == 0 {
        assert(a + b =~= a);
    } else {
        lemma_pushed_all_concat(r, a, b.drop_last());
        assert((a + b).drop_last() =~= a + b.drop_last());
    }
}

fn missing_field(kind: &str, key: &str) -> (r: String)
    ensures
        r@ == "responses stream event missing "@ + kind@ + " field "@ + key@,
{
    let mut out: Vec<char> = Vec::new();
    push_str(&mut out, "responses stream event missing ");
    push_str(&mut out, kind);
    push_str(&mut out, " field ");
    push_str(&mut out, key);
    string_of(out)
}

/// A string field the event must have.
pub fn required_str<'a>(value: &'a JsonValue, key: &str) -> (r: Result<&'a str, String>)
    ensures
        match required_text(*value, key@) {
            Ok(t) => r matches Ok(s) && s@ == t,
            Err(e) => r matches Err(m) && m@ == e,
        },
{
    match value.get(key) {
        Some(v) => match v.as_str() {
            Some(s) => {
                return Ok(s);
            },
            None => {},
        },
        None => {},
    }
    let m = missing_field("string", key);
    assert(m@ == "responses stream event missing string field "@ + key@) by {
        reveal_strlit("responses stream event missing ");
        reveal_strlit("string");
        reveal_strlit(" field ");
        reveal_strlit("responses stream event missing string field ");
    }
    Err(m)
}

/// An index field the event must have: a whole number within `u32`.
pub fn required_u32(value: &JsonValue, key: &str) -> (r: Result<u32, String>)
    ensures
        match required_index(*value, key@) {
            Ok(n) => r matches Ok(x) && x == n,
            Err(e) => r matches Err(m) && m@ == e,
        },
{
    match value.get(key) {
        Some(v) => match v.as_u32() {
            Some(n) => {
                return Ok(n);
            },
            None => {},
        },
        None => {},
    }
    let m = missing_field("integer", key);
    assert(m@ == "responses stream event missing integer field "@ + key@) by {
        reveal_strlit("responses stream event missing ");
        reveal_strlit("integer");
        reveal_strlit(" field ");
        reveal_strlit("responses stream event missing integer field ");
    }
    Err(m)
}

fn type_is(ty: Option<&str>, expected: &str) -> (b: bool)
    ensures
        b == (match ty {
            Some(t) => t@ == expected@,
            None => false,
        }),
{
    match ty {
        Some(t) => same_text(t, expected),
        None => false,
    }
}

/// Takes one event of a responses stream: text is added and shown where its slot
/// was not shown yet (deltas always), and an error event's message is returned. An
/// event that lacks a field it needs is refused, and then nothing changes.
pub fn append_response_stream_event_text(
    event: &JsonValue,
    renderer: &mut StreamRenderer,
    accumulator: &mut ResponseTextAccumulator,
) -> (r: Result<Option<String>, String>)
    ensures
        match event_effect(old(accumulator)@, *event) {
            Ok((a2, ps, err)) => r matches Ok(o) && opt_seq(o) == err && final(accumulator)@ == a2
                && final(renderer)@ == pushed_all(old(renderer)@, ps),
            Err(e) => r matches Err(m) && m@ == e && final(accumulator)@ == old(accumulator)@
                && final(renderer)@ == old(renderer)@,
        },
{
    let ty: Option<&str> = match event.get("type") {
        Some(v) => v.as_str(),
        None => None,
    };
    let is_delta = type_is(ty, "response.output_text.delta");
    if is_delta || type_is(ty, "response.output_text.done") {
        let item_id = match required_str(event, "item_id") {
            Ok(s) => s,
            Err(e) => {
                return Err(e);
            },
        };
        let oi = match required_u32(event, "output_index") {
            Ok(n) => n,
            Err(e) => {
                return Err(e);
            },
        };
        let ci = match required_u32(event, "content_index") {
            Ok(n) => n,
            Err(e) => {
                return Err(e);
            },
        };
        let text = match required_str(event, if is_delta {
            "delta"
        } else {
            "text"
        }) {
            Ok(s) => s,
            Err(e) => {
                return Err(e);
            },
        };
        if is_delta {
            accumulator.push_delta(item_id, oi, ci, text, renderer);
        } else {
            accumulator.push_slot_text_if_missing(item_id, oi, ci, text, renderer);
        }
        return Ok(None);
    }
    if type_is(ty, "response.content_part.done") || type_is(ty, "response.content_part.added") {
        let item_id = match required_str(event, "item_id") {
            Ok(s) => s,
            Err(e) => {
                return Err(e);
            },
        };
        let oi = match required_u32(event, "output_index") {
            Ok(n) => n,
            Err(e) => {
                return Err(e);
            },
        };
        let ci = match required_u32(event, "content_index") {
            Ok(n) => n,
            Err(e) => {
                return Err(e);
            },
        };
        let part = match event.get("part") {
            Some(p) => p,
            None => {
                return Err(owned("responses stream event missing part"));
            },
        };
        accumulator.push_output_text_if_missing_from_value(item_id, oi, ci, part, renderer);
        return Ok(None);
    }
    if type_is(ty, "response.output_item.done") || type_is(ty, "response.output_item.added") {
        let oi = match required_u32(event, "output_index") {
            Ok(n) => n,
            Err(e) => {
                return Err(e);
            },
        };
        let item = match event.get("item") {
            Some(i) => i,
            None => {
                return Err(owned("responses stream event missing item"));
            },
        };
        accumulator.push_output_item_if_missing_from_value(oi, item, renderer);
        return Ok(None);
    }
    if type_is(ty, "error") || type_is(ty, "response.error") {
        proof {
            assert(pushed_all(old(renderer)@, Seq::<Seq<char>>::empty()) == old(renderer)@);
        }
        return Ok(extract_error_message(event));
    }
    proof {
        assert(pushed_all(old(renderer)@, Seq::<Seq<char>>::empty()) == old(renderer)@);
    }
    Ok(None)
}

} // verus!
