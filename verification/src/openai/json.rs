//! JSON values as plain data, with the lookups the provider answers need, and the
//! compact JSON text of a value.
use vstd::prelude::*;

use crate::git::hex_digit;
use crate::text::{chars_of, equals_str, push_str, string_of};

verus! {

/// A JSON value. A number is kept as the text JSON writes for it (`serde_json`'s
/// `Number::to_string`); an object keeps its entries in the order its map yields
/// them, each key once.
#[derive(Debug, PartialEq, Eq)]
pub enum JsonValue {
    Null,
    Bool(bool),
    Number(String),
    Str(String),
    Array(Vec<JsonValue>),
    Object(Vec<(String, JsonValue)>),
}

/// The value of the first entry named `key`.
pub open spec fn first_field(entries: Seq<(String, JsonValue)>, key: Seq<char>) -> Option<JsonValue>
    decreases entries.len(),
{
    if entries.len() == 0 {
        None
    } else if entries[0].0@ == key {
        Some(entries[0].1)
    } else {
        first_field(entries.drop_first(), key)
    }
}

/// What `value.get(key)` finds: the entry `key` of an object, nothing for any other
/// value.
pub open spec fn field(v: JsonValue, key: Seq<char>) -> Option<JsonValue> {
    match v {
        JsonValue::Object(entries) => first_field(entries@, key),
        _ => None,
    }
}

/// The text of a value that is a string.
pub open spec fn str_value(v: Option<JsonValue>) -> Option<Seq<char>> {
    match v {
        Some(JsonValue::Str(s)) => Some(s@),
        _ => None,
    }
}

/// The items of a value that is an array.
pub open spec fn array_value(v: Option<JsonValue>) -> Option<Seq<JsonValue>> {
    match v {
        Some(JsonValue::Array(items)) => Some(items@),
        _ => None,
    }
}

/// The string entry `key` of `v`.
pub open spec fn text_field(v: JsonValue, key: Seq<char>) -> Option<Seq<char>> {
    str_value(field(v, key))
}

/// The array entry `key` of `v`.
pub open spec fn array_field(v: JsonValue, key: Seq<char>) -> Option<Seq<JsonValue>> {
    array_value(field(v, key))
}

/// Whether every character is an ASCII digit.
pub open spec fn digits_only(s: Seq<char>) -> bool {
    forall|i: int| 0 <= i < s.len() ==> '0' <= #[trigger] s[i] && s[i] <= '9'
}

/// The value of a string of decimal digits.
pub open spec fn decimal_value(s: Seq<char>) -> nat
    decreases s.len(),
{
    if s.len() == 0 {
        0
    } else {
        decimal_value(s.drop_last()) * 10 + ((s.last() as u32) - ('0' as u32)) as nat
    }
}

/// A number that is a whole number within `u32`, as `as_u64` and `u32::try_from`
/// read it: an unsigned integer is written with digits alone.
pub open spec fn u32_value(v: Option<JsonValue>) -> Option<u32> {
    match v {
        Some(JsonValue::Number(t)) => if t@.len() > 0 && digits_only(t@) && decimal_value(t@)
            <= u32::MAX {
            Some(decimal_value(t@) as u32)
        } else {
            None
        },
        _ => None,
    }
}

proof fn lemma_first_field_skip(entries: Seq<(String, JsonValue)>, key: Seq<char>, k: int)
    requires
        0 <= k < entries.len(),
        entries[k].0@ != key,
    ensures
        first_field(entries.skip(k), key) == first_field(entries.skip(k + 1), key),
{
    assert(entries.skip(k)[0] == entries[k]);
    assert(entries.skip(k).drop_first() =~= entries.skip(k + 1));
}

proof fn lemma_first_field_at(entries: Seq<(String, JsonValue)>, key: Seq<char>, k: int)
    requires
        0 <= k < entries.len(),
        entries[k].0@ == key,
    ensures
        first_field(entries.skip(k), key) == Some(entries[k].1),
{
    assert(entries.skip(k)[0] == entries[k]);
}

fn same_text(a: &str, b: &str) -> (r: bool)
    ensures
        r == (a@ == b@),
{
    let ac = chars_of(a);
    equals_str(ac.as_slice(), b)
}

impl JsonValue {
    /// The entry `key` of an object; nothing for any other value.
    pub fn get(&self, key: &str) -> (r: Option<&JsonValue>)
        ensures
            match r {
                Some(x) => field(*self, key@) == Some(*x),
                None => field(*self, key@) is None,
            },
    {
        match self {
            JsonValue::Object(entries) => {
                let mut k: usize = 0;
                assert(entries@.skip(0) =~= entries@);
                while k < entries.len()
                    invariant
                        k <= entries@.len(),
                        *self == JsonValue::Object(*entries),
                        first_field(entries@, key@) == first_field(entries@.skip(k as int), key@),
                    decreases entries@.len() - k,
                {
                    let entry = &entries[k];
                    if same_text(entry.0.as_str(), key) {
                        proof {
                            lemma_first_field_at(entries@, key@, k as int);
                        }
                        return Some(&entry.1);
                    }
                    proof {
                        lemma_first_field_skip(entries@, key@, k as int);
                    }
                    k = k + 1;
                }
                assert(entries@.skip(k as int) =~= Seq::<(String, JsonValue)>::empty());
                None
            },
            _ => None,
        }
    }

    /// The text of a string value.
    pub fn as_str(&self) -> (r: Option<&str>)
        ensures
            match r {
                Some(s) => str_value(Some(*self)) == Some(s@),
                None => str_value(Some(*self)) is None,
            },
    {
        match self {
            JsonValue::Str(s) => Some(s.as_str()),
            _ => None,
        }
    }

    /// The items of an array value.
    pub fn as_array(&self) -> (r: Option<&Vec<JsonValue>>)
        ensures
            match r {
                Some(items) => array_value(Some(*self)) == Some(items@),
                None => array_value(Some(*self)) is None,
            },
    {
        match self {
            JsonValue::Array(items) => Some(items),
            _ => None,
        }
    }

    /// A whole number within `u32`.
    pub fn as_u32(&self) -> (r: Option<u32>)
        ensures
            r == u32_value(Some(*self)),
    {
        match self {
            JsonValue::Number(t) => {
                let cs = chars_of(t.as_str());
                if cs.len() == 0 {
                    return None;
                }
                let mut v: u64 = 0;
                let mut k: usize = 0;
                while k < cs.len()
                    invariant
                        k <= cs@.len(),
                        cs@ == t@,
                        *self == JsonValue::Number(*t),
                        digits_only(cs@.take(k as int)),
                        v == decimal_value(cs@.take(k as int)),
                        v <= u32::MAX,
                    decreases cs@.len() - k,
                {
                    let c = cs[k];
                    assert(cs@.take(k + 1).drop_last() =~= cs@.take(k as int));
                    if !('0' <= c && c <= '9') {
                        assert(!digits_only(t@)) by {
                            assert(t@[k as int] == c);
                            assert(!('0' <= t@[k as int] && t@[k as int] <= '9'));
                        }
                        return None;
                    }
                    let next = v * 10 + (c as u64 - '0' as u64);
                    assert(cs@.take(k + 1).last() == c);
                    assert(next == decimal_value(cs@.take(k + 1)));
                    if next > u32::MAX as u64 {
                        proof {
                            lemma_decimal_prefix_le(cs@, k + 1);
                        }
                        assert(!(digits_only(t@) && decimal_value(t@) <= u32::MAX));
                        return None;
                    }
                    v = next;
                    k = k + 1;
                }
                assert(cs@.take(k as int) =~= cs@);
                Some(v as u32)
            },
            _ => None,
        }
    }
}

proof fn lemma_decimal_prefix_le(s: Seq<char>, k: int)
    requires
        0 <= k <= s.len(),
    ensures
        digits_only(s) ==> decimal_value(s.take(k)) <= decimal_value(s),
    decreases s.len() - k,
{
    if k < s.len() {
        lemma_decimal_prefix_le(s, k + 1);
        assert(s.take(k + 1).drop_last() =~= s.take(k));
    } else {
        assert(s.take(k) =~= s);
    }
}

/// How `serde_json` writes one character inside a string: a double quote or a
/// backslash gets a backslash before it; backspace, tab, line feed, form feed and
/// carriage return become a backslash and `b`, `t`, `n`, `f`, `r`; the other
/// characters below U+0020 become `\u00` and two lower-case hexadecimal digits; every
/// other character is kept.
pub open spec fn json_escape(c: char) -> Seq<char> {
    let v = c as u32;
    if c == '"' {
        seq!['\\', '"']
    } else if c == '\\' {
        seq!['\\', '\\']
    } else if v == 0x08 {
        seq!['\\', 'b']
    } else if v == 0x09 {
        seq!['\\', 't']
    } else if v == 0x0A {
        seq!['\\', 'n']
    } else if v == 0x0C {
        seq!['\\', 'f']
    } else if v == 0x0D {
        seq!['\\', 'r']
    } else if v < 0x20 {
        seq!['\\', 'u', '0', '0', hex_digit((v / 16) as nat), hex_digit((v % 16) as nat)]
    } else {
        seq![c]
    }
}

/// The characters of `s`, each written as `json_escape` says.
pub open spec fn json_escaped(s: Seq<char>) -> Seq<char>
    decreases s.len(),
{
    if s.len() == 0 {
        Seq::empty()
    } else {
        json_escaped(s.drop_last()) + json_escape(s.last())
    }
}

/// What `serde_json::to_string` writes for the string `s`: the escaped text between
/// double quotes.
pub open spec fn json_quoted(s: Seq<char>) -> Seq<char> {
    seq!['"'] + json_escaped(s) + seq!['"']
}

/// Writes `s` as a JSON string with `serde_json::to_string`, which cannot fail on a
/// string. The contract states what its source does (`format_escaped_str` with the
/// `ESCAPE` table of `ser.rs`): the text between double quotes, each character
/// escaped as `json_escape` says.
#[verifier::external_body]
fn quote_json(s: &str) -> (r: String)
    ensures
        r@ == json_quoted(s@),
{
    serde_json::to_string(s).unwrap_or_default()
}

/// The compact JSON text of a value, as `serde_json` writes it (`to_string`): no
/// whitespace, array items and object entries separated by commas, entries in the
/// order the object holds them.
pub open spec fn json_text(v: JsonValue) -> Seq<char>
    decreases v,
{
    match v {
        JsonValue::Null => "null"@,
        JsonValue::Bool(b) => if b {
            "true"@
        } else {
            "false"@
        },
        JsonValue::Number(t) => t@,
        JsonValue::Str(s) => json_quoted(s@),
        JsonValue::Array(items) => "["@ + items_json(items@) + "]"@,
        JsonValue::Object(entries) => "{"@ + entries_json(entries@) + "}"@,
    }
}

/// The texts of values, separated by commas.
pub open spec fn items_json(items: Seq<JsonValue>) -> Seq<char>
    decreases items,
{
    if items.len() == 0 {
        Seq::empty()
    } else if items.len() == 1 {
        json_text(items[0])
    } else {
        items_json(items.subrange(0, items.len() - 1)) + ","@ + json_text(items[items.len() - 1])
    }
}

/// The texts of object entries, `"key":value`, separated by commas.
pub open spec fn entries_json(entries: Seq<(String, JsonValue)>) -> Seq<char>
    decreases entries,
{
    if entries.len() == 0 {
        Seq::empty()
    } else if entries.len() == 1 {
        json_quoted(entries[0].0@) + ":"@ + json_text(entries[0].1)
    } else {
        entries_json(entries.subrange(0, entries.len() - 1)) + ","@ + json_quoted(
            entries[entries.len() - 1].0@,
        ) + ":"@ + json_text(entries[entries.len() - 1].1)
    }
}

/// The compact JSON text of a value.
pub fn compact_json(v: &JsonValue) -> (r: String)
    ensures
        r@ == json_text(*v),
    decreases v,
{
    match v {
        JsonValue::Null => crate::message::owned("null"),
        JsonValue::Bool(b) => crate::message::owned(
            if *b {
                "true"
            } else {
                "false"
            },
        ),
        JsonValue::Number(t) => string_of(chars_of(t.as_str())),
        JsonValue::Str(s) => quote_json(s.as_str()),
        JsonValue::Array(items) => {
            let mut out: Vec<char> = Vec::new();
            push_str(&mut out, "[");
            let ghost head = out@;
            let mut k: usize = 0;
            while k < items.len()
                invariant
                    k <= items@.len(),
                    *v == JsonValue::Array(*items),
                    out@ == head + items_json(items@.subrange(0, k as int)),
                decreases items@.len() - k,
            {
                if k > 0 {
                    push_str(&mut out, ",");
                }
                proof {
                    let whole = *v;
                    assert(decreases_to!(whole => whole->Array_0));
                    assert(decreases_to!(whole->Array_0 => whole->Array_0@));
                    assert(decreases_to!(whole->Array_0@ => whole->Array_0@[k as int]));
                }
                let item = compact_json(&items[k]);
                push_str(&mut out, item.as_str());
                proof {
                    let s = items@.subrange(0, k + 1);
                    assert(s.subrange(0, s.len() - 1) =~= items@.subrange(0, k as int));
                    assert(s[s.len() - 1] == items@[k as int]);
                    if k == 0 {
                        assert(out@ =~= head + items_json(s));
                    } else {
                        assert(out@ =~= head + items_json(s));
                    }
                }
                k = k + 1;
            }
            push_str(&mut out, "]");
            assert(items@.subrange(0, items@.len() as int) =~= items@);
            string_of(out)
        },
        JsonValue::Object(entries) => {
            let mut out: Vec<char> = Vec::new();
            push_str(&mut out, "{");
            let ghost head = out@;
            let mut k: usize = 0;
            while k < entries.len()
                invariant
                    k <= entries@.len(),
                    *v == JsonValue::Object(*entries),
                    out@ == head + entries_json(entries@.subrange(0, k as int)),
                decreases entries@.len() - k,
            {
                if k > 0 {
                    push_str(&mut out, ",");
                }
                let entry = &entries[k];
                let key = quote_json(entry.0.as_str());
                push_str(&mut out, key.as_str());
                push_str(&mut out, ":");
                proof {
                    let whole = *v;
                    assert(decreases_to!(whole => whole->Object_0));
                    assert(decreases_to!(whole->Object_0 => whole->Object_0@));
                    assert(decreases_to!(whole->Object_0@ => whole->Object_0@[k as int]));
                    assert(decreases_to!(whole->Object_0@[k as int] => whole->Object_0@[k as int].1));
                }
                let text = compact_json(&entry.1);
                push_str(&mut out, text.as_str());
                proof {
                    let s = entries@.subrange(0, k + 1);
                    assert(s.subrange(0, s.len() - 1) =~= entries@.subrange(0, k as int));
                    assert(s[s.len() - 1] == entries@[k as int]);
                    assert(out@ =~= head + entries_json(s));
                }
                k = k + 1;
            }
            push_str(&mut out, "}");
            assert(entries@.subrange(0, entries@.len() as int) =~= entries@);
            string_of(out)
        },
    }
}

proof fn lemma_first_field_update(
    es: Seq<(String, JsonValue)>,
    i: int,
    e: (String, JsonValue),
    k: Seq<char>,
)
    requires
        0 <= i < es.len(),
        es[i].0@ == e.0@,
        forall|j: int| 0 <= j < i ==> (#[trigger] es[j]).0@ != e.0@,
    ensures
        first_field(es.update(i, e), e.0@) == Some(e.1),
        k != e.0@ ==> first_field(es.update(i, e), k) == first_field(es, k),
    decreases i,
{
    let up = es.update(i, e);
    if i > 0 {
        lemma_first_field_update(es.drop_first(), i - 1, e, k);
        assert(up.drop_first() =~= es.drop_first().update(i - 1, e));
        assert(up[0] == es[0]);
    } else {
        assert(up[0] == e);
        assert(up.drop_first() =~= es.drop_first());
    }
}

proof fn lemma_first_field_push(es: Seq<(String, JsonValue)>, e: (String, JsonValue), k: Seq<char>)
    requires
        forall|j: int| 0 <= j < es.len() ==> (#[trigger] es[j]).0@ != e.0@,
    ensures
        first_field(es.push(e), e.0@) == Some(e.1),
        k != e.0@ ==> first_field(es.push(e), k) == first_field(es, k),
    decreases es.len(),
{
    let pushed = es.push(e);
    if es.len() > 0 {
        lemma_first_field_push(es.drop_first(), e, k);
        assert(pushed.drop_first() =~= es.drop_first().push(e));
        assert(pushed[0] == es[0]);
    } else {
        assert(pushed[0] == e);
        assert(pushed.drop_first() =~= Seq::<(String, JsonValue)>::empty());
        assert(first_field(Seq::<(String, JsonValue)>::empty(), k) is None);
    }
}

impl JsonValue {
    /// The value with the entry `key` set to `value`, as `value[key] = ...` sets it:
    /// an entry of that name is replaced, else one is added; `null` is first made an
    /// empty object. (Any other value has no entries to set.)
    pub fn with_field(self, key: &str, value: JsonValue) -> (r: JsonValue)
        requires
            self is Object || self is Null,
        ensures
            r is Object,
            field(r, key@) == Some(value),
            forall|k: Seq<char>| k != key@ ==> field(r, k) == field(self, k),
    {
        let ghost old_self = self;
        let mut entries = match self {
            JsonValue::Object(es) => es,
            _ => Vec::new(),
        };
        let ghost es0 = entries@;
        assert(forall|k: Seq<char>| field(old_self, k) == first_field(es0, k));
        let mut found: Option<usize> = None;
        let mut k: usize = 0;
        while k < entries.len()
            invariant
                k <= entries@.len(),
                entries@ == es0,
                found is None ==> forall|j: int| 0 <= j < k ==> (#[trigger] es0[j]).0@ != key@,
                found matches Some(i) ==> i < es0.len() && es0[i as int].0@ == key@ && forall|
                    j: int,
                | 0 <= j < i ==> (#[trigger] es0[j]).0@ != key@,
            decreases entries@.len() - k,
        {
            if found.is_none() && same_text(entries[k].0.as_str(), key) {
                found = Some(k);
            }
            k = k + 1;
        }
        let entry = (crate::message::owned(key), value);
        match found {
            Some(i) => {
                proof {
                    assert forall|k: Seq<char>| k != key@ implies first_field(es0.update(i as int, entry), k)
                        == first_field(es0, k) by {
                        lemma_first_field_update(es0, i as int, entry, k);
                    }
                    lemma_first_field_update(es0, i as int, entry, key@);
                }
                entries.set(i, entry);
            },
            None => {
                proof {
                    assert forall|k: Seq<char>| k != key@ implies first_field(es0.push(entry), k)
                        == first_field(es0, k) by {
                        lemma_first_field_push(es0, entry, k);
                    }
                    lemma_first_field_push(es0, entry, key@);
                }
                entries.push(entry);
            },
        }
        JsonValue::Object(entries)
    }
}

} // verus!
