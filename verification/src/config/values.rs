//! Reading single configured values: booleans in git's spelling, positive counts,
//! comma-separated lists, and JSON with comments.
use vstd::prelude::*;

use super::provider::{digits_value, is_digit, without_trailing_slashes};
use crate::lines::{range_seqs, ranges_within, split_char, split_ranges};
use crate::message::owned;
use crate::text::{
    chars_of, equals_str, lower_seq, slice_range, string_of, trim, trim_bounds, trimmed_lower,
};

verus! {

/// `value` trimmed, or nothing if that leaves it empty.
pub open spec fn nonempty_trimmed(value: Seq<char>) -> Option<Seq<char>> {
    if trim(value).len() == 0 {
        None
    } else {
        Some(trim(value))
    }
}

pub open spec fn opt_text(o: Option<String>) -> Option<Seq<char>> {
    match o {
        Some(s) => Some(s@),
        None => None,
    }
}

/// `value` trimmed, or `None` if that leaves it empty.
pub fn non_empty_trimmed(value: String) -> (r: Option<String>)
    ensures
        opt_text(r) == nonempty_trimmed(value@),
{
    let cs = chars_of(value.as_str());
    let (a, b) = trim_bounds(cs.as_slice(), 0, cs.len());
    assert(cs@.subrange(0, cs@.len() as int) =~= cs@);
    if a == b {
        None
    } else {
        Some(string_of(slice_range(cs.as_slice(), a, b)))
    }
}

/// A boolean as git spells it, in any ASCII case and with surrounding whitespace.
pub open spec fn git_bool(raw: Seq<char>) -> Option<bool> {
    let w = lower_seq(trim(raw));
    if w == "true"@ || w == "yes"@ || w == "on"@ || w == "1"@ {
        Some(true)
    } else if w == "false"@ || w == "no"@ || w == "off"@ || w == "0"@ {
        Some(false)
    } else {
        None
    }
}

/// A boolean as git spells it.
pub fn parse_git_bool(raw: &str) -> (r: Option<bool>)
    ensures
        r == git_bool(raw@),
{
    let w = trimmed_lower(raw);
    let w = w.as_slice();
    if equals_str(w, "true") || equals_str(w, "yes") || equals_str(w, "on") || equals_str(w, "1") {
        Some(true)
    } else if equals_str(w, "false") || equals_str(w, "no") || equals_str(w, "off") || equals_str(
        w,
        "0",
    ) {
        Some(false)
    } else {
        None
    }
}

pub open spec fn all_digits(s: Seq<char>) -> bool {
    forall|i: int| 0 <= i < s.len() ==> is_digit(#[trigger] s[i])
}

/// The number `usize::from_str` reads from `t`: decimal digits after an optional
/// `+`, within `usize`.
pub open spec fn usize_text(t: Seq<char>) -> Option<nat> {
    let d = if t.len() > 0 && t[0] == '+' {
        t.drop_first()
    } else {
        t
    };
    if d.len() > 0 && all_digits(d) && digits_value(d) <= usize::MAX {
        Some(digits_value(d))
    } else {
        None
    }
}

/// A positive count, with surrounding whitespace.
pub open spec fn positive_count(raw: Seq<char>) -> Option<nat> {
    match usize_text(trim(raw)) {
        Some(v) => if v > 0 {
            Some(v)
        } else {
            None
        },
        None => None,
    }
}

proof fn lemma_digits_prefix_le(s: Seq<char>, k: int)
    requires
        0 <= k <= s.len(),
        all_digits(s),
    ensures
        digits_value(s.take(k)) <= digits_value(s),
    decreases s.len() - k,
{
    if k < s.len() {
        lemma_digits_prefix_le(s, k + 1);
        assert(s.take(k + 1).drop_last() =~= s.take(k));
    } else {
        assert(s.take(k) =~= s);
    }
}

/// The number in `s[lo..hi]`, if it is all digits and fits in `usize`.
fn digits_to_usize(s: &[char], lo: usize, hi: usize) -> (r: Option<usize>)
    requires
        lo <= hi <= s@.len(),
    ensures
        ({
            let d = s@.subrange(lo as int, hi as int);
            match r {
                Some(v) => all_digits(d) && v == digits_value(d),
                None => !all_digits(d) || digits_value(d) > usize::MAX,
            }
        }),
{
    let ghost d = s@.subrange(lo as int, hi as int);
    let mut v: usize = 0;
    let mut k = lo;
    while k < hi
        invariant
            lo <= k <= hi <= s@.len(),
            d == s@.subrange(lo as int, hi as int),
            forall|i: int| 0 <= i < k - lo ==> is_digit(#[trigger] d[i]),
            v == digits_value(d.take(k - lo)),
        decreases hi - k,
    {
        let c = s[k];
        assert(d[k - lo] == c);
        if !('0' <= c && c <= '9') {
            return None;
        }
        assert(d.take(k - lo + 1).drop_last() =~= d.take(k - lo));
        let digit = (c as u32 - '0' as u32) as usize;
        let next = match v.checked_mul(10) {
            Some(m) => m.checked_add(digit),
            None => None,
        };
        match next {
            Some(n) => {
                v = n;
            },
            None => {
                proof {
                    let j = k - lo + 1;
                    assert(digits_value(d.take(j)) > usize::MAX);
                    if all_digits(d) {
                        lemma_digits_prefix_le(d, j);
                    }
                }
                return None;
            },
        }
        k = k + 1;
    }
    assert(d.take(k - lo) =~= d);
    Some(v)
}

/// A positive count, with surrounding whitespace.
pub fn parse_positive_usize(raw: &str) -> (r: Option<usize>)
    ensures
        match r {
            Some(v) => positive_count(raw@) == Some(v as nat),
            None => positive_count(raw@) is None,
        },
{
    let cs = chars_of(raw);
    let (a, b) = trim_bounds(cs.as_slice(), 0, cs.len());
    assert(cs@.subrange(0, cs@.len() as int) =~= cs@);
    let ghost t = cs@.subrange(a as int, b as int);
    let start = if a < b && cs[a] == '+' {
        assert(t[0] == cs@[a as int]);
        a + 1
    } else {
        a
    };
    assert(start > a ==> t.drop_first() =~= cs@.subrange(start as int, b as int));
    assert(start == a ==> t =~= cs@.subrange(start as int, b as int));
    if start == b {
        return None;
    }
    match digits_to_usize(cs.as_slice(), start, b) {
        Some(v) => if v > 0 {
            Some(v)
        } else {
            None
        },
        None => None,
    }
}

/// The pieces kept from a comma-separated list: trimmed, without trailing slashes,
/// and not empty.
pub open spec fn list_entries(pieces: Seq<Seq<char>>) -> Seq<Seq<char>>
    decreases pieces.len(),
{
    if pieces.len() == 0 {
        Seq::empty()
    } else {
        let e = without_trailing_slashes(trim(pieces.last()));
        if e.len() == 0 {
            list_entries(pieces.drop_last())
        } else {
            list_entries(pieces.drop_last()).push(e)
        }
    }
}

/// The entries of a comma-separated list.
pub open spec fn comma_list(raw: Seq<char>) -> Seq<Seq<char>> {
    list_entries(split_char(raw, ','))
}

/// The entries of a comma-separated list: each trimmed and without trailing slashes,
/// empty ones dropped.
pub fn parse_comma_list(raw: &str) -> (r: Vec<String>)
    ensures
        crate::diff_parse::texts(r@) == comma_list(raw@),
{
    let cs = chars_of(raw);
    let ranges = split_ranges(cs.as_slice(), 0, cs.len(), ',');
    assert(cs@.subrange(0, cs@.len() as int) =~= cs@);
    let ghost pieces = split_char(cs@, ',');
    let mut out: Vec<String> = Vec::new();
    let mut k: usize = 0;
    assert(pieces.take(0) =~= Seq::<Seq<char>>::empty());
    assert(crate::diff_parse::texts(out@) =~= Seq::<Seq<char>>::empty());
    while k < ranges.len()
        invariant
            k <= ranges@.len(),
            range_seqs(cs@, ranges@) == pieces,
            pieces == split_char(cs@, ','),
            ranges_within(ranges@, 0, cs@.len() as int),
            crate::diff_parse::texts(out@) == list_entries(pieces.take(k as int)),
        decreases ranges@.len() - k,
    {
        let (a, b) = ranges[k];
        assert(ranges@[k as int].0 <= ranges@[k as int].1);
        assert(pieces[k as int] == cs@.subrange(a as int, b as int));
        let (ta, tb) = trim_bounds(cs.as_slice(), a, b);
        let mut e = tb;
        assert(cs@.subrange(ta as int, e as int) =~= cs@.subrange(ta as int, tb as int).take(
            (e - ta) as int,
        ));
        while e > ta && cs[e - 1] == '/'
            invariant
                ta <= e <= tb <= cs@.len(),
                without_trailing_slashes(cs@.subrange(ta as int, tb as int))
                    == without_trailing_slashes(cs@.subrange(ta as int, e as int)),
            decreases e,
        {
            assert(cs@.subrange(ta as int, e as int).drop_last() =~= cs@.subrange(
                ta as int,
                e - 1,
            ));
            e = e - 1;
        }
        assert(without_trailing_slashes(cs@.subrange(ta as int, e as int)) == cs@.subrange(
            ta as int,
            e as int,
        ));
        assert(pieces.take(k + 1).drop_last() =~= pieces.take(k as int));
        if e > ta {
            let ghost before = out@;
            out.push(string_of(slice_range(cs.as_slice(), ta, e)));
            assert(crate::diff_parse::texts(out@) =~= crate::diff_parse::texts(before).push(
                cs@.subrange(ta as int, e as int),
            ));
        }
        k = k + 1;
    }
    assert(pieces.take(k as int) =~= pieces);
    out
}

/// Where the comment stripper is in the text.
#[derive(Clone, Copy, PartialEq, Eq, Structural)]
pub enum JsoncState {
    Normal,
    InString,
    Escaped,
    LineComment,
    BlockComment,
}

/// Whether `s[i + 1]` is `c`.
pub open spec fn next_is(s: Seq<char>, i: int, c: char) -> bool {
    i + 1 < s.len() && s[i + 1] == c
}

/// The text from `s[i]` on with comments blanked out, in state `st`.
pub open spec fn jsonc_from(s: Seq<char>, i: int, st: JsoncState) -> Seq<char>
    decreases s.len() - i,
{
    if i < 0 || i >= s.len() {
        Seq::empty()
    } else {
        let ch = s[i];
        match st {
            JsoncState::Normal => if ch == '"' {
                seq![ch] + jsonc_from(s, i + 1, JsoncState::InString)
            } else if ch == '/' && next_is(s, i, '/') {
                seq![' ', ' '] + jsonc_from(s, i + 2, JsoncState::LineComment)
            } else if ch == '/' && next_is(s, i, '*') {
                seq![' ', ' '] + jsonc_from(s, i + 2, JsoncState::BlockComment)
            } else {
                seq![ch] + jsonc_from(s, i + 1, JsoncState::Normal)
            },
            JsoncState::InString => seq![ch] + jsonc_from(
                s,
                i + 1,
                if ch == '\\' {
                    JsoncState::Escaped
                } else if ch == '"' {
                    JsoncState::Normal
                } else {
                    JsoncState::InString
                },
            ),
            JsoncState::Escaped => seq![ch] + jsonc_from(s, i + 1, JsoncState::InString),
            JsoncState::LineComment => if ch == '\n' {
                seq!['\n'] + jsonc_from(s, i + 1, JsoncState::Normal)
            } else {
                seq![' '] + jsonc_from(s, i + 1, JsoncState::LineComment)
            },
            JsoncState::BlockComment => if ch == '*' && next_is(s, i, '/') {
                seq![' ', ' '] + jsonc_from(s, i + 2, JsoncState::Normal)
            } else if ch == '\n' {
                seq!['\n'] + jsonc_from(s, i + 1, JsoncState::BlockComment)
            } else {
                seq![' '] + jsonc_from(s, i + 1, JsoncState::BlockComment)
            },
        }
    }
}

/// Each character of `out` is the one of `s` at the same place from `i` on, or a
/// space that replaces one that is no newline.
pub open spec fn blanked_from(s: Seq<char>, i: int, out: Seq<char>) -> bool {
    &&& out.len() == s.len() - i
    &&& forall|k: int|
        0 <= k < out.len() ==> (#[trigger] out[k] == s[i + k] || (out[k] == ' ' && s[i + k]
            != '\n'))
}

proof fn lemma_jsonc_from_blanks(s: Seq<char>, i: int, st: JsoncState)
    requires
        0 <= i <= s.len(),
    ensures
        blanked_from(s, i, jsonc_from(s, i, st)),
    decreases s.len() - i,
{
    if i < s.len() {
        let ch = s[i];
        let out = jsonc_from(s, i, st);
        let two = (st == JsoncState::Normal && ch == '/' && (next_is(s, i, '/') || next_is(
            s,
            i,
            '*',
        ))) || (st == JsoncState::BlockComment && ch == '*' && next_is(s, i, '/'));
        if two {
            let next = if st == JsoncState::Normal && next_is(s, i, '/') {
                JsoncState::LineComment
            } else if st == JsoncState::Normal {
                JsoncState::BlockComment
            } else {
                JsoncState::Normal
            };
            lemma_jsonc_from_blanks(s, i + 2, next);
            let rest = jsonc_from(s, i + 2, next);
            assert(out == seq![' ', ' '] + rest);
            assert forall|k: int| 0 <= k < out.len() implies (#[trigger] out[k] == s[i + k] || (
            out[k] == ' ' && s[i + k] != '\n')) by {
                if k >= 2 {
                    assert(out[k] == rest[k - 2]);
                }
            }
        } else {
            let next = match st {
                JsoncState::Normal => if ch == '"' {
                    JsoncState::InString
                } else {
                    JsoncState::Normal
                },
                JsoncState::InString => if ch == '\\' {
                    JsoncState::Escaped
                } else if ch == '"' {
                    JsoncState::Normal
                } else {
                    JsoncState::InString
                },
                JsoncState::Escaped => JsoncState::InString,
                JsoncState::LineComment => if ch == '\n' {
                    JsoncState::Normal
                } else {
                    JsoncState::LineComment
                },
                JsoncState::BlockComment => JsoncState::BlockComment,
            };
            lemma_jsonc_from_blanks(s, i + 1, next);
            let rest = jsonc_from(s, i + 1, next);
            assert(out == seq![out[0]] + rest);
            assert forall|k: int| 0 <= k < out.len() implies (#[trigger] out[k] == s[i + k] || (
            out[k] == ' ' && s[i + k] != '\n')) by {
                if k >= 1 {
                    assert(out[k] == rest[k - 1]);
                }
            }
        }
    }
}

/// Blanking comments keeps the text's layout: the same number of characters, each
/// kept or replaced by a space, and every newline where it was.
pub proof fn law_jsonc_stripping_keeps_layout(s: Seq<char>)
    ensures
        without_jsonc_comments(s).len() == s.len(),
        forall|k: int|
            0 <= k < s.len() ==> (#[trigger] without_jsonc_comments(s)[k] == s[k] || (
            without_jsonc_comments(s)[k] == ' ' && s[k] != '\n')),
{
    lemma_jsonc_from_blanks(s, 0, JsoncState::Normal);
    let out = without_jsonc_comments(s);
    assert forall|k: int| 0 <= k < s.len() implies (#[trigger] out[k] == s[k] || (out[k] == ' '
        && s[k] != '\n')) by {
        assert(out[k] == s[0 + k] || (out[k] == ' ' && s[0 + k] != '\n'));
    }
}

/// JSON text with its `//` and `/* */` comments blanked out.
pub open spec fn without_jsonc_comments(s: Seq<char>) -> Seq<char> {
    jsonc_from(s, 0, JsoncState::Normal)
}

/// Blanks out `//` and `/* */` comments outside strings, keeping newlines.
pub fn strip_jsonc_comments(content: &str) -> (r: String)
    ensures
        r@ == without_jsonc_comments(content@),
        r@.len() == content@.len(),
        forall|k: int|
            0 <= k < content@.len() ==> (#[trigger] r@[k] == content@[k] || (r@[k] == ' '
                && content@[k] != '\n')),
{
    proof {
        law_jsonc_stripping_keeps_layout(content@);
    }
    let s = chars_of(content);
    let n = s.len();
    let mut out: Vec<char> = Vec::new();
    let mut state = JsoncState::Normal;
    let mut i: usize = 0;
    while i < n
        invariant
            i <= n,
            n == s@.len(),
            s@ == content@,
            out@ + jsonc_from(s@, i as int, state) == without_jsonc_comments(content@),
        decreases n - i,
    {
        let ch = s[i];
        let next_slash = i + 1 < n && s[i + 1] == '/';
        let next_star = i + 1 < n && s[i + 1] == '*';
        let ghost before = out@;
        let ghost st = state;
        let ghost old_i = i;
        match state {
            JsoncState::Normal => {
                if ch == '"' {
                    out.push(ch);
                    state = JsoncState::InString;
                    i = i + 1;
                } else if ch == '/' && next_slash {
                    out.push(' ');
                    out.push(' ');
                    state = JsoncState::LineComment;
                    i = i + 2;
                } else if ch == '/' && next_star {
                    out.push(' ');
                    out.push(' ');
                    state = JsoncState::BlockComment;
                    i = i + 2;
                } else {
                    out.push(ch);
                    i = i + 1;
                }
            },
            JsoncState::InString => {
                out.push(ch);
                if ch == '\\' {
                    state = JsoncState::Escaped;
                } else if ch == '"' {
                    state = JsoncState::Normal;
                }
                i = i + 1;
            },
            JsoncState::Escaped => {
                out.push(ch);
                state = JsoncState::InString;
                i = i + 1;
            },
            JsoncState::LineComment => {
                if ch == '\n' {
                    out.push('\n');
                    state = JsoncState::Normal;
                } else {
                    out.push(' ');
                }
                i = i + 1;
            },
            JsoncState::BlockComment => {
                if ch == '*' && next_slash {
                    out.push(' ');
                    out.push(' ');
                    state = JsoncState::Normal;
                    i = i + 2;
                } else {
                    if ch == '\n' {
                        out.push('\n');
                    } else {
                        out.push(' ');
                    }
                    i = i + 1;
                }
            },
        }
        assert(out@ + jsonc_from(s@, i as int, state) =~= before + jsonc_from(
            s@,
            old_i as int,
            st,
        ));
    }
    assert(out@ + jsonc_from(s@, i as int, state) =~= out@);
    string_of(out)
}

} // verus!
