//! Text for debugging a provider: error chains, headers, and the last bytes of a
//! stream in hexadecimal.
use vstd::prelude::*;

use super::sse::{preview, preview_text};
use crate::config::resolve::joined;
use crate::git::hex_digit;
use crate::text::{chars_of, contains, contains_str, lower_seq, lowered, push_str, string_of};

verus! {

/// How many causes of an error are named.
pub const ERROR_CHAIN_LIMIT: usize = 8;

/// The messages with a message dropped where it repeats the one kept before it.
pub open spec fn without_repeats(ms: Seq<Seq<char>>) -> Seq<Seq<char>>
    decreases ms.len(),
{
    if ms.len() == 0 {
        Seq::empty()
    } else {
        let r = without_repeats(ms.drop_last());
        if r.len() > 0 && r.last() == ms.last() {
            r
        } else {
            r.push(ms.last())
        }
    }
}

pub open spec fn texts(v: Seq<String>) -> Seq<Seq<char>> {
    v.map_values(|s: String| s@)
}

/// An error and its causes in one line: the error's message and those of at most
/// eight causes, a message that repeats the one before it left out, joined with
/// `; caused by: `.
pub open spec fn error_chain(chain: Seq<Seq<char>>) -> Seq<char> {
    let kept = if chain.len() > ERROR_CHAIN_LIMIT + 1 {
        chain.take(ERROR_CHAIN_LIMIT + 1)
    } else {
        chain
    };
    joined(without_repeats(kept), "; caused by: "@)
}

/// An error and its causes in one line, from the messages of the error and of each
/// cause in turn.
pub fn describe_error_chain(chain: &Vec<String>) -> (r: String)
    ensures
        r@ == error_chain(texts(chain@)),
{
    let ghost all = texts(chain@);
    let n = if chain.len() > ERROR_CHAIN_LIMIT + 1 {
        ERROR_CHAIN_LIMIT + 1
    } else {
        chain.len()
    };
    let ghost kept = all.take(n as int);
    assert(chain.len() <= ERROR_CHAIN_LIMIT + 1 ==> kept =~= all);
    let mut out: Vec<char> = Vec::new();
    let mut last: Option<&String> = None;
    let mut k: usize = 0;
    while k < n
        invariant
            k <= n <= chain@.len(),
            all == texts(chain@),
            kept == all.take(n as int),
            ({
                let r = without_repeats(kept.take(k as int));
                &&& out@ == joined(r, "; caused by: "@)
                &&& (r.len() == 0 <==> last is None)
                &&& last matches Some(l) ==> l@ == r.last()
            }),
        decreases n - k,
    {
        let m = &chain[k];
        assert(kept.take(k + 1).drop_last() =~= kept.take(k as int));
        assert(kept.take(k + 1).last() == m@);
        let ghost r = without_repeats(kept.take(k as int));
        let ghost r2 = without_repeats(kept.take(k + 1));
        let repeated = match last {
            Some(l) => crate::text::equals_str(chars_of(l.as_str()).as_slice(), m.as_str()),
            None => false,
        };
        if !repeated {
            assert(r2 == r.push(m@));
            assert(r2.drop_last() =~= r);
            if last.is_some() {
                push_str(&mut out, "; caused by: ");
            }
            push_str(&mut out, m.as_str());
            last = Some(m);
            assert(out@ =~= joined(r2, "; caused by: "@));
        } else {
            assert(r2 == r);
        }
        k = k + 1;
    }
    assert(kept.take(n as int) =~= kept);
    string_of(out)
}

/// A header value as a debug line shows it: whitespace collapsed, at most 240
/// characters.
pub fn preview_header_value(value: &str) -> (r: String)
    ensures
        r@ == preview(value@),
{
    preview_text(value)
}

/// A header as `name=value`; a value that is no text shows as `<non-utf8>`.
pub open spec fn header_text(h: (Seq<char>, Option<Seq<char>>)) -> Seq<char> {
    h.0 + "="@ + match h.1 {
        Some(v) => v,
        None => "<non-utf8>"@,
    }
}

pub open spec fn header_views(hs: Seq<(String, Option<String>)>) -> Seq<Seq<char>> {
    hs.map_values(
        |h: (String, Option<String>)|
            header_text(
                (
                    h.0@,
                    match h.1 {
                        Some(v) => Some(v@),
                        None => None,
                    },
                ),
            ),
    )
}

/// Headers as one line, `name=value` pairs separated by commas.
pub fn format_headers(headers: &Vec<(String, Option<String>)>) -> (r: String)
    ensures
        r@ == joined(header_views(headers@), ", "@),
{
    let ghost all = header_views(headers@);
    let mut out: Vec<char> = Vec::new();
    let mut k: usize = 0;
    while k < headers.len()
        invariant
            k <= headers@.len(),
            all == header_views(headers@),
            out@ == joined(all.take(k as int), ", "@),
        decreases headers@.len() - k,
    {
        if k > 0 {
            push_str(&mut out, ", ");
        }
        let (name, value) = &headers[k];
        push_str(&mut out, name.as_str());
        push_str(&mut out, "=");
        match value {
            Some(v) => push_str(&mut out, v.as_str()),
            None => push_str(&mut out, "<non-utf8>"),
        }
        assert(all.take(k + 1).drop_last() =~= all.take(k as int));
        assert(all[k as int] == header_text(
            (
                name@,
                match value {
                    Some(v) => Some(v@),
                    None => None,
                },
            ),
        ));
        assert(out@ =~= joined(all.take(k + 1), ", "@));
        k = k + 1;
    }
    assert(all.take(k as int) =~= all);
    string_of(out)
}

/// The last `limit` bytes of what was kept and a new chunk.
pub open spec fn tail_after(buffer: Seq<u8>, chunk: Seq<u8>, limit: nat) -> Seq<u8> {
    if chunk.len() == 0 {
        buffer
    } else {
        let all = buffer + chunk;
        if all.len() > limit {
            all.skip(all.len() - limit)
        } else {
            all
        }
    }
}

/// Keeps the last `limit` bytes of a stream, a chunk at a time.
pub fn push_tail_bytes(buffer: &mut Vec<u8>, chunk: &[u8], limit: usize)
    ensures
        final(buffer)@ == tail_after(old(buffer)@, chunk@, limit as nat),
{
    if chunk.len() == 0 {
        return;
    }
    let ghost all = old(buffer)@ + chunk@;
    let mut k: usize = 0;
    while k < chunk.len()
        invariant
            k <= chunk@.len(),
            all == old(buffer)@ + chunk@,
            buffer@ == old(buffer)@ + chunk@.take(k as int),
        decreases chunk@.len() - k,
    {
        buffer.push(chunk[k]);
        assert(chunk@.take(k + 1) =~= chunk@.take(k as int).push(chunk@[k as int]));
        assert(buffer@ =~= old(buffer)@ + chunk@.take(k + 1));
        k = k + 1;
    }
    assert(chunk@.take(k as int) =~= chunk@);
    if buffer.len() > limit {
        let overflow = buffer.len() - limit;
        let mut kept: Vec<u8> = Vec::new();
        let mut i = overflow;
        while i < buffer.len()
            invariant
                overflow <= i <= buffer@.len(),
                buffer@ == all,
                kept@ == all.subrange(overflow as int, i as int),
            decreases buffer@.len() - i,
        {
            kept.push(buffer[i]);
            assert(all.subrange(overflow as int, i + 1) =~= all.subrange(overflow as int, i as int).push(
                all[i as int],
            ));
            i = i + 1;
        }
        assert(all.subrange(overflow as int, all.len() as int) =~= all.skip(overflow as int));
        *buffer = kept;
    }
}

/// A byte as two lower-case hexadecimal digits.
pub open spec fn byte_hex(b: u8) -> Seq<char> {
    seq![hex_digit((b / 16) as nat), hex_digit((b % 16) as nat)]
}

/// Bytes in hexadecimal, sixteen to a line, separated by spaces.
pub open spec fn hex_dump(bytes: Seq<u8>) -> Seq<char>
    decreases bytes.len(),
{
    if bytes.len() == 0 {
        Seq::empty()
    } else {
        let k = bytes.len() - 1;
        hex_dump(bytes.drop_last()) + (if k == 0 {
            Seq::empty()
        } else if k % 16 == 0 {
            seq!['\n']
        } else {
            seq![' ']
        }) + byte_hex(bytes.last())
    }
}

fn hex_char(d: u8) -> (c: char)
    requires
        d < 16,
    ensures
        c == hex_digit(d as nat),
{
    if d < 10 {
        (('0' as u8) + d) as char
    } else {
        (('a' as u8) + d - 10) as char
    }
}

/// Bytes in hexadecimal, sixteen to a line.
pub fn format_hex(bytes: &[u8]) -> (r: String)
    ensures
        r@ == hex_dump(bytes@),
{
    let mut out: Vec<char> = Vec::new();
    let mut k: usize = 0;
    while k < bytes.len()
        invariant
            k <= bytes@.len(),
            out@ == hex_dump(bytes@.take(k as int)),
        decreases bytes@.len() - k,
    {
        if k > 0 {
            if k % 16 == 0 {
                out.push('\n');
            } else {
                out.push(' ');
            }
        }
        let b = bytes[k];
        out.push(hex_char(b / 16));
        out.push(hex_char(b % 16));
        assert(bytes@.take(k + 1).drop_last() =~= bytes@.take(k as int));
        assert(bytes@.take(k + 1).last() == b);
        assert(out@ =~= hex_dump(bytes@.take(k + 1)));
        k = k + 1;
    }
    assert(bytes@.take(k as int) =~= bytes@);
    string_of(out)
}

/// Whether an error says the provider takes only `json_object` structured output.
pub open spec fn json_object_only(error: Seq<char>) -> bool {
    let l = lower_seq(error);
    contains(l, "does not support 'json_schema'"@) && contains(l, "supported formats: json_object"@)
}

/// Whether an error says the provider takes only `json_object` structured output.
pub fn supports_json_object_only(error: &str) -> (b: bool)
    ensures
        b == json_object_only(error@),
{
    let l = lowered(chars_of(error).as_slice());
    contains_str(l.as_slice(), "does not support 'json_schema'") && contains_str(
        l.as_slice(),
        "supported formats: json_object",
    )
}

} // verus!
