//! Server-sent events: cutting a byte stream into events, reading their `data:`
//! lines, and describing a broken stream.
use vstd::prelude::*;

use crate::lines::{join_char, line_ranges, range_seqs, ranges_within, str_lines};
use crate::text::{
    chars_of, decimal, has_prefix, is_whitespace, is_ws, lossy_string, push_decimal, push_range,
    push_str, slice_range, starts_with_str, string_of, trim_start, utf8_lossy,
};

verus! {

/// At most this many bytes of the unread tail are shown when a stream breaks.
pub const TAIL_PREVIEW_LIMIT: usize = 512;

/// At most this many characters of a payload are shown in a preview.
pub const PREVIEW_CHARS: usize = 240;

/// What has been read of a stream so far.
#[derive(Clone, Debug)]
pub struct SseStats {
    pub chunk_count: usize,
    pub total_bytes: usize,
    pub event_count: usize,
    pub content_type: Option<String>,
    pub last_payload_preview: Option<String>,
}

/// Where the first event of `b` from `i` on ends, and the length of the blank line
/// that ends it: `"\r\n\r\n"` or `"\n\n"`, whichever comes first.
pub open spec fn boundary_from(b: Seq<u8>, i: int) -> Option<(int, int)>
    decreases b.len() - i,
{
    if i < 0 || i >= b.len() {
        None
    } else if i + 3 < b.len() && b[i] == 13 && b[i + 1] == 10 && b[i + 2] == 13 && b[i + 3] == 10 {
        Some((i, 4))
    } else if i + 1 < b.len() && b[i] == 10 && b[i + 1] == 10 {
        Some((i, 2))
    } else {
        boundary_from(b, i + 1)
    }
}

/// Where the first event of `buffer` ends, and the length of its separator.
pub fn find_sse_event_boundary(buffer: &[u8]) -> (r: Option<(usize, usize)>)
    ensures
        match r {
            Some((n, sep)) => boundary_from(buffer@, 0) == Some((n as int, sep as int)) && n + sep
                <= buffer@.len(),
            None => boundary_from(buffer@, 0) is None,
        },
{
    let mut idx: usize = 0;
    while idx < buffer.len()
        invariant
            idx <= buffer@.len(),
            boundary_from(buffer@, 0) == boundary_from(buffer@, idx as int),
        decreases buffer@.len() - idx,
    {
        if buffer.len() - idx > 3 && buffer[idx] == 13 && buffer[idx + 1] == 10 && buffer[idx + 2]
            == 13 && buffer[idx + 3] == 10 {
            return Some((idx, 4));
        }
        if buffer.len() - idx > 1 && buffer[idx] == 10 && buffer[idx + 1] == 10 {
            return Some((idx, 2));
        }
        idx = idx + 1;
    }
    None
}

/// `s` without its trailing carriage returns.
pub open spec fn without_trailing_crs(s: Seq<char>) -> Seq<char>
    decreases s.len(),
{
    if s.len() > 0 && s.last() == '\r' {
        without_trailing_crs(s.drop_last())
    } else {
        s
    }
}

/// The `data:` payloads of the lines, and whether a line is no SSE field at all.
pub open spec fn sse_scan(lines: Seq<Seq<char>>) -> (Seq<Seq<char>>, bool)
    decreases lines.len(),
{
    if lines.len() == 0 {
        (Seq::empty(), false)
    } else {
        let (data, other) = sse_scan(lines.drop_last());
        let l = without_trailing_crs(lines.last());
        if has_prefix(l, "data:"@) {
            (data.push(trim_start(l.skip("data:"@.len() as int))), other)
        } else if l.len() == 0 || has_prefix(l, ":"@) || has_prefix(l, "event:"@) || has_prefix(
            l,
            "id:"@,
        ) || has_prefix(l, "retry:"@) {
            (data, other)
        } else {
            (data, true)
        }
    }
}

/// The error for a body that is no event stream.
pub const NON_SSE_BODY_ERROR: &'static str =
    "stream failed: provider returned non-SSE response body while stream=true";

/// The payload of one event: its `data:` lines joined by newlines; none if it has no
/// `data:` line, an error if it also has a line that is no SSE field.
pub open spec fn event_payload(text: Seq<char>) -> Result<Option<Seq<char>>, Seq<char>> {
    let (data, other) = sse_scan(str_lines(text));
    if data.len() == 0 {
        if other {
            Err(NON_SSE_BODY_ERROR@)
        } else {
            Ok(None)
        }
    } else {
        Ok(Some(join_char(data, '\n')))
    }
}

/// The payload of one event.
pub fn event_payload_of(event: &[char]) -> (r: Result<Option<String>, String>)
    ensures
        match event_payload(event@) {
            Ok(Some(p)) => r matches Ok(Some(s)) && s@ == p,
            Ok(None) => r matches Ok(None),
            Err(e) => r matches Err(m) && m@ == e,
        },
{
    let ranges = line_ranges(event, 0, event.len());
    assert(event@.subrange(0, event@.len() as int) =~= event@);
    let ghost lines = str_lines(event@);
    let prefix = chars_of("data:");
    let mut data: Vec<Vec<char>> = Vec::new();
    let mut other = false;
    let mut k: usize = 0;
    assert(lines.take(0) =~= Seq::<Seq<char>>::empty());
    while k < ranges.len()
        invariant
            k <= ranges@.len(),
            range_seqs(event@, ranges@) == lines,
            lines == str_lines(event@),
            ranges_within(ranges@, 0, event@.len() as int),
            prefix@ == "data:"@,
            sse_scan(lines.take(k as int)) == (data@.map_values(|v: Vec<char>| v@), other),
        decreases ranges@.len() - k,
    {
        let (a, b) = ranges[k];
        assert(ranges@[k as int].0 <= ranges@[k as int].1);
        assert(lines[k as int] == event@.subrange(a as int, b as int));
        let mut e = b;
        assert(event@.subrange(a as int, e as int) == lines[k as int]);
        while e > a && event[e - 1] == '\r'
            invariant
                a <= e <= b <= event@.len(),
                without_trailing_crs(lines[k as int]) == without_trailing_crs(
                    event@.subrange(a as int, e as int),
                ),
            decreases e,
        {
            assert(event@.subrange(a as int, e as int).drop_last() =~= event@.subrange(
                a as int,
                e - 1,
            ));
            e = e - 1;
        }
        let line = slice_range(event, a, e);
        assert(without_trailing_crs(line@) == line@);
        assert(lines.take(k + 1).drop_last() =~= lines.take(k as int));
        let ghost before = data@;
        if starts_with_str(line.as_slice(), "data:") {
            let mut s = prefix.len();
            while s < line.len() && is_whitespace(line[s])
                invariant
                    prefix@.len() <= s <= line@.len(),
                    has_prefix(line@, prefix@),
                    trim_start(line@.skip(prefix@.len() as int)) == trim_start(
                        line@.subrange(s as int, line@.len() as int),
                    ),
                decreases line@.len() - s,
            {
                assert(line@.subrange(s as int, line@.len() as int).drop_first() =~= line@.subrange(
                    s + 1,
                    line@.len() as int,
                ));
                s = s + 1;
            }
            assert(line@.skip(prefix@.len() as int) =~= line@.subrange(
                prefix@.len() as int,
                line@.len() as int,
            ));
            let payload = slice_range(line.as_slice(), s, line.len());
            assert(trim_start(payload@) == payload@);
            data.push(payload);
            assert(data@.map_values(|v: Vec<char>| v@) =~= before.map_values(|v: Vec<char>| v@).push(
                trim_start(line@.skip("data:"@.len() as int)),
            ));
        } else if line.len() == 0 || starts_with_str(line.as_slice(), ":") || starts_with_str(
            line.as_slice(),
            "event:",
        ) || starts_with_str(line.as_slice(), "id:") || starts_with_str(line.as_slice(), "retry:") {
        } else {
            other = true;
        }
        k = k + 1;
    }
    assert(lines.take(k as int) =~= lines);
    if data.len() == 0 {
        if other {
            return Err(crate::message::owned(NON_SSE_BODY_ERROR));
        }
        return Ok(None);
    }
    let ghost ds = data@.map_values(|v: Vec<char>| v@);
    let mut out: Vec<char> = Vec::new();
    let mut j: usize = 0;
    while j < data.len()
        invariant
            j <= data@.len(),
            data@.len() > 0,
            ds == data@.map_values(|v: Vec<char>| v@),
            j > 0 ==> out@ == join_char(ds.take(j as int), '\n'),
            j == 0 ==> out@ == Seq::<char>::empty(),
        decreases data@.len() - j,
    {
        if j > 0 {
            out.push('\n');
        }
        let piece = &data[j];
        push_range(&mut out, piece.as_slice(), 0, piece.len());
        assert(piece@.subrange(0, piece@.len() as int) =~= piece@);
        assert(ds.take(j + 1).drop_last() =~= ds.take(j as int));
        assert(ds[j as int] == piece@);
        if j == 0 {
            assert(join_char(ds.take(1), '\n') == ds[0]);
            assert(out@ =~= ds[0]);
        } else {
            assert(out@ =~= join_char(ds.take(j as int), '\n') + seq!['\n'] + ds[j as int]);
        }
        j = j + 1;
    }
    assert(ds.take(j as int) =~= ds);
    Ok(Some(string_of(out)))
}

/// The message of the error that `std::str::from_utf8` gives for bytes that are not
/// valid UTF-8.
pub uninterp spec fn utf8_error_text(bytes: Seq<u8>) -> Seq<char>;

/// Calls `std::str::from_utf8`: valid UTF-8 is read as the text it encodes; otherwise
/// the error's message, which is named `utf8_error_text` of the bytes.
#[verifier::external_body]
fn decode_utf8_text(bytes: &[u8]) -> (r: Result<String, String>)
    ensures
        match r {
            Ok(s) => vstd::utf8::valid_utf8(bytes@) && s@ == vstd::utf8::decode_utf8(bytes@),
            Err(e) => !vstd::utf8::valid_utf8(bytes@) && e@ == utf8_error_text(bytes@),
        },
{
    match std::str::from_utf8(bytes) {
        Ok(s) => Ok(s.to_string()),
        Err(e) => Err(e.to_string()),
    }
}

/// Where the next event ends and how long its separator is; at the end of the stream
/// the rest of the buffer, if any, is the last event.
pub open spec fn next_cut(b: Seq<u8>, eof: bool) -> Option<(int, int)> {
    match boundary_from(b, 0) {
        Some(x) => Some(x),
        None => if eof && b.len() > 0 {
            Some((b.len() as int, 0))
        } else {
            None
        },
    }
}

/// What taking the next event gives for the bytes `event`.
pub open spec fn taken_payload(event: Seq<u8>) -> Result<Option<Seq<char>>, Seq<char>> {
    if vstd::utf8::valid_utf8(event) {
        event_payload(vstd::utf8::decode_utf8(event))
    } else {
        Err("stream failed: invalid utf8 SSE payload: "@ + utf8_error_text(event))
    }
}

pub open spec fn payload_view(r: Result<Option<String>, String>) -> Result<Option<Seq<char>>, Seq<char>> {
    match r {
        Ok(Some(s)) => Ok(Some(s@)),
        Ok(None) => Ok(None),
        Err(e) => Err(e@),
    }
}

/// Takes the next event off the front of `buffer` and reads its payload.
pub fn take_next_sse_payload_inner(buffer: &mut Vec<u8>, flush_eof: bool) -> (r: Result<
    Option<String>,
    String,
>)
    ensures
        match next_cut(old(buffer)@, flush_eof) {
            None => final(buffer)@ == old(buffer)@ && r matches Ok(None),
            Some((n, sep)) => final(buffer)@ == old(buffer)@.skip(n + sep) && payload_view(r)
                == taken_payload(old(buffer)@.take(n)),
        },
{
    let found = find_sse_event_boundary(buffer.as_slice());
    let (event_len, separator_len) = if let Some(c) = found {
        c
    } else if flush_eof && buffer.len() > 0 {
        (buffer.len(), 0)
    } else {
        return Ok(None);
    };
    let blen = buffer.len();
    assert(event_len + separator_len <= blen);
    let ghost old_b = buffer@;
    let mut event_bytes: Vec<u8> = Vec::new();
    let mut k: usize = 0;
    while k < event_len
        invariant
            k <= event_len <= buffer@.len(),
            event_len + separator_len <= blen,
            blen == buffer@.len(),
            buffer@ == old_b,
            event_bytes@ == old_b.take(k as int),
        decreases event_len - k,
    {
        event_bytes.push(buffer[k]);
        k = k + 1;
        assert(event_bytes@ =~= old_b.take(k as int));
    }
    let mut rest: Vec<u8> = Vec::new();
    let mut j = event_len + separator_len;
    while j < buffer.len()
        invariant
            event_len + separator_len <= j <= buffer@.len(),
            buffer@ == old_b,
            rest@ == old_b.subrange((event_len + separator_len) as int, j as int),
        decreases buffer@.len() - j,
    {
        rest.push(buffer[j]);
        j = j + 1;
        assert(rest@ =~= old_b.subrange((event_len + separator_len) as int, j as int));
    }
    *buffer = rest;
    match decode_utf8_text(event_bytes.as_slice()) {
        Ok(event) => {
            let cs = chars_of(event.as_str());
            event_payload_of(cs.as_slice())
        },
        Err(e) => {
            let mut out: Vec<char> = Vec::new();
            push_str(&mut out, "stream failed: invalid utf8 SSE payload: ");
            push_str(&mut out, e.as_str());
            Err(string_of(out))
        },
    }
}

/// Takes the next complete event off the front of `buffer`.
pub fn take_next_sse_payload(buffer: &mut Vec<u8>) -> (r: Result<Option<String>, String>)
    ensures
        match next_cut(old(buffer)@, false) {
            None => final(buffer)@ == old(buffer)@ && r matches Ok(None),
            Some((n, sep)) => final(buffer)@ == old(buffer)@.skip(n + sep) && payload_view(r)
                == taken_payload(old(buffer)@.take(n)),
        },
{
    take_next_sse_payload_inner(buffer, false)
}

/// Takes the next event off the front of `buffer` at the end of the stream, when
/// what is left counts as an event.
pub fn take_next_sse_payload_with_eof(buffer: &mut Vec<u8>) -> (r: Result<Option<String>, String>)
    ensures
        match next_cut(old(buffer)@, true) {
            None => final(buffer)@ == old(buffer)@ && r matches Ok(None),
            Some((n, sep)) => final(buffer)@ == old(buffer)@.skip(n + sep) && payload_view(r)
                == taken_payload(old(buffer)@.take(n)),
        },
{
    take_next_sse_payload_inner(buffer, true)
}

/// Runs of whitespace collapsed to one space, leading and trailing ones dropped, as
/// `split_whitespace().join(" ")`; also whether whitespace follows the last word.
pub open spec fn collapsed(s: Seq<char>) -> (Seq<char>, bool)
    decreases s.len(),
{
    if s.len() == 0 {
        (Seq::empty(), false)
    } else {
        let (out, pending) = collapsed(s.drop_last());
        let c = s.last();
        if is_ws(c) {
            (out, out.len() > 0)
        } else if pending {
            (out + seq![' ', c], false)
        } else {
            (out.push(c), false)
        }
    }
}

/// A one-line preview: whitespace collapsed, at most `limit` characters, `...`
/// when cut.
pub open spec fn preview_within(text: Seq<char>, limit: nat) -> Seq<char> {
    let compact = collapsed(text).0;
    if compact.len() > limit {
        compact.take(limit as int) + "..."@
    } else {
        compact
    }
}

/// A one-line preview of at most 240 characters.
pub open spec fn preview(text: Seq<char>) -> Seq<char> {
    preview_within(text, PREVIEW_CHARS as nat)
}

/// A one-line preview of `text`, of at most 240 characters.
pub fn preview_text(text: &str) -> (r: String)
    ensures
        r@ == preview(text@),
{
    preview_text_within(text, PREVIEW_CHARS)
}

/// A one-line preview of `text`: whitespace collapsed, cut after `limit` characters
/// with `...`.
pub fn preview_text_within(text: &str, limit: usize) -> (r: String)
    ensures
        r@ == preview_within(text@, limit as nat),
{
    let cs = chars_of(text);
    let mut out: Vec<char> = Vec::new();
    let mut pending = false;
    let mut k: usize = 0;
    while k < cs.len()
        invariant
            k <= cs@.len(),
            cs@ == text@,
            collapsed(cs@.take(k as int)) == (out@, pending),
        decreases cs@.len() - k,
    {
        let c = cs[k];
        assert(cs@.take(k + 1).drop_last() =~= cs@.take(k as int));
        if is_whitespace(c) {
            pending = out.len() > 0;
        } else if pending {
            out.push(' ');
            out.push(c);
            pending = false;
        } else {
            out.push(c);
        }
        k = k + 1;
    }
    assert(cs@.take(k as int) =~= cs@);
    if out.len() > limit {
        let mut p = slice_range(out.as_slice(), 0, limit);
        push_str(&mut p, "...");
        assert(out@.subrange(0, limit as int) =~= out@.take(limit as int));
        string_of(p)
    } else {
        string_of(out)
    }
}

/// A preview of the last 512 bytes of `bytes` read as UTF-8 (lossily), if any.
pub open spec fn tail_preview(bytes: Seq<u8>) -> Option<Seq<char>> {
    if bytes.len() == 0 {
        None
    } else {
        let start = if bytes.len() > TAIL_PREVIEW_LIMIT {
            bytes.len() - TAIL_PREVIEW_LIMIT
        } else {
            0
        };
        Some(preview(utf8_lossy(bytes.skip(start))))
    }
}

/// A preview of the unread tail of a stream.
pub fn preview_bytes(bytes: &[u8]) -> (r: Option<String>)
    ensures
        match tail_preview(bytes@) {
            Some(p) => r matches Some(s) && s@ == p,
            None => r is None,
        },
{
    if bytes.len() == 0 {
        return None;
    }
    let start = bytes.len().saturating_sub(TAIL_PREVIEW_LIMIT);
    let mut tail: Vec<u8> = Vec::new();
    let mut k = start;
    while k < bytes.len()
        invariant
            start <= k <= bytes@.len(),
            tail@ == bytes@.subrange(start as int, k as int),
        decreases bytes@.len() - k,
    {
        tail.push(bytes[k]);
        k = k + 1;
        assert(tail@ =~= bytes@.subrange(start as int, k as int));
    }
    assert(tail@ =~= bytes@.skip(start as int));
    Some(preview_text(lossy_string(tail.as_slice()).as_str()))
}

/// The parts of a stream error's context, joined by `"; "`.
pub open spec fn joined_parts(parts: Seq<Seq<char>>) -> Seq<char>
    decreases parts.len(),
{
    if parts.len() == 0 {
        Seq::empty()
    } else if parts.len() == 1 {
        parts[0]
    } else {
        joined_parts(parts.drop_last()) + "; "@ + parts.last()
    }
}

pub open spec fn opt_part(o: Option<Seq<char>>, label: Seq<char>) -> Seq<Seq<char>> {
    match o {
        Some(v) => seq![label + v],
        None => Seq::empty(),
    }
}

pub open spec fn opt_string(o: Option<String>) -> Option<Seq<char>> {
    match o {
        Some(s) => Some(s@),
        None => None,
    }
}

/// A stream error with what was read so far: chunks, bytes, events, the content
/// type, the last payload and the unread tail, those that are known.
pub open spec fn stream_error(
    message: Seq<char>,
    chunks: nat,
    bytes: nat,
    events: nat,
    content_type: Option<Seq<char>>,
    last_payload: Option<Seq<char>>,
    tail: Option<Seq<char>>,
) -> Seq<char> {
    let first = "after "@ + decimal(chunks) + " chunks, "@ + decimal(bytes) + " bytes, "@ + decimal(
        events,
    ) + " SSE events"@;
    let parts = seq![first] + opt_part(content_type, "content-type: "@) + opt_part(
        last_payload,
        "last SSE payload preview: "@,
    ) + opt_part(tail, "response tail preview: "@);
    message + " ("@ + joined_parts(parts) + ")"@
}

/// `"; "`, the label and the value, if there is one.
pub open spec fn opt_tail(o: Option<Seq<char>>, label: Seq<char>) -> Seq<char> {
    match o {
        Some(v) => "; "@ + label + v,
        None => Seq::empty(),
    }
}

/// The progress part of a stream error.
pub open spec fn progress_part(chunks: nat, bytes: nat, events: nat) -> Seq<char> {
    "after "@ + decimal(chunks) + " chunks, "@ + decimal(bytes) + " bytes, "@ + decimal(events)
        + " SSE events"@
}

proof fn lemma_joined_with_opt(parts: Seq<Seq<char>>, o: Option<Seq<char>>, label: Seq<char>)
    requires
        parts.len() >= 1,
    ensures
        joined_parts(parts + opt_part(o, label)) == joined_parts(parts) + opt_tail(o, label),
{
    let p = opt_part(o, label);
    if p.len() > 0 {
        assert((parts + p).drop_last() =~= parts);
        assert(joined_parts(parts + p) =~= joined_parts(parts) + opt_tail(o, label));
    } else {
        assert(parts + p =~= parts);
        assert(joined_parts(parts) + opt_tail(o, label) =~= joined_parts(parts));
    }
}

proof fn lemma_stream_error_text(
    message: Seq<char>,
    chunks: nat,
    bytes: nat,
    events: nat,
    content_type: Option<Seq<char>>,
    last_payload: Option<Seq<char>>,
    tail: Option<Seq<char>>,
)
    ensures
        stream_error(message, chunks, bytes, events, content_type, last_payload, tail) == message
            + " ("@ + progress_part(chunks, bytes, events) + opt_tail(content_type, "content-type: "@)
            + opt_tail(last_payload, "last SSE payload preview: "@) + opt_tail(
            tail,
            "response tail preview: "@,
        ) + ")"@,
{
    let first = progress_part(chunks, bytes, events);
    let s0 = seq![first];
    let s1 = s0 + opt_part(content_type, "content-type: "@);
    let s2 = s1 + opt_part(last_payload, "last SSE payload preview: "@);
    let s3 = s2 + opt_part(tail, "response tail preview: "@);
    assert(joined_parts(s0) == first);
    lemma_joined_with_opt(s0, content_type, "content-type: "@);
    lemma_joined_with_opt(s1, last_payload, "last SSE payload preview: "@);
    lemma_joined_with_opt(s2, tail, "response tail preview: "@);
    assert(stream_error(message, chunks, bytes, events, content_type, last_payload, tail)
        == message + " ("@ + joined_parts(s3) + ")"@);
    assert(joined_parts(s3) == first + opt_tail(content_type, "content-type: "@) + opt_tail(
        last_payload,
        "last SSE payload preview: "@,
    ) + opt_tail(tail, "response tail preview: "@));
    assert(message + " ("@ + joined_parts(s3) + ")"@ =~= message + " ("@ + first + opt_tail(
        content_type,
        "content-type: "@,
    ) + opt_tail(last_payload, "last SSE payload preview: "@) + opt_tail(
        tail,
        "response tail preview: "@,
    ) + ")"@);
}

fn push_part(out: &mut Vec<char>, label: &str, value: &Option<String>)
    ensures
        final(out)@ == old(out)@ + opt_tail(opt_string(*value), label@),
{
    match value {
        Some(v) => {
            push_str(out, "; ");
            push_str(out, label);
            push_str(out, v.as_str());
            assert(final(out)@ =~= old(out)@ + ("; "@ + label@ + v@));
        },
        None => {
            assert(old(out)@ + Seq::<char>::empty() =~= old(out)@);
        },
    }
}

/// A stream error with what was read so far.
pub fn format_stream_error(message: &str, stats: &SseStats, tail_preview: Option<String>) -> (r:
    String)
    ensures
        r@ == stream_error(
            message@,
            stats.chunk_count as nat,
            stats.total_bytes as nat,
            stats.event_count as nat,
            opt_string(stats.content_type),
            opt_string(stats.last_payload_preview),
            opt_string(tail_preview),
        ),
{
    let mut out: Vec<char> = Vec::new();
    push_str(&mut out, message);
    push_str(&mut out, " (");
    push_str(&mut out, "after ");
    push_decimal(&mut out, stats.chunk_count);
    push_str(&mut out, " chunks, ");
    push_decimal(&mut out, stats.total_bytes);
    push_str(&mut out, " bytes, ");
    push_decimal(&mut out, stats.event_count);
    push_str(&mut out, " SSE events");
    let ghost head = out@;
    assert(head =~= message@ + " ("@ + progress_part(
        stats.chunk_count as nat,
        stats.total_bytes as nat,
        stats.event_count as nat,
    ));
    push_part(&mut out, "content-type: ", &stats.content_type);
    push_part(&mut out, "last SSE payload preview: ", &stats.last_payload_preview);
    push_part(&mut out, "response tail preview: ", &tail_preview);
    push_str(&mut out, ")");
    proof {
        lemma_stream_error_text(
            message@,
            stats.chunk_count as nat,
            stats.total_bytes as nat,
            stats.event_count as nat,
            opt_string(stats.content_type),
            opt_string(stats.last_payload_preview),
            opt_string(tail_preview),
        );
    }
    assert(out@ =~= head + opt_tail(opt_string(stats.content_type), "content-type: "@) + opt_tail(
        opt_string(stats.last_payload_preview),
        "last SSE payload preview: "@,
    ) + opt_tail(opt_string(tail_preview), "response tail preview: "@) + ")"@);
    string_of(out)
}

/// A stream error with what `stats` counts and a preview of the unread `buffer`.
pub open spec fn reader_error(stats: SseStats, buffer: Seq<u8>, message: Seq<char>) -> Seq<char> {
    stream_error(
        message,
        stats.chunk_count as nat,
        stats.total_bytes as nat,
        stats.event_count as nat,
        opt_string(stats.content_type),
        opt_string(stats.last_payload_preview),
        tail_preview(buffer),
    )
}

/// An event stream being read: the bytes not yet cut into events, and what has been
/// read so far. The chunks come from outside; each is pushed in, then the events it
/// completes are taken out.
pub struct SseReader {
    pub buffer: Vec<u8>,
    pub stats: SseStats,
}

impl SseReader {
    /// A reader before the first chunk of a response of the given content type.
    pub fn new(content_type: Option<String>) -> (r: SseReader)
        ensures
            r.buffer@ == Seq::<u8>::empty(),
            r.stats.chunk_count == 0,
            r.stats.total_bytes == 0,
            r.stats.event_count == 0,
            r.stats.content_type == content_type,
            r.stats.last_payload_preview is None,
    {
        SseReader {
            buffer: Vec::new(),
            stats: SseStats {
                chunk_count: 0,
                total_bytes: 0,
                event_count: 0,
                content_type,
                last_payload_preview: None,
            },
        }
    }

    /// Adds a chunk of the body.
    pub fn push_chunk(&mut self, chunk: &[u8])
        requires
            old(self).stats.chunk_count < usize::MAX,
            old(self).stats.total_bytes + chunk@.len() <= usize::MAX,
        ensures
            final(self).buffer@ == old(self).buffer@ + chunk@,
            final(self).stats == (SseStats {
                chunk_count: (old(self).stats.chunk_count + 1) as usize,
                total_bytes: (old(self).stats.total_bytes + chunk@.len()) as usize,
                ..old(self).stats
            }),
    {
        self.stats.chunk_count = self.stats.chunk_count + 1;
        self.stats.total_bytes = self.stats.total_bytes + chunk.len();
        let mut k: usize = 0;
        let ghost start = self.buffer@;
        let ghost st = self.stats;
        while k < chunk.len()
            invariant
                k <= chunk@.len(),
                self.buffer@ == start + chunk@.take(k as int),
                self.stats == st,
            decreases chunk@.len() - k,
        {
            self.buffer.push(chunk[k]);
            k = k + 1;
            assert(self.buffer@ =~= start + chunk@.take(k as int));
        }
        assert(chunk@.take(k as int) =~= chunk@);
    }

    /// A stream error with what was read so far and the unread tail.
    pub fn stream_error(&self, message: &str) -> (r: String)
        ensures
            r@ == reader_error(self.stats, self.buffer@, message@),
    {
        format_stream_error(message, &self.stats, preview_bytes(self.buffer.as_slice()))
    }

    /// Takes the next event's payload out of the buffer (at the end of the stream,
    /// `eof`, what is left counts as an event), counting it; an error comes with what
    /// was read so far.
    pub fn next_payload(&mut self, eof: bool) -> (r: Result<Option<String>, String>)
        requires
            old(self).stats.event_count < usize::MAX,
        ensures
            match next_cut(old(self).buffer@, eof) {
                None => final(self).buffer@ == old(self).buffer@ && final(self).stats == old(
                    self,
                ).stats && r matches Ok(None),
                Some((n, sep)) => final(self).buffer@ == old(self).buffer@.skip(n + sep) && match
                    taken_payload(old(self).buffer@.take(n)) {
                    Ok(Some(p)) => r matches Ok(Some(t)) && t@ == p && final(self).stats == (
                    SseStats {
                        event_count: (old(self).stats.event_count + 1) as usize,
                        last_payload_preview: final(self).stats.last_payload_preview,
                        ..old(self).stats
                    }) && opt_string(final(self).stats.last_payload_preview) == Some(preview(p)),
                    Ok(None) => r matches Ok(None) && final(self).stats == old(self).stats,
                    Err(e) => r matches Err(m) && m@ == reader_error(
                        old(self).stats,
                        final(self).buffer@,
                        e,
                    ) && final(self).stats == old(self).stats,
                },
            },
    {
        match take_next_sse_payload_inner(&mut self.buffer, eof) {
            Ok(Some(p)) => {
                self.stats.event_count = self.stats.event_count + 1;
                self.stats.last_payload_preview = Some(preview_text(p.as_str()));
                Ok(Some(p))
            },
            Ok(None) => Ok(None),
            Err(e) => Err(self.stream_error(e.as_str())),
        }
    }
}

} // verus!
