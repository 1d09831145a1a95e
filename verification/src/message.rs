//! Cleaning, checking and trimming commit messages and other prompt text.
use vstd::prelude::*;

use crate::lines::{join_char, split_ranges, line_ranges, range_seqs, ranges_within, split_char, str_lines};
use crate::text::{
    chars_of, fits_prefix, has_prefix, lemma_utf8_len_prefix_mono, utf8_len, utf8_prefix_end, has_suffix, is_whitespace, is_ws, matches_at, normalize_newlines,
    normalize_newlines_vec, push_range, skip_ws_backward, skip_ws_forward, slice_range, string_of,
    trim, trim_bounds, trim_end, trim_start,
};

verus! {

/// Longest subject line, in characters, that a commit message may carry.
pub const MAX_SUBJECT_CHARS: usize = 72;

/// An overlong subject is cut at the last whitespace within this many characters.
pub const SUBJECT_CUT_CHARS: usize = 64;

/// `s` with every leading occurrence of `p` removed, as `str::trim_start_matches`.
pub open spec fn strip_prefix_all(s: Seq<char>, p: Seq<char>) -> Seq<char>
    decreases s.len(),
{
    if p.len() > 0 && has_prefix(s, p) {
        strip_prefix_all(s.skip(p.len() as int), p)
    } else {
        s
    }
}

/// `s` with every trailing occurrence of `p` removed, as `str::trim_end_matches`.
pub open spec fn strip_suffix_all(s: Seq<char>, p: Seq<char>) -> Seq<char>
    decreases s.len(),
{
    if p.len() > 0 && has_suffix(s, p) {
        strip_suffix_all(s.take(s.len() - p.len()), p)
    } else {
        s
    }
}

/// `s` without trailing spaces and tabs.
pub open spec fn trim_end_blank(s: Seq<char>) -> Seq<char>
    decreases s.len(),
{
    if s.len() > 0 && (s.last() == ' ' || s.last() == '\t') {
        trim_end_blank(s.drop_last())
    } else {
        s
    }
}

/// A code-fence line: after leading whitespace it starts with three backticks.
pub open spec fn is_fence_line(l: Seq<char>) -> bool {
    has_prefix(trim_start(l), "```"@)
}

/// The lines that are not fences, each without trailing spaces and tabs.
pub open spec fn kept_lines(ls: Seq<Seq<char>>) -> Seq<Seq<char>>
    decreases ls.len(),
{
    if ls.len() == 0 {
        Seq::empty()
    } else if is_fence_line(ls.last()) {
        kept_lines(ls.drop_last())
    } else {
        kept_lines(ls.drop_last()).push(trim_end_blank(ls.last()))
    }
}

/// A message with its surrounding fences, fence lines and trailing blanks removed.
pub open spec fn unfenced(m: Seq<char>) -> Seq<char> {
    let outer = trim(
        strip_suffix_all(strip_prefix_all(trim(normalize_newlines(m)), "```"@), "```"@),
    );
    trim(join_char(kept_lines(str_lines(outer)), '\n'))
}

/// The position of the last whitespace character among the first `n` of `s`.
pub open spec fn last_ws_before(s: Seq<char>, n: int) -> Option<int>
    decreases n,
{
    if n <= 0 {
        None
    } else if n - 1 < s.len() && is_ws(s[n - 1]) {
        Some(n - 1)
    } else {
        last_ws_before(s, n - 1)
    }
}

/// A subject longer than `MAX_SUBJECT_CHARS` characters cut to at most
/// `SUBJECT_CUT_CHARS`, at the last whitespace inside that width when there is one.
pub open spec fn truncated_subject(s: Seq<char>) -> Seq<char> {
    if s.len() <= MAX_SUBJECT_CHARS {
        s
    } else {
        let cut = match last_ws_before(s, SUBJECT_CUT_CHARS as int) {
            Some(k) => k,
            None => SUBJECT_CUT_CHARS as int,
        };
        trim_end(s.take(cut))
    }
}

/// The message with an overlong first line truncated.
pub open spec fn subject_limited(m: Seq<char>) -> Seq<char> {
    if trim(m).len() == 0 {
        Seq::empty()
    } else {
        let ls = str_lines(m);
        let ls2 = if ls.len() > 0 && ls[0].len() > MAX_SUBJECT_CHARS {
            ls.update(0, truncated_subject(ls[0]))
        } else {
            ls
        };
        trim(join_char(ls2, '\n'))
    }
}

pub proof fn lemma_last_ws_before(s: Seq<char>, n: int)
    ensures
        last_ws_before(s, n) matches Some(k) ==> 0 <= k < n && k < s.len() && is_ws(s[k]),
    decreases n,
{
    if n > 0 && !(n - 1 < s.len() && is_ws(s[n - 1])) {
        lemma_last_ws_before(s, n - 1);
    }
}

/// A subject that starts with a visible character is truncated to a prefix of it,
/// not empty and at most `SUBJECT_CUT_CHARS` characters long.
pub proof fn lemma_truncated_subject_prefix(s: Seq<char>)
    requires
        s.len() > MAX_SUBJECT_CHARS,
        !is_ws(s[0]),
    ensures
        1 <= truncated_subject(s).len() <= SUBJECT_CUT_CHARS,
        truncated_subject(s) == s.take(truncated_subject(s).len() as int),
{
    lemma_last_ws_before(s, SUBJECT_CUT_CHARS as int);
    let cut = match last_ws_before(s, SUBJECT_CUT_CHARS as int) {
        Some(k) => k,
        None => SUBJECT_CUT_CHARS as int,
    };
    assert(cut >= 1);
    let t = s.take(cut);
    crate::text::lemma_trim_end_prefix(t);
    if trim_end(t).len() == 0 {
        assert(is_ws(t[0]));
    }
    assert(trim_end(t) =~= s.take(trim_end(t).len() as int));
}

/// What `sanitize_message` returns.
pub open spec fn sanitized(m: Seq<char>) -> Seq<char> {
    subject_limited(unfenced(m))
}

/// The first line of `s`: everything before the first newline.
pub open spec fn first_line_of(s: Seq<char>) -> Seq<char> {
    split_char(s, '\n')[0]
}

/// Strips repeated leading and trailing fences from `s[a..b]`.
fn strip_fence_bounds(s: &[char], a: usize, b: usize) -> (r: (usize, usize))
    requires
        a <= b <= s@.len(),
    ensures
        a <= r.0 <= r.1 <= b,
        s@.subrange(r.0 as int, r.1 as int) == strip_suffix_all(
            strip_prefix_all(s@.subrange(a as int, b as int), "```"@),
            "```"@,
        ),
{
    let fence = chars_of("```");
    proof {
        reveal_strlit("```");
    }
    let mut lo = a;
    while b - lo >= 3 && matches_at(s, lo, fence.as_slice())
        invariant
            a <= lo <= b <= s@.len(),
            fence@ == "```"@,
            fence@.len() == 3,
            strip_prefix_all(s@.subrange(a as int, b as int), "```"@) == strip_prefix_all(
                s@.subrange(lo as int, b as int),
                "```"@,
            ),
        decreases b - lo,
    {
        assert(s@.subrange(lo as int, b as int).subrange(0, 3) =~= s@.subrange(
            lo as int,
            lo + 3,
        ));
        assert(s@.subrange(lo as int, b as int).skip(3) =~= s@.subrange(lo + 3, b as int));
        lo = lo + 3;
    }
    assert(!has_prefix(s@.subrange(lo as int, b as int), "```"@)) by {
        if b - lo >= 3 {
            assert(s@.subrange(lo as int, b as int).subrange(0, 3) =~= s@.subrange(
                lo as int,
                lo + 3,
            ));
        }
    }
    let mut hi = b;
    while hi - lo >= 3 && matches_at(s, hi - 3, fence.as_slice())
        invariant
            a <= lo <= hi <= b <= s@.len(),
            fence@ == "```"@,
            fence@.len() == 3,
            strip_suffix_all(s@.subrange(lo as int, b as int), "```"@) == strip_suffix_all(
                s@.subrange(lo as int, hi as int),
                "```"@,
            ),
        decreases hi - lo,
    {
        let ghost t = s@.subrange(lo as int, hi as int);
        assert(t.subrange(t.len() - 3, t.len() as int) =~= s@.subrange(hi - 3, hi as int));
        assert(t.take(t.len() - 3) =~= s@.subrange(lo as int, hi - 3));
        hi = hi - 3;
    }
    assert(!has_suffix(s@.subrange(lo as int, hi as int), "```"@)) by {
        let t = s@.subrange(lo as int, hi as int);
        if hi - lo >= 3 {
            assert(t.subrange(t.len() - 3, t.len() as int) =~= s@.subrange(hi - 3, hi as int));
        }
    }
    (lo, hi)
}

/// End of `s[a..b]` once trailing spaces and tabs are dropped.
fn trim_blank_end_bound(s: &[char], a: usize, b: usize) -> (k: usize)
    requires
        a <= b <= s@.len(),
    ensures
        a <= k <= b,
        s@.subrange(a as int, k as int) == trim_end_blank(s@.subrange(a as int, b as int)),
{
    let mut k = b;
    while k > a && (s[k - 1] == ' ' || s[k - 1] == '\t')
        invariant
            a <= k <= b <= s@.len(),
            trim_end_blank(s@.subrange(a as int, b as int)) == trim_end_blank(
                s@.subrange(a as int, k as int),
            ),
        decreases k - a,
    {
        assert(s@.subrange(a as int, k as int).drop_last() =~= s@.subrange(a as int, k - 1));
        k = k - 1;
    }
    k
}

/// Whether `s[a..b]` is a fence line.
fn fence_line_at(s: &[char], a: usize, b: usize) -> (r: bool)
    requires
        a <= b <= s@.len(),
    ensures
        r == is_fence_line(s@.subrange(a as int, b as int)),
{
    let k = skip_ws_forward(s, a, b);
    proof {
        reveal_strlit("```");
    }
    if b - k < 3 {
        return false;
    }
    let fence = chars_of("```");
    let r = matches_at(s, k, fence.as_slice());
    assert(s@.subrange(k as int, b as int).subrange(0, 3) =~= s@.subrange(k as int, k + 3));
    r
}

pub proof fn lemma_join_push(ps: Seq<Seq<char>>, x: Seq<char>, c: char)
    ensures
        join_char(ps.push(x), c) == if ps.len() == 0 {
            x
        } else {
            join_char(ps, c) + seq![c] + x
        },
{
    assert(ps.push(x).drop_last() =~= ps);
}

/// A message cleaned of code fences and trailing blanks, with an overlong subject
/// truncated at a word boundary.
pub fn sanitize_message(message: &str) -> (r: String)
    ensures
        r@ == sanitized(message@),
{
    let m = chars_of(message);
    let n = normalize_newlines_vec(m.as_slice());
    let (a, b) = trim_bounds(n.as_slice(), 0, n.len());
    assert(n@.subrange(0, n@.len() as int) =~= n@);
    let (a1, b1) = strip_fence_bounds(n.as_slice(), a, b);
    let (a2, b2) = trim_bounds(n.as_slice(), a1, b1);
    let ranges = line_ranges(n.as_slice(), a2, b2);
    let ghost ls = str_lines(n@.subrange(a2 as int, b2 as int));
    let mut out: Vec<char> = Vec::new();
    let mut count: usize = 0;
    let mut k: usize = 0;
    while k < ranges.len()
        invariant
            0 <= k <= ranges@.len(),
            range_seqs(n@, ranges@) == ls,
            ranges_within(ranges@, a2 as int, b2 as int),
            b2 <= n@.len(),
            out@ == join_char(kept_lines(ls.take(k as int)), '\n'),
            count == kept_lines(ls.take(k as int)).len(),
            count <= k,
        decreases ranges@.len() - k,
    {
        let (x, y) = ranges[k];
        assert(ranges@[k as int].0 <= ranges@[k as int].1);
        assert(n@.subrange(x as int, y as int) == ls[k as int]);
        assert(ls.take(k + 1).drop_last() =~= ls.take(k as int));
        if !fence_line_at(n.as_slice(), x, y) {
            let e = trim_blank_end_bound(n.as_slice(), x, y);
            proof {
                lemma_join_push(kept_lines(ls.take(k as int)), trim_end_blank(ls[k as int]), '\n');
            }
            if count > 0 {
                out.push('\n');
            }
            push_range(&mut out, n.as_slice(), x, e);
            count = count + 1;
        }
        k = k + 1;
    }
    assert(ls.take(k as int) =~= ls);
    let (c, d) = trim_bounds(out.as_slice(), 0, out.len());
    assert(out@.subrange(0, out@.len() as int) =~= out@);
    let body = slice_range(out.as_slice(), c, d);
    let limited = enforce_subject_limit(&body);
    string_of(limited)
}

/// The first `n` characters of `s` scanned for the last whitespace.
fn last_ws_in_prefix(s: &[char], n: usize) -> (r: Option<usize>)
    requires
        n <= s@.len(),
    ensures
        r matches Some(k) ==> last_ws_before(s@, n as int) == Some(k as int) && k < n,
        r is None ==> last_ws_before(s@, n as int) is None,
{
    let mut i = n;
    while i > 0
        invariant
            0 <= i <= n <= s@.len(),
            last_ws_before(s@, n as int) == last_ws_before(s@, i as int),
        decreases i,
    {
        if is_whitespace(s[i - 1]) {
            return Some(i - 1);
        }
        i = i - 1;
    }
    None
}

/// The subject cut at a word boundary so that it fits `MAX_SUBJECT_CHARS`.
pub fn truncate_subject(subject: &[char]) -> (r: Vec<char>)
    ensures
        r@ == truncated_subject(subject@),
        r@.len() <= MAX_SUBJECT_CHARS,
{
    if subject.len() <= MAX_SUBJECT_CHARS {
        return slice_range_all(subject);
    }
    let cut = match last_ws_in_prefix(subject, SUBJECT_CUT_CHARS) {
        Some(k) => k,
        None => SUBJECT_CUT_CHARS,
    };
    let e = skip_ws_backward(subject, 0, cut);
    assert(subject@.take(cut as int) =~= subject@.subrange(0, cut as int));
    slice_range(subject, 0, e)
}

fn slice_range_all(s: &[char]) -> (v: Vec<char>)
    ensures
        v@ == s@,
{
    let v = slice_range(s, 0, s.len());
    assert(s@.subrange(0, s@.len() as int) =~= s@);
    v
}

/// The message with an overlong subject line truncated.
fn enforce_subject_limit(message: &Vec<char>) -> (r: Vec<char>)
    ensures
        r@ == subject_limited(message@),
{
    let (a, b) = trim_bounds(message.as_slice(), 0, message.len());
    assert(message@.subrange(0, message@.len() as int) =~= message@);
    if a == b {
        return Vec::new();
    }
    let ranges = line_ranges(message.as_slice(), 0, message.len());
    let ghost ls = str_lines(message@);
    let ghost ls2 = if ls.len() > 0 && ls[0].len() > MAX_SUBJECT_CHARS {
        ls.update(0, truncated_subject(ls[0]))
    } else {
        ls
    };
    let mut out: Vec<char> = Vec::new();
    let mut k: usize = 0;
    while k < ranges.len()
        invariant
            0 <= k <= ranges@.len(),
            range_seqs(message@, ranges@) == ls,
            ranges_within(ranges@, 0, message@.len() as int),
            ls2.len() == ls.len(),
            forall|j: int| 0 < j < ls.len() ==> ls2[j] == ls[j],
            ls.len() > 0 ==> ls2[0] == if ls[0].len() > MAX_SUBJECT_CHARS {
                truncated_subject(ls[0])
            } else {
                ls[0]
            },
            out@ == join_char(ls2.take(k as int), '\n'),
        decreases ranges@.len() - k,
    {
        let (x, y) = ranges[k];
        assert(ranges@[k as int].0 <= ranges@[k as int].1);
        assert(message@.subrange(x as int, y as int) == ls[k as int]);
        assert(ls2.take(k + 1) =~= ls2.take(k as int).push(ls2[k as int]));
        proof {
            lemma_join_push(ls2.take(k as int), ls2[k as int], '\n');
        }
        if k > 0 {
            out.push('\n');
        }
        if k == 0 && y - x > MAX_SUBJECT_CHARS {
            let line = slice_range(message.as_slice(), x, y);
            let t = truncate_subject(line.as_slice());
            let mut i: usize = 0;
            let ghost before = out@;
            while i < t.len()
                invariant
                    0 <= i <= t@.len(),
                    out@ == before + t@.take(i as int),
                decreases t@.len() - i,
            {
                out.push(t[i]);
                assert(out@ =~= before + t@.take(i + 1));
                i = i + 1;
            }
            assert(t@.take(i as int) =~= t@);
        } else {
            push_range(&mut out, message.as_slice(), x, y);
        }
        k = k + 1;
    }
    assert(ls2.take(k as int) =~= ls2);
    let (c, d) = trim_bounds(out.as_slice(), 0, out.len());
    assert(out@.subrange(0, out@.len() as int) =~= out@);
    slice_range(out.as_slice(), c, d)
}

/// Ends of the first line of `s[lo..hi]`: the first newline or `hi`.
pub fn first_line_end(s: &[char], lo: usize, hi: usize) -> (k: usize)
    requires
        lo <= hi <= s@.len(),
    ensures
        lo <= k <= hi,
        s@.subrange(lo as int, k as int) == first_line_of(s@.subrange(lo as int, hi as int)),
{
    let r = split_ranges(s, lo, hi, '\n');
    let (a, b) = r[0];
    assert(r@[0].0 <= r@[0].1);
    b
}

/// The first line of `input`.
pub fn first_line(input: &str) -> (r: &str)
    ensures
        r@ == first_line_of(input@),
{
    let cs = chars_of(input);
    let k = first_line_end(cs.as_slice(), 0, cs.len());
    assert(cs@.subrange(0, cs@.len() as int) =~= cs@);
    input.substring_char(0, k)
}

/// The message for an empty generated message.
pub open spec fn empty_message_error() -> Seq<char> {
    "model returned an empty message"@
}

/// The message for a subject line that is too long.
pub open spec fn long_subject_error() -> Seq<char> {
    "generated subject exceeds 72 characters"@
}

/// Rejects an empty message and one whose subject is longer than
/// `MAX_SUBJECT_CHARS` characters.
pub fn validate_message(message: &str) -> (r: Result<(), String>)
    ensures
        r is Ok <==> trim(message@).len() > 0 && first_line_of(message@).len() <= MAX_SUBJECT_CHARS,
        r matches Err(e) ==> e@ == if trim(message@).len() == 0 {
            empty_message_error()
        } else {
            long_subject_error()
        },
{
    let cs = chars_of(message);
    let (a, b) = trim_bounds(cs.as_slice(), 0, cs.len());
    assert(cs@.subrange(0, cs@.len() as int) =~= cs@);
    if a == b {
        return Err(owned("model returned an empty message"));
    }
    let k = first_line_end(cs.as_slice(), 0, cs.len());
    if k > MAX_SUBJECT_CHARS {
        return Err(owned("generated subject exceeds 72 characters"));
    }
    Ok(())
}

/// An owned copy of `s`.
pub fn owned(s: &str) -> (r: String)
    ensures
        r@ == s@,
{
    s.to_owned()
}

/// What `trim_to_utf8_bytes` keeps: the longest prefix that fits `max` bytes.
pub open spec fn utf8_trimmed(s: Seq<char>, max: int) -> Seq<char> {
    s.take(choose|k: int| fits_prefix(s, k, max))
}

pub proof fn lemma_fits_prefix_unique(s: Seq<char>, k1: int, k2: int, max: int)
    requires
        fits_prefix(s, k1, max),
        fits_prefix(s, k2, max),
    ensures
        k1 == k2,
{
    if k1 < k2 {
        lemma_utf8_len_prefix_mono(s, k1 + 1, k2);
    } else if k2 < k1 {
        lemma_utf8_len_prefix_mono(s, k2 + 1, k1);
    }
}

/// The longest prefix of `s[lo..hi]` that fits `max` UTF-8 bytes.
pub fn trim_bytes_range(s: &[char], lo: usize, hi: usize, max: usize) -> (r: Vec<char>)
    requires
        lo <= hi <= s@.len(),
    ensures
        r@ == utf8_trimmed(s@.subrange(lo as int, hi as int), max as int),
        utf8_len(r@) <= max,
{
    let k = utf8_prefix_end(s, lo, hi, max);
    let ghost t = s@.subrange(lo as int, hi as int);
    proof {
        let k2 = choose|k2: int| fits_prefix(t, k2, max as int);
        lemma_fits_prefix_unique(t, k - lo, k2, max as int);
    }
    assert(t.take(k - lo) =~= s@.subrange(lo as int, k as int));
    slice_range(s, lo, k)
}

/// `input` cut to at most `max_bytes` UTF-8 bytes, never inside a character.
pub fn trim_to_utf8_bytes(input: &str, max_bytes: usize) -> (r: String)
    ensures
        r@ == utf8_trimmed(input@, max_bytes as int),
        utf8_len(r@) <= max_bytes,
        utf8_len(input@) <= max_bytes ==> r@ == input@,
{
    let cs = chars_of(input);
    assert(cs@.subrange(0, cs@.len() as int) =~= cs@);
    let r = trim_bytes_range(cs.as_slice(), 0, cs.len(), max_bytes);
    proof {
        if utf8_len(input@) <= max_bytes {
            assert(input@.take(input@.len() as int) =~= input@);
            assert(fits_prefix(input@, input@.len() as int, max_bytes as int));
            let k2 = choose|k2: int| fits_prefix(input@, k2, max_bytes as int);
            lemma_fits_prefix_unique(input@, input@.len() as int, k2, max_bytes as int);
        }
    }
    string_of(r)
}

/// `input` cut to at most `max_bytes` UTF-8 bytes with `notice` appended, at a line
/// boundary where the cut leaves one; the flag says whether anything was cut.
pub fn trim_with_notice_at_line_boundary(input: &str, max_bytes: usize, notice: &str) -> (r: (
    String,
    bool,
))
    ensures
        (r.0@, r.1) == crate::text_budget::trimmed_with_notice(
            false,
            input@,
            max_bytes as nat,
            notice@,
        ),
        utf8_len(input@) <= max_bytes ==> !r.1 && r.0@ == input@,
        r.1 ==> utf8_len(input@) > max_bytes && utf8_len(r.0@) <= max_bytes,
        !r.1 ==> r.0@ == input@,
{
    let i = chars_of(input);
    let n = chars_of(notice);
    let (out, cut) = crate::text_budget::trim_text_with_notice(
        i.as_slice(),
        max_bytes,
        n.as_slice(),
        None,
    );
    proof {
        crate::text_budget::lemma_trimmed_with_notice_fits(input@, max_bytes as nat, notice@);
    }
    (string_of(out), cut)
}

} // verus!
