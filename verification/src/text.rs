//! Character sequences: the spec vocabulary (whitespace, trimming, UTF-8 width,
//! matching) and the executable helpers that work on `Vec<char>`.
use vstd::prelude::*;

verus! {

/// Unicode `White_Space`, the set that `char::is_whitespace` tests.
pub open spec fn is_ws(c: char) -> bool {
    ||| c == '\t' || c == '\n' || c == '\x0B' || c == '\x0C' || c == '\r' || c == ' '
    ||| c == '\u{85}' || c == '\u{A0}' || c == '\u{1680}'
    ||| ('\u{2000}' <= c && c <= '\u{200A}')
    ||| c == '\u{2028}' || c == '\u{2029}' || c == '\u{202F}' || c == '\u{205F}' || c == '\u{3000}'
}

/// Whether `c` is whitespace.
pub fn is_whitespace(c: char) -> (b: bool)
    ensures
        b == is_ws(c),
{
    c == '\t' || c == '\n' || c == '\x0B' || c == '\x0C' || c == '\r' || c == ' ' || c == '\u{85}'
        || c == '\u{A0}' || c == '\u{1680}' || ('\u{2000}' <= c && c <= '\u{200A}') || c
        == '\u{2028}' || c == '\u{2029}' || c == '\u{202F}' || c == '\u{205F}' || c == '\u{3000}'
}

/// Number of bytes of `c` in UTF-8.
pub open spec fn char_width(c: char) -> nat {
    if (c as u32) < 0x80 {
        1
    } else if (c as u32) < 0x800 {
        2
    } else if (c as u32) < 0x10000 {
        3
    } else {
        4
    }
}

/// Number of bytes of `s` in UTF-8: what `str::len` returns.
pub open spec fn utf8_len(s: Seq<char>) -> nat
    decreases s.len(),
{
    if s.len() == 0 {
        0
    } else {
        utf8_len(s.drop_last()) + char_width(s.last())
    }
}

/// Width of one character in UTF-8.
pub fn char_utf8_width(c: char) -> (w: usize)
    ensures
        w == char_width(c),
        1 <= w <= 4,
{
    if (c as u32) < 0x80 {
        1
    } else if (c as u32) < 0x800 {
        2
    } else if (c as u32) < 0x10000 {
        3
    } else {
        4
    }
}

pub proof fn lemma_utf8_len_concat(a: Seq<char>, b: Seq<char>)
    ensures
        utf8_len(a + b) == utf8_len(a) + utf8_len(b),
    decreases b.len(),
{
    if b.len() == 0 {
        assert(a + b =~= a);
    } else {
        lemma_utf8_len_concat(a, b.drop_last());
        assert((a + b).drop_last() =~= a + b.drop_last());
    }
}

/// `utf8_len` counts the bytes of the UTF-8 encoding.
pub proof fn lemma_encode_utf8_len(s: Seq<char>)
    ensures
        vstd::utf8::encode_utf8(s).len() == utf8_len(s),
    decreases s.len(),
{
    if s.len() > 0 {
        lemma_encode_utf8_len(s.drop_first());
        lemma_utf8_len_concat(seq![s[0]], s.drop_first());
        assert(seq![s[0]] + s.drop_first() =~= s);
        let c = s[0];
        vstd::utf8::char_is_scalar(c);
        assert(utf8_len(Seq::<char>::empty()) == 0);
        assert(seq![c].drop_last() =~= Seq::<char>::empty());
        assert(utf8_len(seq![c]) == char_width(c));
    }
}

/// The text of a `str` is at most `usize::MAX` bytes long in UTF-8.
pub fn str_fits(s: &str)
    ensures
        utf8_len(s@) <= usize::MAX,
{
    let n = s.as_bytes().len();
    proof {
        lemma_encode_utf8_len(s@);
    }
    assert(n == utf8_len(s@));
}

pub proof fn lemma_utf8_len_ge_len(s: Seq<char>)
    ensures
        utf8_len(s) >= s.len(),
    decreases s.len(),
{
    if s.len() > 0 {
        lemma_utf8_len_ge_len(s.drop_last());
    }
}

pub proof fn lemma_utf8_len_take(s: Seq<char>, i: int)
    requires
        0 <= i < s.len(),
    ensures
        utf8_len(s.take(i + 1)) == utf8_len(s.take(i)) + char_width(s[i]),
{
    assert(s.take(i + 1).drop_last() =~= s.take(i));
}

pub proof fn lemma_utf8_len_prefix_mono(s: Seq<char>, i: int, j: int)
    requires
        0 <= i <= j <= s.len(),
    ensures
        utf8_len(s.take(i)) <= utf8_len(s.take(j)),
    decreases j - i,
{
    if i < j {
        lemma_utf8_len_prefix_mono(s, i, j - 1);
        lemma_utf8_len_take(s, j - 1);
    }
}

/// ASCII lower-casing of one character, as `char::to_ascii_lowercase`.
pub open spec fn lower_char(c: char) -> char {
    if 'A' <= c && c <= 'Z' {
        ((c as u32) + 32) as char
    } else {
        c
    }
}

/// ASCII lower-casing of a sequence, as `str::to_ascii_lowercase`.
pub open spec fn lower_seq(s: Seq<char>) -> Seq<char> {
    s.map_values(|c: char| lower_char(c))
}

/// Lower-cases an ASCII letter; other characters are kept.
pub fn ascii_lower(c: char) -> (r: char)
    ensures
        r == lower_char(c),
{
    if 'A' <= c && c <= 'Z' {
        let b: u8 = c as u8;
        assert(b as u32 == c as u32);
        let r = (b + 32) as char;
        r
    } else {
        c
    }
}

/// The sequence without its leading whitespace.
pub open spec fn trim_start(s: Seq<char>) -> Seq<char>
    decreases s.len(),
{
    if s.len() > 0 && is_ws(s[0]) {
        trim_start(s.drop_first())
    } else {
        s
    }
}

/// The sequence without its trailing whitespace.
pub open spec fn trim_end(s: Seq<char>) -> Seq<char>
    decreases s.len(),
{
    if s.len() > 0 && is_ws(s.last()) {
        trim_end(s.drop_last())
    } else {
        s
    }
}

/// Trimming the end keeps a prefix: all that is dropped is whitespace, and what is
/// kept ends in a character that is not.
pub proof fn lemma_trim_end_prefix(s: Seq<char>)
    ensures
        trim_end(s).len() <= s.len(),
        trim_end(s) == s.take(trim_end(s).len() as int),
        trim_end(s).len() > 0 ==> !is_ws(s[trim_end(s).len() - 1]),
        forall|j: int| trim_end(s).len() <= j < s.len() ==> is_ws(#[trigger] s[j]),
    decreases s.len(),
{
    if s.len() > 0 && is_ws(s.last()) {
        lemma_trim_end_prefix(s.drop_last());
        assert(s.drop_last().take(trim_end(s).len() as int) =~= s.take(trim_end(s).len() as int));
        assert forall|j: int| trim_end(s).len() <= j < s.len() implies is_ws(#[trigger] s[j]) by {
            if j < s.len() - 1 {
                assert(s[j] == s.drop_last()[j]);
            }
        }
    } else {
        assert(s.take(s.len() as int) =~= s);
    }
}

/// The sequence without leading and trailing whitespace, as `str::trim`.
pub open spec fn trim(s: Seq<char>) -> Seq<char> {
    trim_end(trim_start(s))
}

/// Whether every character of `s` is whitespace.
pub open spec fn all_ws(s: Seq<char>) -> bool {
    forall|i: int| 0 <= i < s.len() ==> is_ws(#[trigger] s[i])
}

/// Whether `p` is a prefix of `s`.
pub open spec fn has_prefix(s: Seq<char>, p: Seq<char>) -> bool {
    p.len() <= s.len() && s.subrange(0, p.len() as int) == p
}

/// Whether `p` is a suffix of `s`.
pub open spec fn has_suffix(s: Seq<char>, p: Seq<char>) -> bool {
    p.len() <= s.len() && s.subrange(s.len() - p.len(), s.len() as int) == p
}

/// Whether `p` occurs in `s` at position `i`.
pub open spec fn occurs_at(s: Seq<char>, p: Seq<char>, i: int) -> bool {
    0 <= i && i + p.len() <= s.len() && s.subrange(i, i + p.len()) == p
}

/// Whether `p` occurs in `s`, as `str::contains`.
pub open spec fn contains(s: Seq<char>, p: Seq<char>) -> bool {
    exists|i: int| occurs_at(s, p, i)
}

pub proof fn lemma_trim_start_suffix(s: Seq<char>)
    ensures
        exists|k: int|
            0 <= k <= s.len() && trim_start(s) == s.subrange(k, s.len() as int) && all_ws(
                s.subrange(0, k),
            ) && (k < s.len() ==> !is_ws(s[k])),
    decreases s.len(),
{
    if s.len() > 0 && is_ws(s[0]) {
        lemma_trim_start_suffix(s.drop_first());
        let k = choose|k: int|
            0 <= k <= s.drop_first().len() && trim_start(s.drop_first()) == s.drop_first().subrange(
                k,
                s.drop_first().len() as int,
            ) && all_ws(s.drop_first().subrange(0, k)) && (k < s.drop_first().len() ==> !is_ws(
                s.drop_first()[k],
            ));
        assert(s.drop_first().subrange(k, s.drop_first().len() as int) =~= s.subrange(
            k + 1,
            s.len() as int,
        ));
        assert forall|i: int| 0 <= i < k + 1 implies is_ws(#[trigger] s.subrange(0, k + 1)[i]) by {
            if i > 0 {
                assert(s.subrange(0, k + 1)[i] == s.drop_first().subrange(0, k)[i - 1]);
            }
        }
    } else {
        assert(s.subrange(0, s.len() as int) =~= s);
        assert(s.subrange(0, 0) =~= Seq::<char>::empty());
    }
}

/// A trimmed text that is not empty starts and ends with a character that is not
/// whitespace.
pub proof fn lemma_trim_ends(x: Seq<char>)
    ensures
        trim(x).len() > 0 ==> !is_ws(trim(x)[0]) && !is_ws(trim(x).last()),
{
    lemma_trim_start_suffix(x);
    let k = choose|k: int|
        0 <= k <= x.len() && trim_start(x) == x.subrange(k, x.len() as int) && all_ws(
            x.subrange(0, k),
        ) && (k < x.len() ==> !is_ws(x[k]));
    let y = trim_start(x);
    lemma_trim_end_prefix(y);
    if trim(x).len() > 0 {
        assert(y[0] == x[k]);
        assert(trim(x)[0] == y[0]);
        assert(trim(x).last() == y[trim(x).len() - 1]);
    }
}

/// Index of the first non-whitespace character of `s[lo..hi]` (or `hi`).
pub fn skip_ws_forward(s: &[char], lo: usize, hi: usize) -> (k: usize)
    requires
        lo <= hi <= s@.len(),
    ensures
        lo <= k <= hi,
        trim_start(s@.subrange(lo as int, hi as int)) == s@.subrange(k as int, hi as int),
        forall|i: int| lo <= i < k ==> is_ws(#[trigger] s@[i]),
        k < hi ==> !is_ws(s@[k as int]),
{
    let mut k = lo;
    while k < hi && is_whitespace(s[k])
        invariant
            lo <= k <= hi <= s@.len(),
            trim_start(s@.subrange(lo as int, hi as int)) == trim_start(
                s@.subrange(k as int, hi as int),
            ),
            forall|i: int| lo <= i < k ==> is_ws(#[trigger] s@[i]),
        decreases hi - k,
    {
        assert(s@.subrange(k as int, hi as int).drop_first() =~= s@.subrange(k + 1, hi as int));
        k = k + 1;
    }
    k
}

/// End of `s[lo..hi]` once trailing whitespace is dropped.
pub fn skip_ws_backward(s: &[char], lo: usize, hi: usize) -> (k: usize)
    requires
        lo <= hi <= s@.len(),
    ensures
        lo <= k <= hi,
        trim_end(s@.subrange(lo as int, hi as int)) == s@.subrange(lo as int, k as int),
        forall|i: int| k <= i < hi ==> is_ws(#[trigger] s@[i]),
        lo < k ==> !is_ws(s@[k - 1]),
{
    let mut k = hi;
    while k > lo && is_whitespace(s[k - 1])
        invariant
            lo <= k <= hi <= s@.len(),
            trim_end(s@.subrange(lo as int, hi as int)) == trim_end(
                s@.subrange(lo as int, k as int),
            ),
            forall|i: int| k <= i < hi ==> is_ws(#[trigger] s@[i]),
        decreases k - lo,
    {
        assert(s@.subrange(lo as int, k as int).drop_last() =~= s@.subrange(lo as int, k - 1));
        k = k - 1;
    }
    k
}

/// Bounds of `trim(s[lo..hi])` inside `s`.
pub fn trim_bounds(s: &[char], lo: usize, hi: usize) -> (r: (usize, usize))
    requires
        lo <= hi <= s@.len(),
    ensures
        lo <= r.0 <= r.1 <= hi,
        trim(s@.subrange(lo as int, hi as int)) == s@.subrange(r.0 as int, r.1 as int),
{
    let a = skip_ws_forward(s, lo, hi);
    let b = skip_ws_backward(s, a, hi);
    (a, b)
}

/// Whether `p` occurs in `s` at position `i`.
pub fn matches_at(s: &[char], i: usize, p: &[char]) -> (b: bool)
    ensures
        b == occurs_at(s@, p@, i as int),
{
    if i > s.len() || p.len() > s.len() - i {
        return false;
    }
    let mut j: usize = 0;
    while j < p.len()
        invariant
            i + p@.len() <= s@.len(),
            s@.len() == s.len(),
            0 <= j <= p@.len(),
            forall|t: int| 0 <= t < j ==> s@[i + t] == p@[t],
        decreases p@.len() - j,
    {
        if s[i + j] != p[j] {
            assert(s@.subrange(i as int, i + p@.len())[j as int] != p@[j as int]);
            return false;
        }
        j = j + 1;
    }
    assert(s@.subrange(i as int, i + p@.len()) =~= p@);
    true
}

/// First position at or after `from` where `p` occurs in `s[..hi]`.
pub fn find_from(s: &[char], from: usize, hi: usize, p: &[char]) -> (r: Option<usize>)
    requires
        from <= hi <= s@.len(),
    ensures
        r matches Some(i) ==> from <= i && i + p@.len() <= hi && occurs_at(s@, p@, i as int)
            && forall|j: int| from <= j < i ==> !occurs_at(s@.subrange(0, hi as int), p@, j),
        r is None ==> forall|j: int|
            from <= j ==> !occurs_at(s@.subrange(0, hi as int), p@, j),
{
    let ghost sh = s@.subrange(0, hi as int);
    let mut i = from;
    while i < hi && p.len() <= hi - i
        invariant
            from <= i <= hi <= s@.len(),
            sh == s@.subrange(0, hi as int),
            forall|j: int| from <= j < i ==> !occurs_at(sh, p@, j),
        decreases hi - i,
    {
        if matches_at(s, i, p) {
            assert(occurs_at(sh, p@, i as int)) by {
                assert(sh.subrange(i as int, i + p@.len()) =~= s@.subrange(
                    i as int,
                    i + p@.len(),
                ));
            }
            return Some(i);
        }
        assert(!occurs_at(sh, p@, i as int)) by {
            if i + p@.len() <= hi {
                assert(sh.subrange(i as int, i + p@.len()) =~= s@.subrange(
                    i as int,
                    i + p@.len(),
                ));
            }
        }
        i = i + 1;
    }
    if p.len() == 0 && i == hi {
        assert(occurs_at(sh, p@, i as int)) by {
            assert(sh.subrange(i as int, i as int) =~= p@);
        }
        assert(occurs_at(s@, p@, i as int)) by {
            assert(s@.subrange(i as int, i as int) =~= p@);
        }
        return Some(i);
    }
    None
}

/// Whether `p` occurs anywhere in `s`.
pub fn contains_chars(s: &[char], p: &[char]) -> (b: bool)
    ensures
        b == contains(s@, p@),
{
    let r = find_from(s, 0, s.len(), p);
    assert(s@.subrange(0, s@.len() as int) =~= s@);
    match r {
        Some(i) => true,
        None => {
            assert(!contains(s@, p@)) by {
                if contains(s@, p@) {
                    let j = choose|j: int| occurs_at(s@, p@, j);
                    assert(!occurs_at(s@.subrange(0, s@.len() as int), p@, j));
                }
            }
            false
        }
    }
}

/// Whether the literal `p` occurs in `s`.
pub fn contains_str(s: &[char], p: &str) -> (b: bool)
    ensures
        b == contains(s@, p@),
{
    let pc = chars_of(p);
    contains_chars(s, pc.as_slice())
}

/// Whether `s` begins with the literal `p`.
pub fn starts_with_str(s: &[char], p: &str) -> (b: bool)
    ensures
        b == has_prefix(s@, p@),
{
    let pc = chars_of(p);
    let r = matches_at(s, 0, pc.as_slice());
    r
}

/// Whether `s` is exactly the text `p`.
pub fn equals_str(s: &[char], p: &str) -> (b: bool)
    ensures
        b == (s@ == p@),
{
    let pc = chars_of(p);
    if s.len() != pc.len() {
        return false;
    }
    let r = matches_at(s, 0, pc.as_slice());
    assert(s@.subrange(0, pc@.len() as int) =~= s@);
    r
}

/// Whether `s` ends with the text `p`.
pub fn ends_with_str(s: &[char], p: &str) -> (b: bool)
    ensures
        b == has_suffix(s@, p@),
{
    let pc = chars_of(p);
    if pc.len() > s.len() {
        return false;
    }
    let r = matches_at(s, s.len() - pc.len(), pc.as_slice());
    r
}

/// `s` lower-cased in ASCII.
pub fn lowered(s: &[char]) -> (r: Vec<char>)
    ensures
        r@ == lower_seq(s@),
{
    let mut r: Vec<char> = Vec::new();
    let mut k: usize = 0;
    while k < s.len()
        invariant
            k <= s@.len(),
            r@ == lower_seq(s@.take(k as int)),
        decreases s@.len() - k,
    {
        r.push(ascii_lower(s[k]));
        k = k + 1;
        assert(r@ =~= lower_seq(s@.take(k as int)));
    }
    assert(s@.take(k as int) =~= s@);
    r
}

/// `raw` trimmed and lower-cased in ASCII, as `raw.trim().to_ascii_lowercase()`.
pub fn trimmed_lower(raw: &str) -> (r: Vec<char>)
    ensures
        r@ == lower_seq(trim(raw@)),
{
    let cs = chars_of(raw);
    let (a, b) = trim_bounds(cs.as_slice(), 0, cs.len());
    assert(cs@.subrange(0, cs@.len() as int) =~= cs@);
    let mut r: Vec<char> = Vec::new();
    let mut k = a;
    while k < b
        invariant
            a <= k <= b <= cs@.len(),
            r@ == lower_seq(cs@.subrange(a as int, k as int)),
        decreases b - k,
    {
        r.push(ascii_lower(cs[k]));
        k = k + 1;
        assert(r@ =~= lower_seq(cs@.subrange(a as int, k as int)));
    }
    r
}

/// The characters of `s`, in order.
pub fn chars_of(s: &str) -> (v: Vec<char>)
    ensures
        v@ == s@,
{
    broadcast use vstd::string::group_string_axioms;

    let mut v: Vec<char> = Vec::new();
    for c in it: s.chars()
        invariant
            it.seq() == s@,
            v@ == s@.take(it.index() as int),
    {
        v.push(c);
        assert(v@ =~= s@.take(it.index() + 1));
    }
    assert(v@ =~= s@);
    v
}

/// Appends the characters of `p` to `v`.
pub fn push_str(v: &mut Vec<char>, p: &str)
    ensures
        final(v)@ == old(v)@ + p@,
{
    let pc = chars_of(p);
    let mut i: usize = 0;
    while i < pc.len()
        invariant
            0 <= i <= pc@.len(),
            pc@ == p@,
            v@ == old(v)@ + p@.take(i as int),
        decreases pc@.len() - i,
    {
        v.push(pc[i]);
        assert(v@ =~= old(v)@ + p@.take(i + 1));
        i = i + 1;
    }
    assert(p@.take(i as int) =~= p@);
}

/// Appends `s[lo..hi]` to `v`.
pub fn push_range(v: &mut Vec<char>, s: &[char], lo: usize, hi: usize)
    requires
        lo <= hi <= s@.len(),
    ensures
        final(v)@ == old(v)@ + s@.subrange(lo as int, hi as int),
{
    let mut i = lo;
    while i < hi
        invariant
            lo <= i <= hi <= s@.len(),
            v@ == old(v)@ + s@.subrange(lo as int, i as int),
        decreases hi - i,
    {
        v.push(s[i]);
        assert(v@ =~= old(v)@ + s@.subrange(lo as int, i + 1));
        i = i + 1;
    }
}

/// A new vector holding `s[lo..hi]`.
pub fn slice_range(s: &[char], lo: usize, hi: usize) -> (v: Vec<char>)
    requires
        lo <= hi <= s@.len(),
    ensures
        v@ == s@.subrange(lo as int, hi as int),
{
    let mut v = Vec::new();
    push_range(&mut v, s, lo, hi);
    assert(Seq::<char>::empty() + s@.subrange(lo as int, hi as int) =~= s@.subrange(
        lo as int,
        hi as int,
    ));
    v
}

/// The string whose characters are `chars`.
#[verifier::external_body]
pub(crate) fn string_of(chars: Vec<char>) -> (s: String)
    ensures
        s@ == chars@,
{
    String::from_iter(chars)
}

/// `s` with every `"\r\n"` replaced by `"\n"`, scanning from the left.
pub open spec fn normalize_newlines(s: Seq<char>) -> Seq<char>
    decreases s.len(),
{
    if s.len() == 0 {
        s
    } else if s.len() >= 2 && s[0] == '\r' && s[1] == '\n' {
        seq!['\n'] + normalize_newlines(s.skip(2))
    } else {
        seq![s[0]] + normalize_newlines(s.skip(1))
    }
}

/// `s` with every `"\r\n"` replaced by `"\n"`.
pub fn normalize_newlines_vec(s: &[char]) -> (r: Vec<char>)
    ensures
        r@ == normalize_newlines(s@),
{
    let mut r: Vec<char> = Vec::new();
    let mut i: usize = 0;
    assert(s@.skip(0) =~= s@);
    while i < s.len()
        invariant
            0 <= i <= s@.len(),
            normalize_newlines(s@) == r@ + normalize_newlines(s@.skip(i as int)),
        decreases s@.len() - i,
    {
        let ghost rest = s@.skip(i as int);
        if i + 1 < s.len() && s[i] == '\r' && s[i + 1] == '\n' {
            assert(rest.skip(2) =~= s@.skip(i + 2));
            r.push('\n');
            i = i + 2;
        } else {
            assert(rest.skip(1) =~= s@.skip(i + 1));
            r.push(s[i]);
            i = i + 1;
        }
    }
    assert(s@.skip(i as int) =~= Seq::<char>::empty());
    assert(r@ + Seq::<char>::empty() =~= r@);
    r
}

/// The bytes-wise longest prefix: the number of leading characters of `s` whose
/// UTF-8 width fits in `max`.
pub open spec fn fits_prefix(s: Seq<char>, k: int, max: int) -> bool {
    0 <= k <= s.len() && utf8_len(s.take(k)) <= max && (k == s.len() || utf8_len(s.take(k + 1))
        > max)
}

/// End of the longest prefix of `s[lo..hi]` whose UTF-8 width is at most `max`.
pub fn utf8_prefix_end(s: &[char], lo: usize, hi: usize, max: usize) -> (k: usize)
    requires
        lo <= hi <= s@.len(),
    ensures
        lo <= k <= hi,
        fits_prefix(s@.subrange(lo as int, hi as int), k - lo, max as int),
{
    let ghost t = s@.subrange(lo as int, hi as int);
    let mut k = lo;
    let mut used: usize = 0;
    assert(t.take(0) =~= Seq::<char>::empty());
    while k < hi
        invariant
            lo <= k <= hi <= s@.len(),
            t == s@.subrange(lo as int, hi as int),
            used == utf8_len(t.take(k - lo)),
            used <= max,
        decreases hi - k,
    {
        let w = char_utf8_width(s[k]);
        proof {
            lemma_utf8_len_take(t, k - lo);
        }
        if w > max - used {
            return k;
        }
        used = used + w;
        k = k + 1;
    }
    assert(t.take(k - lo) =~= t);
    k
}

/// The number of leading characters of `s` that fit `max` bytes.
pub open spec fn utf8_prefix_end_spec(s: Seq<char>, max: int) -> int
    decreases s.len(),
{
    if s.len() == 0 {
        0
    } else if utf8_len(s) <= max {
        s.len() as int
    } else {
        utf8_prefix_end_spec(s.drop_last(), max)
    }
}

pub proof fn lemma_fits_prefix_exists(s: Seq<char>, max: int)
    requires
        max >= 0,
    ensures
        fits_prefix(s, utf8_prefix_end_spec(s, max), max),
    decreases s.len(),
{
    assert(s.take(s.len() as int) =~= s);
    if s.len() == 0 {
        assert(s.take(0) =~= s);
    } else if utf8_len(s) <= max {
    } else {
        let d = s.drop_last();
        lemma_fits_prefix_exists(d, max);
        let k = utf8_prefix_end_spec(d, max);
        assert(d.take(k) =~= s.take(k));
        if k < d.len() {
            assert(d.take(k + 1) =~= s.take(k + 1));
        } else {
            assert(d =~= s.take(k));
            assert(s.take(k + 1) =~= s);
        }
    }
}

/// The UTF-8 encoding of `c`.
pub fn encode_char(c: char) -> (r: Vec<u8>)
    ensures
        r@ == vstd::utf8::encode_scalar(c as u32),
{
    let v = c as u32;
    let mut r: Vec<u8> = Vec::new();
    if v <= 0x7F {
        r.push((v & 0x7F) as u8);
    } else if v <= 0x7FF {
        r.push(0xC0 | ((v >> 6) & 0x1F) as u8);
        r.push(0x80 | (v & 0x3F) as u8);
    } else if v <= 0xFFFF && !(0xD800 <= v && v <= 0xDFFF) {
        r.push(0xE0 | ((v >> 12) & 0x0F) as u8);
        r.push(0x80 | ((v >> 6) & 0x3F) as u8);
        r.push(0x80 | (v & 0x3F) as u8);
    } else {
        r.push(0xF0 | ((v >> 18) & 0x7) as u8);
        r.push(0x80 | ((v >> 12) & 0x3F) as u8);
        r.push(0x80 | ((v >> 6) & 0x3F) as u8);
        r.push(0x80 | (v & 0x3F) as u8);
    }
    r
}

/// The text that `String::from_utf8_lossy` makes of a byte sequence.
pub uninterp spec fn utf8_lossy(bytes: Seq<u8>) -> Seq<char>;

/// Calls `String::from_utf8_lossy`. The contract names the result `utf8_lossy` of the
/// bytes and states what std documents: valid UTF-8 comes back unchanged.
#[verifier::external_body]
pub(crate) fn lossy_string(bytes: &[u8]) -> (r: String)
    ensures
        r@ == utf8_lossy(bytes@),
        vstd::utf8::valid_utf8(bytes@) ==> r@ == vstd::utf8::decode_utf8(bytes@),
{
    String::from_utf8_lossy(bytes).into_owned()
}

/// The decimal digit for `d`.
pub open spec fn digit_char(d: nat) -> char {
    ((('0' as u32) + d) as u32) as char
}

/// The decimal representation of `n`, as `Display` writes it.
pub open spec fn decimal(n: nat) -> Seq<char>
    decreases n,
{
    if n < 10 {
        seq![digit_char(n)]
    } else {
        decimal(n / 10).push(digit_char(n % 10))
    }
}

/// Appends the decimal representation of `n`.
pub fn push_decimal(v: &mut Vec<char>, n: usize)
    ensures
        final(v)@ == old(v)@ + decimal(n as nat),
    decreases n,
{
    if n >= 10 {
        push_decimal(v, n / 10);
    }
    let d: u8 = (n % 10) as u8;
    let c = (('0' as u8) + d) as char;
    assert(c == digit_char((n % 10) as nat));
    v.push(c);
    proof {
        if n < 10 {
            assert(n % 10 == n);
        }
    }
}

} // verus!
