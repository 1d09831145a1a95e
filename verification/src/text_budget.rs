//! Measuring and trimming text against a budget, counted either in UTF-8 bytes or
//! in tokens.
use vstd::prelude::*;

use crate::message::{trim_bytes_range, utf8_trimmed};
use crate::text::{
    char_utf8_width, chars_of, fits_prefix, lemma_utf8_len_prefix_mono, lemma_utf8_len_take,
    push_range, slice_range, string_of, utf8_len,
};
use crate::tokenizer::{count_tokens, token_count, token_trim, token_trimmed, Tokenizer};

verus! {

/// The size of `s`: tokens when `tokens` holds, UTF-8 bytes otherwise; a byte count
/// beyond `usize::MAX` reads as `usize::MAX`.
pub open spec fn measured(tokens: bool, s: Seq<char>) -> nat {
    let n = if tokens {
        token_count(s)
    } else {
        utf8_len(s)
    };
    if n <= usize::MAX {
        n
    } else {
        usize::MAX as nat
    }
}

/// `s` cut to the budget `max`, in tokens or in bytes.
pub open spec fn measure_trimmed(tokens: bool, s: Seq<char>, max: nat) -> Seq<char> {
    if tokens {
        token_trimmed(s, max)
    } else {
        utf8_trimmed(s, max as int)
    }
}

/// The part of `p` up to its last newline when it has one, `p` otherwise.
pub open spec fn line_cut(p: Seq<char>) -> Seq<char> {
    line_cut_from(p, p.len() as int)
}

pub open spec fn line_cut_from(p: Seq<char>, n: int) -> Seq<char>
    decreases n,
{
    if n <= 0 {
        p
    } else if n - 1 < p.len() && p[n - 1] == '\n' {
        p.take(n)
    } else {
        line_cut_from(p, n - 1)
    }
}

/// `input` cut to the budget `max` with `notice` appended, cut at a line boundary
/// where the cut leaves one; the flag says whether anything was cut.
pub open spec fn trimmed_with_notice(
    tokens: bool,
    input: Seq<char>,
    max: nat,
    notice: Seq<char>,
) -> (Seq<char>, bool) {
    if measured(tokens, input) <= max {
        (input, false)
    } else if measured(tokens, notice) >= max {
        (measure_trimmed(tokens, notice, max), true)
    } else {
        (
            line_cut(measure_trimmed(tokens, input, (max - measured(tokens, notice)) as nat))
                + notice,
            true,
        )
    }
}

/// The UTF-8 width of `s[lo..hi]`, or `cap` if that is larger.
pub fn utf8_len_capped(s: &[char], lo: usize, hi: usize, cap: usize) -> (n: usize)
    requires
        lo <= hi <= s@.len(),
    ensures
        n == if utf8_len(s@.subrange(lo as int, hi as int)) <= cap {
            utf8_len(s@.subrange(lo as int, hi as int))
        } else {
            cap as nat
        },
{
    let ghost t = s@.subrange(lo as int, hi as int);
    let mut k = lo;
    let mut used: usize = 0;
    assert(t.take(0) =~= Seq::<char>::empty());
    while k < hi
        invariant
            lo <= k <= hi <= s@.len(),
            t == s@.subrange(lo as int, hi as int),
            used == utf8_len(t.take(k - lo)),
            used <= cap,
        decreases hi - k,
    {
        let w = char_utf8_width(s[k]);
        proof {
            lemma_utf8_len_take(t, k - lo);
        }
        if w > cap - used {
            proof {
                crate::text::lemma_utf8_len_prefix_mono(t, k - lo + 1, t.len() as int);
                assert(t.take(t.len() as int) =~= t);
            }
            return cap;
        }
        used = used + w;
        k = k + 1;
    }
    assert(t.take(k - lo) =~= t);
    used
}

/// The size of `s` in tokens or bytes.
pub fn text_len(s: &[char], tokenizer: Option<&Tokenizer>) -> (n: usize)
    ensures
        n == measured(tokenizer is Some, s@),
{
    match tokenizer {
        Some(_) => count_tokens(s),
        None => {
            let n = utf8_len_capped(s, 0, s.len(), usize::MAX);
            assert(s@.subrange(0, s@.len() as int) =~= s@);
            n
        },
    }
}

/// `s` cut to the budget `max`.
pub fn trim_text(s: &[char], max: usize, tokenizer: Option<&Tokenizer>) -> (r: Vec<char>)
    ensures
        r@ == measure_trimmed(tokenizer is Some, s@, max as nat),
{
    match tokenizer {
        Some(_) => token_trim(s, max),
        None => {
            assert(s@.subrange(0, s@.len() as int) =~= s@);
            trim_bytes_range(s, 0, s.len(), max)
        },
    }
}

/// End of the line cut of `s[0..n]`.
fn line_cut_end(s: &[char]) -> (k: usize)
    ensures
        k <= s@.len(),
        s@.take(k as int) == line_cut(s@),
{
    let mut n = s.len();
    while n > 0
        invariant
            0 <= n <= s@.len(),
            line_cut(s@) == line_cut_from(s@, n as int),
        decreases n,
    {
        if s[n - 1] == '\n' {
            return n;
        }
        n = n - 1;
    }
    assert(s@.take(s@.len() as int) =~= s@);
    s.len()
}

/// `input` cut to `max` with `notice` appended at a line boundary.
pub fn trim_text_with_notice(
    input: &[char],
    max: usize,
    notice: &[char],
    tokenizer: Option<&Tokenizer>,
) -> (r: (Vec<char>, bool))
    ensures
        (r.0@, r.1) == trimmed_with_notice(tokenizer is Some, input@, max as nat, notice@),
{
    let total = text_len(input, tokenizer);
    if total <= max {
        return (slice_range_all(input), false);
    }
    let notice_len = text_len(notice, tokenizer);
    if notice_len >= max {
        return (trim_text(notice, max, tokenizer), true);
    }
    let prefix = trim_text(input, max - notice_len, tokenizer);
    let k = line_cut_end(prefix.as_slice());
    let mut out = slice_range(prefix.as_slice(), 0, k);
    assert(prefix@.take(k as int) =~= prefix@.subrange(0, k as int));
    push_range(&mut out, notice, 0, notice.len());
    assert(notice@.subrange(0, notice@.len() as int) =~= notice@);
    (out, true)
}

fn slice_range_all(s: &[char]) -> (v: Vec<char>)
    ensures
        v@ == s@,
{
    let v = slice_range(s, 0, s.len());
    assert(s@.subrange(0, s@.len() as int) =~= s@);
    v
}

pub proof fn lemma_line_cut_prefix(p: Seq<char>, n: int)
    requires
        0 <= n <= p.len(),
    ensures
        exists|k: int| 0 <= k <= p.len() && line_cut_from(p, n) == p.take(k),
    decreases n,
{
    if n <= 0 {
        assert(p.take(p.len() as int) =~= p);
        assert(line_cut_from(p, n) == p.take(p.len() as int));
    } else if p[n - 1] == '\n' {
        assert(line_cut_from(p, n) == p.take(n));
    } else {
        lemma_line_cut_prefix(p, n - 1);
    }
}

/// A byte-trimmed text never grows past its budget.
pub proof fn lemma_utf8_trimmed_fits(s: Seq<char>, max: int)
    requires
        max >= 0,
    ensures
        utf8_len(utf8_trimmed(s, max)) <= max,
        exists|k: int| 0 <= k <= s.len() && utf8_trimmed(s, max) == s.take(k),
{
    let k = choose|k: int| fits_prefix(s, k, max);
    assert(fits_prefix(s, crate::text::utf8_prefix_end_spec(s, max), max)) by {
        crate::text::lemma_fits_prefix_exists(s, max);
    }
}

/// Cutting with a notice in bytes: the flag says whether `input` exceeded the budget,
/// and a cut result fits the budget.
pub proof fn lemma_trimmed_with_notice_fits(input: Seq<char>, max: nat, notice: Seq<char>)
    requires
        max <= usize::MAX,
    ensures
        utf8_len(input) <= max ==> !trimmed_with_notice(false, input, max, notice).1,
        trimmed_with_notice(false, input, max, notice).1 ==> utf8_len(input) > max,
        !trimmed_with_notice(false, input, max, notice).1 ==> trimmed_with_notice(
            false,
            input,
            max,
            notice,
        ).0 == input,
        utf8_len(trimmed_with_notice(false, input, max, notice).0) <= max || !trimmed_with_notice(
            false,
            input,
            max,
            notice,
        ).1,
{
    if measured(false, input) <= max {
    } else if measured(false, notice) >= max {
        lemma_utf8_trimmed_fits(notice, max as int);
    } else {
        let nl = utf8_len(notice);
        let p = utf8_trimmed(input, max - nl);
        lemma_utf8_trimmed_fits(input, max - nl);
        lemma_line_cut_prefix(p, p.len() as int);
        let k = choose|k: int| 0 <= k <= p.len() && line_cut_from(p, p.len() as int) == p.take(k);
        lemma_utf8_len_prefix_mono(p, k, p.len() as int);
        assert(p.take(p.len() as int) =~= p);
        crate::text::lemma_utf8_len_concat(line_cut(p), notice);
    }
}

impl Tokenizer {
    /// `input` cut to `budget` tokens with `notice` appended at a line boundary.
    pub fn trim_with_notice_at_line_boundary(&self, input: &str, budget: usize, notice: &str) -> (r: (
        String,
        bool,
    ))
        ensures
            (r.0@, r.1) == trimmed_with_notice(true, input@, budget as nat, notice@),
    {
        let i = chars_of(input);
        let n = chars_of(notice);
        let (out, cut) = trim_text_with_notice(i.as_slice(), budget, n.as_slice(), Some(self));
        (string_of(out), cut)
    }
}

} // verus!
