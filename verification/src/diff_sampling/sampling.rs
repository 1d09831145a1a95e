//! Sampling a large diff into a budget: every file's header first, then each file's
//! first hunk, then the remaining hunks while room is left.
use vstd::prelude::*;

use super::budget::{diff_stat_cap, patch_budget, patch_room, sat_sub, stat_cap, DiffBudget};
use super::notices::{
    DIFF_DELETED_FILE_NOTICE, DIFF_HEADER_TRUNCATED_NOTICE, DIFF_HUNK_TRUNCATED_NOTICE,
    DIFF_SAMPLING_NOTICE, DIFF_STAT_TRUNCATED_NOTICE,
};
use crate::diff_parse::{file_views, DiffFile, DiffFileKind, DiffFileView};
use crate::lines::{range_seqs, ranges_within, split_inclusive, split_inclusive_ranges};
use crate::text::{
    chars_of, normalize_newlines, normalize_newlines_vec, push_range, push_str, slice_range,
    string_of, trim, trim_bounds,
};
use crate::text_budget::{
    measure_trimmed, measured, text_len, trim_text, trim_text_with_notice, trimmed_with_notice,
};
use crate::tokenizer::Tokenizer;
use super::bounds::{law_represented_files_bounded, law_sampled_patch_fits_byte_budget};
use crate::text::{str_fits, utf8_len};
use super::phases::{
    first_hunks_from, headers_from, rests_from, sample_first_hunks, sample_headers,
    sample_remaining_hunks, Sampler,
};

verus! {

/// How a diff was fitted into the prompt.
#[derive(Clone, Copy, Debug, PartialEq, Eq)]
pub struct DiffSamplingResult {
    pub total_files: usize,
    pub represented_files: usize,
    pub sampled: bool,
    pub stat_truncated: bool,
}

impl Default for DiffSamplingResult {
    fn default() -> (r: DiffSamplingResult)
        ensures
            r.total_files == 0 && r.represented_files == 0 && !r.sampled && !r.stat_truncated,
    {
        DiffSamplingResult {
            total_files: 0,
            represented_files: 0,
            sampled: false,
            stat_truncated: false,
        }
    }
}

/// Whether a file's hunks are worth sampling.
pub open spec fn samples_hunks(f: DiffFileView) -> bool {
    match f.kind {
        DiffFileKind::Deleted | DiffFileKind::Binary | DiffFileKind::ModeOnly
        | DiffFileKind::SubmoduleOrOtherHeaderOnly => false,
        _ => f.hunks.len() > 0,
    }
}

/// Whether a file's hunks are worth sampling.
pub fn should_sample_file_hunks(file: &DiffFile) -> (b: bool)
    ensures
        b == samples_hunks(file@),
{
    match file.kind {
        DiffFileKind::Deleted | DiffFileKind::Binary | DiffFileKind::ModeOnly
        | DiffFileKind::SubmoduleOrOtherHeaderOnly => false,
        DiffFileKind::Renamed | DiffFileKind::Copied => !file.hunks.is_empty(),
        DiffFileKind::Modified | DiffFileKind::Added => !file.hunks.is_empty(),
    }
}

/// The lines `lines[i..]` up to and including the first `GIT binary patch` line.
pub open spec fn binary_prefix_from(lines: Seq<Seq<char>>, i: int) -> Seq<char>
    decreases lines.len() - i,
{
    if i >= lines.len() || i < 0 {
        Seq::empty()
    } else if trim(lines[i]) == "GIT binary patch"@ {
        lines[i]
    } else {
        lines[i] + binary_prefix_from(lines, i + 1)
    }
}

/// A binary file's header without the patch payload after `GIT binary patch`.
pub open spec fn without_binary_payload(header: Seq<char>) -> Seq<char> {
    binary_prefix_from(split_inclusive(normalize_newlines(header)), 0)
}

/// A binary file's header without the patch payload.
pub fn trim_binary_patch_payload(header: &[char]) -> (r: Vec<char>)
    ensures
        r@ == without_binary_payload(header@),
{
    let n = normalize_newlines_vec(header);
    let ranges = split_inclusive_ranges(n.as_slice(), 0, n.len());
    assert(n@.subrange(0, n@.len() as int) =~= n@);
    let ghost lines = split_inclusive(n@);
    let marker = chars_of("GIT binary patch");
    let mut out: Vec<char> = Vec::new();
    let mut k: usize = 0;
    while k < ranges.len()
        invariant
            0 <= k <= ranges@.len(),
            range_seqs(n@, ranges@) == lines,
            lines == split_inclusive(n@),
            n@ == normalize_newlines(header@),
            ranges_within(ranges@, 0, n@.len() as int),
            marker@ == "GIT binary patch"@,
            binary_prefix_from(lines, 0) == out@ + binary_prefix_from(lines, k as int),
        decreases ranges@.len() - k,
    {
        let (a, b) = ranges[k];
        assert(ranges@[k as int].0 <= ranges@[k as int].1);
        assert(n@.subrange(a as int, b as int) == lines[k as int]);
        let ghost before = out@;
        push_range(&mut out, n.as_slice(), a, b);
        assert(out@ == before + lines[k as int]);
        let (ta, tb) = trim_bounds(n.as_slice(), a, b);
        let is_marker = tb - ta == marker.len() && crate::text::matches_at(
            n.as_slice(),
            ta,
            marker.as_slice(),
        );
        assert(is_marker == (trim(lines[k as int]) == "GIT binary patch"@)) by {
            if tb - ta == marker@.len() {
                assert(trim(lines[k as int]) == n@.subrange(ta as int, tb as int));
            }
        }
        if is_marker {
            assert(binary_prefix_from(lines, k as int) == lines[k as int]);
            return out;
        }
        assert(binary_prefix_from(lines, 0) =~= out@ + binary_prefix_from(lines, k + 1));
        k = k + 1;
    }
    assert(out@ + binary_prefix_from(lines, k as int) =~= out@);
    out
}

/// The header sampled for a file: a binary file's payload is dropped, and a deleted
/// file with hunks gets the deleted-file notice instead of its content.
pub open spec fn sampled_header(f: DiffFileView) -> Seq<char> {
    let header = if f.kind == DiffFileKind::Binary {
        without_binary_payload(f.header)
    } else {
        f.header
    };
    if f.kind == DiffFileKind::Deleted && f.hunks.len() > 0 {
        header + DIFF_DELETED_FILE_NOTICE@
    } else {
        header
    }
}

/// The header sampled for a file.
pub fn sampled_file_header(file: &DiffFile) -> (r: Vec<char>)
    ensures
        r@ == sampled_header(file@),
{
    let h = chars_of(file.header.as_str());
    let mut header = if file.kind == DiffFileKind::Binary {
        trim_binary_patch_payload(h.as_slice())
    } else {
        h
    };
    if file.kind == DiffFileKind::Deleted && file.hunks.len() > 0 {
        push_str(&mut header, DIFF_DELETED_FILE_NOTICE);
    }
    header
}

/// What sampling writes when nothing of the diff fits: nothing for a blank diff,
/// otherwise the sampling notice (cut to the budget).
pub open spec fn minimal_result(tokens: bool, raw: Seq<char>, budget: nat) -> (Seq<char>, nat, bool) {
    if trim(raw).len() == 0 {
        (Seq::empty(), 0, false)
    } else if budget == 0 {
        (trim(DIFF_SAMPLING_NOTICE@), 0, true)
    } else {
        let notice = measure_trimmed(tokens, DIFF_SAMPLING_NOTICE@, budget);
        if trim(notice).len() == 0 {
            (Seq::empty(), 0, true)
        } else {
            (trim(notice), 0, true)
        }
    }
}

fn trimmed_copy(s: &[char]) -> (r: Vec<char>)
    ensures
        r@ == trim(s@),
{
    let (a, b) = trim_bounds(s, 0, s.len());
    assert(s@.subrange(0, s@.len() as int) =~= s@);
    slice_range(s, a, b)
}

/// What sampling writes when nothing of the diff fits.
pub fn minimal_diff_result(raw: &[char], budget: usize, tokenizer: Option<&Tokenizer>) -> (r: (
    Vec<char>,
    usize,
    bool,
))
    ensures
        (r.0@, r.1 as nat, r.2) == minimal_result(tokenizer is Some, raw@, budget as nat),
{
    let (a, b) = trim_bounds(raw, 0, raw.len());
    assert(raw@.subrange(0, raw@.len() as int) =~= raw@);
    if a == b {
        return (Vec::new(), 0, false);
    }
    let notice = chars_of(DIFF_SAMPLING_NOTICE);
    if budget == 0 {
        return (trimmed_copy(notice.as_slice()), 0, true);
    }
    let cut = trim_text(notice.as_slice(), budget, tokenizer);
    let t = trimmed_copy(cut.as_slice());
    if t.len() == 0 {
        (Vec::new(), 0, true)
    } else {
        (t, 0, true)
    }
}

/// The sampler's state: the sample so far, the budget left, the files represented,
/// whose header is in, and whose first hunk is dealt with.
pub struct SampleState {
    pub sampled: Seq<char>,
    pub remaining: nat,
    pub represented: nat,
    pub header_added: Seq<bool>,
    pub handled: Seq<bool>,
}

/// Appends `chunk` (cut to what remains) to the sample; also gives the size used.
pub open spec fn appended(tokens: bool, st: SampleState, chunk: Seq<char>) -> (SampleState, nat) {
    if st.remaining == 0 || chunk.len() == 0 {
        (st, 0)
    } else {
        let c = if measured(tokens, chunk) > st.remaining {
            measure_trimmed(tokens, chunk, st.remaining)
        } else {
            chunk
        };
        if c.len() == 0 {
            (st, 0)
        } else {
            let used = measured(tokens, c);
            (
                SampleState {
                    sampled: st.sampled + c,
                    remaining: sat_sub(st.remaining as int, used as int) as nat,
                    ..st
                },
                used,
            )
        }
    }
}

/// Appends `chunk` to `builder`, cut to what remains, and returns the size used.
pub fn append_sample(
    builder: &mut Vec<char>,
    remaining: &mut usize,
    chunk: &[char],
    tokenizer: Option<&Tokenizer>,
) -> (used: usize)
    ensures
        ({
            let st = SampleState {
                sampled: old(builder)@,
                remaining: *old(remaining) as nat,
                represented: 0,
                header_added: Seq::empty(),
                handled: Seq::empty(),
            };
            let (st2, u) = appended(tokenizer is Some, st, chunk@);
            &&& final(builder)@ == st2.sampled
            &&& *final(remaining) == st2.remaining
            &&& used == u
        }),
{
    if *remaining == 0 || chunk.len() == 0 {
        return 0;
    }
    let len = text_len(chunk, tokenizer);
    let c = if len > *remaining {
        trim_text(chunk, *remaining, tokenizer)
    } else {
        slice_range(chunk, 0, chunk.len())
    };
    assert(chunk@.subrange(0, chunk@.len() as int) =~= chunk@);
    if c.len() == 0 {
        return 0;
    }
    let used = text_len(c.as_slice(), tokenizer);
    push_range(builder, c.as_slice(), 0, c.len());
    assert(c@.subrange(0, c@.len() as int) =~= c@);
    *remaining = remaining.saturating_sub(used);
    used
}

/// The sampler's state before anything is sampled.
pub open spec fn blank_state(n: nat, budget: nat) -> SampleState {
    SampleState {
        sampled: Seq::empty(),
        remaining: budget,
        represented: 0,
        header_added: Seq::new(n, |j: int| false),
        handled: Seq::new(n, |j: int| false),
    }
}

/// The sampled diff, the number of files it represents, and whether it was sampled.
///
/// A blank diff or a zero budget gives the minimal result; a diff that fits is kept
/// whole (trimmed); a diff with no parsed files is cut with the sampling notice;
/// otherwise the sampling notice comes first, then the three passes.
pub open spec fn sampled_diff(tokens: bool, files: Seq<DiffFileView>, raw: Seq<char>, budget: nat) -> (
    Seq<char>,
    nat,
    bool,
) {
    if trim(raw).len() == 0 || budget == 0 {
        minimal_result(tokens, raw, budget)
    } else if measured(tokens, raw) <= budget {
        (trim(raw), files.len(), false)
    } else if files.len() == 0 {
        (trim(trimmed_with_notice(tokens, raw, budget, DIFF_SAMPLING_NOTICE@).0), 1, true)
    } else {
        let (st1, used) = appended(tokens, blank_state(files.len(), budget), DIFF_SAMPLING_NOTICE@);
        if used == 0 {
            minimal_result(tokens, raw, budget)
        } else {
            let st = rests_from(
                tokens,
                files,
                first_hunks_from(tokens, files, headers_from(tokens, files, st1, 0), 0),
                0,
            );
            (trim(st.sampled), st.represented, true)
        }
    }
}

/// Samples `raw_diff` into `budget`.
pub fn sample_diff_patch(
    files: &[DiffFile],
    raw_diff: &str,
    budget: usize,
    tokenizer: Option<&Tokenizer>,
) -> (r: (String, usize, bool))
    ensures
        (r.0@, r.1 as nat, r.2) == sampled_diff(
            tokenizer is Some,
            file_views(files@),
            raw_diff@,
            budget as nat,
        ),
        tokenizer is None && 0 < budget ==> utf8_len(r.0@) <= budget,
        r.1 <= if files@.len() == 0 {
            1
        } else {
            files@.len()
        },
{
    str_fits(raw_diff);
    proof {
        if 0 < budget {
            law_sampled_patch_fits_byte_budget(file_views(files@), raw_diff@, budget as nat);
        }
        law_represented_files_bounded(tokenizer is Some, file_views(files@), raw_diff@, budget as nat);
    }
    let raw = chars_of(raw_diff);
    let (a, b) = trim_bounds(raw.as_slice(), 0, raw.len());
    assert(raw@.subrange(0, raw@.len() as int) =~= raw@);
    if a == b || budget == 0 {
        let (t, n, sampled) = minimal_diff_result(raw.as_slice(), budget, tokenizer);
        return (string_of(t), n, sampled);
    }
    if text_len(raw.as_slice(), tokenizer) <= budget {
        return (string_of(slice_range(raw.as_slice(), a, b)), files.len(), false);
    }
    let notice = chars_of(DIFF_SAMPLING_NOTICE);
    if files.len() == 0 {
        let (cut, _) = trim_text_with_notice(raw.as_slice(), budget, notice.as_slice(), tokenizer);
        return (string_of(trimmed_copy(cut.as_slice())), 1, true);
    }
    let mut s = Sampler::new(files.len(), budget);
    if s.append(notice.as_slice(), tokenizer) == 0 {
        let (t, n, sampled) = minimal_diff_result(raw.as_slice(), budget, tokenizer);
        return (string_of(t), n, sampled);
    }
    sample_headers(&mut s, files, tokenizer);
    sample_first_hunks(&mut s, files, tokenizer);
    sample_remaining_hunks(&mut s, files, tokenizer);
    (string_of(trimmed_copy(s.sampled.as_slice())), s.represented, true)
}

/// The trimmed diff stat, the sampled patch and the account of both, for `files`
/// parsed from `patch`, within `budget`.
pub open spec fn prepared_diff(
    files: Seq<DiffFileView>,
    stat: Seq<char>,
    patch: Seq<char>,
    budget: DiffBudget,
) -> (Seq<char>, Seq<char>, nat, nat, bool, bool) {
    let tokens = budget is Tokens;
    let (trimmed_stat, stat_truncated) = trimmed_with_notice(
        tokens,
        stat,
        stat_cap(budget),
        DIFF_STAT_TRUNCATED_NOTICE@,
    );
    let room = patch_room(
        budget,
        measured(tokens, trimmed_stat),
        measured(tokens, DIFF_SAMPLING_NOTICE@),
    );
    let (sampled, represented, was_sampled) = sampled_diff(
        tokens,
        files,
        normalize_newlines(patch),
        room,
    );
    (trimmed_stat, sampled, files.len(), represented, was_sampled, stat_truncated)
}

/// Trims the diff stat to its share of the budget and samples the patch into what
/// is left.
pub fn prepare_diff_for_prompt(
    files: &[DiffFile],
    diff_stat: &str,
    diff_patch: &str,
    budget: DiffBudget,
) -> (r: Result<(String, String, DiffSamplingResult), String>)
    ensures
        r is Ok,
        r matches Ok((stat, patch, res)) ==> (
        stat@,
        patch@,
        res.total_files as nat,
        res.represented_files as nat,
        res.sampled,
        res.stat_truncated,
        ) == prepared_diff(file_views(files@), diff_stat@, diff_patch@, budget),
{
    let tokenizer = if budget.is_token_mode() {
        match Tokenizer::new() {
            Ok(t) => Some(t),
            Err(e) => {
                return Err(e);
            },
        }
    } else {
        None
    };
    let stat = chars_of(diff_stat);
    let stat_notice = chars_of(DIFF_STAT_TRUNCATED_NOTICE);
    let (trimmed_stat, stat_truncated) = trim_text_with_notice(
        stat.as_slice(),
        diff_stat_cap(budget),
        stat_notice.as_slice(),
        tokenizer.as_ref(),
    );
    let patch = string_of(normalize_newlines_vec(chars_of(diff_patch).as_slice()));
    let notice = chars_of(DIFF_SAMPLING_NOTICE);
    let room = patch_budget(
        budget,
        text_len(trimmed_stat.as_slice(), tokenizer.as_ref()),
        text_len(notice.as_slice(), tokenizer.as_ref()),
    );
    let (sampled_patch, represented_files, sampled) = sample_diff_patch(
        files,
        patch.as_str(),
        room,
        tokenizer.as_ref(),
    );
    let result = DiffSamplingResult {
        total_files: files.len(),
        represented_files,
        sampled,
        stat_truncated,
    };
    Ok((string_of(trimmed_stat), sampled_patch, result))
}

} // verus!
