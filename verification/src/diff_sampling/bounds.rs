//! What sampling keeps within bounds: the byte budget and the count of represented
//! files.
use vstd::prelude::*;

use super::notices::{DIFF_HEADER_TRUNCATED_NOTICE, DIFF_HUNK_TRUNCATED_NOTICE, DIFF_SAMPLING_NOTICE};
use super::phases::{
    count_true, first_hunk_step, first_hunks_from, header_step, headers_from, hunk_step,
    hunks_from, lemma_count_true_le, lemma_count_true_none, lemma_count_true_set, mark_handled,
    mark_header, rest_step, rests_from,
};
use super::sampling::{appended, blank_state, minimal_result, sampled_diff, SampleState};
use crate::diff_parse::DiffFileView;
use crate::message::utf8_trimmed;
use crate::text::{is_ws, lemma_utf8_len_concat, trim, trim_end, trim_start, utf8_len};
use crate::text_budget::{
    lemma_trimmed_with_notice_fits, lemma_utf8_trimmed_fits, measure_trimmed, measured,
    trimmed_with_notice,
};

verus! {

/// The flags cover `n` files and the represented count is the number of flags set;
/// in byte mode with `budget` below `usize::MAX`, what is sampled and what remains add
/// up to at most `budget`.
pub open spec fn sample_sound(tokens: bool, n: nat, budget: nat, st: SampleState) -> bool {
    &&& st.header_added.len() == n
    &&& st.handled.len() == n
    &&& st.represented == count_true(st.header_added)
    &&& !tokens && budget < usize::MAX ==> utf8_len(st.sampled) + st.remaining <= budget
}

proof fn lemma_trim_start_bytes(s: Seq<char>)
    ensures
        utf8_len(trim_start(s)) <= utf8_len(s),
    decreases s.len(),
{
    if s.len() > 0 && is_ws(s[0]) {
        lemma_trim_start_bytes(s.drop_first());
        lemma_utf8_len_concat(s.take(1), s.drop_first());
        assert(s.take(1) + s.drop_first() =~= s);
    }
}

proof fn lemma_trim_end_bytes(s: Seq<char>)
    ensures
        utf8_len(trim_end(s)) <= utf8_len(s),
    decreases s.len(),
{
    if s.len() > 0 && is_ws(s.last()) {
        lemma_trim_end_bytes(s.drop_last());
    }
}

/// Trimming never adds bytes.
pub proof fn lemma_trim_bytes(s: Seq<char>)
    ensures
        utf8_len(trim(s)) <= utf8_len(s),
{
    lemma_trim_start_bytes(s);
    lemma_trim_end_bytes(trim_start(s));
}

/// Below `usize::MAX`, a byte measure is the UTF-8 length itself.
proof fn lemma_measured_bytes(s: Seq<char>, max: nat)
    requires
        measured(false, s) <= max,
        max < usize::MAX,
    ensures
        utf8_len(s) == measured(false, s),
{
}

/// A text cut with a notice in bytes fits the budget.
pub proof fn lemma_cut_fits(input: Seq<char>, max: nat, notice: Seq<char>)
    requires
        max < usize::MAX,
    ensures
        utf8_len(trimmed_with_notice(false, input, max, notice).0) <= max,
{
    lemma_trimmed_with_notice_fits(input, max, notice);
    if measured(false, input) <= max {
        lemma_measured_bytes(input, max);
    }
}

proof fn lemma_appended_sound(tokens: bool, n: nat, budget: nat, st: SampleState, chunk: Seq<char>)
    requires
        sample_sound(tokens, n, budget, st),
    ensures
        sample_sound(tokens, n, budget, appended(tokens, st, chunk).0),
        appended(tokens, st, chunk).0.header_added == st.header_added,
        appended(tokens, st, chunk).0.handled == st.handled,
        appended(tokens, st, chunk).0.represented == st.represented,
{
    if !tokens && budget < usize::MAX && st.remaining > 0 && chunk.len() > 0 {
        let c = if measured(false, chunk) > st.remaining {
            measure_trimmed(false, chunk, st.remaining)
        } else {
            chunk
        };
        if measured(false, chunk) > st.remaining {
            lemma_utf8_trimmed_fits(chunk, st.remaining as int);
        } else {
            lemma_measured_bytes(chunk, st.remaining);
        }
        assert(utf8_len(c) <= st.remaining);
        lemma_utf8_len_concat(st.sampled, c);
    }
}

proof fn lemma_mark_header_sound(tokens: bool, n: nat, budget: nat, st: SampleState, i: int)
    requires
        sample_sound(tokens, n, budget, st),
        0 <= i < n,
    ensures
        sample_sound(tokens, n, budget, mark_header(st, i)),
{
    if !st.header_added[i] {
        lemma_count_true_set(st.header_added, i);
    }
}

proof fn lemma_header_step_sound(
    tokens: bool,
    files: Seq<DiffFileView>,
    budget: nat,
    st: SampleState,
    i: int,
)
    requires
        sample_sound(tokens, files.len(), budget, st),
        0 <= i < files.len(),
    ensures
        sample_sound(tokens, files.len(), budget, header_step(tokens, files, st, i)),
{
    let q = crate::diff_sampling::budget::quota(
        st.remaining,
        (files.len() - i) as nat,
        super::phases::by_mode(tokens, 96, 24),
        super::phases::by_mode(tokens, 320, 80),
    );
    let h = trimmed_with_notice(
        tokens,
        super::sampling::sampled_header(files[i]),
        q,
        DIFF_HEADER_TRUNCATED_NOTICE@,
    ).0;
    lemma_appended_sound(tokens, files.len(), budget, st, h);
    lemma_mark_header_sound(tokens, files.len(), budget, appended(tokens, st, h).0, i);
}

proof fn lemma_headers_sound(
    tokens: bool,
    files: Seq<DiffFileView>,
    budget: nat,
    st: SampleState,
    i: int,
)
    requires
        sample_sound(tokens, files.len(), budget, st),
    ensures
        sample_sound(tokens, files.len(), budget, headers_from(tokens, files, st, i)),
    decreases files.len() - i,
{
    if 0 <= i < files.len() {
        lemma_header_step_sound(tokens, files, budget, st, i);
        lemma_headers_sound(tokens, files, budget, header_step(tokens, files, st, i), i + 1);
    }
}

proof fn lemma_first_hunk_step_sound(
    tokens: bool,
    files: Seq<DiffFileView>,
    budget: nat,
    st: SampleState,
    i: int,
)
    requires
        sample_sound(tokens, files.len(), budget, st),
        0 <= i < files.len(),
    ensures
        sample_sound(tokens, files.len(), budget, first_hunk_step(tokens, files, st, i)),
{
    if super::sampling::samples_hunks(files[i]) && st.remaining > 0 {
        let q = crate::diff_sampling::budget::quota(
            st.remaining,
            super::phases::pending_slots(files, st.handled, i),
            super::phases::by_mode(tokens, 192, 48),
            super::phases::by_mode(tokens, 960, 240),
        );
        let hs = trimmed_with_notice(tokens, files[i].hunks[0], q, DIFF_HUNK_TRUNCATED_NOTICE@).0;
        let st2 = appended(tokens, st, hs).0;
        lemma_appended_sound(tokens, files.len(), budget, st, hs);
        lemma_mark_header_sound(tokens, files.len(), budget, mark_handled(st2, i), i);
    }
}

proof fn lemma_first_hunks_sound(
    tokens: bool,
    files: Seq<DiffFileView>,
    budget: nat,
    st: SampleState,
    i: int,
)
    requires
        sample_sound(tokens, files.len(), budget, st),
    ensures
        sample_sound(tokens, files.len(), budget, first_hunks_from(tokens, files, st, i)),
    decreases files.len() - i,
{
    if 0 <= i < files.len() {
        lemma_first_hunk_step_sound(tokens, files, budget, st, i);
        lemma_first_hunks_sound(tokens, files, budget, first_hunk_step(tokens, files, st, i), i + 1);
    }
}

proof fn lemma_hunk_step_sound(tokens: bool, n: nat, budget: nat, st: SampleState, i: int, hunk: Seq<char>)
    requires
        sample_sound(tokens, n, budget, st),
        0 <= i < n,
    ensures
        sample_sound(tokens, n, budget, hunk_step(tokens, st, i, hunk)),
{
    if measured(tokens, hunk) <= st.remaining {
        lemma_appended_sound(tokens, n, budget, st, hunk);
        lemma_mark_header_sound(tokens, n, budget, appended(tokens, st, hunk).0, i);
    } else {
        let hs = trimmed_with_notice(tokens, hunk, st.remaining, DIFF_HUNK_TRUNCATED_NOTICE@).0;
        lemma_appended_sound(tokens, n, budget, st, hs);
        lemma_mark_header_sound(tokens, n, budget, appended(tokens, st, hs).0, i);
    }
}

proof fn lemma_hunks_sound(
    tokens: bool,
    n: nat,
    budget: nat,
    st: SampleState,
    i: int,
    hunks: Seq<Seq<char>>,
    k: int,
)
    requires
        sample_sound(tokens, n, budget, st),
        0 <= i < n,
    ensures
        sample_sound(tokens, n, budget, hunks_from(tokens, st, i, hunks, k)),
    decreases hunks.len() - k,
{
    if 0 <= k < hunks.len() && st.remaining > 0 {
        lemma_hunk_step_sound(tokens, n, budget, st, i, hunks[k]);
        lemma_hunks_sound(tokens, n, budget, hunk_step(tokens, st, i, hunks[k]), i, hunks, k + 1);
    }
}

proof fn lemma_rests_sound(
    tokens: bool,
    files: Seq<DiffFileView>,
    budget: nat,
    st: SampleState,
    i: int,
)
    requires
        sample_sound(tokens, files.len(), budget, st),
    ensures
        sample_sound(tokens, files.len(), budget, rests_from(tokens, files, st, i)),
    decreases files.len() - i,
{
    if 0 <= i < files.len() {
        if super::sampling::samples_hunks(files[i]) {
            lemma_hunks_sound(
                tokens,
                files.len(),
                budget,
                st,
                i,
                files[i].hunks,
                if st.handled[i] {
                    1
                } else {
                    0
                },
            );
        }
        lemma_rests_sound(tokens, files, budget, rest_step(tokens, files, st, i), i + 1);
    }
}

/// The state after all three passes, when the sampling notice went in.
proof fn lemma_passes_sound(tokens: bool, files: Seq<DiffFileView>, budget: nat)
    ensures
        ({
            let st1 = appended(tokens, blank_state(files.len(), budget), DIFF_SAMPLING_NOTICE@).0;
            let st = rests_from(
                tokens,
                files,
                first_hunks_from(tokens, files, headers_from(tokens, files, st1, 0), 0),
                0,
            );
            sample_sound(tokens, files.len(), budget, st)
        }),
{
    let st0 = blank_state(files.len(), budget);
    lemma_count_true_none(files.len());
    assert(utf8_len(st0.sampled) == 0);
    lemma_appended_sound(tokens, files.len(), budget, st0, DIFF_SAMPLING_NOTICE@);
    let st1 = appended(tokens, st0, DIFF_SAMPLING_NOTICE@).0;
    lemma_headers_sound(tokens, files, budget, st1, 0);
    let st2 = headers_from(tokens, files, st1, 0);
    lemma_first_hunks_sound(tokens, files, budget, st2, 0);
    lemma_rests_sound(tokens, files, budget, first_hunks_from(tokens, files, st2, 0), 0);
}

/// Counted in bytes, a sampled patch never exceeds a nonzero budget. (A budget of
/// `usize::MAX` needs a diff that fits that many bytes, as every `str` does.)
pub proof fn law_sampled_patch_fits_byte_budget(files: Seq<DiffFileView>, raw: Seq<char>, budget: nat)
    requires
        0 < budget,
        budget < usize::MAX || utf8_len(raw) <= usize::MAX,
    ensures
        utf8_len(sampled_diff(false, files, raw, budget).0) <= budget,
{
    if trim(raw).len() == 0 {
    } else if measured(false, raw) <= budget {
        if budget < usize::MAX {
            lemma_measured_bytes(raw, budget);
        }
        lemma_trim_bytes(raw);
    } else if files.len() == 0 {
        lemma_cut_fits(raw, budget, DIFF_SAMPLING_NOTICE@);
        lemma_trim_bytes(trimmed_with_notice(false, raw, budget, DIFF_SAMPLING_NOTICE@).0);
    } else {
        let (st1, used) = appended(false, blank_state(files.len(), budget), DIFF_SAMPLING_NOTICE@);
        if used == 0 {
            let notice = measure_trimmed(false, DIFF_SAMPLING_NOTICE@, budget);
            lemma_utf8_trimmed_fits(DIFF_SAMPLING_NOTICE@, budget as int);
            lemma_trim_bytes(notice);
        } else {
            lemma_passes_sound(false, files, budget);
            let st = rests_from(
                false,
                files,
                first_hunks_from(false, files, headers_from(false, files, st1, 0), 0),
                0,
            );
            lemma_trim_bytes(st.sampled);
        }
    }
}

/// A sample never claims more files than the diff has (one, for a diff in which no
/// file section was found).
pub proof fn law_represented_files_bounded(
    tokens: bool,
    files: Seq<DiffFileView>,
    raw: Seq<char>,
    budget: nat,
)
    ensures
        sampled_diff(tokens, files, raw, budget).1 <= if files.len() == 0 {
            1
        } else {
            files.len()
        },
{
    if trim(raw).len() == 0 || budget == 0 || measured(tokens, raw) <= budget || files.len() == 0 {
    } else {
        let (st1, used) = appended(tokens, blank_state(files.len(), budget), DIFF_SAMPLING_NOTICE@);
        if used > 0 {
            lemma_passes_sound(tokens, files, budget);
            let st = rests_from(
                tokens,
                files,
                first_hunks_from(tokens, files, headers_from(tokens, files, st1, 0), 0),
                0,
            );
            lemma_count_true_le(st.header_added);
        }
    }
}

} // verus!
