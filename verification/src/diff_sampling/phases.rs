//! The three sampling passes over a diff's files: headers, first hunks, the rest.
use vstd::prelude::*;

use super::budget::{phase_quota, quota};
use super::notices::{DIFF_HEADER_TRUNCATED_NOTICE, DIFF_HUNK_TRUNCATED_NOTICE};
use super::sampling::{
    append_sample, appended, sampled_file_header, sampled_header, samples_hunks,
    should_sample_file_hunks, SampleState,
};
use crate::diff_parse::{file_views, DiffFile, DiffFileView};
use crate::text::chars_of;
use crate::text_budget::{measured, text_len, trim_text_with_notice, trimmed_with_notice};
use crate::tokenizer::Tokenizer;

verus! {

/// `bytes` in byte mode, `toks` in token mode.
pub open spec fn by_mode(tokens: bool, bytes: nat, toks: nat) -> nat {
    if tokens {
        toks
    } else {
        bytes
    }
}

/// The smallest quota of a pass, by mode.
pub fn quota_min(tokenizer: Option<&Tokenizer>, byte_value: usize, token_value: usize) -> (q: usize)
    ensures
        q == by_mode(tokenizer is Some, byte_value as nat, token_value as nat),
{
    if tokenizer.is_some() {
        token_value
    } else {
        byte_value
    }
}

/// The largest quota of a pass, by mode.
pub fn quota_max(tokenizer: Option<&Tokenizer>, byte_value: usize, token_value: usize) -> (q: usize)
    ensures
        q == by_mode(tokenizer is Some, byte_value as nat, token_value as nat),
{
    if tokenizer.is_some() {
        token_value
    } else {
        byte_value
    }
}

/// How many flags are set.
pub open spec fn count_true(s: Seq<bool>) -> nat
    decreases s.len(),
{
    if s.len() == 0 {
        0
    } else {
        count_true(s.drop_last()) + if s.last() {
            1nat
        } else {
            0nat
        }
    }
}

pub proof fn lemma_count_true_le(s: Seq<bool>)
    ensures
        count_true(s) <= s.len(),
    decreases s.len(),
{
    if s.len() > 0 {
        lemma_count_true_le(s.drop_last());
    }
}

pub proof fn lemma_count_true_set(s: Seq<bool>, i: int)
    requires
        0 <= i < s.len(),
        !s[i],
    ensures
        count_true(s.update(i, true)) == count_true(s) + 1,
    decreases s.len(),
{
    if i == s.len() - 1 {
        assert(s.update(i, true).drop_last() =~= s.drop_last());
    } else {
        lemma_count_true_set(s.drop_last(), i);
        assert(s.update(i, true).drop_last() =~= s.drop_last().update(i, true));
    }
}

pub proof fn lemma_count_true_none(n: nat)
    ensures
        count_true(Seq::new(n, |j: int| false)) == 0,
    decreases n,
{
    if n > 0 {
        lemma_count_true_none((n - 1) as nat);
        assert(Seq::new(n, |j: int| false).drop_last() =~= Seq::new((n - 1) as nat, |j: int| false));
    }
}

/// Marks file `i` as represented, once.
pub open spec fn mark_header(st: SampleState, i: int) -> SampleState {
    if st.header_added[i] {
        st
    } else {
        SampleState {
            represented: st.represented + 1,
            header_added: st.header_added.update(i, true),
            ..st
        }
    }
}

/// Marks file `i`'s first hunk as dealt with.
pub open spec fn mark_handled(st: SampleState, i: int) -> SampleState {
    SampleState { handled: st.handled.update(i, true), ..st }
}

/// First pass, file `i`: its header within an even share of what remains.
pub open spec fn header_step(tokens: bool, files: Seq<DiffFileView>, st: SampleState, i: int) -> SampleState {
    let q = quota(
        st.remaining,
        (files.len() - i) as nat,
        by_mode(tokens, 96, 24),
        by_mode(tokens, 320, 80),
    );
    let h = trimmed_with_notice(tokens, sampled_header(files[i]), q, DIFF_HEADER_TRUNCATED_NOTICE@).0;
    let (st2, used) = appended(tokens, st, h);
    if used > 0 {
        mark_header(st2, i)
    } else {
        st2
    }
}

/// First pass over the files from `i` on.
pub open spec fn headers_from(tokens: bool, files: Seq<DiffFileView>, st: SampleState, i: int) -> SampleState
    decreases files.len() - i,
{
    if 0 <= i < files.len() {
        headers_from(tokens, files, header_step(tokens, files, st, i), i + 1)
    } else {
        st
    }
}

/// How many files from `i` on still wait for their first hunk.
pub open spec fn pending_count(files: Seq<DiffFileView>, handled: Seq<bool>, i: int) -> nat
    decreases files.len() - i,
{
    if 0 <= i < files.len() {
        (if samples_hunks(files[i]) && !handled[i] {
            1nat
        } else {
            0nat
        }) + pending_count(files, handled, i + 1)
    } else {
        0
    }
}

/// The number of slots the second pass shares what remains among.
pub open spec fn pending_slots(files: Seq<DiffFileView>, handled: Seq<bool>, i: int) -> nat {
    let c = pending_count(files, handled, i);
    if c == 0 {
        1
    } else {
        c
    }
}

/// Second pass, file `i`: its first hunk within an even share of what remains.
pub open spec fn first_hunk_step(tokens: bool, files: Seq<DiffFileView>, st: SampleState, i: int) -> SampleState {
    if !samples_hunks(files[i]) || st.remaining == 0 {
        st
    } else {
        let q = quota(
            st.remaining,
            pending_slots(files, st.handled, i),
            by_mode(tokens, 192, 48),
            by_mode(tokens, 960, 240),
        );
        let (hs, truncated) = trimmed_with_notice(
            tokens,
            files[i].hunks[0],
            q,
            DIFF_HUNK_TRUNCATED_NOTICE@,
        );
        let (st2, used) = appended(tokens, st, hs);
        let st3 = if used > 0 {
            mark_header(mark_handled(st2, i), i)
        } else {
            st2
        };
        if !truncated {
            mark_handled(st3, i)
        } else {
            st3
        }
    }
}

/// Second pass over the files from `i` on.
pub open spec fn first_hunks_from(tokens: bool, files: Seq<DiffFileView>, st: SampleState, i: int) -> SampleState
    decreases files.len() - i,
{
    if 0 <= i < files.len() {
        first_hunks_from(tokens, files, first_hunk_step(tokens, files, st, i), i + 1)
    } else {
        st
    }
}

/// Third pass, one hunk of file `i`: whole when it fits, otherwise cut to what
/// remains, which then ends the sampling.
pub open spec fn hunk_step(tokens: bool, st: SampleState, i: int, hunk: Seq<char>) -> SampleState {
    if measured(tokens, hunk) <= st.remaining {
        mark_header(appended(tokens, st, hunk).0, i)
    } else {
        let hs = trimmed_with_notice(tokens, hunk, st.remaining, DIFF_HUNK_TRUNCATED_NOTICE@).0;
        let (st2, used) = appended(tokens, st, hs);
        let st3 = if used > 0 {
            mark_header(st2, i)
        } else {
            st2
        };
        SampleState { remaining: 0, ..st3 }
    }
}

/// Third pass over the hunks `hunks[k..]` of file `i`, while anything remains.
pub open spec fn hunks_from(tokens: bool, st: SampleState, i: int, hunks: Seq<Seq<char>>, k: int) -> SampleState
    decreases hunks.len() - k,
{
    if 0 <= k < hunks.len() && st.remaining > 0 {
        hunks_from(tokens, hunk_step(tokens, st, i, hunks[k]), i, hunks, k + 1)
    } else {
        st
    }
}

/// Third pass, file `i`: the hunks not yet in the sample.
pub open spec fn rest_step(tokens: bool, files: Seq<DiffFileView>, st: SampleState, i: int) -> SampleState {
    if !samples_hunks(files[i]) {
        st
    } else {
        hunks_from(
            tokens,
            st,
            i,
            files[i].hunks,
            if st.handled[i] {
                1
            } else {
                0
            },
        )
    }
}

/// Third pass over the files from `i` on.
pub open spec fn rests_from(tokens: bool, files: Seq<DiffFileView>, st: SampleState, i: int) -> SampleState
    decreases files.len() - i,
{
    if 0 <= i < files.len() {
        rests_from(tokens, files, rest_step(tokens, files, st, i), i + 1)
    } else {
        st
    }
}

/// The sampler's state as it runs.
pub struct Sampler {
    pub sampled: Vec<char>,
    pub remaining: usize,
    pub represented: usize,
    pub header_added: Vec<bool>,
    pub handled: Vec<bool>,
}

impl Sampler {
    pub open spec fn state(&self) -> SampleState {
        SampleState {
            sampled: self.sampled@,
            remaining: self.remaining as nat,
            represented: self.represented as nat,
            header_added: self.header_added@,
            handled: self.handled@,
        }
    }

    /// Flags for `n` files, and as many files represented as flags set.
    pub open spec fn wf(&self, n: nat) -> bool {
        &&& self.header_added@.len() == n
        &&& self.handled@.len() == n
        &&& self.represented == count_true(self.header_added@)
    }

    /// An empty sample over `n` files with `budget` to spend.
    pub fn new(n: usize, budget: usize) -> (s: Sampler)
        ensures
            s.wf(n as nat),
            s.state() == (SampleState {
                sampled: Seq::empty(),
                remaining: budget as nat,
                represented: 0,
                header_added: Seq::new(n as nat, |j: int| false),
                handled: Seq::new(n as nat, |j: int| false),
            }),
    {
        let mut header_added: Vec<bool> = Vec::new();
        let mut handled: Vec<bool> = Vec::new();
        let mut k: usize = 0;
        while k < n
            invariant
                k <= n,
                header_added@ == Seq::new(k as nat, |j: int| false),
                handled@ == Seq::new(k as nat, |j: int| false),
            decreases n - k,
        {
            header_added.push(false);
            handled.push(false);
            k = k + 1;
            assert(header_added@ =~= Seq::new(k as nat, |j: int| false));
            assert(handled@ =~= Seq::new(k as nat, |j: int| false));
        }
        proof {
            lemma_count_true_none(n as nat);
        }
        Sampler { sampled: Vec::new(), remaining: budget, represented: 0, header_added, handled }
    }

    /// Appends `chunk`, cut to what remains.
    pub fn append(&mut self, chunk: &[char], tokenizer: Option<&Tokenizer>) -> (used: usize)
        ensures
            (final(self).state(), used as nat) == appended(tokenizer is Some, old(self).state(), chunk@),
            final(self).header_added == old(self).header_added,
            final(self).handled == old(self).handled,
            final(self).represented == old(self).represented,
    {
        append_sample(&mut self.sampled, &mut self.remaining, chunk, tokenizer)
    }

    /// Marks file `i` as represented, once.
    pub fn mark_header(&mut self, i: usize)
        requires
            old(self).wf(old(self).header_added@.len()),
            i < old(self).header_added@.len(),
        ensures
            final(self).wf(old(self).header_added@.len()),
            final(self).state() == mark_header(old(self).state(), i as int),
    {
        let n = self.header_added.len();
        if !self.header_added[i] {
            proof {
                assert(self.header_added@.len() == n);
                lemma_count_true_set(self.header_added@, i as int);
                lemma_count_true_le(self.header_added@.update(i as int, true));
            }
            self.header_added.set(i, true);
            self.represented = self.represented + 1;
        }
    }

    /// Marks file `i`'s first hunk as dealt with.
    pub fn mark_handled(&mut self, i: usize)
        requires
            i < old(self).handled@.len(),
        ensures
            final(self).state() == mark_handled(old(self).state(), i as int),
            final(self).header_added == old(self).header_added,
            final(self).represented == old(self).represented,
            final(self).handled@.len() == old(self).handled@.len(),
    {
        self.handled.set(i, true);
    }
}

/// How many files from `start` on still wait for their first hunk, at least one.
pub fn count_files_with_pending_first_hunk(
    files: &[DiffFile],
    first_hunk_handled: &[bool],
    start: usize,
) -> (n: usize)
    requires
        first_hunk_handled@.len() == files@.len(),
        start <= files@.len(),
    ensures
        n == pending_slots(file_views(files@), first_hunk_handled@, start as int),
{
    let ghost fv = file_views(files@);
    let mut count: usize = 0;
    let mut k = start;
    while k < files.len()
        invariant
            start <= k <= files@.len(),
            first_hunk_handled@.len() == files@.len(),
            fv == file_views(files@),
            count <= k - start,
            count + pending_count(fv, first_hunk_handled@, k as int) == pending_count(
                fv,
                first_hunk_handled@,
                start as int,
            ),
        decreases files@.len() - k,
    {
        assert(fv[k as int] == files@[k as int]@);
        if should_sample_file_hunks(&files[k]) && !first_hunk_handled[k] {
            count = count + 1;
        }
        k = k + 1;
    }
    if count == 0 {
        1
    } else {
        count
    }
}

/// First pass: every file's header, each within an even share of what remains.
pub fn sample_headers(s: &mut Sampler, files: &[DiffFile], tokenizer: Option<&Tokenizer>)
    requires
        old(s).wf(files@.len()),
        forall|j: int| 0 <= j < files@.len() ==> !old(s).header_added@[j],
    ensures
        final(s).wf(files@.len()),
        final(s).state() == headers_from(tokenizer is Some, file_views(files@), old(s).state(), 0),
{
    let ghost tokens = tokenizer is Some;
    let ghost fv = file_views(files@);
    let ghost target = headers_from(tokens, fv, s.state(), 0);
    let n = files.len();
    let notice = chars_of(DIFF_HEADER_TRUNCATED_NOTICE);
    let mut i: usize = 0;
    while i < n
        invariant
            i <= n,
            n == files@.len(),
            fv == file_views(files@),
            tokens == tokenizer is Some,
            notice@ == DIFF_HEADER_TRUNCATED_NOTICE@,
            s.wf(n as nat),
            forall|j: int| i <= j < n ==> !s.header_added@[j],
            target == headers_from(tokens, fv, s.state(), i as int),
        decreases n - i,
    {
        let ghost before = s.state();
        assert(fv[i as int] == files@[i as int]@);
        let q = phase_quota(
            s.remaining,
            n - i,
            quota_min(tokenizer, 96, 24),
            quota_max(tokenizer, 320, 80),
        );
        let header = sampled_file_header(&files[i]);
        let (hs, _) = trim_text_with_notice(header.as_slice(), q, notice.as_slice(), tokenizer);
        if s.append(hs.as_slice(), tokenizer) > 0 {
            s.mark_header(i);
        }
        assert(s.state() == header_step(tokens, fv, before, i as int));
        i = i + 1;
    }
}

/// Second pass: each sampled file's first hunk, within an even share of what
/// remains among the files still waiting for theirs.
pub fn sample_first_hunks(s: &mut Sampler, files: &[DiffFile], tokenizer: Option<&Tokenizer>)
    requires
        old(s).wf(files@.len()),
    ensures
        final(s).wf(files@.len()),
        final(s).state() == first_hunks_from(tokenizer is Some, file_views(files@), old(s).state(), 0),
{
    let ghost tokens = tokenizer is Some;
    let ghost fv = file_views(files@);
    let ghost target = first_hunks_from(tokens, fv, s.state(), 0);
    let n = files.len();
    let notice = chars_of(DIFF_HUNK_TRUNCATED_NOTICE);
    let mut i: usize = 0;
    while i < n
        invariant
            i <= n,
            n == files@.len(),
            fv == file_views(files@),
            tokens == tokenizer is Some,
            notice@ == DIFF_HUNK_TRUNCATED_NOTICE@,
            s.wf(n as nat),
            target == first_hunks_from(tokens, fv, s.state(), i as int),
        decreases n - i,
    {
        let ghost before = s.state();
        let file = &files[i];
        assert(fv[i as int] == file@);
        if should_sample_file_hunks(file) && s.remaining > 0 {
            let slots = count_files_with_pending_first_hunk(files, s.handled.as_slice(), i);
            let q = phase_quota(
                s.remaining,
                slots,
                quota_min(tokenizer, 192, 48),
                quota_max(tokenizer, 960, 240),
            );
            let first = chars_of(file.hunks[0].as_str());
            let (hs, truncated) = trim_text_with_notice(
                first.as_slice(),
                q,
                notice.as_slice(),
                tokenizer,
            );
            if s.append(hs.as_slice(), tokenizer) > 0 {
                s.mark_handled(i);
                s.mark_header(i);
            }
            if !truncated {
                s.mark_handled(i);
            }
        }
        assert(s.state() == first_hunk_step(tokens, fv, before, i as int));
        i = i + 1;
    }
}

/// Third pass over the hunks `hunks[k..]` of file `i`.
fn sample_hunks_of(
    s: &mut Sampler,
    hunks: &Vec<String>,
    start: usize,
    i: usize,
    tokenizer: Option<&Tokenizer>,
)
    requires
        old(s).wf(old(s).header_added@.len()),
        i < old(s).header_added@.len(),
        start <= hunks@.len(),
    ensures
        final(s).wf(old(s).header_added@.len()),
        final(s).state() == hunks_from(
            tokenizer is Some,
            old(s).state(),
            i as int,
            crate::diff_parse::texts(hunks@),
            start as int,
        ),
{
    let ghost tokens = tokenizer is Some;
    let ghost hs = crate::diff_parse::texts(hunks@);
    let ghost n = s.header_added@.len();
    let ghost target = hunks_from(tokens, s.state(), i as int, hs, start as int);
    let notice = chars_of(DIFF_HUNK_TRUNCATED_NOTICE);
    let mut k = start;
    while k < hunks.len()
        invariant
            start <= k <= hunks@.len(),
            hs == crate::diff_parse::texts(hunks@),
            tokens == tokenizer is Some,
            notice@ == DIFF_HUNK_TRUNCATED_NOTICE@,
            i < n,
            s.wf(n),
            s.header_added@.len() == n,
            target == hunks_from(tokens, s.state(), i as int, hs, k as int),
        ensures
            s.wf(n),
            target == s.state(),
        decreases hunks@.len() - k,
    {
        if s.remaining == 0 {
            break;
        }
        let ghost before = s.state();
        let hunk = chars_of(hunks[k].as_str());
        assert(hs[k as int] == hunks@[k as int]@);
        if text_len(hunk.as_slice(), tokenizer) <= s.remaining {
            s.append(hunk.as_slice(), tokenizer);
            s.mark_header(i);
        } else {
            let (cut, _) = trim_text_with_notice(
                hunk.as_slice(),
                s.remaining,
                notice.as_slice(),
                tokenizer,
            );
            if s.append(cut.as_slice(), tokenizer) > 0 {
                s.mark_header(i);
            }
            s.remaining = 0;
        }
        assert(s.state() == hunk_step(tokens, before, i as int, hs[k as int]));
        k = k + 1;
    }
}

/// Third pass: the remaining hunks, in order, while anything remains.
pub fn sample_remaining_hunks(s: &mut Sampler, files: &[DiffFile], tokenizer: Option<&Tokenizer>)
    requires
        old(s).wf(files@.len()),
    ensures
        final(s).wf(files@.len()),
        final(s).state() == rests_from(tokenizer is Some, file_views(files@), old(s).state(), 0),
{
    let ghost tokens = tokenizer is Some;
    let ghost fv = file_views(files@);
    let ghost target = rests_from(tokens, fv, s.state(), 0);
    let n = files.len();
    let mut i: usize = 0;
    while i < n
        invariant
            i <= n,
            n == files@.len(),
            fv == file_views(files@),
            tokens == tokenizer is Some,
            s.wf(n as nat),
            target == rests_from(tokens, fv, s.state(), i as int),
        decreases n - i,
    {
        let ghost before = s.state();
        let file = &files[i];
        assert(fv[i as int] == file@);
        if should_sample_file_hunks(file) {
            let start: usize = if !file.hunks.is_empty() && s.handled[i] {
                1
            } else {
                0
            };
            sample_hunks_of(s, &file.hunks, start, i, tokenizer);
        }
        assert(s.state() == rest_step(tokens, fv, before, i as int));
        i = i + 1;
    }
}

} // verus!
