//! Properties that relate several functions of the library.
use vstd::prelude::*;

use crate::diff_parse::{
    classified, flush_file, parse_lines, parse_step, parsed_files, with_hunk, DiffFileView,
    ParseState,
};
use crate::diff_sampling::suppress::{
    after_suppression, file_text, is_suppressed, rebuilt, suppressed_count,
};
use crate::lines::{concat, lemma_concat_push, lemma_split_inclusive_shape, split_inclusive};
use crate::config::provider::{provider_named, provider_value_text, Provider};
use crate::config::resolve::{config_resolution, ConfigSnapshot};
use crate::config::types::{effort_named, effort_text, ReasoningEffort};
use crate::config::values::{git_bool, opt_text};
use crate::config::types::FileConfig;
use crate::diff_parse::{classify, DiffFileKind};
use crate::openai::response_text::{items_text, message_item_text};
use crate::prompt::{prompt_text, RepoContext};
use crate::text::has_suffix;
use crate::openai::endpoints::{
    base_segments, endpoint_path, endpoint_segments, explicit_of, nonempty_pieces, raw_segments,
    ApiEndpointPreference, ExplicitEndpoint,
};
use crate::openai::generation::{next_plan, start_plan, ActionPlan, GenerationStep};
use crate::openai::context::{suggested_diff_tokens, with_context};
use crate::config::resolve::{ConfigView, DEFAULT_MAX_DIFF_TOKENS, MAX_AUTO_DIFF_TOKENS};
use crate::commit::args::bypasses;
use crate::lines::{
    join_char, lemma_first_piece, lemma_join_first, lemma_join_split, lemma_split_len_pos,
    lemma_split_pieces_free, split_char, str_lines, strip_cr,
};
use crate::message::{
    first_line_of, kept_lines, lemma_truncated_subject_prefix, sanitized, strip_prefix_all,
    strip_suffix_all, truncated_subject, unfenced, MAX_SUBJECT_CHARS,
};
use crate::text::{lemma_trim_end_prefix, lemma_trim_ends};
use crate::lines::{lemma_split_join, lemma_split_without_sep};
use crate::openai::json::{text_field, JsonValue};
use crate::openai::response_stream::{
    add_if_missing, add_item, add_part, add_parts, event_effect, event_slot, AccView, SlotView,
};
use crate::openai::stream::{styled_run, tag_step, char_out, TagState};
use crate::openai::stream_palette::StreamPalette;
use crate::text::{is_ws, lower_char, lower_seq, normalize_newlines, trim, trim_end, trim_start};

verus! {

/// The text of the file being read, if any.
pub open spec fn open_text(st: ParseState) -> Seq<char> {
    match st.current {
        Some(f) => file_text(f),
        None => Seq::empty(),
    }
}

proof fn lemma_rebuilt_push(files: Seq<DiffFileView>, f: DiffFileView)
    ensures
        rebuilt(files.push(f)) == rebuilt(files) + file_text(f),
{
    assert(files.push(f).drop_last() =~= files);
}

proof fn lemma_with_hunk_text(f: DiffFileView, h: Seq<char>)
    ensures
        file_text(classified(with_hunk(f, h))) == file_text(f) + h,
{
    if h.len() > 0 {
        lemma_concat_push(f.hunks, h);
        assert(file_text(with_hunk(f, h)) =~= file_text(f) + h);
    } else {
        assert(file_text(f) + h =~= file_text(f));
    }
}

proof fn lemma_flush_text(st: ParseState)
    requires
        st.current is None ==> st.hunk.len() == 0,
    ensures
        rebuilt(flush_file(st).files) == rebuilt(st.files) + open_text(st) + st.hunk,
        flush_file(st).current is None,
        flush_file(st).hunk.len() == 0,
{
    match st.current {
        None => {
            assert(rebuilt(st.files) + open_text(st) + st.hunk =~= rebuilt(st.files));
        },
        Some(f) => {
            lemma_rebuilt_push(st.files, classified(with_hunk(f, st.hunk)));
            lemma_with_hunk_text(f, st.hunk);
            assert(rebuilt(st.files) + (file_text(f) + st.hunk) =~= rebuilt(st.files)
                + file_text(f) + st.hunk);
        },
    }
}

/// Every line that the parser reads lands, in order, in a header or a hunk.
proof fn lemma_parse_keeps_text(lines: Seq<Seq<char>>)
    ensures
        ({
            let st = parse_lines(lines);
            &&& rebuilt(st.files) + open_text(st) + st.hunk == concat(lines)
            &&& st.current is None ==> st.hunk.len() == 0 && !st.in_hunk
            &&& (st.current is Some && !st.in_hunk) ==> st.current.unwrap().hunks.len() == 0
                && st.hunk.len() == 0
        }),
    decreases lines.len(),
{
    if lines.len() == 0 {
        assert(rebuilt(Seq::<DiffFileView>::empty()) + Seq::<char>::empty()
            + Seq::<char>::empty() =~= Seq::<char>::empty());
    } else {
        let prev = lines.drop_last();
        let line = lines.last();
        lemma_parse_keeps_text(prev);
        let st = parse_lines(prev);
        let st2 = parse_step(st, line);
        assert(parse_lines(lines) == st2);
        assert(concat(lines) == concat(prev) + line);
        if crate::text::has_prefix(line, "diff --git "@) {
            lemma_flush_text(st);
            assert(file_text(st2.current.unwrap()) =~= line);
            assert(rebuilt(st2.files) + open_text(st2) + st2.hunk =~= rebuilt(st.files)
                + open_text(st) + st.hunk + line);
        } else {
            let f = match st.current {
                Some(f) => f,
                None => crate::diff_parse::headless_file(),
            };
            assert(open_text(st) == file_text(f)) by {
                if st.current is None {
                    assert(file_text(f) =~= Seq::<char>::empty());
                }
            }
            if crate::text::has_prefix(line, "@@"@) {
                lemma_with_hunk_text(f, st.hunk);
                assert(file_text(with_hunk(f, st.hunk)) == file_text(classified(
                    with_hunk(f, st.hunk),
                )));
                assert(rebuilt(st2.files) + open_text(st2) + st2.hunk =~= rebuilt(st.files)
                    + open_text(st) + st.hunk + line);
            } else if st.in_hunk {
                assert(rebuilt(st2.files) + open_text(st2) + st2.hunk =~= rebuilt(st.files)
                    + open_text(st) + st.hunk + line);
            } else {
                assert(f.hunks.len() == 0);
                assert(st.hunk.len() == 0);
                assert(concat(f.hunks) =~= Seq::<char>::empty());
                let g = st2.current.unwrap();
                assert(concat(g.hunks) =~= Seq::<char>::empty());
                assert(rebuilt(st2.files) + open_text(st2) + st2.hunk =~= rebuilt(st.files)
                    + open_text(st) + st.hunk + line);
            }
        }
    }
}

/// Writing the parsed file sections back, headers and hunks in order, gives the diff
/// back exactly, with `"\r\n"` read as `"\n"`.
pub proof fn law_rebuild_after_parse_is_lossless(raw: Seq<char>)
    requires
        trim(raw).len() > 0,
    ensures
        rebuilt(parsed_files(raw)) == normalize_newlines(raw),
{
    let n = normalize_newlines(raw);
    let lines = split_inclusive(n);
    lemma_parse_keeps_text(lines);
    lemma_split_inclusive_shape(n);
    lemma_flush_text(parse_lines(lines));
}

/// With no directories to suppress, every file is kept as it is and none is counted.
pub proof fn law_no_dirs_suppresses_nothing(files: Seq<DiffFileView>)
    ensures
        files.map_values(|f: DiffFileView| after_suppression(f, Seq::empty())) == files,
        suppressed_count(files, Seq::empty()) == 0,
    decreases files.len(),
{
    assert(files.map_values(|f: DiffFileView| after_suppression(f, Seq::empty())) =~= files);
    if files.len() > 0 {
        law_no_dirs_suppresses_nothing(files.drop_last());
        assert(!is_suppressed(files.last(), Seq::empty()));
    }
}

/// A text with no whitespace at either end is its own trim.
proof fn lemma_trim_keeps(s: Seq<char>)
    requires
        s.len() > 0,
        !is_ws(s[0]),
        !is_ws(s.last()),
    ensures
        trim(s) == s,
{
    assert(trim_start(s) == s);
    assert(trim_end(s) == s);
}

/// A text without ASCII capitals is its own lower case.
proof fn lemma_lower_keeps(s: Seq<char>)
    requires
        forall|i: int| 0 <= i < s.len() ==> !('A' <= #[trigger] s[i] && s[i] <= 'Z'),
    ensures
        lower_seq(s) == s,
{
    assert forall|i: int| 0 <= i < s.len() implies #[trigger] lower_seq(s)[i] == s[i] by {
        assert(lower_char(s[i]) == s[i]);
    }
    assert(lower_seq(s) =~= s);
}

/// The value that configures a provider names that provider again.
pub proof fn law_provider_value_round_trips(p: Provider)
    ensures
        provider_named(provider_value_text(p)) == Some(p),
{
    reveal_strlit("openai-compatible");
    reveal_strlit("ollama");
    reveal_strlit("anthropic-compatible");
    reveal_strlit("openai");
    reveal_strlit("anthropic");
    let t = provider_value_text(p);
    lemma_trim_keeps(t);
    lemma_lower_keeps(t);
}

/// The value the API takes for an effort names that effort again.
pub proof fn law_effort_value_round_trips(e: ReasoningEffort)
    ensures
        effort_named(effort_text(e)) == Some(e),
{
    reveal_strlit("none");
    reveal_strlit("low");
    reveal_strlit("medium");
    reveal_strlit("high");
    let t = effort_text(e);
    lemma_trim_keeps(t);
    lemma_lower_keeps(t);
}

/// A model or key set in the environment is the one used, whatever `git config` and
/// the file say; one set in `git config` is used unless the environment sets one.
pub proof fn law_environment_overrides_git_and_file(s: ConfigSnapshot)
    requires
        config_resolution(s) is Ok,
    ensures
        s.env.model is Some ==> config_resolution(s)->Ok_0.model == opt_text(s.env.model)->Some_0,
        s.env.api_key is Some ==> config_resolution(s)->Ok_0.api_key == opt_text(
            s.env.api_key,
        )->Some_0,
        s.env.model is None && s.git.model is Some ==> config_resolution(s)->Ok_0.model
            == opt_text(s.git.model)->Some_0,
        s.env.api_key is None && s.git.api_key is Some ==> config_resolution(s)->Ok_0.api_key
            == opt_text(s.git.api_key)->Some_0,
{
}

/// A streamed answer is rendered the same however it is cut into pieces: rendering
/// `a` and then `b` leaves the renderer as rendering `a + b` does, having written the
/// same text. (A tag split across two pieces is still recognised.)
pub proof fn law_rendering_ignores_how_text_is_split(
    p: StreamPalette,
    t: TagState,
    a: Seq<char>,
    b: Seq<char>,
)
    ensures
        styled_run(p, t, a + b) == ({
            let (t1, o1) = styled_run(p, t, a);
            let (t2, o2) = styled_run(p, t1, b);
            (t2, o1 + o2)
        }),
    decreases b.len(),
{
    if b.len() == 0 {
        assert(a + b =~= a);
        assert(styled_run(p, t, a).1 + Seq::<char>::empty() =~= styled_run(p, t, a).1);
    } else {
        law_rendering_ignores_how_text_is_split(p, t, a, b.drop_last());
        assert((a + b).drop_last() =~= a + b.drop_last());
        assert((a + b).last() == b.last());
        let (t1, o1) = styled_run(p, t, a);
        let (tm, om) = styled_run(p, t1, b.drop_last());
        let (t2, o2) = tag_step(p, tm, b.last());
        assert(o1 + om + o2 =~= o1 + (om + o2));
    }
}

/// With the plain palette, text that holds no `<` is written as it is.
pub proof fn law_plain_text_is_written_unchanged(t: TagState, text: Seq<char>)
    requires
        t.pending.len() == 0,
        forall|i: int| 0 <= i < text.len() ==> text[i] != '<',
    ensures
        styled_run(StreamPalette::Plain, t, text).1 == text,
        styled_run(StreamPalette::Plain, t, text).0.pending.len() == 0,
    decreases text.len(),
{
    if text.len() > 0 {
        law_plain_text_is_written_unchanged(t, text.drop_last());
        let (t1, o1) = styled_run(StreamPalette::Plain, t, text.drop_last());
        let c = text.last();
        assert(c != '<');
        if c == '\n' {
            assert(char_out(StreamPalette::Plain, t1, c).1 =~= seq!['\n']) by {
                reveal_strlit("\n");
            }
        } else {
            assert(char_out(StreamPalette::Plain, t1, c).1 =~= seq![c]);
        }
        assert(o1 + seq![c] =~= text);
    }
}

/// How many requests a generation may still make after this one.
pub open spec fn requests_left(step: GenerationStep) -> nat {
    match step {
        GenerationStep::ResponsesStream => 3,
        GenerationStep::ResponsesPlain => 2,
        GenerationStep::ChatStream => 1,
        GenerationStep::ChatPlain => 0,
    }
}

/// Every request of a generation is followed by one with fewer requests left, so a
/// generation makes at most four requests and then ends with a message or an error.
pub proof fn law_generation_ends_within_four_requests(
    pref: ApiEndpointPreference,
    streaming: bool,
    step: GenerationStep,
    result: Result<Seq<char>, (Seq<char>, bool)>,
)
    ensures
        next_plan(pref, streaming, step, result) matches ActionPlan::Attempt(next, _) ==> requests_left(
            next,
        ) < requests_left(step),
{
}

/// Chat completions follow a failed responses request only when the base allows
/// both endpoints, and then what the renderer showed is dropped first.
pub proof fn law_chat_follows_responses_only_by_fallback(
    pref: ApiEndpointPreference,
    streaming: bool,
    step: GenerationStep,
    result: Result<Seq<char>, (Seq<char>, bool)>,
)
    requires
        step == GenerationStep::ResponsesStream || step == GenerationStep::ResponsesPlain,
    ensures
        match next_plan(pref, streaming, step, result) {
            ActionPlan::Attempt(next, reset) => (next == GenerationStep::ChatStream || next
                == GenerationStep::ChatPlain) ==> pref == ApiEndpointPreference::Auto && reset,
            _ => true,
        },
{
}


/// A generation that may use the responses API starts with it; only a base that
/// names chat completions starts there.
pub proof fn law_responses_are_tried_first(pref: ApiEndpointPreference, streaming: bool)
    ensures
        match start_plan(pref, streaming) {
            ActionPlan::Attempt(step, reset) => !reset && ((step == GenerationStep::ResponsesStream
                || step == GenerationStep::ResponsesPlain) <==> pref
                != ApiEndpointPreference::ChatCompletionsOnly),
            _ => false,
        },
{
}

/// A detected context size sets a diff budget between the default budget and the
/// automatic cap, and a larger context never sets a smaller one; a configured budget
/// is kept as it is.
pub proof fn law_detected_budget_stays_within_bounds(v: ConfigView, context: nat, larger: nat)
    requires
        context <= larger,
    ensures
        with_context(v, context).model_context_tokens == Some(context),
        v.max_diff_tokens_explicit ==> with_context(v, context).max_diff_tokens == v.max_diff_tokens,
        !v.max_diff_tokens_explicit ==> DEFAULT_MAX_DIFF_TOKENS <= with_context(
            v,
            context,
        ).max_diff_tokens <= MAX_AUTO_DIFF_TOKENS,
        !v.max_diff_tokens_explicit ==> with_context(v, context).max_diff_tokens <= with_context(
            v,
            larger,
        ).max_diff_tokens,
{
    assert(context / 4 <= larger / 4) by (nonlinear_arith)
        requires
            context <= larger,
    ;
    assert(suggested_diff_tokens(context) <= suggested_diff_tokens(larger));
}

/// A commit goes to plain `git commit`, without a generated message, as soon as one
/// argument gives a message (`-m`, `-F`, `--message`, ...), amends or fixes up a
/// commit, stages files (`-a`, `-i`, `-o`), or is a path.
pub proof fn law_message_amend_and_path_arguments_bypass_generation(
    args: Seq<Seq<char>>,
    k: int,
)
    requires
        0 <= k < args.len(),
        args[k] == "-m"@ || args[k] == "-F"@ || args[k] == "--message"@ || args[k] == "--file"@
            || args[k] == "--amend"@ || args[k] == "--fixup"@ || args[k] == "--squash"@
            || args[k] == "-a"@ || args[k] == "--all"@ || args[k] == "-i"@ || args[k] == "-o"@
            || args[k].len() == 0 || args[k][0] != '-',
    ensures
        exists|j: int| 0 <= j < args.len() && bypasses(#[trigger] args[j]),
{
    if args[k].len() == 0 || args[k][0] != '-' {
        reveal_strlit("-");
        assert(!crate::text::has_prefix(args[k], "-"@)) by {
            if args[k].len() >= 1 {
                assert(args[k].subrange(0, 1)[0] == args[k][0]);
            }
        }
    }
    assert(bypasses(args[k]));
}


/// A cleaned-up message that is not blank always passes the message check: cleaning
/// leaves a subject of at most `MAX_SUBJECT_CHARS` characters.
pub proof fn law_sanitized_messages_pass_the_subject_check(m: Seq<char>)
    ensures
        trim(sanitized(m)).len() > 0 ==> first_line_of(sanitized(m)).len() <= MAX_SUBJECT_CHARS,
{
    let u = unfenced(m);
    if trim(u).len() == 0 {
        return;
    }
    let outer = trim(
        strip_suffix_all(strip_prefix_all(trim(normalize_newlines(m)), "```"@), "```"@),
    );
    lemma_trim_ends(join_char(kept_lines(str_lines(outer)), '\n'));
    assert(u.len() > 0);
    let p = split_char(u, '\n');
    lemma_split_len_pos(u, '\n');
    lemma_split_pieces_free(u, '\n');
    lemma_join_split(u, '\n');
    lemma_join_first(p, '\n');
    let p0 = p[0];
    if p0.len() == 0 {
        if p.len() == 1 {
            assert(u == p0);
        } else {
            assert(u[0] == '\n');
        }
    }
    assert(p0[0] == u[0]) by {
        assert(u.take(p0.len() as int)[0] == u[0]);
    }
    assert(u.last() != '\n');
    let ls = str_lines(u);
    assert(ls.len() == p.len());
    let l0 = ls[0];
    let l0_len = l0.len();
    assert(l0 == p0.take(l0_len as int) && l0_len >= 1) by {
        if p.len() > 1 {
            assert(l0 == strip_cr(p0));
            if p0.last() == '\r' {
                assert(p0.len() > 1);
                assert(p0.drop_last() =~= p0.take(l0_len as int));
            } else {
                assert(p0 =~= p0.take(l0_len as int));
            }
        } else {
            assert(p0 =~= p0.take(l0_len as int));
        }
    }
    let ls2 = if l0.len() > MAX_SUBJECT_CHARS {
        ls.update(0, truncated_subject(l0))
    } else {
        ls
    };
    let f = ls2[0];
    if l0.len() > MAX_SUBJECT_CHARS {
        assert(l0[0] == p0[0]);
        lemma_truncated_subject_prefix(l0);
    }
    assert(f.len() >= 1 && f.len() <= MAX_SUBJECT_CHARS);
    assert forall|j: int| 0 <= j < f.len() implies f[j] == u[j] && f[j] != '\n' by {
        if l0.len() > MAX_SUBJECT_CHARS {
            assert(f[j] == l0[j]);
        }
        assert(f[j] == p0[j]);
        assert(p0[j] == u.take(p0.len() as int)[j]);
        assert(p[0][j] != '\n');
    }
    let jn = join_char(ls2, '\n');
    lemma_join_first(ls2, '\n');
    assert(sanitized(m) == trim(jn));
    assert(jn[0] == f[0]) by {
        assert(jn.take(f.len() as int)[0] == jn[0]);
    }
    assert(trim_start(jn) == jn);
    lemma_trim_end_prefix(jn);
    let x = trim(jn);
    let b = x.len();
    let n: int = if b <= f.len() {
        b as int
    } else {
        f.len() as int
    };
    assert forall|j: int| 0 <= j < n implies x[j] != '\n' by {
        assert(x[j] == jn[j]);
        assert(jn[j] == jn.take(f.len() as int)[j]);
    }
    if b > f.len() {
        assert(ls2.len() >= 2) by {
            if ls2.len() == 1 {
                assert(jn == f);
            }
        }
        assert(x[n] == jn[n]);
    }
    lemma_first_piece(x, '\n', n);
}


proof fn lemma_concat_append(x: Seq<Seq<char>>, y: Seq<Seq<char>>)
    ensures
        concat(x + y) == concat(x) + concat(y),
    decreases y.len(),
{
    if y.len() == 0 {
        assert(x + y =~= x);
        assert(concat(x) + concat(y) =~= concat(x));
    } else {
        lemma_concat_append(x, y.drop_last());
        assert((x + y).drop_last() =~= x + y.drop_last());
        assert(concat(x + y) == concat(x + y.drop_last()) + y.last());
        assert(concat(x) + concat(y) =~= concat(x) + concat(y.drop_last()) + y.last());
    }
}

proof fn lemma_added_if_missing(a: AccView, key: SlotView, t: Seq<char>)
    ensures
        add_if_missing(a, key, t).0.content == a.content + concat(add_if_missing(a, key, t).1),
        a.emitted.subset_of(add_if_missing(a, key, t).0.emitted),
{
    assert(seq![t].drop_last() =~= Seq::<Seq<char>>::empty());
    assert(a.content + concat(Seq::<Seq<char>>::empty()) =~= a.content);
}

proof fn lemma_parts_accumulate(a: AccView, id: Seq<char>, oi: u32, parts: Seq<JsonValue>)
    ensures
        add_parts(a, id, oi, parts).0.content == a.content + concat(add_parts(a, id, oi, parts).1),
        a.emitted.subset_of(add_parts(a, id, oi, parts).0.emitted),
    decreases parts.len(),
{
    if parts.len() == 0 {
        assert(a.content + concat(Seq::<Seq<char>>::empty()) =~= a.content);
    } else {
        lemma_parts_accumulate(a, id, oi, parts.drop_last());
        let (a1, p1) = add_parts(a, id, oi, parts.drop_last());
        let ci = (parts.len() - 1) as u32;
        let (a2, p2) = add_part(a1, id, oi, ci, parts.last());
        match crate::openai::response_text::output_part_text(parts.last()) {
            Some(t) => lemma_added_if_missing(a1, (id, oi, ci), t),
            None => assert(a1.content + concat(Seq::<Seq<char>>::empty()) =~= a1.content),
        }
        lemma_concat_append(p1, p2);
        assert(a2.content =~= a.content + concat(p1 + p2));
    }
}

/// Each event of a responses stream adds to the message exactly the pieces it has
/// shown, in order, and a part once shown stays marked as shown.
pub proof fn law_stream_shows_what_it_accumulates(a: AccView, e: JsonValue)
    ensures
        event_effect(a, e) matches Ok((a2, ps, _)) ==> a2.content == a.content + concat(ps)
            && a.emitted.subset_of(a2.emitted),
{
    assert(a.content + concat(Seq::<Seq<char>>::empty()) =~= a.content);
    match event_slot(e) {
        Ok(key) => {
            match crate::openai::response_stream::required_text(e, "delta"@) {
                Ok(t) => {
                    assert(seq![t].drop_last() =~= Seq::<Seq<char>>::empty());
                },
                Err(_) => {},
            }
            match crate::openai::response_stream::required_text(e, "text"@) {
                Ok(t) => lemma_added_if_missing(a, key, t),
                Err(_) => {},
            }
            match crate::openai::json::field(e, "part"@) {
                Some(part) => match crate::openai::response_text::output_part_text(part) {
                    Some(t) => lemma_added_if_missing(a, key, t),
                    None => {},
                },
                None => {},
            }
        },
        Err(_) => {},
    }
    match crate::openai::response_stream::required_index(e, "output_index"@) {
        Ok(oi) => match crate::openai::json::field(e, "item"@) {
            Some(item) => match (
                text_field(item, "id"@),
                crate::openai::json::array_field(item, "content"@),
            ) {
                (Some(id), Some(parts)) => lemma_parts_accumulate(a, id, oi, parts),
                _ => {},
            },
            None => {},
        },
        Err(_) => {},
    }
}

/// A finished text or a part whose place in the answer was already shown adds
/// nothing: a text that arrives both as deltas and finished is shown once.
pub proof fn law_shown_parts_are_not_shown_again(a: AccView, e: JsonValue, key: SlotView)
    requires
        text_field(e, "type"@) == Some("response.output_text.done"@) || text_field(e, "type"@)
            == Some("response.content_part.done"@) || text_field(e, "type"@) == Some(
            "response.content_part.added"@,
        ),
        event_slot(e) == Ok::<SlotView, Seq<char>>(key),
        a.emitted.contains(key),
    ensures
        event_effect(a, e) matches Ok((a2, ps, _)) ==> a2 == a && ps.len() == 0,
{
    reveal_strlit("response.output_text.delta");
    reveal_strlit("response.output_text.done");
    reveal_strlit("response.content_part.done");
    reveal_strlit("response.content_part.added");
    assert("response.output_text.done"@ != "response.output_text.delta"@) by {
        assert("response.output_text.done"@[22] != "response.output_text.delta"@[22]);
    }
    assert("response.content_part.done"@ != "response.output_text.delta"@) by {
        assert("response.content_part.done"@[9] != "response.output_text.delta"@[9]);
    }
    assert("response.content_part.done"@ != "response.output_text.done"@) by {
        assert("response.content_part.done"@[9] != "response.output_text.done"@[9]);
    }
    assert("response.content_part.added"@ != "response.output_text.delta"@) by {
        assert("response.content_part.added"@[9] != "response.output_text.delta"@[9]);
    }
    assert("response.content_part.added"@ != "response.output_text.done"@) by {
        assert("response.content_part.added"@[9] != "response.output_text.done"@[9]);
    }
}


/// Lower-casing keeps whitespace and non-whitespace apart, and a lowered character
/// stays as it is.
proof fn lemma_lower_char(c: char)
    ensures
        is_ws(lower_char(c)) == is_ws(c),
        lower_char(lower_char(c)) == lower_char(c),
{
    if 'A' <= c && c <= 'Z' {
        assert(lower_char(c) as u32 == (c as u32) + 32);
    }
}

/// The lower case of a trimmed text is trimmed, and lower-casing it again changes
/// nothing.
proof fn lemma_normalized_stays(raw: Seq<char>)
    ensures
        lower_seq(trim(lower_seq(trim(raw)))) == lower_seq(trim(raw)),
{
    let t = trim(raw);
    let l = lower_seq(t);
    lemma_trim_ends(raw);
    if t.len() > 0 {
        lemma_lower_char(t[0]);
        lemma_lower_char(t.last());
        assert(l[0] == lower_char(t[0]));
        assert(l.last() == lower_char(t.last()));
        lemma_trim_keeps(l);
    } else {
        assert(l =~= Seq::<char>::empty());
        assert(trim(l) =~= l);
    }
    assert forall|i: int| 0 <= i < l.len() implies #[trigger] lower_seq(l)[i] == l[i] by {
        lemma_lower_char(t[i]);
    }
    assert(lower_seq(l) =~= l);
}

/// A provider is named the same with or without surrounding whitespace and in any
/// ASCII case: a value names what its trimmed lower case names.
pub proof fn law_provider_names_ignore_case_and_blanks(raw: Seq<char>)
    ensures
        provider_named(raw) == provider_named(lower_seq(trim(raw))),
{
    lemma_normalized_stays(raw);
}

/// An effort is named the same with or without surrounding whitespace and in any
/// ASCII case: a value names what its trimmed lower case names.
pub proof fn law_effort_names_ignore_case_and_blanks(raw: Seq<char>)
    ensures
        effort_named(raw) == effort_named(lower_seq(trim(raw))),
{
    lemma_normalized_stays(raw);
}

/// The endpoints a base may name.
pub open spec fn known_endpoint(e: Seq<char>) -> bool {
    e == "responses"@ || e == "chat/completions"@ || e == "models"@
}

proof fn lemma_nonempty_pieces_clean(ps: Seq<Seq<char>>)
    requires
        forall|i: int, j: int| 0 <= i < ps.len() && 0 <= j < ps[i].len() ==> ps[i][j] != '/',
    ensures
        forall|i: int, j: int|
            0 <= i < nonempty_pieces(ps).len() && 0 <= j < nonempty_pieces(ps)[i].len()
                ==> nonempty_pieces(ps)[i][j] != '/',
        forall|i: int| 0 <= i < nonempty_pieces(ps).len() ==> nonempty_pieces(ps)[i].len() > 0,
    decreases ps.len(),
{
    if ps.len() > 0 {
        let d = ps.drop_last();
        assert forall|i: int, j: int| 0 <= i < d.len() && 0 <= j < d[i].len() implies d[i][j] != '/' by {
            assert(d[i] == ps[i]);
        }
        lemma_nonempty_pieces_clean(d);
        let np = nonempty_pieces(d);
        if ps.last().len() > 0 {
            let r = np.push(ps.last());
            assert(nonempty_pieces(ps) == r);
            assert forall|i: int| 0 <= i < r.len() implies r[i].len() > 0 && forall|j: int|
                0 <= j < r[i].len() ==> r[i][j] != '/' by {
                if i < np.len() {
                    assert(r[i] == np[i]);
                } else {
                    assert(r[i] == ps[ps.len() - 1]);
                }
            }
        }
    }
}

proof fn lemma_nonempty_pieces_keep(ps: Seq<Seq<char>>)
    requires
        forall|i: int| 0 <= i < ps.len() ==> ps[i].len() > 0,
    ensures
        nonempty_pieces(ps) == ps,
    decreases ps.len(),
{
    if ps.len() > 0 {
        let d = ps.drop_last();
        assert forall|i: int| 0 <= i < d.len() implies d[i].len() > 0 by {
            assert(d[i] == ps[i]);
        }
        lemma_nonempty_pieces_keep(d);
        assert(d.push(ps.last()) =~= ps);
    }
}

/// The pieces of a known endpoint: each not empty, none with a slash.
proof fn lemma_endpoint_pieces(e: Seq<char>)
    requires
        known_endpoint(e),
    ensures
        split_char(e, '/') == if e == "chat/completions"@ {
            seq!["chat"@, "completions"@]
        } else {
            seq![e]
        },
{
    reveal_strlit("responses");
    reveal_strlit("chat/completions");
    reveal_strlit("models");
    reveal_strlit("chat");
    reveal_strlit("completions");
    if e == "chat/completions"@ {
        let ps = seq!["chat"@, "completions"@];
        assert(join_char(ps, '/') == join_char(ps.drop_last(), '/') + seq!['/'] + ps.last());
        assert(ps.drop_last() =~= seq!["chat"@]);
        assert(join_char(ps, '/') =~= "chat/completions"@);
        lemma_split_join(ps, '/');
    } else {
        lemma_split_without_sep(e, '/');
    }
}

/// An endpoint's path built from the path of another endpoint is the one built from
/// the base path: a base may name any of the three endpoints, and the others come out
/// the same as from the bare base.
pub proof fn law_endpoint_paths_come_from_the_base(path: Seq<char>, e1: Seq<char>, e2: Seq<char>)
    requires
        known_endpoint(e1),
    ensures
        endpoint_path(endpoint_path(path, e1), e2) == endpoint_path(path, e2),
{
    reveal_strlit("responses");
    reveal_strlit("chat/completions");
    reveal_strlit("models");
    reveal_strlit("chat");
    reveal_strlit("completions");
    reveal_strlit("v1");
    reveal_strlit("/");
    let raw = raw_segments(path);
    if path.len() > 0 && path[0] == '/' {
        lemma_split_pieces_free(path.drop_first(), '/');
    }
    lemma_nonempty_pieces_clean(raw);
    let segs = nonempty_pieces(raw);
    let base = base_segments(segs);
    let with_v1 = if explicit_of(segs) == ExplicitEndpoint::Unnamed && !(base.len() > 0
        && base.last() == "v1"@) {
        base.push("v1"@)
    } else {
        base
    };
    lemma_endpoint_pieces(e1);
    let t1 = split_char(e1, '/');
    let s1 = with_v1 + t1;
    assert(endpoint_segments(path, e1) == s1);
    assert forall|i: int| 0 <= i < s1.len() implies s1[i].len() > 0 && forall|j: int|
        0 <= j < s1[i].len() ==> s1[i][j] != '/' by {
        if i < with_v1.len() {
            if i < base.len() {
                assert(base[i] == segs[i]);
            }
        }
    }
    let q = endpoint_path(path, e1);
    assert(q[0] == '/');
    assert(q.drop_first() =~= join_char(s1, '/'));
    lemma_split_join(s1, '/');
    assert(raw_segments(q) == s1);
    lemma_nonempty_pieces_keep(s1);
    let n = s1.len();
    assert(base_segments(s1) =~= with_v1) by {
        if e1 == "chat/completions"@ {
            assert(s1[n - 2] == "chat"@ && s1[n - 1] == "completions"@);
            assert(explicit_of(s1) == ExplicitEndpoint::ChatCompletions);
        } else if e1 == "responses"@ {
            assert(s1[n - 1] == "responses"@);
            assert(explicit_of(s1) == ExplicitEndpoint::Responses);
        } else {
            assert(s1[n - 1] == "models"@);
            assert(explicit_of(s1) == ExplicitEndpoint::Models);
        }
    }
    assert(explicit_of(s1) != ExplicitEndpoint::Unnamed);
    assert(endpoint_segments(q, e2) =~= endpoint_segments(path, e2));
}


/// The prompt ends with the diff stat and then the staged diff, each under its own
/// heading and each as it was collected (a blank one reads `(empty)`).
pub proof fn law_prompt_ends_with_stat_and_staged_diff(ctx: RepoContext)
    ensures
        has_suffix(
            prompt_text(ctx),
            "\n\nDiff stat:\n"@ + (if ctx.diff_stat@.len() == 0 {
                "(empty)\n"@
            } else {
                ctx.diff_stat@ + "\n"@
            }) + "\nStaged diff:\n"@ + (if ctx.diff_patch@.len() == 0 {
                "(empty)\n"@
            } else {
                ctx.diff_patch@ + "\n"@
            }),
        ),
        ctx.diff_patch@.len() > 0 ==> has_suffix(
            prompt_text(ctx),
            "\nStaged diff:\n"@ + ctx.diff_patch@ + "\n"@,
        ),
{
    let p = prompt_text(ctx);
    let stat = if ctx.diff_stat@.len() == 0 {
        "(empty)\n"@
    } else {
        ctx.diff_stat@ + "\n"@
    };
    let patch = if ctx.diff_patch@.len() == 0 {
        "(empty)\n"@
    } else {
        ctx.diff_patch@ + "\n"@
    };
    let tail = "\n\nDiff stat:\n"@ + stat + "\nStaged diff:\n"@ + patch;
    let head = p.subrange(0, p.len() - tail.len());
    assert(p =~= head + tail);
    assert(p.subrange(p.len() - tail.len(), p.len() as int) =~= tail);
    if ctx.diff_patch@.len() > 0 {
        let short = "\nStaged diff:\n"@ + ctx.diff_patch@ + "\n"@;
        assert(p.subrange(p.len() - short.len(), p.len() as int) =~= short);
    }
}

/// A file section that has hunks is a real change: it is never taken for a mode
/// change alone or for a section with nothing but a header.
pub proof fn law_files_with_hunks_are_content_changes(header: Seq<char>)
    ensures
        classify(header, true) != DiffFileKind::ModeOnly,
        classify(header, true) != DiffFileKind::SubmoduleOrOtherHeaderOnly,
        classify(header, false) != DiffFileKind::Modified,
{
}

/// How one switch is decided: a value the environment sets, read as git spells
/// booleans; else one `git config` sets; else the file's; else its default.
pub open spec fn switch_decided(
    env: Option<String>,
    git: Option<String>,
    file: Option<bool>,
    default: bool,
    value: bool,
) -> bool {
    match env {
        Some(v) => git_bool(v@) == Some(value),
        None => match git {
            Some(v) => git_bool(v@) == Some(value),
            None => value == match file {
                Some(b) => b,
                None => default,
            },
        },
    }
}

/// The configuration file's setting of one switch.
pub open spec fn file_switch(f: Option<FileConfig>, pick: spec_fn(FileConfig) -> Option<bool>) -> Option<
    bool,
> {
    match f {
        Some(c) => pick(c),
        None => None,
    }
}

/// The configuration file's setting of one redaction switch.
pub open spec fn file_rule_switch(
    f: Option<FileConfig>,
    pick: spec_fn(crate::config::types::FileRedactionRules) -> Option<bool>,
) -> Option<bool> {
    match f {
        Some(c) => match c.redaction_rules {
            Some(r) => pick(r),
            None => None,
        },
        None => None,
    }
}

/// Every switch of a resolved configuration comes from the environment if it sets
/// it, else from `git config`, else from the file, else from its default (confirm,
/// redaction and timing on; editor, fallback and proxy off; every redaction rule on
/// but the one for person names).
pub proof fn law_switches_follow_env_then_git_then_file(s: ConfigSnapshot)
    requires
        config_resolution(s) is Ok,
    ensures
        ({
            let v = config_resolution(s)->Ok_0;
            let (e, g, f) = (s.env, s.git, s.file);
            &&& switch_decided(e.confirm_commit, g.confirm_commit, file_switch(f, |c: FileConfig| c.confirm_commit), true, v.confirm_commit)
            &&& switch_decided(e.open_editor, g.open_editor, file_switch(f, |c: FileConfig| c.open_editor), false, v.open_editor)
            &&& switch_decided(e.enable_fallback, g.enable_fallback, file_switch(f, |c: FileConfig| c.enable_fallback), false, v.enable_fallback)
            &&& switch_decided(e.redact_secrets, g.redact_secrets, file_switch(f, |c: FileConfig| c.redact_secrets), true, v.redact_secrets)
            &&& switch_decided(e.show_timing, g.show_timing, file_switch(f, |c: FileConfig| c.show_timing), true, v.show_timing)
            &&& switch_decided(e.use_env_proxy, g.use_env_proxy, file_switch(f, |c: FileConfig| c.use_env_proxy), false, v.use_env_proxy)
            &&& switch_decided(e.redaction_secret, g.redaction_secret, file_rule_switch(f, |r: crate::config::types::FileRedactionRules| r.secret), true, v.redaction_rules.secret)
            &&& switch_decided(e.redaction_domain, g.redaction_domain, file_rule_switch(f, |r: crate::config::types::FileRedactionRules| r.domain), true, v.redaction_rules.domain)
            &&& switch_decided(e.redaction_url, g.redaction_url, file_rule_switch(f, |r: crate::config::types::FileRedactionRules| r.url), true, v.redaction_rules.url)
            &&& switch_decided(e.redaction_email, g.redaction_email, file_rule_switch(f, |r: crate::config::types::FileRedactionRules| r.email), true, v.redaction_rules.email)
            &&& switch_decided(e.redaction_ip, g.redaction_ip, file_rule_switch(f, |r: crate::config::types::FileRedactionRules| r.ip), true, v.redaction_rules.ip)
            &&& switch_decided(e.redaction_cidr, g.redaction_cidr, file_rule_switch(f, |r: crate::config::types::FileRedactionRules| r.cidr), true, v.redaction_rules.cidr)
            &&& switch_decided(e.redaction_phone, g.redaction_phone, file_rule_switch(f, |r: crate::config::types::FileRedactionRules| r.phone), true, v.redaction_rules.phone)
            &&& switch_decided(e.redaction_person, g.redaction_person, file_rule_switch(f, |r: crate::config::types::FileRedactionRules| r.person), false, v.redaction_rules.person)
            &&& switch_decided(e.redaction_organization, g.redaction_organization, file_rule_switch(f, |r: crate::config::types::FileRedactionRules| r.organization), true, v.redaction_rules.organization)
        }),
{
}

/// The text of a responses answer's output items is the texts of all its message
/// items, in order: splitting the items anywhere splits the text there, and an item
/// that is not a message adds nothing.
pub proof fn law_output_text_gathers_every_message_item(
    a: Seq<JsonValue>,
    b: Seq<JsonValue>,
    x: JsonValue,
)
    ensures
        items_text(a + b) == items_text(a) + items_text(b),
        items_text(seq![x]) == match message_item_text(x) {
            Some(t) => t,
            None => Seq::<char>::empty(),
        },
        text_field(x, "type"@) != Some("message"@) ==> items_text(a.push(x)) == items_text(a),
    decreases b.len(),
{
    if b.len() == 0 {
        assert(a + b =~= a);
        assert(items_text(a) + items_text(b) =~= items_text(a));
    } else {
        law_output_text_gathers_every_message_item(a, b.drop_last(), x);
        assert((a + b).drop_last() =~= a + b.drop_last());
        assert((a + b).last() == b.last());
    }
    assert(seq![x].drop_last() =~= Seq::<JsonValue>::empty());
    assert(seq![x].last() == x);
    assert(items_text(Seq::<JsonValue>::empty()) == Seq::<char>::empty());
    match message_item_text(x) {
        Some(t) => assert(Seq::<char>::empty() + t =~= t),
        None => assert(Seq::<char>::empty() + Seq::<char>::empty() =~= Seq::<char>::empty()),
    }
    assert(a.push(x).drop_last() =~= a);
    assert(items_text(a) + Seq::<char>::empty() =~= items_text(a));
}

} // verus!
