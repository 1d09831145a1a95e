//! What the repository contributes to a run: the branch, the staged diff fitted to
//! its budget, and the notices about redaction and sampling.
use vstd::prelude::*;

use crate::diff_parse::{file_views, parse_diff_files, texts, DiffFile};
use crate::diff_sampling::budget::{resolve_diff_budget, resolved_budget, DiffBudget};
use crate::diff_sampling::sampling::{prepare_diff_for_prompt, prepared_diff};
use crate::prompt::RepoContext;
use crate::text::{chars_of, decimal, push_decimal, push_str, string_of, trim, trim_bounds};

verus! {

/// At most this many redacted values are listed in the preview.
pub const REDACTION_PREVIEW_LIMIT: usize = 8;

/// At most this many characters of a redacted value are shown.
pub const REDACTION_PREVIEW_VALUE_CHARS: usize = 72;

/// One redacted value: its kind, what replaced it, the value, a hint to show
/// instead, and how often it occurred.
#[derive(Clone, Debug, PartialEq, Eq)]
pub struct RedactionEntry {
    pub kind: String,
    pub replacement: String,
    pub original: String,
    pub display_value: Option<String>,
    pub occurrences: usize,
}

/// A diff with its sensitive-looking values replaced, and what was replaced.
#[derive(Clone, Debug)]
pub struct RedactionResult {
    pub text: String,
    pub replacement_occurrences: usize,
    pub unique_values: usize,
    pub entries: Vec<RedactionEntry>,
}

/// The lower-case hexadecimal digit for `d`.
pub open spec fn hex_digit(d: nat) -> char {
    if d < 10 {
        ((('0' as u32) + d) as u32) as char
    } else {
        ((('a' as u32) + d - 10) as u32) as char
    }
}

/// `n` in lower-case hexadecimal.
pub open spec fn hex(n: nat) -> Seq<char>
    decreases n,
{
    if n < 16 {
        seq![hex_digit(n)]
    } else {
        hex(n / 16).push(hex_digit(n % 16))
    }
}

fn push_hex(v: &mut Vec<char>, n: u32)
    ensures
        final(v)@ == old(v)@ + hex(n as nat),
    decreases n,
{
    if n >= 16 {
        push_hex(v, n / 16);
    }
    let d: u8 = (n % 16) as u8;
    let c = if d < 10 {
        (('0' as u8) + d) as char
    } else {
        (('a' as u8) + d - 10) as char
    };
    assert(c == hex_digit((n % 16) as nat));
    v.push(c);
    proof {
        if n < 16 {
            assert(n % 16 == n);
        }
    }
}

/// One character as `char::escape_default` writes it: `\t`, `\r`, `\n`, `\\`, `\'`
/// and `\"` escaped, printable ASCII kept, anything else as `\u{..}` in hexadecimal.
pub open spec fn escaped_char(c: char) -> Seq<char> {
    if c == '\t' {
        seq!['\\', 't']
    } else if c == '\r' {
        seq!['\\', 'r']
    } else if c == '\n' {
        seq!['\\', 'n']
    } else if c == '\\' {
        seq!['\\', '\\']
    } else if c == '\'' {
        seq!['\\', '\'']
    } else if c == '"' {
        seq!['\\', '"']
    } else if 0x20 <= (c as u32) && (c as u32) <= 0x7e {
        seq![c]
    } else {
        seq!['\\', 'u', '{'] + hex(c as u32 as nat) + seq!['}']
    }
}

/// A text as `str::escape_default` writes it.
pub open spec fn escaped(s: Seq<char>) -> Seq<char>
    decreases s.len(),
{
    if s.len() == 0 {
        Seq::empty()
    } else {
        escaped(s.drop_last()) + escaped_char(s.last())
    }
}

fn push_escaped(v: &mut Vec<char>, c: char)
    ensures
        final(v)@ == old(v)@ + escaped_char(c),
{
    let ghost start = v@;
    if c == '\t' {
        v.push('\\');
        v.push('t');
    } else if c == '\r' {
        v.push('\\');
        v.push('r');
    } else if c == '\n' {
        v.push('\\');
        v.push('n');
    } else if c == '\\' {
        v.push('\\');
        v.push('\\');
    } else if c == '\'' {
        v.push('\\');
        v.push('\'');
    } else if c == '"' {
        v.push('\\');
        v.push('"');
    } else if 0x20 <= (c as u32) && (c as u32) <= 0x7e {
        v.push(c);
    } else {
        v.push('\\');
        v.push('u');
        v.push('{');
        push_hex(v, c as u32);
        v.push('}');
    }
    assert(v@ =~= start + escaped_char(c));
}

/// A redacted value as shown: escaped, at most 72 characters, `...` when cut.
pub open spec fn value_preview(value: Seq<char>) -> Seq<char> {
    let e = escaped(value);
    if e.len() > REDACTION_PREVIEW_VALUE_CHARS {
        e.take(REDACTION_PREVIEW_VALUE_CHARS as int) + "..."@
    } else {
        e
    }
}

/// A redacted value as shown in the preview.
pub fn preview_value(value: &str) -> (r: String)
    ensures
        r@ == value_preview(value@),
{
    let cs = chars_of(value);
    let mut e: Vec<char> = Vec::new();
    let mut k: usize = 0;
    while k < cs.len()
        invariant
            k <= cs@.len(),
            cs@ == value@,
            e@ == escaped(cs@.take(k as int)),
        decreases cs@.len() - k,
    {
        push_escaped(&mut e, cs[k]);
        assert(cs@.take(k + 1).drop_last() =~= cs@.take(k as int));
        k = k + 1;
    }
    assert(cs@.take(k as int) =~= cs@);
    if e.len() > REDACTION_PREVIEW_VALUE_CHARS {
        let mut t = crate::text::slice_range(e.as_slice(), 0, REDACTION_PREVIEW_VALUE_CHARS);
        assert(t@ =~= e@.take(REDACTION_PREVIEW_VALUE_CHARS as int));
        push_str(&mut t, "...");
        string_of(t)
    } else {
        string_of(e)
    }
}

/// One line of the redaction preview.
pub open spec fn preview_line(e: RedactionEntry) -> Seq<char> {
    "  - "@ + e.kind@ + " "@ + e.replacement@ + (if e.occurrences > 1 {
        " x"@ + decimal(e.occurrences as nat)
    } else {
        Seq::empty()
    }) + " <= "@ + value_preview(e.original@) + (match e.display_value {
        Some(d) => if d@ != e.original@ {
            " (hint "@ + d@ + ")"@
        } else {
            Seq::empty()
        },
        None => Seq::empty(),
    }) + "\n"@
}

pub open spec fn preview_lines(entries: Seq<RedactionEntry>) -> Seq<char>
    decreases entries.len(),
{
    if entries.len() == 0 {
        Seq::empty()
    } else {
        preview_lines(entries.drop_last()) + preview_line(entries.last())
    }
}

/// The preview of what was redacted: nothing if nothing was; otherwise a heading,
/// a line for each of the first eight values, and a count of the rest.
pub open spec fn redaction_preview(entries: Seq<RedactionEntry>) -> Seq<char> {
    if entries.len() == 0 {
        Seq::empty()
    } else {
        let shown = if entries.len() > REDACTION_PREVIEW_LIMIT {
            entries.take(REDACTION_PREVIEW_LIMIT as int)
        } else {
            entries
        };
        "git-ai-commit: redaction preview before sending the diff to the model:\n"@
            + preview_lines(shown) + if entries.len() > REDACTION_PREVIEW_LIMIT {
            "git-ai-commit: ... and "@ + decimal((entries.len() - REDACTION_PREVIEW_LIMIT) as nat)
                + " more redacted value(s)\n"@
        } else {
            Seq::empty()
        }
    }
}

fn push_preview_line(out: &mut Vec<char>, e: &RedactionEntry)
    ensures
        final(out)@ == old(out)@ + preview_line(*e),
{
    let ghost start = out@;
    push_str(out, "  - ");
    push_str(out, e.kind.as_str());
    push_str(out, " ");
    push_str(out, e.replacement.as_str());
    if e.occurrences > 1 {
        push_str(out, " x");
        push_decimal(out, e.occurrences);
    }
    push_str(out, " <= ");
    push_str(out, preview_value(e.original.as_str()).as_str());
    match &e.display_value {
        Some(d) => {
            let dc = chars_of(d.as_str());
            if !crate::text::equals_str(dc.as_slice(), e.original.as_str()) {
                push_str(out, " (hint ");
                push_str(out, d.as_str());
                push_str(out, ")");
            }
        },
        None => {},
    }
    push_str(out, "\n");
    assert(out@ =~= start + preview_line(*e));
}

/// The preview of what was redacted.
pub fn format_redaction_preview(entries: &[RedactionEntry]) -> (r: String)
    ensures
        r@ == redaction_preview(entries@),
{
    if entries.len() == 0 {
        return string_of(Vec::new());
    }
    let mut out: Vec<char> = Vec::new();
    push_str(&mut out, "git-ai-commit: redaction preview before sending the diff to the model:\n");
    let ghost head = out@;
    let shown = if entries.len() > REDACTION_PREVIEW_LIMIT {
        REDACTION_PREVIEW_LIMIT
    } else {
        entries.len()
    };
    let mut k: usize = 0;
    assert(entries@.take(0) =~= Seq::<RedactionEntry>::empty());
    while k < shown
        invariant
            k <= shown <= entries@.len(),
            out@ == head + preview_lines(entries@.take(k as int)),
        decreases shown - k,
    {
        push_preview_line(&mut out, &entries[k]);
        assert(entries@.take(k + 1).drop_last() =~= entries@.take(k as int));
        k = k + 1;
    }
    if entries.len() > REDACTION_PREVIEW_LIMIT {
        push_str(&mut out, "git-ai-commit: ... and ");
        push_decimal(&mut out, entries.len() - REDACTION_PREVIEW_LIMIT);
        push_str(&mut out, " more redacted value(s)\n");
    } else {
        assert(entries@.take(k as int) =~= entries@);
    }
    assert(out@ =~= redaction_preview(entries@));
    string_of(out)
}

/// The notice that the diff was sampled, naming the budget and how many files the
/// sample represents.
pub open spec fn sampling_notice_text(budget: DiffBudget, represented: nat, total: nat) -> Seq<char> {
    let counts = " ("@ + decimal(represented) + "/"@ + decimal(total) + ") files represented"@;
    match budget {
        DiffBudget::Bytes { max_bytes } => "git-ai-commit: staged diff selectively sampled within "@
            + decimal(max_bytes as nat) + " byte budget"@ + counts,
        DiffBudget::Tokens { configured_tokens, effective_tokens } => if configured_tokens
            != effective_tokens {
            "git-ai-commit: staged diff selectively sampled within configured "@ + decimal(
                configured_tokens as nat,
            ) + " tokens, effective "@ + decimal(effective_tokens as nat)
                + " tokens after context clamp"@ + counts
        } else {
            "git-ai-commit: staged diff selectively sampled within configured "@ + decimal(
                configured_tokens as nat,
            ) + " tokens"@ + counts
        },
    }
}

/// The notice that the diff was sampled.
pub fn sampling_notice(budget: DiffBudget, represented_files: usize, total_files: usize) -> (r:
    String)
    ensures
        r@ == sampling_notice_text(budget, represented_files as nat, total_files as nat),
{
    let mut out: Vec<char> = Vec::new();
    match budget {
        DiffBudget::Bytes { max_bytes } => {
            push_str(&mut out, "git-ai-commit: staged diff selectively sampled within ");
            push_decimal(&mut out, max_bytes);
            push_str(&mut out, " byte budget");
        },
        DiffBudget::Tokens { configured_tokens, effective_tokens } => {
            push_str(&mut out, "git-ai-commit: staged diff selectively sampled within configured ");
            push_decimal(&mut out, configured_tokens);
            if configured_tokens != effective_tokens {
                push_str(&mut out, " tokens, effective ");
                push_decimal(&mut out, effective_tokens);
                push_str(&mut out, " tokens after context clamp");
            } else {
                push_str(&mut out, " tokens");
            }
        },
    }
    push_str(&mut out, " (");
    push_decimal(&mut out, represented_files);
    push_str(&mut out, "/");
    push_decimal(&mut out, total_files);
    push_str(&mut out, ") files represented");
    assert(out@ =~= sampling_notice_text(budget, represented_files as nat, total_files as nat));
    string_of(out)
}

/// The notice that values were redacted, if any were.
pub open spec fn redaction_notice_text(occurrences: nat, unique: nat) -> Option<Seq<char>> {
    if occurrences == 0 {
        None
    } else if unique > 0 {
        Some(
            "git-ai-commit: redacted "@ + decimal(unique) + " unique sensitive-looking value(s) across "@
                + decimal(occurrences)
                + " occurrence(s) before sending the diff to the model"@,
        )
    } else {
        Some(
            "git-ai-commit: redacted "@ + decimal(occurrences)
                + " sensitive-looking occurrence(s) before sending the diff to the model"@,
        )
    }
}

/// The notice that values were redacted, if any were.
pub fn redaction_notice(occurrences: usize, unique_values: usize) -> (r: Option<String>)
    ensures
        match redaction_notice_text(occurrences as nat, unique_values as nat) {
            Some(t) => r matches Some(s) && s@ == t,
            None => r is None,
        },
{
    if occurrences == 0 {
        return None;
    }
    let mut out: Vec<char> = Vec::new();
    if unique_values > 0 {
        push_str(&mut out, "git-ai-commit: redacted ");
        push_decimal(&mut out, unique_values);
        push_str(&mut out, " unique sensitive-looking value(s) across ");
        push_decimal(&mut out, occurrences);
        push_str(&mut out, " occurrence(s) before sending the diff to the model");
    } else {
        push_str(&mut out, "git-ai-commit: redacted ");
        push_decimal(&mut out, occurrences);
        push_str(&mut out, " sensitive-looking occurrence(s) before sending the diff to the model");
    }
    assert(out@ =~= redaction_notice_text(occurrences as nat, unique_values as nat)->Some_0);
    Some(string_of(out))
}

fn trimmed_string(s: &str) -> (r: String)
    ensures
        r@ == trim(s@),
{
    let cs = chars_of(s);
    let (a, b) = trim_bounds(cs.as_slice(), 0, cs.len());
    assert(cs@.subrange(0, cs@.len() as int) =~= cs@);
    string_of(crate::text::slice_range(cs.as_slice(), a, b))
}

/// The branch name: what `git symbolic-ref --short HEAD` printed, trimmed; when that
/// failed, `detached-` and the short commit id from `git rev-parse --short HEAD`,
/// which is asked only then.
pub fn current_branch<F: FnOnce() -> Result<String, String>>(
    symbolic_ref: Result<String, String>,
    rev_parse_short: F,
) -> (r: Result<String, String>)
    requires
        rev_parse_short.requires(()),
    ensures
        match symbolic_ref {
            Ok(v) => r matches Ok(b) && b@ == trim(v@),
            Err(_) => exists|out: Result<String, String>|
                rev_parse_short.ensures((), out) && match out {
                    Ok(short) => r matches Ok(b) && b@ == "detached-"@ + trim(short@),
                    Err(e) => r == Err::<String, String>(e),
                },
        },
{
    match symbolic_ref {
        Ok(value) => Ok(trimmed_string(value.as_str())),
        Err(_) => {
            let out = rev_parse_short();
            match out {
                Ok(short) => {
                    let mut b = chars_of("detached-");
                    let t = trimmed_string(short.as_str());
                    push_str(&mut b, t.as_str());
                    Ok(string_of(b))
                },
                Err(e) => Err(e),
            }
        },
    }
}

/// The notices shown while collecting the context: that the diff was sampled, when it
/// was, then that values were redacted, when some were.
pub open spec fn context_notices(
    budget: DiffBudget,
    sampled: bool,
    represented_files: nat,
    total_files: nat,
    occurrences: nat,
    unique_values: nat,
) -> Seq<Seq<char>> {
    (if sampled {
        seq![sampling_notice_text(budget, represented_files, total_files)]
    } else {
        Seq::empty()
    }) + match redaction_notice_text(occurrences, unique_values) {
        Some(t) => seq![t],
        None => Seq::empty(),
    }
}

/// The repository context built from what git printed: the diff parsed, its budget
/// resolved, the stat and the (redacted) patch fitted to it; also the notices to
/// show, of sampling and of redaction.
pub fn repo_context_from(
    budget_config: crate::diff_sampling::budget::DiffBudgetConfig,
    repo_name: String,
    branch_name: String,
    diff_stat: &str,
    diff_patch: &str,
    redacted: RedactionResult,
) -> (r: Result<(RepoContext, Vec<String>), String>)
    ensures
        r matches Ok((ctx, notices)) ==> {
            let files = crate::diff_parse::parsed_files(diff_patch@);
            let budget = resolved_budget(budget_config, repo_name@, branch_name@, files.len());
            let prepared = prepared_diff(files, diff_stat@, redacted.text@, budget);
            &&& ctx.repo_name@ == repo_name@
            &&& ctx.branch_name@ == branch_name@
            &&& ctx.diff_stat@ == trim(prepared.0)
            &&& ctx.diff_patch@ == trim(prepared.1)
            &&& ctx.changed_file_count == prepared.2
            &&& ctx.represented_file_count == prepared.3
            &&& ctx.diff_truncated == prepared.4
            &&& ctx.diff_stat_truncated == prepared.5
            &&& ctx.diff_budget_is_token_mode == (budget is Tokens)
            &&& ctx.secret_redactions == redacted.replacement_occurrences
            &&& ctx.secret_redaction_preview@ == redaction_preview(redacted.entries@)
            &&& texts(notices@) == context_notices(
                budget,
                prepared.4,
                prepared.3,
                prepared.2,
                redacted.replacement_occurrences as nat,
                redacted.unique_values as nat,
            )
        },
        r is Ok,
{
    let files = parse_diff_files(diff_patch);
    let budget = match resolve_diff_budget(budget_config, repo_name.as_str(), branch_name.as_str(), files.len()) {
        Ok(b) => b,
        Err(e) => {
            return Err(e);
        },
    };
    let (stat, patch, sampling) = match prepare_diff_for_prompt(
        files.as_slice(),
        diff_stat,
        redacted.text.as_str(),
        budget,
    ) {
        Ok(v) => v,
        Err(e) => {
            return Err(e);
        },
    };
    let mut notices: Vec<String> = Vec::new();
    if sampling.sampled {
        notices.push(sampling_notice(budget, sampling.represented_files, sampling.total_files));
    }
    match redaction_notice(redacted.replacement_occurrences, redacted.unique_values) {
        Some(n) => notices.push(n),
        None => {},
    }
    assert(texts(notices@) =~= context_notices(
        budget,
        sampling.sampled,
        sampling.represented_files as nat,
        sampling.total_files as nat,
        redacted.replacement_occurrences as nat,
        redacted.unique_values as nat,
    ));
    let preview = format_redaction_preview(redacted.entries.as_slice());
    let ctx = RepoContext {
        repo_name,
        branch_name,
        diff_stat: trimmed_string(stat.as_str()),
        diff_patch: trimmed_string(patch.as_str()),
        diff_truncated: sampling.sampled,
        diff_stat_truncated: sampling.stat_truncated,
        diff_budget_is_token_mode: budget.is_token_mode(),
        secret_redactions: redacted.replacement_occurrences,
        secret_redaction_preview: preview,
        changed_file_count: sampling.total_files,
        represented_file_count: sampling.represented_files,
    };
    Ok((ctx, notices))
}

} // verus!
