//! The prompt that asks a model for a commit message.
use vstd::prelude::*;

use crate::text::{decimal, push_decimal, push_str, string_of};

verus! {

/// The system instructions sent with every request.
pub const SYSTEM_PROMPT: &'static str = "You are an expert at writing Git commit messages. Your job is to write a short, clear commit message that summarizes the staged changes.\n\nUse English Conventional Commit style for the subject line.\n\nIf you can accurately express the change in just the subject line, do not include a message body. Only use the body when it provides useful information. Do not repeat information from the subject line in the body.\n\nReturn only the final commit message. Do not explain your reasoning. Do not describe the task. Do not preface the answer. Do not include code fences. Do not include the raw diff in the commit message.\n\nFollow good Git style:\n- Separate the subject from the body with a blank line\n- Keep the subject line within 72 characters\n- Use the imperative mood in the subject line\n- Keep the body short and concise\n- Do not invent behavior not present in the diff";

/// The output budget asked of the model, in tokens.
pub const MAX_OUTPUT_TOKENS: usize = 4096;

/// What the repository and its staged diff contribute to the prompt.
#[derive(Clone, Debug)]
pub struct RepoContext {
    pub repo_name: String,
    pub branch_name: String,
    pub diff_stat: String,
    pub diff_patch: String,
    pub diff_truncated: bool,
    pub diff_stat_truncated: bool,
    pub diff_budget_is_token_mode: bool,
    pub secret_redactions: usize,
    pub secret_redaction_preview: String,
    pub changed_file_count: usize,
    pub represented_file_count: usize,
}

impl Default for RepoContext {
    fn default() -> (r: RepoContext)
        ensures
            r.repo_name@.len() == 0,
            r.branch_name@.len() == 0,
            r.diff_stat@.len() == 0,
            r.diff_patch@.len() == 0,
            !r.diff_truncated,
            !r.diff_stat_truncated,
            !r.diff_budget_is_token_mode,
            r.secret_redactions == 0,
            r.secret_redaction_preview@.len() == 0,
            r.changed_file_count == 0,
            r.represented_file_count == 0,
    {
        RepoContext {
            repo_name: String::new(),
            branch_name: String::new(),
            diff_stat: String::new(),
            diff_patch: String::new(),
            diff_truncated: false,
            diff_stat_truncated: false,
            diff_budget_is_token_mode: false,
            secret_redactions: 0,
            secret_redaction_preview: String::new(),
            changed_file_count: 0,
            represented_file_count: 0,
        }
    }
}

/// The opening of the prompt: the task, the repository, the branch and the counts.
pub open spec fn prompt_prefix_text(
    repo: Seq<char>,
    branch: Seq<char>,
    changed: nat,
    represented: nat,
) -> Seq<char> {
    "Generate a commit message from the staged changes.\n\n"@ + "Repository: "@ + repo + "\n"@
        + "Branch: "@ + branch + "\n"@ + "Changed files: "@ + decimal(changed) + "\n"@
        + "Represented files in diff sample: "@ + decimal(represented) + "/"@ + decimal(changed)
        + "\n"@
}

/// A section of the prompt: its text, or `(empty)`, and a newline.
pub open spec fn section_body(text: Seq<char>) -> Seq<char> {
    if text.len() == 0 {
        "(empty)\n"@
    } else {
        text + "\n"@
    }
}

/// The whole prompt for a repository context.
pub open spec fn prompt_text(ctx: RepoContext) -> Seq<char> {
    prompt_prefix_text(
        ctx.repo_name@,
        ctx.branch_name@,
        ctx.changed_file_count as nat,
        ctx.represented_file_count as nat,
    ) + "Diff coverage: "@ + (if ctx.diff_truncated {
        if ctx.diff_budget_is_token_mode {
            "selective sample within token budget"@
        } else {
            "selective sample within byte budget"@
        }
    } else {
        "full"@
    }) + (if ctx.diff_stat_truncated {
        "\nDiff stat coverage: truncated"@
    } else {
        Seq::empty()
    }) + (if ctx.secret_redactions > 0 {
        "\nSensitive values redacted before prompt: "@ + decimal(ctx.secret_redactions as nat)
    } else {
        Seq::empty()
    }) + "\n\nDiff stat:\n"@ + section_body(ctx.diff_stat@) + "\nStaged diff:\n"@ + section_body(
        ctx.diff_patch@,
    )
}

/// The prompt as it looks for a sampled diff with a truncated stat and neither stat
/// nor diff: what every prompt costs besides the diff.
pub open spec fn scaffold_text(repo: Seq<char>, branch: Seq<char>, changed: nat) -> Seq<char> {
    prompt_prefix_text(repo, branch, changed, changed)
        + "Diff coverage: selective sample within token budget"@
        + "\nDiff stat coverage: truncated"@ + "\n\nDiff stat:\n"@ + "\nStaged diff:\n"@
}

fn push_prefix(
    v: &mut Vec<char>,
    repo: &str,
    branch: &str,
    changed: usize,
    represented: usize,
)
    ensures
        final(v)@ == old(v)@ + prompt_prefix_text(repo@, branch@, changed as nat, represented as nat),
{
    push_str(v, "Generate a commit message from the staged changes.\n\n");
    push_str(v, "Repository: ");
    push_str(v, repo);
    push_str(v, "\n");
    push_str(v, "Branch: ");
    push_str(v, branch);
    push_str(v, "\n");
    push_str(v, "Changed files: ");
    push_decimal(v, changed);
    push_str(v, "\n");
    push_str(v, "Represented files in diff sample: ");
    push_decimal(v, represented);
    push_str(v, "/");
    push_decimal(v, changed);
    push_str(v, "\n");
    assert(v@ =~= old(v)@ + prompt_prefix_text(repo@, branch@, changed as nat, represented as nat));
}

/// The opening of the prompt.
pub fn prompt_prefix(
    repo_name: &str,
    branch_name: &str,
    changed_file_count: usize,
    represented_file_count: usize,
) -> (r: String)
    ensures
        r@ == prompt_prefix_text(
            repo_name@,
            branch_name@,
            changed_file_count as nat,
            represented_file_count as nat,
        ),
{
    let mut v: Vec<char> = Vec::new();
    push_prefix(&mut v, repo_name, branch_name, changed_file_count, represented_file_count);
    assert(v@ =~= Seq::<char>::empty() + prompt_prefix_text(
        repo_name@,
        branch_name@,
        changed_file_count as nat,
        represented_file_count as nat,
    ));
    string_of(v)
}

fn push_section(v: &mut Vec<char>, text: &str)
    ensures
        final(v)@ == old(v)@ + section_body(text@),
{
    if text.is_empty() {
        push_str(v, "(empty)\n");
    } else {
        push_str(v, text);
        push_str(v, "\n");
        assert(v@ =~= old(v)@ + section_body(text@));
    }
}

/// The prompt that describes the repository and carries the diff stat and the diff.
pub fn build_prompt(repo_ctx: &RepoContext) -> (r: String)
    ensures
        r@ == prompt_text(*repo_ctx),
{
    let mut v: Vec<char> = Vec::new();
    push_prefix(
        &mut v,
        repo_ctx.repo_name.as_str(),
        repo_ctx.branch_name.as_str(),
        repo_ctx.changed_file_count,
        repo_ctx.represented_file_count,
    );
    push_str(&mut v, "Diff coverage: ");
    if repo_ctx.diff_truncated {
        if repo_ctx.diff_budget_is_token_mode {
            push_str(&mut v, "selective sample within token budget");
        } else {
            push_str(&mut v, "selective sample within byte budget");
        }
    } else {
        push_str(&mut v, "full");
    }
    let ghost p1 = v@;
    if repo_ctx.diff_stat_truncated {
        push_str(&mut v, "\nDiff stat coverage: truncated");
    }
    assert(v@ =~= p1 + (if repo_ctx.diff_stat_truncated {
        "\nDiff stat coverage: truncated"@
    } else {
        Seq::empty()
    }));
    let ghost p2 = v@;
    if repo_ctx.secret_redactions > 0 {
        push_str(&mut v, "\nSensitive values redacted before prompt: ");
        push_decimal(&mut v, repo_ctx.secret_redactions);
    }
    assert(v@ =~= p2 + (if repo_ctx.secret_redactions > 0 {
        "\nSensitive values redacted before prompt: "@ + decimal(
            repo_ctx.secret_redactions as nat,
        )
    } else {
        Seq::empty()
    }));
    push_str(&mut v, "\n\nDiff stat:\n");
    push_section(&mut v, repo_ctx.diff_stat.as_str());
    push_str(&mut v, "\nStaged diff:\n");
    push_section(&mut v, repo_ctx.diff_patch.as_str());
    assert(v@ =~= prompt_text(*repo_ctx));
    string_of(v)
}

/// The prompt without stat or diff, as the largest coverage lines make it.
pub fn build_prompt_scaffold(repo_name: &str, branch_name: &str, changed_file_count: usize) -> (r:
    String)
    ensures
        r@ == scaffold_text(repo_name@, branch_name@, changed_file_count as nat),
{
    let mut v: Vec<char> = Vec::new();
    push_prefix(&mut v, repo_name, branch_name, changed_file_count, changed_file_count);
    push_str(&mut v, "Diff coverage: selective sample within token budget");
    push_str(&mut v, "\nDiff stat coverage: truncated");
    push_str(&mut v, "\n\nDiff stat:\n");
    push_str(&mut v, "\nStaged diff:\n");
    assert(v@ =~= scaffold_text(repo_name@, branch_name@, changed_file_count as nat));
    string_of(v)
}

} // verus!
