//! The course of `git ai-commit`: when it hands over to plain `git commit`, when it
//! fails, when it asks for confirmation, and with which arguments it commits. The
//! caller does the work each step asks for and reports how it went.
use vstd::prelude::*;

use super::args::{
    build_ai_commit_args, commit_args, parse_ai_commit_args, scanned_args, should_bypass_ai_commit,
    bypasses, ParsedAiCommitArgs,
};
use super::confirm::CommitConfirmation;
use crate::diff_parse::texts;
use crate::message::owned;
use crate::openai::StreamOutput;
use crate::text::{chars_of, push_str, string_of, trim};

verus! {

/// The notice when no staged change is left to describe.
pub const NO_STAGED_CHANGES: &'static str = "no staged changes available for AI prompt";

/// What the course asks for next.
#[derive(Clone, Debug, PartialEq, Eq)]
pub enum CommitAction {
    /// Run `git` with these arguments, after printing the notice when there is one.
    PlainCommit { args: Vec<String>, notice: Option<String> },
    /// Load the configuration and report `config_loaded`.
    LoadConfig,
    /// Collect the staged changes and report `context_collected`.
    CollectContext,
    /// Generate the message, showing it as it streams to `stream`, after printing the
    /// redaction preview when asked; report `generated`.
    Generate { show_redaction_preview: bool, stream: StreamOutput },
    /// Write the message file, print the preview when asked, ask for confirmation
    /// when asked (else take it as given), and report `reviewed`.
    Review { show_preview: bool, confirm: bool },
    /// Commit with the message file, opening the editor when asked (see
    /// `commit_args`).
    Commit { open_editor: bool },
    /// The commit was canceled.
    Cancel,
    /// Stop with this error.
    Fail(String),
}

/// What the configuration decides about committing.
#[derive(Clone, Copy, Debug, PartialEq, Eq, Structural)]
pub struct CommitSettings {
    pub confirm_commit: bool,
    pub open_editor: bool,
}

/// What the collected changes offer: whether there is a diff stat or a patch that is
/// not blank, and whether a redaction preview was made.
#[derive(Clone, Copy, Debug, PartialEq, Eq, Structural)]
pub struct ContextSummary {
    pub has_changes: bool,
    pub has_redaction_preview: bool,
}

/// Whether collected changes are worth a message: a diff stat or a patch that is
/// not blank.
pub fn context_summary(diff_stat: &str, diff_patch: &str, redaction_preview: &str) -> (s:
    ContextSummary)
    ensures
        s.has_changes == (trim(diff_stat@).len() > 0 || trim(diff_patch@).len() > 0),
        s.has_redaction_preview == (redaction_preview@.len() > 0),
{
    let a = chars_of(diff_stat);
    let (x, y) = crate::text::trim_bounds(a.as_slice(), 0, a.len());
    assert(a@.subrange(0, a@.len() as int) =~= a@);
    let b = chars_of(diff_patch);
    let (u, v) = crate::text::trim_bounds(b.as_slice(), 0, b.len());
    assert(b@.subrange(0, b@.len() as int) =~= b@);
    ContextSummary { has_changes: x < y || u < v, has_redaction_preview: !redaction_preview.is_empty() }
}

/// The arguments of a plain `git commit`.
pub open spec fn plain_args(args: Seq<Seq<char>>) -> Seq<Seq<char>> {
    seq!["commit"@] + args
}

/// The notice printed before handing over to plain `git commit`.
pub open spec fn plain_notice(reason: Seq<char>) -> Seq<char> {
    "git-ai-commit: falling back to plain git commit: "@ + reason
}

/// The error when no message could be generated.
pub open spec fn generation_failure(err: Seq<char>) -> Seq<char> {
    "git-ai-commit: failed to generate commit message: "@ + err
}

/// The arguments of a plain `git commit` with `args`.
pub fn plain_commit_args(args: &[String]) -> (r: Vec<String>)
    ensures
        texts(r@) == plain_args(texts(args@)),
{
    let mut plain: Vec<String> = Vec::new();
    plain.push(owned("commit"));
    let mut k: usize = 0;
    while k < args.len()
        invariant
            k <= args@.len(),
            texts(plain@) == seq!["commit"@] + texts(args@).take(k as int),
        decreases args@.len() - k,
    {
        let ghost before = plain@;
        let s = owned(args[k].as_str());
        plain.push(s);
        assert(plain@ == before.push(s));
        assert(texts(plain@) =~= texts(before).push(s@));
        assert(texts(args@).take(k + 1) =~= texts(args@).take(k as int).push(args@[k as int]@));
        assert(texts(plain@) =~= seq!["commit"@] + texts(args@).take(k + 1));
        k = k + 1;
    }
    assert(texts(args@).take(k as int) =~= texts(args@));
    plain
}

/// An action as plain values.
pub enum CommitPlan {
    PlainCommit(Seq<Seq<char>>, Option<Seq<char>>),
    LoadConfig,
    CollectContext,
    Generate(bool, StreamOutput),
    Review(bool, bool),
    Commit(bool),
    Cancel,
    Fail(Seq<char>),
}

pub open spec fn plan_of(a: CommitAction) -> CommitPlan {
    match a {
        CommitAction::PlainCommit { args, notice } => CommitPlan::PlainCommit(
            texts(args@),
            match notice {
                Some(n) => Some(n@),
                None => None,
            },
        ),
        CommitAction::LoadConfig => CommitPlan::LoadConfig,
        CommitAction::CollectContext => CommitPlan::CollectContext,
        CommitAction::Generate { show_redaction_preview, stream } => CommitPlan::Generate(
            show_redaction_preview,
            stream,
        ),
        CommitAction::Review { show_preview, confirm } => CommitPlan::Review(show_preview, confirm),
        CommitAction::Commit { open_editor } => CommitPlan::Commit(open_editor),
        CommitAction::Cancel => CommitPlan::Cancel,
        CommitAction::Fail(e) => CommitPlan::Fail(e@),
    }
}

/// How `git ai-commit` starts: arguments that `git ai-commit` leaves to git go to
/// plain `git commit`; arguments it refuses fail; otherwise the configuration is
/// loaded.
pub open spec fn start_plan(args: Seq<Seq<char>>) -> CommitPlan {
    if exists|i: int| 0 <= i < args.len() && bypasses(#[trigger] args[i]) {
        CommitPlan::PlainCommit(plain_args(args), None)
    } else {
        match scanned_args(args) {
            Err(e) => CommitPlan::Fail(e),
            Ok(_) => CommitPlan::LoadConfig,
        }
    }
}

/// One run of `git ai-commit`.
pub struct CommitFlow {
    parsed: ParsedAiCommitArgs,
    settings: CommitSettings,
    interactive: bool,
}

impl CommitFlow {
    /// The arguments passed on to `git commit`.
    pub closed spec fn forward(&self) -> Seq<Seq<char>> {
        texts(self.parsed.forward_args@)
    }

    pub closed spec fn confirm_override(&self) -> Option<bool> {
        self.parsed.confirm_override
    }

    pub closed spec fn show_redactions(&self) -> bool {
        self.parsed.show_redactions
    }

    /// Whether `--debug-provider` was given.
    pub closed spec fn debug_provider(&self) -> bool {
        self.parsed.debug_provider
    }

    pub closed spec fn settings(&self) -> CommitSettings {
        self.settings
    }

    pub closed spec fn interactive(&self) -> bool {
        self.interactive
    }

    /// Starts a run with its arguments; `interactive` is whether stdin and stderr are
    /// terminals.
    pub fn start(args: &Vec<String>, interactive: bool) -> (r: (Option<CommitFlow>, CommitAction))
        ensures
            plan_of(r.1) == start_plan(texts(args@)),
            r.0 is Some <==> r.1 == CommitAction::LoadConfig,
            r.0 matches Some(f) ==> ({
                &&& scanned_args(texts(args@)) matches Ok((fw, co, sr, dp))
                &&& f.forward() == fw
                &&& f.confirm_override() == co
                &&& f.show_redactions() == sr
                &&& f.debug_provider() == dp
                &&& f.interactive() == interactive
            }),
    {
        if should_bypass_ai_commit(args.as_slice()) {
            let plain = plain_commit_args(args.as_slice());
            return (None, CommitAction::PlainCommit { args: plain, notice: None });
        }
        match parse_ai_commit_args(args.as_slice()) {
            Ok(parsed) => (
                Some(
                    CommitFlow {
                        parsed,
                        settings: CommitSettings { confirm_commit: true, open_editor: false },
                        interactive,
                    },
                ),
                CommitAction::LoadConfig,
            ),
            Err(e) => (None, CommitAction::Fail(e)),
        }
    }

    /// Whether provider debugging was asked for with `--debug-provider`.
    pub fn debugs_provider(&self) -> (b: bool)
        ensures
            b == self.debug_provider(),
    {
        self.parsed.debug_provider
    }

    fn fall_back(&self, reason: &str) -> (a: CommitAction)
        ensures
            plan_of(a) == CommitPlan::PlainCommit(plain_args(self.forward()), Some(plain_notice(reason@))),
    {
        let plain = plain_commit_args(self.parsed.forward_args.as_slice());
        let mut notice: Vec<char> = Vec::new();
        push_str(&mut notice, "git-ai-commit: falling back to plain git commit: ");
        push_str(&mut notice, reason);
        CommitAction::PlainCommit { args: plain, notice: Some(string_of(notice)) }
    }

    /// After loading the configuration: a configuration that cannot be used hands
    /// over to plain `git commit` with its error; otherwise the changes are collected.
    pub fn config_loaded(&mut self, result: Result<CommitSettings, String>) -> (a: CommitAction)
        ensures
            match result {
                Err(e) => plan_of(a) == CommitPlan::PlainCommit(
                    plain_args(old(self).forward()),
                    Some(plain_notice(e@)),
                ) && *final(self) == *old(self),
                Ok(s) => a == CommitAction::CollectContext && final(self).settings() == s
                    && final(self).forward() == old(self).forward() && final(self).confirm_override()
                    == old(self).confirm_override() && final(self).show_redactions() == old(
                    self,
                ).show_redactions() && final(self).debug_provider() == old(self).debug_provider()
                    && final(self).interactive() == old(self).interactive(),
            },
    {
        match result {
            Err(e) => self.fall_back(e.as_str()),
            Ok(s) => {
                self.settings = s;
                CommitAction::CollectContext
            },
        }
    }

    /// After collecting the changes: a failure, or changes with nothing staged, hand
    /// over to plain `git commit`; otherwise the message is generated, streamed to
    /// stdout in an interactive session, with the redaction preview shown first
    /// when it was asked for there and there is one.
    pub fn context_collected(&self, result: Result<ContextSummary, String>) -> (a: CommitAction)
        ensures
            match result {
                Err(e) => plan_of(a) == CommitPlan::PlainCommit(
                    plain_args(self.forward()),
                    Some(plain_notice(e@)),
                ),
                Ok(c) => if !c.has_changes {
                    plan_of(a) == CommitPlan::PlainCommit(
                        plain_args(self.forward()),
                        Some(plain_notice(NO_STAGED_CHANGES@)),
                    )
                } else {
                    plan_of(a) == CommitPlan::Generate(
                        self.interactive() && self.show_redactions() && c.has_redaction_preview,
                        if self.interactive() {
                            StreamOutput::Stdout
                        } else {
                            StreamOutput::Silent
                        },
                    )
                },
            },
    {
        match result {
            Err(e) => self.fall_back(e.as_str()),
            Ok(c) => {
                if !c.has_changes {
                    return self.fall_back(NO_STAGED_CHANGES);
                }
                CommitAction::Generate {
                    show_redaction_preview: self.interactive && self.parsed.show_redactions
                        && c.has_redaction_preview,
                    stream: if self.interactive {
                        StreamOutput::Stdout
                    } else {
                        StreamOutput::Silent
                    },
                }
            },
        }
    }

    /// After generating: a failure stops the run; otherwise the message is reviewed,
    /// with the preview unless the stream showed it in full, and with a confirmation
    /// in an interactive session unless `--no-confirm` or the configuration says
    /// otherwise.
    pub fn generated(&self, result: Result<bool, String>) -> (a: CommitAction)
        ensures
            match result {
                Err(e) => plan_of(a) == CommitPlan::Fail(generation_failure(e@)),
                Ok(streamed_render_completed) => plan_of(a) == CommitPlan::Review(
                    !streamed_render_completed,
                    self.interactive() && match self.confirm_override() {
                        Some(c) => c,
                        None => self.settings().confirm_commit,
                    },
                ),
            },
    {
        match result {
            Err(e) => {
                let mut out: Vec<char> = Vec::new();
                push_str(&mut out, "git-ai-commit: failed to generate commit message: ");
                push_str(&mut out, e.as_str());
                CommitAction::Fail(string_of(out))
            },
            Ok(completed) => {
                let confirm = match self.parsed.confirm_override {
                    Some(c) => c,
                    None => self.settings.confirm_commit,
                };
                CommitAction::Review { show_preview: !completed, confirm: self.interactive && confirm }
            },
        }
    }

    /// After the review: proceeding commits (opening the editor when configured),
    /// editing commits with the editor, canceling stops.
    pub fn reviewed(&self, answer: CommitConfirmation) -> (a: CommitAction)
        ensures
            a == match answer {
                CommitConfirmation::Proceed => CommitAction::Commit {
                    open_editor: self.settings().open_editor,
                },
                CommitConfirmation::Edit => CommitAction::Commit { open_editor: true },
                CommitConfirmation::Cancel => CommitAction::Cancel,
            },
    {
        match answer {
            CommitConfirmation::Proceed => CommitAction::Commit { open_editor: self.settings.open_editor },
            CommitConfirmation::Edit => CommitAction::Commit { open_editor: true },
            CommitConfirmation::Cancel => CommitAction::Cancel,
        }
    }

    /// The arguments of the final `git commit` with the message file.
    pub fn commit_args(&self, message_file: String, open_editor: bool) -> (r: Vec<String>)
        ensures
            texts(r@) == commit_args(message_file@, open_editor, self.forward()),
    {
        build_ai_commit_args(message_file, open_editor, self.parsed.forward_args.as_slice())
    }
}

} // verus!
