//! The question asked before committing, and the reading of its answer.
use vstd::prelude::*;

use crate::terminal_ui::{
    colors_on, stderr_colors_enabled_with, style_edit, style_label, style_muted, style_success,
    styled, TerminalUiEnv, STYLE_EDIT, STYLE_LABEL, STYLE_MUTED, STYLE_SUCCESS,
};
use crate::text::{equals_str, lower_seq, push_str, string_of, trim, trimmed_lower};

verus! {

/// What to do with the generated message.
#[derive(Debug, Clone, Copy, PartialEq, Eq, Structural)]
pub enum CommitConfirmation {
    Proceed,
    Edit,
    Cancel,
}

/// The answer read from `input`: yes, edit, or no (also a blank answer).
pub open spec fn confirmation_of(input: Seq<char>) -> Option<CommitConfirmation> {
    let w = lower_seq(trim(input));
    if w == "y"@ || w == "yes"@ {
        Some(CommitConfirmation::Proceed)
    } else if w == "e"@ || w == "edit"@ {
        Some(CommitConfirmation::Edit)
    } else if w == ""@ || w == "n"@ || w == "no"@ {
        Some(CommitConfirmation::Cancel)
    } else {
        None
    }
}

/// Reads the answer to the confirmation question.
pub fn parse_commit_confirmation(input: &str) -> (r: Option<CommitConfirmation>)
    ensures
        r == confirmation_of(input@),
{
    let w = trimmed_lower(input);
    let w = w.as_slice();
    if equals_str(w, "y") || equals_str(w, "yes") {
        Some(CommitConfirmation::Proceed)
    } else if equals_str(w, "e") || equals_str(w, "edit") {
        Some(CommitConfirmation::Edit)
    } else if equals_str(w, "") || equals_str(w, "n") || equals_str(w, "no") {
        Some(CommitConfirmation::Cancel)
    } else {
        None
    }
}

/// The question, plain or coloured.
pub open spec fn confirmation_prompt(colors_enabled: bool) -> Seq<char> {
    if !colors_enabled {
        "git-ai-commit: continue? [y=commit/e=edit/N=cancel] "@
    } else {
        styled(true, STYLE_LABEL@, "git-ai-commit"@) + ": "@ + styled(
            true,
            STYLE_MUTED@,
            "continue?"@,
        ) + " ["@ + styled(true, STYLE_SUCCESS@, "y=commit"@) + "/"@ + styled(
            true,
            STYLE_EDIT@,
            "e=edit"@,
        ) + "/"@ + styled(true, STYLE_MUTED@, "N=cancel"@) + "] "@
    }
}

/// The confirmation question for the terminal described by `env`.
pub fn commit_confirmation_prompt_with(env: &TerminalUiEnv) -> (r: String)
    ensures
        r@ == confirmation_prompt(
            colors_on(
                env.stderr_is_terminal,
                env.no_color,
                match env.term {
                    Some(t) => Some(t@),
                    None => None,
                },
            ),
        ),
{
    let colors_enabled = stderr_colors_enabled_with(env);
    if !colors_enabled {
        return crate::message::owned("git-ai-commit: continue? [y=commit/e=edit/N=cancel] ");
    }
    let mut out: Vec<char> = Vec::new();
    push_str(&mut out, style_label(colors_enabled, "git-ai-commit").as_str());
    push_str(&mut out, ": ");
    push_str(&mut out, style_muted(colors_enabled, "continue?").as_str());
    push_str(&mut out, " [");
    push_str(&mut out, style_success(colors_enabled, "y=commit").as_str());
    push_str(&mut out, "/");
    push_str(&mut out, style_edit(colors_enabled, "e=edit").as_str());
    push_str(&mut out, "/");
    push_str(&mut out, style_muted(colors_enabled, "N=cancel").as_str());
    push_str(&mut out, "] ");
    assert(out@ =~= confirmation_prompt(true));
    string_of(out)
}

} // verus!
