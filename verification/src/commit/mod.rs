//! The commit flow's own logic: its arguments, the confirmation question and the
//! preview of the generated message.
pub mod alias;
pub mod args;
pub mod confirm;
pub mod doctor;
pub mod flow;

use vstd::prelude::*;

use crate::lines::{line_ranges, range_seqs, ranges_within, str_lines};
use crate::terminal_ui::{
    colors_on, stderr_colors_enabled_with, style_accent, style_label, style_muted, style_subject,
    styled, TerminalUiEnv, STYLE_ACCENT, STYLE_LABEL, STYLE_MUTED, STYLE_SUBJECT,
};
use crate::text::{chars_of, push_str, slice_range, string_of};

verus! {

/// One body line of the preview; a blank line shows as a single space.
pub open spec fn preview_body_line(colors_enabled: bool, line: Seq<char>) -> Seq<char> {
    "  "@ + styled(colors_enabled, STYLE_ACCENT@, "|"@) + " "@ + styled(
        colors_enabled,
        STYLE_MUTED@,
        if line.len() == 0 {
            " "@
        } else {
            line
        },
    ) + "\n"@
}

pub open spec fn preview_body(colors_enabled: bool, lines: Seq<Seq<char>>) -> Seq<char>
    decreases lines.len(),
{
    if lines.len() == 0 {
        Seq::empty()
    } else {
        preview_body(colors_enabled, lines.drop_last()) + preview_body_line(
            colors_enabled,
            lines.last(),
        )
    }
}

/// The preview of `message`: a heading, the subject after `>`, each body line
/// after `|`.
pub open spec fn message_preview(colors_enabled: bool, message: Seq<char>) -> Seq<char> {
    let lines = str_lines(message);
    let subject = if lines.len() > 0 {
        lines[0]
    } else {
        Seq::empty()
    };
    "\n"@ + styled(colors_enabled, STYLE_LABEL@, "git-ai-commit"@) + ": "@ + styled(
        colors_enabled,
        STYLE_MUTED@,
        "generated commit message"@,
    ) + "\n"@ + "  "@ + styled(colors_enabled, STYLE_ACCENT@, ">"@) + " "@ + styled(
        colors_enabled,
        STYLE_SUBJECT@,
        subject,
    ) + "\n"@ + preview_body(
        colors_enabled,
        if lines.len() > 0 {
            lines.skip(1)
        } else {
            Seq::empty()
        },
    )
}

/// The preview of the generated message for the terminal described by `env`.
pub fn commit_message_preview_with(env: &TerminalUiEnv, message: &str) -> (r: String)
    ensures
        r@ == message_preview(
            colors_on(
                env.stderr_is_terminal,
                env.no_color,
                match env.term {
                    Some(t) => Some(t@),
                    None => None,
                },
            ),
            message@,
        ),
{
    let colors_enabled = stderr_colors_enabled_with(env);
    let cs = chars_of(message);
    let ranges = line_ranges(cs.as_slice(), 0, cs.len());
    assert(cs@.subrange(0, cs@.len() as int) =~= cs@);
    let ghost lines = str_lines(cs@);
    let subject = if ranges.len() > 0 {
        let (a, b) = ranges[0];
        assert(ranges@[0].0 <= ranges@[0].1);
        slice_range(cs.as_slice(), a, b)
    } else {
        Vec::new()
    };
    assert(subject@ == (if lines.len() > 0 {
        lines[0]
    } else {
        Seq::<char>::empty()
    }));
    let mut out: Vec<char> = Vec::new();
    push_str(&mut out, "\n");
    push_str(&mut out, style_label(colors_enabled, "git-ai-commit").as_str());
    push_str(&mut out, ": ");
    push_str(&mut out, style_muted(colors_enabled, "generated commit message").as_str());
    push_str(&mut out, "\n");
    push_str(&mut out, "  ");
    push_str(&mut out, style_accent(colors_enabled, ">").as_str());
    push_str(&mut out, " ");
    push_str(&mut out, style_subject(colors_enabled, string_of(subject).as_str()).as_str());
    push_str(&mut out, "\n");
    let ghost head = out@;
    let ghost body = if lines.len() > 0 {
        lines.skip(1)
    } else {
        Seq::<Seq<char>>::empty()
    };
    let n = ranges.len();
    assert(lines.len() == n);
    let mut k: usize = 1;
    assert(body.take(0) =~= Seq::<Seq<char>>::empty());
    while k < n
        invariant
            1 <= k,
            k <= n || k == 1,
            n == ranges@.len(),
            lines.len() == n,
            range_seqs(cs@, ranges@) == lines,
            ranges_within(ranges@, 0, cs@.len() as int),
            body == (if lines.len() > 0 {
                lines.skip(1)
            } else {
                Seq::<Seq<char>>::empty()
            }),
            out@ == head + preview_body(colors_enabled, body.take(k - 1)),
        decreases n - k,
    {
        let (a, b) = ranges[k];
        assert(ranges@[k as int].0 <= ranges@[k as int].1);
        let line = slice_range(cs.as_slice(), a, b);
        assert(line@ == body[k - 1]);
        let ghost before = out@;
        push_str(&mut out, "  ");
        push_str(&mut out, style_accent(colors_enabled, "|").as_str());
        push_str(&mut out, " ");
        if line.len() == 0 {
            push_str(&mut out, style_muted(colors_enabled, " ").as_str());
        } else {
            push_str(&mut out, style_muted(colors_enabled, string_of(line).as_str()).as_str());
        }
        push_str(&mut out, "\n");
        assert(body.take(k as int).drop_last() =~= body.take(k - 1));
        assert(out@ =~= before + preview_body_line(colors_enabled, body[k - 1]));
        k = k + 1;
    }
    if n > 0 {
        assert(k == n);
        assert(body.len() == n - 1);
        assert(body.take(k - 1) =~= body);
    } else {
        assert(body.take(k - 1) =~= body);
    }
    assert(out@ =~= message_preview(colors_enabled, message@));
    string_of(out)
}

} // verus!
