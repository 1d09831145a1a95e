//! Colouring of what is written to the terminal on stderr.
use vstd::prelude::*;

use crate::text::{equals_str, push_str, string_of};

verus! {

/// What decides whether stderr gets colours: whether it is a terminal, whether
/// `NO_COLOR` is set, and the value of `TERM`.
#[derive(Clone, Debug, PartialEq, Eq)]
pub struct TerminalUiEnv {
    pub stderr_is_terminal: bool,
    pub no_color: bool,
    pub term: Option<String>,
}

/// Colours are on for a terminal, unless `NO_COLOR` is set or `TERM` is `dumb`.
pub open spec fn colors_on(stderr_is_terminal: bool, no_color: bool, term: Option<Seq<char>>) -> bool {
    stderr_is_terminal && !no_color && term != Some("dumb"@)
}

/// Whether stderr gets colours.
pub fn stderr_colors_enabled_with(env: &TerminalUiEnv) -> (b: bool)
    ensures
        b == colors_on(
            env.stderr_is_terminal,
            env.no_color,
            match env.term {
                Some(t) => Some(t@),
                None => None,
            },
        ),
{
    if !env.stderr_is_terminal || env.no_color {
        return false;
    }
    match &env.term {
        Some(t) => {
            let cs = crate::text::chars_of(t.as_str());
            !equals_str(cs.as_slice(), "dumb")
        },
        None => true,
    }
}

pub const STYLE_RESET: &'static str = "\x1b[0m";

pub const STYLE_LABEL: &'static str = "\x1b[1;36m";

pub const STYLE_MUTED: &'static str = "\x1b[2m";

pub const STYLE_SUCCESS: &'static str = "\x1b[1;32m";

pub const STYLE_EDIT: &'static str = "\x1b[1;33m";

pub const STYLE_ACCENT: &'static str = "\x1b[36m";

pub const STYLE_SUBJECT: &'static str = "\x1b[1m";

/// `text` between the escape `code` and a reset when colours are on, `text` itself
/// otherwise.
pub open spec fn styled(colors_enabled: bool, code: Seq<char>, text: Seq<char>) -> Seq<char> {
    if colors_enabled {
        code + text + STYLE_RESET@
    } else {
        text
    }
}

fn style_with(colors_enabled: bool, code: &str, text: &str) -> (r: String)
    ensures
        r@ == styled(colors_enabled, code@, text@),
{
    let mut out: Vec<char> = Vec::new();
    if colors_enabled {
        push_str(&mut out, code);
        push_str(&mut out, text);
        push_str(&mut out, STYLE_RESET);
    } else {
        push_str(&mut out, text);
    }
    assert(Seq::<char>::empty() + code@ + text@ + STYLE_RESET@ =~= code@ + text@ + STYLE_RESET@);
    assert(Seq::<char>::empty() + text@ =~= text@);
    string_of(out)
}

/// The program's name as a label.
pub fn style_label(colors_enabled: bool, text: &str) -> (r: String)
    ensures
        r@ == styled(colors_enabled, STYLE_LABEL@, text@),
{
    style_with(colors_enabled, STYLE_LABEL, text)
}

/// Secondary text.
pub fn style_muted(colors_enabled: bool, text: &str) -> (r: String)
    ensures
        r@ == styled(colors_enabled, STYLE_MUTED@, text@),
{
    style_with(colors_enabled, STYLE_MUTED, text)
}

/// The choice that goes ahead.
pub fn style_success(colors_enabled: bool, text: &str) -> (r: String)
    ensures
        r@ == styled(colors_enabled, STYLE_SUCCESS@, text@),
{
    style_with(colors_enabled, STYLE_SUCCESS, text)
}

/// The choice that edits.
pub fn style_edit(colors_enabled: bool, text: &str) -> (r: String)
    ensures
        r@ == styled(colors_enabled, STYLE_EDIT@, text@),
{
    style_with(colors_enabled, STYLE_EDIT, text)
}

/// Markers in front of lines.
pub fn style_accent(colors_enabled: bool, text: &str) -> (r: String)
    ensures
        r@ == styled(colors_enabled, STYLE_ACCENT@, text@),
{
    style_with(colors_enabled, STYLE_ACCENT, text)
}

/// A commit subject.
pub fn style_subject(colors_enabled: bool, text: &str) -> (r: String)
    ensures
        r@ == styled(colors_enabled, STYLE_SUBJECT@, text@),
{
    style_with(colors_enabled, STYLE_SUBJECT, text)
}

} // verus!
