//! The colours of a streamed answer: none, the 256-colour palette, or true colour.
use vstd::prelude::*;

use super::StreamOutput;
use crate::text::{chars_of, contains, contains_str, decimal, equals_str, lower_seq, lowered, push_decimal, push_str, string_of, trim, trimmed_lower};

verus! {

pub const ANSI_RESET: &'static str = "\x1b[0m";

pub const ANSI_SUBJECT: &'static str = "\x1b[1;36m";

pub const ANSI_BODY: &'static str = "\x1b[38;5;153m";

pub const ANSI_THINKING: &'static str = "\x1b[90m";

/// How a streamed answer is coloured.
#[derive(Clone, Copy, Debug, PartialEq, Eq, Structural)]
pub enum StreamPalette {
    Plain,
    Ansi,
    TrueColor,
}

/// What part of the answer is being written.
#[derive(Clone, Copy, Debug, PartialEq, Eq, Structural)]
pub enum StreamRole {
    Subject,
    Body,
    Thinking,
}

/// A terminal setting that announces true colour: it mentions `truecolor`, `24bit`
/// or `direct`, in any ASCII case.
pub open spec fn truecolor_hint(value: Seq<char>) -> bool {
    let l = lower_seq(trim(value));
    contains(l, "truecolor"@) || contains(l, "24bit"@) || contains(l, "direct"@)
}

/// Whether a terminal setting announces true colour.
pub fn matches_truecolor_hint(value: &str) -> (b: bool)
    ensures
        b == truecolor_hint(value@),
{
    let l = trimmed_lower(value);
    let l = l.as_slice();
    contains_str(l, "truecolor") || contains_str(l, "24bit") || contains_str(l, "direct")
}

pub open spec fn opt_hint(v: Option<&str>) -> bool {
    match v {
        Some(s) => truecolor_hint(s@),
        None => false,
    }
}

/// The palette for an output, given `NO_COLOR`, `TERM` and `COLORTERM`: plain when
/// nothing is shown, `NO_COLOR` is set or `TERM` is `dumb` (in any ASCII case); true
/// colour when `COLORTERM` or `TERM` announces it; the 256-colour palette otherwise.
pub open spec fn palette_for(output: StreamOutput, no_color: bool, term: Option<&str>, colorterm: Option<&str>) -> StreamPalette {
    if output == StreamOutput::Silent || no_color || (term matches Some(t) && lower_seq(t@)
        == "dumb"@) {
        StreamPalette::Plain
    } else if opt_hint(colorterm) || opt_hint(term) {
        StreamPalette::TrueColor
    } else {
        StreamPalette::Ansi
    }
}

impl StreamPalette {
    /// The palette for an output and the terminal settings.
    pub fn detect_with(
        output: StreamOutput,
        no_color: bool,
        term: Option<&str>,
        colorterm: Option<&str>,
    ) -> (p: StreamPalette)
        ensures
            p == palette_for(output, no_color, term, colorterm),
    {
        if output == StreamOutput::Silent || no_color {
            return StreamPalette::Plain;
        }
        if let Some(t) = term {
            if equals_str(lowered(chars_of(t).as_slice()).as_slice(), "dumb") {
                return StreamPalette::Plain;
            }
        }
        let hinted = match colorterm {
            Some(v) => matches_truecolor_hint(v),
            None => false,
        } || match term {
            Some(v) => matches_truecolor_hint(v),
            None => false,
        };
        if hinted {
            StreamPalette::TrueColor
        } else {
            StreamPalette::Ansi
        }
    }

    /// Whether anything is coloured.
    pub fn colors_enabled(self) -> (b: bool)
        ensures
            b == (self != StreamPalette::Plain),
    {
        !matches!(self, StreamPalette::Plain)
    }

    /// Whether colours are given as red, green and blue.
    pub fn supports_truecolor(self) -> (b: bool)
        ensures
            b == (self == StreamPalette::TrueColor),
    {
        matches!(self, StreamPalette::TrueColor)
    }
}

/// The red, green and blue of a role in true colour.
pub open spec fn role_rgb(role: StreamRole) -> (u8, u8, u8) {
    match role {
        StreamRole::Subject => (120, 200, 255),
        StreamRole::Body => (176, 220, 255),
        StreamRole::Thinking => (148, 160, 182),
    }
}

/// The escape that sets a true colour.
pub open spec fn rgb_escape(rgb: (u8, u8, u8)) -> Seq<char> {
    "\x1b[38;2;"@ + decimal(rgb.0 as nat) + ";"@ + decimal(rgb.1 as nat) + ";"@ + decimal(
        rgb.2 as nat,
    ) + "m"@
}

/// What starts text of a role.
pub open spec fn style_prefix_text(p: StreamPalette, role: StreamRole) -> Seq<char> {
    match p {
        StreamPalette::Plain => Seq::empty(),
        StreamPalette::Ansi => match role {
            StreamRole::Subject => ANSI_SUBJECT@,
            StreamRole::Body => ANSI_BODY@,
            StreamRole::Thinking => ANSI_THINKING@,
        },
        StreamPalette::TrueColor => rgb_escape(role_rgb(role)),
    }
}

/// The escape that sets a true colour.
pub fn rgb_escape_text(r: u8, g: u8, b: u8) -> (s: String)
    ensures
        s@ == rgb_escape((r, g, b)),
{
    let mut out: Vec<char> = Vec::new();
    push_str(&mut out, "\x1b[38;2;");
    push_decimal(&mut out, r as usize);
    push_str(&mut out, ";");
    push_decimal(&mut out, g as usize);
    push_str(&mut out, ";");
    push_decimal(&mut out, b as usize);
    push_str(&mut out, "m");
    assert(out@ =~= rgb_escape((r, g, b)));
    string_of(out)
}

impl StreamPalette {
    /// What is written before text of a role.
    pub fn style_prefix(self, role: StreamRole) -> (s: String)
        ensures
            s@ == style_prefix_text(self, role),
    {
        match self {
            StreamPalette::Plain => string_of(Vec::new()),
            StreamPalette::Ansi => crate::message::owned(
                match role {
                    StreamRole::Subject => ANSI_SUBJECT,
                    StreamRole::Body => ANSI_BODY,
                    StreamRole::Thinking => ANSI_THINKING,
                },
            ),
            StreamPalette::TrueColor => match role {
                StreamRole::Subject => rgb_escape_text(120, 200, 255),
                StreamRole::Body => rgb_escape_text(176, 220, 255),
                StreamRole::Thinking => rgb_escape_text(148, 160, 182),
            },
        }
    }

    /// What is written to end coloured text: a reset, when colours are on.
    pub fn reset_text(self) -> (s: &'static str)
        ensures
            s@ == if self == StreamPalette::Plain {
                ""@
            } else {
                ANSI_RESET@
            },
    {
        if self.colors_enabled() {
            ANSI_RESET
        } else {
            ""
        }
    }
}

} // verus!
