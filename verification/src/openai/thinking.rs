//! The one-line thinking status: a fixed-width window that scrolls through the
//! reasoning text, behind a spinner.
use vstd::prelude::*;

use super::sse::collapsed;
use crate::text::{chars_of, is_whitespace, push_str, string_of};

verus! {

/// The width of the status window, in characters.
pub const STATUS_WINDOW_WIDTH: usize = 56;

/// The spaces between the end of the text and its start again as it scrolls.
pub const STATUS_SCROLL_GAP: usize = 8;

/// The label in front of the status text.
pub const LABEL: &'static str = "thinking";

/// `n` spaces.
pub open spec fn spaces(n: nat) -> Seq<char> {
    Seq::new(n, |i: int| ' ')
}

/// `text` padded with spaces to `width` characters.
pub open spec fn padded(text: Seq<char>, width: nat) -> Seq<char> {
    if text.len() >= width {
        text
    } else {
        text + spaces((width - text.len()) as nat)
    }
}

/// `text` padded with spaces to `width` characters.
pub fn pad_right(text: String, width: usize) -> (r: String)
    ensures
        r@ == padded(text@, width as nat),
{
    let mut out = chars_of(text.as_str());
    let ghost start = out@;
    let len = out.len();
    let mut k = len;
    while k < width
        invariant
            len <= k <= width || (k == len && len >= width),
            len == start.len(),
            out@ == start + spaces((k - len) as nat),
        decreases width - k,
    {
        out.push(' ');
        k = k + 1;
        assert(out@ =~= start + spaces((k - len) as nat));
    }
    if len >= width {
        assert(out@ =~= start);
    } else {
        assert(k == width);
    }
    string_of(out)
}

/// The window shown for `text` at frame `frame_index`: the text with whitespace
/// collapsed; padded to the window width when it fits; otherwise, with a gap after
/// it, read round from position `(frame_index / 2)` for the window's width.
pub open spec fn status_window(text: Seq<char>, frame_index: nat) -> Seq<char> {
    let compact = collapsed(text).0;
    if compact.len() == 0 {
        Seq::empty()
    } else if compact.len() <= STATUS_WINDOW_WIDTH {
        padded(compact, STATUS_WINDOW_WIDTH as nat)
    } else {
        let marquee = compact + spaces(STATUS_SCROLL_GAP as nat);
        let start = (frame_index / 2) % marquee.len();
        Seq::new(
            STATUS_WINDOW_WIDTH as nat,
            |i: int| marquee[(start + i) % (marquee.len() as int)],
        )
    }
}

/// The window of `text` shown at frame `frame_index`.
pub fn scrolling_window_text(text: &str, frame_index: usize) -> (r: String)
    ensures
        r@ == status_window(text@, frame_index as nat),
        r@.len() == 0 || r@.len() == STATUS_WINDOW_WIDTH,
{
    let cs = chars_of(text);
    let mut compact: Vec<char> = Vec::new();
    let mut pending = false;
    let mut k: usize = 0;
    while k < cs.len()
        invariant
            k <= cs@.len(),
            cs@ == text@,
            crate::openai::sse::collapsed(cs@.take(k as int)) == (compact@, pending),
        decreases cs@.len() - k,
    {
        let c = cs[k];
        assert(cs@.take(k + 1).drop_last() =~= cs@.take(k as int));
        if is_whitespace(c) {
            pending = compact.len() > 0;
        } else if pending {
            compact.push(' ');
            compact.push(c);
            pending = false;
        } else {
            compact.push(c);
        }
        k = k + 1;
    }
    assert(cs@.take(k as int) =~= cs@);
    if compact.len() == 0 {
        return string_of(Vec::new());
    }
    if compact.len() <= STATUS_WINDOW_WIDTH {
        return pad_right(string_of(compact), STATUS_WINDOW_WIDTH);
    }
    let ghost c = compact@;
    let mut marquee = compact;
    let mut g: usize = 0;
    while g < STATUS_SCROLL_GAP
        invariant
            g <= STATUS_SCROLL_GAP,
            marquee@ == c + spaces(g as nat),
            c.len() > STATUS_WINDOW_WIDTH,
        decreases STATUS_SCROLL_GAP - g,
    {
        marquee.push(' ');
        g = g + 1;
        assert(marquee@ =~= c + spaces(g as nat));
    }
    let n = marquee.len();
    let start = (frame_index / 2) % n;
    let mut out: Vec<char> = Vec::new();
    let mut i: usize = 0;
    while i < STATUS_WINDOW_WIDTH
        invariant
            i <= STATUS_WINDOW_WIDTH,
            n == marquee@.len(),
            n > STATUS_WINDOW_WIDTH,
            start < n,
            out@.len() == i,
            forall|j: int| 0 <= j < i ==> out@[j] == marquee@[(start + j) % (n as int)],
        decreases STATUS_WINDOW_WIDTH - i,
    {
        let idx = if i < n - start {
            start + i
        } else {
            i - (n - start)
        };
        assert(idx == (start + i) % (n as int)) by (nonlinear_arith)
            requires
                idx == if start + i < n {
                    start + i
                } else {
                    start + i - n
                },
                start < n,
                i < n,
        ;
        out.push(marquee[idx]);
        i = i + 1;
    }
    let ghost want = status_window(text@, frame_index as nat);
    assert(out@ =~= want);
    string_of(out)
}

/// The spinner's frames, one per frame index in turn.
pub open spec fn spinner_frames() -> Seq<Seq<char>> {
    seq!["⠋"@, "⠙"@, "⠹"@, "⠸"@, "⠼"@, "⠴"@, "⠦"@, "⠧"@, "⠇"@, "⠏"@]
}

/// The spinner frame shown at `frame_index`.
pub fn spinner_frame(frame_index: usize) -> (r: &'static str)
    ensures
        r@ == spinner_frames()[(frame_index % 10) as int],
{
    match frame_index % 10 {
        0 => "⠋",
        1 => "⠙",
        2 => "⠹",
        3 => "⠸",
        4 => "⠼",
        5 => "⠴",
        6 => "⠦",
        7 => "⠧",
        8 => "⠇",
        _ => "⠏",
    }
}

/// The status line after the spinner: the label, and the window if there is one.
pub open spec fn status_text(window: Seq<char>) -> Seq<char> {
    if window.len() == 0 {
        LABEL@
    } else {
        LABEL@ + ": "@ + window
    }
}

/// The status line after the spinner for `text` at frame `frame_index`.
pub fn status_line_text(text: &str, frame_index: usize) -> (r: String)
    ensures
        r@ == status_text(status_window(text@, frame_index as nat)),
{
    let window = scrolling_window_text(text, frame_index);
    if chars_of(window.as_str()).len() == 0 {
        return crate::message::owned(LABEL);
    }
    let mut out: Vec<char> = Vec::new();
    push_str(&mut out, LABEL);
    push_str(&mut out, ": ");
    push_str(&mut out, window.as_str());
    assert(out@ =~= LABEL@ + ": "@ + window@);
    string_of(out)
}

/// What the thinking status shows: a placeholder, or the reasoning text received.
pub struct ThinkingState {
    pub text: String,
    pub has_reasoning_text: bool,
}

impl ThinkingState {
    /// Shows a placeholder until reasoning text arrives.
    pub fn set_placeholder(&mut self, text: String)
        ensures
            final(self).text@ == text@,
            !final(self).has_reasoning_text,
    {
        self.text = text;
        self.has_reasoning_text = false;
    }

    /// Adds reasoning text; the first piece replaces the placeholder.
    pub fn append_reasoning(&mut self, delta: &str)
        ensures
            final(self).text@ == (if old(self).has_reasoning_text {
                old(self).text@
            } else {
                Seq::empty()
            }) + delta@,
            final(self).has_reasoning_text,
    {
        let mut out: Vec<char> = if self.has_reasoning_text {
            chars_of(self.text.as_str())
        } else {
            Vec::new()
        };
        push_str(&mut out, delta);
        self.text = string_of(out);
        self.has_reasoning_text = true;
    }
}

} // verus!
