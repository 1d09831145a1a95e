//! Rendering a streamed answer: `<think>` sections are shown apart from the message,
//! the subject line and the body each in their own colour. The renderer decides
//! what to write; the terminal work it asks for is handed out as actions.
use vstd::prelude::*;

use super::stream_palette::{style_prefix_text, StreamPalette, StreamRole, ANSI_RESET};
use super::StreamOutput;
use crate::message::owned;
use crate::text::{chars_of, push_str, string_of};

verus! {

/// The tag that opens a thinking section.
pub const OPEN_TAG: &'static str = "<think>";

/// The tag that closes a thinking section.
pub const CLOSE_TAG: &'static str = "</think>";

/// What the terminal is asked to do.
#[derive(Clone, Debug, PartialEq, Eq)]
pub enum RenderAction {
    /// Write this text to stdout and flush it.
    Write(String),
    /// Show this placeholder in the thinking status line.
    ShowPlaceholder(String),
    /// Add this reasoning text to the thinking status line.
    AppendThinking(String),
    /// Let the thinking status line finish and clear it.
    CompleteStatus,
    /// Clear the thinking status line at once.
    AbortStatus,
}

/// An action as plain values.
pub enum ActionView {
    Write(Seq<char>),
    ShowPlaceholder(Seq<char>),
    AppendThinking(Seq<char>),
    CompleteStatus,
    AbortStatus,
}

pub open spec fn action_view(a: RenderAction) -> ActionView {
    match a {
        RenderAction::Write(s) => ActionView::Write(s@),
        RenderAction::ShowPlaceholder(s) => ActionView::ShowPlaceholder(s@),
        RenderAction::AppendThinking(s) => ActionView::AppendThinking(s@),
        RenderAction::CompleteStatus => ActionView::CompleteStatus,
        RenderAction::AbortStatus => ActionView::AbortStatus,
    }
}

/// Where the text being rendered stands: inside a thinking section or not, still on
/// the subject line or not, the start of a tag not yet complete, and whether any
/// character was written.
pub struct TagState {
    pub in_thinking: bool,
    pub in_subject_line: bool,
    pub pending: Seq<char>,
    pub rendered: bool,
}

/// The state before any text.
pub open spec fn fresh_tags() -> TagState {
    TagState { in_thinking: false, in_subject_line: true, pending: Seq::empty(), rendered: false }
}

/// The role of the next character written.
pub open spec fn role_of(t: TagState) -> StreamRole {
    if t.in_thinking {
        StreamRole::Thinking
    } else if t.in_subject_line {
        StreamRole::Subject
    } else {
        StreamRole::Body
    }
}

/// The reset a palette writes after a line.
pub open spec fn reset_seq(p: StreamPalette) -> Seq<char> {
    if p == StreamPalette::Plain {
        Seq::empty()
    } else {
        ANSI_RESET@
    }
}

pub open spec fn with_pending(t: TagState, pending: Seq<char>) -> TagState {
    TagState {
        in_thinking: t.in_thinking,
        in_subject_line: t.in_subject_line,
        pending,
        rendered: t.rendered,
    }
}

/// Writing one character: the style of its role, then the character; a newline is
/// followed by a reset, and outside a thinking section it ends the subject line.
pub open spec fn char_out(p: StreamPalette, t: TagState, ch: char) -> (TagState, Seq<char>) {
    let prefix = style_prefix_text(p, role_of(t));
    if ch == '\n' {
        (
            TagState {
                in_thinking: t.in_thinking,
                in_subject_line: if t.in_thinking {
                    t.in_subject_line
                } else {
                    false
                },
                pending: t.pending,
                rendered: true,
            },
            prefix + "\n"@ + reset_seq(p),
        )
    } else {
        (
            TagState {
                in_thinking: t.in_thinking,
                in_subject_line: t.in_subject_line,
                pending: t.pending,
                rendered: true,
            },
            prefix.push(ch),
        )
    }
}

/// Outside a thinking section, the held characters are written one by one until
/// what is held could again start `<think>`.
pub open spec fn flush_open(p: StreamPalette, t: TagState) -> (TagState, Seq<char>)
    decreases t.pending.len(),
{
    if t.pending.len() > 0 && !t.pending.is_prefix_of(OPEN_TAG@) {
        let (t1, o1) = char_out(p, with_pending(t, t.pending.drop_first()), t.pending[0]);
        let (t2, o2) = flush_open(p, t1);
        (t2, o1 + o2)
    } else {
        (t, Seq::empty())
    }
}

/// One character of streamed text. A `<` is held back; held characters that
/// complete `<think>` (or `</think>` inside a section) switch the section and are not
/// written; held characters that cannot start the tag are written.
pub open spec fn tag_step(p: StreamPalette, t: TagState, ch: char) -> (TagState, Seq<char>) {
    if t.pending.len() == 0 {
        if ch == '<' {
            (with_pending(t, seq!['<']), Seq::empty())
        } else {
            char_out(p, t, ch)
        }
    } else {
        let pend = t.pending.push(ch);
        if !t.in_thinking {
            if pend.is_prefix_of(OPEN_TAG@) {
                if pend == OPEN_TAG@ {
                    (
                        TagState {
                            in_thinking: true,
                            in_subject_line: t.in_subject_line,
                            pending: Seq::empty(),
                            rendered: t.rendered,
                        },
                        Seq::empty(),
                    )
                } else {
                    (with_pending(t, pend), Seq::empty())
                }
            } else {
                flush_open(p, with_pending(t, pend))
            }
        } else if pend.is_prefix_of(CLOSE_TAG@) {
            if pend == CLOSE_TAG@ {
                (
                    TagState {
                        in_thinking: false,
                        in_subject_line: t.in_subject_line,
                        pending: Seq::empty(),
                        rendered: t.rendered,
                    },
                    Seq::empty(),
                )
            } else {
                (with_pending(t, pend), Seq::empty())
            }
        } else {
            char_out(p, with_pending(t, pend.drop_first()), pend[0])
        }
    }
}

/// A run of streamed text: the state after it and what is written for it.
pub open spec fn styled_run(p: StreamPalette, t: TagState, text: Seq<char>) -> (TagState, Seq<char>)
    decreases text.len(),
{
    if text.len() == 0 {
        (t, Seq::empty())
    } else {
        let (t1, o1) = styled_run(p, t, text.drop_last());
        let (t2, o2) = tag_step(p, t1, text.last());
        (t2, o1 + o2)
    }
}

/// A renderer as plain values.
pub struct RendererView {
    pub output: StreamOutput,
    pub palette: StreamPalette,
    pub started: bool,
    pub completed: bool,
    pub tags: TagState,
    pub actions: Seq<ActionView>,
}

/// The renderer after a piece of the answer is shown: nothing changes for an empty
/// piece or when nothing is shown; otherwise the output has started, the thinking
/// status line is cleared and the piece is written, styled.
pub open spec fn pushed(r: RendererView, text: Seq<char>) -> RendererView {
    if text.len() == 0 || r.output != StreamOutput::Stdout {
        r
    } else {
        RendererView {
            started: true,
            tags: styled_run(r.palette, r.tags, text).0,
            actions: r.actions.push(ActionView::CompleteStatus).push(
                ActionView::Write(styled_run(r.palette, r.tags, text).1),
            ),
            ..r
        }
    }
}

/// The renderer after pieces are shown one after another.
pub open spec fn pushed_all(r: RendererView, pieces: Seq<Seq<char>>) -> RendererView
    decreases pieces.len(),
{
    if pieces.len() == 0 {
        r
    } else {
        pushed(pushed_all(r, pieces.drop_last()), pieces.last())
    }
}

/// Renders a streamed answer, and keeps the actions the terminal is to perform.
pub struct StreamRenderer {
    output: StreamOutput,
    palette: StreamPalette,
    started: bool,
    completed: bool,
    rendered_message: bool,
    in_subject_line: bool,
    in_thinking: bool,
    pending_tag: Vec<char>,
    actions: Vec<RenderAction>,
}

impl View for StreamRenderer {
    type V = RendererView;

    closed spec fn view(&self) -> RendererView {
        RendererView {
            output: self.output,
            palette: self.palette,
            started: self.started,
            completed: self.completed,
            tags: TagState {
                in_thinking: self.in_thinking,
                in_subject_line: self.in_subject_line,
                pending: self.pending_tag@,
                rendered: self.rendered_message,
            },
            actions: self.actions@.map_values(|a: RenderAction| action_view(a)),
        }
    }
}

/// Whether `pending` could still grow into `tag`.
fn is_tag_prefix(pending: &Vec<char>, tag: &str) -> (b: bool)
    ensures
        b == pending@.is_prefix_of(tag@),
{
    let t = chars_of(tag);
    if pending.len() > t.len() {
        return false;
    }
    let mut k: usize = 0;
    while k < pending.len()
        invariant
            k <= pending@.len() <= t@.len(),
            t@ == tag@,
            forall|i: int| 0 <= i < k ==> pending@[i] == t@[i],
        decreases pending@.len() - k,
    {
        if pending[k] != t[k] {
            return false;
        }
        k = k + 1;
    }
    assert(pending@ =~= t@.subrange(0, pending@.len() as int));
    true
}

impl StreamRenderer {
    /// A renderer for `output` that colours with `palette`.
    pub fn new(output: StreamOutput, palette: StreamPalette) -> (r: StreamRenderer)
        ensures
            r@ == (RendererView {
                output,
                palette,
                started: false,
                completed: false,
                tags: fresh_tags(),
                actions: Seq::empty(),
            }),
    {
        let r = StreamRenderer {
            output,
            palette,
            started: false,
            completed: false,
            rendered_message: false,
            in_subject_line: true,
            in_thinking: false,
            pending_tag: Vec::new(),
            actions: Vec::new(),
        };
        assert(r@.actions =~= Seq::empty());
        assert(r@.tags.pending =~= Seq::empty());
        r
    }

    /// Whether anything is shown.
    pub fn enabled(&self) -> (b: bool)
        ensures
            b == (self@.output == StreamOutput::Stdout),
    {
        self.output == StreamOutput::Stdout
    }

    /// Whether the last finished answer was shown in full.
    pub fn completed_render(&self) -> (b: bool)
        ensures
            b == self@.completed,
    {
        self.completed
    }

    /// Hands out the actions asked for so far, and forgets them.
    pub fn take_actions(&mut self) -> (r: Vec<RenderAction>)
        ensures
            r@.map_values(|a: RenderAction| action_view(a)) == old(self)@.actions,
            final(self)@ == (RendererView { actions: Seq::empty(), ..old(self)@ }),
    {
        let mut taken: Vec<RenderAction> = Vec::new();
        std::mem::swap(&mut taken, &mut self.actions);
        assert(self@.actions =~= Seq::empty());
        taken
    }

    fn record(&mut self, a: RenderAction)
        ensures
            final(self)@ == (RendererView {
                actions: old(self)@.actions.push(action_view(a)),
                ..old(self)@
            }),
    {
        self.actions.push(a);
        assert(self@.actions =~= old(self)@.actions.push(action_view(a)));
    }

    fn write_char(&mut self, out: &mut Vec<char>, ch: char)
        ensures
            final(self)@.tags == char_out(old(self)@.palette, old(self)@.tags, ch).0,
            final(out)@ == old(out)@ + char_out(old(self)@.palette, old(self)@.tags, ch).1,
            final(self)@.output == old(self)@.output,
            final(self)@.palette == old(self)@.palette,
            final(self)@.started == old(self)@.started,
            final(self)@.completed == old(self)@.completed,
            final(self)@.actions == old(self)@.actions,
    {
        self.rendered_message = true;
        let role = if self.in_thinking {
            StreamRole::Thinking
        } else if self.in_subject_line {
            StreamRole::Subject
        } else {
            StreamRole::Body
        };
        let prefix = self.palette.style_prefix(role);
        push_str(out, prefix.as_str());
        let ghost with_prefix = out@;
        if ch == '\n' {
            out.push('\n');
            let reset = self.palette.reset_text();
            assert(reset@ == reset_seq(self.palette)) by {
                reveal_strlit("");
            }
            push_str(out, reset);
            if !self.in_thinking {
                self.in_subject_line = false;
            }
            assert(out@ =~= with_prefix + "\n"@ + reset_seq(self.palette)) by {
                reveal_strlit("\n");
            }
        } else {
            out.push(ch);
        }
        assert(out@ =~= old(out)@ + char_out(old(self)@.palette, old(self)@.tags, ch).1);
        assert(self@.tags.pending == old(self)@.tags.pending);
    }

    /// Writes text of the stream, styled, and returns what was written: thinking
    /// sections between `<think>` and `</think>` in their own colour, the subject
    /// line and the body in theirs. A tag split across pieces is recognised.
    pub fn write_styled(&mut self, text: &str) -> (r: String)
        ensures
            (final(self)@.tags, r@) == styled_run(old(self)@.palette, old(self)@.tags, text@),
            final(self)@ == (RendererView { tags: final(self)@.tags, ..old(self)@ }),
    {
        let cs = chars_of(text);
        let mut out: Vec<char> = Vec::new();
        let mut k: usize = 0;
        while k < cs.len()
            invariant
                k <= cs@.len(),
                cs@ == text@,
                (self@.tags, out@) == styled_run(old(self)@.palette, old(self)@.tags, cs@.take(k as int)),
                self@ == (RendererView { tags: self@.tags, ..old(self)@ }),
            decreases cs@.len() - k,
        {
            let ghost before = self@.tags;
            let ghost written = out@;
            let ch = cs[k];
            assert(cs@.take(k + 1).drop_last() =~= cs@.take(k as int));
            assert(cs@.take(k + 1).last() == ch);
            self.tag_step(&mut out, ch);
            proof {
                let (t2, o2) = tag_step(old(self)@.palette, before, ch);
                assert(out@ =~= written + o2);
            }
            k = k + 1;
        }
        assert(cs@.take(k as int) =~= text@);
        string_of(out)
    }

    /// Shows a piece of the answer: the first piece starts the output; the thinking
    /// status line is cleared, then the piece is written, styled. Nothing is done
    /// for an empty piece or when nothing is shown.
    pub fn push(&mut self, text: &str)
        ensures
            final(self)@ == pushed(old(self)@, text@),
    {
        if text.is_empty() || !self.enabled() {
            return;
        }
        self.started = true;
        self.record(RenderAction::CompleteStatus);
        let written = self.write_styled(text);
        self.record(RenderAction::Write(written));
    }

    /// Adds reasoning text to the thinking status line.
    pub fn push_thinking(&mut self, text: &str)
        ensures
            text@.len() == 0 || old(self)@.output != StreamOutput::Stdout ==> final(self)@ == old(self)@,
            text@.len() > 0 && old(self)@.output == StreamOutput::Stdout ==> final(self)@ == (
            RendererView {
                started: true,
                actions: old(self)@.actions.push(ActionView::AppendThinking(text@)),
                ..old(self)@
            }),
    {
        if text.is_empty() || !self.enabled() {
            return;
        }
        self.started = true;
        self.record(RenderAction::AppendThinking(owned(text)));
    }

    /// Shows a placeholder in the thinking status line until reasoning text comes.
    pub fn show_thinking_status(&mut self, text: &str)
        ensures
            text@.len() == 0 || old(self)@.output != StreamOutput::Stdout ==> final(self)@ == old(self)@,
            text@.len() > 0 && old(self)@.output == StreamOutput::Stdout ==> final(self)@ == (
            RendererView {
                started: true,
                actions: old(self)@.actions.push(ActionView::ShowPlaceholder(text@)),
                ..old(self)@
            }),
    {
        if text.is_empty() || !self.enabled() {
            return;
        }
        self.started = true;
        self.record(RenderAction::ShowPlaceholder(owned(text)));
    }

    /// Ends a shown answer: the thinking status line finishes, a written message
    /// gets its closing reset and newline, and the renderer is ready for the next
    /// answer; whether a message was written is remembered as completed.
    pub fn finish(&mut self)
        ensures
            !old(self)@.started || old(self)@.output != StreamOutput::Stdout ==> final(self)@
                == old(self)@,
            old(self)@.started && old(self)@.output == StreamOutput::Stdout ==> final(self)@ == (
            RendererView {
                started: false,
                completed: old(self)@.tags.rendered,
                tags: fresh_tags(),
                actions: if old(self)@.tags.rendered {
                    old(self)@.actions.push(ActionView::CompleteStatus).push(
                        ActionView::Write(reset_seq(old(self)@.palette) + "\n"@),
                    )
                } else {
                    old(self)@.actions.push(ActionView::CompleteStatus)
                },
                ..old(self)@
            }),
    {
        if !self.started || !self.enabled() {
            return;
        }
        self.record(RenderAction::CompleteStatus);
        if self.rendered_message {
            let mut tail: Vec<char> = Vec::new();
            let reset = self.palette.reset_text();
            assert(reset@ == reset_seq(self.palette)) by {
                reveal_strlit("");
            }
            push_str(&mut tail, reset);
            push_str(&mut tail, "\n");
            self.record(RenderAction::Write(string_of(tail)));
        }
        self.started = false;
        self.completed = self.rendered_message;
        self.in_subject_line = true;
        self.in_thinking = false;
        self.pending_tag.clear();
        self.rendered_message = false;
        assert(self@.tags == fresh_tags());
    }

    /// Drops a partly shown answer (before a retry): the thinking status line is
    /// cleared at once and the renderer starts afresh.
    pub fn reset(&mut self)
        ensures
            final(self)@ == (RendererView {
                started: false,
                completed: false,
                tags: fresh_tags(),
                actions: if old(self)@.output == StreamOutput::Stdout {
                    old(self)@.actions.push(ActionView::AbortStatus)
                } else {
                    old(self)@.actions
                },
                ..old(self)@
            }),
    {
        if self.enabled() {
            self.record(RenderAction::AbortStatus);
        }
        self.started = false;
        self.completed = false;
        self.rendered_message = false;
        self.in_subject_line = true;
        self.in_thinking = false;
        self.pending_tag.clear();
        assert(self@.tags == fresh_tags());
    }

    fn tag_step(&mut self, out: &mut Vec<char>, ch: char)
        ensures
            final(self)@.tags == tag_step(old(self)@.palette, old(self)@.tags, ch).0,
            final(out)@ == old(out)@ + tag_step(old(self)@.palette, old(self)@.tags, ch).1,
            final(self)@ == (RendererView { tags: final(self)@.tags, ..old(self)@ }),
    {
        if self.pending_tag.len() == 0 {
            if ch == '<' {
                self.pending_tag.push(ch);
                assert(self.pending_tag@ =~= seq!['<']);
            } else {
                self.write_char(out, ch);
            }
            assert(out@ =~= old(out)@ + tag_step(old(self)@.palette, old(self)@.tags, ch).1);
            return;
        }
        self.pending_tag.push(ch);
        if !self.in_thinking {
            if is_tag_prefix(&self.pending_tag, OPEN_TAG) {
                if self.pending_tag.len() == 7 {
                    assert(self.pending_tag@ =~= OPEN_TAG@) by {
                        reveal_strlit("<think>");
                    }
                    self.in_thinking = true;
                    self.pending_tag.clear();
                } else {
                    assert(self.pending_tag@ != OPEN_TAG@) by {
                        reveal_strlit("<think>");
                    }
                }
                assert(out@ =~= old(out)@ + Seq::<char>::empty());
                return;
            }
            self.flush_open(out);
            return;
        }
        if is_tag_prefix(&self.pending_tag, CLOSE_TAG) {
            if self.pending_tag.len() == 8 {
                assert(self.pending_tag@ =~= CLOSE_TAG@) by {
                    reveal_strlit("</think>");
                }
                self.in_thinking = false;
                self.pending_tag.clear();
            } else {
                assert(self.pending_tag@ != CLOSE_TAG@) by {
                    reveal_strlit("</think>");
                }
            }
            assert(out@ =~= old(out)@ + Seq::<char>::empty());
            return;
        }
        let ghost pend = self.pending_tag@;
        let first = self.pending_tag.remove(0);
        assert(self.pending_tag@ =~= pend.drop_first());
        self.write_char(out, first);
    }

    fn flush_open(&mut self, out: &mut Vec<char>)
        ensures
            final(self)@.tags == flush_open(old(self)@.palette, old(self)@.tags).0,
            final(out)@ == old(out)@ + flush_open(old(self)@.palette, old(self)@.tags).1,
            final(self)@ == (RendererView { tags: final(self)@.tags, ..old(self)@ }),
        decreases old(self)@.tags.pending.len(),
    {
        if self.pending_tag.len() > 0 && !is_tag_prefix(&self.pending_tag, OPEN_TAG) {
            let ghost pend = self.pending_tag@;
            let ghost written = out@;
            let first = self.pending_tag.remove(0);
            assert(self.pending_tag@ =~= pend.drop_first());
            self.write_char(out, first);
            let ghost mid = self@.tags;
            self.flush_open(out);
            proof {
                let (t1, o1) = char_out(
                    old(self)@.palette,
                    with_pending(old(self)@.tags, pend.drop_first()),
                    pend[0],
                );
                assert(t1 == mid);
                assert(out@ =~= written + (o1 + flush_open(old(self)@.palette, mid).1));
            }
        } else {
            assert(out@ =~= old(out)@ + Seq::<char>::empty());
        }
    }
}

} // verus!
