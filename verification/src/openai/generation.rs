//! The order in which a commit message is asked for: the responses API first
//! (streamed when the answer is shown, again without streaming when the stream
//! breaks), then chat completions when the responses API is not there. The caller
//! makes each request; this decides which comes next.
use vstd::prelude::*;

use super::endpoints::ApiEndpointPreference;
use super::response::{should_retry_without_stream_message, stream_failure};
use super::stream::{RendererView, StreamRenderer, fresh_tags};
use super::transport::ApiAttemptError;
use super::{GenerationMetrics, StreamOutput};
use crate::message::{empty_message_error, first_line_of, long_subject_error, validate_message, MAX_SUBJECT_CHARS};
use crate::text::trim;

verus! {

/// One request of a generation.
#[derive(Clone, Copy, Debug, PartialEq, Eq, Structural)]
pub enum GenerationStep {
    /// The responses API, streamed.
    ResponsesStream,
    /// The responses API, not streamed.
    ResponsesPlain,
    /// Chat completions, streamed.
    ChatStream,
    /// Chat completions, not streamed.
    ChatPlain,
}

/// What to do next.
#[derive(Clone, Debug, PartialEq, Eq)]
pub enum GenerationAction {
    /// Make this request; first drop what the renderer showed, when asked to.
    Attempt { step: GenerationStep, reset_renderer: bool },
    /// The message is here.
    Finish(String),
    /// Generation failed with this error.
    Fail(String),
}

/// An action as plain values.
pub enum ActionPlan {
    Attempt(GenerationStep, bool),
    Finish(Seq<char>),
    Fail(Seq<char>),
}

pub open spec fn plan_of(a: GenerationAction) -> ActionPlan {
    match a {
        GenerationAction::Attempt { step, reset_renderer } => ActionPlan::Attempt(step, reset_renderer),
        GenerationAction::Finish(m) => ActionPlan::Finish(m@),
        GenerationAction::Fail(m) => ActionPlan::Fail(m@),
    }
}

/// The first responses request, or the first chat request.
pub open spec fn first_step(chat: bool, streaming: bool) -> GenerationStep {
    if chat {
        if streaming {
            GenerationStep::ChatStream
        } else {
            GenerationStep::ChatPlain
        }
    } else if streaming {
        GenerationStep::ResponsesStream
    } else {
        GenerationStep::ResponsesPlain
    }
}

/// Where a generation starts: with chat completions when the base names that
/// endpoint, else with the responses API.
pub open spec fn start_plan(pref: ApiEndpointPreference, streaming: bool) -> ActionPlan {
    ActionPlan::Attempt(first_step(pref == ApiEndpointPreference::ChatCompletionsOnly, streaming), false)
}

/// What a failed responses attempt leads to: chat completions (after dropping what
/// was shown) when both endpoints are allowed and the failure falls back; otherwise
/// the failure.
pub open spec fn after_responses_failure(
    pref: ApiEndpointPreference,
    streaming: bool,
    message: Seq<char>,
    should_fallback: bool,
) -> ActionPlan {
    if pref == ApiEndpointPreference::Auto && should_fallback {
        ActionPlan::Attempt(first_step(true, streaming), true)
    } else {
        ActionPlan::Fail(message)
    }
}

/// What the result of a request leads to. A message ends the generation. A broken
/// stream is asked again without streaming. A failed responses request without
/// streaming falls back; a failed streamed one falls back as its error says. A
/// failed chat request fails the generation.
pub open spec fn next_plan(
    pref: ApiEndpointPreference,
    streaming: bool,
    step: GenerationStep,
    result: Result<Seq<char>, (Seq<char>, bool)>,
) -> ActionPlan {
    match result {
        Ok(m) => ActionPlan::Finish(m),
        Err((message, should_fallback)) => match step {
            GenerationStep::ResponsesStream => if stream_failure(message) {
                ActionPlan::Attempt(GenerationStep::ResponsesPlain, false)
            } else {
                after_responses_failure(pref, streaming, message, should_fallback)
            },
            GenerationStep::ResponsesPlain => after_responses_failure(pref, streaming, message, true),
            GenerationStep::ChatStream => if stream_failure(message) {
                ActionPlan::Attempt(GenerationStep::ChatPlain, false)
            } else {
                ActionPlan::Fail(message)
            },
            GenerationStep::ChatPlain => ActionPlan::Fail(message),
        },
    }
}

pub open spec fn result_view(r: Result<String, ApiAttemptError>) -> Result<Seq<char>, (Seq<char>, bool)> {
    match r {
        Ok(m) => Ok(m@),
        Err(e) => Err((e.message@, e.should_fallback)),
    }
}

/// The order of the requests of one generation.
pub struct GenerationFlow {
    preference: ApiEndpointPreference,
    streaming: bool,
    current: GenerationStep,
}

impl GenerationFlow {
    pub closed spec fn preference(&self) -> ApiEndpointPreference {
        self.preference
    }

    pub closed spec fn streaming(&self) -> bool {
        self.streaming
    }

    /// The request being made.
    pub closed spec fn current(&self) -> GenerationStep {
        self.current
    }

    /// Starts a generation for a base's endpoint preference; requests are streamed
    /// when the answer is shown.
    pub fn start(preference: ApiEndpointPreference, streaming: bool) -> (r: (
        GenerationFlow,
        GenerationAction,
    ))
        ensures
            plan_of(r.1) == start_plan(preference, streaming),
            r.0.preference() == preference,
            r.0.streaming() == streaming,
            r.1 matches GenerationAction::Attempt { step, .. } && r.0.current() == step,
    {
        let chat = preference == ApiEndpointPreference::ChatCompletionsOnly;
        let step = if chat {
            if streaming {
                GenerationStep::ChatStream
            } else {
                GenerationStep::ChatPlain
            }
        } else if streaming {
            GenerationStep::ResponsesStream
        } else {
            GenerationStep::ResponsesPlain
        };
        (
            GenerationFlow { preference, streaming, current: step },
            GenerationAction::Attempt { step, reset_renderer: false },
        )
    }

    fn responses_failed(&mut self, error: ApiAttemptError, should_fallback: bool) -> (a:
        GenerationAction)
        ensures
            plan_of(a) == after_responses_failure(
                old(self).preference(),
                old(self).streaming(),
                error.message@,
                should_fallback,
            ),
            final(self).preference() == old(self).preference(),
            final(self).streaming() == old(self).streaming(),
            a matches GenerationAction::Attempt { step, .. } ==> final(self).current() == step,
    {
        if self.preference == ApiEndpointPreference::Auto && should_fallback {
            let step = if self.streaming {
                GenerationStep::ChatStream
            } else {
                GenerationStep::ChatPlain
            };
            self.current = step;
            GenerationAction::Attempt { step, reset_renderer: true }
        } else {
            GenerationAction::Fail(error.message)
        }
    }

    /// Takes the result of the request being made (a chat failure counts as one that
    /// does not fall back) and says what to do next.
    pub fn on_result(&mut self, result: Result<String, ApiAttemptError>) -> (a: GenerationAction)
        ensures
            plan_of(a) == next_plan(
                old(self).preference(),
                old(self).streaming(),
                old(self).current(),
                result_view(result),
            ),
            final(self).preference() == old(self).preference(),
            final(self).streaming() == old(self).streaming(),
            a matches GenerationAction::Attempt { step, .. } ==> final(self).current() == step,
    {
        let error = match result {
            Ok(m) => {
                return GenerationAction::Finish(m);
            },
            Err(e) => e,
        };
        match self.current {
            GenerationStep::ResponsesStream => {
                if should_retry_without_stream_message(error.message.as_str()) {
                    self.current = GenerationStep::ResponsesPlain;
                    GenerationAction::Attempt {
                        step: GenerationStep::ResponsesPlain,
                        reset_renderer: false,
                    }
                } else {
                    let fallback = error.should_fallback;
                    self.responses_failed(error, fallback)
                }
            },
            GenerationStep::ResponsesPlain => self.responses_failed(error, true),
            GenerationStep::ChatStream => {
                if should_retry_without_stream_message(error.message.as_str()) {
                    self.current = GenerationStep::ChatPlain;
                    GenerationAction::Attempt { step: GenerationStep::ChatPlain, reset_renderer: false }
                } else {
                    GenerationAction::Fail(error.message)
                }
            },
            GenerationStep::ChatPlain => GenerationAction::Fail(error.message),
        }
    }
}

/// The renderer after a finished answer, as `StreamRenderer::finish` leaves it.
pub open spec fn finished(r: RendererView) -> RendererView {
    if !r.started || r.output != StreamOutput::Stdout {
        r
    } else {
        RendererView { started: false, completed: r.tags.rendered, tags: fresh_tags(), ..r }
    }
}

/// Ends a generation with its message: the renderer finishes, then the message is
/// checked (not empty, subject within 72 characters) and returned with how long the
/// API took and whether the streamed message was shown in full.
pub fn finish_generation(renderer: &mut StreamRenderer, message: String, api_duration_ms: u64) -> (r:
    Result<(String, GenerationMetrics), String>)
    ensures
        final(renderer)@.completed == finished(old(renderer)@).completed,
        final(renderer)@.started == finished(old(renderer)@).started,
        trim(message@).len() > 0 && first_line_of(message@).len() <= MAX_SUBJECT_CHARS ==> (r matches Ok(
            (m, metrics),
        ) && m == message && metrics.api_duration_ms == api_duration_ms
            && metrics.streamed_render_completed == final(renderer)@.completed),
        trim(message@).len() == 0 ==> (r matches Err(e) && e@ == empty_message_error()),
        trim(message@).len() > 0 && first_line_of(message@).len() > MAX_SUBJECT_CHARS ==> (r matches Err(
            e,
        ) && e@ == long_subject_error()),
{
    renderer.finish();
    match validate_message(message.as_str()) {
        Ok(()) => {
            let metrics = GenerationMetrics {
                api_duration_ms,
                streamed_render_completed: renderer.completed_render(),
            };
            Ok((message, metrics))
        },
        Err(e) => Err(e),
    }
}

} // verus!
