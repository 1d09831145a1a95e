//! Talking to OpenAI-compatible providers: endpoints, answers and streams.
pub mod context;
pub mod diagnostics;
pub mod endpoints;
pub mod generation;
pub mod json;
pub mod response;
pub mod response_stream;
pub mod response_text;
pub mod sse;
pub mod stream;
pub mod stream_palette;
pub mod thinking;
pub mod transport;

use vstd::prelude::*;

verus! {

/// What a generation reports besides the message: how long the API took, and
/// whether the streamed message was already rendered in full.
#[derive(Clone, Copy, Debug)]
pub struct GenerationMetrics {
    pub api_duration_ms: u64,
    pub streamed_render_completed: bool,
}

impl Default for GenerationMetrics {
    fn default() -> (m: GenerationMetrics)
        ensures
            m.api_duration_ms == 0 && !m.streamed_render_completed,
    {
        GenerationMetrics { api_duration_ms: 0, streamed_render_completed: false }
    }
}

/// Where a streamed answer is shown: nowhere, or on stdout.
#[derive(Clone, Copy, Debug, PartialEq, Eq, Structural)]
pub enum StreamOutput {
    Silent,
    Stdout,
}

} // verus!
