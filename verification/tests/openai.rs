use git_ai_commit_core::openai::response::{
    should_fallback_from_empty_responses_payload, should_fallback_from_responses,
    should_fallback_from_responses_message, should_retry_without_stream_message,
};
use git_ai_commit_core::openai::sse::{
    find_sse_event_boundary, format_stream_error, preview_text, take_next_sse_payload,
    take_next_sse_payload_with_eof, SseReader, SseStats,
};
use git_ai_commit_core::openai::stream_palette::{matches_truecolor_hint, StreamPalette, StreamRole};
use git_ai_commit_core::openai::thinking::{
    pad_right, scrolling_window_text, spinner_frame, status_line_text, ThinkingState,
};
use git_ai_commit_core::openai::StreamOutput;

#[test]
fn falls_back_when_responses_endpoint_is_unsupported() {
    assert!(should_fallback_from_responses(
        404,
        "responses request failed with status 404: unknown path /v1/responses",
    ));
    assert!(should_fallback_from_responses(
        400,
        "unsupported endpoint: /v1/responses is not supported",
    ));
    assert!(!should_fallback_from_responses(401, "invalid api key"));
}

#[test]
fn infers_fallback_from_sdk_error_message_when_status_missing() {
    assert!(should_fallback_from_responses_message(
        "unsupported endpoint: /v1/responses is not supported"
    ));
    assert!(should_fallback_from_responses_message(
        "responses request failed with status 404: unknown path /v1/responses"
    ));
    assert!(!should_fallback_from_responses_message("invalid api key"));
    assert!(!should_fallback_from_responses_message(
        "http error: error sending request for url (https://ai.cloud1ful.com/v1/responses)"
    ));
}

#[test]
fn retries_without_stream_for_stream_transport_decode_failures() {
    assert!(should_retry_without_stream_message(
        "stream failed: EventStream error: Transport error: error decoding response body"
    ));
    assert!(should_retry_without_stream_message(
        "EventStream error: Transport error"
    ));
    assert!(!should_retry_without_stream_message("invalid api key"));
}

#[test]
fn does_not_fallback_on_model_not_found_status_alone() {
    assert!(!should_fallback_from_responses(
        404,
        "The model `missing-model` does not exist"
    ));
}

#[test]
fn fallback_statuses_decide_without_the_message() {
    for status in [405u16, 415, 501] {
        assert!(should_fallback_from_responses(status, "anything"));
    }
    assert!(!should_fallback_from_responses(500, "not supported"));
    assert!(should_fallback_from_responses(422, "Method Not Allowed"));
    assert!(should_fallback_from_empty_responses_payload(
        "responses request returned no output text"
    ));
    assert!(!should_fallback_from_empty_responses_payload("no output"));
}

#[test]
fn includes_progress_and_tail_preview_in_error_message() {
    let stats = SseStats {
        chunk_count: 3,
        total_bytes: 128,
        event_count: 7,
        content_type: Some("application/json".to_string()),
        last_payload_preview: Some("{\"type\":\"response.reasoning_text.delta\"}".to_string()),
    };

    let message = format_stream_error(
        "stream failed: error decoding response body",
        &stats,
        Some("{\"dangling\":true}".to_string()),
    );

    assert!(message.contains("after 3 chunks, 128 bytes, 7 SSE events"));
    assert!(message.contains("content-type: application/json"));
    assert!(message.contains("last SSE payload preview"));
    assert!(message.contains("response tail preview"));
}

#[test]
fn rejects_non_sse_body_at_eof() {
    let mut buffer = br#"{"id":"resp_123","output_text":"feat: add parser"}"#.to_vec();
    let err = take_next_sse_payload_with_eof(&mut buffer).unwrap_err();

    assert_eq!(
        err,
        "stream failed: provider returned non-SSE response body while stream=true"
    );
}

#[test]
fn stream_error_lists_only_known_parts() {
    let stats = SseStats {
        chunk_count: 0,
        total_bytes: 0,
        event_count: 0,
        content_type: None,
        last_payload_preview: None,
    };
    assert_eq!(
        format_stream_error("boom", &stats, None),
        "boom (after 0 chunks, 0 bytes, 0 SSE events)"
    );
}

#[test]
fn events_are_cut_at_blank_lines_and_data_lines_joined() {
    assert_eq!(find_sse_event_boundary(b"data: a\n\ndata: b"), Some((7, 2)));
    assert_eq!(find_sse_event_boundary(b"data: a\r\n\r\nrest"), Some((7, 4)));
    assert_eq!(find_sse_event_boundary(b"data: a\n"), None);

    let mut buffer = b"event: x\ndata: one\ndata:  two\n\n: ping\n\ndata: [DONE]".to_vec();
    assert_eq!(
        take_next_sse_payload(&mut buffer).unwrap(),
        Some("one\ntwo".to_string())
    );
    assert_eq!(take_next_sse_payload(&mut buffer).unwrap(), None);
    assert_eq!(take_next_sse_payload(&mut buffer).unwrap(), None);
    assert_eq!(buffer, b"data: [DONE]".to_vec());
    assert_eq!(
        take_next_sse_payload_with_eof(&mut buffer).unwrap(),
        Some("[DONE]".to_string())
    );
    assert!(buffer.is_empty());
    assert_eq!(take_next_sse_payload_with_eof(&mut buffer).unwrap(), None);
}

#[test]
fn invalid_utf8_payload_is_an_error() {
    let mut buffer = vec![b'd', b'a', b't', b'a', b':', 0xff, b'\n', b'\n'];
    let err = take_next_sse_payload(&mut buffer).unwrap_err();
    assert!(err.starts_with("stream failed: invalid utf8 SSE payload: "));
    assert!(buffer.is_empty());
}

#[test]
fn previews_collapse_whitespace_and_cut_long_text() {
    assert_eq!(preview_text("  a \n\t b  "), "a b");
    let long = "x".repeat(300);
    let p = preview_text(&long);
    assert_eq!(p.chars().count(), 243);
    assert!(p.ends_with("..."));
}

#[test]
fn reader_counts_chunks_and_events() {
    let mut reader = SseReader::new(Some("text/event-stream".to_string()));
    reader.push_chunk(b"data: {\"a\":1}\n");
    assert_eq!(reader.next_payload(false).unwrap(), None);
    reader.push_chunk(b"\ndata: tail");
    assert_eq!(reader.next_payload(false).unwrap(), Some("{\"a\":1}".to_string()));
    assert_eq!(reader.stats.chunk_count, 2);
    assert_eq!(reader.stats.event_count, 1);
    assert_eq!(reader.stats.last_payload_preview.as_deref(), Some("{\"a\":1}"));
    let err = reader.stream_error("stream failed: boom");
    assert!(err.contains("after 2 chunks, 25 bytes, 1 SSE events"));
    assert!(err.contains("response tail preview: data: tail"));
    assert_eq!(reader.next_payload(true).unwrap(), Some("tail".to_string()));
}

#[test]
fn recognizes_truecolor_hints() {
    assert!(matches_truecolor_hint("truecolor"));
    assert!(matches_truecolor_hint("24bit"));
    assert!(matches_truecolor_hint("xterm-direct"));
    assert!(!matches_truecolor_hint("xterm-256color"));
}

#[test]
fn truecolor_palette_reports_color_capabilities() {
    assert!(StreamPalette::TrueColor.colors_enabled());
    assert!(StreamPalette::TrueColor.supports_truecolor());
    assert!(!StreamPalette::Ansi.supports_truecolor());
    assert!(!StreamPalette::Plain.colors_enabled());
}

#[test]
fn palette_follows_the_terminal_settings() {
    assert_eq!(
        StreamPalette::detect_with(StreamOutput::Silent, false, Some("xterm"), Some("truecolor")),
        StreamPalette::Plain
    );
    assert_eq!(
        StreamPalette::detect_with(StreamOutput::Stdout, true, None, None),
        StreamPalette::Plain
    );
    assert_eq!(
        StreamPalette::detect_with(StreamOutput::Stdout, false, Some("DUMB"), Some("truecolor")),
        StreamPalette::Plain
    );
    assert_eq!(
        StreamPalette::detect_with(StreamOutput::Stdout, false, Some("xterm"), Some("24bit")),
        StreamPalette::TrueColor
    );
    assert_eq!(
        StreamPalette::detect_with(StreamOutput::Stdout, false, Some("xterm-256color"), None),
        StreamPalette::Ansi
    );
    assert_eq!(
        StreamPalette::TrueColor.style_prefix(StreamRole::Subject),
        "\x1b[38;2;120;200;255m"
    );
    assert_eq!(StreamPalette::Ansi.style_prefix(StreamRole::Thinking), "\x1b[90m");
    assert_eq!(StreamPalette::Plain.style_prefix(StreamRole::Body), "");
    assert_eq!(StreamPalette::Plain.reset_text(), "");
    assert_eq!(StreamPalette::Ansi.reset_text(), "\x1b[0m");
}

#[test]
fn short_status_text_is_padded_to_fixed_width() {
    let status = scrolling_window_text("considering diff", 0);
    assert_eq!(status.chars().count(), 56);
    assert!(status.starts_with("considering diff"));
}

#[test]
fn long_status_text_scrolls_over_time() {
    let text =
        "considering staged changes and summarizing the diff in a compact way for terminal display";
    let status_a = scrolling_window_text(text, 0);
    let status_b = scrolling_window_text(text, 24);
    assert_eq!(status_a.chars().count(), 56);
    assert_eq!(status_b.chars().count(), 56);
    assert_ne!(status_a, status_b);
}

#[test]
fn placeholder_is_replaced_when_reasoning_text_arrives() {
    let mut state = ThinkingState {
        text: "drafting commit message".to_string(),
        has_reasoning_text: false,
    };
    if !state.has_reasoning_text {
        state.text.clear();
        state.has_reasoning_text = true;
    }
    state.text.push_str("considering diff");
    assert_eq!(state.text, "considering diff");
}

#[test]
fn thinking_state_methods_replace_the_placeholder_once() {
    let mut state = ThinkingState {
        text: String::new(),
        has_reasoning_text: false,
    };
    state.set_placeholder("drafting commit message".to_string());
    state.append_reasoning("considering");
    state.append_reasoning(" diff");
    assert_eq!(state.text, "considering diff");
    assert!(state.has_reasoning_text);
}

#[test]
fn status_window_wraps_round_with_a_gap() {
    assert_eq!(scrolling_window_text("   ", 5), "");
    assert_eq!(pad_right("ab".to_string(), 4), "ab  ");
    assert_eq!(pad_right("abcdef".to_string(), 4), "abcdef");
    let text = "y".repeat(60);
    let window = scrolling_window_text(&text, 2 * 60);
    assert_eq!(window, format!("{}{}", " ".repeat(8), "y".repeat(48)));
    assert_eq!(status_line_text("", 0), "thinking");
    assert!(status_line_text("a  b", 0).starts_with("thinking: a b"));
    assert_eq!(spinner_frame(0), "⠋");
    assert_eq!(spinner_frame(11), "⠙");
}

/// Reads every payload of a body, as the stream reader does for a body that arrives
/// whole; `on_payload` says whether to go on.
fn parse_sse_payloads(
    body: &str,
    mut on_payload: impl FnMut(&str) -> Result<bool, String>,
) -> Result<(), String> {
    let mut reader = SseReader::new(None);
    reader.push_chunk(body.as_bytes());
    for eof in [false, true] {
        while let Some(payload) = reader.next_payload(eof)? {
            if !on_payload(&payload)? {
                return Ok(());
            }
        }
    }
    Ok(())
}

#[test]
fn parses_sse_payloads() {
    let body = [
        "data: {\"choices\":[{\"delta\":{\"content\":\"feat:\"}}]}\n\n",
        "data: {\"choices\":[{\"delta\":{\"content\":\" add parser\"}}]}\n\n",
        "data: [DONE]\n",
    ]
    .concat();
    let mut seen = Vec::new();
    parse_sse_payloads(&body, |payload| {
        seen.push(payload.to_string());
        Ok(payload != "[DONE]")
    })
    .unwrap();
    assert_eq!(
        seen,
        vec![
            "{\"choices\":[{\"delta\":{\"content\":\"feat:\"}}]}".to_string(),
            "{\"choices\":[{\"delta\":{\"content\":\" add parser\"}}]}".to_string(),
            "[DONE]".to_string()
        ]
    );
}
