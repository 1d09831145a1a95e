use async_openai::types::responses::{CreateResponseArgs, InputParam};
use git_ai_commit_core::anthropic::{ContentBlock, MessagesResponse};
use git_ai_commit_core::config::resolve::default_redaction_rules;
use git_ai_commit_core::config::provider::Provider;
use git_ai_commit_core::config::types::{Config, ReasoningEffort};
use git_ai_commit_core::openai::json::{compact_json, JsonValue};
use git_ai_commit_core::openai::response_stream::{
    append_response_stream_event_text, required_str, required_u32, ResponseTextAccumulator,
};
use git_ai_commit_core::openai::response_text::{
    extract_chat_message, extract_chat_stream_delta, extract_error_message,
    extract_response_output_text, extract_response_text, extract_response_text_value,
    value_as_text,
};
use git_ai_commit_core::openai::stream::{RenderAction, StreamRenderer};
use git_ai_commit_core::openai::stream_palette::StreamPalette;
use git_ai_commit_core::openai::transport::{
    append_last_event_context, apply_provider_body_defaults, finalize_responses_stream_result,
    request_body, ChatStreamCollector, EndpointKind, ResponsesStreamCollector, TransportEndpoint,
};
use git_ai_commit_core::openai::StreamOutput;
use serde_json::Value;

fn from_serde(v: &Value) -> JsonValue {
    match v {
        Value::Null => JsonValue::Null,
        Value::Bool(b) => JsonValue::Bool(*b),
        Value::Number(n) => JsonValue::Number(n.to_string()),
        Value::String(s) => JsonValue::Str(s.clone()),
        Value::Array(items) => JsonValue::Array(items.iter().map(from_serde).collect()),
        Value::Object(map) => {
            JsonValue::Object(map.iter().map(|(k, x)| (k.clone(), from_serde(x))).collect())
        }
    }
}

fn json(text: &str) -> JsonValue {
    from_serde(&serde_json::from_str::<Value>(text).expect("test JSON"))
}

fn sample_config(reasoning_effort: ReasoningEffort) -> Config {
    Config {
        provider: Provider::OpenAiCompatible,
        api_base: "https://ai.cloud1ful.com/v1".to_string(),
        api_key: "token".to_string(),
        model: "gpt-4.1-mini".to_string(),
        confirm_commit: true,
        open_editor: false,
        enable_fallback: false,
        redact_secrets: true,
        redaction_rules: default_redaction_rules(),
        show_timing: true,
        use_env_proxy: false,
        timeout_secs: 15,
        max_diff_tokens: 16_000,
        max_diff_tokens_explicit: false,
        model_context_tokens: None,
        reasoning_effort,
        suppress_diff_dirs: vec!["sqlx".to_string()],
    }
}

fn silent_renderer() -> StreamRenderer {
    StreamRenderer::new(StreamOutput::Silent, StreamPalette::Plain)
}

fn strip_ansi(input: &str) -> String {
    let mut out = String::new();
    let mut chars = input.chars().peekable();
    while let Some(ch) = chars.next() {
        if ch == '\x1b' && chars.peek() == Some(&'[') {
            chars.next();
            for next in chars.by_ref() {
                if next.is_ascii_alphabetic() {
                    break;
                }
            }
            continue;
        }
        out.push(ch);
    }
    out
}

#[test]
fn extracts_response_text_from_output_items() {
    let payload = json(
        r#"{"output": [{"type": "message", "id": "msg_1",
            "content": [{"type": "output_text", "text": "feat: add parser"}]}]}"#,
    );
    assert_eq!(extract_response_text(&payload).unwrap(), "feat: add parser");
}

#[test]
fn extracts_chat_message_from_json_content() {
    let payload = json(r#"{"choices": [{"message": {"content": "feat: add parser"}}]}"#);
    assert_eq!(extract_chat_message(&payload).unwrap(), "feat: add parser");
}

#[test]
fn deduplicates_delta_done_and_output_item_events() {
    let mut renderer = silent_renderer();
    let mut accumulator = ResponseTextAccumulator::new();
    for event in [
        r#"{"type": "response.output_text.delta", "item_id": "msg_1", "output_index": 0,
            "content_index": 0, "delta": "feat: add parser"}"#,
        r#"{"type": "response.output_text.done", "item_id": "msg_1", "output_index": 0,
            "content_index": 0, "text": "feat: add parser"}"#,
        r#"{"type": "response.content_part.done", "item_id": "msg_1", "output_index": 0,
            "content_index": 0, "part": {"type": "output_text", "text": "feat: add parser"}}"#,
        r#"{"type": "response.output_item.done", "output_index": 0,
            "item": {"type": "message", "id": "msg_1",
                     "content": [{"type": "output_text", "text": "feat: add parser"}]}}"#,
    ] {
        let result = append_response_stream_event_text(&json(event), &mut renderer, &mut accumulator);
        assert_eq!(result.unwrap(), None);
    }
    assert_eq!(accumulator.content(), "feat: add parser");
}

#[test]
fn backfills_done_only_stream_parts_once_in_order() {
    let mut renderer = silent_renderer();
    let mut accumulator = ResponseTextAccumulator::new();
    for event in [
        r#"{"type": "response.content_part.done", "item_id": "msg_2", "output_index": 0,
            "content_index": 0,
            "part": {"type": "output_text", "text": "refactor: rewrite provider path\n\n"}}"#,
        r#"{"type": "response.content_part.done", "item_id": "msg_2", "output_index": 0,
            "content_index": 1,
            "part": {"type": "output_text",
                     "text": "Prefer responses first and retry chat as fallback."}}"#,
        r#"{"type": "response.output_item.done", "output_index": 0,
            "item": {"type": "message", "id": "msg_2", "content": [
                {"type": "output_text", "text": "refactor: rewrite provider path\n\n"},
                {"type": "output_text",
                 "text": "Prefer responses first and retry chat as fallback."}]}}"#,
    ] {
        let result = append_response_stream_event_text(&json(event), &mut renderer, &mut accumulator);
        assert_eq!(result.unwrap(), None);
    }
    assert_eq!(
        accumulator.content(),
        "refactor: rewrite provider path\n\nPrefer responses first and retry chat as fallback."
    );
}

#[test]
fn backfills_output_text_from_content_part_added_events() {
    let mut renderer = silent_renderer();
    let mut accumulator = ResponseTextAccumulator::new();
    for event in [
        r#"{"type": "response.output_item.added", "output_index": 0,
            "item": {"type": "message", "id": "msg_1", "content": []}}"#,
        r#"{"type": "response.content_part.added", "item_id": "msg_1", "output_index": 0,
            "content_index": 0, "part": {"type": "output_text", "text": "feat: add parser"}}"#,
    ] {
        let result = append_response_stream_event_text(&json(event), &mut renderer, &mut accumulator);
        assert_eq!(result.unwrap(), None);
    }
    assert_eq!(accumulator.content(), "feat: add parser");
}

#[test]
fn output_item_added_with_message_content_is_extracted_once() {
    let mut renderer = silent_renderer();
    let mut accumulator = ResponseTextAccumulator::new();
    let event = json(
        r#"{"type": "response.output_item.added", "output_index": 0,
            "item": {"type": "message", "id": "msg_2",
                     "content": [{"type": "output_text", "text": "refactor: rewrite provider path"}]}}"#,
    );
    let result = append_response_stream_event_text(&event, &mut renderer, &mut accumulator);
    assert_eq!(result.unwrap(), None);
    assert_eq!(accumulator.content(), "refactor: rewrite provider path");
}

#[test]
fn deltas_are_shown_as_they_arrive() {
    let mut renderer = StreamRenderer::new(StreamOutput::Stdout, StreamPalette::Plain);
    let mut accumulator = ResponseTextAccumulator::new();
    for event in [
        r#"{"type": "response.output_text.delta", "item_id": "m", "output_index": 0,
            "content_index": 0, "delta": "fix: "}"#,
        r#"{"type": "response.output_text.delta", "item_id": "m", "output_index": 0,
            "content_index": 0, "delta": "typo"}"#,
        r#"{"type": "response.output_text.done", "item_id": "m", "output_index": 0,
            "content_index": 0, "text": "fix: typo"}"#,
    ] {
        append_response_stream_event_text(&json(event), &mut renderer, &mut accumulator).unwrap();
    }
    assert_eq!(accumulator.content(), "fix: typo");
    assert_eq!(
        renderer.take_actions(),
        vec![
            RenderAction::CompleteStatus,
            RenderAction::Write("fix: ".to_string()),
            RenderAction::CompleteStatus,
            RenderAction::Write("typo".to_string()),
        ]
    );
}

#[test]
fn stream_events_missing_fields_are_refused() {
    let mut renderer = silent_renderer();
    let mut accumulator = ResponseTextAccumulator::new();
    let event = json(r#"{"type": "response.output_text.delta", "item_id": "m", "output_index": 0}"#);
    assert_eq!(
        append_response_stream_event_text(&event, &mut renderer, &mut accumulator),
        Err("responses stream event missing integer field content_index".to_string())
    );
    let event = json(r#"{"type": "response.output_item.done", "output_index": 3}"#);
    assert_eq!(
        append_response_stream_event_text(&event, &mut renderer, &mut accumulator),
        Err("responses stream event missing item".to_string())
    );
    assert_eq!(accumulator.content(), "");
    let event = json(r#"{"output_index": -1, "name": 7, "big": 4294967296, "ok": 4294967295}"#);
    assert!(required_u32(&event, "output_index").is_err());
    assert!(required_u32(&event, "big").is_err());
    assert_eq!(required_u32(&event, "ok"), Ok(4_294_967_295));
    assert_eq!(
        required_str(&event, "name"),
        Err("responses stream event missing string field name".to_string())
    );
}

#[test]
fn error_events_report_their_message() {
    let mut renderer = silent_renderer();
    let mut accumulator = ResponseTextAccumulator::new();
    let event = json(r#"{"type": "error", "error": {"code": 429, "message": "rate limited"}}"#);
    assert_eq!(
        append_response_stream_event_text(&event, &mut renderer, &mut accumulator),
        Ok(Some("rate limited".to_string()))
    );
    let event = json(r#"{"type": "response.error", "message": "boom"}"#);
    assert_eq!(extract_error_message(&event), Some("boom".to_string()));
    let event = json(r#"{"error": {"code": 500, "type": "server \"error\""}}"#);
    assert_eq!(
        extract_error_message(&event),
        Some(r#"{"code":500,"type":"server \"error\""}"#.to_string())
    );
    assert_eq!(extract_error_message(&json(r#"{"type": "ping"}"#)), None);
}

#[test]
fn compact_json_matches_serde() {
    let text = r#"{"b": [1, 2.5, -3, null, true], "a": {"x": "y\n"}, "c": "é"}"#;
    let value: Value = serde_json::from_str(text).unwrap();
    assert_eq!(compact_json(&from_serde(&value)), value.to_string());
}

#[test]
fn chat_content_may_be_an_array_of_parts() {
    let content = json(r#"[{"type": "text", "text": "feat: "}, "add", {"other": 1}]"#);
    assert_eq!(value_as_text(&content), Some("feat: add".to_string()));
    assert_eq!(value_as_text(&json("[]")), None);
    assert_eq!(value_as_text(&json("12")), None);
    let event = json(
        r#"{"choices": [{"delta": {"content": "feat"}}, {"delta": {"role": "assistant"}},
                        {"delta": {"content": ": add"}}]}"#,
    );
    assert_eq!(extract_chat_stream_delta(&event), "feat: add");
    assert_eq!(extract_chat_stream_delta(&json(r#"{"choices": 3}"#)), "");
}

#[test]
fn responses_answers_without_text_are_refused() {
    assert_eq!(
        extract_response_text(&json(r#"{"output_text": "```\n```"}"#)),
        Err("responses request returned no output text".to_string())
    );
    assert_eq!(
        extract_response_text(&json(r#"{"output_text": "fix: x", "output": []}"#)),
        Ok("fix: x".to_string())
    );
    assert_eq!(
        extract_chat_message(&json(r#"{"choices": []}"#)),
        Err("chat completion returned no choices".to_string())
    );
    let reasoning_only = json(r#"{"output": [{"type": "reasoning", "content": []}]}"#);
    assert_eq!(extract_response_output_text(&reasoning_only), None);
    assert_eq!(extract_response_text_value(&reasoning_only), None);
    let item = json(r#"{"type": "message", "content": [{"type": "output_text", "text": "a"}]}"#);
    assert_eq!(extract_response_text_value(&item), Some("a".to_string()));
}

#[test]
fn adds_minimal_reasoning_for_all_responses_requests() {
    let cfg = sample_config(ReasoningEffort::Low);
    let mut body = json(r#"{"model": "gpt-4.1-mini", "input": "hello"}"#);
    apply_provider_body_defaults(&cfg, EndpointKind::Responses, &mut body);
    assert_eq!(body.get("reasoning"), Some(&json(r#"{"effort": "low"}"#)));
}

#[test]
fn does_not_override_explicit_reasoning() {
    let cfg = sample_config(ReasoningEffort::Low);
    let mut body = json(r#"{"model": "gpt-4.1-mini", "reasoning": {"effort": "high"}}"#);
    apply_provider_body_defaults(&cfg, EndpointKind::Responses, &mut body);
    assert_eq!(body.get("reasoning"), Some(&json(r#"{"effort": "high"}"#)));
}

#[test]
fn leaves_chat_requests_unchanged() {
    let cfg = sample_config(ReasoningEffort::Low);
    let mut body = json(r#"{"model": "gpt-4.1-mini", "messages": []}"#);
    apply_provider_body_defaults(&cfg, EndpointKind::ChatCompletions, &mut body);
    assert!(body.get("reasoning").is_none());
}

#[test]
fn responses_body_sets_default_reasoning_effort_to_none() {
    let cfg = sample_config(ReasoningEffort::Off);
    let request = CreateResponseArgs::default()
        .model("gpt-4.1-mini")
        .input(InputParam::Text("hello".to_string()))
        .build()
        .expect("request");
    let serialized = from_serde(&serde_json::to_value(&request).expect("serialize"));
    let body = request_body(&cfg, serialized, false, TransportEndpoint::Responses.endpoint_kind());
    assert_eq!(body.get("reasoning"), Some(&json(r#"{"effort": "none"}"#)));
}

#[test]
fn responses_body_preserves_explicit_reasoning() {
    let cfg = sample_config(ReasoningEffort::Off);
    let body = request_body(
        &cfg,
        json(r#"{"model": "gpt-4.1-mini", "reasoning": {"effort": "high"}}"#),
        false,
        TransportEndpoint::Responses.endpoint_kind(),
    );
    assert_eq!(body.get("reasoning"), Some(&json(r#"{"effort": "high"}"#)));
}

#[test]
fn streamed_requests_are_marked() {
    let cfg = sample_config(ReasoningEffort::Medium);
    let body = request_body(
        &cfg,
        json(r#"{"model": "m", "stream": false}"#),
        true,
        EndpointKind::ChatCompletions,
    );
    assert_eq!(body.get("stream"), Some(&JsonValue::Bool(true)));
    assert_eq!(body.get("model"), Some(&JsonValue::Str("m".to_string())));
    assert!(body.get("reasoning").is_none());
}

#[test]
fn returns_message_when_stream_tail_fails_after_completed_message() {
    let result = finalize_responses_stream_result(
        Err("stream failed: error decoding response body".to_string()),
        "feat: keep completed stream output",
        true,
        None,
    )
    .expect("message should be preserved");
    assert_eq!(result, "feat: keep completed stream output");
}

#[test]
fn keeps_failing_when_stream_tail_fails_without_completed_message() {
    let err = finalize_responses_stream_result(
        Err("stream failed: error decoding response body".to_string()),
        "feat: partial output",
        false,
        None,
    )
    .expect_err("partial output should not be trusted");
    assert!(err.message.contains("error decoding response body"));
}

#[test]
fn empty_streams_fall_back() {
    let err = finalize_responses_stream_result(Ok(()), "  ", false, None).unwrap_err();
    assert_eq!(err.message, "responses request returned no output text");
    assert!(err.should_fallback);
    let err = finalize_responses_stream_result(Ok(()), "", false, Some("invalid api key".to_string()))
        .unwrap_err();
    assert!(!err.should_fallback);
}

#[test]
fn status_errors_preview_the_body() {
    let err = TransportEndpoint::Responses.status_error(404, "unknown path\n   /v1/responses");
    assert_eq!(err.message, "responses request failed with status 404: unknown path /v1/responses");
    assert!(err.should_fallback);
    let err = TransportEndpoint::ChatCompletions.status_error(405, "no");
    assert_eq!(err.message, "chat completion request failed with status 405: no");
    assert!(!err.should_fallback);
    assert_eq!(
        append_last_event_context("stream failed".to_string(), Some("response.created")),
        "stream failed; last parsed event: response.created"
    );
}

#[test]
fn chat_streams_collect_deltas_and_stop_on_errors() {
    let mut renderer = silent_renderer();
    let mut collector = ChatStreamCollector::new();
    collector
        .take_event(&json(r#"{"choices": [{"delta": {"content": "fix: "}}]}"#), &mut renderer)
        .unwrap();
    collector
        .take_event(&json(r#"{"choices": [{"delta": {"content": "crash"}}]}"#), &mut renderer)
        .unwrap();
    assert_eq!(collector.finish(), Ok("fix: crash".to_string()));
    assert_eq!(
        collector.take_event(&json(r#"{"error": {"message": "overloaded"}}"#), &mut renderer),
        Err("overloaded".to_string())
    );
    assert_eq!(
        ChatStreamCollector::new().finish(),
        Err("chat completion returned no stream chunks".to_string())
    );
}

#[test]
fn responses_streams_keep_a_completed_message() {
    let mut renderer = silent_renderer();
    let mut collector = ResponsesStreamCollector::new();
    collector
        .take_event(
            &json(
                r#"{"type": "response.output_text.done", "item_id": "m", "output_index": 0,
                    "content_index": 0, "text": "feat: done"}"#,
            ),
            &mut renderer,
        )
        .unwrap();
    assert!(collector.completed_message_seen);
    assert_eq!(
        collector.finish(Err("stream failed: transport error".to_string())),
        Ok("feat: done".to_string())
    );
}

#[test]
fn styles_thinking_sections_and_keeps_subject_color() {
    let mut renderer = StreamRenderer::new(StreamOutput::Stdout, StreamPalette::Ansi);
    let rendered = renderer.write_styled("<think>drafting</think>feat: add parser\nBody");
    let plain = strip_ansi(&rendered);
    assert!(rendered.contains("\x1b["));
    assert!(plain.contains("drafting"));
    assert!(plain.contains("feat: add parser"));
    assert!(plain.contains("Body"));
    assert!(rendered.contains("\n\x1b[0m"));
}

#[test]
fn handles_split_think_tags_across_chunks() {
    let mut renderer = StreamRenderer::new(StreamOutput::Stdout, StreamPalette::Ansi);
    let mut rendered = String::new();
    rendered.push_str(&renderer.write_styled("<thi"));
    rendered.push_str(&renderer.write_styled("nk>plan</th"));
    rendered.push_str(&renderer.write_styled("ink>fix: tighten prompt"));
    let plain = strip_ansi(&rendered);
    assert!(rendered.contains("\x1b["));
    assert!(plain.contains("plan"));
    assert!(plain.contains("fix: tighten prompt"));
}

#[test]
fn truecolor_palette_uses_lighter_body_tone() {
    let mut renderer = StreamRenderer::new(StreamOutput::Stdout, StreamPalette::TrueColor);
    let rendered = renderer.write_styled("feat: add parser\nBody");
    assert!(rendered.contains("\x1b[38;2;120;200;255m"));
    assert!(rendered.contains("\x1b[38;2;176;220;255m"));
}

#[test]
fn plain_rendering_drops_the_tags_only() {
    let mut renderer = StreamRenderer::new(StreamOutput::Stdout, StreamPalette::Plain);
    assert_eq!(renderer.write_styled("<think>plan</think>fix: a < b\nbody"), "planfix: a < b\nbody");
    let mut split = StreamRenderer::new(StreamOutput::Stdout, StreamPalette::Plain);
    let mut rendered = split.write_styled("<think>pl");
    rendered.push_str(&split.write_styled("an</thi"));
    rendered.push_str(&split.write_styled("nk>fix: a < b\nbody"));
    assert_eq!(rendered, "planfix: a < b\nbody");
}

#[test]
fn finishing_resets_and_remembers_a_shown_message() {
    let mut renderer = StreamRenderer::new(StreamOutput::Stdout, StreamPalette::Ansi);
    renderer.finish();
    assert!(renderer.take_actions().is_empty());
    renderer.show_thinking_status("thinking");
    renderer.push("feat: x");
    renderer.finish();
    assert!(renderer.completed_render());
    let actions = renderer.take_actions();
    assert_eq!(actions[0], RenderAction::ShowPlaceholder("thinking".to_string()));
    assert_eq!(actions[1], RenderAction::CompleteStatus);
    assert_eq!(actions[3], RenderAction::CompleteStatus);
    assert_eq!(actions[4], RenderAction::Write("\x1b[0m\n".to_string()));
    renderer.reset();
    assert!(!renderer.completed_render());
    assert_eq!(renderer.take_actions(), vec![RenderAction::AbortStatus]);
    let mut silent = silent_renderer();
    silent.push("text");
    silent.push_thinking("why");
    assert!(silent.take_actions().is_empty());
}

#[test]
fn extracts_only_text_blocks() {
    let parsed = MessagesResponse {
        content: vec![
            ContentBlock {
                block_type: "thinking".to_string(),
                text: None,
                thinking: Some("internal".to_string()),
            },
            ContentBlock {
                block_type: "text".to_string(),
                text: Some("refactor: split provider transport".to_string()),
                thinking: None,
            },
        ],
        error: None,
    };
    assert_eq!(parsed.text_content(), "refactor: split provider transport");
    assert_eq!(parsed.block_types(), vec!["thinking", "text"]);
    assert!(parsed.has_thinking());
}

#[test]
fn json_strings_are_escaped_as_serde_writes_them() {
    let value = JsonValue::Str("say \"hi\"\\ \u{1}\u{8}\t\n\u{c}\r\u{1f} \u{7f} é".to_string());
    assert_eq!(
        compact_json(&value),
        "\"say \\\"hi\\\"\\\\ \\u0001\\b\\t\\n\\f\\r\\u001f \u{7f} é\""
    );
    let object = JsonValue::Object(vec![("k\"".to_string(), JsonValue::Str("\u{0}".to_string()))]);
    assert_eq!(compact_json(&object), "{\"k\\\"\":\"\\u0000\"}");
}
