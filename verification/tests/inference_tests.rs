use personacle::inference::{
    parse_sse_line, split_first_line, sse_event_of, sse_payload, ChatMessage, InferError, SseEvent,
    SsePayload, StreamText,
};
use personacle::json::JsonValue;

#[test]
fn sse_delta_line() {
    let line = r#"data: {"choices":[{"delta":{"content":"こん"}}]}"#;
    assert_eq!(parse_sse_line(line), SseEvent::Delta("こん".into()));
}

#[test]
fn sse_done_line() {
    assert_eq!(parse_sse_line("data: [DONE]"), SseEvent::Done);
}

#[test]
fn sse_ignores_role_only_and_empty() {
    let line = r#"data: {"choices":[{"delta":{"role":"assistant"}}]}"#;
    assert_eq!(parse_sse_line(line), SseEvent::Ignore);
    assert_eq!(parse_sse_line(""), SseEvent::Ignore);
    assert_eq!(parse_sse_line(": keep-alive"), SseEvent::Ignore);
    let line = r#"data: {"choices":[{"delta":{"content":""}}]}"#;
    assert_eq!(parse_sse_line(line), SseEvent::Ignore);
}

#[test]
fn sse_ignores_broken_json() {
    assert_eq!(parse_sse_line("data: {broken"), SseEvent::Ignore);
}

#[test]
fn sse_delta_text_needs_choices_delta_content() {
    let line = r#"  data:{"choices":[{"delta":{"content":"やあ"}},{"delta":{"content":"x"}}]}  "#;
    assert_eq!(parse_sse_line(line), SseEvent::Delta("やあ".into()));
    assert_eq!(parse_sse_line(r#"data: {"choices":[]}"#), SseEvent::Ignore);
    assert_eq!(parse_sse_line(r#"data: {"choices":[{"delta":{"content":5}}]}"#), SseEvent::Ignore);
    assert_eq!(parse_sse_line(r#"event: {"choices":[{"delta":{"content":"a"}}]}"#), SseEvent::Ignore);
}

#[test]
fn sse_event_of_reads_decoded_payloads() {
    let v = JsonValue::Object(vec![(
        "choices".to_string(),
        JsonValue::Array(vec![JsonValue::Object(vec![(
            "delta".to_string(),
            JsonValue::Object(vec![("content".to_string(), JsonValue::Str("ab".into()))]),
        )])]),
    )]);
    assert_eq!(sse_event_of(Some(&v)), SseEvent::Delta("ab".into()));
    assert_eq!(sse_event_of(None), SseEvent::Ignore);
}

#[test]
fn sse_framing() {
    assert!(matches!(sse_payload("  data:   [DONE]  \n"), SsePayload::Done));
    assert!(matches!(sse_payload("event: x"), SsePayload::NotData));
    match sse_payload("data:{\"a\":1}") {
        SsePayload::Json(p) => assert_eq!(p, "{\"a\":1}"),
        _ => panic!("expected a payload"),
    }
}

#[test]
fn stream_lines_split_at_line_feeds() {
    let (line, rest) = split_first_line("data: a\ndata: b").unwrap();
    assert_eq!(line, "data: a\n");
    assert_eq!(rest, "data: b");
    assert!(split_first_line("partial").is_none());
}

#[test]
fn stream_text_gathers_deltas() {
    let mut t = StreamText::new();
    assert!(!t.take_event(&SseEvent::Delta("こん".into())));
    assert!(!t.take_event(&SseEvent::Ignore));
    assert!(!t.take_event(&SseEvent::Delta("にちは".into())));
    assert!(t.take_event(&SseEvent::Done));
    let out = t.finish(false);
    assert_eq!(out.text, "こんにちは");
    assert!(!out.canceled);
}

#[test]
fn infer_error_texts() {
    assert_eq!(InferError::Connection("x".into()).text(), "推論エンジンに接続できません: x");
    assert_eq!(InferError::Generation("y".into()).text(), "応答の生成に失敗しました: y");
    let m = ChatMessage::new("user", "hi".to_string());
    assert_eq!(m.role, "user");
    assert_eq!(m.content, "hi");
}
