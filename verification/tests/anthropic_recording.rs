use twins::anthropic::engine::scenario::TranscriptEvent;
use twins::anthropic::record::{
    derive_script, message_from_events, parse_sse_events, RecordError,
};
use twins::codec::{parse_text, render};
use twins::hash::request_hash;
use twins::json::{same_value, Json};

fn json(text: &str) -> Json {
    parse_text(text).expect("JSON")
}

fn event(text: &str) -> TranscriptEvent {
    let value = json(text);
    TranscriptEvent {
        event: value.str_at("type").map(str::to_owned),
        data: render(&value),
    }
}

fn message_start() -> TranscriptEvent {
    event(
        r#"{"type":"message_start","message":{"type":"message","content":[],"usage":{"input_tokens":1,"output_tokens":0},"stop_reason":null}}"#,
    )
}

fn text_stream() -> Vec<TranscriptEvent> {
    vec![
        message_start(),
        event(
            r#"{"type":"content_block_start","index":0,"content_block":{"type":"text","text":""}}"#,
        ),
        event(
            r#"{"type":"content_block_delta","index":0,"delta":{"type":"text_delta","text":"hello 🌊"}}"#,
        ),
        event(r#"{"type":"content_block_stop","index":0}"#),
        event(
            r#"{"type":"message_delta","delta":{"stop_reason":"end_turn","stop_sequence":null},"usage":{"output_tokens":2}}"#,
        ),
        event(r#"{"type":"message_stop"}"#),
    ]
}

fn assert_json(actual: &Json, expected: &str) {
    assert!(
        same_value(actual, &json(expected)),
        "{} is not {}",
        render(actual),
        expected
    );
}

#[test]
fn semantic_recording_checks_message_and_block_lifecycles() {
    let valid = text_stream();
    let message = message_from_events(&valid).expect("valid stream");
    assert_json(
        &message.copy_at("content"),
        r#"[{"type":"text","text":"hello 🌊"}]"#,
    );
    let mut bad_streams = Vec::new();
    for index in [0, 1, 3, 4, 5] {
        let mut events = valid.clone();
        events.remove(index);
        bad_streams.push(events);
    }
    for index in [0, 1, 3, 5] {
        let mut events = valid.clone();
        events.insert(index, events[index].clone());
        bad_streams.push(events);
    }
    for pair in [(0, 1), (2, 3), (3, 4)] {
        let mut events = valid.clone();
        events.swap(pair.0, pair.1);
        bad_streams.push(events);
    }
    for replacement in [
        r#"{"type":"content_block_delta","index":1,"delta":{"type":"text_delta","text":"x"}}"#,
        r#"{"type":"content_block_delta","index":0,"delta":{"type":"signature_delta","signature":"sig"}}"#,
    ] {
        let mut events = valid.clone();
        events[2] = event(replacement);
        bad_streams.push(events);
    }
    let mut mismatch = valid.clone();
    mismatch[2].event = Some("message_stop".to_owned());
    bad_streams.push(mismatch);
    for events in bad_streams {
        assert!(
            message_from_events(&events).is_err(),
            "accepted malformed stream: {events:?}"
        );
    }

    let mut updates = valid;
    updates.insert(2, event(r#"{"type":"ping"}"#));
    updates.insert(
        updates.len() - 1,
        event(
            r#"{"type":"message_delta","delta":{},"usage":{"output_tokens":3,"cache_read_input_tokens":7}}"#,
        ),
    );
    let message = message_from_events(&updates).expect("cumulative updates");
    assert_json(
        &message.copy_at("usage"),
        r#"{"input_tokens":1,"output_tokens":3,"cache_read_input_tokens":7}"#,
    );
}

#[test]
fn tool_json_must_be_complete_and_an_object_when_the_block_closes() {
    for (raw, valid) in [
        ("{\"city\":\"Paris\"}", true),
        ("{\"city\":", false),
        ("[]", false),
        ("null", false),
    ] {
        let mut events = text_stream();
        events[1] = event(
            r#"{"type":"content_block_start","index":0,"content_block":{"type":"tool_use","id":"toolu_test","name":"weather","input":{}}}"#,
        );
        let raw_text = render(&Json::text(raw));
        events[2] = event(&format!(
            "{{\"type\":\"content_block_delta\",\"index\":0,\"delta\":{{\"type\":\"input_json_delta\",\"partial_json\":{raw_text}}}}}"
        ));
        let result = message_from_events(&events);
        assert_eq!(result.is_ok(), valid, "tool input: {raw}");
        if valid {
            assert_json(
                &result.expect("valid tool input").copy_at("content"),
                r#"[{"type":"tool_use","id":"toolu_test","name":"weather","input":{"city":"Paris"}}]"#,
            );
        }
    }
}

#[test]
fn malformed_event_shapes_return_errors_without_panicking() {
    for invalid in ["null", "false", "42", "\"bad\"", "[]"] {
        let stop = event(r#"{"type":"message_stop"}"#);
        for events in [
            vec![event(invalid)],
            vec![
                event(&format!(
                    "{{\"type\":\"message_start\",\"message\":{invalid}}}"
                )),
                stop.clone(),
            ],
            vec![
                message_start(),
                event(&format!(
                    "{{\"type\":\"content_block_start\",\"index\":0,\"content_block\":{invalid}}}"
                )),
                event(
                    r#"{"type":"content_block_delta","index":0,"delta":{"type":"text_delta","text":"x"}}"#,
                ),
                stop.clone(),
            ],
            vec![
                message_start(),
                event(&format!("{{\"type\":\"message_delta\",\"delta\":{invalid}}}")),
                stop.clone(),
            ],
            vec![
                message_start(),
                event(&format!(
                    "{{\"type\":\"message_delta\",\"delta\":{{}},\"usage\":{invalid}}}"
                )),
                stop,
            ],
        ] {
            assert!(
                message_from_events(&events).is_err(),
                "invalid value {invalid}"
            );
        }
    }
    let events = vec![
        message_start(),
        event(
            r#"{"type":"content_block_start","index":0,"content_block":{"type":"text","text":42}}"#,
        ),
        event(
            r#"{"type":"content_block_delta","index":0,"delta":{"type":"text_delta","text":"x"}}"#,
        ),
        event(r#"{"type":"message_stop"}"#),
    ];
    assert!(message_from_events(&events).is_err());
}

#[test]
fn transcript_hash_ignores_object_order_but_preserves_array_order() {
    let a = br#"{"model":"model-test","messages":[{"role":"user","content":"hello"}],"metadata":{"b":2,"a":1}}"#;
    let b = br#"{ "metadata": {"a":1,"b":2}, "messages":[{"content":"hello","role":"user"}],"model":"model-test" }"#;
    assert_eq!(
        request_hash(a).expect("JSON"),
        request_hash(b).expect("JSON")
    );
    assert_ne!(
        request_hash(br#"{"items":[1,2]}"#),
        request_hash(br#"{"items":[2,1]}"#)
    );
    assert_eq!(request_hash(b"bad JSON"), None);
}

#[test]
fn recording_accepts_sse_line_endings_and_optional_spaces() {
    for newline in ["\n", "\r\n", "\r"] {
        for space in ["", " "] {
            let body = [
                format!("event:{space}message_start"),
                format!("data:{space}first"),
                format!("data:{space}second"),
                String::new(),
                ": ping".to_owned(),
                "data:".to_owned(),
                String::new(),
                String::new(),
            ]
            .join(newline);
            let events = parse_sse_events(body.as_bytes()).expect("SSE");
            assert_eq!(events.len(), 2);
            assert_eq!(events[0].event.as_deref(), Some("message_start"));
            assert_eq!(events[0].data, "first\nsecond");
            assert_eq!(events[1].event, None);
            assert_eq!(events[1].data, "");
        }
    }
    assert!(parse_sse_events(&[255]).is_err());
}

fn stream_error(events: &[&str]) -> RecordError {
    let events: Vec<TranscriptEvent> = events.iter().map(|text| event(text)).collect();
    message_from_events(&events).expect_err("a faulty stream")
}

const START: &str = r#"{"type":"message_start","message":{"content":[]}}"#;
const TEXT: &str =
    r#"{"type":"content_block_start","index":0,"content_block":{"type":"text","text":""}}"#;
const TOOL: &str =
    r#"{"type":"content_block_start","index":0,"content_block":{"type":"tool_use","input":{}}}"#;
const CLOSE: &str = r#"{"type":"content_block_stop","index":0}"#;
const UPDATE: &str = r#"{"type":"message_delta","delta":{"stop_reason":"end_turn"}}"#;
const STOP: &str = r#"{"type":"message_stop"}"#;

#[test]
fn every_fault_of_a_stream_has_its_error() {
    let growth = r#"{"type":"content_block_delta","index":0,"delta":{"type":"text_delta","text":"x"}}"#;
    let cases: Vec<(Vec<&str>, RecordError)> = vec![
        (vec![START, START], RecordError::RepeatedStart),
        (
            vec![r#"{"type":"message_start"}"#],
            RecordError::MissingMessage,
        ),
        (vec![TEXT], RecordError::NotStarted),
        (
            vec![START, UPDATE, STOP, STOP],
            RecordError::AlreadyStopped,
        ),
        (
            vec![START, r#"{"type":"content_block_stop"}"#],
            RecordError::MissingIndex,
        ),
        (
            vec![START, r#"{"type":"content_block_start","index":0}"#],
            RecordError::MissingBlock,
        ),
        (vec![START, TEXT, TEXT], RecordError::RepeatedBlock),
        (vec![START, growth], RecordError::BlockNotOpen),
        (
            vec![START, TEXT, UPDATE],
            RecordError::BlockOpen,
        ),
        (
            vec![
                START,
                TEXT,
                r#"{"type":"content_block_delta","index":0,"delta":{"type":"signature_delta","signature":"s"}}"#,
            ],
            RecordError::DeltaMismatch,
        ),
        (
            vec![
                START,
                r#"{"type":"content_block_start","index":0,"content_block":{"type":"text","text":42}}"#,
                growth,
            ],
            RecordError::DeltaMismatch,
        ),
        (
            vec![
                START,
                TEXT,
                r#"{"type":"content_block_delta","index":0,"delta":{"type":"text_delta"}}"#,
            ],
            RecordError::MissingDelta,
        ),
        (
            vec![
                START,
                TEXT,
                r#"{"type":"content_block_delta","index":0,"delta":{"type":"odd_delta"}}"#,
            ],
            RecordError::UnsupportedDelta,
        ),
        (
            vec![
                START,
                TOOL,
                r#"{"type":"content_block_delta","index":0,"delta":{"type":"input_json_delta","partial_json":"{"}}"#,
                CLOSE,
            ],
            RecordError::IncompleteInput,
        ),
        (
            vec![START, r#"{"type":"message_delta","delta":7}"#],
            RecordError::MalformedUpdate,
        ),
        (vec![START, STOP], RecordError::MissingUpdate),
        (
            vec![START, r#"{"type":"error","error":{}}"#],
            RecordError::UpstreamError,
        ),
        (
            vec![START, r#"{"type":"surprise"}"#],
            RecordError::UnsupportedEvent,
        ),
        (vec![START, UPDATE], RecordError::Unfinished),
        (vec![], RecordError::Unfinished),
    ];
    for (events, expected) in cases {
        assert_eq!(stream_error(&events), expected, "{events:?}");
    }
    let mut mismatch = event(STOP);
    mismatch.event = Some("ping".to_owned());
    assert_eq!(
        message_from_events(&[mismatch]).expect_err("mismatch"),
        RecordError::EventMismatch
    );
    let broken = TranscriptEvent {
        event: None,
        data: "{".to_owned(),
    };
    assert_eq!(
        message_from_events(&[broken]).expect_err("no JSON"),
        RecordError::InvalidJson
    );
    assert_eq!(
        parse_sse_events(&[0xff]).expect_err("no text"),
        RecordError::NotText
    );
}

#[test]
fn deltas_add_to_blocks_of_any_other_type() {
    let text = r#"{"type":"content_block_delta","index":0,"delta":{"type":"text_delta","text":"x"}}"#;
    let cite = r#"{"type":"content_block_delta","index":0,"delta":{"type":"citations_delta","citation":7}}"#;
    let input = r#"{"type":"content_block_delta","index":0,"delta":{"type":"input_json_delta","partial_json":"{\"a\":1}"}}"#;
    for (block, delta, expected) in [
        (TOOL, text, r#"[{"type":"tool_use","input":{},"text":"x"}]"#),
        (TOOL, cite, r#"[{"type":"tool_use","input":{},"citations":[7]}]"#),
        (TEXT, input, r#"[{"type":"text","text":"","input":{"a":1}}]"#),
        (
            r#"{"type":"content_block_start","index":0,"content_block":{"type":"thinking","thinking":"t","signature":null}}"#,
            r#"{"type":"content_block_delta","index":0,"delta":{"type":"signature_delta","signature":"s"}}"#,
            r#"[{"type":"thinking","thinking":"t","signature":"s"}]"#,
        ),
    ] {
        let events: Vec<TranscriptEvent> = [START, block, delta, CLOSE, UPDATE, STOP]
            .iter()
            .map(|text| event(text))
            .collect();
        let message = message_from_events(&events).expect("a message");
        assert_json(&message.copy_at("content"), expected);
    }
}

#[test]
fn scripts_keep_content_usage_and_stop_facts() {
    let script = derive_script(&json(
        r#"{"type":"message","content":[{"type":"text","text":"hi"}],"usage":{"input_tokens":3,"output_tokens":2},"stop_reason":"max_tokens","stop_sequence":null,"stop_details":{"explanation":"why"}}"#,
    ))
    .expect("script");
    assert_eq!(script.str_at("kind"), Some("success"));
    assert_eq!(script.str_at("stop_reason"), Some("max_tokens"));
    assert_json(
        &script.copy_at("content"),
        r#"[{"type":"text","text":"hi"}]"#,
    );
    assert_json(
        &script.copy_at("usage"),
        r#"{"input_tokens":3,"output_tokens":2}"#,
    );
    assert_json(
        &script.copy_at("stop_details"),
        r#"{"explanation":"why"}"#,
    );

    assert_eq!(
        derive_script(&json(r#"{"type":"error"}"#)).expect_err("no message"),
        RecordError::NotAMessage
    );
    assert_eq!(
        derive_script(&json(r#"{"type":"message","stop_reason":"end_turn"}"#))
            .expect_err("no content"),
        RecordError::MissingContent
    );
    assert_eq!(
        derive_script(&json(r#"{"type":"message","content":[]}"#)).expect_err("no reason"),
        RecordError::MissingStopReason
    );
}
