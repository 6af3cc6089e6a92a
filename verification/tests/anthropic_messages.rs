use std::sync::Arc;

use axum::http::{HeaderMap, HeaderName, HeaderValue};
use twins::anthropic::config::Config;
use twins::anthropic::engine::scenario::{
    Scenario, ScenarioMatcher, ScenarioScript, SuccessScript, ToolCallTemplate, TranscriptEvent,
};
use twins::anthropic::exchange::{
    begin, finish, listed_model, models, text_tokens, Answer, Begun,
};
use twins::anthropic::logs::{log_json, log_line, RequestLog};
use twins::anthropic::engine::plan::TokenUsage;
use twins::anthropic::models::{
    error_json, generate_json, validate_schema, AnthropicError, Message, MessagesRequest,
};
use twins::anthropic::record::{derive_script, message_from_events, parse_sse_events};
use twins::anthropic::state::{AppState, NamespaceKey};
use twins::codec::{parse_text, render};
use twins::hash::request_hash;
use twins::headers::Headers;
use twins::json::{same_value, Json, Members};
use twins::reply::{Body, Content, Reply};
use twins::transport::RawChunk;

const REQUEST: &str =
    r#"{"max_tokens":128,"messages":[{"content":"hello","role":"user"}],"model":"model-test","stream":false}"#;
const STREAM: &str =
    r#"{"max_tokens":128,"messages":[{"content":"hello","role":"user"}],"model":"model-test","stream":true}"#;

fn json(text: &str) -> Json {
    parse_text(text).expect("JSON")
}

fn list(value: &Json, key: &str) -> Vec<Json> {
    match value.get(key) {
        Some(Json::Array(items)) => items.iter().map(Json::copy).collect(),
        _ => Vec::new(),
    }
}

fn members(value: &Json, key: &str) -> Members {
    match value.copy_at(key) {
        Json::Object(members) => members,
        _ => Members::new(),
    }
}

fn request(text: &str) -> MessagesRequest {
    let body = json(text);
    MessagesRequest {
        model: body.text_at("model").to_owned(),
        messages: list(&body, "messages")
            .iter()
            .map(|message| Message {
                role: message.text_at("role").to_owned(),
                content: message.copy_at("content"),
            })
            .collect(),
        max_tokens: body.get("max_tokens").and_then(Json::as_u64),
        stream: body.get("stream").and_then(Json::as_bool) == Some(true),
        system: body.copy_at("system"),
        tools: list(&body, "tools"),
        tool_choice: body.copy_at("tool_choice"),
        thinking: body.copy_at("thinking"),
        output_config: body.copy_at("output_config"),
        metadata: members(&body, "metadata"),
        stop_sequences: list(&body, "stop_sequences")
            .iter()
            .map(|text| text.as_str().expect("text").to_owned())
            .collect(),
        extra: Members::new(),
    }
}

fn headers(pairs: &[(&'static str, &str)]) -> HeaderMap {
    let mut map = HeaderMap::new();
    for (name, value) in pairs {
        map.append(
            HeaderName::from_static(name),
            HeaderValue::from_str(value).expect("value"),
        );
    }
    map
}

fn keyed(key: &str) -> HeaderMap {
    headers(&[("x-api-key", key), ("anthropic-version", "2023-06-01")])
}

fn server() -> AppState {
    match AppState::new(Config::default(), Vec::new()) {
        Ok(state) => state,
        Err(error) => panic!("{error}"),
    }
}

fn scenario(script: ScenarioScript) -> Scenario {
    Scenario {
        scenario_id: None,
        namespace: None,
        matcher: Arc::new(ScenarioMatcher {
            endpoint: "messages".to_owned(),
            model: None,
            stream: None,
            metadata: Members::new(),
            input_contains: None,
            instructions_contains: None,
            request_hash: None,
        }),
        script: Arc::new(script),
        repeat: 1,
        sticky: false,
    }
}

fn success(script: SuccessScript) -> Scenario {
    scenario(ScenarioScript::Success(Box::new(script)))
}

fn says(text: &str) -> SuccessScript {
    SuccessScript {
        response_text: Some(text.to_owned()),
        ..SuccessScript::default()
    }
}

fn enqueue(app: &mut AppState, key: &str, scenarios: Vec<Scenario>) {
    app.enqueue_scenarios(&NamespaceKey::ApiKey(key.to_owned()), scenarios)
        .expect("scenarios are accepted");
}

fn exchange(app: &mut AppState, headers: &HeaderMap, body: &str, count: bool) -> Answer {
    match begin(app, headers, body.as_bytes(), count) {
        Begun::Answered(answer, _) => answer,
        Begun::Undecided(pending) => finish(app, pending, &request(body), count).0,
    }
}

fn sent(answer: Answer) -> Reply {
    match answer {
        Answer::Sent(reply) => reply,
        Answer::Refused { error, .. } => panic!("refused: {error:?}"),
    }
}

fn refused(answer: Answer) -> AnthropicError {
    match answer {
        Answer::Refused { error, .. } => error,
        Answer::Sent(reply) => panic!("sent: {}", whole(&reply)),
    }
}

fn whole(reply: &Reply) -> String {
    match &reply.body {
        Body::Whole(text) => text.clone(),
        Body::Chunks(chunks) => chunks
            .iter()
            .map(|chunk| match &chunk.content {
                Content::Text(text) => text.as_str(),
                _ => "",
            })
            .collect(),
        Body::Never => String::new(),
    }
}

fn message(app: &mut AppState, key: &str) -> Json {
    let reply = sent(exchange(app, &keyed(key), REQUEST, false));
    assert_eq!(reply.status, 200);
    json(&whole(&reply))
}

fn text_of(body: &Json) -> String {
    list(body, "content")
        .iter()
        .find_map(|block| block.str_at("text").map(str::to_owned))
        .unwrap_or_default()
}

fn rebuilt(reply: &Reply) -> Json {
    message_from_events(&parse_sse_events(whole(reply).as_bytes()).expect("events"))
        .expect("message")
}

#[test]
fn credentials_and_version_come_first() {
    let mut app = server();
    for count in [false, true] {
        let error = refused(exchange(&mut app, &HeaderMap::new(), REQUEST, count));
        assert_eq!(error.status, 401);
        assert_eq!(error.body.kind, "error");
        assert_eq!(error.body.error.error_type, "authentication_error");
    }
    let no_version = headers(&[("x-api-key", "a")]);
    assert_eq!(
        refused(exchange(&mut app, &no_version, REQUEST, false)).status,
        400
    );
    let conflict = headers(&[
        ("x-api-key", "a"),
        ("authorization", "Bearer b"),
        ("anthropic-version", "2023-06-01"),
    ]);
    assert_eq!(
        refused(exchange(&mut app, &conflict, REQUEST, false)).status,
        401
    );
    for authorization in ["Basic a", "Bearer "] {
        let bad = headers(&[
            ("authorization", authorization),
            ("anthropic-version", "2023-06-01"),
        ]);
        assert_eq!(refused(exchange(&mut app, &bad, REQUEST, false)).status, 401);
    }
    let identity = listed_model();
    let listed = json(&whole(&sent(models(app.config(), &keyed("a"), &identity))));
    let entry = &list(&listed, "data")[0];
    assert_eq!(entry.str_at("id"), Some("twin-test"));
    assert_eq!(entry.str_at("display_name"), Some("Twin Test"));
    assert_eq!(listed.str_at("first_id"), Some("twin-test"));
    assert_eq!(listed.get("has_more").and_then(Json::as_bool), Some(false));
    assert_eq!(
        refused(models(app.config(), &no_version, &identity)).status,
        400
    );
}

#[test]
fn ids_are_deterministic_and_namespaces_are_isolated() {
    let mut app = server();
    assert_eq!(message(&mut app, "a").str_at("id"), Some("msg_000001"));
    assert_eq!(message(&mut app, "a").str_at("id"), Some("msg_000002"));
    let b = message(&mut app, "b");
    assert_eq!(b.str_at("id"), Some("msg_000001"));
    assert_eq!(text_of(&b), "deterministic: hello");
    assert_eq!(b.str_at("type"), Some("message"));
    assert_eq!(b.str_at("stop_reason"), Some("end_turn"));
    assert_eq!(
        app.request_logs(&NamespaceKey::ApiKey("a".to_owned())).len(),
        2
    );
    let bearer = headers(&[
        ("authorization", "Bearer a"),
        ("anthropic-version", "2023-06-01"),
    ]);
    let third = json(&whole(&sent(exchange(&mut app, &bearer, REQUEST, false))));
    assert_eq!(third.str_at("id"), Some("msg_000003"));
}

fn rich() -> SuccessScript {
    SuccessScript {
        content: Some(vec![
            json(r#"{"type":"thinking","thinking":"considering","signature":"signed-thought"}"#),
            json(r#"{"type":"redacted_thinking","data":"encrypted"}"#),
            json(r#"{"type":"text","text":"hello 🌊"}"#),
            json(r#"{"type":"tool_use","id":"toolu_1","name":"weather","input":{"city":"Paris"}}"#),
        ]),
        ..SuccessScript::default()
    }
}

#[test]
fn streams_rebuild_the_message() {
    let mut app = server();
    enqueue(&mut app, "json", vec![success(rich())]);
    enqueue(&mut app, "stream", vec![success(rich())]);
    let expected = message(&mut app, "json");
    let reply = sent(exchange(&mut app, &keyed("stream"), STREAM, false));
    assert_eq!(reply.headers.get("content-type"), Some("text/event-stream"));
    let events = parse_sse_events(whole(&reply).as_bytes()).expect("events");
    assert_eq!(events[0].event.as_deref(), Some("message_start"));
    assert_eq!(
        events[events.len() - 1].event.as_deref(),
        Some("message_stop")
    );
    assert!(!whole(&reply).contains("[DONE]"));
    let actual = rebuilt(&reply);
    assert!(
        same_value(&actual, &expected),
        "{} is not {}",
        render(&actual),
        render(&expected)
    );
}

#[test]
fn raw_arguments_break_the_stream() {
    let mut app = server();
    let script = SuccessScript {
        tool_calls: vec![ToolCallTemplate {
            id: None,
            name: "weather".to_owned(),
            arguments: json(r#"{"city":"Paris"}"#),
            raw_arguments: Some("{\"city\":".to_owned()),
        }],
        ..SuccessScript::default()
    };
    enqueue(&mut app, "a", vec![success(script)]);
    let reply = sent(exchange(&mut app, &keyed("a"), STREAM, false));
    let events = parse_sse_events(whole(&reply).as_bytes()).expect("events");
    assert!(message_from_events(&events).is_err());
}

#[test]
fn stop_reasons_survive_json_and_streams() {
    let mut app = server();
    for reason in [
        "end_turn",
        "max_tokens",
        "stop_sequence",
        "tool_use",
        "pause_turn",
        "refusal",
        "model_context_window_exceeded",
    ] {
        for body in [REQUEST, STREAM] {
            let script = SuccessScript {
                stop_reason: Some(reason.to_owned()),
                stop_sequence: Some("END".to_owned()),
                stop_details: Some(json(r#"{"explanation":"scripted"}"#)),
                ..says("partial")
            };
            enqueue(&mut app, "a", vec![success(script)]);
            let reply = sent(exchange(&mut app, &keyed("a"), body, false));
            let answer = if body == STREAM {
                rebuilt(&reply)
            } else {
                json(&whole(&reply))
            };
            assert_eq!(answer.str_at("stop_reason"), Some(reason));
            assert_eq!(
                answer.copy_at("stop_details").str_at("explanation"),
                Some("scripted")
            );
        }
    }
}

#[test]
fn structured_output_and_forced_tools_are_answered() {
    let mut app = server();
    let structured = r#"{"max_tokens":128,"messages":[{"content":"hello","role":"user"}],"model":"model-test","output_config":{"format":{"type":"json_schema","schema":{"type":"object","properties":{"answer":{"type":"string"},"ok":{"type":"boolean"},"kind":{"enum":["result"]}}}}}}"#;
    let body = json(&whole(&sent(exchange(
        &mut app,
        &keyed("a"),
        structured,
        false,
    ))));
    let parsed = json(&text_of(&body));
    assert_eq!(parsed.get("ok").and_then(Json::as_bool), Some(true));
    assert_eq!(parsed.str_at("kind"), Some("result"));
    let forced = r#"{"max_tokens":128,"messages":[{"content":"hello","role":"user"}],"model":"model-test","tools":[{"name":"weather","input_schema":{"type":"object"}}],"tool_choice":{"type":"tool","name":"weather"}}"#;
    assert_eq!(
        refused(exchange(&mut app, &keyed("a"), forced, false)).status,
        400
    );
    let script = SuccessScript {
        tool_calls: vec![ToolCallTemplate {
            id: None,
            name: "weather".to_owned(),
            arguments: json(r#"{"city":"Paris"}"#),
            raw_arguments: None,
        }],
        ..SuccessScript::default()
    };
    enqueue(&mut app, "a", vec![success(script)]);
    let body = json(&whole(&sent(exchange(&mut app, &keyed("a"), forced, false))));
    assert_eq!(body.str_at("stop_reason"), Some("tool_use"));
    assert_eq!(list(&body, "content").len(), 1);
}

#[test]
fn malformed_requests_are_refused() {
    let mut app = server();
    for body in [
        r#"{"model":"","max_tokens":128,"messages":[{"role":"user","content":"hello"}]}"#,
        r#"{"model":"model-test","max_tokens":0,"messages":[{"role":"user","content":"hello"}]}"#,
        r#"{"model":"model-test","max_tokens":128,"messages":[]}"#,
        r#"{"model":"model-test","max_tokens":128,"messages":[{"role":"tool","content":"bad"}]}"#,
        r#"{"model":"model-test","max_tokens":128,"messages":[{"role":"user","content":null}]}"#,
        r#"{"model":"model-test","max_tokens":128,"messages":[{"role":"user","content":"hello"}],"tool_choice":{"type":"required"}}"#,
        r#"{"model":"model-test","max_tokens":128,"messages":[{"role":"user","content":"hello"}],"thinking":{"type":"enabled","budget_tokens":2}}"#,
        r#"{"model":"model-test","max_tokens":128,"messages":[{"role":"user","content":"hello"}],"output_config":{"format":{"type":"json_schema","schema":{"type":"array"}}}}"#,
    ] {
        let error = refused(exchange(&mut app, &keyed("a"), body, false));
        assert_eq!(error.status, 400, "{body}");
        assert_eq!(error.body.error.error_type, "invalid_request_error");
    }
    assert!(matches!(
        begin(&mut app, &keyed("a"), b"{bad", false),
        Begun::Answered(Answer::Refused { error, .. }, None) if error.status == 400
    ));
}

#[test]
fn counting_has_a_contract_of_its_own() {
    let mut app = server();
    let body = r#"{"messages":[{"content":"🌊","role":"user"}],"model":"model-test"}"#;
    let count = json(&whole(&sent(exchange(&mut app, &keyed("a"), body, true))));
    assert_eq!(
        count.get("input_tokens").and_then(Json::as_u64),
        Some(body.len().div_ceil(4) as u64)
    );
    assert_eq!(
        refused(exchange(&mut app, &keyed("a"), REQUEST, true)).status,
        400
    );
    let mut counted = success(SuccessScript {
        input_tokens: Some(321),
        ..SuccessScript::default()
    });
    counted.matcher = Arc::new(ScenarioMatcher {
        endpoint: "messages.count_tokens".to_owned(),
        model: None,
        stream: None,
        metadata: Members::new(),
        input_contains: None,
        instructions_contains: None,
        request_hash: None,
    });
    enqueue(&mut app, "a", vec![counted]);
    let count = json(&whole(&sent(exchange(&mut app, &keyed("a"), body, true))));
    assert_eq!(
        count.get("input_tokens").and_then(Json::as_u64),
        Some(321)
    );
    assert_eq!(message(&mut app, "a").str_at("id"), Some("msg_000001"));
}

#[test]
fn streams_rebuild_numbers_of_either_kind() {
    let script = || SuccessScript {
        content: Some(vec![json(
            r#"{"type":"tool_use","id":"t","name":"n","input":{"half":0.5,"big":1e300,"minus":-7}}"#,
        )]),
        ..SuccessScript::default()
    };
    let mut app = server();
    enqueue(&mut app, "json", vec![success(script())]);
    enqueue(&mut app, "stream", vec![success(script())]);
    let expected = message(&mut app, "json");
    let reply = sent(exchange(&mut app, &keyed("stream"), STREAM, false));
    assert!(same_value(&rebuilt(&reply), &expected));
    assert!(!whole(&reply).contains("[DONE]"));
}

#[test]
fn errors_and_records_are_documents() {
    let mut error = AnthropicError::invalid_request("model", "must not be empty");
    assert_eq!(
        render(&error_json(&error)),
        r#"{"error":{"message":"model: must not be empty","type":"invalid_request_error"},"type":"error"}"#
    );
    error.body.error.code = Some("odd".to_owned());
    assert_eq!(
        error_json(&error).copy_at("error").str_at("code"),
        Some("odd")
    );
    let mut log = RequestLog {
        scenario_id: None,
        endpoint: "messages".to_owned(),
        model: "m".to_owned(),
        stream: true,
        input_text: "two\nlines".to_owned(),
        instructions_text: String::new(),
        metadata: Members::new(),
    };
    assert_eq!(
        log_line(&log),
        concat_line(
            r#"{"endpoint":"messages","input_text":"two\nlines","instructions_text":"","#,
            r#""metadata":{},"model":"m","stream":true}"#
        )
    );
    log.scenario_id = Some("first".to_owned());
    assert_eq!(log_json(&log).str_at("scenario_id"), Some("first"));
}

fn concat_line(front: &str, back: &str) -> String {
    format!("{front}{back}\n")
}

#[test]
fn written_requests_are_counted() {
    for (text, tokens) in [("", 0), ("a", 1), ("abcd", 1), ("abcde", 2)] {
        assert_eq!(text_tokens(text), tokens);
    }
}

#[test]
fn unscripted_counts_leave_everything_as_it_was() {
    let mut app = server();
    enqueue(&mut app, "a", vec![success(says("first"))]);
    let body = r#"{"messages":[{"content":"hello","role":"user"}],"model":"model-test"}"#;
    for _ in 0..3 {
        assert_eq!(
            sent(exchange(&mut app, &keyed("a"), body, true)).status,
            200
        );
    }
    let answered = message(&mut app, "a");
    assert_eq!(answered.str_at("id"), Some("msg_000001"));
    assert_eq!(text_of(&answered), "first");
}

#[test]
fn recorded_answers_replay_as_they_were() {
    let mut app = server();
    enqueue(&mut app, "recorded", vec![success(rich())]);
    let answer = message(&mut app, "recorded");
    let script = derive_script(&answer).expect("script");
    let usage = script.copy_at("usage");
    let tokens = |name: &str| usage.get(name).and_then(Json::as_u64).expect("count");
    let replayed = SuccessScript {
        content: Some(list(&script, "content")),
        stop_reason: script.str_at("stop_reason").map(str::to_owned),
        usage: Some(TokenUsage {
            input_tokens: tokens("input_tokens"),
            output_tokens: tokens("output_tokens"),
            cache_creation_input_tokens: tokens("cache_creation_input_tokens"),
            cache_read_input_tokens: tokens("cache_read_input_tokens"),
            extra: Members::new(),
        }),
        ..SuccessScript::default()
    };
    enqueue(&mut app, "replayed", vec![success(replayed)]);
    let again = message(&mut app, "replayed");
    assert!(
        same_value(&again, &answer),
        "{} is not {}",
        render(&again),
        render(&answer)
    );
}

#[test]
fn schemas_generate_their_values() {
    let schema = json(
        r#"{"type":"object","properties":{"a":{"const":null},"b":{"enum":[7,8]},"c":{"type":"integer"},"d":{"type":"number"},"e":{"type":"boolean"},"f":{"type":"string"},"g":{"type":"object","properties":{"h":{"type":"string"}}}}}"#,
    );
    assert!(validate_schema(&schema, true).is_ok());
    assert_eq!(
        render(&generate_json(&schema, "said")),
        r#"{"a":null,"b":7,"c":1,"d":1.0,"e":true,"f":"said","g":{"h":"said"}}"#
    );
    assert_eq!(
        validate_schema(&json(r#"{"type":"string"}"#), true)
            .expect_err("no object")
            .status,
        400
    );
    assert!(validate_schema(&json(r#"{"type":"array"}"#), false).is_err());
}

#[test]
fn scripted_errors_keep_status_and_headers() {
    let mut app = server();
    for (status, kind) in [
        (400, "invalid_request_error"),
        (401, "authentication_error"),
        (429, "rate_limit_error"),
        (529, "overloaded_error"),
    ] {
        let mut scripted = Headers::new();
        scripted.set("request-id", "req_test");
        enqueue(
            &mut app,
            "a",
            vec![scenario(ScenarioScript::Error {
                status,
                message: "scripted failure".to_owned(),
                error_type: kind.to_owned(),
                code: None,
                retry_after: Some("2".to_owned()),
                headers: scripted,
                delay_before_headers_ms: 5,
            })],
        );
        match exchange(&mut app, &keyed("a"), REQUEST, false) {
            Answer::Refused {
                delay_ms,
                headers,
                error,
            } => {
                assert_eq!(delay_ms, 5);
                assert_eq!(error.status, status);
                assert_eq!(error.body.error.error_type, kind);
                assert_eq!(headers.get("retry-after"), Some("2"));
                assert_eq!(headers.get("request-id"), Some("req_test"));
            }
            Answer::Sent(_) => panic!("a refusal"),
        }
    }
}

#[test]
fn delays_hangs_and_broken_streams_are_planned() {
    let mut app = server();
    enqueue(
        &mut app,
        "a",
        vec![
            success(SuccessScript {
                delay_before_headers_ms: 60,
                ..SuccessScript::default()
            }),
            scenario(ScenarioScript::Hang {
                delay_before_headers_ms: 7,
            }),
        ],
    );
    assert_eq!(
        sent(exchange(&mut app, &keyed("a"), REQUEST, false)).delay_ms,
        60
    );
    let hang = sent(exchange(&mut app, &keyed("a"), REQUEST, false));
    assert_eq!(hang.delay_ms, 7);
    assert!(matches!(hang.body, Body::Never));
    for script in [
        SuccessScript {
            close_after_chunks: Some(2),
            ..SuccessScript::default()
        },
        SuccessScript {
            malformed_sse: true,
            ..SuccessScript::default()
        },
    ] {
        enqueue(&mut app, "a", vec![success(script)]);
        let reply = sent(exchange(&mut app, &keyed("a"), STREAM, false));
        let events = parse_sse_events(whole(&reply).as_bytes()).expect("events");
        assert!(message_from_events(&events).is_err());
    }
    let slow = SuccessScript {
        inter_event_delay_ms: 30,
        ..SuccessScript::default()
    };
    enqueue(&mut app, "a", vec![success(slow)]);
    let reply = sent(exchange(&mut app, &keyed("a"), STREAM, false));
    let waits: u64 = match reply.body {
        Body::Chunks(chunks) => chunks.iter().map(|chunk| chunk.delay_ms).sum(),
        _ => 0,
    };
    assert!(waits >= 120, "{waits}");
}

#[test]
fn raw_and_transcript_scripts_are_sent_as_they_are() {
    let mut app = server();
    enqueue(
        &mut app,
        "a",
        vec![
            scenario(ScenarioScript::Raw {
                status: 201,
                content_type: None,
                headers: Headers::new(),
                chunks: vec![RawChunk::Text {
                    text: "prefix".to_owned(),
                    delay_ms: 0,
                }],
                delay_before_headers_ms: 0,
            }),
            scenario(ScenarioScript::Transcript {
                status: 200,
                content_type: None,
                body: None,
                body_text: None,
                events: Some(vec![TranscriptEvent {
                    event: Some("error".to_owned()),
                    data: "{\"type\":\"error\"}".to_owned(),
                }]),
                headers: Headers::new(),
            }),
            scenario(ScenarioScript::Transcript {
                status: 202,
                content_type: Some("text/plain".to_owned()),
                body: None,
                body_text: Some("{ \"a\": 1 }".to_owned()),
                events: None,
                headers: Headers::new(),
            }),
        ],
    );
    let raw = sent(exchange(&mut app, &keyed("a"), REQUEST, false));
    assert_eq!(raw.status, 201);
    assert_eq!(whole(&raw), "prefix");
    let events = sent(exchange(&mut app, &keyed("a"), STREAM, false));
    assert_eq!(
        whole(&events),
        "event: error\ndata: {\"type\":\"error\"}\n\n"
    );
    assert_eq!(
        events.headers.get("content-type"),
        Some("text/event-stream")
    );
    let exact = sent(exchange(&mut app, &keyed("a"), REQUEST, false));
    assert_eq!(exact.status, 202);
    assert_eq!(whole(&exact), "{ \"a\": 1 }");
    assert_eq!(exact.headers.get("content-type"), Some("text/plain"));
}

#[test]
fn transcripts_are_found_by_the_hash_of_the_request() {
    let mut app = server();
    let mut recorded = scenario(ScenarioScript::Transcript {
        status: 200,
        content_type: None,
        body: Some(json(r#"{"odd":true}"#)),
        body_text: None,
        events: None,
        headers: Headers::new(),
    });
    let body = r#"{"unknown":"request"}"#;
    recorded.matcher = Arc::new(ScenarioMatcher {
        endpoint: "messages".to_owned(),
        model: None,
        stream: Some(false),
        metadata: Members::new(),
        input_contains: None,
        instructions_contains: None,
        request_hash: request_hash(body.as_bytes()),
    });
    enqueue(&mut app, "a", vec![recorded]);
    match begin(&mut app, &keyed("a"), br#"{ "unknown" : "request" }"#, false) {
        Begun::Answered(Answer::Sent(reply), Some(_)) => {
            assert_eq!(whole(&reply), r#"{"odd":true}"#);
        }
        _ => panic!("the transcript answers"),
    }
}
