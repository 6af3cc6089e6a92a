use axum::http::{HeaderMap, HeaderValue};
use twins::anthropic::config::Config as AnthropicConfig;
use twins::anthropic::engine::scenario::ScenarioEnvelope;
use twins::anthropic::proxy as anthropic;
use twins::anthropic::record::RecordError as AnthropicRecordError;
use twins::codec::{parse_text, render};
use twins::hash::request_hash;
use twins::headers::Headers;
use twins::json::{same_value, Json};
use twins::openai::config::Config as OpenAiConfig;
use twins::openai::proxy as openai;
use twins::openai::record::{RecordError, RecordedEndpoint};
use twins::recorder::RecorderState;
use twins::reply::Body;
use twins::settings::RecordFormat;

fn json(text: &str) -> Json {
    parse_text(text).expect("JSON")
}

fn assert_json(actual: &Json, expected: &str) {
    assert!(
        same_value(actual, &json(expected)),
        "{} is not {}",
        render(actual),
        expected
    );
}

fn scenarios(recorder: &RecorderState) -> Vec<Json> {
    match json(&recorder.document()).copy_at("scenarios") {
        Json::Array(items) => items,
        _ => panic!("a list"),
    }
}

fn openai_exchange(namespace: Option<&str>, format: RecordFormat) -> openai::Exchange {
    let request = br#"{"stream":false}"#;
    openai::Exchange {
        namespace: namespace.map(str::to_owned),
        shape: openai::exchange_shape(RecordedEndpoint::ChatCompletions, request),
        hash: twins::hash::request_hash(request),
        is_stream: false,
        format,
        status: 200,
        content_type: Some("application/json".to_owned()),
    }
}

const CHAT: &[u8] = br#"{"choices":[{"message":{"content":"hi"}}],"vendor":{"cost":2}}"#;

#[test]
fn openai_exchanges_are_recorded_in_order() {
    let mut recorder = RecorderState::new();
    assert_eq!(recorder.document(), "{\n  \"scenarios\": []\n}\n");
    for (namespace, expected) in [
        (Some("a"), "a/0001"),
        (Some("a"), "a/0002"),
        (Some("b"), "b/0001"),
        (None, "global/0001"),
    ] {
        let exchange = openai_exchange(namespace, RecordFormat::Semantic);
        let id = openai::record_exchange(&mut recorder, &exchange, CHAT).expect("recorded");
        assert_eq!(id, expected);
    }
    let recorded = scenarios(&recorder);
    assert_json(
        &recorded[0],
        r#"{"scenario_id":"a/0001","namespace":"a","matcher":{"endpoint":"chat.completions","stream":false},"script":{"kind":"success","response_text":"hi"}}"#,
    );
    assert!(recorded[3].get("namespace").is_none());
}

#[test]
fn openai_transcripts_keep_the_body() {
    let mut recorder = RecorderState::new();
    let exchange = openai_exchange(Some("a"), RecordFormat::Transcript);
    openai::record_exchange(&mut recorder, &exchange, CHAT).expect("recorded");
    let recorded = scenarios(&recorder);
    assert_json(
        &recorded[0].copy_at("script"),
        r#"{"kind":"transcript","status":200,"content_type":"application/json","body":{"choices":[{"message":{"content":"hi"}}],"vendor":{"cost":2}}}"#,
    );
    assert_eq!(
        recorded[0].copy_at("matcher").str_at("request_hash"),
        exchange.hash.as_deref()
    );
    let mut streamed = openai_exchange(Some("a"), RecordFormat::Transcript);
    streamed.is_stream = true;
    streamed.content_type = None;
    openai::record_exchange(
        &mut recorder,
        &streamed,
        b"event: a\ndata: 1\n\ndata: [DONE]\n\n",
    )
    .expect("recorded");
    assert_json(
        &scenarios(&recorder)[1].copy_at("script"),
        r#"{"kind":"transcript","status":200,"events":[{"event":"a","data":"1"},{"data":"[DONE]"}]}"#,
    );
}

#[test]
fn skipped_openai_exchanges_leave_the_recording() {
    let mut recorder = RecorderState::new();
    let mut unreadable = openai_exchange(Some("a"), RecordFormat::Semantic);
    unreadable.shape = openai::exchange_shape(RecordedEndpoint::Responses, b"not JSON");
    assert_eq!(
        openai::record_exchange(&mut recorder, &unreadable, CHAT).expect_err("skipped"),
        openai::Skipped::RequestNotJson
    );
    let exchange = openai_exchange(Some("a"), RecordFormat::Semantic);
    assert_eq!(
        openai::record_exchange(&mut recorder, &exchange, b"{").expect_err("skipped"),
        openai::Skipped::Underivable(RecordError::InvalidJson)
    );
    assert_eq!(
        openai::record_exchange(&mut recorder, &exchange, b"{}").expect_err("skipped"),
        openai::Skipped::Underivable(RecordError::MissingMessage)
    );
    assert_eq!(scenarios(&recorder).len(), 0);
    let chat = openai::Route::Generation(RecordedEndpoint::ChatCompletions);
    assert!(openai::should_record(chat, false, 200));
    assert!(!openai::should_record(chat, true, 200));
    assert!(!openai::should_record(chat, false, 201));
    assert!(!openai::should_record(openai::Route::Models, false, 200));
    assert!(!openai::should_record(openai::Route::InputTokens, false, 200));
}

#[test]
fn recordings_go_on_where_they_ended() {
    let document = r#"{"scenarios":[
        {"scenario_id":"a/0007"},{"scenario_id":"a/0003"},{"scenario_id":"b/c/0002"},
        {"scenario_id":"no number/x"},{"scenario_id":"plain"},{"other":1}
    ]}"#;
    let mut recorder = match openai::load_recorder_state(document) {
        Ok(recorder) => recorder,
        Err(_) => panic!("a recording"),
    };
    assert_eq!(scenarios(&recorder).len(), 6);
    for (namespace, expected) in [("a", "a/0008"), ("b/c", "b/c/0003"), ("b", "b/0001")] {
        let exchange = openai_exchange(Some(namespace), RecordFormat::Semantic);
        assert_eq!(
            openai::record_exchange(&mut recorder, &exchange, CHAT).expect("recorded"),
            expected
        );
    }
    let again = match openai::load_recorder_state(&recorder.document()) {
        Ok(recorder) => recorder,
        Err(_) => panic!("a recording"),
    };
    assert_eq!(scenarios(&again).len(), 9);
    assert!(matches!(
        openai::load_recorder_state("{"),
        Err(openai::LoadError::Json(_))
    ));
    assert!(matches!(
        openai::load_recorder_state(r#"{"scenarios":{}}"#),
        Err(openai::LoadError::MissingScenarios)
    ));
}

#[test]
fn written_recordings_load_as_they_were() {
    let mut recorder = RecorderState::new();
    for namespace in [Some("a"), None, Some("a"), Some("b/c")] {
        assert!(recorder.has_room(namespace));
        let exchange = openai_exchange(namespace, RecordFormat::Semantic);
        openai::record_exchange(&mut recorder, &exchange, CHAT).expect("recorded");
    }
    let written = recorder.document();
    assert!(written.ends_with('\n'));
    let mut loaded = match openai::load_recorder_state(&written) {
        Ok(recorder) => recorder,
        Err(_) => panic!("a recording"),
    };
    assert_eq!(loaded.document(), written);
    let exchange = openai_exchange(Some("a"), RecordFormat::Semantic);
    let expected = openai::record_exchange(&mut recorder, &exchange, CHAT);
    assert_eq!(
        openai::record_exchange(&mut loaded, &exchange, CHAT).expect("recorded"),
        expected.expect("recorded")
    );
    assert_eq!(loaded.document(), recorder.document());
    let full = openai::load_recorder_state(
        r#"{"scenarios":[{"scenario_id":"a/18446744073709551615"}]}"#,
    );
    match full {
        Ok(full) => {
            assert!(!full.has_room(Some("a")));
            assert!(full.has_room(Some("b")));
        }
        Err(_) => panic!("a recording"),
    }
}

#[test]
fn openai_requests_go_out_under_the_upstream_key() {
    let mut request = HeaderMap::new();
    request.append("authorization", HeaderValue::from_static("Bearer client"));
    request.append("originator", HeaderValue::from_static("first"));
    request.append("originator", HeaderValue::from_static("second"));
    request.append("OpenAI-Project", HeaderValue::from_static("project"));
    request.append("cookie", HeaderValue::from_static("kept back"));
    assert_eq!(
        openai::upstream_headers("upstream", &request, true),
        [
            ("authorization".to_owned(), b"Bearer upstream".to_vec()),
            ("content-type".to_owned(), b"application/json".to_vec()),
            ("openai-project".to_owned(), b"project".to_vec()),
            ("originator".to_owned(), b"first".to_vec()),
        ]
    );
    assert_eq!(
        openai::upstream_headers("upstream", &HeaderMap::new(), false),
        [("authorization".to_owned(), b"Bearer upstream".to_vec())]
    );
}

#[test]
fn anthropic_requests_go_out_under_the_upstream_key() {
    let mut request = HeaderMap::new();
    request.append("x-api-key", HeaderValue::from_static("client"));
    request.append("authorization", HeaderValue::from_static("Bearer client"));
    request.append(
        "anthropic-version",
        HeaderValue::from_static("2023-06-01"),
    );
    request.append(
        "user-agent",
        HeaderValue::from_bytes(&[0xff]).expect("opaque value"),
    );
    let mut config = AnthropicConfig::default();
    assert_eq!(
        anthropic::upstream_headers(&config, &HeaderMap::new(), false),
        [("x-api-key".to_owned(), Vec::new())]
    );
    config.upstream_api_key = Some("upstream".to_owned());
    assert_eq!(
        anthropic::upstream_headers(&config, &request, true),
        [
            ("x-api-key".to_owned(), b"upstream".to_vec()),
            ("anthropic-version".to_owned(), b"2023-06-01".to_vec()),
            ("user-agent".to_owned(), vec![0xff]),
            ("content-type".to_owned(), b"application/json".to_vec()),
        ]
    );
    config.upstream_url = "http://up".to_owned();
    assert_eq!(
        anthropic::upstream_target(&config, anthropic::Route::Messages),
        "http://up/v1/messages"
    );
    config.upstream_messages_path = Some("/elsewhere".to_owned());
    assert_eq!(
        anthropic::upstream_target(&config, anthropic::Route::Messages),
        "http://up/elsewhere"
    );
    assert_eq!(
        anthropic::upstream_target(&config, anthropic::Route::CountTokens),
        "http://up/v1/messages/count_tokens"
    );
    assert_eq!(
        anthropic::upstream_target(&config, anthropic::Route::Models),
        "http://up/v1/models"
    );
}

#[test]
fn openai_exchanges_go_from_request_to_recording() {
    let config = OpenAiConfig::default();
    let route = openai::Route::Generation(RecordedEndpoint::ChatCompletions);
    let body = br#"{"stream":true}"#;
    let refusal = openai::forward(&config, "upstream", route, &HeaderMap::new(), Some(body))
        .err()
        .expect("refused");
    assert_eq!(refusal.status, 401);
    let mut request = HeaderMap::new();
    request.append("authorization", HeaderValue::from_static("Bearer suite"));
    let sent = openai::forward(&config, "upstream", route, &request, Some(body))
        .ok()
        .expect("let in");
    assert_eq!(sent.target, "https://api.openai.com/v1/chat/completions");
    assert_eq!(sent.namespace.as_deref(), Some("suite"));
    assert_eq!(sent.hash, request_hash(br#"{ "stream": true }"#));
    assert_eq!(sent.headers.len(), 2);
    let unlabelled = openai::begin_exchange(
        &sent,
        RecordFormat::Transcript,
        200,
        &HeaderMap::new(),
    );
    assert!(unlabelled.is_stream);
    let mut response = HeaderMap::new();
    response.append("content-type", HeaderValue::from_static("application/json"));
    let exchange = openai::begin_exchange(&sent, RecordFormat::Transcript, 200, &response);
    assert!(!exchange.is_stream);
    assert_eq!(exchange.content_type.as_deref(), Some("application/json"));
    let mut recorder = RecorderState::new();
    assert!(openai::end_exchange(&mut recorder, route, &exchange, true, CHAT).is_none());
    assert!(openai::end_exchange(
        &mut recorder,
        openai::Route::InputTokens,
        &exchange,
        false,
        CHAT
    )
    .is_none());
    assert_eq!(scenarios(&recorder).len(), 0);
    assert_eq!(
        openai::end_exchange(&mut recorder, route, &exchange, false, CHAT)
            .expect("to be recorded")
            .expect("recorded"),
        "suite/0001"
    );
    assert_eq!(
        scenarios(&recorder)[0].copy_at("matcher").str_at("request_hash"),
        sent.hash.as_deref()
    );
    let listed = openai::forward(&config, "upstream", openai::Route::Models, &request, None)
        .ok()
        .expect("let in");
    assert_eq!(listed.target, "https://api.openai.com/v1/models");
    assert_eq!(listed.headers.len(), 1);
    assert_eq!(listed.hash, None);
    assert!(listed.shape.is_none());
}

#[test]
fn anthropic_exchanges_go_from_request_to_recording() {
    let config = AnthropicConfig::default();
    let route = anthropic::Route::Messages;
    let body = br#"{"stream":true}"#;
    let mut request = HeaderMap::new();
    request.append("x-api-key", HeaderValue::from_static("suite"));
    assert_eq!(
        anthropic::forward(&config, route, &request, Some(body))
            .err()
            .expect("no version")
            .status,
        400
    );
    request.append("anthropic-version", HeaderValue::from_static("2023-06-01"));
    let sent = anthropic::forward(&config, route, &request, Some(body))
        .ok()
        .expect("let in");
    assert_eq!(sent.target, "https://api.anthropic.com/v1/messages");
    assert_eq!(sent.namespace.as_deref(), Some("suite"));
    assert_eq!(sent.hash, request_hash(body));
    assert!(sent.requested_stream);
    let mut response = HeaderMap::new();
    response.append("content-type", HeaderValue::from_static("application/json"));
    response.append("connection", HeaderValue::from_static("close"));
    let exchange = anthropic::begin_exchange(&sent, RecordFormat::Transcript, 200, &response);
    assert!(exchange.requested_stream && !exchange.is_stream);
    assert_eq!(exchange.headers.get("connection"), None);
    let mut recorder = RecorderState::new();
    assert!(anthropic::end_exchange(
        &mut recorder,
        anthropic::Route::CountTokens,
        &exchange,
        false,
        b"{}"
    )
    .is_none());
    assert_eq!(
        anthropic::end_exchange(&mut recorder, route, &exchange, false, b"{}")
            .expect("to be recorded")
            .expect("recorded"),
        "suite/0001"
    );
    assert_eq!(
        anthropic::end_exchange(&mut recorder, route, &exchange, false, b"{")
            .expect("to be recorded")
            .expect_err("no JSON"),
        AnthropicRecordError::InvalidJson
    );
    assert_eq!(scenarios(&recorder).len(), 1);
}

#[test]
fn openai_traffic_is_forwarded() {
    let responses = openai::Route::Generation(RecordedEndpoint::Responses);
    let chat = openai::Route::Generation(RecordedEndpoint::ChatCompletions);
    let mut config = OpenAiConfig::default();
    config.upstream_url = "http://up".to_owned();
    assert_eq!(
        openai::upstream_target(&config, responses),
        "http://up/v1/responses"
    );
    config.upstream_responses_path = Some("/backend-api/codex/responses".to_owned());
    assert_eq!(
        openai::upstream_target(&config, responses),
        "http://up/backend-api/codex/responses"
    );
    assert_eq!(
        openai::upstream_target(&config, chat),
        "http://up/v1/chat/completions"
    );
    assert_eq!(
        openai::upstream_target(&config, openai::Route::Models),
        "http://up/v1/models"
    );
    assert_eq!(
        openai::upstream_target(&config, openai::Route::InputTokens),
        "http://up/v1/responses/input_tokens"
    );
    let streaming = openai::exchange_shape(RecordedEndpoint::Responses, br#"{"stream":true}"#);
    assert!(openai::asks_stream(streaming));
    assert!(openai::is_event_stream(
        &HeaderMap::new(),
        openai::asks_stream(streaming)
    ));
    assert!(!openai::asks_stream(None));
    let failure = openai::upstream_error_response("refused");
    assert_eq!(failure.status, 502);
    match failure.body {
        Body::Whole(text) => assert_json(
            &json(&text),
            r#"{"error":{"message":"failed to reach proxy upstream: refused","type":"twin_proxy_error","param":null,"code":"upstream_unreachable"}}"#,
        ),
        _ => panic!("a document"),
    }
}

fn anthropic_exchange(format: RecordFormat, is_stream: bool) -> anthropic::Exchange {
    let mut headers = Headers::new();
    headers.set("request-id", "req_gateway");
    anthropic::Exchange {
        namespace: Some("suite".to_owned()),
        hash: twins::hash::request_hash(b"{}"),
        requested_stream: is_stream,
        is_stream,
        format,
        status: 200,
        headers,
    }
}

#[test]
fn anthropic_transcripts_keep_exact_bytes_and_headers() {
    let mut recorder = RecorderState::new();
    let body = "{\n  \"type\": \"message\", \"vendor_cost\": 1.2300\n}\n";
    let exchange = anthropic_exchange(RecordFormat::Transcript, false);
    assert_eq!(
        anthropic::record_exchange(&mut recorder, &exchange, body.as_bytes()).expect("recorded"),
        "suite/0001"
    );
    let script = scenarios(&recorder)[0].copy_at("script");
    assert_eq!(script.str_at("body_text"), Some(body));
    assert_json(&script.copy_at("headers"), r#"{"request-id":"req_gateway"}"#);
    let stream = anthropic_exchange(RecordFormat::Transcript, true);
    anthropic::record_exchange(
        &mut recorder,
        &stream,
        b"event:message_start\r\ndata:{\"a\":1}\r\n\r\n",
    )
    .expect("recorded");
    assert_json(
        &scenarios(&recorder)[1].copy_at("script").copy_at("events"),
        r#"[{"event":"message_start","data":"{\"a\":1}"}]"#,
    );
}

#[test]
fn anthropic_failures_are_not_recorded() {
    let mut recorder = RecorderState::new();
    let semantic = anthropic_exchange(RecordFormat::Semantic, true);
    assert_eq!(
        anthropic::record_exchange(
            &mut recorder,
            &semantic,
            b"event: message_start\ndata: {\"type\":\"message_start\",\"message\":{\"id\":\"msg\"}}\n\n"
        )
        .expect_err("unfinished"),
        AnthropicRecordError::Unfinished
    );
    let transcript = anthropic_exchange(RecordFormat::Transcript, false);
    assert_eq!(
        anthropic::record_exchange(&mut recorder, &transcript, b"{").expect_err("no JSON"),
        AnthropicRecordError::InvalidJson
    );
    assert_eq!(scenarios(&recorder).len(), 0);
    let messages = anthropic::Route::Messages;
    assert!(anthropic::should_record(messages, false, 200));
    assert!(!anthropic::should_record(anthropic::Route::CountTokens, false, 200));
    assert!(!anthropic::should_record(anthropic::Route::Models, false, 200));
    assert!(!anthropic::should_record(messages, true, 200));
    assert!(!anthropic::should_record(messages, false, 529));
}

#[test]
fn anthropic_semantic_recordings_keep_the_content() {
    let mut recorder = RecorderState::new();
    let exchange = anthropic_exchange(RecordFormat::Semantic, false);
    anthropic::record_exchange(
        &mut recorder,
        &exchange,
        br#"{"type":"message","content":[{"type":"text","text":"partial"}],"stop_reason":"max_tokens","usage":{"input_tokens":9}}"#,
    )
    .expect("recorded");
    assert_json(
        &scenarios(&recorder)[0],
        r#"{"scenario_id":"suite/0001","namespace":"suite","matcher":{"endpoint":"messages","stream":false},
            "script":{"kind":"success","content":[{"type":"text","text":"partial"}],"stop_reason":"max_tokens","usage":{"input_tokens":9}}}"#,
    );
}

#[test]
fn anthropic_recordings_are_taken_up() {
    let envelope = ScenarioEnvelope {
        scenarios: Vec::new(),
    };
    let state = anthropic::load_recorder_state(
        &envelope,
        br#"{"scenarios":[{"scenario_id":"suite/0004"}]}"#,
    );
    let mut recorder = match state {
        Ok(state) => state,
        Err(_) => panic!("a recording"),
    };
    let exchange = anthropic_exchange(RecordFormat::Transcript, false);
    assert_eq!(
        anthropic::record_exchange(&mut recorder, &exchange, b"{}").expect("recorded"),
        "suite/0005"
    );
    assert!(matches!(
        anthropic::load_recorder_state(&envelope, b"{}"),
        Err(anthropic::LoadError::MissingScenarios)
    ));
    assert!(matches!(
        anthropic::load_recorder_state(&envelope, b"{"),
        Err(anthropic::LoadError::Json(_))
    ));
}

#[test]
fn anthropic_headers_pass_but_for_hops_and_credentials() {
    let mut headers = HeaderMap::new();
    headers.append("connection", HeaderValue::from_static("close"));
    headers.append("x-api-key", HeaderValue::from_static("secret"));
    headers.append("request-id", HeaderValue::from_static("one"));
    headers.append("request-id", HeaderValue::from_static("two"));
    headers.append(
        "x-opaque",
        HeaderValue::from_bytes(&[0xff]).expect("opaque value"),
    );
    let kept = anthropic::retained_headers(&headers);
    assert_eq!(kept.get("request-id"), Some("two"));
    assert_eq!(kept.get("connection"), None);
    assert_eq!(kept.get("x-api-key"), None);
    assert_eq!(kept.get("x-opaque"), None);
    assert!(anthropic::requests_stream(br#"{"stream":true}"#));
    assert!(!anthropic::requests_stream(br#"{"stream":"true"}"#));
    assert!(!anthropic::requests_stream(b"not JSON"));
    let config = AnthropicConfig::default();
    assert_eq!(
        anthropic::accept_request(&config, &HeaderMap::new())
            .err()
            .expect("refused")
            .status,
        401
    );
    assert_eq!(anthropic::upstream_error().status, 502);
}
