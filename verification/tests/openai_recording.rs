use twins::codec::{parse_text, render};
use twins::json::{same_value, Json};
use twins::openai::record::{
    derive_script, parse_sse_events, request_hash, ExchangeShape, RecordError, RecordedEndpoint,
    RecordedExchange, RecordedSseEvent,
};

fn json(text: &str) -> Json {
    parse_text(text).expect("JSON")
}

#[test]
fn request_hash_ignores_whitespace_and_recursive_object_key_order() {
    let first = br#"{"model":"gpt-test","messages":[{"role":"user","content":"hello"}],"metadata":{"b":2,"a":1}}"#;
    let reordered = br#"{
        "metadata": {"a": 1, "b": 2},
        "messages": [{"content": "hello", "role": "user"}],
        "model": "gpt-test"
    }"#;

    let hash = request_hash(first).expect("valid request JSON");
    assert_eq!(Some(hash), request_hash(reordered));
}

#[test]
fn request_hash_preserves_array_order_and_values() {
    let hash = request_hash(br#"{"input":["first","second"]}"#).expect("valid JSON");
    assert_ne!(
        Some(hash.clone()),
        request_hash(br#"{"input":["second","first"]}"#)
    );
    assert_ne!(Some(hash), request_hash(br#"{"input":["first","third"]}"#));
    assert_eq!(request_hash(b"not JSON"), None);
}

#[test]
fn sse_accepts_supported_line_endings_and_optional_spaces() {
    for newline in ["\n", "\r\n", "\r"] {
        for space in ["", " "] {
            let body = [
                ": keepalive".to_owned(),
                format!("event:{space}response.output_text.delta"),
                "id: 123".to_owned(),
                format!("data:{space}first"),
                format!("data:{space}second"),
                String::new(),
                format!("data:{space}[DONE]"),
                String::new(),
                String::new(),
            ]
            .join(newline);
            let events = parse_sse_events(body.as_bytes()).expect("valid SSE");
            assert_eq!(events.len(), 2, "body: {body:?}");
            assert_eq!(
                events[0].event.as_deref(),
                Some("response.output_text.delta")
            );
            assert_eq!(events[0].data, "first\nsecond");
            assert_eq!(events[1].event, None);
            assert_eq!(events[1].data, "[DONE]");
        }
    }
}

#[test]
fn sse_preserves_empty_data_and_leading_spaces() {
    let body =
        "\u{feff}event: unused\n\n: comment\r\rdata\r\n\r\nevent: last\ndata:  spaced\ndata:";
    let events = parse_sse_events(body.as_bytes()).expect("valid SSE");
    assert_eq!(events.len(), 2);
    assert_eq!(events[0].event, None);
    assert_eq!(events[0].data, "");
    assert_eq!(events[1].event.as_deref(), Some("last"));
    assert_eq!(events[1].data, " spaced\n");
    assert!(parse_sse_events(&[0xff]).is_err());
}

fn shape(endpoint: RecordedEndpoint, structured: bool) -> ExchangeShape {
    ExchangeShape {
        endpoint,
        stream: false,
        structured,
    }
}

fn derived(shape: ExchangeShape, exchange: &RecordedExchange) -> Json {
    Json::Object(derive_script(shape, exchange).expect("a derivable exchange"))
}

fn from_body(endpoint: RecordedEndpoint, structured: bool, body: &str) -> Json {
    derived(
        shape(endpoint, structured),
        &RecordedExchange::Json(json(body)),
    )
}

fn events(data: &[(Option<&str>, &str)]) -> RecordedExchange {
    RecordedExchange::Stream(
        data.iter()
            .map(|(name, data)| RecordedSseEvent {
                event: name.map(str::to_owned),
                data: (*data).to_owned(),
            })
            .collect(),
    )
}

fn assert_json(actual: &Json, expected: &str) {
    assert!(
        same_value(actual, &json(expected)),
        "{} is not {}",
        render(actual),
        expected
    );
}

#[test]
fn shapes_follow_the_request() {
    let responses = ExchangeShape::from_request(
        RecordedEndpoint::Responses,
        &json(r#"{"stream":true,"text":{"format":{"type":"json_schema"}}}"#),
    );
    assert!(responses.stream && responses.structured);
    let chat = ExchangeShape::from_request(
        RecordedEndpoint::ChatCompletions,
        &json(r#"{"response_format":{"type":"json_object"},"stream":1}"#),
    );
    assert!(!chat.stream && chat.structured);
    let plain = ExchangeShape::from_request(
        RecordedEndpoint::ChatCompletions,
        &json(r#"{"text":{"format":{"type":"json_schema"}}}"#),
    );
    assert!(!plain.stream && !plain.structured);
    assert_eq!(RecordedEndpoint::Responses.scenario_endpoint(), "responses");
    assert_eq!(
        RecordedEndpoint::ChatCompletions.scenario_endpoint(),
        "chat.completions"
    );
}

#[test]
fn responses_documents_become_scripts() {
    let body = r#"{"output":[
        {"type":"reasoning"},
        {"type":"message","content":[{"type":"output_text","text":"{\"a\":1}"}]},
        {"type":"function_call","name":"look","arguments":"{\"city\":\"Oslo\"}"},
        {"type":"function_call","name":"odd","arguments":"not json"}
    ],"usage":{"input_tokens":7,"output_tokens":5}}"#;
    assert_json(
        &from_body(RecordedEndpoint::Responses, false, body),
        r#"{"kind":"success","response_text":"{\"a\":1}","tool_calls":[
            {"name":"look","arguments":{"city":"Oslo"}},{"name":"odd","arguments":"not json"}
        ],"usage":{"input_tokens":7,"output_tokens":5}}"#,
    );
    assert_json(
        &from_body(RecordedEndpoint::Responses, true, body).copy_at("structured_output"),
        r#"{"a":1}"#,
    );
    assert_json(
        &from_body(
            RecordedEndpoint::Responses,
            false,
            r#"{"output":[{"type":"message","content":[{"type":"output_json","json":[1]}]}],"usage":{"input_tokens":7}}"#,
        ),
        r#"{"kind":"success","structured_output":[1]}"#,
    );
}

#[test]
fn chat_documents_become_scripts() {
    assert_json(
        &from_body(
            RecordedEndpoint::ChatCompletions,
            false,
            r#"{"choices":[{"message":{"content":"hi","tool_calls":[
                {"function":{"name":"look","arguments":"{}"}}
            ]}}],"usage":{"prompt_tokens":2,"completion_tokens":1}}"#,
        ),
        r#"{"kind":"success","response_text":"hi","tool_calls":[{"name":"look","arguments":{}}],"usage":{"input_tokens":2,"output_tokens":1}}"#,
    );
    assert_json(
        &from_body(
            RecordedEndpoint::ChatCompletions,
            true,
            r#"{"choices":[{"message":{"content":"{\"ok\":true}"}}]}"#,
        ),
        r#"{"kind":"success","structured_output":{"ok":true}}"#,
    );
    assert_json(
        &from_body(
            RecordedEndpoint::ChatCompletions,
            true,
            r#"{"choices":[{"message":{"content":""}}]}"#,
        ),
        r#"{"kind":"success"}"#,
    );
}

#[test]
fn streams_become_scripts() {
    let responses = events(&[
        (Some("response.created"), "{not read"),
        (
            Some("response.completed"),
            r#"{"response":{"output":[{"type":"message","content":[{"type":"output_text","text":"done"}]}]}}"#,
        ),
        (Some("response.completed"), "{not read"),
    ]);
    assert_json(
        &derived(shape(RecordedEndpoint::Responses, false), &responses),
        r#"{"kind":"success","response_text":"done"}"#,
    );
    let chat = events(&[
        (
            None,
            r#"{"choices":[{"delta":{"content":"he","tool_calls":[{"index":1,"function":{"name":"b","arguments":"{"}}]}}]}"#,
        ),
        (
            None,
            r#"{"choices":[{"delta":{"content":"llo","tool_calls":[{"index":0,"function":{"name":"a","arguments":"1"}},{"index":1,"function":{"arguments":"}"}}]}}],"usage":null}"#,
        ),
        (
            None,
            r#"{"choices":[],"usage":{"prompt_tokens":3,"completion_tokens":4}}"#,
        ),
        (None, "[DONE]"),
    ]);
    assert_json(
        &derived(shape(RecordedEndpoint::ChatCompletions, false), &chat),
        r#"{"kind":"success","response_text":"hello","tool_calls":[{"name":"a","arguments":1},{"name":"b","arguments":{}}],"usage":{"input_tokens":3,"output_tokens":4}}"#,
    );
}

#[test]
fn every_underivable_exchange_has_its_error() {
    let error = |endpoint: RecordedEndpoint, exchange: &RecordedExchange| -> RecordError {
        derive_script(shape(endpoint, false), exchange).expect_err("an underivable exchange")
    };
    let body = |text: &str| RecordedExchange::Json(json(text));
    let responses = RecordedEndpoint::Responses;
    let chat = RecordedEndpoint::ChatCompletions;
    assert_eq!(error(responses, &body("{}")), RecordError::MissingOutput);
    assert_eq!(
        error(responses, &body(r#"{"output":[{"type":"function_call"}]}"#)),
        RecordError::MissingName
    );
    assert_eq!(
        error(
            responses,
            &body(r#"{"output":[{"type":"function_call","name":"x"}]}"#)
        ),
        RecordError::MissingArguments
    );
    assert_eq!(
        error(chat, &body(r#"{"choices":[]}"#)),
        RecordError::MissingMessage
    );
    assert_eq!(
        error(
            chat,
            &body(r#"{"choices":[{"message":{"tool_calls":[{"function":{"name":"x"}}]}}]}"#)
        ),
        RecordError::MissingArguments
    );
    assert_eq!(
        error(responses, &events(&[(Some("response.completed"), "{")])),
        RecordError::InvalidJson
    );
    assert_eq!(
        error(responses, &events(&[(Some("response.completed"), "{}")])),
        RecordError::MissingResponse
    );
    assert_eq!(
        error(responses, &events(&[(Some("response.created"), "{}")])),
        RecordError::Unfinished
    );
    assert_eq!(
        error(chat, &events(&[(None, "{")])),
        RecordError::InvalidJson
    );
    assert_eq!(
        parse_sse_events(&[0xff]).expect_err("no text"),
        RecordError::NotText
    );
}
