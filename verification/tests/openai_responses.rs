use axum::http::{HeaderMap, HeaderValue};
use twins::codec::{parse_text, render};
use twins::headers::Headers;
use twins::json::{same_value, Json};
use twins::openai::auth::proxy_bearer_token;
use twins::openai::chat_completions::create_chat_completion;
use twins::openai::failures::{
    ErrorOutcome, ExecutionOutcome, SuccessOutcome, TranscriptBody, TranscriptEvent,
    TranscriptOutcome, TransportOptions,
};
use twins::openai::input_tokens::{count_input_tokens, text_tokens};
use twins::openai::model_catalog::list_models;
use twins::openai::plan::{ResponsePlan, TokenUsage, ToolCallPlan};
use twins::openai::record::{
    derive_script, parse_sse_events, ExchangeShape, RecordError, RecordedEndpoint,
    RecordedExchange,
};
use twins::openai::sse::{chat_sse_response, responses_sse_response, transcript_response};
use twins::reply::{Body, Content, Reply};
use twins::transport::{RawChunk, RawOutcome};

fn json(text: &str) -> Json {
    parse_text(text).expect("JSON")
}

fn assert_json(actual: &Json, expected: &str) {
    assert!(
        same_value(actual, &json(expected)),
        "{} is not {}",
        render(actual),
        expected
    );
}

fn call(id: &str, arguments: &str, custom: bool) -> ToolCallPlan {
    ToolCallPlan {
        id: id.to_owned(),
        name: "weather".to_owned(),
        arguments: json(arguments),
        raw_arguments: None,
        custom,
    }
}

fn plan() -> ResponsePlan {
    ResponsePlan {
        id: "resp_000001".to_owned(),
        created: 17,
        model: "gpt-test".to_owned(),
        response_text: "hello".to_owned(),
        structured_output: None,
        reasoning: vec!["hmm".to_owned(), "aha".to_owned()],
        tool_calls: vec![call("call_1", r#"{"city":"Boston"}"#, false)],
        usage: TokenUsage::new(9, 4),
        truncated: false,
    }
}

fn sent_text(reply: &Reply) -> String {
    match &reply.body {
        Body::Whole(text) => text.clone(),
        Body::Chunks(chunks) => chunks
            .iter()
            .map(|chunk| match &chunk.content {
                Content::Text(text) => text.as_str(),
                _ => panic!("text"),
            })
            .collect(),
        Body::Never => String::new(),
    }
}

fn chunk_count(reply: &Reply) -> usize {
    match &reply.body {
        Body::Chunks(chunks) => chunks.len(),
        _ => 0,
    }
}

fn shape(endpoint: RecordedEndpoint, structured: bool) -> ExchangeShape {
    ExchangeShape {
        endpoint,
        stream: true,
        structured,
    }
}

fn from_stream(shape: ExchangeShape, reply: &Reply) -> Result<Json, RecordError> {
    let events = parse_sse_events(sent_text(reply).as_bytes()).expect("events");
    derive_script(shape, &RecordedExchange::Stream(events)).map(Json::Object)
}

fn from_document(shape: ExchangeShape, document: Json) -> Json {
    Json::Object(derive_script(shape, &RecordedExchange::Json(document)).expect("a script"))
}

#[test]
fn usage_is_summed_and_reported() {
    let usage = TokenUsage::default();
    assert_eq!(usage.total_tokens(), 6);
    assert_json(
        &usage.responses_json(),
        r#"{"input_tokens":1,"output_tokens":5,"total_tokens":6}"#,
    );
    assert_json(
        &TokenUsage::new(2, 3).chat_completions_json(),
        r#"{"prompt_tokens":2,"completion_tokens":3,"total_tokens":5}"#,
    );
}

#[test]
fn documents_are_rendered_from_the_plan() {
    assert_json(
        &plan().responses_json(),
        r#"{"id":"resp_000001","object":"response","created":17,"model":"gpt-test","status":"completed","reasoning":["hmm","aha"],
            "output":[{"id":"msg_resp_000001","type":"message","role":"assistant","content":[{"type":"output_text","text":"hello"}]},
                {"id":"fc_call_1","type":"function_call","call_id":"call_1","name":"weather","arguments":"{\"city\":\"Boston\"}"}],
            "usage":{"input_tokens":9,"output_tokens":4,"total_tokens":13}}"#,
    );
    assert_json(
        &plan().chat_completions_json(),
        r#"{"id":"chatcmpl_resp_000001","object":"chat.completion","created":17,"model":"gpt-test",
            "choices":[{"index":0,"finish_reason":"tool_calls","message":{"role":"assistant","content":"hello","reasoning":["hmm","aha"],
                "tool_calls":[{"id":"call_1","type":"function","function":{"name":"weather","arguments":"{\"city\":\"Boston\"}"}}]}}],
            "usage":{"prompt_tokens":9,"completion_tokens":4,"total_tokens":13}}"#,
    );
    let mut cut = plan();
    cut.truncated = true;
    assert_eq!(cut.chat_finish_reason(), "length");
    assert_eq!(cut.responses_status(), "incomplete");
    assert_json(
        &cut.responses_json().copy_at("incomplete_details"),
        r#"{"reason":"max_output_tokens"}"#,
    );
    let mut structured = plan();
    structured.structured_output = Some(json(r#"{"ok":true}"#));
    structured.tool_calls = Vec::new();
    assert_eq!(structured.chat_content(), r#"{"ok":true}"#);
    assert_eq!(structured.chat_finish_reason(), "stop");
}

#[test]
fn payloads_are_raw_free_form_or_json() {
    let mut raw = call("c", "{}", false);
    raw.raw_arguments = Some("{broken".to_owned());
    assert_eq!(ResponsePlan::tool_call_arguments_text(&raw), "{broken");
    let free = call("c", "\"run it\"", true);
    assert_eq!(ResponsePlan::tool_call_arguments_text(&free), "run it");
    assert_json(
        &ResponsePlan::responses_tool_call_item(&free),
        r#"{"id":"ctc_c","type":"custom_tool_call","call_id":"c","name":"weather","input":"run it"}"#,
    );
    let text = call("c", "\"run it\"", false);
    assert_eq!(ResponsePlan::tool_call_arguments_text(&text), "\"run it\"");
}

#[test]
fn response_streams_show_what_the_document_shows() {
    let reply = responses_sse_response(&plan(), TransportOptions::default());
    assert_eq!(reply.status, 200);
    assert_eq!(reply.headers.get("content-type"), Some("text/event-stream"));
    assert_eq!(reply.headers.get("cache-control"), Some("no-cache"));
    let names: Vec<String> = parse_sse_events(sent_text(&reply).as_bytes())
        .expect("events")
        .into_iter()
        .map(|event| event.event.expect("a name"))
        .collect();
    assert_eq!(
        names,
        [
            "response.created",
            "response.in_progress",
            "response.output_item.added",
            "response.reasoning.delta",
            "response.reasoning.delta",
            "response.output_item.done",
            "response.output_item.added",
            "response.content_part.added",
            "response.output_text.delta",
            "response.output_text.done",
            "response.content_part.done",
            "response.output_item.done",
            "response.output_item.added",
            "response.function_call_arguments.delta",
            "response.function_call_arguments.done",
            "response.output_item.done",
            "response.completed",
        ]
    );
    let shape = shape(RecordedEndpoint::Responses, false);
    let streamed = from_stream(shape, &reply).expect("a script");
    assert!(same_value(
        &streamed,
        &from_document(shape, plan().responses_json())
    ));
    assert_json(
        &streamed,
        r#"{"kind":"success","response_text":"hello","tool_calls":[{"name":"weather","arguments":{"city":"Boston"}}],"usage":{"input_tokens":9,"output_tokens":4}}"#,
    );
}

#[test]
fn cut_off_responses_never_complete() {
    let mut cut = plan();
    cut.truncated = true;
    let reply = responses_sse_response(&cut, TransportOptions::default());
    assert!(sent_text(&reply).contains("event: response.incomplete\n"));
    assert_eq!(
        from_stream(shape(RecordedEndpoint::Responses, false), &reply)
            .expect_err("never completed"),
        RecordError::Unfinished
    );
}

#[test]
fn custom_calls_stream_their_input() {
    let mut custom = plan();
    custom.tool_calls = vec![call("call_1", "\"run it\"", true)];
    let text = sent_text(&responses_sse_response(&custom, TransportOptions::default()));
    assert!(text.contains("event: response.custom_tool_call_input.delta\n"));
    assert!(text.contains("event: response.custom_tool_call_input.done\n"));
    assert!(!text.contains("function_call_arguments"));
}

#[test]
fn chat_streams_show_what_the_document_shows() {
    let shape = shape(RecordedEndpoint::ChatCompletions, false);
    let reply = chat_sse_response(&plan(), true, TransportOptions::default());
    assert!(sent_text(&reply).ends_with("data: [DONE]\n\n"));
    let streamed = from_stream(shape, &reply).expect("a script");
    assert!(same_value(
        &streamed,
        &from_document(shape, plan().chat_completions_json())
    ));
    let bare = from_stream(
        shape,
        &chat_sse_response(&plan(), false, TransportOptions::default()),
    )
    .expect("a script");
    assert!(bare.get("usage").is_none());
    assert_eq!(sent_text(&reply).matches("[DONE]").count(), 1);
    for structured_output in [None, Some(json(r#"{"ratio":0.5}"#))] {
        let mut planned = plan();
        planned.response_text = String::new();
        planned.structured_output = structured_output;
        let shape = ExchangeShape {
            structured: true,
            ..shape
        };
        let reply = chat_sse_response(&planned, true, TransportOptions::default());
        assert!(same_value(
            &from_stream(shape, &reply).expect("a script"),
            &from_document(shape, planned.chat_completions_json())
        ));
    }
    assert!(same_value(
        &bare.copy_at("tool_calls"),
        &streamed.copy_at("tool_calls")
    ));
}

#[test]
fn structured_output_is_given_back() {
    let mut structured = plan();
    structured.response_text = String::new();
    structured.structured_output = Some(json(r#"{"ok":true}"#));
    for (endpoint, document) in [
        (RecordedEndpoint::Responses, structured.responses_json()),
        (
            RecordedEndpoint::ChatCompletions,
            structured.chat_completions_json(),
        ),
    ] {
        let script = from_document(shape(endpoint, true), document);
        assert_json(&script.copy_at("structured_output"), r#"{"ok":true}"#);
        assert!(script.get("response_text").is_none());
    }
}

#[test]
fn faulty_transports_cut_and_break_streams() {
    let options = TransportOptions {
        inter_event_delay_ms: 30,
        close_after_chunks: Some(2),
        ..TransportOptions::default()
    };
    let cut = chat_sse_response(&plan(), false, options);
    assert_eq!(chunk_count(&cut), 2);
    match &cut.body {
        Body::Chunks(chunks) => assert!(chunks.iter().all(|chunk| chunk.delay_ms == 30)),
        _ => panic!("chunks"),
    }
    let broken = TransportOptions {
        malformed_sse: true,
        ..TransportOptions::default()
    };
    let chat = sent_text(&chat_sse_response(&plan(), true, broken));
    assert!(chat.ends_with("event: malformed\ndata: {"));
    assert!(!chat.contains("[DONE]"));
    let responses = sent_text(&responses_sse_response(&plan(), broken));
    assert!(responses.ends_with("event: malformed\ndata: {"));
    assert!(!responses.contains("response.completed"));
}

#[test]
fn transcripts_are_sent_as_captured() {
    let events = transcript_response(TranscriptOutcome {
        status: 206,
        content_type: None,
        body: TranscriptBody::Events(vec![
            TranscriptEvent {
                event: Some("a".to_owned()),
                data: "1\n2".to_owned(),
            },
            TranscriptEvent {
                event: None,
                data: "[DONE]".to_owned(),
            },
        ]),
    });
    assert_eq!(events.status, 206);
    assert_eq!(events.headers.get("content-type"), Some("text/event-stream"));
    assert_eq!(chunk_count(&events), 2);
    assert_eq!(
        sent_text(&events),
        "event: a\ndata: 1\ndata: 2\n\ndata: [DONE]\n\n"
    );
    let body = transcript_response(TranscriptOutcome {
        status: 200,
        content_type: Some("application/vnd.gate+json".to_owned()),
        body: TranscriptBody::Json(json(r#"{"cost":1}"#)),
    });
    assert_eq!(
        body.headers.get("content-type"),
        Some("application/vnd.gate+json")
    );
    assert_eq!(sent_text(&body), r#"{"cost":1}"#);
    let odd = transcript_response(TranscriptOutcome {
        status: 200,
        content_type: Some("bad\nvalue".to_owned()),
        body: TranscriptBody::Json(Json::Null),
    });
    assert_eq!(odd.headers.get("content-type"), None);
}

fn success(transport: TransportOptions) -> ExecutionOutcome {
    ExecutionOutcome::Success(SuccessOutcome {
        plan: plan(),
        transport,
    })
}

#[test]
fn completions_are_answered_by_outcome() {
    let slow = TransportOptions {
        delay_before_headers_ms: 60,
        ..TransportOptions::default()
    };
    let whole = create_chat_completion(success(slow), false, false);
    assert_eq!(whole.delay_ms, 60);
    assert_eq!(whole.headers.get("content-type"), Some("application/json"));
    assert_eq!(
        sent_text(&whole),
        render(&plan().chat_completions_json())
    );
    let streamed = create_chat_completion(success(slow), true, true);
    assert_eq!(streamed.delay_ms, 60);
    assert!(sent_text(&streamed).contains("\"usage\""));
    let error = create_chat_completion(
        ExecutionOutcome::Error(ErrorOutcome::new(
            429,
            "slow down".to_owned(),
            "rate_limit_error".to_owned(),
            "rate_limited".to_owned(),
            Some("2".to_owned()),
            5,
        )),
        false,
        false,
    );
    assert_eq!((error.status, error.delay_ms), (429, 5));
    assert_eq!(error.headers.get("retry-after"), Some("2"));
    assert_json(
        &json(&sent_text(&error)),
        r#"{"error":{"message":"slow down","type":"rate_limit_error","param":null,"code":"rate_limited"}}"#,
    );
    let hang = create_chat_completion(
        ExecutionOutcome::Hang {
            delay_before_headers_ms: 8,
        },
        true,
        false,
    );
    assert_eq!(hang.delay_ms, 8);
    assert!(matches!(hang.body, Body::Never));
    let raw = create_chat_completion(
        ExecutionOutcome::Raw(RawOutcome {
            status: 200,
            content_type: None,
            headers: Headers::new(),
            chunks: vec![RawChunk::Text {
                text: "exact".to_owned(),
                delay_ms: 0,
            }],
            delay_before_headers_ms: 0,
        }),
        false,
        false,
    );
    assert_eq!(sent_text(&raw), "exact");
    let recorded = create_chat_completion(
        ExecutionOutcome::Transcript(TranscriptOutcome {
            status: 201,
            content_type: None,
            body: TranscriptBody::Json(json("[1]")),
        }),
        false,
        false,
    );
    assert_eq!(recorded.status, 201);
    assert_eq!(sent_text(&recorded), "[1]");
}

#[test]
fn written_texts_are_counted() {
    for (text, tokens) in [("", 1), ("a", 1), ("abcd", 1), ("abcde", 2), ("🌊🌊", 2)] {
        assert_eq!(text_tokens(text), tokens);
    }
}

#[test]
fn utilities_are_deterministic() {
    assert_json(
        &list_models(),
        r#"{"object":"list","data":[{"id":"gpt-test","object":"model","created":0,"owned_by":"twin-openai","shutdown_date":null}]}"#,
    );
    let body = json(r#"{"model":"gpt-test","input":"hello"}"#);
    let reordered = json(r#"{ "input": "hello", "model": "gpt-test" }"#);
    let expected = render(&body).len().div_ceil(4) as u64;
    for body in [&body, &reordered] {
        assert_json(
            &count_input_tokens(body),
            &format!("{{\"object\":\"response.input_tokens\",\"input_tokens\":{expected}}}"),
        );
    }
    let longer = json(r#"{"model":"gpt-test","input":"hello there, and then some"}"#);
    assert!(
        count_input_tokens(&longer)
            .get("input_tokens")
            .and_then(Json::as_u64)
            > Some(expected)
    );
}

#[test]
fn bearer_tokens_name_namespaces() {
    let mut headers = HeaderMap::new();
    assert!(matches!(proxy_bearer_token(&headers, false), Ok(None)));
    let missing = proxy_bearer_token(&headers, true).err().expect("refused");
    assert_eq!(missing.status, 401);
    assert_eq!(missing.body.error.error_type, "invalid_request_error");
    assert_eq!(missing.body.error.code, "missing_bearer_token");
    for bad in ["Bearer ", "Basic abc", "Bearer   "] {
        headers.insert("authorization", HeaderValue::from_str(bad).expect("value"));
        assert!(proxy_bearer_token(&headers, false).is_err());
    }
    headers.insert("authorization", HeaderValue::from_static("Bearer suite-a"));
    assert!(matches!(
        proxy_bearer_token(&headers, true),
        Ok(Some(token)) if token == "suite-a"
    ));
}
