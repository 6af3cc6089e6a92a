use twins::sse::{parse_events, render};
use twins::transport::{raw_response, RawChunk, RawOutcome};
use twins::headers::Headers;
use twins::reply::{Body, Content};

#[test]
fn sent_events_read_back() {
    let sent = [
        (Some("a"), "one\ntwo"),
        (None, ""),
        (Some(""), " leading"),
        (Some("last"), "trailing\n"),
    ];
    let body: String = sent.iter().map(|(name, data)| render(*name, data)).collect();
    let events = parse_events(body.as_bytes()).expect("text");
    assert_eq!(events.len(), sent.len());
    for (event, (name, data)) in events.iter().zip(sent) {
        assert_eq!(event.event.as_deref(), name);
        assert_eq!(event.data, data);
    }
    assert_eq!(
        render(Some("a"), "one\ntwo"),
        "event: a\ndata: one\ndata: two\n\n"
    );
}

#[test]
fn read_events_send_back() {
    let body = b"event:x\r\ndata:1\r\ndata: 2\r\n\r\n: note\r\rid: 7\ndata";
    let read = parse_events(body).expect("text");
    let again: String = read
        .iter()
        .map(|event| render(event.event.as_deref(), &event.data))
        .collect();
    let twice = parse_events(again.as_bytes()).expect("text");
    assert_eq!(read.len(), 2);
    assert_eq!(twice.len(), 2);
    for (a, b) in read.iter().zip(&twice) {
        assert_eq!(a.event, b.event);
        assert_eq!(a.data, b.data);
    }
}

#[test]
fn data_with_a_carriage_return_does_not_read_back() {
    let events = parse_events(render(None, "a\rb").as_bytes()).expect("text");
    assert_ne!(events[0].data, "a\rb");
}

#[test]
fn raw_responses_send_exact_bytes_and_stop_at_a_failure() {
    let mut headers = Headers::new();
    headers.set("content-type", "text/plain");
    headers.set("x-case", "bytes");
    let reply = raw_response(RawOutcome {
        status: 201,
        content_type: Some("application/octet-stream".to_owned()),
        headers,
        chunks: vec![
            RawChunk::Text {
                text: "prefix".to_owned(),
                delay_ms: 0,
            },
            RawChunk::Bytes {
                bytes: vec![0, 255, 254],
                delay_ms: 3,
            },
            RawChunk::Error {
                message: "connection reset".to_owned(),
                delay_ms: 40,
            },
            RawChunk::Text {
                text: "never".to_owned(),
                delay_ms: 0,
            },
        ],
        delay_before_headers_ms: 9,
    });
    assert_eq!(reply.status, 201);
    assert_eq!(reply.delay_ms, 9);
    assert_eq!(
        reply.headers.get("content-type"),
        Some("application/octet-stream")
    );
    assert_eq!(reply.headers.get("x-case"), Some("bytes"));
    let chunks = match reply.body {
        Body::Chunks(chunks) => chunks,
        _ => panic!("chunks"),
    };
    assert_eq!(chunks.len(), 3);
    assert!(matches!(&chunks[0].content, Content::Text(text) if text == "prefix"));
    assert!(matches!(&chunks[1].content, Content::Bytes(bytes) if bytes == &[0, 255, 254]));
    assert_eq!(chunks[1].delay_ms, 3);
    assert!(matches!(&chunks[2].content, Content::Failure(text) if text == "connection reset"));
}
