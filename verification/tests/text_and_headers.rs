use twins::codec::{canonical_text, parse, parse_text, render, render_pretty};
use twins::hash::{request_hash, text_key};
use twins::headers::{apply_headers, final_status, is_event_stream, Headers};
use twins::json::{same_value, Json, Members};
use twins::text;

#[test]
fn texts_are_taken_apart_and_put_together() {
    assert_eq!(text::normalize("  a \t b\n\u{2003}c "), "a b c");
    assert_eq!(text::normalize(" \n"), "");
    assert!(text::is_blank("\u{a0}\n"));
    assert!(!text::is_blank(" x"));
    assert_eq!(text::trim(" \u{3000}key\t"), "key");
    assert_eq!(text::decimal_text(0), "0");
    assert_eq!(text::decimal_text(90210), "90210");
    assert_eq!(text::zero_padded_text(7, 4), "0007");
    assert_eq!(text::zero_padded_text(123456, 4), "123456");
    assert_eq!(text::parse_u64("+0042"), Some(42));
    assert_eq!(text::parse_u64("18446744073709551615"), Some(u64::MAX));
    assert_eq!(text::parse_u64("18446744073709551616"), None);
    assert_eq!(text::parse_u64("-1"), None);
    assert_eq!(text::parse_u64(""), None);
    assert!(text::contains("a text/event-stream; x", "text/event-stream"));
    assert!(!text::contains("text", "texts"));
    assert_eq!(text::strip_prefix("Bearer k", "Bearer ").as_deref(), Some("k"));
    assert_eq!(text::strip_prefix("bearer k", "Bearer "), None);
}

#[test]
fn the_order_of_an_array_counts() {
    let canonical = |body: &[u8]| canonical_text(body).expect("JSON");
    assert_eq!(canonical(br#"{ "b": 1, "a": [1, 2] }"#), r#"{"a":[1,2],"b":1}"#);
    assert_ne!(
        canonical(br#"{"items":[1,2]}"#),
        canonical(br#"{"items":[2,1]}"#)
    );
}

#[test]
fn normalizing_again_changes_nothing() {
    for given in ["", " \t", "a", " a  b ", "\u{2003}x\n\ny\u{85}"] {
        let once = text::normalize(given);
        assert_eq!(text::normalize(&once), once);
    }
}

#[test]
fn numbers_read_and_print_as_the_standard_library_does() {
    for text in ["0", "00", "+7", "12x", " 1", "184467440737095516159", "٣"] {
        assert_eq!(text::parse_u64(text), text.parse::<u64>().ok(), "{text}");
    }
    for n in [0, 9, 10, 1234567890123, u64::MAX] {
        assert_eq!(text::decimal_text(n), n.to_string());
    }
}

#[test]
fn json_is_read_and_written() {
    let value = parse(br#" {"b":[1,null,true,"x\n"],"a":{"z":-3}} "#).expect("JSON");
    assert_eq!(render(&value), r#"{"a":{"z":-3},"b":[1,null,true,"x\n"]}"#);
    assert_eq!(
        render_pretty(&parse_text(r#"{"a":[1]}"#).expect("JSON")),
        "{\n  \"a\": [\n    1\n  ]\n}"
    );
    assert!(parse(b"").is_err());
    assert!(parse(&[0xff]).is_err());
    let error = parse_text("{bad").expect_err("no JSON");
    assert_eq!(error, "key must be a string at line 1 column 2");
    assert_eq!(
        canonical_text(br#"{"b":1,"a":{"d":2,"c":3}}"#).expect("JSON"),
        r#"{"a":{"c":3,"d":2},"b":1}"#
    );
    let deep = format!("{}{}", "[".repeat(127), "]".repeat(127));
    assert_eq!(render(&parse_text(&deep).expect("127 levels")), deep);
    let deeper = format!("{}{}", "[".repeat(128), "]".repeat(128));
    assert!(parse_text(&deeper).is_err());
}

#[test]
fn members_replace_one_another() {
    let mut members = Members::new();
    members.set("a", Json::uint(1));
    members.set("b", Json::text("two"));
    members.set("a", Json::uint(3));
    let value = Json::Object(members);
    assert_eq!(render(&value), r#"{"a":3,"b":"two"}"#);
    assert_eq!(value.get("a").and_then(Json::as_u64), Some(3));
    assert_eq!(value.str_at("b"), Some("two"));
    assert_eq!(value.text_at("missing"), "");
    assert!(same_value(
        &value,
        &parse_text(r#"{"b":"two","a":3}"#).expect("JSON")
    ));
    assert!(!same_value(&value, &Json::Null));
    let zero = parse_text("[0.0]").expect("JSON");
    let negative = parse_text("[-0.0]").expect("JSON");
    let whole = parse_text("[0]").expect("JSON");
    assert!(same_value(&zero, &negative));
    assert!(!same_value(&zero, &whole));
    let mut rest = match value {
        Json::Object(members) => members,
        _ => panic!("an object"),
    };
    rest.remove("a");
    assert_eq!(render(&Json::Object(rest)), r#"{"b":"two"}"#);
}

#[test]
fn hashes_are_the_known_ones() {
    assert_eq!(text_key(""), "cbf29ce484222325");
    assert_eq!(text_key("a"), "af63dc4c8601ec8c");
    // FNV-1a of the canonical text `{}`.
    let mut hash = 0xcbf2_9ce4_8422_2325_u64;
    for byte in b"{}" {
        hash ^= u64::from(*byte);
        hash = hash.wrapping_mul(0x0000_0100_0000_01b3);
    }
    assert_eq!(request_hash(b" { } "), Some(format!("{hash:016x}")));
    assert_eq!(request_hash(b"{}").expect("JSON").len(), 16);
}

#[test]
fn invalid_headers_and_statuses_are_left_out() {
    let mut scripted = Headers::new();
    scripted.set("X-Case", "upper");
    scripted.set("bad name", "x");
    scripted.set("x-bad", "line\nbreak");
    scripted.set("x-wide", "h\u{e9}");
    let mut response = Headers::new();
    response.set("x-case", "before");
    apply_headers(&mut response, &scripted);
    assert_eq!(response.get("x-case"), Some("upper"));
    assert_eq!(response.get("bad name"), None);
    assert_eq!(response.get("x-bad"), None);
    assert_eq!(response.get("x-wide"), Some("h\u{e9}"));
    assert_eq!(final_status(529), 529);
    assert_eq!(final_status(99), 500);
    assert_eq!(final_status(1000), 500);
}

#[test]
fn streams_are_told_by_content_type_or_request() {
    let mut headers = axum::http::HeaderMap::new();
    assert!(is_event_stream(&headers, true));
    assert!(!is_event_stream(&headers, false));
    headers.insert(
        "content-type",
        axum::http::HeaderValue::from_static("text/event-stream; charset=utf-8"),
    );
    assert!(is_event_stream(&headers, false));
    headers.insert(
        "content-type",
        axum::http::HeaderValue::from_static("application/json"),
    );
    assert!(!is_event_stream(&headers, true));
    headers.insert(
        "content-type",
        axum::http::HeaderValue::from_bytes(&[0xe9]).expect("opaque value"),
    );
    assert!(is_event_stream(&headers, true));
}
