//! Forwarding native traffic and recording successful exchanges.

use vstd::prelude::*;
use vstd::string::*;
use vstd::utf8::*;

use crate::anthropic::auth;
use crate::anthropic::config::Config;
use crate::anthropic::engine::plan;
use crate::anthropic::engine::scenario;
use crate::anthropic::engine::scenario::{
    validate_scenario_ids, ScenarioEnvelope, ScenarioScript, TranscriptEvent,
};
use crate::anthropic::exchange;
use crate::anthropic::models;
use crate::anthropic::models::{AnthropicError, ErrorView};
use crate::anthropic::record;
use crate::anthropic::record::{
    derive_script, message_from_events, parse_sse_events, RecordError,
};
use crate::hash;
use crate::hash::request_hash;
use crate::headers;
pub use crate::headers::is_event_stream;
use crate::headers::Headers;
use crate::json::{Json, JsonView, Members};
use crate::recorder;
use crate::recorder::{RecorderState, RecordingView};
use crate::reply;
use crate::reply::BodyView;
use crate::settings::RecordFormat;
use crate::sse::EventView;
use crate::{codec, json, sse, text};

verus! {

/// What a client may ask the proxy for.
#[derive(Clone, Copy, Debug, PartialEq, Eq, Structural)]
pub enum Route {
    Messages,
    CountTokens,
    Models,
}

/// Where a route lands on the upstream. Messages may be served at another path
/// there.
pub open spec fn upstream_path(route: Route, messages_path: Option<Seq<char>>) -> Seq<char> {
    match route {
        Route::Messages => match messages_path {
            Some(path) => path,
            None => "/v1/messages"@,
        },
        Route::CountTokens => "/v1/messages/count_tokens"@,
        Route::Models => "/v1/models"@,
    }
}

/// The address that a route is forwarded to.
pub fn upstream_target(config: &Config, route: Route) -> (r: String)
    ensures
        r@ == config.upstream_url@ + upstream_path(
            route,
            text::opt_text(config.upstream_messages_path),
        ),
{
    let mut target = config.upstream_url.clone();
    match route {
        Route::Messages => match &config.upstream_messages_path {
            Some(path) => {
                target.append(path.as_str());
            },
            None => {
                target.append("/v1/messages");
            },
        },
        Route::CountTokens => {
            target.append("/v1/messages/count_tokens");
        },
        Route::Models => {
            target.append("/v1/models");
        },
    }
    target
}

/// The request headers that are passed on to the upstream.
pub open spec fn forwarded_names() -> Seq<Seq<char>> {
    seq!["anthropic-version"@, "anthropic-beta"@, "accept"@, "user-agent"@]
}

/// The request headers that are passed on to the upstream.
fn forwarded_headers() -> (r: Vec<String>)
    ensures
        text::texts(r@) == forwarded_names(),
{
    let mut names: Vec<String> = Vec::new();
    names.push("anthropic-version".to_owned());
    names.push("anthropic-beta".to_owned());
    names.push("accept".to_owned());
    names.push("user-agent".to_owned());
    assert(text::texts(names@) =~= forwarded_names());
    names
}

/// The names of the headers that are passed on are in lower case.
proof fn lemma_forwarded_lower()
    ensures
        forall|i: int|
            0 <= i < forwarded_names().len() ==> headers::lower(#[trigger] forwarded_names()[i])
                == forwarded_names()[i],
{
    reveal_strlit("anthropic-version");
    reveal_strlit("anthropic-beta");
    reveal_strlit("accept");
    reveal_strlit("user-agent");
    assert(headers::lower("anthropic-version"@) =~= "anthropic-version"@);
    assert(headers::lower("anthropic-beta"@) =~= "anthropic-beta"@);
    assert(headers::lower("accept"@) =~= "accept"@);
    assert(headers::lower("user-agent"@) =~= "user-agent"@);
}

/// The headers of a forwarded request: the upstream's key in place of the
/// client's, what is passed on, and the type of a body.
pub open spec fn upstream_pairs(
    contents: Map<Seq<char>, Seq<Seq<u8>>>,
    key: Option<Seq<char>>,
    has_body: bool,
) -> Seq<(Seq<char>, Seq<u8>)> {
    let keyed = seq![
        headers::text_pair(
            "x-api-key"@,
            match key {
                Some(s) => s,
                None => Seq::empty(),
            },
        ),
    ] + headers::passed_on(contents, forwarded_names());
    if has_body {
        keyed.push(headers::text_pair("content-type"@, "application/json"@))
    } else {
        keyed
    }
}

/// The headers of a forwarded request. No credential of the client is among them.
pub fn upstream_headers(
    config: &Config,
    request: &axum::http::HeaderMap<axum::http::HeaderValue>,
    has_body: bool,
) -> (r: Vec<(String, Vec<u8>)>)
    ensures
        headers::pairs_view(r@) == upstream_pairs(
            headers::header_contents(*request),
            text::opt_text(config.upstream_api_key),
            has_body,
        ),
{
    let mut pairs: Vec<(String, Vec<u8>)> = Vec::new();
    let key = match &config.upstream_api_key {
        Some(key) => key.as_str(),
        None => "",
    };
    proof {
        reveal_strlit("");
        assert(""@ =~= Seq::empty());
        lemma_forwarded_lower();
    }
    headers::push_text(&mut pairs, "x-api-key", key);
    assert(headers::pairs_view(pairs@) =~= seq![headers::text_pair("x-api-key"@, key@)]);
    headers::push_passed_on(&mut pairs, request, &forwarded_headers());
    if has_body {
        headers::push_text(&mut pairs, "content-type", "application/json");
    }
    pairs
}

/// A forwarded request carries the upstream's key and no other credential.
pub proof fn client_credentials_stay(
    contents: Map<Seq<char>, Seq<Seq<u8>>>,
    key: Seq<char>,
    has_body: bool,
)
    ensures
        forall|i: int|
            0 <= i < upstream_pairs(contents, Some(key), has_body).len() ==> ({
                let pair = #[trigger] upstream_pairs(contents, Some(key), has_body)[i];
                &&& pair.0 != "authorization"@
                &&& pair.0 == "x-api-key"@ ==> pair.1 == encode_utf8(key)
            }),
{
    reveal_strlit("authorization");
    reveal_strlit("x-api-key");
    reveal_strlit("content-type");
    reveal_strlit("anthropic-version");
    reveal_strlit("anthropic-beta");
    reveal_strlit("accept");
    reveal_strlit("user-agent");
    assert("authorization"@.len() == 13 && "x-api-key"@.len() == 9);
    assert("content-type"@.len() == 12);
    assert("anthropic-version"@.len() == 17 && "anthropic-beta"@.len() == 14);
    assert("accept"@.len() == 6 && "user-agent"@.len() == 10);
    assert forall|i: int| 0 <= i < forwarded_names().len() implies (
    #[trigger] forwarded_names()[i]) != "authorization"@ && forwarded_names()[i]
        != "x-api-key"@ by {
        assert(i == 0 || i == 1 || i == 2 || i == 3);
    }
    headers::lemma_passed_names(contents, forwarded_names());
    let passed = headers::passed_on(contents, forwarded_names());
    let pairs = upstream_pairs(contents, Some(key), has_body);
    assert forall|i: int| 0 <= i < pairs.len() implies ({
        let pair = #[trigger] pairs[i];
        &&& pair.0 != "authorization"@
        &&& pair.0 == "x-api-key"@ ==> pair.1 == encode_utf8(key)
    }) by {
        if 1 <= i <= passed.len() {
            assert(pairs[i] == passed[i - 1]);
            assert(forwarded_names().contains(passed[i - 1].0));
        }
    }
}

/// Lets a request into the proxy: its credentials name the recording namespace,
/// and its version is checked.
pub fn accept_request(
    config: &Config,
    headers: &axum::http::HeaderMap<axum::http::HeaderValue>,
) -> (r: Result<Option<String>, AnthropicError>)
    ensures
        models::refusal(r) == models::first_of(
            auth::credential_error(headers::header_contents(*headers), config.require_auth),
            auth::version_error(headers::header_contents(*headers)),
        ),
        r matches Ok(key) ==> text::opt_text(key) == auth::credential(
            headers::header_contents(*headers),
        ),
{
    let key = match auth::api_key(headers, config.require_auth) {
        Ok(key) => key,
        Err(e) => {
            return Err(e);
        },
    };
    match auth::validate_version(headers) {
        Ok(()) => Ok(key),
        Err(e) => Err(e),
    }
}

/// Whether a request body asks for a stream.
pub open spec fn asks_stream(body: Seq<u8>) -> bool {
    codec::json_parse(body) matches Ok(v) && v.at("stream"@) == JsonView::Bool(true)
}

/// Whether a request body asks for a stream.
pub fn requests_stream(body: &[u8]) -> (r: bool)
    ensures
        r == asks_stream(body@),
{
    match codec::parse(body) {
        Ok(v) => match v.get("stream") {
            Some(Json::Bool(b)) => *b,
            _ => false,
        },
        Err(_) => false,
    }
}

/// The response headers that are kept back: hop-by-hop headers, the length, and
/// credentials.
pub open spec fn kept_back(name: Seq<char>) -> bool {
    ||| name == "connection"@
    ||| name == "transfer-encoding"@
    ||| name == "content-length"@
    ||| name == "keep-alive"@
    ||| name == "proxy-authenticate"@
    ||| name == "proxy-authorization"@
    ||| name == "te"@
    ||| name == "trailer"@
    ||| name == "upgrade"@
    ||| name == "authorization"@
    ||| name == "x-api-key"@
}

/// The last readable of some header values.
pub open spec fn last_readable(values: Seq<Seq<u8>>) -> Option<Seq<char>>
    decreases values.len(),
{
    if values.len() == 0 {
        None
    } else {
        match headers::value_text(values.last()) {
            Some(s) => Some(s),
            None => last_readable(values.drop_last()),
        }
    }
}

/// The value retained for a response header.
pub open spec fn retained_value(
    contents: Map<Seq<char>, Seq<Seq<u8>>>,
    name: Seq<char>,
) -> Option<Seq<char>> {
    if kept_back(name) || !contents.contains_key(name) {
        None
    } else {
        last_readable(contents[name])
    }
}

/// The response headers that are retained.
pub open spec fn retained(contents: Map<Seq<char>, Seq<Seq<u8>>>) -> Map<Seq<char>, Seq<char>> {
    Map::new(
        |name: Seq<char>| retained_value(contents, name) is Some,
        |name: Seq<char>| retained_value(contents, name)->0,
    )
}

/// Whether a response header is kept back.
fn is_kept_back(name: &str) -> (r: bool)
    ensures
        r == kept_back(name@),
{
    text::same(name, "connection") || text::same(name, "transfer-encoding") || text::same(
        name,
        "content-length",
    ) || text::same(name, "keep-alive") || text::same(name, "proxy-authenticate") || text::same(
        name,
        "proxy-authorization",
    ) || text::same(name, "te") || text::same(name, "trailer") || text::same(name, "upgrade")
        || text::same(name, "authorization") || text::same(name, "x-api-key")
}

/// The response headers that are retained.
pub fn retained_headers(
    response: &axum::http::HeaderMap<axum::http::HeaderValue>,
) -> (r: Headers)
    ensures
        r@ == retained(headers::header_contents(*response)),
{
    let pairs = headers::all_headers(response);
    let ghost contents = headers::header_contents(*response);
    let mut out = Headers::new();
    for i in 0..pairs.len()
        invariant
            forall|name: Seq<char>| #[trigger]
                out@.contains_key(name) <==> !kept_back(name) && last_readable(
                    headers::values_of(pairs@.take(i as int), name),
                ) is Some,
            forall|name: Seq<char>| #[trigger]
                out@.contains_key(name) ==> last_readable(
                    headers::values_of(pairs@.take(i as int), name),
                ) == Some(out@[name]),
    {
        let ghost before = pairs@.take(i as int);
        let ghost now = pairs@.take(i + 1);
        let ghost old_out = out@;
        let name = pairs[i].0.as_str();
        proof {
            assert(now.drop_last() =~= before);
            assert(now.last() == pairs@[i as int]);
            assert forall|n: Seq<char>| #[trigger] headers::values_of(now, n) == (if n == name@ {
                headers::values_of(before, n).push(pairs@[i as int].1@)
            } else {
                headers::values_of(before, n)
            }) by {}
            let grown = headers::values_of(before, name@).push(pairs@[i as int].1@);
            assert(grown.drop_last() =~= headers::values_of(before, name@));
            assert(headers::values_of(now, name@) == grown);
        }
        if !is_kept_back(name) {
            match headers::text_of_value(&pairs[i].1) {
                Some(value) => {
                    out.set(name, value.as_str());
                },
                None => {},
            }
        }
        proof {
            assert forall|n: Seq<char>| #[trigger] out@.contains_key(n) <==> !kept_back(n)
                && last_readable(headers::values_of(now, n)) is Some by {
                if n != name@ {
                    assert(headers::values_of(now, n) == headers::values_of(before, n));
                    assert(out@.contains_key(n) == old_out.contains_key(n));
                } else {
                    assert(old_out.contains_key(n) <==> !kept_back(n) && last_readable(
                        headers::values_of(before, n),
                    ) is Some);
                }
            }
            assert forall|n: Seq<char>| #[trigger] out@.contains_key(n) implies last_readable(
                headers::values_of(now, n),
            ) == Some(out@[n]) by {
                if n != name@ {
                    assert(headers::values_of(now, n) == headers::values_of(before, n));
                    assert(old_out.contains_key(n));
                } else {
                    assert(old_out.contains_key(n) ==> last_readable(
                        headers::values_of(before, n),
                    ) == Some(old_out[n]));
                }
            }
        }
    }
    proof {
        assert(pairs@.take(pairs@.len() as int) =~= pairs@);
        let wanted = retained(contents);
        assert forall|n: Seq<char>| #[trigger] out@.contains_key(n) <==> wanted.contains_key(n) by {
            assert(headers::values_of(pairs@, n) == (if contents.contains_key(n) {
                contents[n]
            } else {
                Seq::empty()
            }));
        }
        assert forall|n: Seq<char>| #[trigger] out@.contains_key(n) implies out@[n]
            == wanted[n] by {
            assert(headers::values_of(pairs@, n) == (if contents.contains_key(n) {
                contents[n]
            } else {
                Seq::empty()
            }));
        }
        assert(out@ =~= wanted);
    }
    out
}

/// A request as it goes to the upstream, and what its recording keeps of it.
pub struct Forwarded {
    pub target: String,
    pub headers: Vec<(String, Vec<u8>)>,
    pub namespace: Option<String>,
    pub hash: Option<String>,
    pub requested_stream: bool,
}

/// The bytes of a body; none where there is no body.
pub open spec fn body_bytes(body: Option<&[u8]>) -> Seq<u8> {
    match body {
        Some(bytes) => bytes@,
        None => Seq::empty(),
    }
}

/// Whether a request goes to the upstream as it should, and its recording will
/// keep what it should of it.
pub open spec fn forwarded_as(
    sent: Forwarded,
    config: Config,
    route: Route,
    contents: Map<Seq<char>, Seq<Seq<u8>>>,
    has_body: bool,
    body: Seq<u8>,
) -> bool {
    &&& sent.target@ == config.upstream_url@ + upstream_path(
        route,
        text::opt_text(config.upstream_messages_path),
    )
    &&& headers::pairs_view(sent.headers@) == upstream_pairs(
        contents,
        text::opt_text(config.upstream_api_key),
        has_body,
    )
    &&& text::opt_text(sent.namespace) == auth::credential(contents)
    &&& text::opt_text(sent.hash) == hash::body_key(body)
    &&& sent.requested_stream == asks_stream(body)
}

/// Takes a request for the upstream: it is let in, and goes out under the
/// upstream's key.
pub fn forward(
    config: &Config,
    route: Route,
    headers: &axum::http::HeaderMap<axum::http::HeaderValue>,
    body: Option<&[u8]>,
) -> (r: Result<Forwarded, AnthropicError>)
    ensures
        models::refusal(r) == models::first_of(
            auth::credential_error(headers::header_contents(*headers), config.require_auth),
            auth::version_error(headers::header_contents(*headers)),
        ),
        r matches Ok(sent) ==> forwarded_as(
            sent,
            *config,
            route,
            headers::header_contents(*headers),
            body is Some,
            body_bytes(body),
        ),
{
    let namespace = match accept_request(config, headers) {
        Ok(namespace) => namespace,
        Err(e) => {
            return Err(e);
        },
    };
    let nothing: Vec<u8> = Vec::new();
    assert(nothing@ =~= Seq::empty());
    let bytes = match body {
        Some(bytes) => bytes,
        None => nothing.as_slice(),
    };
    Ok(
        Forwarded {
            target: upstream_target(config, route),
            headers: upstream_headers(config, headers, body.is_some()),
            namespace,
            hash: request_hash(bytes),
            requested_stream: requests_stream(bytes),
        },
    )
}

/// Whether an exchange holds what a forwarded request and the response to it
/// begin.
pub open spec fn begun_as(
    exchange: Exchange,
    forwarded: Forwarded,
    format: RecordFormat,
    status: u16,
    response: Map<Seq<char>, Seq<Seq<u8>>>,
) -> bool {
    &&& text::opt_text(exchange.namespace) == text::opt_text(forwarded.namespace)
    &&& text::opt_text(exchange.hash) == text::opt_text(forwarded.hash)
    &&& exchange.requested_stream == forwarded.requested_stream
    &&& exchange.is_stream == headers::responds_stream(response, forwarded.requested_stream)
    &&& exchange.format == format
    &&& exchange.status == status
    &&& exchange.headers@ == retained(response)
}

/// The exchange that an upstream response begins.
pub fn begin_exchange(
    forwarded: &Forwarded,
    format: RecordFormat,
    status: u16,
    response: &axum::http::HeaderMap<axum::http::HeaderValue>,
) -> (r: Exchange)
    ensures
        begun_as(r, *forwarded, format, status, headers::header_contents(*response)),
{
    Exchange {
        namespace: text::copy_opt(&forwarded.namespace),
        hash: text::copy_opt(&forwarded.hash),
        requested_stream: forwarded.requested_stream,
        is_stream: is_event_stream(response, forwarded.requested_stream),
        format,
        status,
        headers: retained_headers(response),
    }
}

/// The error sent where the upstream cannot be reached.
pub open spec fn unreachable_view() -> ErrorView {
    ErrorView {
        status: 502,
        kind: "error"@,
        error_type: "api_error"@,
        message: "failed to reach proxy upstream"@,
        code: None,
    }
}

/// The error sent where the upstream cannot be reached.
pub fn upstream_error() -> (r: AnthropicError)
    ensures
        r@ == unreachable_view(),
{
    AnthropicError::new(502, "api_error", "failed to reach proxy upstream".to_owned())
}

/// Whether an exchange is recorded: a generation that succeeded to its end.
pub open spec fn records(route: Route, failed: bool, status: u16) -> bool {
    route == Route::Messages && !failed && status == 200
}

/// Whether an exchange is recorded.
pub fn should_record(route: Route, failed: bool, status: u16) -> (r: bool)
    ensures
        r == records(route, failed, status),
{
    route == Route::Messages && !failed && status == 200
}

/// A recorded event.
pub open spec fn event_json(e: EventView) -> JsonView {
    JsonView::Object(
        map!["event"@ => plan::opt_text_json(e.event), "data"@ => JsonView::Str(e.data)],
    )
}

/// Headers as a JSON object.
pub open spec fn headers_json(m: Map<Seq<char>, Seq<char>>) -> JsonView {
    JsonView::Object(m.map_values(|v: Seq<char>| JsonView::Str(v)))
}

/// The script that replays a response as it came.
pub open spec fn transcript_script(
    is_stream: bool,
    status: u16,
    response: Map<Seq<char>, Seq<char>>,
    bytes: Seq<u8>,
) -> Result<JsonView, RecordError> {
    let core = map![
        "kind"@ => JsonView::Str("transcript"@),
        "status"@ => json::int_view(status as u64),
        "headers"@ => headers_json(response)
    ];
    if is_stream {
        match sse::sse_events(bytes) {
            Some(events) => Ok(
                JsonView::Object(
                    core.insert(
                        "events"@,
                        JsonView::Array(Seq::new(events.len(), |i: int| event_json(events[i]))),
                    ),
                ),
            ),
            None => Err(RecordError::NotText),
        }
    } else if codec::json_parse(bytes) is Err {
        Err(RecordError::InvalidJson)
    } else if !valid_utf8(bytes) {
        Err(RecordError::NotText)
    } else {
        Ok(
            JsonView::Object(
                core.insert("body_text"@, JsonView::Str(decode_utf8(bytes))),
            ),
        )
    }
}

/// Whether a script says what a recorded transcript says.
pub open spec fn scripts_transcript(
    script: ScenarioScript,
    is_stream: bool,
    status: u16,
    response: Map<Seq<char>, Seq<char>>,
    bytes: Seq<u8>,
) -> bool {
    match script {
        ScenarioScript::Transcript { status: s, content_type, body, body_text, events, headers } => {
            &&& s == status
            &&& content_type is None
            &&& body is None
            &&& headers@ == response
            &&& match events {
                Some(e) => is_stream && body_text is None && sse::sse_events(bytes) == Some(
                    scenario::transcript_view(e@),
                ),
                None => !is_stream && (body_text matches Some(t) && t@ == decode_utf8(bytes)),
            }
        },
        _ => false,
    }
}

/// Replaying a transcript gives back what was captured: the body byte for byte,
/// and the events of a stream one chunk each, under the captured status and
/// headers.
pub proof fn transcripts_replay_as_captured(
    script: ScenarioScript,
    is_stream: bool,
    status: u16,
    response: Map<Seq<char>, Seq<char>>,
    bytes: Seq<u8>,
)
    requires
        scripts_transcript(script, is_stream, status, response, bytes),
        transcript_script(is_stream, status, response, bytes) is Ok,
        headers::valid_status(status),
    ensures
        ({
            let replayed = exchange::transcript_reply(script);
            &&& replayed.status == status
            &&& forall|name: Seq<char>| #[trigger]
                headers::sent_headers(response).contains_key(name)
                    ==> replayed.headers.contains_key(name) && replayed.headers[name]
                    == headers::sent_headers(response)[name]
            &&& match replayed.body {
                BodyView::Whole(sent) => !is_stream && encode_utf8(sent) == bytes,
                BodyView::Chunks(chunks) => is_stream && chunks.len() == sse::sse_events(
                    bytes,
                )->0.len() && sse::sse_events(encode_utf8(reply::sent_text(chunks)))
                    == sse::sse_events(bytes),
                BodyView::Never => false,
            }
        }),
{
    if is_stream {
        sse::read_events_send_back(bytes);
        reply::lemma_event_text(sse::sse_events(bytes)->0);
    } else {
        decode_utf8_encode_utf8(bytes);
    }
}

/// The script that answers with a response's content.
pub open spec fn semantic_script(is_stream: bool, bytes: Seq<u8>) -> Result<
    JsonView,
    RecordError,
> {
    let message = if is_stream {
        match sse::sse_events(bytes) {
            Some(events) => record::streamed_message(events),
            None => Err(RecordError::NotText),
        }
    } else {
        match codec::json_parse(bytes) {
            Ok(v) => Ok(v),
            Err(_) => Err(RecordError::InvalidJson),
        }
    };
    match message {
        Ok(m) => record::derived(m),
        Err(e) => Err(e),
    }
}

/// The script that a response is recorded as.
pub open spec fn recorded_script(
    is_stream: bool,
    format: RecordFormat,
    status: u16,
    response: Map<Seq<char>, Seq<char>>,
    bytes: Seq<u8>,
) -> Result<JsonView, RecordError> {
    match format {
        RecordFormat::Semantic => semantic_script(is_stream, bytes),
        RecordFormat::Transcript => transcript_script(is_stream, status, response, bytes),
    }
}

/// The matcher that a response is recorded under.
pub open spec fn recorded_matcher(
    requested_stream: bool,
    format: RecordFormat,
    hash: Option<Seq<char>>,
) -> JsonView {
    let core = map![
        "endpoint"@ => JsonView::Str("messages"@),
        "stream"@ => JsonView::Bool(requested_stream)
    ];
    JsonView::Object(
        match format {
            RecordFormat::Semantic => core,
            RecordFormat::Transcript => core.insert("request_hash"@, plan::opt_text_json(hash)),
        },
    )
}

/// A recorded event.
fn make_event(e: &TranscriptEvent) -> (r: Json)
    ensures
        r@ == event_json(e@),
{
    let mut m = Members::new();
    m.set("event", plan::opt_text_value(&e.event));
    m.set("data", Json::text(e.data.as_str()));
    Json::Object(m)
}

/// Headers as a JSON object.
fn make_headers(h: &Headers) -> (r: Json)
    ensures
        r@ == headers_json(h@),
{
    let mut m = Members::new();
    assert(m@ =~= headers_json(headers::headers_view(h.entries@.take(0)))->Object_0);
    for i in 0..h.entries.len()
        invariant
            m@ =~= headers_json(headers::headers_view(h.entries@.take(i as int)))->Object_0,
    {
        assert(h.entries@.take(i + 1).drop_last() =~= h.entries@.take(i as int));
        m.set(h.entries[i].0.as_str(), Json::text(h.entries[i].1.as_str()));
    }
    assert(h.entries@.take(h.entries@.len() as int) =~= h.entries@);
    Json::Object(m)
}

/// The script that replays a response as it came.
fn make_transcript(is_stream: bool, status: u16, response: &Headers, bytes: &[u8]) -> (r: Result<
    Json,
    RecordError,
>)
    ensures
        record::outcome(r) == transcript_script(is_stream, status, response@, bytes@),
{
    let mut script = Members::new();
    script.set("kind", Json::text("transcript"));
    script.set("status", Json::uint(status as u64));
    script.set("headers", make_headers(response));
    if is_stream {
        let events = match parse_sse_events(bytes) {
            Ok(events) => events,
            Err(e) => {
                return Err(e);
            },
        };
        let ghost all = scenario::transcript_view(events@);
        let ghost wanted = Seq::new(all.len(), |i: int| event_json(all[i]));
        let mut items: Vec<Json> = Vec::new();
        for i in 0..events.len()
            invariant
                all == scenario::transcript_view(events@),
                wanted == Seq::new(all.len(), |i: int| event_json(all[i])),
                json::items_view(items@) =~= wanted.take(i as int),
        {
            let ghost before = items@;
            let item = make_event(&events[i]);
            items.push(item);
            assert(json::items_view(items@) =~= json::items_view(before).push(item@));
        }
        assert(json::items_view(items@) =~= wanted);
        script.set("events", Json::Array(items));
    } else {
        match codec::parse(bytes) {
            Ok(_) => {},
            Err(_) => {
                return Err(RecordError::InvalidJson);
            },
        }
        match text::utf8_text(bytes) {
            Some(s) => {
                script.set("body_text", Json::text(s));
            },
            None => {
                return Err(RecordError::NotText);
            },
        }
    }
    Ok(Json::Object(script))
}

/// The script that answers with a response's content.
fn make_semantic(is_stream: bool, bytes: &[u8]) -> (r: Result<Json, RecordError>)
    ensures
        record::outcome(r) == semantic_script(is_stream, bytes@),
{
    let message = if is_stream {
        match parse_sse_events(bytes) {
            Ok(events) => match message_from_events(events.as_slice()) {
                Ok(message) => message,
                Err(e) => {
                    return Err(e);
                },
            },
            Err(e) => {
                return Err(e);
            },
        }
    } else {
        match codec::parse(bytes) {
            Ok(message) => message,
            Err(_) => {
                return Err(RecordError::InvalidJson);
            },
        }
    };
    derive_script(&message)
}

/// The facts of an exchange that its recording keeps.
pub struct Exchange {
    pub namespace: Option<String>,
    pub hash: Option<String>,
    pub requested_stream: bool,
    pub is_stream: bool,
    pub format: RecordFormat,
    pub status: u16,
    pub headers: Headers,
}

/// Whether recording an exchange changed a recording as it should and gave the
/// id of the new scenario. An exchange that cannot be derived changes nothing.
pub open spec fn recorded_as(
    before: RecordingView,
    after: RecordingView,
    exchange: Exchange,
    bytes: Seq<u8>,
    outcome: Result<String, RecordError>,
) -> bool {
    let namespace = text::opt_text(exchange.namespace);
    match recorded_script(
        exchange.is_stream,
        exchange.format,
        exchange.status,
        exchange.headers@,
        bytes,
    ) {
        Ok(script) => {
            &&& after == before.recorded(
                namespace,
                recorded_matcher(
                    exchange.requested_stream,
                    exchange.format,
                    text::opt_text(exchange.hash),
                ),
                script,
            )
            &&& outcome matches Ok(id) && id@ == recorder::scenario_id(
                recorder::label_of(namespace),
                before.next(namespace) as u64,
            )
        },
        Err(e) => after == before && (outcome matches Err(f) && f == e),
    }
}

/// Records an exchange under the next number of its namespace and returns the
/// scenario's id. One that cannot be derived leaves the recording as it was.
pub fn record_exchange(recorder: &mut RecorderState, exchange: &Exchange, bytes: &[u8]) -> (r:
    Result<String, RecordError>)
    requires
        old(recorder)@.next(text::opt_text(exchange.namespace)) <= u64::MAX,
    ensures
        old(recorder)@.numbered() ==> final(recorder)@.numbered(),
        old(recorder)@.exact() ==> final(recorder)@.exact(),
        recorded_as(old(recorder)@, final(recorder)@, *exchange, bytes@, r),
{
    let script = match exchange.format {
        RecordFormat::Semantic => make_semantic(exchange.is_stream, bytes),
        RecordFormat::Transcript => make_transcript(
            exchange.is_stream,
            exchange.status,
            &exchange.headers,
            bytes,
        ),
    };
    let script = match script {
        Ok(script) => script,
        Err(e) => {
            return Err(e);
        },
    };
    let mut matcher = Members::new();
    matcher.set("endpoint", Json::text("messages"));
    matcher.set("stream", Json::Bool(exchange.requested_stream));
    match exchange.format {
        RecordFormat::Semantic => {},
        RecordFormat::Transcript => {
            matcher.set("request_hash", plan::opt_text_value(&exchange.hash));
        },
    }
    let namespace = match &exchange.namespace {
        Some(s) => Some(s.as_str()),
        None => None,
    };
    Ok(recorder.push_scenario(namespace, Json::Object(matcher), script))
}

/// Ends an exchange: one that is to be recorded is, any other leaves the
/// recording as it was.
pub fn end_exchange(
    recorder: &mut RecorderState,
    route: Route,
    exchange: &Exchange,
    failed: bool,
    bytes: &[u8],
) -> (r: Option<Result<String, RecordError>>)
    requires
        records(route, failed, exchange.status) ==> old(recorder)@.next(
            text::opt_text(exchange.namespace),
        ) <= u64::MAX,
    ensures
        old(recorder)@.numbered() ==> final(recorder)@.numbered(),
        old(recorder)@.exact() ==> final(recorder)@.exact(),
        r is Some <==> records(route, failed, exchange.status),
        match r {
            Some(outcome) => recorded_as(
                old(recorder)@,
                final(recorder)@,
                *exchange,
                bytes@,
                outcome,
            ),
            None => final(recorder)@ == old(recorder)@,
        },
{
    if should_record(route, failed, exchange.status) {
        Some(record_exchange(recorder, exchange, bytes))
    } else {
        None
    }
}

/// Why a recording cannot be taken up.
pub enum LoadError {
    /// A scenario is faulty.
    Scenarios(String),
    /// The file is no JSON.
    Json(String),
    /// The document lists no scenarios.
    MissingScenarios,
}

/// Takes up a recording: its scenarios must be free of faults.
pub fn load_recorder_state(envelope: &ScenarioEnvelope, bytes: &[u8]) -> (r: Result<
    RecorderState,
    LoadError,
>)
    ensures
        match scenario::queue_error(envelope.scenarios@) {
            Some(e) => r matches Err(LoadError::Scenarios(f)) && f@ == e,
            None => match codec::json_parse(bytes@) {
                Err(e) => r matches Err(LoadError::Json(f)) && f@ == e,
                Ok(document) => match recorder::recording_in(document) {
                    Some(recording) => r matches Ok(state) && state@ == recording
                        && state@.numbered() && state@.exact(),
                    None => r matches Err(LoadError::MissingScenarios),
                },
            },
        },
{
    match validate_scenario_ids(envelope.scenarios.as_slice()) {
        Ok(()) => {},
        Err(e) => {
            return Err(LoadError::Scenarios(e));
        },
    }
    match codec::parse(bytes) {
        Err(e) => Err(LoadError::Json(e)),
        Ok(document) => match RecorderState::load(&document) {
            Some(state) => Ok(state),
            None => Err(LoadError::MissingScenarios),
        },
    }
}

} // verus!
