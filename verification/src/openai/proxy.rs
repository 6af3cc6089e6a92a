//! Forwarding generation traffic and recording successful exchanges.
//!
//! A client's bearer token names the recording namespace, so each test's calls
//! replay later as an ordered queue of its own. Failed upstream responses and
//! exchanges that cannot be derived pass through and are not recorded.

use vstd::prelude::*;
use vstd::string::*;
use vstd::utf8::*;

use crate::credentials;
use crate::hash;
use crate::hash::request_hash;
use crate::headers;
pub use crate::headers::is_event_stream;
use crate::json::{Json, JsonView, Members};
use crate::openai::auth;
use crate::openai::auth::proxy_bearer_token;
use crate::openai::config::Config;
use crate::openai::failures;
use crate::openai::failures::{ErrorOutcome, TranscriptBody, TranscriptOutcome};
use crate::openai::record;
use crate::openai::record::{
    derive_script, parse_sse_events, ExchangeShape, RecordError, RecordedEndpoint,
    RecordedExchange, RecordedSseEvent,
};
use crate::openai::sse as stream;
use crate::recorder;
use crate::recorder::{RecorderState, RecordingView};
use crate::reply;
use crate::reply::{BodyView, Reply, ReplyView};
use crate::settings::RecordFormat;
use crate::sse::EventView;
use crate::{codec, json, sse, text};

verus! {

/// What a client may ask the proxy for.
#[derive(Clone, Copy, Debug, PartialEq, Eq, Structural)]
pub enum Route {
    Models,
    InputTokens,
    Generation(RecordedEndpoint),
}

/// The request headers that are passed on to the upstream. The last two carry a
/// seat at a deployment that wants one; elsewhere they do no harm.
pub open spec fn forwarded_names() -> Seq<Seq<char>> {
    seq!["openai-organization"@, "openai-project"@, "chatgpt-account-id"@, "originator"@]
}

/// The request headers that are passed on to the upstream.
fn forwarded_headers() -> (r: Vec<String>)
    ensures
        text::texts(r@) == forwarded_names(),
{
    let mut names: Vec<String> = Vec::new();
    names.push("openai-organization".to_owned());
    names.push("openai-project".to_owned());
    names.push("chatgpt-account-id".to_owned());
    names.push("originator".to_owned());
    assert(text::texts(names@) =~= forwarded_names());
    names
}

/// The names of the headers that are passed on are in lower case.
proof fn lemma_forwarded_lower()
    ensures
        forall|i: int|
            0 <= i < forwarded_names().len() ==> headers::lower(#[trigger] forwarded_names()[i])
                == forwarded_names()[i],
{
    reveal_strlit("openai-organization");
    reveal_strlit("openai-project");
    reveal_strlit("chatgpt-account-id");
    reveal_strlit("originator");
    assert(headers::lower("openai-organization"@) =~= "openai-organization"@);
    assert(headers::lower("openai-project"@) =~= "openai-project"@);
    assert(headers::lower("chatgpt-account-id"@) =~= "chatgpt-account-id"@);
    assert(headers::lower("originator"@) =~= "originator"@);
}

/// The headers of a forwarded request: the upstream's key in place of the
/// client's, the type of a body, and what is passed on.
pub open spec fn upstream_pairs(
    contents: Map<Seq<char>, Seq<Seq<u8>>>,
    key: Seq<char>,
    has_body: bool,
) -> Seq<(Seq<char>, Seq<u8>)> {
    let keyed = seq![headers::text_pair("authorization"@, "Bearer "@ + key)];
    let typed = if has_body {
        keyed.push(headers::text_pair("content-type"@, "application/json"@))
    } else {
        keyed
    };
    typed + headers::passed_on(contents, forwarded_names())
}

/// The headers of a forwarded request. No credential of the client is among them.
pub fn upstream_headers(
    key: &str,
    request: &axum::http::HeaderMap<axum::http::HeaderValue>,
    has_body: bool,
) -> (r: Vec<(String, Vec<u8>)>)
    ensures
        headers::pairs_view(r@) == upstream_pairs(
            headers::header_contents(*request),
            key@,
            has_body,
        ),
{
    let mut pairs: Vec<(String, Vec<u8>)> = Vec::new();
    let mut bearer = "Bearer ".to_owned();
    bearer.append(key);
    headers::push_text(&mut pairs, "authorization", bearer.as_str());
    assert(headers::pairs_view(pairs@) =~= seq![
        headers::text_pair("authorization"@, "Bearer "@ + key@),
    ]);
    if has_body {
        headers::push_text(&mut pairs, "content-type", "application/json");
    }
    proof {
        lemma_forwarded_lower();
    }
    headers::push_passed_on(&mut pairs, request, &forwarded_headers());
    pairs
}

/// A forwarded request carries the upstream's key and no other credential.
pub proof fn client_credentials_stay(
    contents: Map<Seq<char>, Seq<Seq<u8>>>,
    key: Seq<char>,
    has_body: bool,
)
    ensures
        forall|i: int|
            0 <= i < upstream_pairs(contents, key, has_body).len() ==> ({
                let pair = #[trigger] upstream_pairs(contents, key, has_body)[i];
                pair.0 == "authorization"@ ==> pair.1 == encode_utf8("Bearer "@ + key)
            }),
{
    reveal_strlit("authorization");
    reveal_strlit("content-type");
    reveal_strlit("openai-organization");
    reveal_strlit("openai-project");
    reveal_strlit("chatgpt-account-id");
    reveal_strlit("originator");
    assert("authorization"@.len() != "content-type"@.len());
    assert forall|i: int| 0 <= i < forwarded_names().len() implies (
    #[trigger] forwarded_names()[i]) != "authorization"@ by {}
    headers::lemma_passed_names(contents, forwarded_names());
    let passed = headers::passed_on(contents, forwarded_names());
    let pairs = upstream_pairs(contents, key, has_body);
    let first = if has_body {
        2int
    } else {
        1
    };
    assert forall|i: int| 0 <= i < pairs.len() implies ({
        let pair = #[trigger] pairs[i];
        pair.0 == "authorization"@ ==> pair.1 == encode_utf8("Bearer "@ + key)
    }) by {
        if i >= first {
            assert(pairs[i] == passed[i - first]);
            assert(forwarded_names().contains(passed[i - first].0));
        }
    }
}

/// Where a route lands on the upstream. Responses may be served at another path
/// there.
pub open spec fn upstream_path(route: Route, responses_path: Option<Seq<char>>) -> Seq<char> {
    match route {
        Route::Models => "/v1/models"@,
        Route::InputTokens => "/v1/responses/input_tokens"@,
        Route::Generation(RecordedEndpoint::ChatCompletions) => "/v1/chat/completions"@,
        Route::Generation(RecordedEndpoint::Responses) => match responses_path {
            Some(path) => path,
            None => "/v1/responses"@,
        },
    }
}

/// The address that a route is forwarded to.
pub fn upstream_target(config: &Config, route: Route) -> (r: String)
    ensures
        r@ == config.upstream_url@ + upstream_path(
            route,
            text::opt_text(config.upstream_responses_path),
        ),
{
    let mut target = config.upstream_url.clone();
    match route {
        Route::Models => {
            target.append("/v1/models");
        },
        Route::InputTokens => {
            target.append("/v1/responses/input_tokens");
        },
        Route::Generation(RecordedEndpoint::ChatCompletions) => {
            target.append("/v1/chat/completions");
        },
        Route::Generation(RecordedEndpoint::Responses) => match &config.upstream_responses_path {
            Some(path) => {
                target.append(path.as_str());
            },
            None => {
                target.append("/v1/responses");
            },
        },
    }
    target
}

/// The shape of the exchange that a body begins; none where the body is no JSON.
pub open spec fn shape_in(endpoint: RecordedEndpoint, body: Seq<u8>) -> Option<ExchangeShape> {
    match codec::json_parse(body) {
        Ok(request) => Some(record::shape_of(endpoint, request)),
        Err(_) => None,
    }
}

/// The shape of the exchange that a body begins.
pub fn exchange_shape(endpoint: RecordedEndpoint, body: &[u8]) -> (r: Option<ExchangeShape>)
    ensures
        r == shape_in(endpoint, body@),
{
    match codec::parse(body) {
        Ok(request) => Some(ExchangeShape::from_request(endpoint, &request)),
        Err(_) => None,
    }
}

/// Whether a request of this shape asks for a stream.
pub fn asks_stream(shape: Option<ExchangeShape>) -> (r: bool)
    ensures
        r == (shape matches Some(s) && s.stream),
{
    match shape {
        Some(s) => s.stream,
        None => false,
    }
}

/// Whether an exchange is recorded: a generation that succeeded to its end.
pub open spec fn records(route: Route, failed: bool, status: u16) -> bool {
    route is Generation && !failed && status == 200
}

/// Whether an exchange is recorded.
pub fn should_record(route: Route, failed: bool, status: u16) -> (r: bool)
    ensures
        r == records(route, failed, status),
{
    match route {
        Route::Generation(_) => !failed && status == 200,
        _ => false,
    }
}

/// A request as it goes to the upstream, and what its recording keeps of it.
pub struct Forwarded {
    pub target: String,
    pub headers: Vec<(String, Vec<u8>)>,
    pub namespace: Option<String>,
    pub shape: Option<ExchangeShape>,
    pub hash: Option<String>,
}

/// The bytes of a body; none where there is no body.
pub open spec fn body_bytes(body: Option<&[u8]>) -> Seq<u8> {
    match body {
        Some(bytes) => bytes@,
        None => Seq::empty(),
    }
}

/// The shape of the exchange that a request on a route begins; none but a
/// generation has one.
pub open spec fn route_shape(route: Route, body: Seq<u8>) -> Option<ExchangeShape> {
    match route {
        Route::Generation(endpoint) => shape_in(endpoint, body),
        _ => None,
    }
}

/// Whether a request goes to the upstream as it should, and its recording will
/// keep what it should of it.
pub open spec fn forwarded_as(
    sent: Forwarded,
    config: Config,
    key: Seq<char>,
    route: Route,
    contents: Map<Seq<char>, Seq<Seq<u8>>>,
    has_body: bool,
    body: Seq<u8>,
) -> bool {
    &&& sent.target@ == config.upstream_url@ + upstream_path(
        route,
        text::opt_text(config.upstream_responses_path),
    )
    &&& headers::pairs_view(sent.headers@) == upstream_pairs(contents, key, has_body)
    &&& text::opt_text(sent.namespace) == credentials::bearer_token(contents)
    &&& sent.shape == route_shape(route, body)
    &&& text::opt_text(sent.hash) == hash::body_key(body)
}

/// Takes a request for the upstream: it is let in, and goes out under the
/// upstream's key.
pub fn forward(
    config: &Config,
    key: &str,
    route: Route,
    headers: &axum::http::HeaderMap<axum::http::HeaderValue>,
    body: Option<&[u8]>,
) -> (r: Result<Forwarded, ErrorOutcome>)
    ensures
        r is Ok <==> auth::bearer_accepted(
            headers::header_contents(*headers),
            config.require_auth,
        ),
        r matches Err(e) ==> auth::refuses_bearer(e),
        r matches Ok(sent) ==> forwarded_as(
            sent,
            *config,
            key@,
            route,
            headers::header_contents(*headers),
            body is Some,
            body_bytes(body),
        ),
{
    let namespace = match proxy_bearer_token(headers, config.require_auth) {
        Ok(namespace) => namespace,
        Err(e) => {
            return Err(e);
        },
    };
    let nothing: Vec<u8> = Vec::new();
    assert(nothing@ =~= Seq::empty());
    let bytes = match body {
        Some(bytes) => bytes,
        None => nothing.as_slice(),
    };
    let shape = match route {
        Route::Generation(endpoint) => exchange_shape(endpoint, bytes),
        _ => None,
    };
    Ok(
        Forwarded {
            target: upstream_target(config, route),
            headers: upstream_headers(key, headers, body.is_some()),
            namespace,
            shape,
            hash: request_hash(bytes),
        },
    )
}

/// Whether an exchange holds what a forwarded request and the response to it
/// begin.
pub open spec fn begun_as(
    exchange: Exchange,
    forwarded: Forwarded,
    format: RecordFormat,
    status: u16,
    response: Map<Seq<char>, Seq<Seq<u8>>>,
) -> bool {
    &&& text::opt_text(exchange.namespace) == text::opt_text(forwarded.namespace)
    &&& exchange.shape == forwarded.shape
    &&& text::opt_text(exchange.hash) == text::opt_text(forwarded.hash)
    &&& exchange.is_stream == headers::responds_stream(
        response,
        forwarded.shape matches Some(s) && s.stream,
    )
    &&& exchange.format == format
    &&& exchange.status == status
    &&& text::opt_text(exchange.content_type) == headers::first_text(response, "content-type"@)
}

/// The exchange that an upstream response begins.
pub fn begin_exchange(
    forwarded: &Forwarded,
    format: RecordFormat,
    status: u16,
    response: &axum::http::HeaderMap<axum::http::HeaderValue>,
) -> (r: Exchange)
    ensures
        begun_as(r, *forwarded, format, status, headers::header_contents(*response)),
{
    proof {
        reveal_strlit("content-type");
        assert(headers::lower("content-type"@) =~= "content-type"@);
    }
    Exchange {
        namespace: text::copy_opt(&forwarded.namespace),
        shape: forwarded.shape,
        hash: text::copy_opt(&forwarded.hash),
        is_stream: is_event_stream(response, asks_stream(forwarded.shape)),
        format,
        status,
        content_type: headers::header_text(response, "content-type"),
    }
}

/// Why an exchange is not recorded.
#[derive(Clone, Copy, Debug, PartialEq, Eq, Structural)]
pub enum Skipped {
    /// The request was no JSON.
    RequestNotJson,
    /// The response could not be read, or shows nothing that can be replayed.
    Underivable(RecordError),
}

/// The facts of an exchange that its recording keeps.
pub struct Exchange {
    pub namespace: Option<String>,
    pub shape: Option<ExchangeShape>,
    pub hash: Option<String>,
    pub is_stream: bool,
    pub format: RecordFormat,
    pub status: u16,
    pub content_type: Option<String>,
}

/// A recorded event.
pub open spec fn event_json(e: EventView) -> JsonView {
    let data = map!["data"@ => JsonView::Str(e.data)];
    JsonView::Object(
        match e.event {
            Some(name) => data.insert("event"@, JsonView::Str(name)),
            None => data,
        },
    )
}

/// The script that replays a response as it came.
pub open spec fn transcript_script(
    is_stream: bool,
    status: u16,
    content_type: Option<Seq<char>>,
    bytes: Seq<u8>,
) -> Result<JsonView, RecordError> {
    let core = map![
        "kind"@ => JsonView::Str("transcript"@),
        "status"@ => json::int_view(status as u64)
    ];
    let typed = match content_type {
        Some(s) => core.insert("content_type"@, JsonView::Str(s)),
        None => core,
    };
    if is_stream {
        match sse::sse_events(bytes) {
            Some(events) => Ok(
                JsonView::Object(
                    typed.insert(
                        "events"@,
                        JsonView::Array(Seq::new(events.len(), |i: int| event_json(events[i]))),
                    ),
                ),
            ),
            None => Err(RecordError::NotText),
        }
    } else {
        match codec::json_parse(bytes) {
            Ok(body) => Ok(JsonView::Object(typed.insert("body"@, body))),
            Err(_) => Err(RecordError::InvalidJson),
        }
    }
}

/// Whether a replayed exchange says what a recorded transcript says.
pub open spec fn replays_transcript(
    outcome: TranscriptOutcome,
    is_stream: bool,
    status: u16,
    content_type: Option<Seq<char>>,
    bytes: Seq<u8>,
) -> bool {
    &&& outcome.status == status
    &&& text::opt_text(outcome.content_type) == content_type
    &&& match outcome.body {
        TranscriptBody::Json(v) => !is_stream && codec::read_ok(codec::json_parse(bytes), v@),
        TranscriptBody::Events(e) => is_stream && sse::sse_events(bytes) == Some(
            failures::transcript_view(e@),
        ),
    }
}

/// Replaying a transcript gives back what was captured, under the captured status
/// and content type: the value of a JSON body, and the events of a stream one
/// chunk each.
pub proof fn transcripts_replay_as_captured(
    outcome: TranscriptOutcome,
    is_stream: bool,
    status: u16,
    content_type: Option<Seq<char>>,
    bytes: Seq<u8>,
)
    requires
        replays_transcript(outcome, is_stream, status, content_type, bytes),
    ensures
        ({
            let replayed = stream::transcript_reply(outcome);
            &&& replayed.status == status
            &&& content_type matches Some(kind) ==> headers::valid_value(kind)
                ==> replayed.headers == reply::typed(kind)
            &&& match replayed.body {
                BodyView::Whole(sent) => !is_stream && (codec::json_parse(bytes) matches Ok(v)
                    && sent == codec::json_text(v)),
                BodyView::Chunks(chunks) => is_stream && chunks.len() == sse::sse_events(
                    bytes,
                )->0.len() && sse::sse_events(encode_utf8(reply::sent_text(chunks)))
                    == sse::sse_events(bytes),
                BodyView::Never => false,
            }
        }),
{
    if is_stream {
        sse::read_events_send_back(bytes);
        reply::lemma_event_text(sse::sse_events(bytes)->0);
    }
    match content_type {
        Some(kind) => {
            assert(Map::<Seq<char>, Seq<char>>::empty().insert("content-type"@, kind)
                =~= reply::typed(kind));
        },
        None => {},
    }
}

/// The script that answers with a response's content.
pub open spec fn semantic_script(
    shape: ExchangeShape,
    is_stream: bool,
    bytes: Seq<u8>,
) -> Result<JsonView, RecordError> {
    let seen = if is_stream {
        match sse::sse_events(bytes) {
            Some(events) => record::stream_seen(shape, events),
            None => Err(RecordError::NotText),
        }
    } else {
        match codec::json_parse(bytes) {
            Ok(body) => record::body_seen(shape, body),
            Err(_) => Err(RecordError::InvalidJson),
        }
    };
    match seen {
        Ok(o) => Ok(JsonView::Object(record::script_of(o))),
        Err(e) => Err(e),
    }
}

/// The script that an exchange is recorded as.
pub open spec fn recorded_script(exchange: Exchange, bytes: Seq<u8>) -> Result<JsonView, Skipped> {
    match exchange.shape {
        None => Err(Skipped::RequestNotJson),
        Some(shape) => {
            let script = match exchange.format {
                RecordFormat::Semantic => semantic_script(shape, exchange.is_stream, bytes),
                RecordFormat::Transcript => transcript_script(
                    exchange.is_stream,
                    exchange.status,
                    text::opt_text(exchange.content_type),
                    bytes,
                ),
            };
            match script {
                Ok(v) => Ok(v),
                Err(e) => Err(Skipped::Underivable(e)),
            }
        },
    }
}

/// The matcher that an exchange is recorded under: a transcript is found by the
/// hash of its request.
pub open spec fn recorded_matcher(
    shape: ExchangeShape,
    format: RecordFormat,
    hash: Option<Seq<char>>,
) -> JsonView {
    let core = map![
        "endpoint"@ => JsonView::Str(shape.endpoint.name()),
        "stream"@ => JsonView::Bool(shape.stream)
    ];
    JsonView::Object(
        match (format, hash) {
            (RecordFormat::Transcript, Some(h)) => core.insert("request_hash"@, JsonView::Str(h)),
            _ => core,
        },
    )
}

/// A captured response, or why it cannot be read.
fn capture(is_stream: bool, bytes: &[u8]) -> (r: Result<RecordedExchange, RecordError>)
    ensures
        is_stream ==> match r {
            Ok(RecordedExchange::Stream(events)) => sse::sse_events(bytes@) == Some(
                record::events_view(events@),
            ),
            Ok(_) => false,
            Err(e) => e == RecordError::NotText && sse::sse_events(bytes@) is None,
        },
        !is_stream ==> match r {
            Ok(RecordedExchange::Json(body)) => codec::read_ok(
                codec::json_parse(bytes@),
                body@,
            ),
            Ok(_) => false,
            Err(e) => e == RecordError::InvalidJson && codec::json_parse(bytes@) is Err,
        },
{
    if is_stream {
        match parse_sse_events(bytes) {
            Ok(events) => Ok(RecordedExchange::Stream(events)),
            Err(e) => Err(e),
        }
    } else {
        match codec::parse(bytes) {
            Ok(body) => Ok(RecordedExchange::Json(body)),
            Err(_) => Err(RecordError::InvalidJson),
        }
    }
}

/// A recorded event.
fn make_event(e: &RecordedSseEvent) -> (r: Json)
    ensures
        r@ == event_json(e@),
{
    let data = Members::new().with("data", Json::text(e.data.as_str()));
    match &e.event {
        Some(name) => Json::Object(data.with("event", Json::text(name.as_str()))),
        None => Json::Object(data),
    }
}

/// Recorded events.
fn make_events(events: &Vec<RecordedSseEvent>) -> (r: Json)
    ensures
        r@ == JsonView::Array(
            Seq::new(
                events@.len(),
                |i: int| event_json(record::events_view(events@)[i]),
            ),
        ),
{
    let ghost all = record::events_view(events@);
    let ghost wanted = Seq::new(all.len(), |i: int| event_json(all[i]));
    let mut items: Vec<Json> = Vec::new();
    for i in 0..events.len()
        invariant
            all == record::events_view(events@),
            wanted == Seq::new(all.len(), |i: int| event_json(all[i])),
            json::items_view(items@) =~= wanted.take(i as int),
    {
        let ghost before = items@;
        let item = make_event(&events[i]);
        items.push(item);
        assert(json::items_view(items@) =~= json::items_view(before).push(item@));
    }
    assert(json::items_view(items@) =~= wanted);
    Json::Array(items)
}

/// The script that replays a response as it came.
fn make_transcript(exchange: &Exchange, captured: &RecordedExchange) -> (r: Json)
    ensures
        match *captured {
            RecordedExchange::Stream(events) => forall|bytes: Seq<u8>|
                sse::sse_events(bytes) == Some(record::events_view(events@)) ==> #[trigger]
                transcript_script(
                    true,
                    exchange.status,
                    text::opt_text(exchange.content_type),
                    bytes,
                ) == Ok::<JsonView, RecordError>(r@),
            RecordedExchange::Json(body) => forall|bytes: Seq<u8>|
                codec::read_ok(codec::json_parse(bytes), body@) ==> #[trigger] transcript_script(
                    false,
                    exchange.status,
                    text::opt_text(exchange.content_type),
                    bytes,
                ) == Ok::<JsonView, RecordError>(r@),
        },
{
    let mut script = Members::new().with("kind", Json::text("transcript")).with(
        "status",
        Json::uint(exchange.status as u64),
    );
    match &exchange.content_type {
        Some(s) => {
            script.set("content_type", Json::text(s.as_str()));
        },
        None => {},
    }
    match captured {
        RecordedExchange::Json(body) => {
            script.set("body", body.copy());
        },
        RecordedExchange::Stream(events) => {
            script.set("events", make_events(events));
        },
    }
    Json::Object(script)
}

/// Whether recording an exchange changed a recording as it should and gave the
/// id of the new scenario. An exchange that is skipped changes nothing.
pub open spec fn recorded_as(
    before: RecordingView,
    after: RecordingView,
    exchange: Exchange,
    bytes: Seq<u8>,
    outcome: Result<String, Skipped>,
) -> bool {
    let namespace = text::opt_text(exchange.namespace);
    match recorded_script(exchange, bytes) {
        Ok(script) => {
            &&& after == before.recorded(
                namespace,
                recorded_matcher(
                    exchange.shape->0,
                    exchange.format,
                    text::opt_text(exchange.hash),
                ),
                script,
            )
            &&& outcome matches Ok(id) && id@ == recorder::scenario_id(
                recorder::label_of(namespace),
                before.next(namespace) as u64,
            )
        },
        Err(e) => after == before && (outcome matches Err(f) && f == e),
    }
}

/// Records an exchange under the next number of its namespace and returns the
/// scenario's id. One that is skipped leaves the recording as it was.
pub fn record_exchange(recorder: &mut RecorderState, exchange: &Exchange, bytes: &[u8]) -> (r:
    Result<String, Skipped>)
    requires
        old(recorder)@.next(text::opt_text(exchange.namespace)) <= u64::MAX,
    ensures
        old(recorder)@.numbered() ==> final(recorder)@.numbered(),
        old(recorder)@.exact() ==> final(recorder)@.exact(),
        recorded_as(old(recorder)@, final(recorder)@, *exchange, bytes@, r),
{
    let shape = match exchange.shape {
        Some(shape) => shape,
        None => {
            return Err(Skipped::RequestNotJson);
        },
    };
    let captured = match capture(exchange.is_stream, bytes) {
        Ok(captured) => captured,
        Err(e) => {
            return Err(Skipped::Underivable(e));
        },
    };
    let mut matcher = Members::new().with(
        "endpoint",
        Json::text(shape.endpoint.scenario_endpoint()),
    ).with("stream", Json::Bool(shape.stream));
    let script = match exchange.format {
        RecordFormat::Semantic => match derive_script(shape, &captured) {
            Ok(script) => Json::Object(script),
            Err(e) => {
                return Err(Skipped::Underivable(e));
            },
        },
        RecordFormat::Transcript => {
            match &exchange.hash {
                Some(hash) => {
                    matcher.set("request_hash", Json::text(hash.as_str()));
                },
                None => {},
            }
            make_transcript(exchange, &captured)
        },
    };
    let namespace = match &exchange.namespace {
        Some(s) => Some(s.as_str()),
        None => None,
    };
    Ok(recorder.push_scenario(namespace, Json::Object(matcher), script))
}

/// Ends an exchange: one that is to be recorded is, any other leaves the
/// recording as it was.
pub fn end_exchange(
    recorder: &mut RecorderState,
    route: Route,
    exchange: &Exchange,
    failed: bool,
    bytes: &[u8],
) -> (r: Option<Result<String, Skipped>>)
    requires
        records(route, failed, exchange.status) ==> old(recorder)@.next(
            text::opt_text(exchange.namespace),
        ) <= u64::MAX,
    ensures
        old(recorder)@.numbered() ==> final(recorder)@.numbered(),
        old(recorder)@.exact() ==> final(recorder)@.exact(),
        r is Some <==> records(route, failed, exchange.status),
        match r {
            Some(outcome) => recorded_as(
                old(recorder)@,
                final(recorder)@,
                *exchange,
                bytes@,
                outcome,
            ),
            None => final(recorder)@ == old(recorder)@,
        },
{
    if should_record(route, failed, exchange.status) {
        Some(record_exchange(recorder, exchange, bytes))
    } else {
        None
    }
}

/// Why a recording cannot be taken up.
pub enum LoadError {
    /// The file is no JSON.
    Json(String),
    /// The document lists no scenarios.
    MissingScenarios,
}

/// Loads an existing recording, so that a later run continues it: the scenarios
/// are kept, and each namespace goes on behind its highest number.
pub fn load_recorder_state(contents: &str) -> (r: Result<RecorderState, LoadError>)
    ensures
        match codec::json_parse(encode_utf8(contents@)) {
            Err(e) => r matches Err(LoadError::Json(f)) && f@ == e,
            Ok(document) => match recorder::recording_in(document) {
                Some(recording) => r matches Ok(state) && state@ == recording
                    && state@.numbered() && state@.exact(),
                None => r matches Err(LoadError::MissingScenarios),
            },
        },
{
    match codec::parse_text(contents) {
        Err(e) => Err(LoadError::Json(e)),
        Ok(document) => match RecorderState::load(&document) {
            Some(state) => Ok(state),
            None => Err(LoadError::MissingScenarios),
        },
    }
}

/// The document sent where the upstream cannot be reached.
pub open spec fn unreachable_document(error: Seq<char>) -> JsonView {
    let details = JsonView::Object(
        map![
            "message"@ => JsonView::Str("failed to reach proxy upstream: "@ + error),
            "type"@ => JsonView::Str("twin_proxy_error"@),
            "param"@ => JsonView::Null,
            "code"@ => JsonView::Str("upstream_unreachable"@)
        ],
    );
    JsonView::Object(map!["error"@ => details])
}

/// The response sent where the upstream cannot be reached.
pub fn upstream_error_response(error: &str) -> (r: Reply)
    ensures
        r@ == (ReplyView {
            delay_ms: 0,
            status: 502,
            headers: reply::typed("application/json"@),
            body: BodyView::Whole(codec::json_text(unreachable_document(error@))),
        }),
{
    let mut message = "failed to reach proxy upstream: ".to_owned();
    message.append(error);
    ErrorOutcome::new(
        502,
        message,
        "twin_proxy_error".to_owned(),
        "upstream_unreachable".to_owned(),
        None,
        0,
    ).response()
}

} // verus!
