//! What forwarding and recording promise.

use vstd::prelude::*;
use vstd::utf8::*;

use crate::anthropic::config::Config;
use crate::anthropic::engine;
use crate::anthropic::engine::scenario::ScenarioMatcher;
use crate::anthropic::models::MessagesRequest;
use crate::anthropic::proxy;
use crate::anthropic::proxy::{Exchange, Forwarded, Route};
use crate::anthropic::record::RecordError;
use crate::anthropic::{auth, record};
use crate::json::JsonView;
use crate::recorder::RecordingView;
use crate::settings::RecordFormat;
use crate::{codec, hash, headers, json, sse, text};

verus! {

/// Whether a matcher is the one that a document describes. A criterion that the
/// document leaves out, or gives as null, is left open.
pub open spec fn reads_as(matcher: ScenarioMatcher, document: JsonView) -> bool {
    &&& document.at("endpoint"@) == JsonView::Str(matcher.endpoint@)
    &&& text::opt_text(matcher.model) == document.at("model"@).as_str()
    &&& matcher.stream == document.at("stream"@).as_bool()
    &&& text::opt_text(matcher.input_contains) == document.at("input_contains"@).as_str()
    &&& text::opt_text(matcher.instructions_contains) == document.at(
        "instructions_contains"@,
    ).as_str()
    &&& text::opt_text(matcher.request_hash) == document.at("request_hash"@).as_str()
    &&& matcher.metadata@ == (match document.at("metadata"@) {
        JsonView::Object(m) => m,
        _ => Map::<Seq<char>, JsonView>::empty(),
    })
}

/// The members of matchers, scenarios and scripts, told apart.
proof fn recording_members_differ()
    ensures
        "data"@.len() == 4 && "data"@[0] == 'd',
        "kind"@.len() == 4 && "kind"@[0] == 'k',
        "event"@.len() == 5 && "event"@[0] == 'e',
        "model"@.len() == 5 && "model"@[0] == 'm',
        "stream"@.len() == 6 && "stream"@[1] == 't' && "stream"@[0] == 's',
        "status"@.len() == 6 && "status"@[2] == 'a' && "status"@[0] == 's',
        "script"@.len() == 6 && "script"@[1] == 'c' && "script"@[0] == 's',
        "events"@.len() == 6 && "events"@[0] == 'e',
        "headers"@.len() == 7 && "headers"@[0] == 'h',
        "matcher"@.len() == 7 && "matcher"@[0] == 'm',
        "endpoint"@.len() == 8 && "endpoint"@[0] == 'e',
        "metadata"@.len() == 8 && "metadata"@[0] == 'm',
        "body_text"@.len() == 9 && "body_text"@[0] == 'b',
        "namespace"@.len() == 9 && "namespace"@[0] == 'n',
        "scenario_id"@.len() == 11,
        "request_hash"@.len() == 12,
        "input_contains"@.len() == 14,
        "instructions_contains"@.len() == 21,
{
    reveal_strlit("data");
    reveal_strlit("kind");
    reveal_strlit("event");
    reveal_strlit("model");
    reveal_strlit("stream");
    reveal_strlit("status");
    reveal_strlit("script");
    reveal_strlit("events");
    reveal_strlit("headers");
    reveal_strlit("matcher");
    reveal_strlit("endpoint");
    reveal_strlit("metadata");
    reveal_strlit("body_text");
    reveal_strlit("namespace");
    reveal_strlit("scenario_id");
    reveal_strlit("request_hash");
    reveal_strlit("input_contains");
    reveal_strlit("instructions_contains");
}

/// A recording answers the request that it was made from: a matcher read from
/// the new scenario accepts that request, before and after it is checked. It
/// accepts no request that asks for a stream where the recorded one did not, or
/// the other way round, and one of a transcript accepts no request with another
/// hash. The scenario belongs to the namespace of the request's credentials.
pub proof fn recordings_answer_their_requests(
    sent: Forwarded,
    config: Config,
    contents: Map<Seq<char>, Seq<Seq<u8>>>,
    status: u16,
    response: Map<Seq<char>, Seq<Seq<u8>>>,
    before: RecordingView,
    after: RecordingView,
    exchange: Exchange,
    bytes: Seq<u8>,
    outcome: Result<String, RecordError>,
    body: Seq<u8>,
    request: JsonView,
    matcher: ScenarioMatcher,
)
    requires
        proxy::forwarded_as(sent, config, Route::Messages, contents, true, body),
        proxy::begun_as(exchange, sent, config.record_format, status, response),
        proxy::recorded_as(before, after, exchange, bytes, outcome),
        outcome is Ok,
        codec::json_parse(body) == Ok::<JsonView, Seq<char>>(request),
        reads_as(matcher, after.scenarios.last().at("matcher"@)),
    ensures
        matcher.accepts(engine::raw_context(request, hash::body_key(body), false)),
        forall|checked: MessagesRequest|
            checked.stream == (request.at("stream"@) == JsonView::Bool(true)) ==> matcher.accepts(
                #[trigger] engine::request_context(checked, hash::body_key(body), false),
            ),
        after.scenarios.last().at("matcher"@).get("stream"@) == Some(
            JsonView::Bool(request.at("stream"@) == JsonView::Bool(true)),
        ),
        forall|other: JsonView, key: Option<Seq<char>>, count: bool|
            matcher.accepts(#[trigger] engine::raw_context(other, key, count)) ==> {
                &&& !count
                &&& (other.at("stream"@) == JsonView::Bool(true)) == (request.at("stream"@)
                    == JsonView::Bool(true))
                &&& config.record_format == RecordFormat::Transcript ==> key == hash::body_key(
                    body,
                )
            },
        after.scenarios.last().get("namespace"@) == (match auth::credential(contents) {
            Some(key) => Some(JsonView::Str(key)),
            None => None,
        }),
{
    recording_members_differ();
    reveal_strlit("messages");
    reveal_strlit("messages.count_tokens");
    assert("messages"@.len() == 8 && "messages.count_tokens"@.len() == 21);
    let document = after.scenarios.last().at("matcher"@);
    assert(document == proxy::recorded_matcher(
        exchange.requested_stream,
        exchange.format,
        text::opt_text(exchange.hash),
    ));
    assert(document.at("stream"@) == JsonView::Bool(exchange.requested_stream));
    assert(document.at("endpoint"@) == JsonView::Str("messages"@));
    assert(document.get("model"@) is None);
    assert(document.get("metadata"@) is None);
    assert(document.get("input_contains"@) is None);
    assert(document.get("instructions_contains"@) is None);
    if exchange.format == RecordFormat::Transcript {
        assert(document.at("request_hash"@) == JsonView::Str(hash::body_key(body)->0));
    } else {
        assert(document.get("request_hash"@) is None);
    }
}

/// A recorded exchange adds one scenario, in the namespace of its request, behind
/// those that were there, and counts it. One that cannot be derived adds none.
pub proof fn recordings_grow_by_one(
    before: RecordingView,
    after: RecordingView,
    exchange: Exchange,
    bytes: Seq<u8>,
    outcome: Result<String, RecordError>,
)
    requires
        proxy::recorded_as(before, after, exchange, bytes, outcome),
        before.next(text::opt_text(exchange.namespace)) <= u64::MAX,
    ensures
        outcome is Err ==> after == before,
        outcome matches Ok(id) ==> {
            let scenario = after.scenarios.last();
            &&& after.scenarios.len() == before.scenarios.len() + 1
            &&& forall|i: int|
                0 <= i < before.scenarios.len() ==> after.scenarios[i]
                    == #[trigger] before.scenarios[i]
            &&& scenario.at("scenario_id"@) == JsonView::Str(id@)
            &&& exchange.namespace matches Some(n) ==> scenario.get("namespace"@) == Some(
                JsonView::Str(n@),
            )
            &&& exchange.namespace is None ==> scenario.get("namespace"@) is None
            &&& Ok::<JsonView, RecordError>(scenario.at("script"@)) == proxy::recorded_script(
                exchange.is_stream,
                exchange.format,
                exchange.status,
                exchange.headers@,
                bytes,
            )
            &&& after.next(text::opt_text(exchange.namespace)) == before.next(
                text::opt_text(exchange.namespace),
            ) + 1
        },
{
    recording_members_differ();
}

/// A transcript holds the response: its status, its headers, and its body as
/// text or its events in order. A body that is no JSON, or not text, is not
/// recorded.
pub proof fn transcripts_hold_the_response(
    is_stream: bool,
    status: u16,
    response: Map<Seq<char>, Seq<char>>,
    bytes: Seq<u8>,
)
    ensures
        ({
            let made = proxy::transcript_script(is_stream, status, response, bytes);
            &&& !is_stream ==> (made is Ok <==> codec::json_parse(bytes) is Ok && valid_utf8(bytes))
            &&& is_stream ==> (made is Ok <==> sse::sse_events(bytes) is Some)
            &&& made matches Ok(script) ==> {
                &&& script.at("kind"@) == JsonView::Str("transcript"@)
                &&& script.at("status"@).as_u64() == Some(status as u64)
                &&& forall|name: Seq<char>| #[trigger]
                    response.contains_key(name) ==> script.at("headers"@).get(name) == Some(
                        JsonView::Str(response[name]),
                    )
                &&& forall|name: Seq<char>|
                    (#[trigger] script.at("headers"@).get(name)) is Some ==> response.contains_key(
                        name,
                    )
                &&& !is_stream ==> {
                    &&& script.at("body_text"@) == JsonView::Str(decode_utf8(bytes))
                    &&& script.get("events"@) is None
                }
                &&& is_stream ==> {
                    let events = sse::sse_events(bytes)->0;
                    let kept = script.at("events"@).items();
                    &&& script.get("body_text"@) is None
                    &&& kept.len() == events.len()
                    &&& forall|i: int|
                        #![trigger events[i]]
                        0 <= i < events.len() ==> {
                            &&& kept[i].at("data"@) == JsonView::Str(events[i].data)
                            &&& kept[i].at("event"@).as_str() == events[i].event
                        }
                }
            }
        }),
{
    recording_members_differ();
}

/// A route is forwarded to its own path on the upstream, and messages to the
/// path that is configured for them, where one is.
pub proof fn routes_go_to_their_paths(path: Seq<char>)
    ensures
        proxy::upstream_path(Route::Messages, None) == "/v1/messages"@,
        proxy::upstream_path(Route::Messages, Some(path)) == path,
        proxy::upstream_path(Route::CountTokens, None) == proxy::upstream_path(
            Route::Messages,
            None,
        ) + "/count_tokens"@,
        proxy::upstream_path(Route::CountTokens, Some(path)) == proxy::upstream_path(
            Route::CountTokens,
            None,
        ),
        proxy::upstream_path(Route::Models, Some(path)) == "/v1/models"@,
        proxy::upstream_path(Route::Models, None) == "/v1/models"@,
{
    reveal_strlit("/v1/messages");
    reveal_strlit("/count_tokens");
    reveal_strlit("/v1/messages/count_tokens");
    assert("/v1/messages"@ + "/count_tokens"@ =~= "/v1/messages/count_tokens"@);
}

/// Only generations that succeeded to their end are recorded.
pub proof fn whole_successes_are_recorded(route: Route, failed: bool, status: u16)
    ensures
        proxy::records(Route::Messages, false, 200),
        proxy::records(route, failed, status) ==> route is Messages && !failed && status == 200,
{
}

/// A forwarded request carries the upstream's key, the client's version, beta,
/// accept and user-agent headers where the client sent them, the type of its
/// body where it has one, and nothing else.
pub proof fn forwarded_headers_are_these(
    contents: Map<Seq<char>, Seq<Seq<u8>>>,
    key: Option<Seq<char>>,
    has_body: bool,
)
    ensures
        ({
            let pairs = proxy::upstream_pairs(contents, key, has_body);
            &&& pairs.contains(
                ("x-api-key"@, encode_utf8(if key is Some { key->0 } else { Seq::empty() })),
            )
            &&& contents.contains_key("anthropic-version"@) ==> pairs.contains(
                ("anthropic-version"@, contents["anthropic-version"@][0]),
            )
            &&& contents.contains_key("anthropic-beta"@) ==> pairs.contains(
                ("anthropic-beta"@, contents["anthropic-beta"@][0]),
            )
            &&& contents.contains_key("accept"@) ==> pairs.contains(
                ("accept"@, contents["accept"@][0]),
            )
            &&& contents.contains_key("user-agent"@) ==> pairs.contains(
                ("user-agent"@, contents["user-agent"@][0]),
            )
            &&& has_body ==> pairs.contains(
                ("content-type"@, encode_utf8("application/json"@)),
            )
            &&& forall|i: int|
                0 <= i < pairs.len() ==> {
                    ||| (#[trigger] pairs[i]).0 == "x-api-key"@
                    ||| has_body && pairs[i].0 == "content-type"@
                    ||| contents.contains_key(pairs[i].0) && (pairs[i].0 == "anthropic-version"@
                        || pairs[i].0 == "anthropic-beta"@ || pairs[i].0 == "accept"@ || pairs[i].0
                        == "user-agent"@)
                }
        }),
{
    let pairs = proxy::upstream_pairs(contents, key, has_body);
    let names = proxy::forwarded_names();
    headers::lemma_passed_whole(contents, names);
    let passed = headers::passed_on(contents, names);
    assert(pairs[0].0 == "x-api-key"@);
    let sent = if key is Some {
        key->0
    } else {
        Seq::empty()
    };
    assert(pairs[0] == ("x-api-key"@, encode_utf8(sent)));
    assert forall|j: int| 0 <= j < passed.len() implies #[trigger] passed[j] == pairs[j + 1] by {}
    assert(names[0] == "anthropic-version"@ && names[1] == "anthropic-beta"@ && names[2]
        == "accept"@ && names[3] == "user-agent"@);
    assert forall|i: int| 0 <= i < 4 && contents.contains_key(
        #[trigger] names[i],
    ) implies pairs.contains((names[i], contents[names[i]][0])) by {
        let j = passed.index_of((names[i], contents[names[i]][0]));
        assert(pairs[j + 1] == passed[j]);
    }
    if has_body {
        assert(pairs[pairs.len() - 1] == ("content-type"@, encode_utf8("application/json"@)));
    }
    assert forall|i: int| 0 <= i < pairs.len() implies {
        ||| (#[trigger] pairs[i]).0 == "x-api-key"@
        ||| has_body && pairs[i].0 == "content-type"@
        ||| contents.contains_key(pairs[i].0) && (pairs[i].0 == "anthropic-version"@ || pairs[i].0
            == "anthropic-beta"@ || pairs[i].0 == "accept"@ || pairs[i].0 == "user-agent"@)
    } by {
        if 1 <= i <= passed.len() {
            assert(pairs[i] == passed[i - 1]);
            let k = names.index_of(passed[i - 1].0);
            assert(k == 0 || k == 1 || k == 2 || k == 3);
        }
    }
}

/// A response header is kept under its last readable value, unless it has none
/// or is one of those that belong to the connection, the length or credentials.
pub proof fn retained_headers_are_these(contents: Map<Seq<char>, Seq<Seq<u8>>>, name: Seq<char>)
    ensures
        ({
            let kept = proxy::retained(contents);
            let held = name == "connection"@ || name == "transfer-encoding"@ || name
                == "content-length"@ || name == "keep-alive"@ || name == "proxy-authenticate"@
                || name == "proxy-authorization"@ || name == "te"@ || name == "trailer"@ || name
                == "upgrade"@ || name == "authorization"@ || name == "x-api-key"@;
            let values = contents[name];
            &&& held ==> !kept.contains_key(name)
            &&& !contents.contains_key(name) ==> !kept.contains_key(name)
            &&& !held && contents.contains_key(name) ==> (kept.contains_key(name) <==> exists|
                i: int,
            |
                0 <= i < values.len() && headers::value_text(#[trigger] values[i]) is Some)
            &&& kept.contains_key(name) ==> exists|i: int|
                {
                    &&& 0 <= i < values.len()
                    &&& headers::value_text(#[trigger] values[i]) == Some(kept[name])
                    &&& forall|j: int|
                        i < j < values.len() ==> headers::value_text(#[trigger] values[j]) is None
                }
        }),
{
    if contents.contains_key(name) {
        lemma_last_readable(contents[name]);
    }
}

proof fn lemma_last_readable(values: Seq<Seq<u8>>)
    ensures
        proxy::last_readable(values) is None ==> forall|i: int|
            0 <= i < values.len() ==> headers::value_text(#[trigger] values[i]) is None,
        proxy::last_readable(values) matches Some(s) ==> exists|i: int|
            {
                &&& 0 <= i < values.len()
                &&& headers::value_text(#[trigger] values[i]) == Some(s)
                &&& forall|j: int|
                    i < j < values.len() ==> headers::value_text(#[trigger] values[j]) is None
            },
    decreases values.len(),
{
    if values.len() > 0 {
        let front = values.drop_last();
        lemma_last_readable(front);
        assert(values.last() == values[values.len() - 1]);
        if headers::value_text(values.last()) is None {
            if proxy::last_readable(front) is Some {
                let s = proxy::last_readable(front)->0;
                let i = choose|i: int|
                    {
                        &&& 0 <= i < front.len()
                        &&& headers::value_text(#[trigger] front[i]) == Some(s)
                        &&& forall|j: int|
                            i < j < front.len() ==> headers::value_text(#[trigger] front[j]) is None
                    };
                assert(values[i] == front[i]);
                assert forall|j: int| i < j < values.len() implies headers::value_text(
                    #[trigger] values[j],
                ) is None by {
                    if j < front.len() {
                        assert(values[j] == front[j]);
                    }
                }
            } else {
                assert forall|i: int| 0 <= i < values.len() implies headers::value_text(
                    #[trigger] values[i],
                ) is None by {
                    if i < front.len() {
                        assert(values[i] == front[i]);
                    }
                }
            }
        }
    }
}

/// An upstream that cannot be reached is answered as a bad gateway.
pub proof fn unreachable_upstream_is_a_bad_gateway()
    ensures
        proxy::unreachable_view().status == 502,
        proxy::unreachable_view().kind == "error"@,
        proxy::unreachable_view().error_type == "api_error"@,
        proxy::unreachable_view().message == "failed to reach proxy upstream"@,
        proxy::unreachable_view().code is None,
{
}

/// An exchange is recorded with the response's own status and the headers that
/// are kept of it, as a stream where the response is one.
pub proof fn exchanges_keep_the_response(
    sent: Forwarded,
    exchange: Exchange,
    format: RecordFormat,
    status: u16,
    response: Map<Seq<char>, Seq<Seq<u8>>>,
    bytes: Seq<u8>,
)
    requires
        proxy::begun_as(exchange, sent, format, status, response),
    ensures
        proxy::recorded_script(
            exchange.is_stream,
            exchange.format,
            exchange.status,
            exchange.headers@,
            bytes,
        ) == (if format == RecordFormat::Transcript {
            proxy::transcript_script(
                headers::responds_stream(response, sent.requested_stream),
                status,
                proxy::retained(response),
                bytes,
            )
        } else {
            proxy::semantic_script(
                headers::responds_stream(response, sent.requested_stream),
                bytes,
            )
        }),
{
}

/// What is learned from a response: of a stream the message that its events
/// carry, of a body the message that it is.
pub proof fn responses_are_learned_from(is_stream: bool, bytes: Seq<u8>)
    ensures
        ({
            let made = proxy::semantic_script(is_stream, bytes);
            &&& !is_stream ==> (match codec::json_parse(bytes) {
                Ok(message) => made == record::derived(message),
                Err(_) => made is Err,
            })
            &&& is_stream ==> (match sse::sse_events(bytes) {
                Some(events) => match record::streamed_message(events) {
                    Ok(message) => made == record::derived(message),
                    Err(_) => made is Err,
                },
                None => made is Err,
            })
        }),
{
}

/// A forwarded request goes to the configured upstream, under the path of its
/// route.
pub proof fn requests_go_to_the_upstream(
    sent: Forwarded,
    config: Config,
    route: Route,
    contents: Map<Seq<char>, Seq<Seq<u8>>>,
    has_body: bool,
    body: Seq<u8>,
)
    requires
        proxy::forwarded_as(sent, config, route, contents, has_body, body),
    ensures
        config.upstream_url@.is_prefix_of(sent.target@),
        route is Models ==> sent.target@ == config.upstream_url@ + "/v1/models"@,
        route is CountTokens ==> sent.target@ == config.upstream_url@
            + "/v1/messages/count_tokens"@,
        route is Messages && config.upstream_messages_path is None ==> sent.target@
            == config.upstream_url@ + "/v1/messages"@,
        route is Messages && config.upstream_messages_path is Some ==> sent.target@
            == config.upstream_url@ + config.upstream_messages_path->0@,
        exists|i: int|
            0 <= i < sent.headers@.len() && (#[trigger] sent.headers@[i]).0@ == "x-api-key"@
                && sent.headers@[i].1@ == encode_utf8(
                if config.upstream_api_key is Some {
                    config.upstream_api_key->0@
                } else {
                    Seq::empty()
                },
            ),
{
    assert(sent.target@.take(config.upstream_url@.len() as int) =~= config.upstream_url@);
    let pairs = headers::pairs_view(sent.headers@);
    assert(pairs[0].0 == "x-api-key"@);
    assert(pairs.len() > 0 && pairs.len() == sent.headers@.len());
    assert(sent.headers@[0].0@ == pairs[0].0 && sent.headers@[0].1@ == pairs[0].1);
}

} // verus!
