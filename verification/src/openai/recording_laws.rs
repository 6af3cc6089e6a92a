//! What forwarding and recording promise.

use vstd::prelude::*;
use vstd::utf8::*;

use crate::json::JsonView;
use crate::openai::auth;
use crate::openai::config::Config;
use crate::openai::failures::{ErrorOutcome, ExecutionOutcome};
use crate::openai::names;
use crate::openai::proxy;
use crate::openai::proxy::{Exchange, Forwarded, Route, Skipped};
use crate::openai::record;
use crate::openai::record::{
    CallView, ChatView, ExchangeShape, ObservationView, RecordError, RecordedEndpoint,
};
use crate::openai::{chat_completions, input_tokens, model_catalog};
use crate::recorder::RecordingView;
use crate::reply::BodyView;
use crate::settings::RecordFormat;
use crate::sse::EventView;
use crate::{codec, credentials, hash, headers, sse, text, transport};

verus! {

/// The members of matchers, scenarios and scripts, told apart.
proof fn recording_members_differ()
    ensures
        "body"@.len() == 4 && "body"@[0] == 'b',
        "data"@.len() == 4 && "data"@[0] == 'd',
        "kind"@.len() == 4 && "kind"@[0] == 'k',
        "name"@.len() == 4 && "name"@[0] == 'n',
        "event"@.len() == 5 && "event"@[0] == 'e',
        "usage"@.len() == 5 && "usage"@[0] == 'u',
        "events"@.len() == 6 && "events"@[0] == 'e',
        "script"@.len() == 6 && "script"@[1] == 'c' && "script"@[0] == 's',
        "status"@.len() == 6 && "status"@[2] == 'a' && "status"@[0] == 's',
        "stream"@.len() == 6 && "stream"@[2] == 'r' && "stream"@[0] == 's' && "stream"@[1] == 't',
        "matcher"@.len() == 7,
        "endpoint"@.len() == 8,
        "arguments"@.len() == 9 && "arguments"@[0] == 'a',
        "namespace"@.len() == 9 && "namespace"@[0] == 'n',
        "tool_calls"@.len() == 10,
        "scenario_id"@.len() == 11,
        "content_type"@.len() == 12 && "content_type"@[0] == 'c',
        "input_tokens"@.len() == 12 && "input_tokens"@[0] == 'i',
        "request_hash"@.len() == 12 && "request_hash"@[0] == 'r',
        "output_tokens"@.len() == 13 && "output_tokens"@[0] == 'o',
        "response_text"@.len() == 13 && "response_text"@[0] == 'r',
        "structured_output"@.len() == 17,
{
    reveal_strlit("body");
    reveal_strlit("data");
    reveal_strlit("kind");
    reveal_strlit("name");
    reveal_strlit("event");
    reveal_strlit("usage");
    reveal_strlit("events");
    reveal_strlit("script");
    reveal_strlit("status");
    reveal_strlit("stream");
    reveal_strlit("matcher");
    reveal_strlit("endpoint");
    reveal_strlit("arguments");
    reveal_strlit("namespace");
    reveal_strlit("tool_calls");
    reveal_strlit("scenario_id");
    reveal_strlit("content_type");
    reveal_strlit("input_tokens");
    reveal_strlit("request_hash");
    reveal_strlit("output_tokens");
    reveal_strlit("response_text");
    reveal_strlit("structured_output");
}

/// A request says by itself what its exchange is: whether it asks for a stream,
/// and whether it asks for structured output, each endpoint in its own member.
pub proof fn requests_shape_their_exchange(endpoint: RecordedEndpoint, request: JsonView)
    ensures
        ({
            let shape = record::shape_of(endpoint, request);
            let format = if endpoint is Responses {
                request.at("text"@).at("format"@)
            } else {
                request.at("response_format"@)
            };
            &&& shape.endpoint == endpoint
            &&& shape.stream <==> request.at("stream"@) == JsonView::Bool(true)
            &&& shape.structured <==> format.at("type"@) == JsonView::Str("json_object"@)
                || format.at("type"@) == JsonView::Str("json_schema"@)
        }),
{
}

/// A recording is found again by the request that it was made from: its matcher
/// names the request's endpoint, whether the request asks for a stream, and, for
/// a transcript, the request's hash. It belongs to the namespace of the request's
/// token.
pub proof fn recordings_match_their_requests(
    sent: Forwarded,
    config: Config,
    key: Seq<char>,
    contents: Map<Seq<char>, Seq<Seq<u8>>>,
    status: u16,
    response: Map<Seq<char>, Seq<Seq<u8>>>,
    before: RecordingView,
    after: RecordingView,
    exchange: Exchange,
    bytes: Seq<u8>,
    outcome: Result<String, Skipped>,
    endpoint: RecordedEndpoint,
    body: Seq<u8>,
    request: JsonView,
)
    requires
        proxy::forwarded_as(
            sent,
            config,
            key,
            Route::Generation(endpoint),
            contents,
            true,
            body,
        ),
        proxy::begun_as(exchange, sent, config.record_format, status, response),
        proxy::recorded_as(before, after, exchange, bytes, outcome),
        outcome is Ok,
        codec::json_parse(body) == Ok::<JsonView, Seq<char>>(request),
    ensures
        ({
            let matcher = after.scenarios.last().at("matcher"@);
            &&& endpoint is Responses ==> matcher.at("endpoint"@) == JsonView::Str("responses"@)
            &&& endpoint is ChatCompletions ==> matcher.at("endpoint"@) == JsonView::Str(
                "chat.completions"@,
            )
            &&& matcher.get("stream"@) == Some(
                JsonView::Bool(request.at("stream"@) == JsonView::Bool(true)),
            )
            &&& config.record_format == RecordFormat::Transcript ==> matcher.at(
                "request_hash"@,
            ).as_str() == hash::body_key(body)
            &&& config.record_format == RecordFormat::Semantic ==> matcher.get("request_hash"@)
                is None
            &&& forall|k: Seq<char>|
                (#[trigger] matcher.get(k)) is Some ==> k == "endpoint"@ || k == "stream"@ || k
                    == "request_hash"@
            &&& after.scenarios.last().get("namespace"@) == (match credentials::bearer_token(
                contents,
            ) {
                Some(token) => Some(JsonView::Str(token)),
                None => None,
            })
        }),
{
    recording_members_differ();
    let matcher = after.scenarios.last().at("matcher"@);
    assert(matcher == proxy::recorded_matcher(
        exchange.shape->0,
        exchange.format,
        text::opt_text(exchange.hash),
    ));
}

/// A recorded exchange adds one scenario, in the namespace of its request, behind
/// those that were there, and counts it. One that is skipped adds none; a request
/// that is no JSON is always skipped.
pub proof fn recordings_grow_by_one(
    before: RecordingView,
    after: RecordingView,
    exchange: Exchange,
    bytes: Seq<u8>,
    outcome: Result<String, Skipped>,
)
    requires
        proxy::recorded_as(before, after, exchange, bytes, outcome),
        before.next(text::opt_text(exchange.namespace)) <= u64::MAX,
    ensures
        outcome is Err ==> after == before,
        exchange.shape is None ==> outcome is Err,
        outcome matches Ok(id) ==> {
            let scenario = after.scenarios.last();
            &&& after.scenarios.len() == before.scenarios.len() + 1
            &&& forall|i: int|
                0 <= i < before.scenarios.len() ==> after.scenarios[i]
                    == #[trigger] before.scenarios[i]
            &&& scenario.at("scenario_id"@) == JsonView::Str(id@)
            &&& exchange.namespace matches Some(n) ==> scenario.get("namespace"@) == Some(
                JsonView::Str(n@),
            )
            &&& exchange.namespace is None ==> scenario.get("namespace"@) is None
            &&& exchange.format == RecordFormat::Semantic ==> Ok::<JsonView, RecordError>(
                scenario.at("script"@),
            ) == proxy::semantic_script(exchange.shape->0, exchange.is_stream, bytes)
            &&& exchange.format == RecordFormat::Transcript ==> Ok::<JsonView, RecordError>(
                scenario.at("script"@),
            ) == proxy::transcript_script(
                exchange.is_stream,
                exchange.status,
                text::opt_text(exchange.content_type),
                bytes,
            )
            &&& after.next(text::opt_text(exchange.namespace)) == before.next(
                text::opt_text(exchange.namespace),
            ) + 1
        },
{
    recording_members_differ();
}

/// A transcript holds the response: its status, its content type, and its body
/// or its events in order.
pub proof fn transcripts_hold_the_response(
    is_stream: bool,
    status: u16,
    content_type: Option<Seq<char>>,
    bytes: Seq<u8>,
)
    ensures
        ({
            let made = proxy::transcript_script(is_stream, status, content_type, bytes);
            &&& !is_stream ==> (made is Ok <==> codec::json_parse(bytes) is Ok)
            &&& is_stream ==> (made is Ok <==> sse::sse_events(bytes) is Some)
            &&& made matches Ok(script) ==> {
                &&& script.at("kind"@) == JsonView::Str("transcript"@)
                &&& script.at("status"@).as_u64() == Some(status as u64)
                &&& content_type matches Some(s) ==> script.get("content_type"@) == Some(
                    JsonView::Str(s),
                )
                &&& content_type is None ==> script.get("content_type"@) is None
                &&& !is_stream ==> {
                    &&& Ok::<JsonView, Seq<char>>(script.at("body"@)) == codec::json_parse(bytes)
                    &&& script.get("events"@) is None
                }
                &&& is_stream ==> {
                    let events = sse::sse_events(bytes)->0;
                    let kept = script.at("events"@).items();
                    &&& script.get("body"@) is None
                    &&& kept.len() == events.len()
                    &&& forall|i: int|
                        #![trigger events[i]]
                        0 <= i < events.len() ==> {
                            &&& kept[i].at("data"@) == JsonView::Str(events[i].data)
                            &&& events[i].event matches Some(name) ==> kept[i].get("event"@)
                                == Some(JsonView::Str(name))
                            &&& events[i].event is None ==> kept[i].get("event"@) is None
                        }
                }
            }
        }),
{
    recording_members_differ();
}

/// A recorded answer's script answers with what was seen: the text, the
/// structured output, the tool calls in order and the token counts, each only
/// where it was seen.
pub proof fn scripts_answer_with_what_was_seen(o: ObservationView)
    ensures
        ({
            let script = JsonView::Object(record::script_of(o));
            let calls = script.at("tool_calls"@).items();
            &&& script.at("kind"@) == JsonView::Str("success"@)
            &&& o.response_text matches Some(s) ==> script.get("response_text"@) == Some(
                JsonView::Str(s),
            )
            &&& o.response_text is None ==> script.get("response_text"@) is None
            &&& script.get("structured_output"@) == o.structured_output
            &&& o.tool_calls.len() == 0 ==> script.get("tool_calls"@) is None
            &&& calls.len() == o.tool_calls.len()
            &&& forall|i: int|
                #![trigger o.tool_calls[i]]
                0 <= i < o.tool_calls.len() ==> {
                    &&& calls[i].at("name"@) == JsonView::Str(o.tool_calls[i].0)
                    &&& calls[i].at("arguments"@) == o.tool_calls[i].1
                }
            &&& o.usage is None ==> script.get("usage"@) is None
            &&& o.usage matches Some(usage) ==> {
                &&& script.at("usage"@).at("input_tokens"@).as_u64() == Some(usage.0)
                &&& script.at("usage"@).at("output_tokens"@).as_u64() == Some(usage.1)
            }
        }),
{
    recording_members_differ();
}

/// Text is seen as structured output where that is asked for and the text is
/// JSON, else as text. Empty text is not seen. Nothing else changes.
pub proof fn texts_are_seen(o: ObservationView, structured: bool, s: Seq<char>)
    ensures
        ({
            let seen = record::text_seen(o, structured, s);
            let read = codec::json_parse(encode_utf8(s));
            &&& s.len() == 0 ==> seen == o
            &&& s.len() > 0 && structured && read is Ok ==> seen.structured_output == Some(
                read->Ok_0,
            ) && seen.response_text == o.response_text
            &&& s.len() > 0 && !(structured && read is Ok) ==> seen.response_text == Some(s)
                && seen.structured_output == o.structured_output
            &&& seen.tool_calls == o.tool_calls
            &&& seen.usage == o.usage
        }),
{
}

/// An output item adds what it holds: a message its text and structured parts, a
/// function call its name and arguments, and any other item nothing.
pub proof fn items_are_seen(o: ObservationView, structured: bool, item: JsonView, part: JsonView)
    ensures
        ({
            let seen = record::item_seen(o, structured, item);
            let kind = item.at("type"@);
            &&& kind == JsonView::Str("function_call"@) ==> {
                &&& seen is Ok <==> item.at("name"@) is Str && item.at("arguments"@) is Str
                &&& seen is Ok ==> {
                    &&& seen->Ok_0.tool_calls.len() == o.tool_calls.len() + 1
                    &&& seen->Ok_0.tool_calls.drop_last() == o.tool_calls
                    &&& JsonView::Str(seen->Ok_0.tool_calls.last().0) == item.at("name"@)
                    &&& seen->Ok_0.tool_calls.last().1 == record::parsed_arguments(
                        item.at("arguments"@)->Str_0,
                    )
                    &&& seen->Ok_0.response_text == o.response_text
                    &&& seen->Ok_0.structured_output == o.structured_output
                }
            }
            &&& kind == JsonView::Str("message"@) ==> seen is Ok && seen->Ok_0
                == record::parts_seen(o, structured, item.at("content"@).items())
            &&& kind != JsonView::Str("message"@) && kind != JsonView::Str("function_call"@) ==> seen
                == Ok::<ObservationView, RecordError>(o)
        }),
        ({
            let seen = record::part_seen(o, structured, part);
            let kind = part.at("type"@);
            &&& kind == JsonView::Str("output_text"@) && part.at("text"@) is Str ==> seen
                == record::text_seen(o, structured, part.at("text"@)->Str_0)
            &&& kind == JsonView::Str("output_json"@) ==> seen.structured_output == part.get(
                "json"@,
            ) && seen.response_text == o.response_text && seen.tool_calls == o.tool_calls
            &&& kind != JsonView::Str("output_text"@) && kind != JsonView::Str("output_json"@)
                ==> seen == o
        }),
{
    names::item_types_differ();
    if record::item_seen(o, structured, item) is Ok && item.at("type"@) == JsonView::Str(
        "function_call"@,
    ) {
        assert(record::item_seen(o, structured, item)->Ok_0.tool_calls.drop_last()
            =~= o.tool_calls);
    }
}

/// Arguments are kept as the JSON that they spell, and as text where they spell
/// none.
pub proof fn arguments_are_parsed(s: Seq<char>)
    ensures
        match codec::json_parse(encode_utf8(s)) {
            Ok(v) => record::parsed_arguments(s) == v,
            Err(_) => record::parsed_arguments(s) == JsonView::Str(s),
        },
{
}

/// Output items are seen in order, one behind the other, and so are the parts of
/// a message and the calls of a chat message.
pub proof fn items_are_seen_in_order(
    o: ObservationView,
    structured: bool,
    front: Seq<JsonView>,
    last: JsonView,
)
    ensures
        record::items_seen(structured, front.push(last)) == (match record::items_seen(
            structured,
            front,
        ) {
            Ok(seen) => record::item_seen(seen, structured, last),
            Err(e) => Err(e),
        }),
        record::parts_seen(o, structured, front.push(last)) == record::part_seen(
            record::parts_seen(o, structured, front),
            structured,
            last,
        ),
        record::items_seen(structured, Seq::empty()) matches Ok(seen) && seen.response_text is None
            && seen.structured_output is None && seen.tool_calls.len() == 0 && seen.usage is None,
{
    assert(front.push(last).drop_last() =~= front);
}

/// Token counts are read from the members that the endpoint reports them in, and
/// only where both are there.
pub proof fn usage_is_read(body: JsonView, o: ObservationView, structured: bool)
    ensures
        record::responses_seen(structured, body) == Ok::<ObservationView, RecordError>(o) ==> {
            let usage = body.at("usage"@);
            &&& o.usage is Some <==> usage.at("input_tokens"@).as_u64() is Some && usage.at(
                "output_tokens"@,
            ).as_u64() is Some
            &&& o.usage matches Some(u) ==> usage.at("input_tokens"@).as_u64() == Some(u.0)
                && usage.at("output_tokens"@).as_u64() == Some(u.1)
        },
        record::chat_seen(structured, body) == Ok::<ObservationView, RecordError>(o) ==> {
            let usage = body.at("usage"@);
            &&& o.usage is Some <==> usage.at("prompt_tokens"@).as_u64() is Some && usage.at(
                "completion_tokens"@,
            ).as_u64() is Some
            &&& o.usage matches Some(u) ==> usage.at("prompt_tokens"@).as_u64() == Some(u.0)
                && usage.at("completion_tokens"@).as_u64() == Some(u.1)
        },
{
}

/// A chunk of a chat stream adds its content behind the content so far, and
/// token counts that it gives replace those before.
pub proof fn chunks_add_content(chat: ChatView, chunk: JsonView)
    requires
        chunk.at("choices"@).items().len() > 0,
    ensures
        ({
            let seen = record::chunk_seen(chat, chunk);
            let delta = chunk.at("choices"@).items()[0].at("delta"@);
            let usage = chunk.at("usage"@);
            &&& delta.at("content"@) matches JsonView::Str(s) ==> seen.content == chat.content + s
            &&& !(delta.at("content"@) is Str) ==> seen.content == chat.content
            &&& delta.at("tool_calls"@).items().len() == 0 ==> seen.calls == chat.calls
            &&& usage is Null ==> seen.usage == chat.usage
            &&& usage.at("prompt_tokens"@).as_u64() is Some && usage.at(
                "completion_tokens"@,
            ).as_u64() is Some ==> seen.usage == Some(
                (
                    usage.at("prompt_tokens"@).as_u64()->0,
                    usage.at("completion_tokens"@).as_u64()->0,
                ),
            )
        }),
{
    assert(chat.content + Seq::<char>::empty() =~= chat.content);
}

proof fn lemma_call_place(calls: Seq<CallView>, index: u64)
    ensures
        0 <= record::call_place(calls, index) <= calls.len(),
        forall|i: int|
            0 <= i < record::call_place(calls, index) ==> (#[trigger] calls[i]).index < index,
        record::call_place(calls, index) < calls.len() ==> calls[record::call_place(
            calls,
            index,
        )].index >= index,
    decreases calls.len(),
{
    if calls.len() > 0 && calls[0].index < index {
        let rest = calls.skip(1);
        lemma_call_place(rest, index);
        let p = record::call_place(rest, index);
        assert forall|i: int| 0 <= i < p + 1 implies (#[trigger] calls[i]).index < index by {
            if i > 0 {
                assert(calls[i] == rest[i - 1]);
            }
        }
        if p < rest.len() {
            assert(rest[p] == calls[p + 1]);
        }
    }
}

/// A piece of a tool call is added to the call of its index: its name behind the
/// name, its arguments behind the arguments. A call that was not there starts
/// empty, in its place by index; the other calls stay.
pub proof fn call_pieces_add_up(calls: Seq<CallView>, piece: JsonView, index: u64)
    requires
        piece.at("index"@).as_u64() == Some(index),
        forall|i: int, j: int|
            0 <= i < j < calls.len() ==> (#[trigger] calls[i]).index < (#[trigger] calls[j]).index,
    ensures
        ({
            let grown = record::call_grown(calls, piece);
            let name = piece.at("function"@).text_at("name"@);
            let arguments = piece.at("function"@).text_at("arguments"@);
            &&& forall|i: int, j: int|
                0 <= i < j < grown.len() ==> (#[trigger] grown[i]).index < (
                #[trigger] grown[j]).index
            &&& forall|i: int|
                0 <= i < calls.len() && (#[trigger] calls[i]).index == index ==> {
                    &&& grown.len() == calls.len()
                    &&& grown[i].index == index
                    &&& grown[i].name == calls[i].name + name
                    &&& grown[i].arguments == calls[i].arguments + arguments
                    &&& forall|j: int|
                        0 <= j < calls.len() && j != i ==> grown[j] == #[trigger] calls[j]
                }
            &&& (forall|i: int| 0 <= i < calls.len() ==> (#[trigger] calls[i]).index != index) ==> {
                &&& grown.len() == calls.len() + 1
                &&& grown.contains(CallView { index, name, arguments })
                &&& forall|i: int| 0 <= i < calls.len() ==> grown.contains(#[trigger] calls[i])
            }
        }),
{
    lemma_call_place(calls, index);
    let p = record::call_place(calls, index);
    let grown = record::call_grown(calls, piece);
    let name = piece.at("function"@).text_at("name"@);
    let arguments = piece.at("function"@).text_at("arguments"@);
    assert(record::text_or_none(piece.at("function"@).at("name"@)) == name);
    assert(record::text_or_none(piece.at("function"@).at("arguments"@)) == arguments);
    assert(Seq::<char>::empty() + name =~= name);
    assert(Seq::<char>::empty() + arguments =~= arguments);
    if p < calls.len() && calls[p].index == index {
        assert forall|i: int| 0 <= i < calls.len() && (#[trigger] calls[i]).index
            == index implies i == p by {}
    } else {
        assert forall|i: int| 0 <= i < calls.len() implies (#[trigger] calls[i]).index != index by {
            if i > p {
                assert(calls[p].index < calls[i].index);
            }
        }
        let made = CallView { index, name, arguments };
        assert(grown =~= calls.insert(p, made));
        assert(grown[p] == made);
        assert forall|i: int| 0 <= i < calls.len() implies grown.contains(#[trigger] calls[i]) by {
            if i < p {
                assert(grown[i] == calls[i]);
            } else {
                assert(grown[i + 1] == calls[i]);
            }
        }
    }
}

/// A route is forwarded to its own path on the upstream, and responses to the
/// path that is configured for them, where one is.
pub proof fn routes_go_to_their_paths(path: Option<Seq<char>>, given: Seq<char>)
    ensures
        proxy::upstream_path(Route::Models, path) == "/v1/models"@,
        proxy::upstream_path(Route::InputTokens, path) == "/v1/responses/input_tokens"@,
        proxy::upstream_path(Route::Generation(RecordedEndpoint::ChatCompletions), path)
            == "/v1/chat/completions"@,
        proxy::upstream_path(Route::Generation(RecordedEndpoint::Responses), None)
            == "/v1/responses"@,
        proxy::upstream_path(Route::Generation(RecordedEndpoint::Responses), Some(given)) == given,
{
}

/// Only generations that succeeded to their end are recorded, at either endpoint.
pub proof fn whole_successes_are_recorded(
    route: Route,
    endpoint: RecordedEndpoint,
    failed: bool,
    status: u16,
)
    ensures
        proxy::records(Route::Generation(endpoint), false, 200),
        proxy::records(route, failed, status) ==> route is Generation && !failed && status == 200,
{
}

/// A forwarded request carries the upstream's key as a bearer token, the type of
/// its body where it has one, the organization, project, account and originator
/// headers where the client sent them, and nothing else.
pub proof fn forwarded_headers_are_these(
    contents: Map<Seq<char>, Seq<Seq<u8>>>,
    key: Seq<char>,
    has_body: bool,
)
    ensures
        ({
            let pairs = proxy::upstream_pairs(contents, key, has_body);
            &&& pairs.contains(("authorization"@, encode_utf8("Bearer "@ + key)))
            &&& has_body ==> pairs.contains(("content-type"@, encode_utf8("application/json"@)))
            &&& contents.contains_key("openai-organization"@) ==> pairs.contains(
                ("openai-organization"@, contents["openai-organization"@][0]),
            )
            &&& contents.contains_key("openai-project"@) ==> pairs.contains(
                ("openai-project"@, contents["openai-project"@][0]),
            )
            &&& contents.contains_key("chatgpt-account-id"@) ==> pairs.contains(
                ("chatgpt-account-id"@, contents["chatgpt-account-id"@][0]),
            )
            &&& contents.contains_key("originator"@) ==> pairs.contains(
                ("originator"@, contents["originator"@][0]),
            )
            &&& forall|i: int|
                0 <= i < pairs.len() ==> {
                    ||| (#[trigger] pairs[i]).0 == "authorization"@
                    ||| has_body && pairs[i].0 == "content-type"@
                    ||| contents.contains_key(pairs[i].0) && (pairs[i].0 == "openai-organization"@
                        || pairs[i].0 == "openai-project"@ || pairs[i].0 == "chatgpt-account-id"@
                        || pairs[i].0 == "originator"@)
                }
        }),
{
    let pairs = proxy::upstream_pairs(contents, key, has_body);
    let names = proxy::forwarded_names();
    headers::lemma_passed_whole(contents, names);
    let passed = headers::passed_on(contents, names);
    let first = if has_body {
        2int
    } else {
        1
    };
    assert(pairs[0] == ("authorization"@, encode_utf8("Bearer "@ + key)));
    if has_body {
        assert(pairs[1] == ("content-type"@, encode_utf8("application/json"@)));
    }
    assert forall|j: int| 0 <= j < passed.len() implies #[trigger] passed[j] == pairs[j
        + first] by {}
    assert(names[0] == "openai-organization"@ && names[1] == "openai-project"@ && names[2]
        == "chatgpt-account-id"@ && names[3] == "originator"@);
    assert forall|i: int| 0 <= i < 4 && contents.contains_key(
        #[trigger] names[i],
    ) implies pairs.contains((names[i], contents[names[i]][0])) by {
        let j = passed.index_of((names[i], contents[names[i]][0]));
        assert(pairs[j + first] == passed[j]);
    }
    assert forall|i: int| 0 <= i < pairs.len() implies {
        ||| (#[trigger] pairs[i]).0 == "authorization"@
        ||| has_body && pairs[i].0 == "content-type"@
        ||| contents.contains_key(pairs[i].0) && (pairs[i].0 == "openai-organization"@
            || pairs[i].0 == "openai-project"@ || pairs[i].0 == "chatgpt-account-id"@ || pairs[i].0
            == "originator"@)
    } by {
        if i >= first {
            assert(pairs[i] == passed[i - first]);
            let k = names.index_of(passed[i - first].0);
            assert(k == 0 || k == 1 || k == 2 || k == 3);
        }
    }
}

/// A request is let in exactly where its authorization header, if it has one,
/// holds a token, and it has one where one is required. A refusal is a 401.
pub proof fn bearers_are_checked(
    contents: Map<Seq<char>, Seq<Seq<u8>>>,
    required: bool,
    e: ErrorOutcome,
)
    ensures
        contents.contains_key("authorization"@) ==> (auth::bearer_accepted(contents, required)
            <==> credentials::bearer_token(contents) is Some),
        !contents.contains_key("authorization"@) ==> (auth::bearer_accepted(contents, required)
            <==> !required),
        auth::refuses_bearer(e) ==> e.status == 401 && e.body.error.code@
            == "missing_bearer_token"@ && e.body.error.error_type@ == "invalid_request_error"@
            && e.body.error.message@ == "missing bearer token"@ && e.retry_after is None,
{
}

/// An error is answered with its status, its wait, and a document that gives its
/// words, its type, its parameter and its code.
pub proof fn errors_are_answered(e: ErrorOutcome)
    ensures
        ({
            let sent = e.reply();
            let error = e.body.document().at("error"@);
            &&& sent.status == e.status
            &&& sent.delay_ms == e.delay_before_headers_ms
            &&& sent.headers["content-type"@] == "application/json"@
            &&& e.retry_after matches Some(wait) ==> sent.headers.contains_key("retry-after"@)
                && sent.headers["retry-after"@] == wait@
            &&& e.retry_after is None ==> !sent.headers.contains_key("retry-after"@)
            &&& sent.body == BodyView::Whole(codec::json_text(e.body.document()))
            &&& error.at("message"@) == JsonView::Str(e.body.error.message@)
            &&& error.at("type"@) == JsonView::Str(e.body.error.error_type@)
            &&& error.at("param"@) == e.body.error.param@
            &&& error.at("code"@) == JsonView::Str(e.body.error.code@)
        }),
{
    reveal_strlit("type");
    reveal_strlit("code");
    reveal_strlit("param");
    reveal_strlit("message");
    reveal_strlit("retry-after");
    reveal_strlit("content-type");
    assert("type"@.len() == 4 && "type"@[0] == 't' && "code"@.len() == 4 && "code"@[0] == 'c');
    assert("param"@.len() == 5 && "message"@.len() == 7);
    assert("retry-after"@.len() == 11 && "content-type"@.len() == 12);
}

/// A completion is answered in the form that was asked for: chunks where it is
/// streamed, else its document, after its wait. A failure is answered as it was
/// scripted.
pub proof fn outcomes_are_answered(outcome: ExecutionOutcome, streamed: bool, include_usage: bool)
    ensures
        ({
            let sent = chat_completions::outcome_reply(outcome, streamed, include_usage);
            match outcome {
                ExecutionOutcome::Success(success) => {
                    &&& sent.status == 200
                    &&& sent.delay_ms == success.transport.delay_before_headers_ms
                    &&& streamed ==> sent.body is Chunks && sent.headers["content-type"@]
                        == "text/event-stream"@
                    &&& !streamed ==> sent.body == BodyView::Whole(
                        codec::json_text(success.plan.chat_document()),
                    ) && sent.headers["content-type"@] == "application/json"@
                },
                ExecutionOutcome::Error(e) => sent == e.reply(),
                ExecutionOutcome::Hang { delay_before_headers_ms } => sent.body == BodyView::Never
                    && sent.delay_ms == delay_before_headers_ms,
                ExecutionOutcome::Transcript(t) => 100 <= t.status <= 999 ==> sent.status
                    == t.status,
                ExecutionOutcome::Raw(raw) => sent == transport::raw_reply(raw),
            }
        }),
{
    reveal_strlit("content-type");
    reveal_strlit("cache-control");
    assert("content-type"@.len() == 12 && "cache-control"@.len() == 13);
}

/// The estimate is the least number of tokens that four bytes each suffice for,
/// and at least one.
pub proof fn estimate_is_four_bytes_each(bytes: nat)
    ensures
        bytes <= 4 * input_tokens::tokens_in(bytes),
        input_tokens::tokens_in(bytes) >= 1,
        input_tokens::tokens_in(bytes) > 1 ==> 4 * (input_tokens::tokens_in(bytes) - 1) < bytes,
{
}

/// The listed model is the one that clients may pick.
pub proof fn one_model_is_listed()
    ensures
        ({
            let list = model_catalog::model_list();
            let model = list.at("data"@).items()[0];
            &&& list.at("object"@) == JsonView::Str("list"@)
            &&& list.at("data"@).items().len() == 1
            &&& model.at("id"@) == JsonView::Str("gpt-test"@)
            &&& model.at("object"@) == JsonView::Str("model"@)
            &&& model.at("created"@).as_u64() == Some(0u64)
            &&& model.at("owned_by"@) == JsonView::Str("twin-openai"@)
            &&& model.get("shutdown_date"@) == Some(JsonView::Null)
        }),
{
    reveal_strlit("id");
    reveal_strlit("data");
    reveal_strlit("object");
    reveal_strlit("created");
    reveal_strlit("owned_by");
    reveal_strlit("shutdown_date");
    assert("id"@.len() == 2 && "data"@.len() == 4 && "object"@.len() == 6);
    assert("created"@.len() == 7);
    assert("owned_by"@.len() == 8 && "shutdown_date"@.len() == 13);
}

/// An exchange is recorded with the response's own status and content type, as a
/// stream where the response is one, and by the shape of its request.
pub proof fn exchanges_keep_the_response(
    sent: Forwarded,
    exchange: Exchange,
    format: RecordFormat,
    status: u16,
    response: Map<Seq<char>, Seq<Seq<u8>>>,
    shape: ExchangeShape,
    bytes: Seq<u8>,
)
    requires
        proxy::begun_as(exchange, sent, format, status, response),
        sent.shape == Some(shape),
    ensures
        ({
            let made = if format == RecordFormat::Transcript {
                proxy::transcript_script(
                    headers::responds_stream(response, shape.stream),
                    status,
                    headers::first_text(response, "content-type"@),
                    bytes,
                )
            } else {
                proxy::semantic_script(
                    shape,
                    headers::responds_stream(response, shape.stream),
                    bytes,
                )
            };
            match proxy::recorded_script(exchange, bytes) {
                Ok(script) => made == Ok::<JsonView, RecordError>(script),
                Err(why) => made matches Err(e) && why == Skipped::Underivable(e),
            }
        }),
{
}

/// What is learned from a response is what it shows, at its endpoint and in its
/// form.
pub proof fn responses_are_learned_from(shape: ExchangeShape, is_stream: bool, bytes: Seq<u8>)
    ensures
        ({
            let seen = if is_stream {
                match sse::sse_events(bytes) {
                    Some(events) => if shape.endpoint is Responses {
                        record::responses_stream_seen(shape.structured, events)
                    } else {
                        record::chat_stream_seen(shape.structured, events)
                    },
                    None => Err(RecordError::NotText),
                }
            } else {
                match codec::json_parse(bytes) {
                    Ok(body) => if shape.endpoint is Responses {
                        record::responses_seen(shape.structured, body)
                    } else {
                        record::chat_seen(shape.structured, body)
                    },
                    Err(_) => Err(RecordError::InvalidJson),
                }
            };
            match seen {
                Ok(o) => proxy::semantic_script(shape, is_stream, bytes) == Ok::<
                    JsonView,
                    RecordError,
                >(JsonView::Object(record::script_of(o))),
                Err(e) => proxy::semantic_script(shape, is_stream, bytes) == Err::<
                    JsonView,
                    RecordError,
                >(e),
            }
        }),
{
}

/// A stream of a response shows what its first completed response shows, and
/// nothing where none completes.
pub proof fn first_completed_response_counts(
    structured: bool,
    events: Seq<EventView>,
    at: int,
    data: JsonView,
)
    requires
        0 <= at < events.len(),
        events[at].event == Some("response.completed"@),
        forall|i: int|
            0 <= i < at ==> (#[trigger] events[i]).event != Some("response.completed"@),
        codec::json_parse(encode_utf8(events[at].data)) == Ok::<JsonView, Seq<char>>(data),
        data.get("response"@) is Some,
    ensures
        record::responses_stream_seen(structured, events) == record::responses_seen(
            structured,
            data.at("response"@),
        ),
    decreases at,
{
    if at > 0 {
        let rest = events.skip(1);
        assert(events[0].event != Some("response.completed"@));
        assert forall|i: int| 0 <= i < at - 1 implies (#[trigger] rest[i]).event != Some(
            "response.completed"@,
        ) by {
            assert(rest[i] == events[i + 1]);
        }
        first_completed_response_counts(structured, rest, at - 1, data);
    }
}

/// A stream in which no response completes is not recorded.
pub proof fn unfinished_streams_show_nothing(structured: bool, events: Seq<EventView>)
    requires
        forall|i: int|
            0 <= i < events.len() ==> (#[trigger] events[i]).event != Some("response.completed"@),
    ensures
        record::responses_stream_seen(structured, events) is Err,
    decreases events.len(),
{
    if events.len() > 0 {
        let rest = events.skip(1);
        assert(events[0].event != Some("response.completed"@));
        assert forall|i: int| 0 <= i < rest.len() implies (#[trigger] rest[i]).event != Some(
            "response.completed"@,
        ) by {
            assert(rest[i] == events[i + 1]);
        }
        unfinished_streams_show_nothing(structured, rest);
    }
}

/// A chat document shows the content and the calls of its first choice's
/// message.
pub proof fn chat_messages_are_seen(structured: bool, body: JsonView)
    ensures
        ({
            let choices = body.at("choices"@).items();
            let message = choices[0].at("message"@);
            let seen = record::chat_seen(structured, body);
            &&& choices.len() == 0 ==> seen is Err
            &&& choices.len() > 0 && choices[0].get("message"@) is None ==> seen is Err
            &&& choices.len() > 0 && choices[0].get("message"@) is Some && message.at(
                "tool_calls"@,
            ).items().len() == 0 ==> {
                &&& seen is Ok
                &&& seen->Ok_0.tool_calls.len() == 0
                &&& message.at("content"@) matches JsonView::Str(s) ==> s.len() > 0 && !structured
                    ==> seen->Ok_0.response_text == Some(s)
                &&& !(message.at("content"@) is Str) ==> seen->Ok_0.response_text is None
                    && seen->Ok_0.structured_output is None
            }
        }),
{
}

/// The calls of a chat message are seen in order, each by the name and the
/// arguments of its function.
pub proof fn chat_calls_are_seen_in_order(
    o: ObservationView,
    front: Seq<JsonView>,
    last: JsonView,
    before: ObservationView,
)
    requires
        record::chat_calls_seen(o, front) == Ok::<ObservationView, RecordError>(before),
        last.at("function"@).at("name"@) is Str,
        last.at("function"@).at("arguments"@) is Str,
    ensures
        record::chat_calls_seen(o, front.push(last)) matches Ok(seen) && seen.tool_calls
            == before.tool_calls.push(
            (
                last.at("function"@).text_at("name"@),
                record::parsed_arguments(last.at("function"@).text_at("arguments"@)),
            ),
        ) && seen.response_text == before.response_text,
        record::chat_calls_seen(o, Seq::empty()) == Ok::<ObservationView, RecordError>(o),
{
    assert(front.push(last).drop_last() =~= front);
}

/// A chat stream shows the content and the calls that its chunks add up to, and
/// its token counts. The end mark adds nothing.
pub proof fn chat_streams_are_seen(structured: bool, events: Seq<EventView>, last: EventView)
    ensures
        record::chat_after(Seq::empty()) == Ok::<ChatView, RecordError>(
            ChatView { content: Seq::empty(), calls: Seq::empty(), usage: None },
        ),
        last.data == "[DONE]"@ ==> record::chat_after(events.push(last)) == record::chat_after(
            events,
        ),
        last.data != "[DONE]"@ && record::chat_after(events) is Ok ==> (match codec::json_parse(
            encode_utf8(last.data),
        ) {
            Ok(chunk) => record::chat_after(events.push(last)) == Ok::<ChatView, RecordError>(
                record::chunk_seen(record::chat_after(events)->Ok_0, chunk),
            ),
            Err(_) => record::chat_after(events.push(last)) is Err,
        }),
        record::chat_after(events) matches Ok(chat) ==> {
            let seen = record::chat_stream_seen(structured, events);
            &&& seen is Ok
            &&& seen->Ok_0.usage == chat.usage
            &&& seen->Ok_0.tool_calls.len() == chat.calls.len()
            &&& forall|i: int|
                #![trigger chat.calls[i]]
                0 <= i < chat.calls.len() ==> seen->Ok_0.tool_calls[i] == (
                    chat.calls[i].name,
                    record::parsed_arguments(chat.calls[i].arguments),
                )
            &&& chat.content.len() == 0 ==> seen->Ok_0.response_text is None
            &&& chat.content.len() > 0 && !structured ==> seen->Ok_0.response_text == Some(
                chat.content,
            )
        },
{
    assert(events.push(last).drop_last() =~= events);
}

/// An upstream that cannot be reached is answered with what went wrong.
pub proof fn unreachable_upstream_is_told(error: Seq<char>)
    ensures
        ({
            let told = proxy::unreachable_document(error).at("error"@);
            &&& told.at("message"@) == JsonView::Str("failed to reach proxy upstream: "@ + error)
            &&& told.at("type"@) == JsonView::Str("twin_proxy_error"@)
            &&& told.at("code"@) == JsonView::Str("upstream_unreachable"@)
            &&& told.get("param"@) == Some(JsonView::Null)
        }),
{
    reveal_strlit("type");
    reveal_strlit("code");
    reveal_strlit("param");
    reveal_strlit("message");
    assert("type"@.len() == 4 && "type"@[0] == 't' && "code"@.len() == 4 && "code"@[0] == 'c');
    assert("param"@.len() == 5 && "message"@.len() == 7);
}

/// A forwarded request goes to the configured upstream, under the path of its
/// route, with the upstream's key.
pub proof fn requests_go_to_the_upstream(
    sent: Forwarded,
    config: Config,
    key: Seq<char>,
    route: Route,
    contents: Map<Seq<char>, Seq<Seq<u8>>>,
    has_body: bool,
    body: Seq<u8>,
)
    requires
        proxy::forwarded_as(sent, config, key, route, contents, has_body, body),
    ensures
        route is Models ==> sent.target@ == config.upstream_url@ + "/v1/models"@,
        route is InputTokens ==> sent.target@ == config.upstream_url@
            + "/v1/responses/input_tokens"@,
        route == Route::Generation(RecordedEndpoint::ChatCompletions) ==> sent.target@
            == config.upstream_url@ + "/v1/chat/completions"@,
        route == Route::Generation(RecordedEndpoint::Responses) && config.upstream_responses_path
            is None ==> sent.target@ == config.upstream_url@ + "/v1/responses"@,
        exists|i: int|
            0 <= i < sent.headers@.len() && (#[trigger] sent.headers@[i]).0@ == "authorization"@
                && sent.headers@[i].1@ == encode_utf8("Bearer "@ + key),
        !(route is Generation) ==> sent.shape is None,
{
    let pairs = headers::pairs_view(sent.headers@);
    assert(pairs[0] == ("authorization"@, encode_utf8("Bearer "@ + key)));
    assert(pairs.len() > 0 && pairs.len() == sent.headers@.len());
    assert(sent.headers@[0].0@ == pairs[0].0 && sent.headers@[0].1@ == pairs[0].1);
}

} // verus!
