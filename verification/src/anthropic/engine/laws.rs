//! What matching a request and planning an answer promise.

use vstd::prelude::*;

use crate::anthropic::engine::plan;
use crate::anthropic::engine::plan::ResponsePlan;
use crate::anthropic::engine::scenario;
use crate::anthropic::engine::scenario::{
    ContextView, Scenario, ScenarioMatcher, ScenarioScript, SuccessScript,
};
use crate::anthropic::models;
use crate::anthropic::models::MessagesRequest;
use crate::json::JsonView;
use crate::{codec, headers, json, text};

verus! {

/// A matcher accepts only requests to its endpoint.
pub proof fn endpoint_is_matched(matcher: ScenarioMatcher, request: ContextView)
    requires
        matcher.accepts(request),
    ensures
        matcher.endpoint@ == request.endpoint,
{
}

/// A matcher that names nothing but its endpoint accepts every request to it.
pub proof fn endpoint_alone_accepts(matcher: ScenarioMatcher, request: ContextView)
    requires
        matcher.model is None,
        matcher.stream is None,
        matcher.input_contains is None,
        matcher.instructions_contains is None,
        matcher.request_hash is None,
        matcher.metadata@ == Map::<Seq<char>, JsonView>::empty(),
        matcher.endpoint@ == request.endpoint,
    ensures
        matcher.accepts(request),
{
}

/// A matcher that names a model accepts the requests for that model that it
/// would accept if it named none.
pub proof fn model_is_matched(matcher: ScenarioMatcher, request: ContextView)
    requires
        matcher.model is Some,
    ensures
        matcher.accepts(request) ==> request.model == matcher.model->0@,
        matcher.accepts(request) <==> (ScenarioMatcher { model: None, ..matcher }).accepts(request)
            && request.model == matcher.model->0@,
{
}

/// A matcher that asks for a stream, or for none, accepts the requests that ask
/// for the same and that it would accept if it left that open.
pub proof fn stream_is_matched(matcher: ScenarioMatcher, request: ContextView)
    requires
        matcher.stream is Some,
    ensures
        matcher.accepts(request) ==> request.stream == matcher.stream->0,
        matcher.accepts(request) <==> (ScenarioMatcher { stream: None, ..matcher }).accepts(request)
            && request.stream == matcher.stream->0,
{
}

/// A matcher that names a request hash accepts the requests with that hash that
/// it would accept if it named none. A request without a hash is not accepted.
pub proof fn hash_is_matched(matcher: ScenarioMatcher, request: ContextView)
    requires
        matcher.request_hash is Some,
    ensures
        matcher.accepts(request) ==> request.request_hash == Some(matcher.request_hash->0@),
        matcher.accepts(request) <==> (ScenarioMatcher { request_hash: None, ..matcher }).accepts(
            request,
        ) && request.request_hash == Some(matcher.request_hash->0@),
{
}

/// A matcher that names a piece of the input accepts the requests whose input
/// holds that piece somewhere and that it would accept if it named none.
pub proof fn input_is_matched(matcher: ScenarioMatcher, request: ContextView)
    requires
        matcher.input_contains is Some,
    ensures
        matcher.accepts(request) <==> (ScenarioMatcher { input_contains: None, ..matcher }).accepts(
            request,
        ) && exists|before: Seq<char>, after: Seq<char>|
            request.input_text == #[trigger] (before + matcher.input_contains->0@ + after),
{
    split_at_occurrence(request.input_text, matcher.input_contains->0@);
}

/// A matcher that names a piece of the instructions accepts the requests whose
/// instructions hold that piece somewhere and that it would accept if it named
/// none.
pub proof fn instructions_are_matched(matcher: ScenarioMatcher, request: ContextView)
    requires
        matcher.instructions_contains is Some,
    ensures
        matcher.accepts(request) <==> (ScenarioMatcher {
            instructions_contains: None,
            ..matcher
        }).accepts(request) && exists|before: Seq<char>, after: Seq<char>|
            request.instructions_text == #[trigger] (before + matcher.instructions_contains->0@
                + after),
{
    split_at_occurrence(request.instructions_text, matcher.instructions_contains->0@);
}

/// A text holds a piece exactly where it is something, the piece, and something.
pub proof fn split_at_occurrence(hay: Seq<char>, needle: Seq<char>)
    ensures
        text::occurs(hay, needle) <==> exists|before: Seq<char>, after: Seq<char>|
            hay == #[trigger] (before + needle + after),
{
    if text::occurs(hay, needle) {
        let i = choose|i: int|
            0 <= i <= hay.len() - needle.len() && #[trigger] hay.subrange(i, i + needle.len())
                == needle;
        let before = hay.take(i);
        let after = hay.skip(i + needle.len());
        assert(hay =~= before + hay.subrange(i, i + needle.len()) + after);
        assert(hay == before + needle + after);
    }
    if exists|before: Seq<char>, after: Seq<char>| hay == #[trigger] (before + needle + after) {
        let (before, after) = choose|before: Seq<char>, after: Seq<char>|
            hay == #[trigger] (before + needle + after);
        let i = before.len() as int;
        assert(hay.subrange(i, i + needle.len()) =~= needle);
    }
}

/// A matcher that names metadata accepts a request exactly where the request has
/// every member named, with an equal value, and a matcher that agrees with it in
/// all else and names no metadata accepts the request.
pub proof fn metadata_is_matched(
    matcher: ScenarioMatcher,
    plain: ScenarioMatcher,
    request: ContextView,
)
    requires
        plain.metadata@ == Map::<Seq<char>, JsonView>::empty(),
        plain == (ScenarioMatcher { metadata: plain.metadata, ..matcher }),
    ensures
        matcher.accepts(request) <==> plain.accepts(request) && forall|k: Seq<char>| #[trigger]
            matcher.metadata@.contains_key(k) ==> request.metadata.contains_key(k)
                && json::values_equal(request.metadata[k], matcher.metadata@[k]),
{
}

/// What a matcher asks for beyond the members of the metadata that it names does
/// not hang on the request's other metadata.
pub proof fn other_metadata_is_ignored(
    matcher: ScenarioMatcher,
    request: ContextView,
    k: Seq<char>,
    v: JsonView,
)
    requires
        !matcher.metadata@.contains_key(k),
    ensures
        matcher.accepts(request) <==> matcher.accepts(
            ContextView { metadata: request.metadata.insert(k, v), ..request },
        ),
{
}

/// The members of blocks, told apart.
proof fn block_members_differ()
    ensures
        "id"@.len() == 2,
        "type"@.len() == 4 && "type"@[1] == 'y',
        "name"@.len() == 4 && "name"@[1] == 'a',
        "text"@.len() == 4 && "text"@[1] == 'e',
        "input"@.len() == 5,
        "thinking"@.len() == 8 && "thinking"@[1] == 'h',
        "tool_use"@.len() == 8 && "tool_use"@[1] == 'o',
        "signature"@.len() == 9,
{
    reveal_strlit("id");
    reveal_strlit("type");
    reveal_strlit("name");
    reveal_strlit("text");
    reveal_strlit("input");
    reveal_strlit("thinking");
    reveal_strlit("tool_use");
    reveal_strlit("signature");
}

/// Without native content, a message ends with the scripted tool calls, in
/// order: the block of each gives the call's name and its arguments as input,
/// and the call's id where the script has one, else one made of the response's
/// number and the call's place. No other block is a tool call.
pub proof fn scripted_calls_are_planned(
    number: u64,
    request: MessagesRequest,
    script: SuccessScript,
)
    requires
        script.content is None,
    ensures
        ({
            let blocks = plan::planned_blocks(number, request, script);
            let calls = script.tool_calls@;
            let first = blocks.len() - calls.len();
            &&& first >= 0
            &&& forall|i: int|
                #![trigger calls[i]]
                0 <= i < calls.len() ==> {
                    &&& blocks[first + i].at("type"@) == JsonView::Str("tool_use"@)
                    &&& blocks[first + i].at("name"@) == JsonView::Str(calls[i].name@)
                    &&& blocks[first + i].at("input"@) == calls[i].arguments@
                    &&& calls[i].id matches Some(id) ==> blocks[first + i].at("id"@)
                        == JsonView::Str(id@)
                    &&& calls[i].id is None ==> blocks[first + i].at("id"@) == JsonView::Str(
                        "toolu_"@ + text::decimal(number as nat) + "_"@ + text::decimal(i as nat),
                    )
                }
            &&& forall|j: int|
                0 <= j < first ==> (#[trigger] blocks[j]).at("type"@) != JsonView::Str(
                    "tool_use"@,
                )
        }),
{
    block_members_differ();
    let blocks = plan::planned_blocks(number, request, script);
    let calls = script.tool_calls@;
    let leading = plan::leading_blocks(number, request, script);
    assert(blocks.len() - calls.len() == leading.len());
    assert forall|i: int| #![trigger calls[i]] 0 <= i < calls.len() implies blocks[leading.len()
        + i] == plan::tool_block(number, i, calls[i]) by {}
    assert forall|j: int| 0 <= j < leading.len() implies (#[trigger] blocks[j]).at("type"@)
        != JsonView::Str("tool_use"@) by {
        assert(blocks[j] == leading[j]);
    }
}

/// Without native content, a message opens with its thoughts, one block each:
/// those of the script, else an echo of the user where thinking is on, else
/// none. What follows up to the tool calls is at most one block.
pub proof fn thoughts_are_planned(number: u64, request: MessagesRequest, script: SuccessScript)
    requires
        script.content is None,
    ensures
        ({
            let blocks = plan::planned_blocks(number, request, script);
            let first = blocks.len() - script.tool_calls@.len();
            let kind = request.thinking@.at("type"@);
            &&& script.reasoning matches Some(thoughts) ==> {
                &&& thoughts@.len() <= first <= thoughts@.len() + 1
                &&& forall|i: int|
                    #![trigger thoughts@[i]]
                    0 <= i < thoughts@.len() ==> {
                        &&& blocks[i].at("type"@) == JsonView::Str("thinking"@)
                        &&& blocks[i].at("thinking"@) == JsonView::Str(thoughts@[i]@)
                        &&& blocks[i].at("signature"@) == JsonView::Str(
                            "twin-signature-"@ + text::decimal(number as nat) + "-"@
                                + text::decimal(i as nat),
                        )
                    }
            }
            &&& script.reasoning is None && (kind == JsonView::Str("enabled"@) || kind
                == JsonView::Str("adaptive"@)) ==> {
                &&& 1 <= first <= 2
                &&& blocks[0].at("type"@) == JsonView::Str("thinking"@)
                &&& blocks[0].at("thinking"@) == JsonView::Str(
                    "reasoning: "@ + request.user_text(),
                )
                &&& blocks[0].at("signature"@) == JsonView::Str(
                    "twin-signature-"@ + text::decimal(number as nat) + "-"@ + text::decimal(0),
                )
            }
            &&& script.reasoning is None && kind != JsonView::Str("enabled"@) && kind
                != JsonView::Str("adaptive"@) ==> first <= 1
        }),
{
    block_members_differ();
    let blocks = plan::planned_blocks(number, request, script);
    let leading = plan::leading_blocks(number, request, script);
    let shown = plan::shown_thoughts(request, script);
    assert(leading.len() == blocks.len() - script.tool_calls@.len());
    assert forall|i: int| 0 <= i < shown.len() implies #[trigger] blocks[i]
        == plan::thinking_block(number, i, shown[i]) by {
        assert(blocks[i] == leading[i]);
    }
    if script.reasoning is Some {
        let thoughts = script.reasoning->0@;
        assert forall|i: int| #![trigger thoughts[i]] 0 <= i < thoughts.len() implies blocks[i]
            == plan::thinking_block(number, i, thoughts[i]@) by {
            assert(shown[i] == thoughts[i]@);
        }
    } else if request.thinks() {
        assert(blocks[0] == plan::thinking_block(number, 0, shown[0]));
    }
}

/// Without native content, a message says one thing in front of its tool calls:
/// the scripted structured value as JSON text; else a value for the schema that
/// the request asks for; else the scripted text; else, where the script calls no
/// tools, an echo of the user. A script that only calls tools says nothing.
pub proof fn one_text_is_planned(number: u64, request: MessagesRequest, script: SuccessScript)
    requires
        script.content is None,
    ensures
        ({
            let blocks = plan::planned_blocks(number, request, script);
            let last = blocks.len() - script.tool_calls@.len() - 1;
            let schema = request.output_config@.at("format"@).get("schema"@);
            &&& script.structured_output matches Some(v) ==> {
                &&& last >= 0
                &&& blocks[last].at("type"@) == JsonView::Str("text"@)
                &&& blocks[last].at("text"@) == JsonView::Str(codec::json_text(v@))
            }
            &&& script.structured_output is None && schema is Some ==> {
                &&& last >= 0
                &&& blocks[last].at("type"@) == JsonView::Str("text"@)
                &&& script.response_text matches Some(t) ==> blocks[last].at("text"@)
                    == JsonView::Str(codec::json_text(models::generated(schema->0, t@)))
                &&& script.response_text is None ==> blocks[last].at("text"@) == JsonView::Str(
                    codec::json_text(
                        models::generated(schema->0, "deterministic: "@ + request.user_text()),
                    ),
                )
            }
            &&& script.structured_output is None && schema is None ==> {
                &&& script.response_text matches Some(t) ==> {
                    &&& last >= 0
                    &&& blocks[last].at("type"@) == JsonView::Str("text"@)
                    &&& blocks[last].at("text"@) == JsonView::Str(t@)
                }
                &&& script.response_text is None && script.tool_calls@.len() == 0 ==> {
                    &&& last >= 0
                    &&& blocks[last].at("type"@) == JsonView::Str("text"@)
                    &&& blocks[last].at("text"@) == JsonView::Str(
                        "deterministic: "@ + request.user_text(),
                    )
                }
                &&& script.response_text is None && script.tool_calls@.len() > 0 ==> forall|j: int|
                    0 <= j <= last ==> (#[trigger] blocks[j]).at("type"@) == JsonView::Str(
                        "thinking"@,
                    )
            }
            &&& forall|j: int|
                0 <= j < last ==> (#[trigger] blocks[j]).at("type"@) == JsonView::Str("thinking"@)
        }),
{
    block_members_differ();
    let blocks = plan::planned_blocks(number, request, script);
    let leading = plan::leading_blocks(number, request, script);
    assert(leading.len() == blocks.len() - script.tool_calls@.len());
    assert forall|j: int| 0 <= j < leading.len() implies #[trigger] blocks[j] == leading[j] by {}
}

/// Native content is the whole content, block for block.
pub proof fn native_content_is_planned(
    number: u64,
    request: MessagesRequest,
    script: SuccessScript,
)
    requires
        script.content is Some,
    ensures
        plan::planned_blocks(number, request, script).len() == script.content->0@.len(),
        forall|i: int|
            0 <= i < script.content->0@.len() ==> #[trigger] plan::planned_blocks(
                number,
                request,
                script,
            )[i] == script.content->0@[i]@,
{
}

/// A plan is refused exactly where it goes against the request's tool choice: it
/// calls a tool though none may be called, calls none though one must be, or
/// calls none or another where one is named. Without such a choice none is
/// refused.
pub proof fn tool_choice_decides(blocks: Seq<JsonView>, choice: JsonView)
    ensures
        ({
            let accepted = plan::choice_refusal(blocks, choice) is None;
            let kind = choice.at("type"@);
            let some = exists|i: int|
                0 <= i < blocks.len() && (#[trigger] blocks[i]).at("type"@) == JsonView::Str(
                    "tool_use"@,
                );
            let named = forall|i: int|
                0 <= i < blocks.len() && (#[trigger] blocks[i]).at("type"@) == JsonView::Str(
                    "tool_use"@,
                ) ==> json::values_equal(blocks[i].at("name"@), choice.at("name"@));
            &&& kind == JsonView::Str("none"@) ==> (accepted <==> !some)
            &&& kind == JsonView::Str("any"@) ==> (accepted <==> some)
            &&& kind == JsonView::Str("tool"@) ==> (accepted <==> some && named)
            &&& kind != JsonView::Str("none"@) && kind != JsonView::Str("any"@) && kind
                != JsonView::Str("tool"@) ==> accepted
        }),
        plan::choice_refusal(blocks, choice) matches Some(e) ==> e.status == 400 && e.error_type
            == "invalid_request_error"@ && "tool_choice: "@.is_prefix_of(e.message),
{
    reveal_strlit("none");
    reveal_strlit("any");
    reveal_strlit("tool");
    assert("none"@.len() == 4 && "any"@.len() == 3 && "tool"@.len() == 4 && "none"@[0] == 'n'
        && "tool"@[0] == 't');
    reveal_strlit("tool_choice: ");
    reveal_strlit("tool_choice");
    reveal_strlit(": ");
    assert("tool_choice"@ + ": "@ =~= "tool_choice: "@);
    if plan::choice_refusal(blocks, choice) is Some {
        let m = plan::choice_refusal(blocks, choice)->0.message;
        assert(m.take("tool_choice: "@.len() as int) =~= "tool_choice: "@);
    }
}

/// A plan's message tells the response's number, the request's model, the
/// planned content, and how the response stopped.
pub proof fn message_tells_the_plan(
    made: ResponsePlan,
    number: u64,
    request: MessagesRequest,
    script: SuccessScript,
)
    requires
        plan::is_plan(made, number, request, script),
    ensures
        ({
            let message = JsonView::Object(made.message());
            let blocks = plan::planned_blocks(number, request, script);
            let calls = exists|i: int|
                0 <= i < blocks.len() && (#[trigger] blocks[i]).at("type"@) == JsonView::Str(
                    "tool_use"@,
                );
            let natural = if calls {
                JsonView::Str("tool_use"@)
            } else {
                JsonView::Str("end_turn"@)
            };
            &&& message.at("type"@) == JsonView::Str("message"@)
            &&& message.at("role"@) == JsonView::Str("assistant"@)
            &&& message.at("id"@) == JsonView::Str("msg_"@ + text::zero_padded(number as nat, 6))
            &&& message.at("model"@) == JsonView::Str(request.model@)
            &&& message.at("content"@) == JsonView::Array(blocks)
            &&& script.stop_reason matches Some(reason) ==> message.at("stop_reason"@)
                == JsonView::Str(reason@)
            &&& script.stop_reason is None ==> (match script.finish_reason {
                None => message.at("stop_reason"@) == natural,
                Some(reason) => {
                    &&& reason@ == "stop"@ ==> message.at("stop_reason"@) == natural
                    &&& reason@ == "length"@ ==> message.at("stop_reason"@) == JsonView::Str(
                        "max_tokens"@,
                    )
                    &&& reason@ != "stop"@ && reason@ != "length"@ ==> message.at("stop_reason"@)
                        == JsonView::Str(reason@)
                },
            })
            &&& script.stop_sequence matches Some(s) ==> message.at("stop_sequence"@)
                == JsonView::Str(s@)
            &&& script.stop_sequence is None ==> message.get("stop_sequence"@) == Some(
                JsonView::Null,
            )
            &&& script.stop_details matches Some(d) ==> message.get("stop_details"@) == Some(d@)
            &&& script.stop_details is None ==> message.get("stop_details"@) is None
        }),
{
    message_members_differ();
}

/// A plan's message reports the scripted token counts, each under its own name,
/// with whatever else the script reports; without scripted counts, one token in
/// and five out.
pub proof fn message_tells_the_usage(
    made: ResponsePlan,
    number: u64,
    request: MessagesRequest,
    script: SuccessScript,
)
    requires
        plan::is_plan(made, number, request, script),
    ensures
        ({
            let usage = JsonView::Object(made.message()).at("usage"@);
            &&& script.usage matches Some(u) ==> {
                &&& !u.extra@.contains_key("input_tokens"@) ==> usage.at("input_tokens"@)
                    == json::int_view(u.input_tokens)
                &&& !u.extra@.contains_key("output_tokens"@) ==> usage.at("output_tokens"@)
                    == json::int_view(u.output_tokens)
                &&& !u.extra@.contains_key("cache_creation_input_tokens"@) ==> usage.at(
                    "cache_creation_input_tokens"@,
                ) == json::int_view(u.cache_creation_input_tokens)
                &&& !u.extra@.contains_key("cache_read_input_tokens"@) ==> usage.at(
                    "cache_read_input_tokens"@,
                ) == json::int_view(u.cache_read_input_tokens)
                &&& forall|k: Seq<char>| #[trigger]
                    u.extra@.contains_key(k) ==> usage.at(k) == u.extra@[k]
            }
            &&& script.usage is None ==> {
                &&& usage.at("input_tokens"@).as_u64() == Some(1u64)
                &&& usage.at("output_tokens"@).as_u64() == Some(5u64)
                &&& usage.at("cache_creation_input_tokens"@).as_u64() == Some(0u64)
                &&& usage.at("cache_read_input_tokens"@).as_u64() == Some(0u64)
            }
        }),
{
    message_members_differ();
    reveal_strlit("input_tokens");
    reveal_strlit("output_tokens");
    reveal_strlit("cache_creation_input_tokens");
    reveal_strlit("cache_read_input_tokens");
    assert("input_tokens"@.len() == 12 && "output_tokens"@.len() == 13);
    assert("cache_creation_input_tokens"@.len() == 27 && "cache_read_input_tokens"@.len() == 23);
}

/// The members of a message, told apart.
proof fn message_members_differ()
    ensures
        "id"@.len() == 2,
        "type"@.len() == 4 && "type"@[0] == 't',
        "role"@.len() == 4 && "role"@[0] == 'r',
        "model"@.len() == 5 && "model"@[0] == 'm',
        "usage"@.len() == 5 && "usage"@[0] == 'u',
        "content"@.len() == 7,
        "stop_reason"@.len() == 11,
        "stop_details"@.len() == 12,
        "stop_sequence"@.len() == 13,
        "stop"@.len() == 4,
        "length"@.len() == 6,
{
    reveal_strlit("id");
    reveal_strlit("type");
    reveal_strlit("role");
    reveal_strlit("model");
    reveal_strlit("usage");
    reveal_strlit("content");
    reveal_strlit("stop_reason");
    reveal_strlit("stop_details");
    reveal_strlit("stop_sequence");
    reveal_strlit("stop");
    reveal_strlit("length");
}

/// A tool call streams its raw arguments where the script gives it some, and no
/// other block has raw arguments.
pub proof fn raw_arguments_go_with_their_calls(
    made: ResponsePlan,
    number: u64,
    request: MessagesRequest,
    script: SuccessScript,
)
    requires
        plan::is_plan(made, number, request, script),
    ensures
        script.content is Some ==> forall|at: int| #[trigger]
            plan::raw_at(made.raw_arguments@, at) is None,
        ({
            let first = made.content@.len() - script.tool_calls@.len();
            script.content is None ==> {
                &&& forall|i: int|
                    #![trigger script.tool_calls@[i]]
                    0 <= i < script.tool_calls@.len() ==> plan::raw_at(
                        made.raw_arguments@,
                        first + i,
                    ) == text::opt_text(script.tool_calls@[i].raw_arguments)
                &&& forall|at: int|
                    at < first ==> #[trigger] plan::raw_at(made.raw_arguments@, at) is None
            }
        }),
{
    assert(made.blocks().len() == made.content@.len());
    if script.content is None {
        let first = plan::leading_blocks(number, request, script).len();
        assert(made.content@.len() - script.tool_calls@.len() == first);
        assert forall|i: int|
            #![trigger script.tool_calls@[i]]
            0 <= i < script.tool_calls@.len() implies plan::raw_at(made.raw_arguments@, first + i)
            == text::opt_text(script.tool_calls@[i].raw_arguments) by {
            assert(plan::planned_raw(number, request, script, first + i) == text::opt_text(
                script.tool_calls@[i].raw_arguments,
            ));
        }
    }
}

/// Whether a scripted status line and headers can be sent: a final status, and
/// headers with valid names and values.
pub open spec fn sendable(
    status: u16,
    response: Map<Seq<char>, Seq<char>>,
    content_type: Option<String>,
) -> bool {
    &&& 200 <= status <= 999
    &&& forall|k: Seq<char>| #[trigger]
        response.contains_key(k) ==> headers::valid_name(k) && headers::valid_value(response[k])
    &&& content_type matches Some(s) ==> headers::valid_value(s@)
}

/// A script is accepted exactly where it can be sent. A success has a stop reason
/// that a message may have, an error a valid wait to tell, a transcript one body;
/// a hang sends nothing and is always accepted.
pub proof fn scripts_are_checked(script: ScenarioScript)
    ensures
        ({
            let ok = scenario::script_error(script) is None;
            match script {
                ScenarioScript::Success(s) => {
                    let reason = if s.stop_reason is Some {
                        s.stop_reason
                    } else {
                        s.finish_reason
                    };
                    ok <==> sendable(200, s.headers@, None) && (reason matches Some(r) ==> {
                        ||| r@ == "end_turn"@
                        ||| r@ == "max_tokens"@
                        ||| r@ == "stop_sequence"@
                        ||| r@ == "tool_use"@
                        ||| r@ == "pause_turn"@
                        ||| r@ == "refusal"@
                        ||| r@ == "model_context_window_exceeded"@
                        ||| r@ == "length"@
                        ||| r@ == "stop"@
                    })
                },
                ScenarioScript::Error { status, headers, retry_after, .. } => ok <==> sendable(
                    status,
                    headers@,
                    retry_after,
                ),
                ScenarioScript::Raw { status, headers, content_type, .. } => ok <==> sendable(
                    status,
                    headers@,
                    content_type,
                ),
                ScenarioScript::Transcript {
                    status,
                    headers,
                    content_type,
                    body,
                    body_text,
                    events,
                } => ok <==> sendable(status, headers@, content_type) && ((body is Some && body_text
                    is None && events is None) || (body is None && body_text is Some && events
                    is None) || (body is None && body_text is None && events is Some)),
                ScenarioScript::Hang { .. } => ok,
            }
        }),
{
}

/// A scenario that stands behind others is accepted exactly where its id, if it
/// has one, is not blank and not taken, it answers at least once, its endpoint is
/// known, and its script is accepted.
pub proof fn scenarios_are_checked(before: Seq<Scenario>, s: Scenario)
    ensures
        scenario::scenario_error(before, s) is None <==> {
            &&& s.scenario_id matches Some(id) ==> {
                &&& exists|i: int| 0 <= i < id@.len() && !text::white_space(#[trigger] id@[i])
                &&& forall|i: int|
                    0 <= i < before.len() ==> ((#[trigger] before[i]).scenario_id matches Some(other)
                        ==> other@ != id@)
            }
            &&& s.repeat >= 1
            &&& s.matcher.endpoint@ == "messages"@ || s.matcher.endpoint@
                == "messages.count_tokens"@
            &&& scenario::script_error(*s.script) is None
        },
        s.scenario_id matches Some(id) && !text::blank(id@) && (exists|i: int|
            0 <= i < before.len() && text::opt_text((#[trigger] before[i]).scenario_id) == Some(
                id@,
            )) ==> scenario::scenario_error(before, s) == Some(
            "duplicate scenario_id: "@ + s.scenario_id->0@,
        ),
{
    if s.scenario_id is Some {
        let id = s.scenario_id->0@;
        if !text::blank(id) {
            let i = choose|i: int| 0 <= i < id.len() && !text::white_space(#[trigger] id[i]);
            assert(0 <= i < id.len() && !text::white_space(s.scenario_id->0@[i]));
        }
        if scenario::id_taken(before, id) {
            let i = choose|i: int|
                0 <= i < before.len() && text::opt_text((#[trigger] before[i]).scenario_id) == Some(
                    id,
                );
            assert(before[i].scenario_id->0@ == id);
        }
        assert forall|i: int|
            0 <= i < before.len() && (#[trigger] before[i]).scenario_id is Some
                && before[i].scenario_id->0@ == id implies scenario::id_taken(before, id) by {
            assert(text::opt_text(before[i].scenario_id) == Some(id));
        }
    }
}

/// A queue is accepted exactly where every scenario is, behind those in front of
/// it; otherwise the first fault is reported.
pub proof fn first_fault_is_reported(queue: Seq<Scenario>, s: Scenario)
    ensures
        scenario::queue_error(Seq::empty()) is None,
        scenario::queue_error(queue) is Some ==> scenario::queue_error(queue.push(s))
            == scenario::queue_error(queue),
        scenario::queue_error(queue) is None ==> scenario::queue_error(queue.push(s))
            == scenario::scenario_error(queue, s),
{
    assert(queue.push(s).drop_last() =~= queue);
}

/// Every kind of script goes by its own name.
pub proof fn script_kinds_are_named(script: ScenarioScript)
    ensures
        script is Success <==> script.kind() == "success"@,
        script is Error <==> script.kind() == "error"@,
        script is Hang <==> script.kind() == "hang"@,
        script is Transcript <==> script.kind() == "transcript"@,
        script is Raw <==> script.kind() == "raw"@,
{
    reveal_strlit("success");
    reveal_strlit("error");
    reveal_strlit("hang");
    reveal_strlit("transcript");
    reveal_strlit("raw");
    assert("success"@.len() == 7 && "error"@.len() == 5 && "hang"@.len() == 4 && "transcript"@.len()
        == 10 && "raw"@.len() == 3);
}

/// What is wrong with a script is said in words: its status, a header, its
/// content type, the wait that it tells, its stop reason, its bodies.
pub proof fn script_faults_are_named(
    script: ScenarioScript,
    status: u16,
    response: Map<Seq<char>, Seq<char>>,
    content_type: Option<Seq<char>>,
)
    ensures
        !(200 <= status <= 999) ==> scenario::response_error(status, response, content_type)
            == Some("invalid final response status"@),
        200 <= status <= 999 && (exists|k: Seq<char>| #[trigger]
            response.contains_key(k) && !(headers::valid_name(k) && headers::valid_value(
                response[k],
            ))) ==> scenario::response_error(status, response, content_type) == Some(
            "invalid response header"@,
        ),
        200 <= status <= 999 && response.dom().is_empty() ==> (content_type matches Some(s)
            ==> !headers::valid_value(s) ==> scenario::response_error(
            status,
            response,
            content_type,
        ) == Some("invalid content type"@)),
        match script {
            ScenarioScript::Success(s) => s.stop_reason matches Some(r) ==> !scenario::known_stop(
                r@,
            ) ==> scenario::script_error(script) == Some("unsupported stop reason: "@ + r@),
            ScenarioScript::Error { retry_after, .. } => retry_after matches Some(wait)
                ==> !headers::valid_value(wait@) ==> scenario::script_error(script) == Some(
                "invalid Retry-After header"@,
            ),
            ScenarioScript::Transcript { body, body_text, events, .. } => body is None
                && body_text is None && events is None ==> scenario::script_error(script) == Some(
                "transcript requires exactly one of body, body_text, events"@,
            ),
            _ => true,
        },
{
    if response.dom().is_empty() {
        assert forall|k: Seq<char>| #[trigger] response.contains_key(k) implies false by {
            assert(response.dom().contains(k));
        }
    }
}

/// What is wrong with a scenario is said in words: its id, how often it answers,
/// its endpoint.
pub proof fn scenario_faults_are_named(before: Seq<Scenario>, s: Scenario)
    ensures
        s.scenario_id matches Some(id) ==> text::blank(id@) ==> scenario::scenario_error(before, s)
            == Some("scenario_id must not be empty"@),
        s.scenario_id is None && s.repeat == 0 ==> scenario::scenario_error(before, s) == Some(
            "repeat must be positive"@,
        ),
        s.scenario_id is None && s.repeat > 0 && s.matcher.endpoint@ != "messages"@
            && s.matcher.endpoint@ != "messages.count_tokens"@ ==> scenario::scenario_error(
            before,
            s,
        ) == Some("endpoint must be messages or messages.count_tokens"@),
        s.scenario_id is None && s.repeat > 0 && s.matcher.endpoint@ == "messages"@
            ==> scenario::scenario_error(before, s) == scenario::script_error(*s.script),
{
}

} // verus!
