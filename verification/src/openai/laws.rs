//! What the forms of a response promise.

use vstd::prelude::*;

use crate::headers;
use crate::json::JsonView;
use crate::openai::failures::{TranscriptBody, TranscriptOutcome, TransportOptions};
use crate::openai::names;
use crate::openai::plan;
use crate::openai::plan::{ResponsePlan, ToolCallPlan};
use crate::openai::sse;
use crate::reply::{BodyView, ContentView};
use crate::{codec, json, text};

verus! {

/// Whether an event has the given type.
pub open spec fn has_type(event: JsonView, name: Seq<char>) -> bool {
    event.at("type"@) == JsonView::Str(name)
}

/// Whether an event is about the output item at a place.
pub open spec fn is_about(event: JsonView, index: int) -> bool {
    event.at("output_index"@).as_u64() == Some(index as u64)
}

/// What the events of a type add up to: their deltas in order, one behind the
/// other.
pub open spec fn streamed(data: Seq<JsonView>, name: Seq<char>) -> Seq<char>
    decreases data.len(),
{
    if data.len() == 0 {
        Seq::empty()
    } else if has_type(data.last(), name) {
        streamed(data.drop_last(), name) + data.last().text_at("delta"@)
    } else {
        streamed(data.drop_last(), name)
    }
}

/// What the events of a type about one output item add up to.
pub open spec fn streamed_about(data: Seq<JsonView>, name: Seq<char>, index: int) -> Seq<char>
    decreases data.len(),
{
    if data.len() == 0 {
        Seq::empty()
    } else if has_type(data.last(), name) && is_about(data.last(), index) {
        streamed_about(data.drop_last(), name, index) + data.last().text_at("delta"@)
    } else {
        streamed_about(data.drop_last(), name, index)
    }
}

/// The text of an answer: structured output as JSON text, else the text.
pub open spec fn answer(plan: ResponsePlan) -> Seq<char> {
    match plan.structured_output {
        Some(v) => codec::json_text(v@),
        None => plan.response_text@,
    }
}

/// What a tool call carries: raw arguments as they are, the text of a custom call
/// whose arguments are text, and the JSON text of other arguments.
pub open spec fn carried(call: ToolCallPlan) -> Seq<char> {
    match call.raw_arguments {
        Some(raw) => raw@,
        None => if call.custom && call.arguments@ is Str {
            call.arguments@->Str_0
        } else {
            codec::json_text(call.arguments@)
        },
    }
}

/// The types of events, told apart.
proof fn event_types_differ()
    ensures
        "response.created"@.len() == 16,
        "response.completed"@.len() == 18,
        "response.incomplete"@.len() == 19,
        "response.in_progress"@.len() == 20,
        "response.reasoning.delta"@.len() == 24,
        "response.output_item.done"@.len() == 25 && "response.output_item.done"@[16] == 'i',
        "response.output_text.done"@.len() == 25 && "response.output_text.done"@[16] == 't',
        "response.output_item.added"@.len() == 26 && "response.output_item.added"@[16] == 'i'
            && "response.output_item.added"@[9] == 'o',
        "response.output_text.delta"@.len() == 26 && "response.output_text.delta"@[16] == 't'
            && "response.output_text.delta"@[9] == 'o',
        "response.content_part.done"@.len() == 26 && "response.content_part.done"@[9] == 'c',
        "response.content_part.added"@.len() == 27,
        "response.custom_tool_call_input.done"@.len() == 36,
        "response.custom_tool_call_input.delta"@.len() == 37
            && "response.custom_tool_call_input.delta"@[9] == 'c',
        "response.function_call_arguments.done"@.len() == 37
            && "response.function_call_arguments.done"@[9] == 'f',
        "response.function_call_arguments.delta"@.len() == 38,
{
    reveal_strlit("response.created");
    reveal_strlit("response.completed");
    reveal_strlit("response.incomplete");
    reveal_strlit("response.in_progress");
    reveal_strlit("response.reasoning.delta");
    reveal_strlit("response.output_item.done");
    reveal_strlit("response.output_text.done");
    reveal_strlit("response.output_item.added");
    reveal_strlit("response.output_text.delta");
    reveal_strlit("response.content_part.done");
    reveal_strlit("response.content_part.added");
    reveal_strlit("response.custom_tool_call_input.done");
    reveal_strlit("response.custom_tool_call_input.delta");
    reveal_strlit("response.function_call_arguments.done");
    reveal_strlit("response.function_call_arguments.delta");
}

/// The members of events, told apart.
proof fn event_members_differ()
    ensures
        "item"@.len() == 4 && "item"@[0] == 'i',
        "part"@.len() == 4 && "part"@[0] == 'p',
        "text"@.len() == 4 && "text"@[0] == 't' && "text"@[1] == 'e',
        "type"@.len() == 4 && "type"@[0] == 't' && "type"@[1] == 'y',
        "delta"@.len() == 5 && "delta"@[0] == 'd',
        "input"@.len() == 5 && "input"@[0] == 'i',
        "item_id"@.len() == 7,
        "response"@.len() == 8,
        "arguments"@.len() == 9,
        "output_index"@.len() == 12,
        "content_index"@.len() == 13,
{
    reveal_strlit("item");
    reveal_strlit("part");
    reveal_strlit("text");
    reveal_strlit("type");
    reveal_strlit("delta");
    reveal_strlit("input");
    reveal_strlit("item_id");
    reveal_strlit("response");
    reveal_strlit("arguments");
    reveal_strlit("output_index");
    reveal_strlit("content_index");
}

proof fn lemma_streamed_concat(a: Seq<JsonView>, b: Seq<JsonView>, name: Seq<char>)
    ensures
        streamed(a + b, name) == streamed(a, name) + streamed(b, name),
    decreases b.len(),
{
    if b.len() == 0 {
        assert(a + b =~= a);
        assert(streamed(a, name) + streamed(b, name) =~= streamed(a, name));
    } else {
        lemma_streamed_concat(a, b.drop_last(), name);
        assert((a + b).drop_last() =~= a + b.drop_last());
        assert((a + b).last() == b.last());
        assert(streamed(a + b, name) =~= streamed(a, name) + streamed(b, name));
    }
}

proof fn lemma_streamed_none(data: Seq<JsonView>, name: Seq<char>)
    requires
        forall|i: int| 0 <= i < data.len() ==> !has_type(#[trigger] data[i], name),
    ensures
        streamed(data, name) == Seq::<char>::empty(),
    decreases data.len(),
{
    if data.len() > 0 {
        assert(!has_type(data[data.len() - 1], name));
        assert forall|i: int| 0 <= i < data.drop_last().len() implies !has_type(
            #[trigger] data.drop_last()[i],
            name,
        ) by {
            assert(data.drop_last()[i] == data[i]);
        }
        lemma_streamed_none(data.drop_last(), name);
    }
}

proof fn lemma_about_concat(a: Seq<JsonView>, b: Seq<JsonView>, name: Seq<char>, index: int)
    ensures
        streamed_about(a + b, name, index) == streamed_about(a, name, index) + streamed_about(
            b,
            name,
            index,
        ),
    decreases b.len(),
{
    if b.len() == 0 {
        assert(a + b =~= a);
        assert(streamed_about(a, name, index) + streamed_about(b, name, index) =~= streamed_about(
            a,
            name,
            index,
        ));
    } else {
        lemma_about_concat(a, b.drop_last(), name, index);
        assert((a + b).drop_last() =~= a + b.drop_last());
        assert((a + b).last() == b.last());
        assert(streamed_about(a + b, name, index) =~= streamed_about(a, name, index)
            + streamed_about(b, name, index));
    }
}

proof fn lemma_about_none(data: Seq<JsonView>, name: Seq<char>, index: int)
    requires
        forall|i: int|
            0 <= i < data.len() ==> !(has_type(#[trigger] data[i], name) && is_about(
                data[i],
                index,
            )),
    ensures
        streamed_about(data, name, index) == Seq::<char>::empty(),
    decreases data.len(),
{
    if data.len() > 0 {
        assert(!(has_type(data[data.len() - 1], name) && is_about(data[data.len() - 1], index)));
        assert forall|i: int| 0 <= i < data.drop_last().len() implies !(has_type(
            #[trigger] data.drop_last()[i],
            name,
        ) && is_about(data.drop_last()[i], index)) by {
            assert(data.drop_last()[i] == data[i]);
        }
        lemma_about_none(data.drop_last(), name, index);
    }
}

/// Whether an event may come before the message.
spec fn opening_event(event: JsonView) -> bool {
    ||| has_type(event, "response.created"@)
    ||| has_type(event, "response.in_progress"@)
    ||| has_type(event, "response.reasoning.delta"@)
    ||| has_type(event, "response.output_item.added"@)
    ||| has_type(event, "response.output_item.done"@) && event.at("item"@).at("type"@)
        == JsonView::Str("reasoning"@)
}

proof fn lemma_opening(plan: ResponsePlan)
    ensures
        forall|i: int|
            0 <= i < sse::opening_events(plan).len() ==> opening_event(
                #[trigger] sse::opening_events(plan)[i],
            ),
{
    event_members_differ();
    reveal_strlit("id");
    reveal_strlit("summary");
    assert("id"@.len() == 2 && "summary"@.len() == 7);
    let all = sse::opening_events(plan);
    assert forall|i: int| 0 <= i < all.len() implies opening_event(#[trigger] all[i]) by {
        let n = plan.reasoning@.len() as int;
        if i == 0 {
            assert(has_type(all[i], "response.created"@));
        } else if i == 1 {
            assert(has_type(all[i], "response.in_progress"@));
        } else if i == 2 {
            assert(has_type(all[i], "response.output_item.added"@));
        } else if i < 3 + n {
            assert(all[i] == sse::thought_event(plan, text::texts(plan.reasoning@)[i - 3]));
            assert(has_type(all[i], "response.reasoning.delta"@));
        } else {
            assert(all[i] == sse::item_event(
                "response.output_item.done"@,
                sse::reasoning_item(plan),
                0,
            ));
            assert(has_type(all[i], "response.output_item.done"@));
        }
    }
}

/// Whether an event may be about a tool call.
spec fn call_event(event: JsonView) -> bool {
    ||| has_type(event, "response.custom_tool_call_input.delta"@)
    ||| has_type(event, "response.custom_tool_call_input.done"@)
    ||| has_type(event, "response.function_call_arguments.delta"@)
    ||| has_type(event, "response.function_call_arguments.done"@)
    ||| has_type(event, "response.output_item.added"@)
    ||| has_type(event, "response.output_item.done"@) && (event.at("item"@).at("type"@)
        == JsonView::Str("custom_tool_call"@) || event.at("item"@).at("type"@) == JsonView::Str(
        "function_call"@,
    ))
}

proof fn lemma_call(call: ToolCallPlan, index: int)
    ensures
        forall|i: int|
            0 <= i < 4 ==> call_event(#[trigger] sse::call_events(call, index)[i]),
        has_type(sse::call_events(call, index)[0], "response.output_item.added"@),
        has_type(sse::call_events(call, index)[3], "response.output_item.done"@),
{
    event_members_differ();
    names::item_members_differ();
    let all = sse::call_events(call, index);
    assert(has_type(all[0], "response.output_item.added"@));
    assert(has_type(all[1], sse::payload_delta(call)));
    assert(has_type(all[2], sse::payload_done(call)));
    assert(has_type(all[3], "response.output_item.done"@));
    assert(all[3].at("item"@) == JsonView::Object(call.item()));
    assert forall|i: int| 0 <= i < 4 implies call_event(#[trigger] all[i]) by {
        assert(i == 0 || i == 1 || i == 2 || i == 3);
    }
}

proof fn lemma_calls(plan: ResponsePlan, n: nat)
    requires
        n <= plan.tool_calls@.len(),
    ensures
        sse::calls_events(plan, n).len() == 4 * n,
        forall|i: int|
            0 <= i < 4 * n ==> call_event(#[trigger] sse::calls_events(plan, n)[i]),
    decreases n,
{
    if n > 0 {
        let fewer = (n - 1) as nat;
        lemma_calls(plan, fewer);
        let call = plan.tool_calls@[n - 1];
        let index = sse::first_call_index(plan) + n - 1;
        lemma_call(call, index);
        let all = sse::calls_events(plan, n);
        assert forall|i: int| 0 <= i < 4 * n implies call_event(#[trigger] all[i]) by {
            if i < 4 * fewer {
                assert(all[i] == sse::calls_events(plan, fewer)[i]);
            } else {
                assert(all[i] == sse::call_events(call, index)[i - 4 * fewer]);
            }
        }
    }
}

proof fn lemma_terminal(plan: ResponsePlan)
    ensures
        has_type(
            sse::terminal_event(plan),
            if plan.truncated {
                "response.incomplete"@
            } else {
                "response.completed"@
            },
        ),
        sse::terminal_event(plan).at("response"@) == plan.responses_document(),
{
    event_members_differ();
}

/// Whether an event of the message agrees with the answer.
spec fn message_event(event: JsonView, said: Seq<char>) -> bool {
    ||| has_type(event, "response.output_item.added"@)
    ||| has_type(event, "response.content_part.added"@)
    ||| has_type(event, "response.output_text.delta"@)
    ||| has_type(event, "response.output_text.done"@) && event.at("text"@) == JsonView::Str(said)
    ||| has_type(event, "response.content_part.done"@) && is_said(event.at("part"@), said)
    ||| has_type(event, "response.output_item.done"@) && event.at("item"@).at("type"@)
        == JsonView::Str("message"@) && says(event.at("item"@), said)
}

/// Whether a part is the text said.
spec fn is_said(part: JsonView, said: Seq<char>) -> bool {
    part.at("type"@) == JsonView::Str("output_text"@) && part.at("text"@) == JsonView::Str(said)
}

/// Whether an item is a whole message of the text said.
spec fn says(item: JsonView, said: Seq<char>) -> bool {
    &&& item.at("status"@) == JsonView::Str("completed"@)
    &&& item.at("role"@) == JsonView::Str("assistant"@)
    &&& item.at("content"@).items().len() == 1
    &&& is_said(item.at("content"@).items()[0], said)
}

proof fn lemma_message(plan: ResponsePlan)
    ensures
        forall|i: int|
            0 <= i < sse::message_events(plan).len() ==> message_event(
                #[trigger] sse::message_events(plan)[i],
                answer(plan),
            ),
        streamed(sse::message_events(plan), "response.output_text.delta"@) == (if plan.response_text@.len()
            > 0 || plan.structured_output is Some {
            answer(plan)
        } else {
            Seq::empty()
        }),
{
    event_members_differ();
    event_types_differ();
    names::item_members_differ();
    reveal_strlit("status");
    assert("status"@.len() == 6);
    let name = "response.output_text.delta"@;
    let said = plan.chat_text();
    assert(said == answer(plan));
    let all = sse::message_events(plan);
    if plan.response_text@.len() > 0 || plan.structured_output is Some {
        let first = sse::item_event("response.output_item.added"@, sse::started_message(plan), 1);
        let last = sse::item_event("response.output_item.done"@, sse::finished_message(plan), 1);
        let middle = sse::text_events(plan);
        assert(all == seq![first] + middle + seq![last]);
        assert(has_type(first, "response.output_item.added"@));
        assert(has_type(last, "response.output_item.done"@));
        assert(last.at("item"@) == sse::finished_message(plan));
        assert(says(last.at("item"@), said));
        assert(last.at("item"@).at("type"@) == JsonView::Str("message"@));
        lemma_streamed_none(seq![first], name);
        lemma_streamed_none(seq![last], name);
        lemma_streamed_concat(seq![first], middle, name);
        lemma_streamed_concat(seq![first] + middle, seq![last], name);
        if said.len() > 0 {
            let added = middle[0];
            let delta = middle[1];
            let done = middle[2];
            let ended = middle[3];
            assert(has_type(added, "response.content_part.added"@));
            assert(has_type(delta, name) && delta.at("delta"@) == JsonView::Str(said));
            assert(has_type(done, "response.output_text.done"@) && done.at("text"@)
                == JsonView::Str(said));
            assert(has_type(ended, "response.content_part.done"@) && is_said(
                ended.at("part"@),
                said,
            ));
            assert(middle =~= seq![added] + seq![delta] + seq![done, ended]);
            lemma_streamed_none(seq![added], name);
            lemma_streamed_none(seq![done, ended], name);
            lemma_streamed_concat(seq![added], seq![delta], name);
            lemma_streamed_concat(seq![added] + seq![delta], seq![done, ended], name);
            assert(seq![delta].drop_last() =~= Seq::empty());
            assert(seq![delta].last() == delta);
            reveal_with_fuel(streamed, 2);
            assert(streamed(seq![delta], name) =~= said);
            assert(streamed(all, name) =~= said);
        } else {
            assert(streamed(middle, name) =~= Seq::empty());
            assert(streamed(all, name) =~= said);
        }
        assert forall|i: int| 0 <= i < all.len() implies message_event(#[trigger] all[i], said) by {
            if 0 < i < all.len() - 1 {
                assert(all[i] == middle[i - 1]);
                assert(i - 1 == 0 || i - 1 == 1 || i - 1 == 2 || i - 1 == 3);
            } else if i == 0 {
                assert(all[i] == first);
            } else {
                assert(all[i] == last);
            }
        }
    } else {
        assert(streamed(all, name) =~= Seq::empty());
    }
}

/// The text of an answer is streamed whole: the deltas of its text add up to it,
/// and whatever ends the text, the part or the message carries it too.
pub proof fn text_deltas_add_up(plan: ResponsePlan, malformed: bool)
    ensures
        ({
            let data = sse::responses_data(plan, malformed);
            let said = match plan.structured_output {
                Some(v) => codec::json_text(v@),
                None => plan.response_text@,
            };
            &&& streamed(data, "response.output_text.delta"@) == said
            &&& forall|i: int|
                0 <= i < data.len() && (#[trigger] data[i]).at("type"@) == JsonView::Str(
                    "response.output_text.done"@,
                ) ==> data[i].at("text"@) == JsonView::Str(said)
            &&& forall|i: int|
                0 <= i < data.len() && (#[trigger] data[i]).at("type"@) == JsonView::Str(
                    "response.content_part.done"@,
                ) ==> data[i].at("part"@).at("type"@) == JsonView::Str("output_text"@)
                    && data[i].at("part"@).at("text"@) == JsonView::Str(said)
            &&& forall|i: int|
                0 <= i < data.len() && (#[trigger] data[i]).at("type"@) == JsonView::Str(
                    "response.output_item.done"@,
                ) && data[i].at("item"@).at("type"@) == JsonView::Str("message"@) ==> {
                    let item = data[i].at("item"@);
                    &&& item.at("status"@) == JsonView::Str("completed"@)
                    &&& item.at("role"@) == JsonView::Str("assistant"@)
                    &&& item.at("content"@).items().len() == 1
                    &&& item.at("content"@).items()[0].at("type"@) == JsonView::Str("output_text"@)
                    &&& item.at("content"@).items()[0].at("text"@) == JsonView::Str(said)
                }
        }),
{
    event_types_differ();
    names::item_types_differ();
    reveal_strlit("reasoning");
    assert("reasoning"@.len() == 9);
    let name = "response.output_text.delta"@;
    let data = sse::responses_data(plan, malformed);
    let opening = sse::opening_events(plan);
    let message = sse::message_events(plan);
    let calls = sse::calls_events(plan, plan.tool_calls@.len());
    let ending = if malformed {
        Seq::empty()
    } else {
        seq![sse::terminal_event(plan)]
    };
    lemma_opening(plan);
    lemma_message(plan);
    lemma_calls(plan, plan.tool_calls@.len());
    lemma_terminal(plan);
    assert(data =~= opening + message + calls + ending);
    lemma_streamed_none(opening, name);
    lemma_streamed_none(calls, name);
    lemma_streamed_none(ending, name);
    lemma_streamed_concat(opening, message, name);
    lemma_streamed_concat(opening + message, calls, name);
    lemma_streamed_concat(opening + message + calls, ending, name);
    assert(streamed(data, name) =~= answer(plan));
    assert forall|i: int| 0 <= i < data.len() implies {
        ||| opening_event(#[trigger] data[i])
        ||| message_event(data[i], answer(plan))
        ||| call_event(data[i])
        ||| has_type(data[i], "response.incomplete"@)
        ||| has_type(data[i], "response.completed"@)
    } by {
        if i < opening.len() {
            assert(data[i] == opening[i]);
        } else if i < opening.len() + message.len() {
            assert(data[i] == message[i - opening.len()]);
        } else if i < opening.len() + message.len() + calls.len() {
            assert(data[i] == calls[i - opening.len() - message.len()]);
        } else {
            assert(data[i] == sse::terminal_event(plan));
        }
    }
}

/// The message is announced, its text sent, and then everything is ended in
/// turn: the text, the part, the item. All of these events are about the same
/// item.
pub proof fn message_is_framed(plan: ResponsePlan, malformed: bool)
    requires
        answer(plan).len() > 0,
    ensures
        ({
            let data = sse::responses_data(plan, malformed);
            let at = plan.reasoning@.len() + 4int;
            let id = JsonView::Str("msg_"@ + plan.id@);
            &&& data.len() >= at + 6
            &&& data[at].at("type"@) == JsonView::Str("response.output_item.added"@)
            &&& data[at].at("item"@).at("id"@) == id
            &&& data[at].at("item"@).at("type"@) == JsonView::Str("message"@)
            &&& data[at].at("item"@).at("role"@) == JsonView::Str("assistant"@)
            &&& data[at].at("item"@).at("status"@) == JsonView::Str("in_progress"@)
            &&& data[at].at("item"@).at("content"@) == JsonView::Array(Seq::empty())
            &&& data[at + 1].at("type"@) == JsonView::Str("response.content_part.added"@)
            &&& data[at + 1].at("part"@).at("type"@) == JsonView::Str("output_text"@)
            &&& data[at + 1].at("part"@).at("text"@) == JsonView::Str(Seq::empty())
            &&& data[at + 2].at("type"@) == JsonView::Str("response.output_text.delta"@)
            &&& data[at + 3].at("type"@) == JsonView::Str("response.output_text.done"@)
            &&& data[at + 4].at("type"@) == JsonView::Str("response.content_part.done"@)
            &&& data[at + 5].at("type"@) == JsonView::Str("response.output_item.done"@)
            &&& data[at + 5].at("item"@).at("id"@) == id
            &&& data[at + 5].at("item"@).at("type"@) == JsonView::Str("message"@)
            &&& forall|i: int|
                at < i < at + 5 ==> (#[trigger] data[i]).at("item_id"@) == id && data[i].at(
                    "content_index"@,
                ).as_u64() == Some(0u64)
            &&& forall|i: int| at <= i < at + 6 ==> is_about(#[trigger] data[i], 1)
        }),
{
    event_members_differ();
    names::item_members_differ();
    reveal_strlit("status");
    assert("status"@.len() == 6);
    let data = sse::responses_data(plan, malformed);
    let at = plan.reasoning@.len() + 4int;
    let opening = sse::opening_events(plan);
    let message = sse::message_events(plan);
    assert(opening.len() == at);
    assert(plan.chat_text() == answer(plan));
    assert(message.len() == 6);
    assert forall|i: int| 0 <= i < 6 implies #[trigger] message[i] == data[at + i] by {}
    assert(message[0] == data[at]);
    assert(message[1] == data[at + 1]);
    assert(message[2] == data[at + 2]);
    assert(message[3] == data[at + 3]);
    assert(message[4] == data[at + 4]);
    assert(message[5] == data[at + 5]);
    assert(message[1] == sse::text_events(plan)[0]);
    assert(message[2] == sse::text_events(plan)[1]);
    assert(message[3] == sse::text_events(plan)[2]);
    assert(message[4] == sse::text_events(plan)[3]);
    assert(data[at].at("item"@) == sse::started_message(plan));
    assert(data[at + 5].at("item"@) == sse::finished_message(plan));
    assert forall|i: int| at < i < at + 5 implies (#[trigger] data[i]).at("item_id"@)
        == JsonView::Str("msg_"@ + plan.id@) && data[i].at("content_index"@).as_u64() == Some(
        0u64,
    ) by {
        assert(i == at + 1 || i == at + 2 || i == at + 3 || i == at + 4);
    }
    assert forall|i: int| at <= i < at + 6 implies is_about(#[trigger] data[i], 1) by {
        assert(i == at || i == at + 1 || i == at + 2 || i == at + 3 || i == at + 4 || i == at + 5);
    }
}

/// A stream opens with the response as it starts, twice, and with its thoughts,
/// each in one event. It ends, unless it is cut short, with the whole response.
pub proof fn stream_opens_and_ends(plan: ResponsePlan, malformed: bool)
    ensures
        ({
            let data = sse::responses_data(plan, malformed);
            let n = plan.reasoning@.len() as int;
            &&& data.len() >= n + 4
            &&& data[0].at("type"@) == JsonView::Str("response.created"@)
            &&& data[1].at("type"@) == JsonView::Str("response.in_progress"@)
            &&& forall|i: int|
                0 <= i < 2 ==> {
                    let response = (#[trigger] data[i]).at("response"@);
                    &&& response.at("id"@) == JsonView::Str(plan.id@)
                    &&& response.at("model"@) == JsonView::Str(plan.model@)
                    &&& response.at("object"@) == JsonView::Str("response"@)
                    &&& response.at("created"@).as_u64() == Some(plan.created)
                    &&& response.at("status"@) == JsonView::Str("in_progress"@)
                    &&& response.at("output"@) == JsonView::Array(Seq::empty())
                }
            &&& data[2].at("type"@) == JsonView::Str("response.output_item.added"@)
            &&& data[n + 3].at("type"@) == JsonView::Str("response.output_item.done"@)
            &&& data[2].at("item"@) == data[n + 3].at("item"@)
            &&& data[2].at("item"@).at("type"@) == JsonView::Str("reasoning"@)
            &&& data[2].at("item"@).at("id"@) == JsonView::Str("rs_"@ + plan.id@)
            &&& forall|i: int|
                #![trigger plan.reasoning@[i]]
                0 <= i < n ==> {
                    &&& data[i + 3].at("type"@) == JsonView::Str("response.reasoning.delta"@)
                    &&& data[i + 3].at("delta"@) == JsonView::Str(plan.reasoning@[i]@)
                    &&& data[i + 3].at("item_id"@) == JsonView::Str("rs_"@ + plan.id@)
                }
            &&& forall|i: int| 2 <= i < n + 4 ==> is_about(#[trigger] data[i], 0)
            &&& !malformed ==> {
                &&& data.last().at("type"@) == JsonView::Str(
                    if plan.truncated {
                        "response.incomplete"@
                    } else {
                        "response.completed"@
                    },
                )
                &&& data.last().at("response"@) == plan.responses_document()
            }
            &&& sse::responses_data(plan, true) == sse::responses_data(plan, false).drop_last()
        }),
{
    event_members_differ();
    names::document_members_differ();
    reveal_strlit("summary");
    assert("summary"@.len() == 7);
    let data = sse::responses_data(plan, malformed);
    let opening = sse::opening_events(plan);
    let n = plan.reasoning@.len() as int;
    let thoughts = text::texts(plan.reasoning@);
    assert(opening.len() == n + 4);
    assert forall|i: int| 0 <= i < n + 4 implies #[trigger] data[i] == opening[i] by {}
    assert(data[0] == opening[0] && data[1] == opening[1] && data[2] == opening[2]);
    assert(data[n + 3] == opening[n + 3]);
    assert(data[0].at("response"@) == sse::started(plan));
    assert(data[1].at("response"@) == sse::started(plan));
    assert(data[2].at("item"@) == sse::reasoning_item(plan));
    assert(data[n + 3].at("item"@) == sse::reasoning_item(plan));
    assert forall|i: int| 0 <= i < n implies #[trigger] data[i + 3] == sse::thought_event(
        plan,
        thoughts[i],
    ) by {
        assert(data[i + 3] == opening[i + 3]);
    }
    assert forall|i: int| #![trigger plan.reasoning@[i]] 0 <= i < n implies {
        &&& data[i + 3].at("type"@) == JsonView::Str("response.reasoning.delta"@)
        &&& data[i + 3].at("delta"@) == JsonView::Str(plan.reasoning@[i]@)
        &&& data[i + 3].at("item_id"@) == JsonView::Str("rs_"@ + plan.id@)
    } by {
        assert(data[i + 3] == sse::thought_event(plan, thoughts[i]));
    }
    assert forall|i: int| 2 <= i < n + 4 implies is_about(#[trigger] data[i], 0) by {
        if 3 <= i < n + 3 {
            assert(data[(i - 3) + 3] == sse::thought_event(plan, thoughts[i - 3]));
        }
    }
    lemma_terminal(plan);
    assert(sse::responses_data(plan, true) =~= sse::responses_data(plan, false).drop_last());
}

proof fn lemma_calls_place(plan: ResponsePlan, n: nat, i: int)
    requires
        0 <= i < n <= plan.tool_calls@.len(),
    ensures
        forall|j: int|
            0 <= j < 4 ==> sse::calls_events(plan, n)[4 * i + j] == #[trigger] sse::call_events(
                plan.tool_calls@[i],
                sse::first_call_index(plan) + i,
            )[j],
    decreases n,
{
    let fewer = (n - 1) as nat;
    lemma_calls(plan, fewer);
    lemma_calls(plan, n);
    if i < fewer {
        lemma_calls_place(plan, fewer, i);
        assert forall|j: int| 0 <= j < 4 implies sse::calls_events(plan, n)[4 * i + j]
            == #[trigger] sse::call_events(
            plan.tool_calls@[i],
            sse::first_call_index(plan) + i,
        )[j] by {
            assert(sse::calls_events(plan, n)[4 * i + j] == sse::calls_events(plan, fewer)[4 * i
                + j]);
        }
    }
}

/// Each tool call is announced without its payload, streamed, ended, and shown
/// whole, in the order of the calls and each under a place of its own behind the
/// reasoning and the message.
pub proof fn calls_are_framed(plan: ResponsePlan, malformed: bool, i: int)
    requires
        0 <= i < plan.tool_calls@.len() < u64::MAX - 2,
    ensures
        ({
            let data = sse::responses_data(plan, malformed);
            let call = plan.tool_calls@[i];
            let spoken = plan.response_text@.len() > 0 || plan.structured_output is Some;
            let index = if spoken {
                i + 2
            } else {
                i + 1
            };
            let ended = if malformed {
                0int
            } else {
                1
            };
            let at = data.len() - ended - 4 * (plan.tool_calls@.len() - i);
            let id = JsonView::Str(
                if call.custom {
                    "ctc_"@ + call.id@
                } else {
                    "fc_"@ + call.id@
                },
            );
            let kind = JsonView::Str(
                if call.custom {
                    "custom_tool_call"@
                } else {
                    "function_call"@
                },
            );
            let field = if call.custom {
                "input"@
            } else {
                "arguments"@
            };
            &&& at >= 4
            &&& data[at].at("type"@) == JsonView::Str("response.output_item.added"@)
            &&& data[at].at("item"@).at(field) == JsonView::Str(Seq::empty())
            &&& data[at + 1].at("type"@) == JsonView::Str(
                if call.custom {
                    "response.custom_tool_call_input.delta"@
                } else {
                    "response.function_call_arguments.delta"@
                },
            )
            &&& data[at + 1].at("delta"@) == JsonView::Str(carried(call))
            &&& data[at + 1].at("item_id"@) == id
            &&& data[at + 2].at("type"@) == JsonView::Str(
                if call.custom {
                    "response.custom_tool_call_input.done"@
                } else {
                    "response.function_call_arguments.done"@
                },
            )
            &&& data[at + 2].at(field) == JsonView::Str(carried(call))
            &&& data[at + 2].at("item_id"@) == id
            &&& data[at + 3].at("type"@) == JsonView::Str("response.output_item.done"@)
            &&& data[at + 3].at("item"@).at(field) == JsonView::Str(carried(call))
            &&& forall|j: int|
                j == at || j == at + 3 ==> {
                    let item = (#[trigger] data[j]).at("item"@);
                    &&& item.at("id"@) == id
                    &&& item.at("type"@) == kind
                    &&& item.at("call_id"@) == JsonView::Str(call.id@)
                    &&& item.at("name"@) == JsonView::Str(call.name@)
                }
            &&& forall|j: int| at <= j < at + 4 ==> is_about(#[trigger] data[j], index)
        }),
{
    event_members_differ();
    names::item_members_differ();
    let data = sse::responses_data(plan, malformed);
    let call = plan.tool_calls@[i];
    let calls = sse::calls_events(plan, plan.tool_calls@.len());
    let front = sse::opening_events(plan) + sse::message_events(plan);
    let index = sse::first_call_index(plan) + i;
    let events = sse::call_events(call, index);
    lemma_calls(plan, plan.tool_calls@.len());
    lemma_calls_place(plan, plan.tool_calls@.len(), i);
    let at = front.len() + 4 * i;
    assert(sse::opening_events(plan).len() >= 4);
    assert forall|j: int| 0 <= j < 4 implies data[at + j] == #[trigger] events[j] by {
        assert(calls[4 * i + j] == events[j]);
        assert(data[at + j] == calls[4 * i + j]);
    }
    assert(data[at] == events[0] && data[at + 1] == events[1] && data[at + 2] == events[2]
        && data[at + 3] == events[3]);
    assert(call.payload() == carried(call));
    assert(data[at].at("item"@) == JsonView::Object(
        call.item().insert(sse::payload_key(call), JsonView::Str(Seq::empty())),
    ));
    assert(data[at + 3].at("item"@) == JsonView::Object(call.item()));
}

proof fn lemma_calls_streamed(plan: ResponsePlan, n: nat, i: int)
    requires
        n <= plan.tool_calls@.len() < u64::MAX - 2,
        0 <= i < plan.tool_calls@.len(),
    ensures
        streamed_about(
            sse::calls_events(plan, n),
            if plan.tool_calls@[i].custom {
                "response.custom_tool_call_input.delta"@
            } else {
                "response.function_call_arguments.delta"@
            },
            sse::first_call_index(plan) + i,
        ) == (if i < n {
            carried(plan.tool_calls@[i])
        } else {
            Seq::empty()
        }),
    decreases n,
{
    let call = plan.tool_calls@[i];
    let name = if call.custom {
        "response.custom_tool_call_input.delta"@
    } else {
        "response.function_call_arguments.delta"@
    };
    let index = sse::first_call_index(plan) + i;
    if n > 0 {
        let fewer = (n - 1) as nat;
        lemma_calls_streamed(plan, fewer, i);
        let place = sse::first_call_index(plan) + n - 1;
        let last = plan.tool_calls@[n - 1];
        let events = sse::call_events(last, place);
        lemma_about_concat(sse::calls_events(plan, fewer), events, name, index);
        event_members_differ();
        event_types_differ();
        names::item_members_differ();
        lemma_call(last, place);
        if i == n - 1 {
            let (a, b, c, d) = (events[0], events[1], events[2], events[3]);
            assert(events =~= seq![a] + seq![b] + seq![c, d]);
            assert(has_type(a, "response.output_item.added"@));
            assert(has_type(d, "response.output_item.done"@));
            assert(has_type(b, name) && b.at("delta"@) == JsonView::Str(last.payload()));
            assert(is_about(b, index));
            assert(has_type(c, sse::payload_done(last)));
            lemma_about_none(seq![a], name, index);
            lemma_about_none(seq![c, d], name, index);
            lemma_about_concat(seq![a], seq![b], name, index);
            lemma_about_concat(seq![a] + seq![b], seq![c, d], name, index);
            assert(seq![b].drop_last() =~= Seq::empty());
            assert(seq![b].last() == b);
            reveal_with_fuel(streamed_about, 2);
            assert(streamed_about(seq![b], name, index) =~= carried(call));
            assert(streamed_about(events, name, index) =~= carried(call));
            assert(streamed_about(sse::calls_events(plan, n), name, index) =~= carried(call));
        } else {
            assert forall|j: int| 0 <= j < events.len() implies !is_about(
                #[trigger] events[j],
                index,
            ) by {
                assert(j == 0 || j == 1 || j == 2 || j == 3);
                assert(events[j].at("output_index"@) == json::int_view(place as u64));
            }
            lemma_about_none(events, name, index);
            assert(streamed_about(sse::calls_events(plan, n), name, index) =~= streamed_about(
                sse::calls_events(plan, fewer),
                name,
                index,
            ));
        }
    }
}

/// The payload of every tool call is streamed whole: the deltas about its place
/// add up to it.
pub proof fn call_deltas_add_up(plan: ResponsePlan, malformed: bool, i: int)
    requires
        0 <= i < plan.tool_calls@.len() < u64::MAX - 2,
    ensures
        streamed_about(
            sse::responses_data(plan, malformed),
            if plan.tool_calls@[i].custom {
                "response.custom_tool_call_input.delta"@
            } else {
                "response.function_call_arguments.delta"@
            },
            if plan.response_text@.len() > 0 || plan.structured_output is Some {
                i + 2
            } else {
                i + 1
            },
        ) == carried(plan.tool_calls@[i]),
{
    let call = plan.tool_calls@[i];
    let name = if call.custom {
        "response.custom_tool_call_input.delta"@
    } else {
        "response.function_call_arguments.delta"@
    };
    let index = sse::first_call_index(plan) + i;
    let data = sse::responses_data(plan, malformed);
    let opening = sse::opening_events(plan);
    let message = sse::message_events(plan);
    let calls = sse::calls_events(plan, plan.tool_calls@.len());
    let ending = if malformed {
        Seq::empty()
    } else {
        seq![sse::terminal_event(plan)]
    };
    event_types_differ();
    lemma_opening(plan);
    lemma_message(plan);
    lemma_terminal(plan);
    lemma_calls_streamed(plan, plan.tool_calls@.len(), i);
    assert(data =~= opening + message + calls + ending);
    assert forall|j: int| 0 <= j < opening.len() implies !(has_type(#[trigger] opening[j], name)
        && is_about(opening[j], index)) by {
        assert(opening_event(opening[j]));
    }
    assert forall|j: int| 0 <= j < message.len() implies !(has_type(#[trigger] message[j], name)
        && is_about(message[j], index)) by {
        assert(message_event(message[j], answer(plan)));
    }
    lemma_about_none(opening, name, index);
    lemma_about_none(message, name, index);
    lemma_about_none(ending, name, index);
    lemma_about_concat(opening, message, name, index);
    lemma_about_concat(opening + message, calls, name, index);
    lemma_about_concat(opening + message + calls, ending, name, index);
    assert(streamed_about(data, name, index) =~= carried(call));
}

/// A Responses document tells the plan: who answers, what was thought, the
/// message where there is one, every tool call in order, and how it ended.
pub proof fn responses_document_tells_the_plan(plan: ResponsePlan)
    ensures
        ({
            let document = plan.responses_document();
            let output = document.at("output"@).items();
            let calls = plan.tool_calls@;
            let spoken = plan.response_text@.len() > 0 || plan.structured_output is Some;
            let first = output.len() - calls.len();
            &&& document.at("id"@) == JsonView::Str(plan.id@)
            &&& document.at("object"@) == JsonView::Str("response"@)
            &&& document.at("created"@).as_u64() == Some(plan.created)
            &&& document.at("model"@) == JsonView::Str(plan.model@)
            &&& document.at("status"@) == JsonView::Str(
                if plan.truncated {
                    "incomplete"@
                } else {
                    "completed"@
                },
            )
            &&& plan.truncated ==> document.at("incomplete_details"@).at("reason"@)
                == JsonView::Str("max_output_tokens"@)
            &&& !plan.truncated ==> document.get("incomplete_details"@) is None
            &&& document.at("reasoning"@).items().len() == plan.reasoning@.len()
            &&& forall|i: int|
                #![trigger plan.reasoning@[i]]
                0 <= i < plan.reasoning@.len() ==> document.at("reasoning"@).items()[i]
                    == JsonView::Str(plan.reasoning@[i]@)
            &&& first == (if spoken {
                1int
            } else {
                0
            })
            &&& forall|i: int|
                #![trigger calls[i]]
                0 <= i < calls.len() ==> {
                    let item = output[first + i];
                    &&& item.at("call_id"@) == JsonView::Str(calls[i].id@)
                    &&& item.at("name"@) == JsonView::Str(calls[i].name@)
                    &&& calls[i].custom ==> {
                        &&& item.at("type"@) == JsonView::Str("custom_tool_call"@)
                        &&& item.at("id"@) == JsonView::Str("ctc_"@ + calls[i].id@)
                        &&& item.at("input"@) == JsonView::Str(carried(calls[i]))
                    }
                    &&& !calls[i].custom ==> {
                        &&& item.at("type"@) == JsonView::Str("function_call"@)
                        &&& item.at("id"@) == JsonView::Str("fc_"@ + calls[i].id@)
                        &&& item.at("arguments"@) == JsonView::Str(carried(calls[i]))
                    }
                }
        }),
{
    names::document_members_differ();
    names::item_members_differ();
    let document = plan.responses_document();
    let output = plan.output();
    let calls = plan.tool_calls@;
    assert(document.at("output"@) == JsonView::Array(output));
    let thoughts = document.at("reasoning"@).items();
    assert(thoughts.len() == plan.reasoning@.len());
    assert forall|i: int| #![trigger plan.reasoning@[i]] 0 <= i < plan.reasoning@.len() implies
        thoughts[i] == JsonView::Str(plan.reasoning@[i]@) by {
        assert(text::texts(plan.reasoning@)[i] == plan.reasoning@[i]@);
    }
    let first = output.len() - calls.len();
    assert forall|i: int| #![trigger calls[i]] 0 <= i < calls.len() implies output[first + i]
        == JsonView::Object(calls[i].item()) by {
        assert(calls[i].payload() == carried(calls[i]));
    }
    assert forall|i: int| #![trigger calls[i]] 0 <= i < calls.len() implies calls[i].payload()
        == carried(calls[i]) by {}
}

/// The message of a Responses document holds the text as one part, where there
/// is any, and behind it the structured output, where there is one.
pub proof fn responses_message_tells_the_plan(plan: ResponsePlan)
    requires
        plan.response_text@.len() > 0 || plan.structured_output is Some,
    ensures
        ({
            let message = plan.responses_document().at("output"@).items()[0];
            let parts = message.at("content"@).items();
            &&& message.at("type"@) == JsonView::Str("message"@)
            &&& message.at("role"@) == JsonView::Str("assistant"@)
            &&& message.at("id"@) == JsonView::Str("msg_"@ + plan.id@)
            &&& plan.response_text@.len() > 0 ==> {
                &&& parts[0].at("type"@) == JsonView::Str("output_text"@)
                &&& parts[0].at("text"@) == JsonView::Str(plan.response_text@)
            }
            &&& plan.structured_output matches Some(v) ==> {
                &&& parts.last().at("type"@) == JsonView::Str("output_json"@)
                &&& parts.last().at("json"@) == v@
            }
            &&& parts.len() == (if plan.response_text@.len() > 0 && plan.structured_output is Some {
                2int
            } else {
                1
            })
        }),
{
    names::document_members_differ();
    names::item_members_differ();
    let output = plan.output();
    assert(plan.responses_document().at("output"@) == JsonView::Array(output));
    assert(output[0].at("content"@) == JsonView::Array(plan.content_parts()));
}

/// Both forms of the token counts give the counts and their sum.
pub proof fn usage_adds_up(plan: ResponsePlan)
    requires
        plan.usage.input_tokens + plan.usage.output_tokens <= u64::MAX,
    ensures
        ({
            let told = plan.responses_document().at("usage"@);
            let chat = plan.chat_document().at("usage"@);
            let total = (plan.usage.input_tokens + plan.usage.output_tokens) as u64;
            &&& told.at("input_tokens"@).as_u64() == Some(plan.usage.input_tokens)
            &&& told.at("output_tokens"@).as_u64() == Some(plan.usage.output_tokens)
            &&& told.at("total_tokens"@).as_u64() == Some(total)
            &&& chat.at("prompt_tokens"@).as_u64() == Some(plan.usage.input_tokens)
            &&& chat.at("completion_tokens"@).as_u64() == Some(plan.usage.output_tokens)
            &&& chat.at("total_tokens"@).as_u64() == Some(total)
        }),
{
    names::document_members_differ();
    names::chunk_members_differ();
    names::usage_members_differ();
    assert(plan.responses_document().at("usage"@) == plan.usage.responses_view());
    assert(plan.chat_document().at("usage"@) == plan.usage.chat_view());
}

/// A chat document tells the plan: who answers, one choice with the text, the
/// thoughts and every tool call in order, and why it finished.
pub proof fn chat_document_tells_the_plan(plan: ResponsePlan)
    ensures
        ({
            let document = plan.chat_document();
            let choices = document.at("choices"@).items();
            let message = choices[0].at("message"@);
            let calls = plan.tool_calls@;
            &&& document.at("id"@) == JsonView::Str("chatcmpl_"@ + plan.id@)
            &&& document.at("object"@) == JsonView::Str("chat.completion"@)
            &&& document.at("created"@).as_u64() == Some(plan.created)
            &&& document.at("model"@) == JsonView::Str(plan.model@)
            &&& choices.len() == 1
            &&& choices[0].at("index"@).as_u64() == Some(0u64)
            &&& choices[0].at("finish_reason"@) == JsonView::Str(
                if plan.truncated {
                    "length"@
                } else if calls.len() > 0 {
                    "tool_calls"@
                } else {
                    "stop"@
                },
            )
            &&& message.at("role"@) == JsonView::Str("assistant"@)
            &&& message.at("content"@) == JsonView::Str(answer(plan))
            &&& message.at("reasoning"@).items().len() == plan.reasoning@.len()
            &&& forall|i: int|
                #![trigger plan.reasoning@[i]]
                0 <= i < plan.reasoning@.len() ==> message.at("reasoning"@).items()[i]
                    == JsonView::Str(plan.reasoning@[i]@)
            &&& message.at("tool_calls"@).items().len() == calls.len()
            &&& forall|i: int|
                #![trigger calls[i]]
                0 <= i < calls.len() ==> {
                    let item = message.at("tool_calls"@).items()[i];
                    &&& item.at("id"@) == JsonView::Str(calls[i].id@)
                    &&& item.at("type"@) == JsonView::Str("function"@)
                    &&& item.at("function"@).at("name"@) == JsonView::Str(calls[i].name@)
                    &&& item.at("function"@).at("arguments"@) == JsonView::Str(carried(calls[i]))
                }
        }),
{
    names::chunk_members_differ();
    names::choice_members_differ();
    names::message_members_differ();
    names::call_members_differ();
    let document = plan.chat_document();
    let calls = plan.tool_calls@;
    assert(document.at("choices"@) == JsonView::Array(seq![plan.chat_choice()]));
    let choice = document.at("choices"@).items()[0];
    assert(choice == plan.chat_choice());
    let message = choice.at("message"@);
    assert(message == plan.chat_message());
    assert(plan.chat_text() == answer(plan));
    let thoughts = message.at("reasoning"@).items();
    assert(thoughts.len() == plan.reasoning@.len());
    assert forall|i: int| #![trigger plan.reasoning@[i]] 0 <= i < plan.reasoning@.len() implies
        thoughts[i] == JsonView::Str(plan.reasoning@[i]@) by {
        assert(text::texts(plan.reasoning@)[i] == plan.reasoning@[i]@);
    }
    assert(message.at("tool_calls"@).items() == plan::chat_items(calls));
    assert forall|i: int| #![trigger calls[i]] 0 <= i < calls.len() implies message.at(
        "tool_calls"@,
    ).items()[i] == JsonView::Object(calls[i].chat_item()) && calls[i].payload() == carried(
        calls[i],
    ) by {}
}

/// What a chunk of a chat completion adds.
pub open spec fn chunk_delta(chunk: JsonView) -> JsonView {
    chunk.at("choices"@).items()[0].at("delta"@)
}

/// What the chunks of a chat completion add up to: the content that they carry,
/// in order.
pub open spec fn chat_streamed(data: Seq<JsonView>) -> Seq<char>
    decreases data.len(),
{
    if data.len() == 0 {
        Seq::empty()
    } else if data.last().at("choices"@).items().len() == 0 {
        chat_streamed(data.drop_last())
    } else {
        chat_streamed(data.drop_last()) + chunk_delta(data.last()).text_at("content"@)
    }
}

proof fn lemma_chat_streamed_concat(a: Seq<JsonView>, b: Seq<JsonView>)
    ensures
        chat_streamed(a + b) == chat_streamed(a) + chat_streamed(b),
    decreases b.len(),
{
    if b.len() == 0 {
        assert(a + b =~= a);
        assert(chat_streamed(a) + chat_streamed(b) =~= chat_streamed(a));
    } else {
        lemma_chat_streamed_concat(a, b.drop_last());
        assert((a + b).drop_last() =~= a + b.drop_last());
        assert((a + b).last() == b.last());
        assert(chat_streamed(a + b) =~= chat_streamed(a) + chat_streamed(b));
    }
}

proof fn lemma_chat_streamed_none(data: Seq<JsonView>)
    requires
        forall|i: int|
            0 <= i < data.len() ==> (#[trigger] data[i]).at("choices"@).items().len() == 0
                || chunk_delta(data[i]).get("content"@) is None,
    ensures
        chat_streamed(data) == Seq::<char>::empty(),
    decreases data.len(),
{
    if data.len() > 0 {
        let front = data.drop_last();
        assert(data[data.len() - 1].at("choices"@).items().len() == 0 || chunk_delta(
            data[data.len() - 1],
        ).get("content"@) is None);
        assert forall|i: int| 0 <= i < front.len() implies (#[trigger] front[i]).at(
            "choices"@,
        ).items().len() == 0 || chunk_delta(front[i]).get("content"@) is None by {
            assert(front[i] == data[i]);
        }
        lemma_chat_streamed_none(front);
        assert(chat_streamed(data) =~= Seq::empty());
    }
}

/// Whether a chunk names the completion that it belongs to.
spec fn identified(plan: ResponsePlan, chunk: JsonView) -> bool {
    &&& chunk.at("id"@) == JsonView::Str("chatcmpl_"@ + plan.id@)
    &&& chunk.at("object"@) == JsonView::Str("chat.completion.chunk"@)
    &&& chunk.at("created"@).as_u64() == Some(plan.created)
    &&& chunk.at("model"@) == JsonView::Str(plan.model@)
}

proof fn lemma_chunk(plan: ResponsePlan, delta: Map<Seq<char>, JsonView>, finish: JsonView)
    ensures
        ({
            let chunk = sse::chat_delta(plan, delta, finish);
            &&& identified(plan, chunk)
            &&& chunk.at("choices"@).items().len() == 1
            &&& chunk_delta(chunk) == JsonView::Object(delta)
            &&& chunk.at("choices"@).items()[0].at("finish_reason"@) == finish
            &&& chunk.at("choices"@).items()[0].at("index"@).as_u64() == Some(0u64)
        }),
{
    names::chunk_members_differ();
    names::choice_members_differ();
}

/// A chat completion streams its text whole: the content of its chunks adds up
/// to it.
pub proof fn chat_deltas_add_up(plan: ResponsePlan, include_usage: bool, malformed: bool)
    ensures
        chat_streamed(sse::chat_data(plan, include_usage, malformed)) == (
        match plan.structured_output {
            Some(v) => codec::json_text(v@),
            None => plan.response_text@,
        }),
{
    names::message_members_differ();
    names::chunk_members_differ();
    let data = sse::chat_data(plan, include_usage, malformed);
    let body = sse::chat_body_data(plan);
    let said = plan.chat_text();
    let thoughts = text::texts(plan.reasoning@);
    let opened = map!["role"@ => JsonView::Str("assistant"@)];
    let spoken = map!["content"@ => JsonView::Str(said)];
    let called = map!["tool_calls"@ => JsonView::Array(sse::chat_calls(plan.tool_calls@))];
    let role = seq![sse::chat_delta(plan, opened, JsonView::Null)];
    let content = if said.len() > 0 {
        seq![sse::chat_delta(plan, spoken, JsonView::Null)]
    } else {
        Seq::empty()
    };
    let thinking = Seq::new(
        thoughts.len(),
        |i: int|
            sse::chat_delta(plan, map!["reasoning"@ => JsonView::Str(thoughts[i])], JsonView::Null),
    );
    let calls = if plan.tool_calls@.len() > 0 {
        seq![sse::chat_delta(plan, called, JsonView::Null)]
    } else {
        Seq::empty()
    };
    assert(body =~= role + content + thinking + calls);
    lemma_chunk(plan, opened, JsonView::Null);
    lemma_chunk(plan, spoken, JsonView::Null);
    lemma_chunk(plan, called, JsonView::Null);
    lemma_chat_streamed_none(role);
    lemma_chat_streamed_none(calls);
    assert forall|i: int| 0 <= i < thinking.len() implies (#[trigger] thinking[i]).at(
        "choices"@,
    ).items().len() == 0 || chunk_delta(thinking[i]).get("content"@) is None by {
        lemma_chunk(plan, map!["reasoning"@ => JsonView::Str(thoughts[i])], JsonView::Null);
    }
    lemma_chat_streamed_none(thinking);
    if said.len() > 0 {
        let chunk = content[0];
        assert(content.drop_last() =~= Seq::empty());
        assert(content.last() == chunk);
        assert(chunk_delta(chunk).text_at("content"@) == said);
        reveal_with_fuel(chat_streamed, 2);
        assert(chat_streamed(content) =~= said);
    } else {
        assert(chat_streamed(content) =~= said);
    }
    lemma_chat_streamed_concat(role, content);
    lemma_chat_streamed_concat(role + content, thinking);
    lemma_chat_streamed_concat(role + content + thinking, calls);
    assert(chat_streamed(body) =~= said);
    let rest = data.skip(body.len() as int);
    assert(data =~= body + rest);
    let finish = JsonView::Str(plan.finish());
    lemma_chunk(plan, Map::empty(), finish);
    assert forall|i: int| 0 <= i < rest.len() implies (#[trigger] rest[i]).at(
        "choices"@,
    ).items().len() == 0 || chunk_delta(rest[i]).get("content"@) is None by {
        if i == 0 {
            assert(rest[0] == sse::chat_delta(plan, Map::empty(), finish));
        } else {
            assert(rest[1] == sse::chat_usage(plan));
            assert(rest[1].at("choices"@) == JsonView::Array(Seq::empty()));
        }
    }
    lemma_chat_streamed_none(rest);
    lemma_chat_streamed_concat(body, rest);
    assert(chat_streamed(data) =~= said);
}

/// Every chunk of a chat completion names the completion, its time and its
/// model. The first gives the role; each thought has a chunk; one lists every
/// tool call with its place.
pub proof fn chat_chunks_tell_the_plan(plan: ResponsePlan, include_usage: bool, malformed: bool)
    requires
        plan.tool_calls@.len() <= u64::MAX,
    ensures
        ({
            let data = sse::chat_data(plan, include_usage, malformed);
            let calls = plan.tool_calls@;
            let spoken = if answer(plan).len() > 0 {
                1int
            } else {
                0
            };
            let n = plan.reasoning@.len() as int;
            &&& forall|i: int|
                0 <= i < data.len() ==> {
                    &&& (#[trigger] data[i]).at("id"@) == JsonView::Str("chatcmpl_"@ + plan.id@)
                    &&& data[i].at("object"@) == JsonView::Str("chat.completion.chunk"@)
                    &&& data[i].at("created"@).as_u64() == Some(plan.created)
                    &&& data[i].at("model"@) == JsonView::Str(plan.model@)
                }
            &&& chunk_delta(data[0]).at("role"@) == JsonView::Str("assistant"@)
            &&& forall|i: int|
                #![trigger plan.reasoning@[i]]
                0 <= i < n ==> chunk_delta(data[1 + spoken + i]).at("reasoning"@) == JsonView::Str(
                    plan.reasoning@[i]@,
                )
            &&& calls.len() > 0 ==> {
                let listed = chunk_delta(data[1 + spoken + n]).at("tool_calls"@).items();
                &&& listed.len() == calls.len()
                &&& forall|i: int|
                    #![trigger calls[i]]
                    0 <= i < calls.len() ==> {
                        &&& listed[i].at("index"@).as_u64() == Some(i as u64)
                        &&& listed[i].at("id"@) == JsonView::Str(calls[i].id@)
                        &&& listed[i].at("type"@) == JsonView::Str("function"@)
                        &&& listed[i].at("function"@).at("name"@) == JsonView::Str(calls[i].name@)
                        &&& listed[i].at("function"@).at("arguments"@) == JsonView::Str(
                            carried(calls[i]),
                        )
                    }
            }
        }),
{
    names::message_members_differ();
    names::chunk_members_differ();
    names::choice_members_differ();
    names::call_members_differ();
    let data = sse::chat_data(plan, include_usage, malformed);
    let body = sse::chat_body_data(plan);
    let calls = plan.tool_calls@;
    let thoughts = text::texts(plan.reasoning@);
    let n = plan.reasoning@.len() as int;
    let spoken = if answer(plan).len() > 0 {
        1int
    } else {
        0
    };
    assert(plan.chat_text() == answer(plan));
    assert forall|i: int| 0 <= i < body.len() implies #[trigger] data[i] == body[i] by {}
    let opened = map!["role"@ => JsonView::Str("assistant"@)];
    lemma_chunk(plan, opened, JsonView::Null);
    assert(body[0] == sse::chat_delta(plan, opened, JsonView::Null));
    assert(data[0] == body[0]);
    assert forall|i: int| #![trigger plan.reasoning@[i]] 0 <= i < n implies chunk_delta(
        data[1 + spoken + i],
    ).at("reasoning"@) == JsonView::Str(plan.reasoning@[i]@) by {
        let delta = map!["reasoning"@ => JsonView::Str(thoughts[i])];
        lemma_chunk(plan, delta, JsonView::Null);
        assert(body[1 + spoken + i] == sse::chat_delta(plan, delta, JsonView::Null));
        assert(data[1 + spoken + i] == body[1 + spoken + i]);
    }
    if calls.len() > 0 {
        let delta = map!["tool_calls"@ => JsonView::Array(sse::chat_calls(calls))];
        lemma_chunk(plan, delta, JsonView::Null);
        assert(body[1 + spoken + n] == sse::chat_delta(plan, delta, JsonView::Null));
        assert(data[1 + spoken + n] == body[1 + spoken + n]);
        let listed = chunk_delta(data[1 + spoken + n]).at("tool_calls"@).items();
        assert(listed == sse::chat_calls(calls));
        assert forall|i: int| #![trigger calls[i]] 0 <= i < calls.len() implies listed[i]
            == sse::chat_call(calls[i], i) && calls[i].payload() == carried(calls[i]) by {}
    }
    assert forall|i: int| 0 <= i < data.len() implies {
        &&& (#[trigger] data[i]).at("id"@) == JsonView::Str("chatcmpl_"@ + plan.id@)
        &&& data[i].at("object"@) == JsonView::Str("chat.completion.chunk"@)
        &&& data[i].at("created"@).as_u64() == Some(plan.created)
        &&& data[i].at("model"@) == JsonView::Str(plan.model@)
    } by {
        if i == 0 {
        } else if i < 1 + spoken {
            lemma_chunk(plan, map!["content"@ => JsonView::Str(plan.chat_text())], JsonView::Null);
            assert(data[i] == body[i]);
        } else if i < 1 + spoken + n {
            let delta = map!["reasoning"@ => JsonView::Str(thoughts[i - 1 - spoken])];
            lemma_chunk(plan, delta, JsonView::Null);
            assert(data[i] == body[i]);
            assert(body[i] == sse::chat_delta(plan, delta, JsonView::Null));
        } else if i < body.len() {
        } else if i == body.len() {
            lemma_chunk(plan, Map::empty(), JsonView::Str(plan.finish()));
        } else {
            assert(data[i] == sse::chat_usage(plan));
        }
        assert(identified(plan, data[i]));
    }
}

/// A chat completion that is not cut short ends with its finish reason, and then
/// with its token counts where they are asked for. No chunk before gives a
/// finish reason.
pub proof fn chat_streams_finish(plan: ResponsePlan, include_usage: bool, malformed: bool)
    ensures
        ({
            let data = sse::chat_data(plan, include_usage, malformed);
            let end = if malformed {
                data.len() as int
            } else if include_usage {
                data.len() - 2
            } else {
                data.len() - 1
            };
            &&& end >= 1
            &&& forall|i: int|
                0 <= i < end ==> (#[trigger] data[i]).at("choices"@).items()[0].at(
                    "finish_reason"@,
                ) is Null
            &&& !malformed ==> data[end].at("choices"@).items()[0].at("finish_reason"@)
                == JsonView::Str(
                if plan.truncated {
                    "length"@
                } else if plan.tool_calls@.len() > 0 {
                    "tool_calls"@
                } else {
                    "stop"@
                },
            )
            &&& !malformed ==> chunk_delta(data[end]) == JsonView::Object(Map::empty())
            &&& !malformed && include_usage ==> {
                &&& data.last().at("usage"@) == plan.chat_document().at("usage"@)
                &&& data.last().at("choices"@) == JsonView::Array(Seq::empty())
            }
        }),
{
    names::chunk_members_differ();
    let data = sse::chat_data(plan, include_usage, malformed);
    let body = sse::chat_body_data(plan);
    let thoughts = text::texts(plan.reasoning@);
    let n = plan.reasoning@.len() as int;
    let spoken = if plan.chat_text().len() > 0 {
        1int
    } else {
        0
    };
    lemma_chunk(plan, Map::empty(), JsonView::Str(plan.finish()));
    assert forall|i: int| 0 <= i < body.len() implies (#[trigger] data[i]).at(
        "choices"@,
    ).items()[0].at("finish_reason"@) is Null by {
        assert(data[i] == body[i]);
        if i == 0 {
            lemma_chunk(plan, map!["role"@ => JsonView::Str("assistant"@)], JsonView::Null);
        } else if i < 1 + spoken {
            lemma_chunk(plan, map!["content"@ => JsonView::Str(plan.chat_text())], JsonView::Null);
        } else if i < 1 + spoken + n {
            let delta = map!["reasoning"@ => JsonView::Str(thoughts[i - 1 - spoken])];
            lemma_chunk(plan, delta, JsonView::Null);
            assert(body[i] == sse::chat_delta(plan, delta, JsonView::Null));
        } else {
            let delta = map!["tool_calls"@ => JsonView::Array(sse::chat_calls(plan.tool_calls@))];
            lemma_chunk(plan, delta, JsonView::Null);
            assert(body[i] == sse::chat_delta(plan, delta, JsonView::Null));
        }
    }
}

/// A stream is sent as an event stream, one chunk for each text and in order: all
/// of them, or as many as the outcome lets through. Each waits as long as the
/// outcome says. A malformed stream ends with a frame that is broken off.
pub proof fn streams_send_their_texts(texts: Seq<Seq<char>>, options: TransportOptions)
    ensures
        ({
            let sent = sse::stream_reply(texts, options);
            let chunks = sent.body->Chunks_0;
            let n = match options.close_after_chunks {
                Some(limit) => if limit < texts.len() {
                    limit as int
                } else {
                    texts.len() as int
                },
                None => texts.len() as int,
            };
            &&& sent.status == 200
            &&& sent.headers["content-type"@] == "text/event-stream"@
            &&& sent.headers["cache-control"@] == "no-cache"@
            &&& sent.body is Chunks
            &&& forall|i: int|
                0 <= i < n ==> {
                    &&& (#[trigger] chunks[i]).content == ContentView::Text(texts[i])
                    &&& chunks[i].delay_ms == options.inter_event_delay_ms
                }
            &&& !options.malformed_sse ==> chunks.len() == n
            &&& options.malformed_sse ==> {
                &&& chunks.len() == n + 1
                &&& chunks[n].content == ContentView::Text("event: malformed\ndata: {"@)
            }
        }),
{
    reveal_strlit("content-type");
    reveal_strlit("cache-control");
    assert("content-type"@.len() == 12 && "cache-control"@.len() == 13);
}

/// Every text of a streamed response names its event after the type of its data,
/// and carries the data as JSON text. A chat chunk carries its data alone, and
/// the end mark follows the last unless the stream is cut short.
pub proof fn texts_carry_their_data(
    data: Seq<JsonView>,
    plan: ResponsePlan,
    include_usage: bool,
    malformed: bool,
)
    ensures
        sse::event_texts(data).len() == data.len(),
        forall|i: int|
            0 <= i < data.len() ==> (#[trigger] data[i].at("type"@) matches JsonView::Str(name)
                ==> sse::event_texts(data)[i] == "event: "@ + name + "\ndata: "@
                + codec::json_text(data[i]) + "\n\n"@),
        ({
            let chunks = sse::chat_data(plan, include_usage, malformed);
            let texts = sse::chat_texts(plan, include_usage, malformed);
            &&& texts.len() == chunks.len() + (if malformed {
                0int
            } else {
                1
            })
            &&& forall|i: int|
                0 <= i < chunks.len() ==> texts[i] == "data: "@ + codec::json_text(
                    #[trigger] chunks[i],
                ) + "\n\n"@
            &&& !malformed ==> texts.last() == "data: [DONE]\n\n"@
        }),
{
}

/// A recorded exchange is replayed under its own status: its body as JSON text,
/// its events one chunk each. Its content type is the recorded one, and without
/// one the usual one of its kind.
pub proof fn recorded_exchanges_are_replayed(outcome: TranscriptOutcome)
    ensures
        ({
            let sent = sse::transcript_reply(outcome);
            &&& sent.status == outcome.status
            &&& outcome.body matches TranscriptBody::Json(v) ==> sent.body == BodyView::Whole(
                codec::json_text(v@),
            )
            &&& outcome.body matches TranscriptBody::Events(events) ==> {
                &&& sent.body is Chunks
                &&& sent.body->Chunks_0.len() == events@.len()
                &&& forall|i: int|
                    #![trigger events@[i]]
                    0 <= i < events@.len() ==> sent.body->Chunks_0[i].content == ContentView::Text(
                        crate::sse::rendered(events@[i]@),
                    )
            }
            &&& outcome.content_type matches Some(kind) ==> headers::valid_value(kind@)
                ==> sent.headers.contains_key("content-type"@) && sent.headers["content-type"@]
                == kind@
            &&& outcome.content_type is None && outcome.body is Json
                ==> sent.headers["content-type"@] == "application/json"@
            &&& outcome.content_type is None && outcome.body is Events
                ==> sent.headers["content-type"@] == "text/event-stream"@
        }),
{
    reveal_strlit("application/json");
    reveal_strlit("text/event-stream");
}

/// The event that carries data is named after the data's type, and carries the
/// data as JSON text. A chat chunk has no name, and the end mark is the last.
pub proof fn events_are_named_after_their_data(
    data: Seq<JsonView>,
    i: int,
    plan: ResponsePlan,
    include_usage: bool,
    malformed: bool,
)
    requires
        0 <= i < data.len(),
    ensures
        sse::named_events(data).len() == data.len(),
        sse::named_events(data)[i].data == codec::json_text(data[i]),
        data[i].at("type"@) matches JsonView::Str(name) ==> sse::named_events(data)[i].event
            == Some(name),
        ({
            let chunks = sse::chat_data(plan, include_usage, malformed);
            let events = sse::chat_events(plan, include_usage, malformed);
            &&& forall|j: int|
                0 <= j < chunks.len() ==> events[j].event is None && events[j].data
                    == codec::json_text(#[trigger] chunks[j])
            &&& !malformed ==> events.len() == chunks.len() + 1 && events.last().event is None
                && events.last().data == "[DONE]"@
            &&& malformed ==> events.len() == chunks.len()
        }),
{
}

} // verus!
