//! Recording what is sent gives back what was planned: a document shows the
//! content of its plan, and a stream shows what the document shows.

use vstd::prelude::*;
use vstd::utf8::*;

use crate::json::JsonView;
use crate::openai::plan::{ResponsePlan, ToolCallPlan};
use crate::openai::record::{
    CallView, ChatView, ExchangeShape, ObservationView, RecordError, RecordedEndpoint,
};
use crate::openai::{names, plan, record, sse as stream};
use crate::sse::EventView;
use crate::{codec, json, sse, text};

verus! {

/// One of the names that events before the end have.
spec fn inner_name(name: Seq<char>) -> bool {
    ||| name == "response.created"@
    ||| name == "response.in_progress"@
    ||| name == "response.output_item.added"@
    ||| name == "response.output_item.done"@
    ||| name == "response.reasoning.delta"@
    ||| name == "response.content_part.added"@
    ||| name == "response.content_part.done"@
    ||| name == "response.output_text.delta"@
    ||| name == "response.output_text.done"@
    ||| name == "response.function_call_arguments.delta"@
    ||| name == "response.function_call_arguments.done"@
    ||| name == "response.custom_tool_call_input.delta"@
    ||| name == "response.custom_tool_call_input.done"@
}

spec fn all_inner(data: Seq<JsonView>) -> bool {
    forall|i: int| 0 <= i < data.len() ==> inner_name((#[trigger] data[i]).text_at("type"@))
}

proof fn lemma_inner_concat(a: Seq<JsonView>, b: Seq<JsonView>)
    requires
        all_inner(a),
        all_inner(b),
    ensures
        all_inner(a + b),
{
    assert forall|i: int| 0 <= i < (a + b).len() implies inner_name(
        (#[trigger] (a + b)[i]).text_at("type"@),
    ) by {
        if i < a.len() {
            assert(inner_name(a[i].text_at("type"@)));
        } else {
            assert(inner_name(b[i - a.len()].text_at("type"@)));
        }
    }
}

proof fn lemma_calls_inner(plan: ResponsePlan, n: nat)
    ensures
        all_inner(stream::calls_events(plan, n)),
    decreases n,
{
    if n > 0 {
        lemma_calls_inner(plan, (n - 1) as nat);
        let call = plan.tool_calls@[n - 1];
        let index = stream::first_call_index(plan) + n - 1;
        assert(all_inner(stream::call_events(call, index)));
        lemma_inner_concat(
            stream::calls_events(plan, (n - 1) as nat),
            stream::call_events(call, index),
        );
    }
}

proof fn lemma_body_inner(plan: ResponsePlan)
    ensures
        all_inner(stream::responses_data(plan, true)),
{
    let thoughts = text::texts(plan.reasoning@);
    let head = seq![
        stream::typed("response.created"@, map!["response"@ => stream::started(plan)]),
        stream::typed("response.in_progress"@, map!["response"@ => stream::started(plan)]),
        stream::item_event("response.output_item.added"@, stream::reasoning_item(plan), 0),
    ];
    let middle = Seq::new(thoughts.len(), |i: int| stream::thought_event(plan, thoughts[i]));
    let end = seq![
        stream::item_event("response.output_item.done"@, stream::reasoning_item(plan), 0),
    ];
    assert(all_inner(head));
    assert(all_inner(middle));
    assert(all_inner(end));
    lemma_inner_concat(head, middle);
    lemma_inner_concat(head + middle, end);
    let message = stream::message_events(plan);
    if stream::has_message(plan) {
        let first = seq![
            stream::item_event("response.output_item.added"@, stream::started_message(plan), 1),
        ];
        let last = seq![
            stream::item_event("response.output_item.done"@, stream::finished_message(plan), 1),
        ];
        assert(all_inner(first));
        assert(all_inner(stream::text_events(plan)));
        assert(all_inner(last));
        lemma_inner_concat(first, stream::text_events(plan));
        lemma_inner_concat(first + stream::text_events(plan), last);
    }
    assert(all_inner(message));
    lemma_inner_concat(stream::opening_events(plan), message);
    lemma_calls_inner(plan, plan.tool_calls@.len());
    lemma_inner_concat(
        stream::opening_events(plan) + message,
        stream::calls_events(plan, plan.tool_calls@.len()),
    );
}

/// A name that an event can carry.
spec fn plain(name: Seq<char>) -> bool {
    !name.contains('\n') && !name.contains('\r')
}

proof fn lemma_inner_plain(name: Seq<char>)
    requires
        inner_name(name),
    ensures
        plain(name),
        name != "response.completed"@,
{
    reveal_strlit("response.created");
    reveal_strlit("response.in_progress");
    reveal_strlit("response.output_item.added");
    reveal_strlit("response.output_item.done");
    reveal_strlit("response.reasoning.delta");
    reveal_strlit("response.content_part.added");
    reveal_strlit("response.content_part.done");
    reveal_strlit("response.output_text.delta");
    reveal_strlit("response.output_text.done");
    reveal_strlit("response.function_call_arguments.delta");
    reveal_strlit("response.function_call_arguments.done");
    reveal_strlit("response.custom_tool_call_input.delta");
    reveal_strlit("response.custom_tool_call_input.done");
    reveal_strlit("response.completed");
    assert("response.completed"@.len() == 18);
    assert(name.len() != 18);
}

proof fn lemma_terminal_plain(plan: ResponsePlan)
    ensures
        plain(stream::terminal_name(plan)),
        (stream::terminal_name(plan) == "response.completed"@) == !plan.truncated,
{
    reveal_strlit("response.completed");
    reveal_strlit("response.incomplete");
    assert("response.completed"@.len() != "response.incomplete"@.len());
}

/// An event of a response is sent as the text of an event.
proof fn lemma_event_text(data: JsonView)
    requires
        codec::legible(data),
        plain(data.text_at("type"@)),
    ensures
        stream::event_text(data) == sse::rendered(stream::named_event(data)),
        sse::sendable(stream::named_event(data)),
{
    let written = codec::json_text(data);
    assert forall|i: int| 0 <= i < written.len() implies written[i] != '\r' && written[i] != '\n' by {
        assert(written[i] >= ' ');
    }
    lemma_one_line(written);
    reveal_strlit("event: ");
    reveal_strlit("\ndata: ");
    reveal_strlit("data: ");
    reveal_strlit("\n\n");
    assert(stream::event_text(data) =~= sse::rendered(stream::named_event(data)));
}

/// Text on one line is sent on one line.
proof fn lemma_one_line(s: Seq<char>)
    requires
        !s.contains('\n'),
    ensures
        sse::data_lines(text::pieces(s, '\n')) == "data: "@ + s + seq!['\n'],
{
    text::lemma_pieces_one(s, '\n');
    reveal_with_fuel(sse::data_lines, 2);
    assert(sse::data_lines(seq![s]) =~= "data: "@ + s + seq!['\n']) by {
        assert(seq![s].drop_last() =~= Seq::<Seq<char>>::empty());
    }
}

proof fn lemma_stream_end(structured: bool, events: Seq<EventView>, n: int)
    requires
        0 <= n <= events.len(),
        forall|i: int|
            0 <= i < n ==> (#[trigger] events[i]).event != Some("response.completed"@),
    ensures
        record::responses_stream_seen(structured, events) == record::responses_stream_seen(
            structured,
            events.skip(n),
        ),
    decreases n,
{
    if n == 0 {
        assert(events.skip(0) =~= events);
    } else {
        assert(events[0].event != Some("response.completed"@));
        let rest = events.skip(1);
        assert forall|i: int| 0 <= i < n - 1 implies (#[trigger] rest[i]).event != Some(
            "response.completed"@,
        ) by {
            assert(rest[i] == events[i + 1]);
        }
        lemma_stream_end(structured, rest, n - 1);
        assert(rest.skip(n - 1) =~= events.skip(n));
    }
}

/// The events of a response can be sent, and what they show is what the response
/// shows as one document, where the last event is within what a reader of JSON
/// takes. A response that was cut off never completes.
pub(crate) proof fn lemma_responses_stream(plan: ResponsePlan, malformed: bool)
    requires
        stream::all_legible(stream::responses_data(plan, malformed)),
    ensures
        stream::sent_as(
            stream::event_texts(stream::responses_data(plan, malformed)),
            stream::named_events(stream::responses_data(plan, malformed)),
        ),
        stream::shows_document(plan, malformed),
{
    let body = stream::responses_data(plan, true);
    let data = stream::responses_data(plan, malformed);
    let events = stream::named_events(data);
    lemma_body_inner(plan);
    lemma_terminal_plain(plan);
    assert forall|i: int| 0 <= i < data.len() implies plain(
        (#[trigger] data[i]).text_at("type"@),
    ) by {
        if i < body.len() {
            assert(data[i] == body[i]);
            lemma_inner_plain(body[i].text_at("type"@));
        }
    }
    assert forall|i: int| 0 <= i < data.len() implies sse::sendable(#[trigger] events[i])
        && stream::event_texts(data)[i] == sse::rendered(events[i]) by {
        assert(codec::legible(data[i]));
        lemma_event_text(data[i]);
    }
    sse::sent_events_read_back(events);
    assert forall|structured: bool| #[trigger]
        record::responses_stream_seen(structured, events) == stream::expected_from_stream(
            plan,
            malformed,
            structured,
        ) || !malformed && !plan.truncated && !codec::survives(stream::terminal_event(plan), 127) by {
        let n = body.len() as int;
        assert forall|i: int| 0 <= i < n implies (#[trigger] events[i]).event != Some(
            "response.completed"@,
        ) by {
            assert(data[i] == body[i]);
            lemma_inner_plain(body[i].text_at("type"@));
        }
        lemma_stream_end(structured, events, n);
        let rest = events.skip(n);
        if malformed {
            assert(rest =~= Seq::empty());
        } else {
            assert(data[n] == stream::terminal_event(plan));
            assert(rest =~= seq![stream::named_event(stream::terminal_event(plan))]);
            assert(rest.skip(1) =~= Seq::empty());
            reveal_with_fuel(record::responses_stream_seen, 3);
            reveal_strlit("type");
            reveal_strlit("response");
            assert("type"@.len() != "response"@.len());
            assert(codec::legible(data[n]));
        }
    }
}

/// A chunk is sent as the text of an event.
proof fn lemma_chunk_text(data: JsonView)
    requires
        codec::legible(data),
    ensures
        stream::chunk_text(data) == sse::rendered(stream::chunk_event(data)),
        sse::sendable(stream::chunk_event(data)),
{
    let written = codec::json_text(data);
    assert forall|i: int| 0 <= i < written.len() implies written[i] != '\r' && written[i] != '\n' by {
        assert(written[i] >= ' ');
    }
    lemma_one_line(written);
    reveal_strlit("data: ");
    reveal_strlit("\n\n");
    assert(stream::chunk_text(data) =~= sse::rendered(stream::chunk_event(data)));
}

/// The chunks of a chat completion are sent as events.
pub(crate) proof fn lemma_chat_sent(plan: ResponsePlan, include_usage: bool, malformed: bool)
    requires
        stream::all_legible(stream::chat_data(plan, include_usage, malformed)),
    ensures
        stream::sent_as(
            stream::chat_texts(plan, include_usage, malformed),
            stream::chat_events(plan, include_usage, malformed),
        ),
{
    let data = stream::chat_data(plan, include_usage, malformed);
    let texts = stream::chat_texts(plan, include_usage, malformed);
    let events = stream::chat_events(plan, include_usage, malformed);
    assert forall|i: int| 0 <= i < texts.len() implies sse::sendable(#[trigger] events[i])
        && texts[i] == sse::rendered(events[i]) by {
        if i < data.len() {
            assert(codec::legible(data[i]));
            lemma_chunk_text(data[i]);
        } else {
            reveal_strlit("[DONE]");
            reveal_strlit("data: ");
            reveal_strlit("data: [DONE]\n\n");
            lemma_one_line("[DONE]"@);
            assert(texts[i] =~= sse::rendered(events[i]));
        }
    }
    sse::sent_events_read_back(events);
}

/// Chunks seen one after another.
spec fn run(chat: ChatView, data: Seq<JsonView>) -> ChatView
    decreases data.len(),
{
    if data.len() == 0 {
        chat
    } else {
        record::chunk_seen(run(chat, data.drop_last()), data.last())
    }
}

proof fn lemma_run_concat(chat: ChatView, a: Seq<JsonView>, b: Seq<JsonView>)
    ensures
        run(chat, a + b) == run(run(chat, a), b),
    decreases b.len(),
{
    if b.len() == 0 {
        assert(a + b =~= a);
    } else {
        lemma_run_concat(chat, a, b.drop_last());
        assert((a + b).drop_last() =~= a + b.drop_last());
        assert((a + b).last() == b.last());
    }
}

proof fn lemma_run_one(chat: ChatView, data: JsonView)
    ensures
        run(chat, seq![data]) == record::chunk_seen(chat, data),
{
    reveal_with_fuel(run, 2);
    assert(seq![data].drop_last() =~= Seq::empty());
}

spec fn chunk_events(data: Seq<JsonView>) -> Seq<EventView> {
    Seq::new(data.len(), |i: int| stream::chunk_event(data[i]))
}

/// Reading the events of chunks is seeing the chunks.
proof fn lemma_run_is_chat(data: Seq<JsonView>)
    requires
        forall|i: int|
            0 <= i < data.len() ==> codec::survives(#[trigger] data[i], 127) && codec::legible(
                data[i],
            ) && data[i] is Object,
    ensures
        record::chat_after(chunk_events(data)) == Ok::<ChatView, RecordError>(
            run(record::no_chat(), data),
        ),
    decreases data.len(),
{
    if data.len() > 0 {
        let before = data.drop_last();
        assert forall|i: int| 0 <= i < before.len() implies codec::survives(
            #[trigger] before[i],
            127,
        ) && codec::legible(before[i]) && before[i] is Object by {
            assert(codec::legible(data[i]));
        }
        lemma_run_is_chat(before);
        assert(chunk_events(data).drop_last() =~= chunk_events(before));
        assert(chunk_events(data).last() == stream::chunk_event(data.last()));
        assert(codec::legible(data[data.len() - 1]));
        reveal_strlit("[DONE]");
        assert(codec::json_text(data.last())[0] == '{');
        assert("[DONE]"@[0] == '[');
    }
}

/// A delta adds its content and its tool calls.
proof fn lemma_delta(
    plan: ResponsePlan,
    chat: ChatView,
    delta: Map<Seq<char>, JsonView>,
    finish: JsonView,
)
    ensures
        record::chunk_seen(chat, stream::chat_delta(plan, delta, finish)) == (ChatView {
            content: chat.content + record::text_or_none(JsonView::Object(delta).at("content"@)),
            calls: record::calls_grown(
                chat.calls,
                JsonView::Object(delta).at("tool_calls"@).items(),
            ),
            usage: chat.usage,
        }),
{
    names::chunk_members_differ();
    names::choice_members_differ();
}

/// A delta without content and tool calls adds nothing.
proof fn lemma_idle(chat: ChatView)
    ensures
        (ChatView {
            content: chat.content + Seq::<char>::empty(),
            calls: record::calls_grown(chat.calls, Seq::empty()),
            usage: chat.usage,
        }) == chat,
{
    assert(chat.content + Seq::<char>::empty() =~= chat.content);
}

/// Thoughts add nothing to what is seen.
proof fn lemma_thoughts(plan: ResponsePlan, chat: ChatView, thoughts: Seq<Seq<char>>)
    ensures
        run(
            chat,
            Seq::new(
                thoughts.len(),
                |i: int|
                    stream::chat_delta(
                        plan,
                        map!["reasoning"@ => JsonView::Str(thoughts[i])],
                        JsonView::Null,
                    ),
            ),
        ) == chat,
    decreases thoughts.len(),
{
    if thoughts.len() > 0 {
        let before = thoughts.drop_last();
        lemma_thoughts(plan, chat, before);
        let made = |t: Seq<Seq<char>>|
            Seq::new(
                t.len(),
                |i: int|
                    stream::chat_delta(
                        plan,
                        map!["reasoning"@ => JsonView::Str(t[i])],
                        JsonView::Null,
                    ),
            );
        assert(made(thoughts).drop_last() =~= made(before));
        names::message_members_differ();
        lemma_delta(
            plan,
            chat,
            map!["reasoning"@ => JsonView::Str(thoughts.last())],
            JsonView::Null,
        );
        lemma_idle(chat);
    }
}

/// The calls of a plan as a chat stream collects them.
spec fn collected(calls: Seq<ToolCallPlan>) -> Seq<CallView> {
    Seq::new(
        calls.len(),
        |i: int| CallView { index: i as u64, name: calls[i].name@, arguments: calls[i].payload() },
    )
}

/// A call that comes after all others belongs at the end.
proof fn lemma_place_end(calls: Seq<CallView>, index: u64)
    requires
        forall|i: int| 0 <= i < calls.len() ==> (#[trigger] calls[i]).index < index,
    ensures
        record::call_place(calls, index) == calls.len(),
    decreases calls.len(),
{
    if calls.len() > 0 {
        assert(calls[0].index < index);
        let rest = calls.skip(1);
        assert forall|i: int| 0 <= i < rest.len() implies (#[trigger] rest[i]).index < index by {
            assert(rest[i] == calls[i + 1]);
        }
        lemma_place_end(rest, index);
    }
}

/// A chat stream collects the calls of a plan in order.
proof fn lemma_collect(calls: Seq<ToolCallPlan>, n: int)
    requires
        0 <= n <= calls.len() <= u64::MAX,
    ensures
        record::calls_grown(Seq::empty(), stream::chat_calls(calls).take(n)) == collected(
            calls,
        ).take(n),
    decreases n,
{
    let pieces = stream::chat_calls(calls);
    if n == 0 {
        assert(pieces.take(0) =~= Seq::empty());
        assert(collected(calls).take(0) =~= Seq::empty());
    } else {
        lemma_collect(calls, n - 1);
        assert(pieces.take(n).drop_last() =~= pieces.take(n - 1));
        assert(pieces.take(n).last() == stream::chat_call(calls[n - 1], n - 1));
        names::call_members_differ();
        let known = collected(calls).take(n - 1);
        let call = calls[n - 1];
        let piece = stream::chat_call(call, n - 1);
        let index = (n - 1) as u64;
        lemma_place_end(known, index);
        assert(piece.at("index"@).as_u64() == Some(index));
        let function = piece.at("function"@);
        assert(function == call.chat_item()["function"@]);
        assert(function.at("name"@) == JsonView::Str(call.name@));
        assert(function.at("arguments"@) == JsonView::Str(call.payload()));
        let fresh = CallView { index, name: Seq::empty(), arguments: Seq::empty() };
        let with = record::with_call(known, index);
        assert(with =~= known.push(fresh));
        assert(with[n - 1] == fresh);
        assert(Seq::<char>::empty() + call.name@ =~= call.name@);
        assert(Seq::<char>::empty() + call.payload() =~= call.payload());
        assert(record::call_grown(known, piece) =~= collected(calls).take(n));
    }
}

/// Everything a chat stream shows.
proof fn lemma_run_chat(plan: ResponsePlan, include_usage: bool)
    requires
        plan.tool_calls@.len() <= u64::MAX,
    ensures
        run(record::no_chat(), stream::chat_data(plan, include_usage, false)) == (ChatView {
            content: plan.chat_text(),
            calls: collected(plan.tool_calls@),
            usage: if include_usage {
                Some((plan.usage.input_tokens, plan.usage.output_tokens))
            } else {
                None
            },
        }),
{
    names::message_members_differ();
    let thoughts = text::texts(plan.reasoning@);
    let role_delta = map!["role"@ => JsonView::Str("assistant"@)];
    let content_delta = map!["content"@ => JsonView::Str(plan.chat_text())];
    let calls_delta = map!["tool_calls"@ => JsonView::Array(stream::chat_calls(plan.tool_calls@))];
    let role = seq![stream::chat_delta(plan, role_delta, JsonView::Null)];
    let content = if plan.chat_text().len() > 0 {
        seq![stream::chat_delta(plan, content_delta, JsonView::Null)]
    } else {
        Seq::empty()
    };
    let middle = Seq::new(
        thoughts.len(),
        |i: int|
            stream::chat_delta(
                plan,
                map!["reasoning"@ => JsonView::Str(thoughts[i])],
                JsonView::Null,
            ),
    );
    let calls = if plan.tool_calls@.len() > 0 {
        seq![stream::chat_delta(plan, calls_delta, JsonView::Null)]
    } else {
        Seq::empty()
    };
    let start = record::no_chat();
    lemma_run_one(start, role[0]);
    lemma_delta(plan, start, role_delta, JsonView::Null);
    lemma_idle(start);
    assert(run(start, role) == start);
    let said = ChatView { content: plan.chat_text(), ..start };
    assert(run(start, content) == said) by {
        if plan.chat_text().len() > 0 {
            lemma_run_one(start, content[0]);
            lemma_delta(plan, start, content_delta, JsonView::Null);
            assert(start.content + plan.chat_text() =~= plan.chat_text());
        } else {
            assert(plan.chat_text() =~= Seq::empty());
        }
    }
    lemma_run_concat(start, role, content);
    lemma_thoughts(plan, said, thoughts);
    lemma_run_concat(start, role + content, middle);
    let called = ChatView { calls: collected(plan.tool_calls@), ..said };
    assert(run(said, calls) == called) by {
        let all = plan.tool_calls@;
        if all.len() > 0 {
            lemma_run_one(said, calls[0]);
            lemma_delta(plan, said, calls_delta, JsonView::Null);
            lemma_collect(all, all.len() as int);
            assert(stream::chat_calls(all).take(all.len() as int) =~= stream::chat_calls(all));
            assert(collected(all).take(all.len() as int) =~= collected(all));
            assert(said.content + Seq::<char>::empty() =~= said.content);
        } else {
            assert(collected(all) =~= Seq::empty());
        }
    }
    lemma_run_concat(start, role + content + middle, calls);
    let body = stream::chat_body_data(plan);
    assert(body =~= role + content + middle + calls);
    let end = stream::chat_delta(plan, Map::empty(), JsonView::Str(plan.finish()));
    let ended = body.push(end);
    assert(ended.drop_last() =~= body);
    lemma_delta(plan, called, Map::empty(), JsonView::Str(plan.finish()));
    lemma_idle(called);
    assert(run(start, body) == called);
    assert(run(start, ended) == called);
    if include_usage {
        let usage = stream::chat_usage(plan);
        let data = stream::chat_data(plan, true, false);
        assert(data == ended.push(usage));
        assert(data.drop_last() =~= ended);
        names::chunk_members_differ();
        names::usage_members_differ();
        assert(record::first_choice(usage) is Null);
        assert(usage.at("usage"@) == plan.usage.chat_view());
        let counts = plan.usage.chat_view();
        assert(counts.at("prompt_tokens"@) == json::int_view(plan.usage.input_tokens));
        assert(counts.at("completion_tokens"@) == json::int_view(plan.usage.output_tokens));
        let seen = record::chunk_seen(called, usage);
        assert(seen.content =~= called.content);
        assert(seen.calls =~= called.calls);
        assert(seen.usage == Some((plan.usage.input_tokens, plan.usage.output_tokens)));
        assert(run(start, data) == seen);
    } else {
        assert(stream::chat_data(plan, false, false) == ended);
    }
}

/// What a chat document shows.
proof fn lemma_chat_document(plan: ResponsePlan, structured: bool)
    requires
        plan.tool_calls@.len() <= u64::MAX,
    ensures
        record::chat_seen(structured, plan.chat_document()) == Ok::<ObservationView, RecordError>(
            ObservationView {
                tool_calls: record::calls_of(collected(plan.tool_calls@)),
                usage: Some((plan.usage.input_tokens, plan.usage.output_tokens)),
                ..record::text_seen(record::nothing(), structured, plan.chat_text())
            },
        ),
{
    names::chunk_members_differ();
    names::choice_members_differ();
    names::message_members_differ();
    names::usage_members_differ();
    let document = plan.chat_document();
    assert(record::first_choice(document) == plan.chat_choice());
    assert(plan.chat_choice().get("message"@) == Some(plan.chat_message()));
    let said = record::text_seen(record::nothing(), structured, plan.chat_text());
    let all = plan::chat_items(plan.tool_calls@);
    lemma_chat_calls(said, plan.tool_calls@, all.len() as int);
    assert(all.take(all.len() as int) =~= all);
    let calls = record::calls_of(collected(plan.tool_calls@));
    assert(calls.take(all.len() as int) =~= calls);
    assert(said.tool_calls + calls =~= calls);
}

proof fn lemma_chat_calls(said: ObservationView, calls: Seq<ToolCallPlan>, n: int)
    requires
        0 <= n <= calls.len(),
    ensures
        record::chat_calls_seen(said, plan::chat_items(calls).take(n)) == Ok::<
            ObservationView,
            RecordError,
        >(
            ObservationView {
                tool_calls: said.tool_calls + record::calls_of(collected(calls)).take(n),
                ..said
            },
        ),
    decreases n,
{
    let items = plan::chat_items(calls);
    let seen = record::calls_of(collected(calls));
    if n == 0 {
        assert(items.take(0) =~= Seq::empty());
        assert(said.tool_calls + seen.take(0) =~= said.tool_calls);
    } else {
        lemma_chat_calls(said, calls, n - 1);
        assert(items.take(n).drop_last() =~= items.take(n - 1));
        assert(items.take(n).last() == JsonView::Object(calls[n - 1].chat_item()));
        names::call_members_differ();
        let function = items[n - 1].at("function"@);
        assert(function.at("name"@) == JsonView::Str(calls[n - 1].name@));
        assert(function.at("arguments"@) == JsonView::Str(calls[n - 1].payload()));
        assert((said.tool_calls + seen.take(n - 1)).push(seen[n - 1]) =~= said.tool_calls
            + seen.take(n));
    }
}

proof fn lemma_call_survives(call: ToolCallPlan, index: int)
    ensures
        codec::survives(stream::chat_call(call, index), 122),
{
    names::call_members_differ();
    reveal_strlit("function");
    reveal_strlit("arguments");
    let function = map![
        "name"@ => JsonView::Str(call.name@),
        "arguments"@ => JsonView::Str(call.payload())
    ];
    codec::lemma_object_survives(function, 121);
    let item = call.chat_item().insert("index"@, json::int_view(index as u64));
    assert(item["function"@] == JsonView::Object(function));
    codec::lemma_object_survives(item, 122);
}

proof fn lemma_delta_survives(
    plan: ResponsePlan,
    delta: Map<Seq<char>, JsonView>,
    finish: JsonView,
)
    requires
        delta.dom().finite(),
        forall|k: Seq<char>| #[trigger]
            delta.contains_key(k) ==> k.len() < 30 && codec::survives(delta[k], 123),
        codec::survives(finish, 124),
    ensures
        codec::survives(stream::chat_delta(plan, delta, finish), 127),
{
    names::chunk_members_differ();
    names::choice_members_differ();
    codec::lemma_object_survives(delta, 124);
    let choice = map![
        "index"@ => json::int_view(0),
        "delta"@ => JsonView::Object(delta),
        "finish_reason"@ => finish
    ];
    codec::lemma_object_survives(choice, 125);
    let choices = seq![JsonView::Object(choice)];
    assert(codec::survives(JsonView::Array(choices), 126));
    let chunk = stream::chat_chunk_data(plan, choices);
    codec::lemma_object_survives(chunk, 127);
}

/// Every chunk of a chat completion is within what a reader of JSON takes: text
/// and integers under short names, a few levels deep.
pub proof fn chat_chunks_survive(plan: ResponsePlan, include_usage: bool, malformed: bool)
    ensures
        forall|i: int|
            0 <= i < stream::chat_data(plan, include_usage, malformed).len() ==> codec::survives(
                #[trigger] stream::chat_data(plan, include_usage, malformed)[i],
                127,
            ),
{
    names::message_members_differ();
    let data = stream::chat_data(plan, include_usage, malformed);
    let thoughts = text::texts(plan.reasoning@);
    let role = map!["role"@ => JsonView::Str("assistant"@)];
    lemma_delta_survives(plan, role, JsonView::Null);
    let content = map!["content"@ => JsonView::Str(plan.chat_text())];
    lemma_delta_survives(plan, content, JsonView::Null);
    assert forall|t: Seq<char>| codec::survives(
        #[trigger] stream::chat_delta(
            plan,
            map!["reasoning"@ => JsonView::Str(t)],
            JsonView::Null,
        ),
        127,
    ) by {
        lemma_delta_survives(plan, map!["reasoning"@ => JsonView::Str(t)], JsonView::Null);
    }
    let items = stream::chat_calls(plan.tool_calls@);
    assert forall|i: int| 0 <= i < items.len() implies codec::survives(
        #[trigger] items[i],
        122,
    ) by {
        lemma_call_survives(plan.tool_calls@[i], i);
    }
    assert(codec::survives(JsonView::Array(items), 123));
    let calls = map!["tool_calls"@ => JsonView::Array(items)];
    lemma_delta_survives(plan, calls, JsonView::Null);
    let none = Map::<Seq<char>, JsonView>::empty();
    lemma_delta_survives(plan, none, JsonView::Str(plan.finish()));
    lemma_usage_survives(plan);
    let body = stream::chat_body_data(plan);
    assert forall|i: int| 0 <= i < body.len() implies codec::survives(
        #[trigger] body[i],
        127,
    ) by {}
    assert forall|i: int| 0 <= i < data.len() implies codec::survives(
        #[trigger] data[i],
        127,
    ) by {
        if i < body.len() {
            assert(data[i] == body[i]);
        }
    }
}

proof fn lemma_usage_survives(plan: ResponsePlan)
    ensures
        codec::survives(stream::chat_usage(plan), 127),
{
    names::chunk_members_differ();
    names::usage_members_differ();
    reveal_strlit("total_tokens");
    let counts = map![
        "prompt_tokens"@ => json::int_view(plan.usage.input_tokens),
        "completion_tokens"@ => json::int_view(plan.usage.output_tokens),
        "total_tokens"@ => json::int_view(plan.usage.total() as u64)
    ];
    codec::lemma_object_survives(counts, 126);
    let choices = Seq::<JsonView>::empty();
    assert(codec::survives(JsonView::Array(choices), 126));
    let chunk = stream::chat_chunk_data(plan, choices).insert("usage"@, plan.usage.chat_view());
    codec::lemma_object_survives(chunk, 127);
}

/// A recorded stream of a chat completion shows what its document shows.
pub(crate) proof fn lemma_chat_stream(plan: ResponsePlan, include_usage: bool)
    requires
        stream::all_legible(stream::chat_data(plan, include_usage, false)),
        plan.tool_calls@.len() <= u64::MAX,
    ensures
        stream::shows_chat_document(plan, include_usage),
{
    let data = stream::chat_data(plan, include_usage, false);
    let events = stream::chat_events(plan, include_usage, false);
    chat_chunks_survive(plan, include_usage, false);
    assert forall|i: int| 0 <= i < data.len() implies codec::survives(#[trigger] data[i], 127)
        && codec::legible(data[i]) && data[i] is Object by {}
    lemma_run_is_chat(data);
    lemma_run_chat(plan, include_usage);
    assert(events.drop_last() =~= chunk_events(data));
    assert(events.last().data == "[DONE]"@);
    assert(record::chat_after(events) == record::chat_after(chunk_events(data)));
    assert forall|structured: bool| #[trigger]
        record::chat_stream_seen(structured, events) == stream::expected_from_chunks(
            plan,
            include_usage,
            structured,
        ) by {
        lemma_chat_document(plan, structured);
    }
}

/// The end mark of a chat stream is no chunk.
pub(crate) proof fn lemma_chat_ends(plan: ResponsePlan, include_usage: bool, malformed: bool)
    requires
        stream::all_legible(stream::chat_data(plan, include_usage, malformed)),
    ensures
        stream::ends_once(stream::chat_events(plan, include_usage, malformed)),
{
    let data = stream::chat_data(plan, include_usage, malformed);
    let events = stream::chat_events(plan, include_usage, malformed);
    reveal_strlit("[DONE]");
    assert("[DONE]"@[0] == '[');
    assert forall|i: int| 0 <= i < events.len() - 1 implies (#[trigger] events[i]).data
        != "[DONE]"@ by {
        assert(i < data.len());
        assert(codec::legible(data[i]));
        assert(data[i] is Object);
    }
}

/// Recording a chat stream with its token counts gives what recording the chat
/// document gives, where the texts of the chunks are legible, as those that are
/// sent are.
pub proof fn chat_recordings_agree(plan: ResponsePlan, shape: ExchangeShape)
    requires
        shape.endpoint == RecordedEndpoint::ChatCompletions,
        stream::all_legible(stream::chat_data(plan, true, false)),
    ensures
        record::stream_seen(shape, stream::chat_events(plan, true, false)) == record::body_seen(
            shape,
            plan.chat_document(),
        ),
        record::body_seen(shape, plan.chat_document()) is Ok,
{
    assert(plan.tool_calls@.len() == plan.tool_calls.len());
    lemma_chat_stream(plan, true);
    lemma_chat_document(plan, shape.structured);
    assert(stream::expected_from_chunks(plan, true, shape.structured) == record::chat_stream_seen(
        shape.structured,
        stream::chat_events(plan, true, false),
    ));
}

/// Recording the stream of a whole response gives what recording its document
/// gives, where the last event is within what a reader of JSON takes.
pub proof fn responses_recordings_agree(plan: ResponsePlan, shape: ExchangeShape)
    requires
        shape.endpoint == RecordedEndpoint::Responses,
        !plan.truncated,
        stream::all_legible(stream::responses_data(plan, false)),
        codec::survives(stream::terminal_event(plan), 127),
    ensures
        record::stream_seen(shape, stream::named_events(stream::responses_data(plan, false)))
            == record::body_seen(shape, plan.responses_document()),
{
    lemma_responses_stream(plan, false);
    assert(stream::expected_from_stream(plan, false, shape.structured)
        == record::responses_stream_seen(
        shape.structured,
        stream::named_events(stream::responses_data(plan, false)),
    ));
}

/// The text of a plan, where there is any.
pub open spec fn said(plan: ResponsePlan) -> Option<Seq<char>> {
    if plan.response_text@.len() > 0 {
        Some(plan.response_text@)
    } else {
        None
    }
}

/// The tool calls of a plan, each with its name and its parsed payload.
pub open spec fn called(calls: Seq<ToolCallPlan>) -> Seq<(Seq<char>, JsonView)> {
    Seq::new(
        calls.len(),
        |i: int| (calls[i].name@, record::parsed_arguments(calls[i].payload())),
    )
}

/// The content of a plan.
pub open spec fn content(plan: ResponsePlan) -> ObservationView {
    ObservationView {
        response_text: said(plan),
        structured_output: plan.structured(),
        tool_calls: called(plan.tool_calls@),
        usage: Some((plan.usage.input_tokens, plan.usage.output_tokens)),
    }
}

proof fn lemma_items(
    structured: bool,
    head: Seq<JsonView>,
    calls: Seq<ToolCallPlan>,
    o: ObservationView,
    n: int,
)
    requires
        record::items_seen(structured, head) == Ok::<ObservationView, RecordError>(o),
        o.tool_calls.len() == 0,
        forall|i: int| 0 <= i < calls.len() ==> !(#[trigger] calls[i]).custom,
        0 <= n <= calls.len(),
    ensures
        record::items_seen(structured, head + plan::call_items(calls).take(n)) == Ok::<
            ObservationView,
            RecordError,
        >(ObservationView { tool_calls: called(calls).take(n), ..o }),
    decreases n,
{
    let items = plan::call_items(calls);
    if n == 0 {
        assert(head + items.take(0) =~= head);
        assert(called(calls).take(0) =~= o.tool_calls);
    } else {
        lemma_items(structured, head, calls, o, n - 1);
        let now = head + items.take(n);
        assert(now.drop_last() =~= head + items.take(n - 1));
        let call = calls[n - 1];
        assert(!call.custom);
        assert(now.last() == JsonView::Object(call.item()));
        names::item_members_differ();
        names::item_types_differ();
        let item = now.last();
        assert(item.at("type"@) == JsonView::Str("function_call"@));
        assert(item.at("name"@) == JsonView::Str(call.name@));
        assert(item.at("arguments"@) == JsonView::Str(call.payload()));
        assert(called(calls).take(n - 1).push(called(calls)[n - 1]) =~= called(calls).take(n));
    }
}

/// Recording a Responses document gives the content of its plan back: the text,
/// the structured output, the tool calls and the token counts. Custom tool calls
/// are not part of a recording, and where the request asks for structured output,
/// text that is JSON counts as such.
pub proof fn responses_document_gives_content_back(plan: ResponsePlan, structured: bool)
    requires
        forall|i: int| 0 <= i < plan.tool_calls@.len() ==> !(#[trigger] plan.tool_calls@[i]).custom,
        structured ==> said(plan) is None,
    ensures
        record::responses_seen(structured, plan.responses_document()) == Ok::<
            ObservationView,
            RecordError,
        >(content(plan)),
{
    names::item_members_differ();
    names::item_types_differ();
    names::document_members_differ();
    names::usage_members_differ();
    let parts = plan.content_parts();
    let empty = Seq::<JsonView>::empty();
    let message = JsonView::Object(
        map![
            "id"@ => JsonView::Str("msg_"@ + plan.id@),
            "type"@ => JsonView::Str("message"@),
            "role"@ => JsonView::Str("assistant"@),
            "content"@ => JsonView::Array(parts)
        ],
    );
    let head = if parts.len() > 0 {
        seq![message]
    } else {
        Seq::empty()
    };
    let seen = ObservationView {
        response_text: said(plan),
        structured_output: plan.structured(),
        ..record::nothing()
    };
    assert(record::parts_seen(record::nothing(), structured, parts) == seen) by {
        reveal_with_fuel(record::parts_seen, 3);
        let text_part = plan::output_text(plan.response_text@);
        assert(text_part.at("type"@) == JsonView::Str("output_text"@));
        assert(text_part.at("text"@) == JsonView::Str(plan.response_text@));
        match plan.structured() {
            Some(v) => {
                let part = JsonView::Object(
                    map!["type"@ => JsonView::Str("output_json"@), "json"@ => v],
                );
                assert(parts.last() == part);
                assert(part.at("type"@) == JsonView::Str("output_json"@));
                assert(part.get("json"@) == Some(v));
                if said(plan) is Some {
                    assert(parts.drop_last() =~= seq![text_part]);
                    assert(seq![text_part].drop_last() =~= empty);
                } else {
                    assert(parts.drop_last() =~= empty);
                }
            },
            None => {
                if said(plan) is Some {
                    assert(parts.drop_last() =~= empty);
                }
            },
        }
    }
    assert(record::items_seen(structured, head) == Ok::<ObservationView, RecordError>(seen)) by {
        reveal_with_fuel(record::items_seen, 2);
        if parts.len() > 0 {
            assert(head.drop_last() =~= empty);
            assert(message.at("type"@) == JsonView::Str("message"@));
            assert(message.at("content"@) == JsonView::Array(parts));
        }
    }
    let calls = plan.tool_calls@;
    lemma_items(structured, head, calls, seen, calls.len() as int);
    assert(plan::call_items(calls).take(calls.len() as int) =~= plan::call_items(calls));
    assert(called(calls).take(calls.len() as int) =~= called(calls));
    assert(plan.output() =~= head + plan::call_items(calls));
    let document = plan.responses_document();
    assert(document.at("output"@) == JsonView::Array(plan.output()));
    assert(document.at("usage"@) == plan.usage.responses_view());
    let counts = plan.usage.responses_view();
    assert(counts.at("input_tokens"@) == json::int_view(plan.usage.input_tokens));
    assert(counts.at("output_tokens"@) == json::int_view(plan.usage.output_tokens));
}

/// Recording a Chat Completions document gives the content of its plan back.
/// Structured output is given back where the request asks for it and its text
/// reads back; text is where the request asks for none.
pub proof fn chat_document_gives_content_back(plan: ResponsePlan, structured: bool)
    requires
        plan.tool_calls@.len() <= u64::MAX,
        match plan.structured() {
            Some(v) => structured && codec::legible(v) && codec::survives(v, 127)
                && said(plan) is None,
            None => !structured,
        },
    ensures
        record::chat_seen(structured, plan.chat_document()) == Ok::<ObservationView, RecordError>(
            content(plan),
        ),
{
    lemma_chat_document(plan, structured);
    assert(record::calls_of(collected(plan.tool_calls@)) =~= called(plan.tool_calls@));
}

/// Recorded arguments are the planned ones, where the plan writes them as JSON
/// and their text reads back.
pub proof fn arguments_are_given_back(call: ToolCallPlan)
    requires
        call.raw_arguments is None,
        !call.custom,
        codec::legible(call.arguments@),
        codec::survives(call.arguments@, 127),
    ensures
        record::parsed_arguments(call.payload()) == call.arguments@,
{
}

} // verus!
