//! Responses as event streams.

use vstd::prelude::*;
use vstd::string::*;
use vstd::utf8::*;

use crate::headers::Headers;
use crate::json::{Json, JsonView, Members};
use crate::openai::failures;
use crate::openai::failures::{
    TranscriptBody, TranscriptEvent, TranscriptOutcome, TransportOptions,
};
use crate::openai::plan;
use crate::openai::plan::{ResponsePlan, ToolCallPlan};
use crate::openai::record::{ExchangeShape, ObservationView, RecordError, RecordedEndpoint};
use crate::openai::{record, replay};
use crate::reply;
use crate::reply::{Body, BodyView, Chunk, ChunkView, Content, Reply, ReplyView};
use crate::sse::EventView;
use crate::transport;
use crate::{codec, json, sse, text};

verus! {

/// The data of an event: its members and its type.
pub open spec fn typed(name: Seq<char>, members: Map<Seq<char>, JsonView>) -> JsonView {
    JsonView::Object(members.insert("type"@, JsonView::Str(name)))
}

/// An event named after the type of its data.
pub open spec fn named_event(data: JsonView) -> EventView {
    EventView { event: Some(data.text_at("type"@)), data: codec::json_text(data) }
}

/// The text of an event named after the type of its data.
pub open spec fn event_text(data: JsonView) -> Seq<char> {
    "event: "@ + data.text_at("type"@) + "\ndata: "@ + codec::json_text(data) + "\n\n"@
}

/// The text of an event without a name.
pub open spec fn chunk_text(data: JsonView) -> Seq<char> {
    "data: "@ + codec::json_text(data) + "\n\n"@
}

/// The response as it starts.
pub open spec fn started(plan: ResponsePlan) -> JsonView {
    JsonView::Object(
        map![
            "id"@ => JsonView::Str(plan.id@),
            "object"@ => JsonView::Str("response"@),
            "created"@ => json::int_view(plan.created),
            "model"@ => JsonView::Str(plan.model@),
            "status"@ => JsonView::Str("in_progress"@),
            "output"@ => JsonView::Array(Seq::empty())
        ],
    )
}

/// An event about an output item.
pub open spec fn item_event(name: Seq<char>, item: JsonView, index: int) -> JsonView {
    typed(name, map!["item"@ => item, "output_index"@ => json::int_view(index as u64)])
}

/// The id of the reasoning item.
pub open spec fn reasoning_id(plan: ResponsePlan) -> Seq<char> {
    "rs_"@ + plan.id@
}

/// The id of the message item.
pub open spec fn message_id(plan: ResponsePlan) -> Seq<char> {
    "msg_"@ + plan.id@
}

/// The reasoning item.
pub open spec fn reasoning_item(plan: ResponsePlan) -> JsonView {
    JsonView::Object(
        map![
            "id"@ => JsonView::Str(reasoning_id(plan)),
            "type"@ => JsonView::Str("reasoning"@),
            "summary"@ => JsonView::Array(Seq::empty())
        ],
    )
}

/// One thought.
pub open spec fn thought_event(plan: ResponsePlan, thought: Seq<char>) -> JsonView {
    typed(
        "response.reasoning.delta"@,
        map![
            "delta"@ => JsonView::Str(thought),
            "item_id"@ => JsonView::Str(reasoning_id(plan)),
            "output_index"@ => json::int_view(0)
        ],
    )
}

/// The events before the output: the response starts, and its thoughts go by.
pub open spec fn opening_events(plan: ResponsePlan) -> Seq<JsonView> {
    let thoughts = text::texts(plan.reasoning@);
    seq![
        typed("response.created"@, map!["response"@ => started(plan)]),
        typed("response.in_progress"@, map!["response"@ => started(plan)]),
        item_event("response.output_item.added"@, reasoning_item(plan), 0),
    ] + Seq::new(thoughts.len(), |i: int| thought_event(plan, thoughts[i])) + seq![
        item_event("response.output_item.done"@, reasoning_item(plan), 0),
    ]
}

/// Whether the stream has a message: there is text or structured output.
pub open spec fn has_message(plan: ResponsePlan) -> bool {
    plan.response_text@.len() > 0 || plan.structured_output is Some
}

/// An event about the content of the message.
pub open spec fn content_event(
    plan: ResponsePlan,
    name: Seq<char>,
    field: Seq<char>,
    value: JsonView,
) -> JsonView {
    typed(
        name,
        map![
            "content_index"@ => json::int_view(0),
            "item_id"@ => JsonView::Str(message_id(plan)),
            "output_index"@ => json::int_view(1),
            field => value
        ],
    )
}

/// The message item as it starts.
pub open spec fn started_message(plan: ResponsePlan) -> JsonView {
    JsonView::Object(
        map![
            "id"@ => JsonView::Str(message_id(plan)),
            "type"@ => JsonView::Str("message"@),
            "status"@ => JsonView::Str("in_progress"@),
            "content"@ => JsonView::Array(Seq::empty()),
            "role"@ => JsonView::Str("assistant"@)
        ],
    )
}

/// The message item with its whole content: clients send it back in the next
/// request.
pub open spec fn finished_message(plan: ResponsePlan) -> JsonView {
    JsonView::Object(
        map![
            "id"@ => JsonView::Str(message_id(plan)),
            "type"@ => JsonView::Str("message"@),
            "status"@ => JsonView::Str("completed"@),
            "role"@ => JsonView::Str("assistant"@),
            "content"@ => JsonView::Array(seq![plan::output_text(plan.chat_text())])
        ],
    )
}

/// The events of the message's text.
pub open spec fn text_events(plan: ResponsePlan) -> Seq<JsonView> {
    let said = plan.chat_text();
    if said.len() == 0 {
        Seq::empty()
    } else {
        seq![
            content_event(
                plan,
                "response.content_part.added"@,
                "part"@,
                plan::output_text(Seq::empty()),
            ),
            content_event(plan, "response.output_text.delta"@, "delta"@, JsonView::Str(said)),
            content_event(plan, "response.output_text.done"@, "text"@, JsonView::Str(said)),
            content_event(
                plan,
                "response.content_part.done"@,
                "part"@,
                plan::output_text(said),
            ),
        ]
    }
}

/// The events of the message.
pub open spec fn message_events(plan: ResponsePlan) -> Seq<JsonView> {
    if has_message(plan) {
        seq![item_event("response.output_item.added"@, started_message(plan), 1)] + text_events(
            plan,
        ) + seq![item_event("response.output_item.done"@, finished_message(plan), 1)]
    } else {
        Seq::empty()
    }
}

/// The member that carries a call's payload.
pub open spec fn payload_key(call: ToolCallPlan) -> Seq<char> {
    if call.custom {
        "input"@
    } else {
        "arguments"@
    }
}

/// The event that streams a call's payload.
pub open spec fn payload_delta(call: ToolCallPlan) -> Seq<char> {
    if call.custom {
        "response.custom_tool_call_input.delta"@
    } else {
        "response.function_call_arguments.delta"@
    }
}

/// The event that ends a call's payload.
pub open spec fn payload_done(call: ToolCallPlan) -> Seq<char> {
    if call.custom {
        "response.custom_tool_call_input.done"@
    } else {
        "response.function_call_arguments.done"@
    }
}

/// An event about the payload of a call.
pub open spec fn payload_event(
    call: ToolCallPlan,
    name: Seq<char>,
    field: Seq<char>,
    index: int,
) -> JsonView {
    typed(
        name,
        map![
            "item_id"@ => JsonView::Str(call.item_id()),
            field => JsonView::Str(call.payload()),
            "output_index"@ => json::int_view(index as u64)
        ],
    )
}

/// The events of a tool call: the item without its payload, the payload in one
/// piece, and the whole item.
pub open spec fn call_events(call: ToolCallPlan, index: int) -> Seq<JsonView> {
    seq![
        item_event(
            "response.output_item.added"@,
            JsonView::Object(
                call.item().insert(payload_key(call), JsonView::Str(Seq::empty())),
            ),
            index,
        ),
        payload_event(call, payload_delta(call), "delta"@, index),
        payload_event(call, payload_done(call), payload_key(call), index),
        item_event("response.output_item.done"@, JsonView::Object(call.item()), index),
    ]
}

/// Where the output items of the tool calls start.
pub open spec fn first_call_index(plan: ResponsePlan) -> int {
    if has_message(plan) {
        2
    } else {
        1
    }
}

/// The events of the first `n` tool calls.
pub open spec fn calls_events(plan: ResponsePlan, n: nat) -> Seq<JsonView>
    decreases n,
{
    if n == 0 {
        Seq::empty()
    } else {
        calls_events(plan, (n - 1) as nat) + call_events(
            plan.tool_calls@[n - 1],
            first_call_index(plan) + n - 1,
        )
    }
}

/// The name of the event that ends the stream.
pub open spec fn terminal_name(plan: ResponsePlan) -> Seq<char> {
    if plan.truncated {
        "response.incomplete"@
    } else {
        "response.completed"@
    }
}

/// The event that ends the stream: it carries the whole response.
pub open spec fn terminal_event(plan: ResponsePlan) -> JsonView {
    typed(terminal_name(plan), map!["response"@ => plan.responses_document()])
}

/// The data of every event of a response. A malformed stream has no end.
pub open spec fn responses_data(plan: ResponsePlan, malformed: bool) -> Seq<JsonView> {
    let body = opening_events(plan) + message_events(plan) + calls_events(
        plan,
        plan.tool_calls@.len(),
    );
    if malformed {
        body
    } else {
        body.push(terminal_event(plan))
    }
}

/// The text of each event.
pub open spec fn event_texts(data: Seq<JsonView>) -> Seq<Seq<char>> {
    Seq::new(data.len(), |i: int| event_text(data[i]))
}

/// The chunks of a stream: the texts up to the limit, each after the wait, and,
/// where the stream is malformed, a broken frame.
pub open spec fn stream_chunks(texts: Seq<Seq<char>>, transport: TransportOptions) -> Seq<
    ChunkView,
> {
    let n = match transport.close_after_chunks {
        Some(limit) if limit < texts.len() => limit as nat,
        _ => texts.len(),
    };
    let sent = Seq::new(
        n,
        |i: int| reply::text_chunk(transport.inter_event_delay_ms, texts[i]),
    );
    if transport.malformed_sse {
        sent.push(reply::text_chunk(0, "event: malformed\ndata: {"@))
    } else {
        sent
    }
}

/// Events named after the type of their data.
pub open spec fn named_events(data: Seq<JsonView>) -> Seq<EventView> {
    Seq::new(data.len(), |i: int| named_event(data[i]))
}

/// Whether the texts of all the values are legible.
pub open spec fn all_legible(data: Seq<JsonView>) -> bool {
    forall|i: int| 0 <= i < data.len() ==> codec::legible(#[trigger] data[i])
}

/// Whether the texts are those of the events, one each, and read back as these
/// events.
pub open spec fn sent_as(texts: Seq<Seq<char>>, events: Seq<EventView>) -> bool {
    &&& texts.len() == events.len()
    &&& forall|i: int| 0 <= i < texts.len() ==> #[trigger] texts[i] == sse::rendered(events[i])
    &&& sse::sse_events(encode_utf8(sse::rendered_all(events))) == Some(events)
}

/// What a recorded stream of a response shows: what its document shows, or, of a
/// stream that broke or a response that was cut off, that it never completed.
pub open spec fn expected_from_stream(
    plan: ResponsePlan,
    malformed: bool,
    structured: bool,
) -> Result<ObservationView, RecordError> {
    if malformed || plan.truncated {
        Err(RecordError::Unfinished)
    } else {
        record::responses_seen(structured, plan.responses_document())
    }
}

/// Whether a recorded stream of a response shows what is expected, whatever is
/// asked of its text. The event that completes a response has to be within what
/// a reader of JSON takes.
pub open spec fn shows_document(plan: ResponsePlan, malformed: bool) -> bool {
    let events = named_events(responses_data(plan, malformed));
    malformed || plan.truncated || codec::survives(terminal_event(plan), 127) ==> forall|
        structured: bool,
    | #[trigger]
        record::responses_stream_seen(structured, events) == expected_from_stream(
            plan,
            malformed,
            structured,
        )
}

/// The response that sends texts as a stream.
pub open spec fn stream_reply(texts: Seq<Seq<char>>, transport: TransportOptions) -> ReplyView {
    ReplyView {
        delay_ms: 0,
        status: 200,
        headers: map!["content-type"@ => "text/event-stream"@, "cache-control"@ => "no-cache"@],
        body: BodyView::Chunks(stream_chunks(texts, transport)),
    }
}

/// A chunk of a chat completion.
pub open spec fn chat_chunk_data(plan: ResponsePlan, choices: Seq<JsonView>) -> Map<
    Seq<char>,
    JsonView,
> {
    map![
        "id"@ => JsonView::Str("chatcmpl_"@ + plan.id@),
        "object"@ => JsonView::Str("chat.completion.chunk"@),
        "created"@ => json::int_view(plan.created),
        "model"@ => JsonView::Str(plan.model@),
        "choices"@ => JsonView::Array(choices)
    ]
}

/// A chunk that carries a delta.
pub open spec fn chat_delta(
    plan: ResponsePlan,
    delta: Map<Seq<char>, JsonView>,
    finish: JsonView,
) -> JsonView {
    JsonView::Object(
        chat_chunk_data(
            plan,
            seq![
                JsonView::Object(
                    map![
                        "index"@ => json::int_view(0),
                        "delta"@ => JsonView::Object(delta),
                        "finish_reason"@ => finish
                    ],
                ),
            ],
        ),
    )
}

/// A tool call in a chunk.
pub open spec fn chat_call(call: ToolCallPlan, index: int) -> JsonView {
    JsonView::Object(call.chat_item().insert("index"@, json::int_view(index as u64)))
}

/// The tool calls in a chunk.
pub open spec fn chat_calls(calls: Seq<ToolCallPlan>) -> Seq<JsonView> {
    Seq::new(calls.len(), |i: int| chat_call(calls[i], i))
}

/// The chunk that carries the token counts.
pub open spec fn chat_usage(plan: ResponsePlan) -> JsonView {
    JsonView::Object(
        chat_chunk_data(plan, Seq::empty()).insert("usage"@, plan.usage.chat_view()),
    )
}

/// The chunks in front of the end: the role, the content, the thoughts and the
/// tool calls.
pub open spec fn chat_body_data(plan: ResponsePlan) -> Seq<JsonView> {
    let role = seq![
        chat_delta(plan, map!["role"@ => JsonView::Str("assistant"@)], JsonView::Null),
    ];
    let content = if plan.chat_text().len() > 0 {
        seq![
            chat_delta(plan, map!["content"@ => JsonView::Str(plan.chat_text())], JsonView::Null),
        ]
    } else {
        Seq::empty()
    };
    let thoughts = text::texts(plan.reasoning@);
    let calls = if plan.tool_calls@.len() > 0 {
        seq![
            chat_delta(
                plan,
                map!["tool_calls"@ => JsonView::Array(chat_calls(plan.tool_calls@))],
                JsonView::Null,
            ),
        ]
    } else {
        Seq::empty()
    };
    role + content + Seq::new(
        thoughts.len(),
        |i: int|
            chat_delta(plan, map!["reasoning"@ => JsonView::Str(thoughts[i])], JsonView::Null),
    ) + calls
}

/// The data of every chunk of a chat completion. A malformed stream has no end.
pub open spec fn chat_data(
    plan: ResponsePlan,
    include_usage: bool,
    malformed: bool,
) -> Seq<JsonView> {
    let body = chat_body_data(plan);
    if malformed {
        body
    } else {
        let ended = body.push(
            chat_delta(plan, Map::empty(), JsonView::Str(plan.finish())),
        );
        if include_usage {
            ended.push(chat_usage(plan))
        } else {
            ended
        }
    }
}

/// The text of each chunk, and the end mark.
pub open spec fn chat_texts(
    plan: ResponsePlan,
    include_usage: bool,
    malformed: bool,
) -> Seq<Seq<char>> {
    let data = chat_data(plan, include_usage, malformed);
    let texts = Seq::new(data.len(), |i: int| chunk_text(data[i]));
    if malformed {
        texts
    } else {
        texts.push("data: [DONE]\n\n"@)
    }
}

/// An event without a name.
pub open spec fn chunk_event(data: JsonView) -> EventView {
    EventView { event: None, data: codec::json_text(data) }
}

/// The events of a chat completion: one for each chunk, and the end mark.
pub open spec fn chat_events(
    plan: ResponsePlan,
    include_usage: bool,
    malformed: bool,
) -> Seq<EventView> {
    let data = chat_data(plan, include_usage, malformed);
    let events = Seq::new(data.len(), |i: int| chunk_event(data[i]));
    if malformed {
        events
    } else {
        events.push(EventView { event: None, data: "[DONE]"@ })
    }
}

/// Whether no event but the last is the end mark.
pub open spec fn ends_once(events: Seq<EventView>) -> bool {
    forall|i: int| 0 <= i < events.len() - 1 ==> (#[trigger] events[i]).data != "[DONE]"@
}

/// What a recorded stream of a chat completion shows: what its document shows,
/// with the token counts where the stream carries them.
pub open spec fn expected_from_chunks(
    plan: ResponsePlan,
    include_usage: bool,
    structured: bool,
) -> Result<ObservationView, RecordError> {
    match record::chat_seen(structured, plan.chat_document()) {
        Ok(o) => Ok(
            ObservationView {
                usage: if include_usage {
                    o.usage
                } else {
                    None
                },
                ..o
            },
        ),
        Err(e) => Err(e),
    }
}

/// Whether a recorded stream of a chat completion shows what is expected,
/// whatever is asked of its text.
pub open spec fn shows_chat_document(plan: ResponsePlan, include_usage: bool) -> bool {
    forall|structured: bool| #[trigger]
        record::chat_stream_seen(structured, chat_events(plan, include_usage, false))
            == expected_from_chunks(plan, include_usage, structured)
}

/// Whether recording the whole stream of a chat completion, with its token counts,
/// gives what recording its document gives.
pub open spec fn chat_records_alike(plan: ResponsePlan) -> bool {
    forall|shape: ExchangeShape|
        shape.endpoint == RecordedEndpoint::ChatCompletions ==> #[trigger] record::stream_seen(
            shape,
            chat_events(plan, true, false),
        ) == record::body_seen(shape, plan.chat_document()) && record::body_seen(
            shape,
            plan.chat_document(),
        ) is Ok
}

/// The text of an event.
fn sse_event(event: &str, members: Members) -> (r: String)
    ensures
        r@ == event_text(typed(event@, members@)),
        codec::legible(typed(event@, members@)),
{
    let whole = Json::Object(members.with("type", Json::text(event)));
    let mut out = "event: ".to_owned();
    out.append(event);
    out.append("\ndata: ");
    out.append(codec::render(&whole).as_str());
    out.append("\n\n");
    assert(out@ =~= event_text(typed(event@, members@)));
    out
}

/// The text of a chunk.
fn chat_chunk(data: &Json) -> (r: String)
    ensures
        r@ == chunk_text(data@),
        codec::legible(data@),
{
    let mut out = "data: ".to_owned();
    out.append(codec::render(data).as_str());
    out.append("\n\n");
    assert(out@ =~= chunk_text(data@));
    out
}

/// Texts whose data is legible.
spec fn written(texts: Seq<String>, data: Seq<JsonView>) -> bool {
    &&& text::texts(texts) == event_texts(data)
    &&& all_legible(data)
}

/// Adds an event.
fn push(events: &mut Vec<String>, name: &str, members: Members, Ghost(data): Ghost<Seq<JsonView>>)
    requires
        written(old(events)@, data),
    ensures
        written(final(events)@, data.push(typed(name@, members@))),
{
    let ghost before = events@;
    let made = sse_event(name, members);
    events.push(made);
    proof {
        let now = data.push(typed(name@, members@));
        assert(text::texts(events@) =~= text::texts(before).push(made@));
        assert(event_texts(now) =~= event_texts(data).push(made@));
        assert forall|i: int| 0 <= i < now.len() implies codec::legible(#[trigger] now[i]) by {
            if i < data.len() {
                assert(codec::legible(data[i]));
            }
        }
    }
}

/// The response as it starts.
fn make_started(plan: &ResponsePlan) -> (r: Json)
    ensures
        r@ == started(*plan),
{
    Json::Object(
        Members::new().with("id", Json::text(plan.id.as_str())).with(
            "object",
            Json::text("response"),
        ).with("created", Json::uint(plan.created)).with(
            "model",
            Json::text(plan.model.as_str()),
        ).with("status", Json::text("in_progress")).with("output", json::no_items()),
    )
}

/// The members of an event about an output item.
fn make_item_event(item: Json, index: u64) -> (r: Members)
    ensures
        forall|name: Seq<char>| #[trigger]
            typed(name, r@) == item_event(name, item@, index as int),
{
    Members::new().with("item", item).with("output_index", Json::uint(index))
}

/// An id with a prefix.
fn prefixed(prefix: &str, id: &str) -> (r: String)
    ensures
        r@ == prefix@ + id@,
{
    let mut out = prefix.to_owned();
    out.append(id);
    out
}

/// The reasoning item.
fn make_reasoning(plan: &ResponsePlan) -> (r: Json)
    ensures
        r@ == reasoning_item(*plan),
{
    Json::Object(
        Members::new().with("id", Json::Str(prefixed("rs_", plan.id.as_str()))).with(
            "type",
            Json::text("reasoning"),
        ).with("summary", json::no_items()),
    )
}

/// Adds the events before the output.
fn push_opening(events: &mut Vec<String>, plan: &ResponsePlan)
    requires
        written(old(events)@, Seq::empty()),
    ensures
        written(final(events)@, opening_events(*plan)),
{
    let ghost none = Seq::<JsonView>::empty();
    let ghost thoughts = text::texts(plan.reasoning@);
    let ghost e0 = typed("response.created"@, map!["response"@ => started(*plan)]);
    let ghost e1 = typed("response.in_progress"@, map!["response"@ => started(*plan)]);
    let ghost e2 = item_event("response.output_item.added"@, reasoning_item(*plan), 0);
    push(
        events,
        "response.created",
        Members::new().with("response", make_started(plan)),
        Ghost(none),
    );
    push(
        events,
        "response.in_progress",
        Members::new().with("response", make_started(plan)),
        Ghost(none.push(e0)),
    );
    push(
        events,
        "response.output_item.added",
        make_item_event(make_reasoning(plan), 0),
        Ghost(none.push(e0).push(e1)),
    );
    let ghost head = seq![e0, e1, e2];
    assert(none.push(e0).push(e1).push(e2) =~= head);
    let ghost middle = Seq::new(thoughts.len(), |i: int| thought_event(*plan, thoughts[i]));
    assert(head + middle.take(0) =~= head);
    for i in 0..plan.reasoning.len()
        invariant
            thoughts == text::texts(plan.reasoning@),
            middle == Seq::new(thoughts.len(), |i: int| thought_event(*plan, thoughts[i])),
            written(events@, head + middle.take(i as int)),
    {
        let members = Members::new().with("delta", Json::text(plan.reasoning[i].as_str())).with(
            "item_id",
            Json::Str(prefixed("rs_", plan.id.as_str())),
        ).with("output_index", Json::uint(0));
        push(
            events,
            "response.reasoning.delta",
            members,
            Ghost(head + middle.take(i as int)),
        );
        assert((head + middle.take(i as int)).push(middle[i as int]) =~= head + middle.take(i + 1));
    }
    assert(middle.take(middle.len() as int) =~= middle);
    push(
        events,
        "response.output_item.done",
        make_item_event(make_reasoning(plan), 0),
        Ghost(head + middle),
    );
    assert((head + middle).push(
        item_event("response.output_item.done"@, reasoning_item(*plan), 0),
    ) =~= opening_events(*plan));
}

/// The members of an event about the content of the message.
fn make_content_event(plan: &ResponsePlan, field: &str, value: Json) -> (r: Members)
    ensures
        forall|name: Seq<char>| #[trigger]
            typed(name, r@) == content_event(*plan, name, field@, value@),
{
    Members::new().with("content_index", Json::uint(0)).with(
        "item_id",
        Json::Str(prefixed("msg_", plan.id.as_str())),
    ).with("output_index", Json::uint(1)).with(field, value)
}

/// The message item, as it starts or with its content.
fn make_message(plan: &ResponsePlan, said: Option<&str>) -> (r: Json)
    requires
        said matches Some(s) ==> s@ == plan.chat_text(),
    ensures
        said is None ==> r@ == started_message(*plan),
        said is Some ==> r@ == finished_message(*plan),
{
    let id = prefixed("msg_", plan.id.as_str());
    match said {
        None => Json::Object(
            Members::new().with("id", Json::Str(id)).with("type", Json::text("message")).with(
                "status",
                Json::text("in_progress"),
            ).with("content", json::no_items()).with("role", Json::text("assistant")),
        ),
        Some(s) => Json::Object(
            Members::new().with("id", Json::Str(id)).with("type", Json::text("message")).with(
                "status",
                Json::text("completed"),
            ).with("role", Json::text("assistant")).with(
                "content",
                json::one_item(plan::make_output_text(s)),
            ),
        ),
    }
}

/// Adds the events of the message's text.
fn push_text(
    events: &mut Vec<String>,
    plan: &ResponsePlan,
    said: &str,
    Ghost(data): Ghost<Seq<JsonView>>,
)
    requires
        written(old(events)@, data),
        said@ == plan.chat_text(),
    ensures
        written(final(events)@, data + text_events(*plan)),
{
    if said.is_empty() {
        assert(data + text_events(*plan) =~= data);
        return;
    }
    proof {
        reveal_strlit("");
        assert(""@ =~= Seq::empty());
    }
    let ghost all = text_events(*plan);
    push(
        events,
        "response.content_part.added",
        make_content_event(plan, "part", plan::make_output_text("")),
        Ghost(data),
    );
    push(
        events,
        "response.output_text.delta",
        make_content_event(plan, "delta", Json::text(said)),
        Ghost(data.push(all[0])),
    );
    push(
        events,
        "response.output_text.done",
        make_content_event(plan, "text", Json::text(said)),
        Ghost(data.push(all[0]).push(all[1])),
    );
    push(
        events,
        "response.content_part.done",
        make_content_event(plan, "part", plan::make_output_text(said)),
        Ghost(data.push(all[0]).push(all[1]).push(all[2])),
    );
    assert(data.push(all[0]).push(all[1]).push(all[2]).push(all[3]) =~= data + all);
}

/// Adds the events of the message.
fn push_message(events: &mut Vec<String>, plan: &ResponsePlan, Ghost(data): Ghost<Seq<JsonView>>)
    requires
        written(old(events)@, data),
        has_message(*plan),
    ensures
        written(final(events)@, data + message_events(*plan)),
{
    let said = plan.chat_content();
    let ghost first = item_event("response.output_item.added"@, started_message(*plan), 1);
    let ghost last = item_event("response.output_item.done"@, finished_message(*plan), 1);
    push(
        events,
        "response.output_item.added",
        make_item_event(make_message(plan, None), 1),
        Ghost(data),
    );
    push_text(events, plan, said.as_str(), Ghost(data.push(first)));
    push(
        events,
        "response.output_item.done",
        make_item_event(make_message(plan, Some(said.as_str())), 1),
        Ghost(data.push(first) + text_events(*plan)),
    );
    assert((data.push(first) + text_events(*plan)).push(last) =~= data + message_events(*plan));
}

/// Adds the events of a tool call.
fn push_call(
    events: &mut Vec<String>,
    call: &ToolCallPlan,
    index: u64,
    Ghost(data): Ghost<Seq<JsonView>>,
)
    requires
        written(old(events)@, data),
    ensures
        written(final(events)@, data + call_events(*call, index as int)),
{
    let (key, delta, done) = if call.custom {
        (
            "input",
            "response.custom_tool_call_input.delta",
            "response.custom_tool_call_input.done",
        )
    } else {
        (
            "arguments",
            "response.function_call_arguments.delta",
            "response.function_call_arguments.done",
        )
    };
    proof {
        reveal_strlit("");
        assert(""@ =~= Seq::empty());
    }
    let ghost all = call_events(*call, index as int);
    let payload = ResponsePlan::tool_call_arguments_text(call);
    let item_id = call.make_item_id();
    let added = call.make_item().with(key, Json::text(""));
    push(
        events,
        "response.output_item.added",
        make_item_event(Json::Object(added), index),
        Ghost(data),
    );
    push(
        events,
        delta,
        Members::new().with("item_id", Json::text(item_id.as_str())).with(
            "delta",
            Json::text(payload.as_str()),
        ).with("output_index", Json::uint(index)),
        Ghost(data.push(all[0])),
    );
    push(
        events,
        done,
        Members::new().with("item_id", Json::text(item_id.as_str())).with(
            key,
            Json::text(payload.as_str()),
        ).with("output_index", Json::uint(index)),
        Ghost(data.push(all[0]).push(all[1])),
    );
    push(
        events,
        "response.output_item.done",
        make_item_event(ResponsePlan::responses_tool_call_item(call), index),
        Ghost(data.push(all[0]).push(all[1]).push(all[2])),
    );
    assert(data.push(all[0]).push(all[1]).push(all[2]).push(all[3]) =~= data + all);
}

/// The texts of the events of a response.
fn responses_texts(plan: &ResponsePlan, malformed: bool) -> (r: Vec<String>)
    requires
        plan.usage.fits(),
        plan.tool_calls@.len() < u64::MAX - 2,
    ensures
        written(r@, responses_data(*plan, malformed)),
{
    let mut events: Vec<String> = Vec::new();
    assert(text::texts(events@) =~= event_texts(Seq::empty()));
    push_opening(&mut events, plan);
    let ghost opening = opening_events(*plan);
    let message = !plan.response_text.as_str().is_empty() || plan.structured_output.is_some();
    if message {
        push_message(&mut events, plan, Ghost(opening));
    } else {
        assert(opening + message_events(*plan) =~= opening);
    }
    let first: u64 = if message {
        2
    } else {
        1
    };
    let ghost head = opening + message_events(*plan);
    assert(head + calls_events(*plan, 0) =~= head);
    for i in 0..plan.tool_calls.len()
        invariant
            plan.tool_calls@.len() < u64::MAX - 2,
            first == first_call_index(*plan),
            first <= 2,
            written(events@, head + calls_events(*plan, i as nat)),
    {
        let index: u64 = first + i as u64;
        push_call(
            &mut events,
            &plan.tool_calls[i],
            index,
            Ghost(head + calls_events(*plan, i as nat)),
        );
        assert(head + calls_events(*plan, i as nat) + call_events(
            plan.tool_calls@[i as int],
            index as int,
        ) =~= head + calls_events(*plan, (i + 1) as nat));
    }
    if !malformed {
        let ghost body = head + calls_events(*plan, plan.tool_calls@.len());
        let terminal = if plan.truncated {
            "response.incomplete"
        } else {
            "response.completed"
        };
        push(
            &mut events,
            terminal,
            Members::new().with("response", plan.responses_json()),
            Ghost(body),
        );
    }
    events
}

/// Sends texts as a stream.
fn stream_response(events: Vec<String>, transport: TransportOptions) -> (r: Reply)
    ensures
        r@ == stream_reply(text::texts(events@), transport),
{
    let ghost all = text::texts(events@);
    let limit: usize = match transport.close_after_chunks {
        Some(n) => if n < events.len() {
            n
        } else {
            events.len()
        },
        None => events.len(),
    };
    let mut chunks: Vec<Chunk> = Vec::new();
    for i in 0..limit
        invariant
            all == text::texts(events@),
            limit <= events.len(),
            reply::chunks_view(chunks@) =~= Seq::new(
                i as nat,
                |j: int| reply::text_chunk(transport.inter_event_delay_ms, all[j]),
            ),
    {
        let ghost before = chunks@;
        let chunk = Chunk {
            delay_ms: transport.inter_event_delay_ms,
            content: Content::Text(events[i].clone()),
        };
        chunks.push(chunk);
        assert(reply::chunks_view(chunks@) =~= reply::chunks_view(before).push(chunk@));
    }
    if transport.malformed_sse {
        let ghost before = chunks@;
        let chunk = Chunk {
            delay_ms: 0,
            content: Content::Text("event: malformed\ndata: {".to_owned()),
        };
        chunks.push(chunk);
        assert(reply::chunks_view(chunks@) =~= reply::chunks_view(before).push(chunk@));
    }
    assert(reply::chunks_view(chunks@) =~= stream_chunks(all, transport));
    let mut headers = Headers::new();
    headers.set("content-type", "text/event-stream");
    headers.set("cache-control", "no-cache");
    assert(headers@ =~= stream_reply(all, transport).headers);
    Reply { delay_ms: 0, status: 200, headers, body: Body::Chunks(chunks) }
}

/// Streams a response. Recording the stream shows what recording the document
/// shows.
pub fn responses_sse_response(plan: &ResponsePlan, transport: TransportOptions) -> (r: Reply)
    requires
        plan.usage.fits(),
        plan.tool_calls@.len() < u64::MAX - 2,
    ensures
        r@ == stream_reply(event_texts(responses_data(*plan, transport.malformed_sse)), transport),
        sent_as(
            event_texts(responses_data(*plan, transport.malformed_sse)),
            named_events(responses_data(*plan, transport.malformed_sse)),
        ),
        shows_document(*plan, transport.malformed_sse),
{
    let events = responses_texts(plan, transport.malformed_sse);
    proof {
        replay::lemma_responses_stream(*plan, transport.malformed_sse);
    }
    stream_response(events, transport)
}

/// Texts of chunks whose data is legible.
spec fn chunked(texts: Seq<String>, data: Seq<JsonView>) -> bool {
    &&& text::texts(texts) == Seq::new(data.len(), |i: int| chunk_text(data[i]))
    &&& all_legible(data)
}

/// Adds a chunk.
fn push_chunk(events: &mut Vec<String>, chunk: Json, Ghost(data): Ghost<Seq<JsonView>>)
    requires
        chunked(old(events)@, data),
    ensures
        chunked(final(events)@, data.push(chunk@)),
{
    let ghost before = events@;
    let made = chat_chunk(&chunk);
    events.push(made);
    proof {
        let now = data.push(chunk@);
        assert(text::texts(events@) =~= text::texts(before).push(made@));
        assert(Seq::new(now.len(), |i: int| chunk_text(now[i])) =~= Seq::new(
            data.len(),
            |i: int| chunk_text(data[i]),
        ).push(made@));
        assert forall|i: int| 0 <= i < now.len() implies codec::legible(#[trigger] now[i]) by {
            if i < data.len() {
                assert(codec::legible(data[i]));
            }
        }
    }
}

/// A chunk of a chat completion.
fn make_chunk(plan: &ResponsePlan, choices: Json) -> (r: Members)
    ensures
        choices@ matches JsonView::Array(items) ==> r@ == chat_chunk_data(*plan, items),
{
    Members::new().with("id", Json::Str(prefixed("chatcmpl_", plan.id.as_str()))).with(
        "object",
        Json::text("chat.completion.chunk"),
    ).with("created", Json::uint(plan.created)).with(
        "model",
        Json::text(plan.model.as_str()),
    ).with("choices", choices)
}

/// A chunk that carries a delta.
fn make_chat_delta(plan: &ResponsePlan, delta: Members, finish: Json) -> (r: Json)
    ensures
        r@ == chat_delta(*plan, delta@, finish@),
{
    let choice = Members::new().with("index", Json::uint(0)).with(
        "delta",
        Json::Object(delta),
    ).with("finish_reason", finish);
    Json::Object(make_chunk(plan, json::one_item(Json::Object(choice))))
}

/// The tool calls in a chunk.
fn make_chat_calls(calls: &Vec<ToolCallPlan>) -> (r: Json)
    ensures
        r@ == JsonView::Array(chat_calls(calls@)),
{
    let ghost all = chat_calls(calls@);
    let mut items: Vec<Json> = Vec::new();
    for i in 0..calls.len()
        invariant
            all == chat_calls(calls@),
            json::items_view(items@) =~= all.take(i as int),
    {
        let ghost before = items@;
        let item = Json::Object(calls[i].make_chat_item().with("index", Json::uint(i as u64)));
        items.push(item);
        assert(json::items_view(items@) =~= json::items_view(before).push(item@));
    }
    assert(json::items_view(items@) =~= all);
    Json::Array(items)
}

/// Adds the chunks in front of the end.
fn push_chat_body(events: &mut Vec<String>, plan: &ResponsePlan)
    requires
        chunked(old(events)@, Seq::empty()),
    ensures
        chunked(final(events)@, chat_body_data(*plan)),
{
    let ghost none = Seq::<JsonView>::empty();
    let ghost role = seq![
        chat_delta(*plan, map!["role"@ => JsonView::Str("assistant"@)], JsonView::Null),
    ];
    push_chunk(
        events,
        make_chat_delta(
            plan,
            Members::new().with("role", Json::text("assistant")),
            Json::Null,
        ),
        Ghost(none),
    );
    assert(none.push(role[0]) =~= role);
    let content = plan.chat_content();
    let ghost said = if plan.chat_text().len() > 0 {
        seq![
            chat_delta(*plan, map!["content"@ => JsonView::Str(plan.chat_text())], JsonView::Null),
        ]
    } else {
        Seq::empty()
    };
    if !content.as_str().is_empty() {
        push_chunk(
            events,
            make_chat_delta(
                plan,
                Members::new().with("content", Json::text(content.as_str())),
                Json::Null,
            ),
            Ghost(role),
        );
        assert(role.push(said[0]) =~= role + said);
    } else {
        assert(role + said =~= role);
    }
    let ghost thoughts = text::texts(plan.reasoning@);
    let ghost middle = Seq::new(
        thoughts.len(),
        |i: int|
            chat_delta(*plan, map!["reasoning"@ => JsonView::Str(thoughts[i])], JsonView::Null),
    );
    let ghost head = role + said;
    assert(head + middle.take(0) =~= head);
    for i in 0..plan.reasoning.len()
        invariant
            thoughts == text::texts(plan.reasoning@),
            middle == Seq::new(
                thoughts.len(),
                |i: int|
                    chat_delta(
                        *plan,
                        map!["reasoning"@ => JsonView::Str(thoughts[i])],
                        JsonView::Null,
                    ),
            ),
            chunked(events@, head + middle.take(i as int)),
    {
        push_chunk(
            events,
            make_chat_delta(
                plan,
                Members::new().with("reasoning", Json::text(plan.reasoning[i].as_str())),
                Json::Null,
            ),
            Ghost(head + middle.take(i as int)),
        );
        assert((head + middle.take(i as int)).push(middle[i as int]) =~= head + middle.take(i + 1));
    }
    assert(middle.take(middle.len() as int) =~= middle);
    if plan.tool_calls.len() > 0 {
        push_chunk(
            events,
            make_chat_delta(
                plan,
                Members::new().with("tool_calls", make_chat_calls(&plan.tool_calls)),
                Json::Null,
            ),
            Ghost(head + middle),
        );
    }
    assert(chunked(events@, chat_body_data(*plan))) by {
        if plan.tool_calls@.len() > 0 {
            assert((head + middle).push(
                chat_delta(
                    *plan,
                    map!["tool_calls"@ => JsonView::Array(chat_calls(plan.tool_calls@))],
                    JsonView::Null,
                ),
            ) =~= chat_body_data(*plan));
        } else {
            assert(head + middle =~= chat_body_data(*plan));
        }
    }
}

/// The texts of the chunks of a chat completion.
fn chat_chunks(plan: &ResponsePlan, include_usage: bool, malformed: bool) -> (r: Vec<String>)
    requires
        plan.usage.fits(),
    ensures
        text::texts(r@) == chat_texts(*plan, include_usage, malformed),
        all_legible(chat_data(*plan, include_usage, malformed)),
{
    let mut events: Vec<String> = Vec::new();
    assert(text::texts(events@) =~= Seq::new(0, |i: int| chunk_text(Seq::empty()[i])));
    push_chat_body(&mut events, plan);
    let ghost data = chat_data(*plan, include_usage, malformed);
    if !malformed {
        let ghost body = chat_body_data(*plan);
        let ghost end = chat_delta(*plan, Map::empty(), JsonView::Str(plan.finish()));
        push_chunk(
            &mut events,
            make_chat_delta(plan, Members::new(), Json::text(plan.chat_finish_reason())),
            Ghost(body),
        );
        if include_usage {
            let chunk = make_chunk(plan, json::no_items()).with(
                "usage",
                plan.usage.chat_completions_json(),
            );
            push_chunk(&mut events, Json::Object(chunk), Ghost(body.push(end)));
        }
        assert(chunked(events@, data));
        let ghost before = events@;
        let done = "data: [DONE]\n\n".to_owned();
        events.push(done);
        assert(text::texts(events@) =~= text::texts(before).push(done@));
    }
    events
}

/// Streams a chat completion. Recording the stream shows what recording the
/// document shows.
pub fn chat_sse_response(
    plan: &ResponsePlan,
    include_usage: bool,
    transport: TransportOptions,
) -> (r: Reply)
    requires
        plan.usage.fits(),
    ensures
        r@ == stream_reply(
            chat_texts(*plan, include_usage, transport.malformed_sse),
            transport,
        ),
        sent_as(
            chat_texts(*plan, include_usage, transport.malformed_sse),
            chat_events(*plan, include_usage, transport.malformed_sse),
        ),
        all_legible(chat_data(*plan, include_usage, transport.malformed_sse)),
        ends_once(chat_events(*plan, include_usage, transport.malformed_sse)),
        !transport.malformed_sse ==> shows_chat_document(*plan, include_usage),
        !transport.malformed_sse && include_usage ==> chat_records_alike(*plan),
{
    let events = chat_chunks(plan, include_usage, transport.malformed_sse);
    proof {
        replay::lemma_chat_sent(*plan, include_usage, transport.malformed_sse);
        replay::lemma_chat_ends(*plan, include_usage, transport.malformed_sse);
        if !transport.malformed_sse {
            assert(plan.tool_calls@.len() == plan.tool_calls.len());
            replay::lemma_chat_stream(*plan, include_usage);
            if include_usage {
                assert forall|shape: ExchangeShape|
                    shape.endpoint == RecordedEndpoint::ChatCompletions implies
                    #[trigger] record::stream_seen(shape, chat_events(*plan, true, false))
                    == record::body_seen(shape, plan.chat_document()) && record::body_seen(
                    shape,
                    plan.chat_document(),
                ) is Ok by {
                    replay::chat_recordings_agree(*plan, shape);
                }
            }
        }
    }
    stream_response(events, transport)
}

/// The response that a recorded exchange gives.
pub open spec fn transcript_reply(outcome: TranscriptOutcome) -> ReplyView {
    let (usual, body) = match outcome.body {
        TranscriptBody::Json(v) => ("application/json"@, BodyView::Whole(codec::json_text(v@))),
        TranscriptBody::Events(events) => (
            "text/event-stream"@,
            BodyView::Chunks(reply::event_chunks(failures::transcript_view(events@))),
        ),
    };
    ReplyView {
        delay_ms: 0,
        status: outcome.status,
        headers: transport::with_content_type(
            Map::empty(),
            match outcome.content_type {
                Some(s) => Some(s@),
                None => Some(usual),
            },
        ),
        body,
    }
}

/// A response with a status, a content type where it is valid, and a body.
fn build_response(status: u16, content_type: &str, body: Body) -> (r: Reply)
    ensures
        r@ == (ReplyView {
            delay_ms: 0,
            status,
            headers: transport::with_content_type(Map::empty(), Some(content_type@)),
            body: body@,
        }),
{
    let mut headers = Headers::new();
    transport::set_content_type(&mut headers, &Some(content_type.to_owned()));
    Reply { delay_ms: 0, status, headers, body }
}

/// Writes a recorded event. Data of several lines becomes one `data:` line per
/// line, which is how events carry line feeds.
pub fn render_transcript_event(event: &TranscriptEvent) -> (r: String)
    ensures
        r@ == sse::rendered(event@),
{
    let name = match &event.event {
        Some(name) => Some(name.as_str()),
        None => None,
    };
    sse::render(name, event.data.as_str())
}

/// Renders a recorded exchange back as captured: a JSON body at once, events one
/// chunk each, so that a client sees the events one by one as the provider sent
/// them.
pub fn transcript_response(outcome: TranscriptOutcome) -> (r: Reply)
    ensures
        r@ == transcript_reply(outcome),
        outcome.body matches TranscriptBody::Json(v) ==> codec::legible(v@),
{
    let TranscriptOutcome { status, content_type, body } = outcome;
    match body {
        TranscriptBody::Json(v) => {
            let kind = match content_type {
                Some(s) => s,
                None => "application/json".to_owned(),
            };
            build_response(status, kind.as_str(), Body::Whole(codec::render(&v)))
        },
        TranscriptBody::Events(events) => {
            let kind = match content_type {
                Some(s) => s,
                None => "text/event-stream".to_owned(),
            };
            let ghost all = failures::transcript_view(events@);
            let mut chunks: Vec<Chunk> = Vec::new();
            for i in 0..events.len()
                invariant
                    all == failures::transcript_view(events@),
                    reply::chunks_view(chunks@) =~= reply::event_chunks(all).take(i as int),
            {
                let ghost before = chunks@;
                let chunk = Chunk {
                    delay_ms: 0,
                    content: Content::Text(render_transcript_event(&events[i])),
                };
                chunks.push(chunk);
                assert(reply::chunks_view(chunks@) =~= reply::chunks_view(before).push(chunk@));
            }
            assert(reply::chunks_view(chunks@) =~= reply::event_chunks(all));
            build_response(status, kind.as_str(), Body::Chunks(chunks))
        },
    }
}

} // verus!
