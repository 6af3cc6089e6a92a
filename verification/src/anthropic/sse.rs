//! The event stream of a response plan.

use vstd::prelude::*;
use vstd::string::*;
use vstd::utf8::*;

use crate::anthropic::engine::plan;
use crate::anthropic::engine::plan::ResponsePlan;
use crate::anthropic::engine::scenario;
use crate::anthropic::engine::scenario::{SuccessScript, TranscriptEvent};
use crate::anthropic::{names, record};
use crate::headers::Headers;
use crate::json::{Json, JsonView, Members};
use crate::reply;
use crate::reply::{Body, BodyView, Chunk, ChunkView, Content, Reply, ReplyView};
use crate::sse::EventView;
use crate::{codec, json, sse, text};

verus! {

broadcast use vstd::std_specs::btree::group_btree_axioms;

/// The data of an event: its members and its type.
pub open spec fn typed(name: Seq<char>, members: Map<Seq<char>, JsonView>) -> JsonView {
    JsonView::Object(members.insert("type"@, JsonView::Str(name)))
}

/// The event that carries data: it is named after the data's type.
pub open spec fn as_event(data: JsonView) -> EventView {
    EventView { event: Some(data.text_at("type"@)), data: codec::json_text(data) }
}

/// The events that carry data.
pub open spec fn as_events(data: Seq<JsonView>) -> Seq<EventView> {
    Seq::new(data.len(), |i: int| as_event(data[i]))
}

/// The message as it starts: without content, stop and output tokens.
pub open spec fn started_message(plan: ResponsePlan) -> Map<Seq<char>, JsonView> {
    plan.message().insert("content"@, JsonView::Array(Seq::empty())).insert(
        "stop_reason"@,
        JsonView::Null,
    ).insert("stop_sequence"@, JsonView::Null).insert(
        "usage"@,
        JsonView::Object(plan.usage@.insert("output_tokens"@, json::int_view(0))),
    ).remove("stop_details"@)
}

/// The members of a block.
pub open spec fn block_members(block: JsonView) -> Map<Seq<char>, JsonView> {
    match block {
        JsonView::Object(m) => m,
        _ => Map::empty(),
    }
}

/// Whether a block calls a tool, of the client's or of the server's.
pub open spec fn calls_tool(block: JsonView) -> bool {
    block.text_at("type"@) == "tool_use"@ || block.text_at("type"@) == "server_tool_use"@
}

/// A block as it starts: without what its deltas will add.
pub open spec fn started_block(block: JsonView) -> JsonView {
    let kind = block.text_at("type"@);
    let members = block_members(block);
    if kind == "text"@ {
        JsonView::Object(members.insert("text"@, JsonView::Str(Seq::empty())))
    } else if kind == "thinking"@ {
        JsonView::Object(
            members.insert("thinking"@, JsonView::Str(Seq::empty())).remove("signature"@),
        )
    } else if calls_tool(block) {
        JsonView::Object(members.insert("input"@, JsonView::Object(Map::empty())))
    } else {
        block
    }
}

/// A delta that adds a value under a name.
pub open spec fn delta(kind: Seq<char>, field: Seq<char>, value: JsonView) -> JsonView {
    JsonView::Object(map!["type"@ => JsonView::Str(kind), field => value])
}

/// What a tool call's input streams as.
pub open spec fn streamed_input(block: JsonView, raw: Option<Seq<char>>) -> Seq<char> {
    match raw {
        Some(s) => s,
        None => codec::json_text(block.at("input"@)),
    }
}

/// The deltas of a block.
pub open spec fn block_deltas(block: JsonView, raw: Option<Seq<char>>) -> Seq<JsonView> {
    let kind = block.text_at("type"@);
    if kind == "text"@ {
        seq![delta("text_delta"@, "text"@, block.at("text"@))]
    } else if kind == "thinking"@ {
        seq![
            delta("thinking_delta"@, "thinking"@, block.at("thinking"@)),
            delta("signature_delta"@, "signature"@, block.at("signature"@)),
        ]
    } else if calls_tool(block) {
        seq![
            delta(
                "input_json_delta"@,
                "partial_json"@,
                JsonView::Str(streamed_input(block, raw)),
            ),
        ]
    } else {
        Seq::empty()
    }
}

/// The data of the event that starts a block.
pub open spec fn block_start(index: int, block: JsonView) -> JsonView {
    typed(
        "content_block_start"@,
        map!["index"@ => json::int_view(index as u64), "content_block"@ => started_block(block)],
    )
}

/// The data of an event that adds to a block.
pub open spec fn block_growth(index: int, delta: JsonView) -> JsonView {
    typed(
        "content_block_delta"@,
        map!["index"@ => json::int_view(index as u64), "delta"@ => delta],
    )
}

/// The data of the event that closes a block.
pub open spec fn block_stop(index: int) -> JsonView {
    typed("content_block_stop"@, map!["index"@ => json::int_view(index as u64)])
}

/// The data of the events of one block.
pub open spec fn block_data(index: int, block: JsonView, raw: Option<Seq<char>>) -> Seq<JsonView> {
    let deltas = block_deltas(block, raw);
    seq![block_start(index, block)] + Seq::new(
        deltas.len(),
        |i: int| block_growth(index, deltas[i]),
    ) + seq![block_stop(index)]
}

/// The data of the events of the first `n` blocks.
pub open spec fn blocks_data(plan: ResponsePlan, n: nat) -> Seq<JsonView>
    decreases n,
{
    if n == 0 {
        Seq::empty()
    } else {
        blocks_data(plan, (n - 1) as nat) + block_data(
            n - 1,
            plan.blocks()[n - 1],
            plan::raw_at(plan.raw_arguments@, n - 1),
        )
    }
}

/// The data of the event that starts the message.
pub open spec fn start_data(plan: ResponsePlan) -> JsonView {
    typed("message_start"@, map!["message"@ => JsonView::Object(started_message(plan))])
}

/// What the message's update brings.
pub open spec fn stop_members(plan: ResponsePlan) -> Map<Seq<char>, JsonView> {
    let core = map![
        "stop_reason"@ => JsonView::Str(plan.stop_reason@),
        "stop_sequence"@ => plan::opt_text_json(text::opt_text(plan.stop_sequence))
    ];
    match plan.details() {
        Some(d) => core.insert("stop_details"@, d),
        None => core,
    }
}

/// The data of the event that updates the message.
pub open spec fn update_data(plan: ResponsePlan) -> JsonView {
    typed(
        "message_delta"@,
        map![
            "delta"@ => JsonView::Object(stop_members(plan)),
            "usage"@ => JsonView::Object(
                map!["output_tokens"@ => json::int_view(plan.usage.output_tokens)],
            )
        ],
    )
}

/// The data of the event that stops the message.
pub open spec fn stop_data() -> JsonView {
    typed("message_stop"@, Map::empty())
}

/// The data of every event of a response.
pub open spec fn stream_data(plan: ResponsePlan) -> Seq<JsonView> {
    seq![start_data(plan)] + blocks_data(plan, plan.blocks().len()) + seq![
        update_data(plan),
        stop_data(),
    ]
}

/// Whether the deltas of a block rebuild it: what they carry is text, and tool
/// input is an object that streams as itself.
pub open spec fn block_streams(block: JsonView, raw: Option<Seq<char>>) -> bool {
    let kind = block.text_at("type"@);
    &&& block is Object
    &&& kind == "text"@ ==> block.at("text"@) is Str
    &&& kind == "thinking"@ ==> block.at("thinking"@) is Str && block.at("signature"@) is Str
    &&& calls_tool(block) ==> block.at("input"@) is Object && raw is None && codec::survives(
        block.at("input"@),
        127,
    )
}

/// Whether the stream of a plan carries the whole message: every block streams,
/// no event is beyond what a reader of JSON takes, and the extra token counts
/// give no other number of output tokens.
pub open spec fn stream_is_faithful(plan: ResponsePlan) -> bool {
    &&& plan.usage@["output_tokens"@] == json::int_view(plan.usage.output_tokens)
    &&& forall|i: int|
        0 <= i < plan.blocks().len() ==> block_streams(
            #[trigger] plan.blocks()[i],
            plan::raw_at(plan.raw_arguments@, i),
        )
    &&& forall|i: int|
        0 <= i < stream_data(plan).len() ==> codec::survives(#[trigger] stream_data(plan)[i], 127)
}

/// Whether the texts that the stream of a plan is made of are legible.
pub open spec fn texts_legible(plan: ResponsePlan) -> bool {
    &&& forall|i: int|
        0 <= i < stream_data(plan).len() ==> codec::legible(#[trigger] stream_data(plan)[i])
    &&& forall|i: int|
        0 <= i < plan.blocks().len() && calls_tool(plan.blocks()[i]) && plan::raw_at(
            plan.raw_arguments@,
            i,
        ) is None ==> codec::legible((#[trigger] plan.blocks()[i]).at("input"@))
}

/// Events whose data is legible.
spec fn written(events: Seq<TranscriptEvent>, data: Seq<JsonView>) -> bool {
    &&& scenario::transcript_view(events) == as_events(data)
    &&& forall|i: int| 0 <= i < data.len() ==> codec::legible(#[trigger] data[i])
}

/// Writes one event.
fn push(events: &mut Vec<TranscriptEvent>, name: &str, members: Members, Ghost(data): Ghost<
    Seq<JsonView>,
>)
    requires
        written(old(events)@, data),
    ensures
        written(final(events)@, data.push(typed(name@, members@))),
{
    let mut members = members;
    members.set("type", Json::text(name));
    let whole = Json::Object(members);
    let event = TranscriptEvent { event: Some(name.to_owned()), data: codec::render(&whole) };
    let ghost before = events@;
    events.push(event);
    proof {
        let now = data.push(whole@);
        assert(event@ =~= as_event(whole@));
        assert(as_events(now) =~= as_events(data).push(as_event(whole@)));
        assert(scenario::transcript_view(events@) =~= scenario::transcript_view(before).push(
            event@,
        ));
        assert forall|i: int| 0 <= i < now.len() implies codec::legible(#[trigger] now[i]) by {
            if i < data.len() {
                assert(codec::legible(data[i]));
            }
        }
    }
}

/// A member with an index.
fn indexed(index: usize) -> (r: Members)
    ensures
        r@ == map!["index"@ => json::int_view(index as u64)],
{
    let mut m = Members::new();
    m.set("index", Json::uint(index as u64));
    m
}

/// A delta that adds a value under a name.
fn make_delta(kind: &str, field: &str, value: Json) -> (r: Json)
    ensures
        r@ == delta(kind@, field@, value@),
{
    let mut m = Members::new();
    m.set("type", Json::text(kind));
    m.set(field, value);
    Json::Object(m)
}

/// A block as it starts.
fn start_of(block: &Json) -> (r: Json)
    ensures
        r@ == started_block(block@),
{
    let kind = block.text_at("type");
    proof {
        reveal_strlit("");
        reveal_strlit("text");
        reveal_strlit("thinking");
        reveal_strlit("tool_use");
        reveal_strlit("server_tool_use");
        assert(""@ =~= Seq::empty());
    }
    match block {
        Json::Object(members) => {
            let mut m = members.copy();
            if text::same(kind, "text") {
                m.set("text", Json::text(""));
            } else if text::same(kind, "thinking") {
                m.set("thinking", Json::text(""));
                m.remove("signature");
            } else if text::same(kind, "tool_use") || text::same(kind, "server_tool_use") {
                m.set("input", Json::Object(Members::new()));
            }
            Json::Object(m)
        },
        other => other.copy(),
    }
}

/// The deltas of a block.
fn deltas_of(block: &Json, raw: Option<&String>) -> (r: Vec<Json>)
    ensures
        json::items_view(r@) == block_deltas(
            block@,
            match raw {
                Some(s) => Some(s@),
                None => None,
            },
        ),
        calls_tool(block@) && raw is None ==> codec::legible(block@.at("input"@)),
{
    let kind = block.text_at("type");
    let ghost given = match raw {
        Some(s) => Some(s@),
        None => None,
    };
    proof {
        names::delta_names_differ();
    }
    let mut out: Vec<Json> = Vec::new();
    if text::same(kind, "text") {
        out.push(make_delta("text_delta", "text", block.copy_at("text")));
    } else if text::same(kind, "thinking") {
        out.push(make_delta("thinking_delta", "thinking", block.copy_at("thinking")));
        out.push(make_delta("signature_delta", "signature", block.copy_at("signature")));
    } else if text::same(kind, "tool_use") || text::same(kind, "server_tool_use") {
        let input = match raw {
            Some(s) => s.clone(),
            None => codec::render(&block.copy_at("input")),
        };
        out.push(make_delta("input_json_delta", "partial_json", Json::Str(input)));
    }
    assert(json::items_view(out@) =~= block_deltas(block@, given));
    out
}

/// Writes the events of one block.
fn push_block(
    events: &mut Vec<TranscriptEvent>,
    index: usize,
    block: &Json,
    raw: Option<&String>,
    Ghost(data): Ghost<Seq<JsonView>>,
)
    requires
        written(old(events)@, data),
    ensures
        written(
            final(events)@,
            data + block_data(
                index as int,
                block@,
                match raw {
                    Some(s) => Some(s@),
                    None => None,
                },
            ),
        ),
        calls_tool(block@) && raw is None ==> codec::legible(block@.at("input"@)),
{
    let ghost given = match raw {
        Some(s) => Some(s@),
        None => None,
    };
    let mut start = indexed(index);
    start.set("content_block", start_of(block));
    push(events, "content_block_start", start, Ghost(data));
    let ghost opened = data.push(block_start(index as int, block@));
    let deltas = deltas_of(block, raw);
    let ghost all = block_deltas(block@, given);
    let ghost growth = Seq::new(all.len(), |i: int| block_growth(index as int, all[i]));
    assert(opened + growth.take(0) =~= opened);
    for i in 0..deltas.len()
        invariant
            json::items_view(deltas@) == all,
            growth == Seq::new(all.len(), |i: int| block_growth(index as int, all[i])),
            written(events@, opened + growth.take(i as int)),
    {
        let mut m = indexed(index);
        m.set("delta", deltas[i].copy());
        assert(all[i as int] == deltas@[i as int]@);
        push(events, "content_block_delta", m, Ghost(opened + growth.take(i as int)));
        assert((opened + growth.take(i as int)).push(growth[i as int]) =~= opened + growth.take(
            i + 1,
        ));
    }
    assert(growth.take(growth.len() as int) =~= growth);
    push(events, "content_block_stop", indexed(index), Ghost(opened + growth));
    assert((opened + growth).push(block_stop(index as int)) =~= data + block_data(
        index as int,
        block@,
        given,
    ));
}

/// The message as it starts.
fn start_message(plan: &ResponsePlan) -> (r: Members)
    ensures
        r@ == started_message(*plan),
{
    let mut m = match plan.messages_json() {
        Json::Object(m) => m,
        _ => Members::new(),
    };
    m.set("content", Json::Array(Vec::new()));
    assert(json::items_view(Seq::<Json>::empty()) =~= Seq::empty());
    m.set("stop_reason", Json::Null);
    m.set("stop_sequence", Json::Null);
    let mut usage = plan.usage.to_json();
    usage.set("output_tokens", Json::uint(0));
    m.set("usage", Json::Object(usage));
    m.remove("stop_details");
    m
}

/// The events that stream a plan: the message starts, each block starts, grows
/// and closes, and the message is updated and stops. A reader of a faithful
/// stream rebuilds the very message that the plan gives without streaming.
pub fn messages_events(plan: &ResponsePlan) -> (r: Vec<TranscriptEvent>)
    ensures
        scenario::transcript_view(r@) == as_events(stream_data(*plan)),
        stream_is_faithful(*plan) ==> record::streamed_message(scenario::transcript_view(r@)) == Ok::<
            JsonView,
            record::RecordError,
        >(JsonView::Object(plan.message())),
        texts_legible(*plan),
        forall|i: int| 0 <= i < r@.len() ==> (#[trigger] r@[i]).data@ != "[DONE]"@,
        sse::sse_events(encode_utf8(sse::rendered_all(scenario::transcript_view(r@)))) == Some(
            scenario::transcript_view(r@),
        ),
{
    let mut events: Vec<TranscriptEvent> = Vec::new();
    assert(scenario::transcript_view(events@) =~= as_events(Seq::empty()));
    let mut start = Members::new();
    start.set("message", Json::Object(start_message(plan)));
    push(&mut events, "message_start", start, Ghost(Seq::empty()));
    let ghost head = seq![start_data(*plan)];
    assert(Seq::empty().push(start_data(*plan)) =~= head);
    assert(head + blocks_data(*plan, 0) =~= head);
    for i in 0..plan.content.len()
        invariant
            head == seq![start_data(*plan)],
            written(events@, head + blocks_data(*plan, i as nat)),
            forall|j: int|
                0 <= j < i && calls_tool(plan.blocks()[j]) && plan::raw_at(
                    plan.raw_arguments@,
                    j,
                ) is None ==> codec::legible((#[trigger] plan.blocks()[j]).at("input"@)),
    {
        let raw = plan.raw_arguments.get(&i);
        let ghost given = plan::raw_at(plan.raw_arguments@, i as int);
        assert(given == (match raw {
            Some(s) => Some(s@),
            None => None,
        }));
        assert(plan.blocks()[i as int] == plan.content@[i as int]@);
        push_block(
            &mut events,
            i,
            &plan.content[i],
            raw,
            Ghost(head + blocks_data(*plan, i as nat)),
        );
        assert(head + blocks_data(*plan, i as nat) + block_data(
            i as int,
            plan.blocks()[i as int],
            given,
        ) =~= head + blocks_data(*plan, (i + 1) as nat));
    }
    let ghost body = head + blocks_data(*plan, plan.blocks().len());
    let mut stop = Members::new();
    stop.set("stop_reason", Json::text(plan.stop_reason.as_str()));
    stop.set("stop_sequence", plan::opt_text_value(&plan.stop_sequence));
    match &plan.stop_details {
        Some(d) => {
            stop.set("stop_details", d.copy());
        },
        None => {},
    }
    let mut usage = Members::new();
    usage.set("output_tokens", Json::uint(plan.usage.output_tokens));
    let mut update = Members::new();
    update.set("delta", Json::Object(stop));
    update.set("usage", Json::Object(usage));
    push(&mut events, "message_delta", update, Ghost(body));
    push(&mut events, "message_stop", Members::new(), Ghost(body.push(update_data(*plan))));
    proof {
        assert(body.push(update_data(*plan)).push(stop_data()) =~= stream_data(*plan));
        assert(texts_legible(*plan));
        if stream_is_faithful(*plan) {
            lemma_stream_rebuilds(*plan);
        }
        lemma_stream_sendable(*plan);
        sse::sent_events_read_back(as_events(stream_data(*plan)));
        reveal_strlit("[DONE]");
        assert("[DONE]"@[0] == '[');
        assert forall|i: int| 0 <= i < events@.len() implies (#[trigger] events@[i]).data@
            != "[DONE]"@ by {
            let data = stream_data(*plan)[i];
            assert(scenario::transcript_view(events@)[i] == as_event(data));
            assert(codec::legible(data));
            lemma_data_is_object(*plan, i);
        }
    }
    events
}

proof fn lemma_blocks_are_objects(plan: ResponsePlan, n: nat)
    ensures
        forall|i: int|
            0 <= i < blocks_data(plan, n).len() ==> (#[trigger] blocks_data(plan, n)[i]) is Object,
    decreases n,
{
    if n > 0 {
        lemma_blocks_are_objects(plan, (n - 1) as nat);
    }
}

/// The data of every event is an object.
proof fn lemma_data_is_object(plan: ResponsePlan, i: int)
    requires
        0 <= i < stream_data(plan).len(),
    ensures
        stream_data(plan)[i] is Object,
{
    lemma_blocks_are_objects(plan, plan.blocks().len());
}

/// Whether an event ends a message.
pub open spec fn is_terminal(e: EventView) -> bool {
    e.event == Some("message_delta"@) || e.event == Some("message_stop"@)
}

/// Where the first event that ends the message stands, or the number of events.
pub open spec fn first_terminal(events: Seq<EventView>) -> int
    decreases events.len(),
{
    if events.len() == 0 || is_terminal(events[0]) {
        0
    } else {
        1 + first_terminal(events.skip(1))
    }
}

/// The text of a broken event.
pub open spec fn broken_event() -> Seq<char> {
    "event: content_block_delta\ndata: {broken\n\n"@
}

/// The wait before the chunk at `i`: there is none before the first.
pub open spec fn wait_before(i: int, options: SuccessScript) -> u64 {
    if i > 0 {
        options.inter_event_delay_ms
    } else {
        0
    }
}

/// How many events a script lets through before it closes the stream.
pub open spec fn close_limit(events: Seq<EventView>, options: SuccessScript) -> int {
    match options.close_after_chunks {
        Some(n) if n < events.len() => n as int,
        _ => events.len() as int,
    }
}

/// Where a malformed stream breaks: before the message ends.
pub open spec fn break_point(events: Seq<EventView>, options: SuccessScript) -> int {
    if options.malformed_sse {
        first_terminal(events)
    } else {
        events.len() as int
    }
}

/// The chunks that a script's stream sends: the events up to the point where it
/// closes or breaks, and, where it breaks, a broken event.
pub open spec fn stream_chunks(events: Seq<EventView>, options: SuccessScript) -> Seq<ChunkView> {
    let limit = close_limit(events, options);
    let cut = break_point(events, options);
    let n = if cut < limit {
        cut
    } else {
        limit
    };
    let sent = Seq::new(
        n as nat,
        |i: int| reply::text_chunk(wait_before(i, options), sse::rendered(events[i])),
    );
    if cut < limit {
        sent.push(reply::text_chunk(wait_before(cut, options), broken_event()))
    } else {
        sent
    }
}

/// The response that streams events.
pub open spec fn stream_reply(events: Seq<EventView>, options: SuccessScript) -> ReplyView {
    ReplyView {
        delay_ms: 0,
        status: 200,
        headers: reply::typed("text/event-stream"@),
        body: BodyView::Chunks(stream_chunks(events, options)),
    }
}

/// Writes an event.
pub fn render_event(event: &TranscriptEvent) -> (r: String)
    ensures
        r@ == sse::rendered(event@),
{
    let name = match &event.event {
        Some(name) => Some(name.as_str()),
        None => None,
    };
    sse::render(name, event.data.as_str())
}

/// Whether an event ends a message.
fn ends_message(event: &TranscriptEvent) -> (r: bool)
    ensures
        r == is_terminal(event@),
{
    match &event.event {
        Some(name) => text::same(name.as_str(), "message_delta") || text::same(
            name.as_str(),
            "message_stop",
        ),
        None => false,
    }
}

proof fn lemma_first_terminal(events: Seq<EventView>, n: int)
    requires
        0 <= n <= events.len(),
        forall|i: int| 0 <= i < n ==> !is_terminal(#[trigger] events[i]),
    ensures
        first_terminal(events) >= n,
        n < events.len() && is_terminal(events[n]) ==> first_terminal(events) == n,
        first_terminal(events) <= events.len(),
    decreases events.len(),
{
    if events.len() > 0 {
        let rest = events.skip(1);
        if n > 0 {
            assert(!is_terminal(events[0]));
            assert forall|i: int| 0 <= i < n - 1 implies !is_terminal(#[trigger] rest[i]) by {
                assert(!is_terminal(events[i + 1]));
            }
            lemma_first_terminal(rest, n - 1);
        } else {
            lemma_first_terminal(rest, 0);
        }
    }
}

/// Streams events as a script asks: closing after a number of chunks, waiting
/// between chunks, or breaking before the message ends. The break comes before
/// the end since consumers may stop reading there.
pub fn event_response(events: &Vec<TranscriptEvent>, options: &SuccessScript) -> (r: Reply)
    ensures
        r@ == stream_reply(scenario::transcript_view(events@), *options),
{
    let ghost all = scenario::transcript_view(events@);
    let ghost whole = stream_chunks(all, *options);
    let limit: usize = match options.close_after_chunks {
        Some(n) => if n < events.len() {
            n
        } else {
            events.len()
        },
        None => events.len(),
    };
    let mut chunks: Vec<Chunk> = Vec::new();
    let mut broken: bool = false;
    let mut i: usize = 0;
    while i < limit && !broken
        invariant
            all == scenario::transcript_view(events@),
            limit == close_limit(all, *options),
            limit <= events.len(),
            i <= limit,
            options.malformed_sse && !broken ==> forall|j: int|
                0 <= j < i ==> !is_terminal(#[trigger] all[j]),
            !broken ==> reply::chunks_view(chunks@) =~= Seq::new(
                i as nat,
                |j: int| reply::text_chunk(wait_before(j, *options), sse::rendered(all[j])),
            ),
            broken ==> reply::chunks_view(chunks@) == stream_chunks(all, *options),
        decreases
                limit - i,
                (if broken {
                    0int
                } else {
                    1int
                }),
    {
        let delay_ms: u64 = if i > 0 {
            options.inter_event_delay_ms
        } else {
            0
        };
        let ghost before = chunks@;
        assert(all[i as int] == events@[i as int]@);
        if options.malformed_sse && ends_message(&events[i]) {
            let text = "event: content_block_delta\ndata: {broken\n\n".to_owned();
            let chunk = Chunk { delay_ms, content: Content::Text(text) };
            chunks.push(chunk);
            broken = true;
            proof {
                lemma_first_terminal(all, i as int);
                assert(reply::chunks_view(chunks@) =~= reply::chunks_view(before).push(chunk@));
                assert(reply::chunks_view(chunks@) =~= stream_chunks(all, *options));
            }
        } else {
            let chunk = Chunk { delay_ms, content: Content::Text(render_event(&events[i])) };
            chunks.push(chunk);
            assert(reply::chunks_view(chunks@) =~= reply::chunks_view(before).push(chunk@));
            i = i + 1;
        }
    }
    proof {
        if !broken {
            if options.malformed_sse {
                lemma_first_terminal(all, limit as int);
            }
            assert(reply::chunks_view(chunks@) =~= stream_chunks(all, *options));
        }
    }
    let mut headers = Headers::new();
    headers.set("content-type", "text/event-stream");
    assert(headers@ =~= reply::typed("text/event-stream"@));
    Reply { delay_ms: 0, status: 200, headers, body: Body::Chunks(chunks) }
}

/// A script that asks for no fault sends every event, one chunk each, in order.
pub proof fn faultless_stream_sends_all(events: Seq<EventView>, options: SuccessScript)
    requires
        options.close_after_chunks is None,
        !options.malformed_sse,
        options.inter_event_delay_ms == 0,
    ensures
        stream_chunks(events, options) == reply::event_chunks(events),
{
    assert(stream_chunks(events, options) =~= reply::event_chunks(events));
}

/// A malformed stream never lets the end of the message through.
pub proof fn broken_stream_never_ends_message(events: Seq<EventView>, options: SuccessScript)
    requires
        options.malformed_sse,
    ensures
        forall|i: int|
            0 <= i < stream_chunks(events, options).len() && i < first_terminal(events)
                ==> !is_terminal(#[trigger] events[i]),
        stream_chunks(events, options).len() <= first_terminal(events) + 1,
        stream_chunks(events, options).len() == first_terminal(events) + 1 ==> stream_chunks(
            events,
            options,
        ).last().content == (reply::ContentView::Text(broken_event())),
{
    lemma_first_terminal(events, 0);
    lemma_before_terminal(events);
}

proof fn lemma_before_terminal(events: Seq<EventView>)
    ensures
        forall|i: int| 0 <= i < first_terminal(events) ==> !is_terminal(#[trigger] events[i]),
    decreases events.len(),
{
    if events.len() > 0 && !is_terminal(events[0]) {
        lemma_before_terminal(events.skip(1));
        lemma_first_terminal(events.skip(1), 0);
        assert forall|i: int| 0 <= i < first_terminal(events) implies !is_terminal(
            #[trigger] events[i],
        ) by {
            if i > 0 {
                assert(!is_terminal(events.skip(1)[i - 1]));
            }
        }
    }
}

/// One of the event names that a stream uses.
spec fn stream_name(name: Seq<char>) -> bool {
    ||| name == "message_start"@
    ||| name == "content_block_start"@
    ||| name == "content_block_delta"@
    ||| name == "content_block_stop"@
    ||| name == "message_delta"@
    ||| name == "message_stop"@
}

proof fn lemma_blocks_named(plan: ResponsePlan, n: nat)
    ensures
        forall|i: int|
            0 <= i < blocks_data(plan, n).len() ==> stream_name(
                (#[trigger] blocks_data(plan, n)[i]).text_at("type"@),
            ),
    decreases n,
{
    if n > 0 {
        lemma_blocks_named(plan, (n - 1) as nat);
        let a = blocks_data(plan, (n - 1) as nat);
        let b = block_data(n - 1, plan.blocks()[n - 1], plan::raw_at(plan.raw_arguments@, n - 1));
        assert forall|i: int| 0 <= i < (a + b).len() implies stream_name(
            (#[trigger] (a + b)[i]).text_at("type"@),
        ) by {
            if i < a.len() {
                assert(stream_name(a[i].text_at("type"@)));
            }
        }
    }
}

proof fn lemma_stream_sendable(plan: ResponsePlan)
    requires
        texts_legible(plan),
    ensures
        forall|i: int|
            0 <= i < as_events(stream_data(plan)).len() ==> sse::sendable(
                #[trigger] as_events(stream_data(plan))[i],
            ),
{
    let data = stream_data(plan);
    let middle = blocks_data(plan, plan.blocks().len());
    lemma_blocks_named(plan, plan.blocks().len());
    reveal_strlit("message_start");
    reveal_strlit("content_block_start");
    reveal_strlit("content_block_delta");
    reveal_strlit("content_block_stop");
    reveal_strlit("message_delta");
    reveal_strlit("message_stop");
    assert forall|i: int| 0 <= i < data.len() implies sse::sendable(as_event(#[trigger] data[i])) by {
        if 1 <= i < 1 + middle.len() {
            assert(data[i] == middle[i - 1]);
        }
        assert(stream_name(data[i].text_at("type"@)));
        assert(codec::legible(data[i]));
        let rendered = codec::json_text(data[i]);
        assert forall|j: int| 0 <= j < rendered.len() implies rendered[j] != '\r' by {
            assert(rendered[j] >= ' ');
        }
    }
}

/// Applying data one after another.
spec fn run(stream: record::StreamView, data: Seq<JsonView>) -> Result<
    record::StreamView,
    record::RecordError,
>
    decreases data.len(),
{
    if data.len() == 0 {
        Ok(stream)
    } else {
        match run(stream, data.drop_last()) {
            Err(e) => Err(e),
            Ok(now) => record::apply_event(now, Some(data.last().text_at("type"@)), data.last()),
        }
    }
}

proof fn lemma_run_is_stream(data: Seq<JsonView>)
    requires
        forall|i: int|
            0 <= i < data.len() ==> codec::survives(#[trigger] data[i], 127) && codec::legible(
                data[i],
            ),
    ensures
        record::stream_after(as_events(data)) == run(record::no_stream(), data),
    decreases data.len(),
{
    if data.len() > 0 {
        let before = data.drop_last();
        assert forall|i: int| 0 <= i < before.len() implies codec::survives(
            #[trigger] before[i],
            127,
        ) && codec::legible(before[i]) by {
            assert(codec::legible(data[i]));
        }
        lemma_run_is_stream(before);
        assert(as_events(data).drop_last() =~= as_events(before));
        assert(as_events(data).last() == as_event(data.last()));
        assert(codec::legible(data[data.len() - 1]));
    }
}

proof fn lemma_run_concat(
    stream: record::StreamView,
    a: Seq<JsonView>,
    b: Seq<JsonView>,
    middle: record::StreamView,
)
    requires
        run(stream, a) == Ok::<record::StreamView, record::RecordError>(middle),
    ensures
        run(stream, a + b) == run(middle, b),
    decreases b.len(),
{
    if b.len() == 0 {
        assert(a + b =~= a);
    } else {
        lemma_run_concat(stream, a, b.drop_last(), middle);
        assert((a + b).drop_last() =~= a + b.drop_last());
    }
}

proof fn lemma_run_one(stream: record::StreamView, data: JsonView)
    ensures
        run(stream, seq![data]) == record::apply_event(stream, Some(data.text_at("type"@)), data),
{
    reveal_with_fuel(run, 2);
    assert(seq![data].drop_last() =~= Seq::empty());
}

/// A message under way whose blocks are numbered from zero.
spec fn numbered(stream: record::StreamView) -> bool {
    &&& stream.message is Some
    &&& !stream.stopped
    &&& forall|i: int| 0 <= i < stream.blocks.len() ==> (#[trigger] stream.blocks[i]).index == i
}

proof fn lemma_place_end(blocks: Seq<record::BlockView>, index: u64)
    requires
        forall|i: int| 0 <= i < blocks.len() ==> (#[trigger] blocks[i]).index < index,
    ensures
        record::block_at(blocks, index) is None,
        record::block_place(blocks, index) == blocks.len(),
    decreases blocks.len(),
{
    if blocks.len() > 0 {
        let front = blocks.drop_last();
        assert forall|i: int| 0 <= i < front.len() implies (#[trigger] front[i]).index < index by {
            assert(blocks[i].index < index);
        }
        lemma_place_end(front, index);
        let back = blocks.skip(1);
        assert forall|i: int| 0 <= i < back.len() implies (#[trigger] back[i]).index < index by {
            assert(blocks[i + 1].index < index);
        }
        lemma_place_end(back, index);
        assert(blocks[0].index < index);
        assert(blocks[blocks.len() - 1].index < index);
    }
}

proof fn lemma_apply_start(stream: record::StreamView, index: int, block: JsonView)
    requires
        numbered(stream),
        index == stream.blocks.len(),
        0 <= index <= u64::MAX,
        started_block(block) is Object,
    ensures
        run(stream, seq![block_start(index, block)]) == Ok::<
            record::StreamView,
            record::RecordError,
        >(
            record::StreamView {
                blocks: stream.blocks.push(
                    record::BlockView {
                        index: index as u64,
                        value: started_block(block)->Object_0,
                        open: true,
                        arguments: None,
                    },
                ),
                ..stream
            },
        ),
{
    names::event_names_differ();
    names::event_members_differ();
    let data = block_start(index, block);
    lemma_run_one(stream, data);
    assert forall|i: int| 0 <= i < stream.blocks.len() implies (
    #[trigger] stream.blocks[i]).index < index as u64 by {
        assert(stream.blocks[i].index == i);
    }
    lemma_place_end(stream.blocks, index as u64);
    let made = record::BlockView {
        index: index as u64,
        value: started_block(block)->Object_0,
        open: true,
        arguments: None,
    };
    assert(stream.blocks.insert(index, made) =~= stream.blocks.push(made));
}

proof fn lemma_apply_growth(stream: record::StreamView, index: int, d: JsonView)
    requires
        stream.message is Some,
        !stream.stopped,
        stream.blocks.len() == index + 1,
        0 <= index <= u64::MAX,
        stream.blocks[index].index == index,
        stream.blocks[index].open,
    ensures
        run(stream, seq![block_growth(index, d)]) == record::block_changed(
            stream,
            index,
            record::block_delta(stream.blocks[index], d),
        ),
{
    names::event_names_differ();
    names::event_members_differ();
    lemma_run_one(stream, block_growth(index, d));
}

proof fn lemma_apply_stop(stream: record::StreamView, index: int)
    requires
        stream.message is Some,
        !stream.stopped,
        stream.blocks.len() == index + 1,
        0 <= index <= u64::MAX,
        stream.blocks[index].index == index,
        stream.blocks[index].open,
    ensures
        run(stream, seq![block_stop(index)]) == record::block_changed(
            stream,
            index,
            record::block_closed(stream.blocks[index]),
        ),
{
    names::event_names_differ();
    names::event_members_differ();
    lemma_run_one(stream, block_stop(index));
}

/// A block after its last event.
spec fn finished_block(index: int, block: JsonView) -> record::BlockView {
    record::BlockView {
        index: index as u64,
        value: block_members(block),
        open: false,
        arguments: if calls_tool(block) {
            Some(codec::json_text(block.at("input"@)))
        } else {
            None
        },
    }
}

/// The message under way with one more block.
spec fn with_block(stream: record::StreamView, block: record::BlockView) -> record::StreamView {
    record::StreamView { blocks: stream.blocks.push(block), ..stream }
}

/// The deltas of a block, applied to the block as it starts, give the block.
proof fn lemma_grow(
    stream: record::StreamView,
    index: int,
    block: JsonView,
    raw: Option<Seq<char>>,
)
    requires
        stream.message is Some,
        !stream.stopped,
        index == stream.blocks.len(),
        0 <= index <= u64::MAX,
        block_streams(block, raw),
    ensures
        ({
            let deltas = block_deltas(block, raw);
            let opened = record::BlockView {
                index: index as u64,
                value: started_block(block)->Object_0,
                open: true,
                arguments: None,
            };
            let grown = record::BlockView {
                value: if calls_tool(block) {
                    started_block(block)->Object_0
                } else {
                    block_members(block)
                },
                ..record::BlockView { open: true, ..finished_block(index, block) }
            };
            run(
                with_block(stream, opened),
                Seq::new(deltas.len(), |i: int| block_growth(index, deltas[i])),
            ) == Ok::<record::StreamView, record::RecordError>(with_block(stream, grown))
        }),
{
    names::delta_names_differ();
    let kind = block.text_at("type"@);
    let members = block_members(block);
    let deltas = block_deltas(block, raw);
    let growth = Seq::new(deltas.len(), |i: int| block_growth(index, deltas[i]));
    let opened = record::BlockView {
        index: index as u64,
        value: started_block(block)->Object_0,
        open: true,
        arguments: None,
    };
    let grown = record::BlockView {
        value: if calls_tool(block) {
            started_block(block)->Object_0
        } else {
            block_members(block)
        },
        ..record::BlockView { open: true, ..finished_block(index, block) }
    };
    let first = with_block(stream, opened);
    let last = with_block(stream, grown);
    assert(first.blocks.update(index, grown) =~= last.blocks);
    reveal_strlit("text");
    reveal_strlit("thinking");
    reveal_strlit("tool_use");
    reveal_strlit("server_tool_use");
    if kind == "text"@ {
        assert(growth =~= seq![block_growth(index, deltas[0])]);
        lemma_apply_growth(first, index, deltas[0]);
        let s = block.at("text"@)->Str_0;
        assert(Seq::<char>::empty() + s =~= s);
        assert(opened.value.insert("text"@, JsonView::Str(s)) =~= members);
    } else if kind == "thinking"@ {
        let middle_block = record::BlockView {
            value: members.remove("signature"@),
            ..opened
        };
        let middle = with_block(stream, middle_block);
        assert(first.blocks.update(index, middle_block) =~= middle.blocks);
        lemma_apply_growth(first, index, deltas[0]);
        let s = block.at("thinking"@)->Str_0;
        assert(Seq::<char>::empty() + s =~= s);
        assert(opened.value.insert("thinking"@, JsonView::Str(s)) =~= middle_block.value);
        assert(middle.blocks.update(index, grown) =~= last.blocks);
        lemma_apply_growth(middle, index, deltas[1]);
        let t = block.at("signature"@)->Str_0;
        assert(middle_block.value.insert("signature"@, JsonView::Str(t)) =~= members);
        lemma_run_concat(
            first,
            seq![block_growth(index, deltas[0])],
            seq![block_growth(index, deltas[1])],
            middle,
        );
        assert(growth =~= seq![block_growth(index, deltas[0])] + seq![
            block_growth(index, deltas[1]),
        ]);
    } else if calls_tool(block) {
        assert(growth =~= seq![block_growth(index, deltas[0])]);
        lemma_apply_growth(first, index, deltas[0]);
    } else {
        assert(growth =~= Seq::empty());
        assert(opened =~= grown);
    }
}

/// The events of a block add the block.
proof fn lemma_block(
    stream: record::StreamView,
    index: int,
    block: JsonView,
    raw: Option<Seq<char>>,
)
    requires
        numbered(stream),
        index == stream.blocks.len(),
        0 <= index <= u64::MAX,
        block_streams(block, raw),
        calls_tool(block) ==> codec::legible(block.at("input"@)),
    ensures
        run(stream, block_data(index, block, raw)) == Ok::<record::StreamView, record::RecordError>(
            with_block(stream, finished_block(index, block)),
        ),
{
    names::delta_names_differ();
    let deltas = block_deltas(block, raw);
    let growth = Seq::new(deltas.len(), |i: int| block_growth(index, deltas[i]));
    let opened = record::BlockView {
        index: index as u64,
        value: started_block(block)->Object_0,
        open: true,
        arguments: None,
    };
    let grown = record::BlockView {
        value: if calls_tool(block) {
            started_block(block)->Object_0
        } else {
            block_members(block)
        },
        ..record::BlockView { open: true, ..finished_block(index, block) }
    };
    let done = finished_block(index, block);
    lemma_apply_start(stream, index, block);
    lemma_grow(stream, index, block, raw);
    lemma_apply_stop(with_block(stream, grown), index);
    if calls_tool(block) {
        let input = block.at("input"@);
        assert(grown.value.insert("input"@, input) =~= block_members(block));
        assert(record::block_closed(grown) == Ok::<record::BlockView, record::RecordError>(done));
    } else {
        assert(record::block_closed(grown) == Ok::<record::BlockView, record::RecordError>(done));
    }
    assert(with_block(stream, grown).blocks.update(index, done) =~= with_block(
        stream,
        done,
    ).blocks);
    lemma_run_concat(
        stream,
        seq![block_start(index, block)],
        growth,
        with_block(stream, opened),
    );
    lemma_run_concat(
        stream,
        seq![block_start(index, block)] + growth,
        seq![block_stop(index)],
        with_block(stream, grown),
    );
}

/// The blocks of a plan after their last events.
spec fn finished_blocks(plan: ResponsePlan, n: nat) -> Seq<record::BlockView> {
    Seq::new(n, |i: int| finished_block(i, plan.blocks()[i]))
}

proof fn lemma_blocks(plan: ResponsePlan, stream: record::StreamView, n: nat)
    requires
        stream.message is Some,
        !stream.stopped,
        stream.blocks.len() == 0,
        n <= plan.blocks().len() <= u64::MAX,
        forall|i: int|
            0 <= i < plan.blocks().len() ==> block_streams(
                #[trigger] plan.blocks()[i],
                plan::raw_at(plan.raw_arguments@, i),
            ),
        forall|i: int|
            0 <= i < plan.blocks().len() && calls_tool(plan.blocks()[i]) && plan::raw_at(
                plan.raw_arguments@,
                i,
            ) is None ==> codec::legible((#[trigger] plan.blocks()[i]).at("input"@)),
    ensures
        run(stream, blocks_data(plan, n)) == Ok::<record::StreamView, record::RecordError>(
            record::StreamView { blocks: finished_blocks(plan, n), ..stream },
        ),
    decreases n,
{
    if n == 0 {
        assert(finished_blocks(plan, n) =~= stream.blocks);
    } else {
        let m = (n - 1) as nat;
        lemma_blocks(plan, stream, m);
        let before = record::StreamView { blocks: finished_blocks(plan, m), ..stream };
        let block = plan.blocks()[n - 1];
        let raw = plan::raw_at(plan.raw_arguments@, n - 1);
        assert(block_streams(block, raw));
        assert(forall|i: int|
            0 <= i < before.blocks.len() ==> (#[trigger] before.blocks[i]).index == i);
        lemma_block(before, n - 1, block, raw);
        lemma_run_concat(
            stream,
            blocks_data(plan, m),
            block_data(n - 1, block, raw),
            before,
        );
        assert(finished_blocks(plan, n) =~= finished_blocks(plan, m).push(
            finished_block(n - 1, block),
        ));
    }
}

/// The update restores what the message started without.
proof fn lemma_update(plan: ResponsePlan)
    requires
        plan.usage@["output_tokens"@] == json::int_view(plan.usage.output_tokens),
    ensures
        ({
            let updated = record::message_updated(started_message(plan), update_data(plan));
            updated is Ok && updated->Ok_0.insert(
                "content"@,
                JsonView::Array(plan.blocks()),
            ) == plan.message()
        }),
{
    names::event_members_differ();
    names::message_members_differ();
    let start = started_message(plan);
    let delta = stop_members(plan);
    let usage = map!["output_tokens"@ => json::int_view(plan.usage.output_tokens)];
    let merged = start.union_prefer_right(delta);
    assert(update_data(plan).get("delta"@) == Some(JsonView::Object(delta)));
    assert(update_data(plan).get("usage"@) == Some(JsonView::Object(usage)));
    let counts = plan.usage@.insert("output_tokens"@, json::int_view(0));
    assert(JsonView::Object(merged).at("usage"@) == JsonView::Object(counts));
    assert(counts.union_prefer_right(usage) =~= plan.usage@);
    let updated = merged.insert("usage"@, JsonView::Object(plan.usage@));
    assert(record::message_updated(start, update_data(plan)) == Ok::<
        Map<Seq<char>, JsonView>,
        record::RecordError,
    >(updated));
    assert(updated.insert("content"@, JsonView::Array(plan.blocks())) =~= plan.message());
}

/// A reader of a faithful stream rebuilds the message.
proof fn lemma_stream_rebuilds(plan: ResponsePlan)
    requires
        stream_is_faithful(plan),
        texts_legible(plan),
        plan.blocks().len() <= u64::MAX,
    ensures
        record::streamed_message(as_events(stream_data(plan))) == Ok::<
            JsonView,
            record::RecordError,
        >(JsonView::Object(plan.message())),
{
    names::event_names_differ();
    names::event_members_differ();
    let data = stream_data(plan);
    let n = plan.blocks().len();
    assert forall|i: int| 0 <= i < data.len() implies codec::survives(#[trigger] data[i], 127)
        && codec::legible(data[i]) by {}
    lemma_run_is_stream(data);
    let empty = record::no_stream();
    let started = record::StreamView { message: Some(started_message(plan)), ..empty };
    lemma_run_one(empty, start_data(plan));
    assert(run(empty, seq![start_data(plan)]) == Ok::<record::StreamView, record::RecordError>(
        started,
    ));
    lemma_blocks(plan, started, n);
    let filled = record::StreamView { blocks: finished_blocks(plan, n), ..started };
    lemma_run_concat(empty, seq![start_data(plan)], blocks_data(plan, n), started);
    lemma_update(plan);
    let message = record::message_updated(started_message(plan), update_data(plan))->Ok_0;
    assert(!record::any_open(filled.blocks));
    let updated = record::StreamView { message: Some(message), updated: true, ..filled };
    lemma_run_one(filled, update_data(plan));
    let stopped = record::StreamView { stopped: true, ..updated };
    lemma_run_one(updated, stop_data());
    lemma_run_concat(filled, seq![update_data(plan)], seq![stop_data()], updated);
    let tail = seq![update_data(plan), stop_data()];
    assert(tail =~= seq![update_data(plan)] + seq![stop_data()]);
    lemma_run_concat(empty, seq![start_data(plan)] + blocks_data(plan, n), tail, filled);
    assert(run(empty, data) == Ok::<record::StreamView, record::RecordError>(stopped));
    assert forall|i: int| 0 <= i < n implies JsonView::Object(
        (#[trigger] filled.blocks[i]).value,
    ) == plan.blocks()[i] by {
        assert(block_streams(plan.blocks()[i], plan::raw_at(plan.raw_arguments@, i)));
    }
    assert(record::content_of(filled.blocks) == JsonView::Array(plan.blocks())) by {
        assert(record::content_of(filled.blocks)->Array_0 =~= plan.blocks());
    }
}

} // verus!
