//! What streaming a message and reading a stream promise.

use vstd::prelude::*;
use vstd::utf8::*;

use crate::anthropic::engine::plan;
use crate::anthropic::engine::plan::ResponsePlan;
use crate::anthropic::engine::scenario::SuccessScript;
use crate::anthropic::names;
use crate::anthropic::record;
use crate::anthropic::record::{BlockView, RecordError, StreamView};
use crate::anthropic::sse;
use crate::json::JsonView;
use crate::reply::ContentView;
use crate::sse::EventView;
use crate::{codec, json, text};

verus! {

/// Whether the data of an event is a delta of the given type for a block.
pub open spec fn grows(event: JsonView, index: int, kind: Seq<char>) -> bool {
    &&& event.at("type"@) == JsonView::Str("content_block_delta"@)
    &&& event.at("index"@).as_u64() == Some(index as u64)
    &&& event.at("delta"@).at("type"@) == JsonView::Str(kind)
}

/// What the deltas of a type for a block add up to: the texts that they carry,
/// in order, one behind the other.
pub open spec fn streamed(
    data: Seq<JsonView>,
    index: int,
    kind: Seq<char>,
    field: Seq<char>,
) -> Seq<char>
    decreases data.len(),
{
    if data.len() == 0 {
        Seq::empty()
    } else if grows(data.last(), index, kind) {
        streamed(data.drop_last(), index, kind, field) + data.last().at("delta"@).text_at(field)
    } else {
        streamed(data.drop_last(), index, kind, field)
    }
}

proof fn lemma_streamed_concat(
    a: Seq<JsonView>,
    b: Seq<JsonView>,
    index: int,
    kind: Seq<char>,
    field: Seq<char>,
)
    ensures
        streamed(a + b, index, kind, field) == streamed(a, index, kind, field) + streamed(
            b,
            index,
            kind,
            field,
        ),
    decreases b.len(),
{
    if b.len() == 0 {
        assert(a + b =~= a);
        assert(streamed(a, index, kind, field) + streamed(b, index, kind, field) =~= streamed(
            a,
            index,
            kind,
            field,
        ));
    } else {
        lemma_streamed_concat(a, b.drop_last(), index, kind, field);
        assert((a + b).drop_last() =~= a + b.drop_last());
        assert((a + b).last() == b.last());
        assert(streamed(a + b, index, kind, field) =~= streamed(a, index, kind, field) + streamed(
            b,
            index,
            kind,
            field,
        ));
    }
}

proof fn lemma_streamed_none(data: Seq<JsonView>, index: int, kind: Seq<char>, field: Seq<char>)
    requires
        forall|i: int| 0 <= i < data.len() ==> !grows(#[trigger] data[i], index, kind),
    ensures
        streamed(data, index, kind, field) == Seq::<char>::empty(),
    decreases data.len(),
{
    if data.len() > 0 {
        let front = data.drop_last();
        assert(!grows(data[data.len() - 1], index, kind));
        assert forall|i: int| 0 <= i < front.len() implies !grows(
            #[trigger] front[i],
            index,
            kind,
        ) by {
            assert(front[i] == data[i]);
        }
        lemma_streamed_none(front, index, kind, field);
    }
}

proof fn lemma_streamed_one(event: JsonView, index: int, kind: Seq<char>, field: Seq<char>)
    ensures
        streamed(seq![event], index, kind, field) == (if grows(event, index, kind) {
            event.at("delta"@).text_at(field)
        } else {
            Seq::empty()
        }),
{
    assert(seq![event].drop_last() =~= Seq::empty());
    assert(seq![event].last() == event);
    reveal_with_fuel(streamed, 2);
    assert(Seq::<char>::empty() + event.at("delta"@).text_at(field) =~= event.at("delta"@).text_at(
        field,
    ));
}

/// What a block's deltas of a type ought to carry.
pub open spec fn owed(block: JsonView, raw: Option<Seq<char>>, kind: Seq<char>) -> Seq<char> {
    let block_type = block.at("type"@);
    if block_type == JsonView::Str("text"@) && kind == "text_delta"@ {
        block.text_at("text"@)
    } else if block_type == JsonView::Str("thinking"@) && kind == "thinking_delta"@ {
        block.text_at("thinking"@)
    } else if block_type == JsonView::Str("thinking"@) && kind == "signature_delta"@ {
        block.text_at("signature"@)
    } else if (block_type == JsonView::Str("tool_use"@) || block_type == JsonView::Str(
        "server_tool_use"@,
    )) && kind == "input_json_delta"@ {
        match raw {
            Some(s) => s,
            None => codec::json_text(block.at("input"@)),
        }
    } else {
        Seq::empty()
    }
}

/// The types of deltas and of blocks, told apart.
proof fn kinds_differ()
    ensures
        "text"@.len() == 4,
        "thinking"@.len() == 8 && "thinking"@[1] == 'h',
        "tool_use"@.len() == 8 && "tool_use"@[1] == 'o',
        "server_tool_use"@.len() == 15,
        "text_delta"@.len() == 10,
        "thinking_delta"@.len() == 14,
        "signature_delta"@.len() == 15,
        "input_json_delta"@.len() == 16,
{
    reveal_strlit("text");
    reveal_strlit("thinking");
    reveal_strlit("tool_use");
    reveal_strlit("server_tool_use");
    reveal_strlit("text_delta");
    reveal_strlit("thinking_delta");
    reveal_strlit("signature_delta");
    reveal_strlit("input_json_delta");
}

/// The members of deltas, told apart.
proof fn fields_differ()
    ensures
        "type"@.len() == 4 && "type"@[1] == 'y',
        "text"@.len() == 4 && "text"@[1] == 'e',
        "thinking"@.len() == 8,
        "signature"@.len() == 9,
        "partial_json"@.len() == 12,
{
    reveal_strlit("type");
    reveal_strlit("text");
    reveal_strlit("thinking");
    reveal_strlit("signature");
    reveal_strlit("partial_json");
}

/// The member that a delta of a type carries its text in.
pub open spec fn field_of(kind: Seq<char>) -> Seq<char> {
    if kind == "text_delta"@ {
        "text"@
    } else if kind == "thinking_delta"@ {
        "thinking"@
    } else if kind == "signature_delta"@ {
        "signature"@
    } else {
        "partial_json"@
    }
}

/// Whether a name is one of the types of deltas.
pub open spec fn is_delta(kind: Seq<char>) -> bool {
    kind == "text_delta"@ || kind == "thinking_delta"@ || kind == "signature_delta"@ || kind
        == "input_json_delta"@
}

proof fn lemma_delta(made: Seq<char>, value: JsonView)
    requires
        is_delta(made),
    ensures
        ({
            let d = sse::delta(made, field_of(made), value);
            &&& d.at("type"@) == JsonView::Str(made)
            &&& d.at(field_of(made)) == value
        }),
{
    kinds_differ();
    fields_differ();
}

proof fn lemma_block_streamed(
    at: int,
    block: JsonView,
    raw: Option<Seq<char>>,
    index: int,
    kind: Seq<char>,
)
    requires
        is_delta(kind),
        0 <= at < u64::MAX,
        0 <= index < u64::MAX,
    ensures
        streamed(sse::block_data(at, block, raw), index, kind, field_of(kind)) == (if at == index {
            owed(block, raw, kind)
        } else {
            Seq::empty()
        }),
{
    kinds_differ();
    fields_differ();
    names::event_names_differ();
    names::event_members_differ();
    let data = sse::block_data(at, block, raw);
    let deltas = sse::block_deltas(block, raw);
    let field = field_of(kind);
    let first = sse::block_start(at, block);
    let last = sse::block_stop(at);
    let middle = Seq::new(deltas.len(), |i: int| sse::block_growth(at, deltas[i]));
    assert(data == seq![first] + middle + seq![last]);
    assert(first.at("type"@) == JsonView::Str("content_block_start"@));
    assert(last.at("type"@) == JsonView::Str("content_block_stop"@));
    lemma_streamed_none(seq![first], index, kind, field);
    lemma_streamed_none(seq![last], index, kind, field);
    lemma_streamed_concat(seq![first], middle, index, kind, field);
    lemma_streamed_concat(seq![first] + middle, seq![last], index, kind, field);
    assert forall|i: int| 0 <= i < deltas.len() implies {
        &&& (#[trigger] middle[i]).at("delta"@) == deltas[i]
        &&& middle[i].at("index"@).as_u64() == Some(at as u64)
        &&& middle[i].at("type"@) == JsonView::Str("content_block_delta"@)
    } by {}
    let block_type = block.text_at("type"@);
    if deltas.len() == 0 {
        assert(middle =~= Seq::empty());
        assert(streamed(middle, index, kind, field) =~= Seq::empty());
    } else if deltas.len() == 1 {
        assert(middle =~= seq![middle[0]]);
        lemma_streamed_one(middle[0], index, kind, field);
        if block_type == "text"@ {
            lemma_delta("text_delta"@, block.at("text"@));
        } else {
            lemma_delta("input_json_delta"@, JsonView::Str(sse::streamed_input(block, raw)));
        }
    } else {
        assert(middle =~= seq![middle[0]] + seq![middle[1]]);
        lemma_streamed_concat(seq![middle[0]], seq![middle[1]], index, kind, field);
        lemma_streamed_one(middle[0], index, kind, field);
        lemma_streamed_one(middle[1], index, kind, field);
        lemma_delta("thinking_delta"@, block.at("thinking"@));
        lemma_delta("signature_delta"@, block.at("signature"@));
    }
    let wanted = if at == index {
        owed(block, raw, kind)
    } else {
        Seq::empty()
    };
    assert(streamed(middle, index, kind, field) =~= wanted);
    assert(streamed(data, index, kind, field) =~= wanted);
}

proof fn lemma_blocks_streamed(p: ResponsePlan, n: nat, index: int, kind: Seq<char>)
    requires
        is_delta(kind),
        n <= p.blocks().len() < u64::MAX,
        0 <= index < p.blocks().len(),
    ensures
        streamed(sse::blocks_data(p, n), index, kind, field_of(kind)) == (if index < n {
            owed(p.blocks()[index], plan::raw_at(p.raw_arguments@, index), kind)
        } else {
            Seq::empty()
        }),
    decreases n,
{
    let field = field_of(kind);
    if n > 0 {
        let fewer = (n - 1) as nat;
        let block = p.blocks()[n - 1];
        let raw = plan::raw_at(p.raw_arguments@, n - 1);
        lemma_blocks_streamed(p, fewer, index, kind);
        lemma_block_streamed(n - 1, block, raw, index, kind);
        lemma_streamed_concat(
            sse::blocks_data(p, fewer),
            sse::block_data(n - 1, block, raw),
            index,
            kind,
            field,
        );
        let before = streamed(sse::blocks_data(p, fewer), index, kind, field);
        let last = streamed(sse::block_data(n - 1, block, raw), index, kind, field);
        if index < n - 1 {
            assert(before + last =~= before);
        } else {
            assert(before + last =~= last);
        }
    }
}

/// Every block is streamed whole. The deltas under its index add up to the text
/// of a text block, to the thought and to the signature of a thinking block, and
/// to the input of a tool call: its raw arguments where the plan has some, else
/// its input as JSON text. There are no deltas of another type under its index.
pub proof fn block_deltas_add_up(p: ResponsePlan, index: int)
    requires
        0 <= index < p.blocks().len() < u64::MAX,
    ensures
        ({
            let data = sse::stream_data(p);
            let block = p.blocks()[index];
            let raw = plan::raw_at(p.raw_arguments@, index);
            &&& streamed(data, index, "text_delta"@, "text"@) == owed(block, raw, "text_delta"@)
            &&& streamed(data, index, "thinking_delta"@, "thinking"@) == owed(
                block,
                raw,
                "thinking_delta"@,
            )
            &&& streamed(data, index, "signature_delta"@, "signature"@) == owed(
                block,
                raw,
                "signature_delta"@,
            )
            &&& streamed(data, index, "input_json_delta"@, "partial_json"@) == owed(
                block,
                raw,
                "input_json_delta"@,
            )
        }),
{
    kinds_differ();
    lemma_stream_streamed(p, index, "text_delta"@);
    lemma_stream_streamed(p, index, "thinking_delta"@);
    lemma_stream_streamed(p, index, "signature_delta"@);
    lemma_stream_streamed(p, index, "input_json_delta"@);
}

proof fn lemma_stream_streamed(p: ResponsePlan, index: int, kind: Seq<char>)
    requires
        is_delta(kind),
        0 <= index < p.blocks().len() < u64::MAX,
    ensures
        streamed(sse::stream_data(p), index, kind, field_of(kind)) == owed(
            p.blocks()[index],
            plan::raw_at(p.raw_arguments@, index),
            kind,
        ),
{
    names::event_names_differ();
    names::event_members_differ();
    let field = field_of(kind);
    let first = sse::start_data(p);
    let middle = sse::blocks_data(p, p.blocks().len());
    let ending = seq![sse::update_data(p), sse::stop_data()];
    assert(first.at("type"@) == JsonView::Str("message_start"@));
    assert(ending[0].at("type"@) == JsonView::Str("message_delta"@));
    assert(ending[1].at("type"@) == JsonView::Str("message_stop"@));
    lemma_blocks_streamed(p, p.blocks().len(), index, kind);
    lemma_streamed_none(seq![first], index, kind, field);
    lemma_streamed_none(ending, index, kind, field);
    lemma_streamed_concat(seq![first], middle, index, kind, field);
    lemma_streamed_concat(seq![first] + middle, ending, index, kind, field);
    assert(streamed(sse::stream_data(p), index, kind, field) =~= streamed(
        middle,
        index,
        kind,
        field,
    ));
}

/// A stream starts with the message as it stands then: its id, its model and its
/// token counts, but no content, no stop and no output tokens. It ends with an
/// update that gives the stop and the output tokens, and with the stop.
pub proof fn stream_starts_and_stops(p: ResponsePlan)
    ensures
        ({
            let data = sse::stream_data(p);
            let message = data[0].at("message"@);
            let update = data[data.len() - 2];
            &&& data.len() >= 3
            &&& data[0].at("type"@) == JsonView::Str("message_start"@)
            &&& message.at("id"@) == JsonView::Str(p.id@)
            &&& message.at("type"@) == JsonView::Str("message"@)
            &&& message.at("role"@) == JsonView::Str("assistant"@)
            &&& message.at("model"@) == JsonView::Str(p.model@)
            &&& message.at("content"@) == JsonView::Array(Seq::empty())
            &&& message.get("stop_reason"@) == Some(JsonView::Null)
            &&& message.get("stop_sequence"@) == Some(JsonView::Null)
            &&& message.get("stop_details"@) is None
            &&& message.at("usage"@).at("output_tokens"@).as_u64() == Some(0u64)
            &&& !p.usage.extra@.contains_key("input_tokens"@) ==> message.at("usage"@).at(
                "input_tokens"@,
            ).as_u64() == Some(p.usage.input_tokens)
            &&& update.at("type"@) == JsonView::Str("message_delta"@)
            &&& update.at("delta"@).at("stop_reason"@) == JsonView::Str(p.stop_reason@)
            &&& update.at("delta"@).at("stop_sequence"@).as_str() == text::opt_text(p.stop_sequence)
            &&& update.at("delta"@).get("stop_details"@) == (match p.stop_details {
                Some(d) => Some(d@),
                None => None,
            })
            &&& update.at("usage"@).at("output_tokens"@).as_u64() == Some(p.usage.output_tokens)
            &&& data.last().at("type"@) == JsonView::Str("message_stop"@)
        }),
{
    names::event_names_differ();
    names::event_members_differ();
    names::message_members_differ();
    let data = sse::stream_data(p);
    assert(data[0] == sse::start_data(p));
    assert(data[data.len() - 2] == sse::update_data(p));
    assert(data.last() == sse::stop_data());
    let message = data[0].at("message"@);
    assert(message == JsonView::Object(sse::started_message(p)));
    assert(data[data.len() - 2].at("delta"@) == JsonView::Object(sse::stop_members(p)));
    let usage = message.at("usage"@);
    assert(usage == JsonView::Object(
        p.usage@.insert("output_tokens"@, json::int_view(0)),
    ));
}

proof fn lemma_blocks_hold(p: ResponsePlan, n: nat, i: int) -> (at: int)
    requires
        0 <= i < n <= p.blocks().len(),
    ensures
        0 <= at,
        ({
            let own = sse::block_data(i, p.blocks()[i], plan::raw_at(p.raw_arguments@, i));
            &&& at + own.len() <= sse::blocks_data(p, n).len()
            &&& forall|j: int|
                0 <= j < own.len() ==> sse::blocks_data(p, n)[at + j] == #[trigger] own[j]
        }),
    decreases n,
{
    let fewer = (n - 1) as nat;
    let before = sse::blocks_data(p, fewer);
    if i < fewer {
        let at = lemma_blocks_hold(p, fewer, i);
        let own = sse::block_data(i, p.blocks()[i], plan::raw_at(p.raw_arguments@, i));
        assert forall|j: int| 0 <= j < own.len() implies sse::blocks_data(p, n)[at + j]
            == #[trigger] own[j] by {
            assert(before[at + j] == own[j]);
        }
        at
    } else {
        before.len() as int
    }
}

/// Whether a block is started at one place and stopped at another, with nothing
/// but its deltas between, and is started without what they will add.
pub open spec fn framed(
    data: Seq<JsonView>,
    block: JsonView,
    i: int,
    from: int,
    to: int,
) -> bool {
    let kind = block.at("type"@);
    let started = data[from].at("content_block"@);
    &&& 0 < from < to < data.len() - 2
    &&& data[from].at("type"@) == JsonView::Str("content_block_start"@)
    &&& data[from].at("index"@).as_u64() == Some(i as u64)
    &&& data[to].at("type"@) == JsonView::Str("content_block_stop"@)
    &&& data[to].at("index"@).as_u64() == Some(i as u64)
    &&& forall|j: int|
        from < j < to ==> (#[trigger] data[j]).at("type"@) == JsonView::Str(
            "content_block_delta"@,
        ) && data[j].at("index"@).as_u64() == Some(i as u64)
    &&& kind == JsonView::Str("text"@) ==> {
        &&& started.at("type"@) == kind
        &&& started.at("text"@) == JsonView::Str(Seq::empty())
    }
    &&& kind == JsonView::Str("thinking"@) ==> {
        &&& started.at("type"@) == kind
        &&& started.at("thinking"@) == JsonView::Str(Seq::empty())
        &&& started.get("signature"@) is None
    }
    &&& kind == JsonView::Str("tool_use"@) || kind == JsonView::Str(
        "server_tool_use"@,
    ) ==> {
        &&& started.at("type"@) == kind
        &&& started.at("input"@) == JsonView::Object(Map::empty())
        &&& started.at("id"@) == block.at("id"@)
        &&& started.at("name"@) == block.at("name"@)
    }
    &&& kind is Str && kind != JsonView::Str("text"@) && kind != JsonView::Str(
        "thinking"@,
    ) && kind != JsonView::Str("tool_use"@) && kind != JsonView::Str(
        "server_tool_use"@,
    ) ==> started == block && to == from + 1
}

/// Every block is started, without what its deltas will add, and stopped, under
/// its own index and after its deltas.
pub proof fn blocks_are_framed(p: ResponsePlan, i: int)
    requires
        0 <= i < p.blocks().len() < u64::MAX,
    ensures
        exists|from: int, to: int| #[trigger]
            framed(sse::stream_data(p), p.blocks()[i], i, from, to),
{
    kinds_differ();
    fields_differ();
    names::event_names_differ();
    names::event_members_differ();
    reveal_strlit("id");
    reveal_strlit("name");
    reveal_strlit("input");
    assert("id"@.len() == 2 && "name"@.len() == 4 && "name"@[0] == 'n' && "input"@.len() == 5);
    assert("type"@[0] == 't' && "text"@[0] == 't') by {
        reveal_strlit("type");
        reveal_strlit("text");
    }
    let data = sse::stream_data(p);
    let block = p.blocks()[i];
    let raw = plan::raw_at(p.raw_arguments@, i);
    let own = sse::block_data(i, block, raw);
    let deltas = sse::block_deltas(block, raw);
    let at = lemma_blocks_hold(p, p.blocks().len(), i);
    let all = sse::blocks_data(p, p.blocks().len());
    let from = at + 1;
    let to = at + own.len();
    assert forall|j: int| 0 <= j < own.len() implies data[from + j] == #[trigger] own[j] by {
        assert(data[1 + (at + j)] == all[at + j]);
    }
    assert(own[0] == sse::block_start(i, block));
    assert(own[own.len() - 1] == sse::block_stop(i));
    assert(data[from] == own[0]);
    assert(data[to] == own[own.len() - 1]);
    assert(data[from].at("content_block"@) == sse::started_block(block));
    assert forall|j: int| from < j < to implies (#[trigger] data[j]).at("type"@) == JsonView::Str(
        "content_block_delta"@,
    ) && data[j].at("index"@).as_u64() == Some(i as u64) by {
        assert(data[from + (j - from)] == own[j - from]);
        assert(own[j - from] == sse::block_growth(i, deltas[j - from - 1]));
    }
    assert(framed(data, block, i, from, to));
}

/// Without a broken event, a script's stream sends the events in order, one chunk
/// each: all of them, or as many as the script lets through. It waits as long as
/// the script says before every chunk but the first.
pub proof fn streams_send_their_events(events: Seq<EventView>, options: SuccessScript)
    requires
        !options.malformed_sse,
    ensures
        ({
            let chunks = sse::stream_chunks(events, options);
            &&& options.close_after_chunks is None ==> chunks.len() == events.len()
            &&& options.close_after_chunks matches Some(n) ==> chunks.len() == (if n
                < events.len() {
                n as int
            } else {
                events.len() as int
            })
            &&& forall|i: int|
                0 <= i < chunks.len() ==> {
                    &&& (#[trigger] chunks[i]).content == ContentView::Text(
                        crate::sse::rendered(events[i]),
                    )
                    &&& i == 0 ==> chunks[i].delay_ms == 0
                    &&& i > 0 ==> chunks[i].delay_ms == options.inter_event_delay_ms
                }
        }),
{
}

/// A malformed stream sends the events in front of the message's end, as far as
/// the script lets them through, and then one event whose data is broken off.
pub proof fn malformed_streams_break(events: Seq<EventView>, options: SuccessScript, end: int)
    requires
        options.malformed_sse,
        0 <= end < events.len(),
        events[end].event == Some("message_delta"@) || events[end].event == Some("message_stop"@),
        forall|i: int|
            0 <= i < end ==> (#[trigger] events[i]).event != Some("message_delta"@)
                && events[i].event != Some("message_stop"@),
    ensures
        ({
            let chunks = sse::stream_chunks(events, options);
            let closed = options.close_after_chunks matches Some(n) && n <= end;
            &&& closed ==> chunks.len() == options.close_after_chunks->0
            &&& !closed ==> {
                &&& chunks.len() == end + 1
                &&& chunks[end].content == ContentView::Text(
                    "event: content_block_delta\ndata: {broken\n\n"@,
                )
            }
            &&& forall|i: int|
                0 <= i < chunks.len() && i < end ==> (#[trigger] chunks[i]).content
                    == ContentView::Text(crate::sse::rendered(events[i]))
        }),
{
    lemma_end(events, end);
}

proof fn lemma_end(events: Seq<EventView>, end: int)
    requires
        0 <= end < events.len(),
        events[end].event == Some("message_delta"@) || events[end].event == Some("message_stop"@),
        forall|i: int|
            0 <= i < end ==> (#[trigger] events[i]).event != Some("message_delta"@)
                && events[i].event != Some("message_stop"@),
    ensures
        sse::first_terminal(events) == end,
    decreases end,
{
    if end > 0 {
        let rest = events.skip(1);
        assert(events[0].event != Some("message_delta"@));
        assert forall|i: int| 0 <= i < end - 1 implies (#[trigger] rest[i]).event != Some(
            "message_delta"@,
        ) && rest[i].event != Some("message_stop"@) by {
            assert(rest[i] == events[i + 1]);
        }
        lemma_end(rest, end - 1);
    }
}

/// What a delta adds to a block that is read: text behind the text, a thought
/// behind the thought, a signature behind the signature, a piece of input behind
/// the pieces, a citation behind the citations. The rest of the block stays.
pub proof fn deltas_are_added(block: BlockView, delta: JsonView, after: BlockView)
    requires
        record::block_delta(block, delta) == Ok::<BlockView, RecordError>(after),
    ensures
        ({
            let was = JsonView::Object(block.value);
            let now = JsonView::Object(after.value);
            let kind = delta.at("type"@);
            let grown = if kind == JsonView::Str("text_delta"@) {
                "text"@
            } else if kind == JsonView::Str("thinking_delta"@) {
                "thinking"@
            } else if kind == JsonView::Str("signature_delta"@) {
                "signature"@
            } else {
                "citations"@
            };
            &&& after.index == block.index
            &&& after.open == block.open
            &&& kind == JsonView::Str("input_json_delta"@) ==> {
                &&& after.value == block.value
                &&& block.arguments is None ==> after.arguments == Some(
                    delta.text_at("partial_json"@),
                )
                &&& block.arguments matches Some(raw) ==> after.arguments == Some(
                    raw + delta.text_at("partial_json"@),
                )
            }
            &&& kind == JsonView::Str("citations_delta"@) ==> now.at("citations"@).items()
                == was.at("citations"@).items().push(delta.at("citation"@))
            &&& kind == JsonView::Str("text_delta"@) || kind == JsonView::Str("thinking_delta"@)
                || kind == JsonView::Str("signature_delta"@) ==> now.at(grown) == JsonView::Str(
                was.text_at(grown) + delta.text_at(grown),
            )
            &&& kind != JsonView::Str("input_json_delta"@) ==> {
                &&& after.arguments == block.arguments
                &&& forall|k: Seq<char>|
                    k != grown ==> #[trigger] now.get(k) == was.get(k)
            }
            &&& kind == JsonView::Str("text_delta"@) || kind == JsonView::Str("thinking_delta"@)
                || kind == JsonView::Str("signature_delta"@) || kind == JsonView::Str(
                "input_json_delta"@,
            ) || kind == JsonView::Str("citations_delta"@)
            &&& was.at("type"@) == JsonView::Str("text"@) ==> kind != JsonView::Str(
                "signature_delta"@,
            )
        }),
{
    names::delta_names_differ();
    let was = JsonView::Object(block.value);
    let now = JsonView::Object(after.value);
    let kind = delta.at("type"@);
    if kind == JsonView::Str("citations_delta"@) {
        assert(now.at("citations"@).items() =~= was.at("citations"@).items().push(
            delta.at("citation"@),
        ));
    } else if kind == JsonView::Str("text_delta"@) {
        assert(Seq::<char>::empty() + delta.text_at("text"@) =~= delta.text_at("text"@));
    } else if kind == JsonView::Str("thinking_delta"@) {
        assert(Seq::<char>::empty() + delta.text_at("thinking"@) =~= delta.text_at("thinking"@));
    } else if kind == JsonView::Str("signature_delta"@) {
        assert(Seq::<char>::empty() + delta.text_at("signature"@) =~= delta.text_at("signature"@));
    }
}

/// A delta that suits its block is taken.
pub proof fn suitable_deltas_are_taken(block: BlockView, delta: JsonView)
    ensures
        ({
            let was = JsonView::Object(block.value);
            let kind = delta.at("type"@);
            let r = record::block_delta(block, delta);
            &&& kind == JsonView::Str("text_delta"@) && delta.at("text"@) is Str && (was.at(
                "text"@,
            ) is Str || was.at("text"@) is Null) ==> r is Ok
            &&& kind == JsonView::Str("thinking_delta"@) && delta.at("thinking"@) is Str && (was.at(
                "thinking"@,
            ) is Str || was.at("thinking"@) is Null) ==> r is Ok
            &&& kind == JsonView::Str("signature_delta"@) && delta.at("signature"@) is Str && (
            was.at("signature"@) is Str || was.at("signature"@) is Null) && was.at("type"@)
                != JsonView::Str("text"@) ==> r is Ok
            &&& kind == JsonView::Str("input_json_delta"@) && delta.at("partial_json"@) is Str
                ==> r is Ok
            &&& kind == JsonView::Str("citations_delta"@) && (was.get("citations"@) is None
                || was.at("citations"@) is Array) ==> r is Ok
        }),
{
    names::delta_names_differ();
}

/// A block that is closed keeps what it has; the input of a tool call that came
/// in pieces is the object that the pieces spell, and without such an object the
/// block is refused.
pub proof fn closed_blocks_hold_their_input(block: BlockView)
    ensures
        block.arguments is None ==> record::block_closed(block) == Ok::<BlockView, RecordError>(
            BlockView { open: false, ..block },
        ),
        block.arguments matches Some(raw) ==> (match codec::json_parse(encode_utf8(raw)) {
            Ok(JsonView::Object(input)) => record::block_closed(block) matches Ok(after)
                && JsonView::Object(after.value).at("input"@) == JsonView::Object(input)
                && !after.open && after.index == block.index && forall|k: Seq<char>|
                k != "input"@ ==> #[trigger] JsonView::Object(after.value).get(k)
                    == JsonView::Object(block.value).get(k),
            _ => record::block_closed(block) is Err,
        }),
{
}

/// Reading a stream goes by its rules: a name that contradicts the data, an
/// error, and whatever comes out of turn is refused; a ping changes nothing.
pub proof fn stream_rules_hold(stream: StreamView, name: Option<Seq<char>>, data: JsonView)
    ensures
        ({
            let r = record::apply_event(stream, name, data);
            let t = data.at("type"@);
            let agree = t is Str && (name is None || name == Some(t->Str_0));
            &&& t is Str && name is Some && name != Some(t->Str_0) ==> r is Err
            &&& agree && t == JsonView::Str("ping"@) ==> r == Ok::<StreamView, RecordError>(stream)
            &&& agree && t == JsonView::Str("error"@) ==> r is Err
            &&& agree && stream.stopped && t != JsonView::Str("ping"@) ==> r is Err
            &&& agree && !stream.stopped && t == JsonView::Str("message_start"@) ==> (match data.at(
                "message"@,
            ) {
                JsonView::Object(m) => if stream.message is None {
                    r == Ok::<StreamView, RecordError>(
                        StreamView { message: Some(m), ..stream },
                    )
                } else {
                    r is Err
                },
                _ => r is Err,
            })
            &&& agree && stream.message is None && t != JsonView::Str("ping"@) && t
                != JsonView::Str("message_start"@) ==> r is Err
            &&& agree && t == JsonView::Str("message_stop"@) ==> (r is Ok <==> !stream.stopped
                && stream.message is Some && stream.updated && forall|i: int|
                0 <= i < stream.blocks.len() ==> !(#[trigger] stream.blocks[i]).open)
            &&& agree && t == JsonView::Str("message_stop"@) && r is Ok ==> r->Ok_0 == (
            StreamView { stopped: true, ..stream })
            &&& agree && t == JsonView::Str("message_delta"@) && (exists|i: int|
                0 <= i < stream.blocks.len() && (#[trigger] stream.blocks[i]).open) ==> r is Err
            &&& agree && t == JsonView::Str("message_delta"@) && r is Ok ==> {
                &&& r->Ok_0.updated
                &&& r->Ok_0.blocks == stream.blocks
                &&& !r->Ok_0.stopped
            }
            &&& agree && t != JsonView::Str("message_stop"@) && r is Ok ==> r->Ok_0.stopped
                == stream.stopped
            &&& agree && t != JsonView::Str("message_delta"@) && r is Ok ==> r->Ok_0.updated
                == stream.updated
        }),
{
    names::event_names_differ();
}

/// An update replaces the members of the message that it names, and the token
/// counts that it names; every other stays.
pub proof fn updates_replace_members(
    message: Map<Seq<char>, JsonView>,
    data: JsonView,
    after: Map<Seq<char>, JsonView>,
)
    requires
        record::message_updated(message, data) == Ok::<Map<Seq<char>, JsonView>, RecordError>(
            after,
        ),
    ensures
        ({
            let was = JsonView::Object(message);
            let now = JsonView::Object(after);
            let delta = data.at("delta"@);
            let usage = data.at("usage"@);
            &&& forall|k: Seq<char>|
                k != "usage"@ ==> #[trigger] now.get(k) == (if delta.get(k) is Some {
                    delta.get(k)
                } else {
                    was.get(k)
                })
            &&& forall|k: Seq<char>|
                (#[trigger] usage.get(k)) is Some ==> now.at("usage"@).get(k) == usage.get(k)
            &&& forall|k: Seq<char>|
                usage.get(k) is None && delta.get("usage"@) is None && was.at("usage"@) is Object
                    ==> #[trigger] now.at("usage"@).get(k) == was.at("usage"@).get(k)
        }),
{
}

/// A block that starts is kept as it is, and open, unless one with its index has
/// started before.
pub proof fn blocks_start_once(stream: StreamView, data: JsonView, index: u64)
    requires
        data.at("index"@).as_u64() == Some(index),
        data.at("content_block"@) is Object,
    ensures
        ({
            let r = record::block_event(stream, "content_block_start"@, data);
            let known = exists|i: int|
                0 <= i < stream.blocks.len() && (#[trigger] stream.blocks[i]).index == index;
            &&& known ==> r is Err
            &&& !known ==> r is Ok && r->Ok_0.blocks.len() == stream.blocks.len() + 1 && exists|
                i: int,
            |
                {
                    &&& 0 <= i < r->Ok_0.blocks.len()
                    &&& r->Ok_0.blocks.remove(i) == stream.blocks
                    &&& (#[trigger] r->Ok_0.blocks[i]).index == index
                    &&& r->Ok_0.blocks[i].open
                    &&& r->Ok_0.blocks[i].arguments is None
                    &&& JsonView::Object(r->Ok_0.blocks[i].value) == data.at("content_block"@)
                    &&& i > 0 ==> stream.blocks[i - 1].index < index
                    &&& i < stream.blocks.len() ==> stream.blocks[i].index >= index
                }
        }),
{
    lemma_block_at(stream.blocks, index);
    lemma_block_place(stream.blocks, index);
    let at = record::block_place(stream.blocks, index);
    let value = data.at("content_block"@)->Object_0;
    let made = BlockView { index, value, open: true, arguments: None };
    let all = stream.blocks.insert(at, made);
    assert(all.remove(at) =~= stream.blocks);
    assert(all[at] == made);
}

proof fn lemma_block_at(blocks: Seq<BlockView>, index: u64)
    ensures
        record::block_at(blocks, index) is None ==> forall|i: int|
            0 <= i < blocks.len() ==> (#[trigger] blocks[i]).index != index,
        record::block_at(blocks, index) matches Some(i) ==> 0 <= i < blocks.len()
            && blocks[i].index == index,
    decreases blocks.len(),
{
    if blocks.len() > 0 && blocks.last().index != index {
        let front = blocks.drop_last();
        lemma_block_at(front, index);
        if record::block_at(front, index) is None {
            assert forall|i: int| 0 <= i < blocks.len() implies (#[trigger] blocks[i]).index
                != index by {
                if i < front.len() {
                    assert(front[i] == blocks[i]);
                }
            }
        }
    }
}

proof fn lemma_block_place(blocks: Seq<BlockView>, index: u64)
    ensures
        0 <= record::block_place(blocks, index) <= blocks.len(),
        record::block_place(blocks, index) > 0 ==> blocks[record::block_place(blocks, index)
            - 1].index < index,
        record::block_place(blocks, index) < blocks.len() ==> blocks[record::block_place(
            blocks,
            index,
        )].index >= index,
    decreases blocks.len(),
{
    if blocks.len() > 0 && blocks[0].index < index {
        let rest = blocks.skip(1);
        lemma_block_place(rest, index);
        let p = record::block_place(rest, index);
        if p > 0 {
            assert(rest[p - 1] == blocks[p]);
        }
        if p < rest.len() {
            assert(rest[p] == blocks[p + 1]);
        }
    }
}

/// A message that a stream carries is the started one with every block, in the
/// order in which they were kept.
pub proof fn streamed_messages_hold_their_blocks(events: Seq<EventView>)
    requires
        record::streamed_message(events) is Ok,
    ensures
        ({
            let stream = record::stream_after(events)->Ok_0;
            let message = record::streamed_message(events)->Ok_0;
            let content = message.at("content"@).items();
            &&& stream.stopped
            &&& content.len() == stream.blocks.len()
            &&& forall|i: int|
                0 <= i < stream.blocks.len() ==> content[i] == JsonView::Object(
                    (#[trigger] stream.blocks[i]).value,
                )
            &&& forall|k: Seq<char>|
                k != "content"@ ==> #[trigger] message.get(k) == JsonView::Object(
                    stream.message->0,
                ).get(k)
        }),
{
}

/// A script is derived from a message with content and a stop reason, and from
/// nothing else. It answers with that content and that stop, and with the token
/// counts and details that the message gives.
pub proof fn scripts_are_derived(body: JsonView)
    ensures
        record::derived(body) is Ok <==> body.at("type"@) == JsonView::Str("message"@) && body.at(
            "content"@,
        ) is Array && body.at("stop_reason"@) is Str,
        record::derived(body) matches Ok(script) ==> {
            &&& script.at("kind"@) == JsonView::Str("success"@)
            &&& script.at("content"@) == body.at("content"@)
            &&& script.at("stop_reason"@) == body.at("stop_reason"@)
            &&& script.get("usage"@) == body.get("usage"@)
            &&& script.get("stop_sequence"@) == body.get("stop_sequence"@)
            &&& script.get("stop_details"@) == body.get("stop_details"@)
        },
{
    names::message_members_differ();
    reveal_strlit("kind");
    assert("kind"@.len() == 4);
}

/// The event that carries data is named after the data's type, and carries the
/// data as JSON text.
pub proof fn events_are_named_after_their_data(data: Seq<JsonView>, i: int)
    requires
        0 <= i < data.len(),
    ensures
        sse::as_events(data).len() == data.len(),
        sse::as_events(data)[i].data == codec::json_text(data[i]),
        data[i].at("type"@) matches JsonView::Str(name) ==> sse::as_events(data)[i].event == Some(
            name,
        ),
{
}

/// A delta or a stop changes the open block of its index and nothing else; one
/// for a block that is not open, and one without an index, is refused.
pub proof fn block_events_reach_their_block(stream: StreamView, data: JsonView, i: int)
    requires
        0 <= i < stream.blocks.len(),
        forall|j: int, k: int|
            0 <= j < k < stream.blocks.len() ==> (#[trigger] stream.blocks[j]).index != (
            #[trigger] stream.blocks[k]).index,
    ensures
        ({
            let grown = record::block_event(stream, "content_block_delta"@, data);
            let closed = record::block_event(stream, "content_block_stop"@, data);
            let block = stream.blocks[i];
            &&& data.at("index"@).as_u64() is None ==> grown is Err && closed is Err
            &&& data.at("index"@).as_u64() == Some(block.index) && !block.open ==> grown is Err
                && closed is Err
            &&& data.at("index"@).as_u64() == Some(block.index) && block.open ==> {
                &&& match record::block_delta(block, data.at("delta"@)) {
                    Ok(b) => grown == Ok::<StreamView, RecordError>(
                        StreamView { blocks: stream.blocks.update(i, b), ..stream },
                    ),
                    Err(_) => grown is Err,
                }
                &&& match record::block_closed(block) {
                    Ok(b) => closed == Ok::<StreamView, RecordError>(
                        StreamView { blocks: stream.blocks.update(i, b), ..stream },
                    ),
                    Err(_) => closed is Err,
                }
            }
        }),
{
    names::event_names_differ();
    lemma_block_at(stream.blocks, stream.blocks[i].index);
}

/// A stream is read event by event: each is applied to what those before it
/// made, and the first that is refused ends the reading. Without data that is
/// JSON an event is refused.
pub proof fn streams_are_read_event_by_event(events: Seq<EventView>, last: EventView)
    ensures
        record::stream_after(Seq::empty()) == Ok::<StreamView, RecordError>(
            StreamView { message: None, blocks: Seq::empty(), updated: false, stopped: false },
        ),
        record::stream_after(events) is Err ==> record::stream_after(events.push(last)) is Err,
        record::stream_after(events) matches Ok(stream) ==> (match codec::json_parse(
            encode_utf8(last.data),
        ) {
            Ok(data) => record::stream_after(events.push(last)) == record::apply_event(
                stream,
                last.event,
                data,
            ),
            Err(_) => record::stream_after(events.push(last)) is Err,
        }),
{
    assert(events.push(last).drop_last() =~= events);
}

/// An event whose data has no type goes by its name.
pub proof fn untyped_events_go_by_their_name(
    stream: StreamView,
    name: Seq<char>,
    data: JsonView,
    typed: JsonView,
)
    requires
        !(data.at("type"@) is Str),
        typed.at("type"@) == JsonView::Str(name),
        forall|k: Seq<char>| k != "type"@ ==> #[trigger] typed.get(k) == data.get(k),
    ensures
        record::apply_event(stream, Some(name), data) == record::apply_event(
            stream,
            Some(name),
            typed,
        ),
{
    names::event_members_differ();
    assert(typed.get("message"@) == data.get("message"@));
    assert(typed.get("index"@) == data.get("index"@));
    assert(typed.get("content_block"@) == data.get("content_block"@));
    assert(typed.get("delta"@) == data.get("delta"@));
    assert(typed.get("usage"@) == data.get("usage"@));
}

} // verus!
