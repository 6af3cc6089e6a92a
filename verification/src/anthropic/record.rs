//! Semantic recording preserves native content blocks and terminal state.

use vstd::prelude::*;
use vstd::string::*;
use vstd::utf8::*;

use crate::anthropic::engine::plan;
use crate::anthropic::engine::plan::ResponsePlan;
use crate::anthropic::engine::scenario;
use crate::anthropic::engine::scenario::{SuccessScript, TranscriptEvent};
use crate::anthropic::models::MessagesRequest;
use crate::anthropic::names;
use crate::json::{Json, JsonView, Members};
use crate::sse::EventView;
use crate::{codec, json, sse, text};

verus! {

/// Why an exchange cannot be recorded.
#[derive(Clone, Copy, Debug, PartialEq, Eq, Structural)]
pub enum RecordError {
    /// The event stream is no UTF-8 text.
    NotText,
    /// The body, or the data of an event, is no JSON.
    InvalidJson,
    /// The response is no message.
    NotAMessage,
    /// The message has no content list.
    MissingContent,
    /// The message has no stop reason.
    MissingStopReason,
    /// An event's name contradicts the type in its data.
    EventMismatch,
    /// A second message starts.
    RepeatedStart,
    /// A message starts without a message object.
    MissingMessage,
    /// An event comes before the message starts.
    NotStarted,
    /// An event comes after the message stopped.
    AlreadyStopped,
    /// A block event names no block.
    MissingIndex,
    /// A block starts without a block object.
    MissingBlock,
    /// A block starts twice.
    RepeatedBlock,
    /// A block event names a block that is not open.
    BlockNotOpen,
    /// A block is still open.
    BlockOpen,
    /// A delta does not suit its block: a signature on text, or an addition to a
    /// member of another type.
    DeltaMismatch,
    /// A delta lacks what it is to add.
    MissingDelta,
    /// A delta of an unknown type.
    UnsupportedDelta,
    /// Tool input that is no complete JSON object.
    IncompleteInput,
    /// A message update that is no object.
    MalformedUpdate,
    /// The message stops without an update.
    MissingUpdate,
    /// The upstream reported an error.
    UpstreamError,
    /// An event of an unknown type.
    UnsupportedEvent,
    /// The stream ended before the message stopped.
    Unfinished,
}

/// A content block of a message under way.
#[verifier::ext_equal]
pub struct BlockView {
    pub index: u64,
    pub value: Map<Seq<char>, JsonView>,
    pub open: bool,
    pub arguments: Option<Seq<char>>,
}

/// A message under way: the message object, its blocks in ascending order of
/// their indexes, whether it was updated and whether it stopped.
#[verifier::ext_equal]
pub struct StreamView {
    pub message: Option<Map<Seq<char>, JsonView>>,
    pub blocks: Seq<BlockView>,
    pub updated: bool,
    pub stopped: bool,
}

/// A message before its first event.
pub open spec fn no_stream() -> StreamView {
    StreamView { message: None, blocks: Seq::empty(), updated: false, stopped: false }
}

/// Where the block `index` stands.
pub open spec fn block_at(blocks: Seq<BlockView>, index: u64) -> Option<int>
    decreases blocks.len(),
{
    if blocks.len() == 0 {
        None
    } else if blocks.last().index == index {
        Some(blocks.len() - 1)
    } else {
        block_at(blocks.drop_last(), index)
    }
}

/// Where a new block `index` belongs: behind the leading blocks of smaller
/// index.
pub open spec fn block_place(blocks: Seq<BlockView>, index: u64) -> int
    decreases blocks.len(),
{
    if blocks.len() == 0 {
        0
    } else if blocks[0].index < index {
        1 + block_place(blocks.skip(1), index)
    } else {
        0
    }
}

/// Whether a block is open.
pub open spec fn any_open(blocks: Seq<BlockView>) -> bool {
    exists|i: int| 0 <= i < blocks.len() && (#[trigger] blocks[i]).open
}

/// The type of an event: the one in its data, else its name.
pub open spec fn event_kind(name: Option<Seq<char>>, data: JsonView) -> Option<Seq<char>> {
    match data.at("type"@).as_str() {
        Some(t) => Some(t),
        None => name,
    }
}

/// Whether an event's name contradicts the type in its data.
pub open spec fn mismatched(name: Option<Seq<char>>, data: JsonView) -> bool {
    name matches Some(n) && data.at("type"@) matches JsonView::Str(t) && n != t
}

/// Text added to a string member, which starts out empty where it is absent or
/// null.
pub open spec fn extended(
    block: BlockView,
    field: Seq<char>,
    more: Option<Seq<char>>,
) -> Result<BlockView, RecordError> {
    match more {
        None => Err(RecordError::MissingDelta),
        Some(added) => match JsonView::Object(block.value).at(field) {
            JsonView::Null => Ok(
                BlockView { value: block.value.insert(field, JsonView::Str(added)), ..block },
            ),
            JsonView::Str(s) => Ok(
                BlockView {
                    value: block.value.insert(field, JsonView::Str(s + added)),
                    ..block
                },
            ),
            _ => Err(RecordError::DeltaMismatch),
        },
    }
}

/// What a delta makes of its block. A text block takes no signature.
pub open spec fn block_delta(block: BlockView, delta: JsonView) -> Result<BlockView, RecordError> {
    match delta.at("type"@).as_str() {
        None => Err(RecordError::UnsupportedDelta),
        Some(t) => if t == "text_delta"@ {
            extended(block, "text"@, delta.at("text"@).as_str())
        } else if t == "thinking_delta"@ {
            extended(block, "thinking"@, delta.at("thinking"@).as_str())
        } else if t == "signature_delta"@ {
            if JsonView::Object(block.value).at("type"@) == JsonView::Str("text"@) {
                Err(RecordError::DeltaMismatch)
            } else {
                extended(block, "signature"@, delta.at("signature"@).as_str())
            }
        } else if t == "input_json_delta"@ {
            match delta.at("partial_json"@).as_str() {
                None => Err(RecordError::MissingDelta),
                Some(more) => Ok(
                    BlockView {
                        arguments: Some(
                            match block.arguments {
                                Some(raw) => raw + more,
                                None => more,
                            },
                        ),
                        ..block
                    },
                ),
            }
        } else if t == "citations_delta"@ {
            match JsonView::Object(block.value).get("citations"@) {
                None => Ok(
                    BlockView {
                        value: block.value.insert(
                            "citations"@,
                            JsonView::Array(seq![delta.at("citation"@)]),
                        ),
                        ..block
                    },
                ),
                Some(JsonView::Array(items)) => Ok(
                    BlockView {
                        value: block.value.insert(
                            "citations"@,
                            JsonView::Array(items.push(delta.at("citation"@))),
                        ),
                        ..block
                    },
                ),
                Some(_) => Err(RecordError::DeltaMismatch),
            }
        } else {
            Err(RecordError::UnsupportedDelta)
        },
    }
}

/// A block when it closes: the tool input that came in pieces must be a whole
/// JSON object.
pub open spec fn block_closed(block: BlockView) -> Result<BlockView, RecordError> {
    match block.arguments {
        None => Ok(BlockView { open: false, ..block }),
        Some(raw) => match codec::json_parse(encode_utf8(raw)) {
            Ok(JsonView::Object(input)) => Ok(
                BlockView {
                    value: block.value.insert("input"@, JsonView::Object(input)),
                    open: false,
                    ..block
                },
            ),
            _ => Err(RecordError::IncompleteInput),
        },
    }
}

/// A message after an update: members replace members, and token counts replace
/// token counts.
pub open spec fn message_updated(
    message: Map<Seq<char>, JsonView>,
    data: JsonView,
) -> Result<Map<Seq<char>, JsonView>, RecordError> {
    let merged = match data.get("delta"@) {
        None => Ok(message),
        Some(JsonView::Object(delta)) => Ok(message.union_prefer_right(delta)),
        Some(_) => Err(RecordError::MalformedUpdate),
    };
    match merged {
        Err(e) => Err(e),
        Ok(m) => match data.get("usage"@) {
            None => Ok(m),
            Some(JsonView::Object(usage)) => {
                let before = match JsonView::Object(m).at("usage"@) {
                    JsonView::Object(u) => u,
                    _ => Map::empty(),
                };
                Ok(m.insert("usage"@, JsonView::Object(before.union_prefer_right(usage))))
            },
            Some(_) => Err(RecordError::MalformedUpdate),
        },
    }
}

/// A message after one of its open blocks changed.
pub open spec fn block_changed(
    stream: StreamView,
    at: int,
    block: Result<BlockView, RecordError>,
) -> Result<StreamView, RecordError> {
    match block {
        Ok(b) => Ok(StreamView { blocks: stream.blocks.update(at, b), ..stream }),
        Err(e) => Err(e),
    }
}

/// What a block event makes of a message under way.
pub open spec fn block_event(stream: StreamView, kind: Seq<char>, data: JsonView) -> Result<
    StreamView,
    RecordError,
> {
    match data.at("index"@).as_u64() {
        None => Err(RecordError::MissingIndex),
        Some(index) => if kind == "content_block_start"@ {
            match data.at("content_block"@) {
                JsonView::Object(value) => if block_at(stream.blocks, index) is Some {
                    Err(RecordError::RepeatedBlock)
                } else {
                    Ok(
                        StreamView {
                            blocks: stream.blocks.insert(
                                block_place(stream.blocks, index),
                                BlockView { index, value, open: true, arguments: None },
                            ),
                            ..stream
                        },
                    )
                },
                _ => Err(RecordError::MissingBlock),
            }
        } else {
            match block_at(stream.blocks, index) {
                Some(at) if stream.blocks[at].open => if kind == "content_block_delta"@ {
                    block_changed(stream, at, block_delta(stream.blocks[at], data.at("delta"@)))
                } else {
                    block_changed(stream, at, block_closed(stream.blocks[at]))
                },
                _ => Err(RecordError::BlockNotOpen),
            }
        },
    }
}

/// What an event makes of a message under way. A message starts once, its
/// blocks start, grow and close, it is updated while no block is open, and it
/// stops once, as its last event; pings may come at any time.
pub open spec fn apply_event(stream: StreamView, name: Option<Seq<char>>, data: JsonView) -> Result<
    StreamView,
    RecordError,
> {
    if mismatched(name, data) {
        Err(RecordError::EventMismatch)
    } else {
        match event_kind(name, data) {
            None => Err(RecordError::UnsupportedEvent),
            Some(kind) => if kind == "ping"@ {
                Ok(stream)
            } else if kind == "error"@ {
                Err(RecordError::UpstreamError)
            } else if stream.stopped {
                Err(RecordError::AlreadyStopped)
            } else if kind == "message_start"@ {
                match data.at("message"@) {
                    JsonView::Object(message) => if stream.message is Some {
                        Err(RecordError::RepeatedStart)
                    } else {
                        Ok(StreamView { message: Some(message), ..stream })
                    },
                    _ => Err(RecordError::MissingMessage),
                }
            } else if stream.message is None {
                Err(RecordError::NotStarted)
            } else if kind == "content_block_start"@ || kind == "content_block_delta"@ || kind
                == "content_block_stop"@ {
                block_event(stream, kind, data)
            } else if kind == "message_delta"@ {
                if any_open(stream.blocks) {
                    Err(RecordError::BlockOpen)
                } else {
                    match message_updated(stream.message->0, data) {
                        Ok(message) => Ok(
                            StreamView { message: Some(message), updated: true, ..stream },
                        ),
                        Err(e) => Err(e),
                    }
                }
            } else if kind == "message_stop"@ {
                if any_open(stream.blocks) {
                    Err(RecordError::BlockOpen)
                } else if !stream.updated {
                    Err(RecordError::MissingUpdate)
                } else {
                    Ok(StreamView { stopped: true, ..stream })
                }
            } else {
                Err(RecordError::UnsupportedEvent)
            },
        }
    }
}

/// The message under way after some events.
pub open spec fn stream_after(events: Seq<EventView>) -> Result<StreamView, RecordError>
    decreases events.len(),
{
    if events.len() == 0 {
        Ok(no_stream())
    } else {
        match stream_after(events.drop_last()) {
            Err(e) => Err(e),
            Ok(stream) => match codec::json_parse(encode_utf8(events.last().data)) {
                Err(_) => Err(RecordError::InvalidJson),
                Ok(data) => apply_event(stream, events.last().event, data),
            },
        }
    }
}

/// The blocks of a message as content.
pub open spec fn content_of(blocks: Seq<BlockView>) -> JsonView {
    JsonView::Array(Seq::new(blocks.len(), |i: int| JsonView::Object(blocks[i].value)))
}

/// The message that a whole stream carries.
pub open spec fn streamed_message(events: Seq<EventView>) -> Result<JsonView, RecordError> {
    match stream_after(events) {
        Err(e) => Err(e),
        Ok(stream) => match stream.message {
            Some(message) if stream.stopped => Ok(
                JsonView::Object(message.insert("content"@, content_of(stream.blocks))),
            ),
            _ => Err(RecordError::Unfinished),
        },
    }
}

/// `m` with the member `field` of `body`, where the body has it.
pub open spec fn carried(
    m: Map<Seq<char>, JsonView>,
    body: JsonView,
    field: Seq<char>,
) -> Map<Seq<char>, JsonView> {
    match body.get(field) {
        Some(v) => m.insert(field, v),
        None => m,
    }
}

/// The script that answers as a message did: its content, stop reason and, where
/// it has them, its token counts and the details of the stop.
pub open spec fn derived(body: JsonView) -> Result<JsonView, RecordError> {
    if body.at("type"@) != JsonView::Str("message"@) {
        Err(RecordError::NotAMessage)
    } else if !(body.at("content"@) is Array) {
        Err(RecordError::MissingContent)
    } else if !(body.at("stop_reason"@) is Str) {
        Err(RecordError::MissingStopReason)
    } else {
        let core = map![
            "kind"@ => JsonView::Str("success"@),
            "content"@ => body.at("content"@),
            "stop_reason"@ => body.at("stop_reason"@)
        ];
        Ok(
            JsonView::Object(
                carried(
                    carried(carried(core, body, "usage"@), body, "stop_sequence"@),
                    body,
                    "stop_details"@,
                ),
            ),
        )
    }
}

/// The value that an outcome carries.
pub open spec fn outcome(r: Result<Json, RecordError>) -> Result<JsonView, RecordError> {
    match r {
        Ok(j) => Ok(j@),
        Err(e) => Err(e),
    }
}

/// A content block of a message under way.
struct Block {
    index: u64,
    value: Members,
    open: bool,
    arguments: Option<String>,
}

impl Block {
    spec fn view(&self) -> BlockView {
        BlockView {
            index: self.index,
            value: self.value@,
            open: self.open,
            arguments: text::opt_text(self.arguments),
        }
    }
}

spec fn blocks_view(blocks: Seq<Block>) -> Seq<BlockView> {
    Seq::new(blocks.len(), |i: int| blocks[i]@)
}

/// A message under way.
struct MessageStream {
    message: Option<Members>,
    blocks: Vec<Block>,
    updated: bool,
    stopped: bool,
}

impl MessageStream {
    spec fn view(&self) -> StreamView {
        StreamView {
            message: match self.message {
                Some(m) => Some(m@),
                None => None,
            },
            blocks: blocks_view(self.blocks@),
            updated: self.updated,
            stopped: self.stopped,
        }
    }
}

spec fn block_outcome(r: Result<Block, RecordError>) -> Result<BlockView, RecordError> {
    match r {
        Ok(b) => Ok(b@),
        Err(e) => Err(e),
    }
}

spec fn stream_outcome(r: Result<MessageStream, RecordError>) -> Result<StreamView, RecordError> {
    match r {
        Ok(s) => Ok(s@),
        Err(e) => Err(e),
    }
}

/// Where the block `index` stands.
fn find_block(blocks: &Vec<Block>, index: u64) -> (r: Option<usize>)
    ensures
        match r {
            Some(at) => block_at(blocks_view(blocks@), index) == Some(at as int) && at < blocks.len(),
            None => block_at(blocks_view(blocks@), index) is None,
        },
{
    let ghost all = blocks_view(blocks@);
    let mut i: usize = blocks.len();
    assert(all.take(i as int) =~= all);
    while i > 0
        invariant
            i <= blocks.len(),
            all == blocks_view(blocks@),
            block_at(all, index) == block_at(all.take(i as int), index),
        decreases i,
    {
        assert(all.take(i as int).drop_last() =~= all.take(i - 1));
        assert(all.take(i as int).last() == blocks@[i - 1]@);
        i = i - 1;
        if blocks[i].index == index {
            return Some(i);
        }
    }
    None
}

/// Where a new block `index` belongs.
fn find_place(blocks: &Vec<Block>, index: u64) -> (r: usize)
    ensures
        r == block_place(blocks_view(blocks@), index),
        r <= blocks.len(),
{
    let ghost all = blocks_view(blocks@);
    let mut i: usize = 0;
    assert(all.skip(0) =~= all);
    while i < blocks.len() && blocks[i].index < index
        invariant
            i <= blocks.len(),
            all == blocks_view(blocks@),
            block_place(all, index) == i + block_place(all.skip(i as int), index),
        decreases blocks.len() - i,
    {
        assert(all.skip(i as int).skip(1) =~= all.skip(i + 1));
        i = i + 1;
    }
    i
}

/// Whether a block is open.
fn has_open(blocks: &Vec<Block>) -> (r: bool)
    ensures
        r == any_open(blocks_view(blocks@)),
{
    for i in 0..blocks.len()
        invariant
            forall|j: int| 0 <= j < i ==> !blocks@[j].open,
    {
        if blocks[i].open {
            assert(blocks_view(blocks@)[i as int].open);
            return true;
        }
    }
    false
}

/// Adds text to a string member.
fn append(block: Block, field: &str, more: Option<&str>) -> (r: Result<Block, RecordError>)
    ensures
        block_outcome(r) == extended(block@, field@, text::opt_str(more)),
{
    let added = match more {
        Some(added) => added,
        None => {
            return Err(RecordError::MissingDelta);
        },
    };
    let mut block = block;
    let grown = match block.value.get(field) {
        None | Some(Json::Null) => added.to_owned(),
        Some(Json::Str(s)) => {
            let mut whole = s.clone();
            whole.append(added);
            whole
        },
        Some(_) => {
            return Err(RecordError::DeltaMismatch);
        },
    };
    block.value.set(field, Json::Str(grown));
    Ok(block)
}

/// Adds what a delta carries to its block.
fn apply_delta(block: Block, delta: &Json) -> (r: Result<Block, RecordError>)
    ensures
        block_outcome(r) == block_delta(block@, delta@),
{
    let is_text = match block.value.get("type") {
        Some(k) => k.is_text("text"),
        None => false,
    };
    let t = match delta.str_at("type") {
        Some(t) => t,
        None => {
            return Err(RecordError::UnsupportedDelta);
        },
    };
    if text::same(t, "text_delta") {
        append(block, "text", delta.str_at("text"))
    } else if text::same(t, "thinking_delta") {
        append(block, "thinking", delta.str_at("thinking"))
    } else if text::same(t, "signature_delta") {
        if is_text {
            Err(RecordError::DeltaMismatch)
        } else {
            append(block, "signature", delta.str_at("signature"))
        }
    } else if text::same(t, "input_json_delta") {
        let more = match delta.str_at("partial_json") {
            Some(more) => more,
            None => {
                return Err(RecordError::MissingDelta);
            },
        };
        let mut block = block;
        let raw = match &block.arguments {
            Some(raw) => {
                let mut whole = raw.clone();
                whole.append(more);
                whole
            },
            None => more.to_owned(),
        };
        block.arguments = Some(raw);
        Ok(block)
    } else if text::same(t, "citations_delta") {
        let citation = delta.copy_at("citation");
        let mut items = match block.value.get("citations") {
            None => Vec::new(),
            Some(Json::Array(items)) => json::copy_items(items),
            Some(_) => {
                return Err(RecordError::DeltaMismatch);
            },
        };
        let ghost before = items@;
        items.push(citation);
        assert(json::items_view(items@) =~= json::items_view(before).push(citation@));
        proof {
            if !block.value@.contains_key("citations"@) {
                assert(json::items_view(items@) =~= seq![citation@]);
            }
        }
        let mut block = block;
        block.value.set("citations", Json::Array(items));
        Ok(block)
    } else {
        Err(RecordError::UnsupportedDelta)
    }
}

/// Closes a block.
fn close_block(block: Block) -> (r: Result<Block, RecordError>)
    ensures
        block_outcome(r) == block_closed(block@),
{
    let mut block = block;
    let input = match &block.arguments {
        None => None,
        Some(raw) => match codec::parse_text(raw.as_str()) {
            Ok(Json::Object(input)) => Some(input),
            _ => {
                return Err(RecordError::IncompleteInput);
            },
        },
    };
    match input {
        Some(input) => {
            block.value.set("input", Json::Object(input));
        },
        None => {},
    }
    block.open = false;
    Ok(block)
}

/// Updates a message.
fn update_message(message: Members, data: &Json) -> (r: Result<Members, RecordError>)
    ensures
        match r {
            Ok(m) => message_updated(message@, data@) == Ok::<
                Map<Seq<char>, JsonView>,
                RecordError,
            >(m@),
            Err(e) => message_updated(message@, data@) == Err::<
                Map<Seq<char>, JsonView>,
                RecordError,
            >(e),
        },
{
    let mut message = message;
    match data.get("delta") {
        None => {},
        Some(Json::Object(delta)) => {
            message.extend(delta);
        },
        Some(_) => {
            return Err(RecordError::MalformedUpdate);
        },
    }
    match data.get("usage") {
        None => Ok(message),
        Some(Json::Object(usage)) => {
            let mut counts = match message.get("usage") {
                Some(Json::Object(before)) => before.copy(),
                _ => Members::new(),
            };
            counts.extend(usage);
            message.set("usage", Json::Object(counts));
            Ok(message)
        },
        Some(_) => Err(RecordError::MalformedUpdate),
    }
}

/// Applies a block event to a message under way.
fn apply_block_event(stream: MessageStream, kind: &str, data: &Json) -> (r: Result<
    MessageStream,
    RecordError,
>)
    ensures
        stream_outcome(r) == block_event(stream@, kind@, data@),
{
    let index = match data.get("index") {
        Some(v) => v.as_u64(),
        None => None,
    };
    let index = match index {
        Some(index) => index,
        None => {
            return Err(RecordError::MissingIndex);
        },
    };
    let mut stream = stream;
    let ghost before = stream@;
    if text::same(kind, "content_block_start") {
        let value = match data.get("content_block") {
            Some(Json::Object(value)) => value.copy(),
            _ => {
                return Err(RecordError::MissingBlock);
            },
        };
        if find_block(&stream.blocks, index).is_some() {
            return Err(RecordError::RepeatedBlock);
        }
        let place = find_place(&stream.blocks, index);
        let block = Block { index, value, open: true, arguments: None };
        stream.blocks.insert(place, block);
        assert(blocks_view(stream.blocks@) =~= before.blocks.insert(place as int, block@));
        Ok(stream)
    } else {
        let at = match find_block(&stream.blocks, index) {
            Some(at) => at,
            None => {
                return Err(RecordError::BlockNotOpen);
            },
        };
        if !stream.blocks[at].open {
            return Err(RecordError::BlockNotOpen);
        }
        let block = stream.blocks.remove(at);
        assert(block@ == before.blocks[at as int]);
        let changed = if text::same(kind, "content_block_delta") {
            match data.get("delta") {
                Some(delta) => apply_delta(block, delta),
                None => apply_delta(block, &Json::Null),
            }
        } else {
            close_block(block)
        };
        match changed {
            Ok(block) => {
                stream.blocks.insert(at, block);
                assert(blocks_view(stream.blocks@) =~= before.blocks.update(at as int, block@));
                Ok(stream)
            },
            Err(e) => Err(e),
        }
    }
}

/// Applies one event to a message under way.
fn apply(stream: MessageStream, event: &TranscriptEvent, data: &Json) -> (r: Result<
    MessageStream,
    RecordError,
>)
    ensures
        stream_outcome(r) == apply_event(stream@, event@.event, data@),
{
    let typed = data.str_at("type");
    let named = match &event.event {
        Some(name) => Some(name.as_str()),
        None => None,
    };
    let kind = match (typed, named) {
        (Some(t), Some(n)) => {
            if !text::same(t, n) {
                return Err(RecordError::EventMismatch);
            }
            t
        },
        (Some(t), None) => t,
        (None, Some(n)) => n,
        (None, None) => {
            return Err(RecordError::UnsupportedEvent);
        },
    };
    if text::same(kind, "ping") {
        return Ok(stream);
    }
    if text::same(kind, "error") {
        return Err(RecordError::UpstreamError);
    }
    if stream.stopped {
        return Err(RecordError::AlreadyStopped);
    }
    let mut stream = stream;
    if text::same(kind, "message_start") {
        let message = match data.get("message") {
            Some(Json::Object(message)) => message.copy(),
            _ => {
                return Err(RecordError::MissingMessage);
            },
        };
        if stream.message.is_some() {
            return Err(RecordError::RepeatedStart);
        }
        stream.message = Some(message);
        return Ok(stream);
    }
    if stream.message.is_none() {
        return Err(RecordError::NotStarted);
    }
    if text::same(kind, "content_block_start") || text::same(kind, "content_block_delta")
        || text::same(kind, "content_block_stop") {
        apply_block_event(stream, kind, data)
    } else if text::same(kind, "message_delta") {
        if has_open(&stream.blocks) {
            return Err(RecordError::BlockOpen);
        }
        let MessageStream { message, blocks, updated: _, stopped } = stream;
        match message {
            Some(message) => match update_message(message, data) {
                Ok(message) => Ok(
                    MessageStream { message: Some(message), blocks, updated: true, stopped },
                ),
                Err(e) => Err(e),
            },
            None => Err(RecordError::NotStarted),
        }
    } else if text::same(kind, "message_stop") {
        if has_open(&stream.blocks) {
            Err(RecordError::BlockOpen)
        } else if !stream.updated {
            Err(RecordError::MissingUpdate)
        } else {
            stream.stopped = true;
            Ok(stream)
        }
    } else {
        Err(RecordError::UnsupportedEvent)
    }
}

proof fn lemma_failed_prefix(events: Seq<EventView>, n: int)
    requires
        0 <= n <= events.len(),
        stream_after(events.take(n)) is Err,
    ensures
        stream_after(events) == stream_after(events.take(n)),
    decreases events.len(),
{
    if n == events.len() {
        assert(events.take(n) =~= events);
    } else {
        assert(events.drop_last().take(n) =~= events.take(n));
        lemma_failed_prefix(events.drop_last(), n);
    }
}

/// Rebuilds the native message from its event stream. A truncated stream, an
/// error event or a stream out of order is never taken for a success.
pub fn message_from_events(events: &[TranscriptEvent]) -> (r: Result<Json, RecordError>)
    ensures
        outcome(r) == streamed_message(scenario::transcript_view(events@)),
{
    let ghost all = scenario::transcript_view(events@);
    let mut stream = MessageStream {
        message: None,
        blocks: Vec::new(),
        updated: false,
        stopped: false,
    };
    assert(stream@ =~= no_stream());
    for i in 0..events.len()
        invariant
            all == scenario::transcript_view(events@),
            stream_after(all.take(i as int)) == Ok::<StreamView, RecordError>(stream@),
    {
        proof {
            assert(all.take(i + 1).drop_last() =~= all.take(i as int));
            assert(all.take(i + 1).last() == events@[i as int]@);
            if stream_after(all.take(i + 1)) is Err {
                lemma_failed_prefix(all, i + 1);
            }
        }
        let data = match codec::parse_text(events[i].data.as_str()) {
            Ok(data) => data,
            Err(_) => {
                return Err(RecordError::InvalidJson);
            },
        };
        stream =
        match apply(stream, &events[i], &data) {
            Ok(next) => next,
            Err(e) => {
                return Err(e);
            },
        };
    }
    assert(all.take(all.len() as int) =~= all);
    let MessageStream { message, blocks, updated: _, stopped } = stream;
    let mut message = match message {
        Some(message) => message,
        None => {
            return Err(RecordError::Unfinished);
        },
    };
    if !stopped {
        return Err(RecordError::Unfinished);
    }
    let ghost views = blocks_view(blocks@);
    let mut content: Vec<Json> = Vec::new();
    for i in 0..blocks.len()
        invariant
            views == blocks_view(blocks@),
            json::items_view(content@) =~= content_of(views)->Array_0.take(i as int),
    {
        let ghost before = content@;
        let item = Json::Object(blocks[i].value.copy());
        content.push(item);
        assert(json::items_view(content@) =~= json::items_view(before).push(item@));
    }
    assert(json::items_view(content@) =~= content_of(views)->Array_0);
    message.set("content", Json::Array(content));
    Ok(Json::Object(message))
}

/// Parses a captured event stream.
pub fn parse_sse_events(body: &[u8]) -> (r: Result<Vec<TranscriptEvent>, RecordError>)
    ensures
        match r {
            Ok(events) => sse::sse_events(body@) == Some(scenario::transcript_view(events@)),
            Err(e) => e == RecordError::NotText && sse::sse_events(body@) is None,
        },
{
    let parsed = match sse::parse_events(body) {
        Some(parsed) => parsed,
        None => {
            return Err(RecordError::NotText);
        },
    };
    let ghost all = sse::events_view(parsed@);
    let mut events: Vec<TranscriptEvent> = Vec::new();
    for event in it: parsed
        invariant
            all == sse::events_view(it.seq()),
            scenario::transcript_view(events@) =~= all.take(it.index() as int),
    {
        let ghost before = events@;
        let made = TranscriptEvent { event: event.event, data: event.data };
        events.push(made);
        assert(scenario::transcript_view(events@) =~= scenario::transcript_view(before).push(made@));
    }
    assert(scenario::transcript_view(events@) =~= all);
    Ok(events)
}

/// Copies a member of the body into the script, where the body has it.
fn carry(script: &mut Members, body: &Json, field: &str)
    ensures
        final(script)@ == carried(old(script)@, body@, field@),
{
    match body.get(field) {
        Some(value) => {
            script.set(field, value.copy());
        },
        None => {},
    }
}

/// The script that answers as the message did.
pub fn derive_script(body: &Json) -> (r: Result<Json, RecordError>)
    ensures
        outcome(r) == derived(body@),
{
    if !body.at_is("type", "message") {
        return Err(RecordError::NotAMessage);
    }
    let content = match body.get("content") {
        Some(Json::Array(items)) => Json::Array(json::copy_items(items)),
        _ => {
            return Err(RecordError::MissingContent);
        },
    };
    let stop = match body.str_at("stop_reason") {
        Some(stop) => stop,
        None => {
            return Err(RecordError::MissingStopReason);
        },
    };
    let mut script = Members::new();
    script.set("kind", Json::text("success"));
    script.set("content", content);
    script.set("stop_reason", Json::text(stop));
    carry(&mut script, body, "usage");
    carry(&mut script, body, "stop_sequence");
    carry(&mut script, body, "stop_details");
    Ok(Json::Object(script))
}

/// The type of an event, where its data can be read.
pub open spec fn kind_of(e: EventView) -> Option<Seq<char>> {
    match codec::json_parse(encode_utf8(e.data)) {
        Ok(data) => event_kind(e.event, data),
        Err(_) => None,
    }
}

/// Whether some event has a type.
pub open spec fn has_kind(events: Seq<EventView>, kind: Seq<char>) -> bool {
    exists|i: int| 0 <= i < events.len() && kind_of(#[trigger] events[i]) == Some(kind)
}

proof fn lemma_has_kind(events: Seq<EventView>, kind: Seq<char>)
    requires
        events.len() > 0,
    ensures
        has_kind(events, kind) == (has_kind(events.drop_last(), kind) || kind_of(events.last())
            == Some(kind)),
{
    let front = events.drop_last();
    if has_kind(front, kind) {
        let i = choose|i: int| 0 <= i < front.len() && kind_of(#[trigger] front[i]) == Some(kind);
        assert(kind_of(events[i]) == Some(kind));
    }
    if has_kind(events, kind) && kind_of(events.last()) != Some(kind) {
        let i = choose|i: int| 0 <= i < events.len() && kind_of(#[trigger] events[i]) == Some(kind);
        assert(kind_of(front[i]) == Some(kind));
    }
    if kind_of(events.last()) == Some(kind) {
        assert(kind_of(events[events.len() - 1]) == Some(kind));
    }
}

proof fn lemma_stream_kinds(events: Seq<EventView>)
    requires
        stream_after(events) is Ok,
    ensures
        !has_kind(events, "error"@),
        stream_after(events)->Ok_0.message is Some ==> has_kind(events, "message_start"@),
        stream_after(events)->Ok_0.stopped ==> has_kind(events, "message_stop"@),
    decreases events.len(),
{
    if events.len() > 0 {
        lemma_stream_kinds(events.drop_last());
        lemma_has_kind(events, "error"@);
        lemma_has_kind(events, "message_start"@);
        lemma_has_kind(events, "message_stop"@);
        names::event_names_differ();
    }
}

/// A stream that was cut off or reported an error is never taken for a message:
/// one that gives a message started, stopped, and carried no error.
pub proof fn messages_come_from_whole_streams(events: Seq<EventView>)
    requires
        streamed_message(events) is Ok,
    ensures
        has_kind(events, "message_start"@),
        has_kind(events, "message_stop"@),
        !has_kind(events, "error"@),
{
    lemma_stream_kinds(events);
}

/// The script that a recorded answer of the twin becomes.
pub open spec fn answer_script(p: ResponsePlan) -> JsonView {
    let core = map![
        "kind"@ => JsonView::Str("success"@),
        "content"@ => JsonView::Array(p.blocks()),
        "stop_reason"@ => JsonView::Str(p.stop_reason@),
        "usage"@ => JsonView::Object(p.usage@),
        "stop_sequence"@ => plan::opt_text_json(text::opt_text(p.stop_sequence))
    ];
    JsonView::Object(
        match p.details() {
            Some(d) => core.insert("stop_details"@, d),
            None => core,
        },
    )
}

/// Recording an answer of the twin gives its content, stop facts and token counts
/// back.
pub proof fn recorded_answers_give_content_back(p: ResponsePlan)
    ensures
        derived(JsonView::Object(p.message())) == Ok::<JsonView, RecordError>(answer_script(p)),
{
    names::message_members_differ();
    let body = JsonView::Object(p.message());
    assert(body.at("type"@) == JsonView::Str("message"@));
    assert(body.at("content"@) == JsonView::Array(p.blocks()));
    assert(body.at("stop_reason"@) == JsonView::Str(p.stop_reason@));
    assert(body.get("usage"@) == Some(JsonView::Object(p.usage@)));
    assert(body.get("stop_sequence"@) == Some(
        plan::opt_text_json(text::opt_text(p.stop_sequence)),
    ));
    assert(body.get("stop_details"@) == p.details());
    assert(derived(body)->Ok_0->Object_0 =~= answer_script(p)->Object_0);
}

/// Whether a script says what a recorded answer became.
pub open spec fn scripts_answer(s: SuccessScript, p: ResponsePlan) -> bool {
    &&& s.content matches Some(blocks) && json::items_view(blocks@) == p.blocks()
    &&& s.stop_reason matches Some(reason) && reason@ == p.stop_reason@
    &&& s.usage matches Some(usage) && usage@ == p.usage@
    &&& text::opt_text(s.stop_sequence) == text::opt_text(p.stop_sequence)
    &&& p.details() == (match s.stop_details {
        Some(d) => Some(d@),
        None => None,
    })
}

/// Replaying a recorded answer gives the same message, but for its id and for the
/// model that the new request names.
pub proof fn replayed_answers_agree(
    p: ResponsePlan,
    s: SuccessScript,
    q: ResponsePlan,
    number: u64,
    request: MessagesRequest,
)
    requires
        scripts_answer(s, p),
        plan::is_plan(q, number, request, s),
    ensures
        q.message() == p.message().insert("id"@, JsonView::Str(q.id@)).insert(
            "model"@,
            JsonView::Str(request.model@),
        ),
{
    names::message_members_differ();
    assert(q.usage@ =~= p.usage@);
    assert(q.message() =~= p.message().insert("id"@, JsonView::Str(q.id@)).insert(
        "model"@,
        JsonView::Str(request.model@),
    ));
}

} // verus!
