//! Deriving scripted scenarios from captured exchanges.
//!
//! A captured exchange (a JSON body or a parsed event stream) becomes a script
//! that carries the captured content: response text, structured output, parsed
//! tool arguments, and token counts.

use vstd::prelude::*;
use vstd::string::*;
use vstd::utf8::*;

pub use crate::hash::request_hash;
use crate::json::{Json, JsonView, Members};
use crate::sse::EventView;
use crate::{codec, json, sse, text};

verus! {

/// The endpoint of an exchange.
#[derive(Clone, Copy, Debug, PartialEq, Eq, Structural)]
pub enum RecordedEndpoint {
    Responses,
    ChatCompletions,
}

impl RecordedEndpoint {
    /// The endpoint as matchers know it.
    pub open spec fn name(self) -> Seq<char> {
        match self {
            RecordedEndpoint::Responses => "responses"@,
            RecordedEndpoint::ChatCompletions => "chat.completions"@,
        }
    }

    /// The endpoint as matchers know it.
    #[must_use]
    pub fn scenario_endpoint(self) -> (r: &'static str)
        ensures
            r@ == self.name(),
    {
        match self {
            RecordedEndpoint::Responses => "responses",
            RecordedEndpoint::ChatCompletions => "chat.completions",
        }
    }
}

/// What derivation needs to know about a request.
#[derive(Clone, Copy, Debug, PartialEq, Eq, Structural)]
pub struct ExchangeShape {
    pub endpoint: RecordedEndpoint,
    pub stream: bool,
    /// Structured-output exchange: generated JSON is stored as
    /// `structured_output` instead of `response_text`.
    pub structured: bool,
}

/// The output format that a request asks for.
pub open spec fn format_of(endpoint: RecordedEndpoint, request: JsonView) -> JsonView {
    match endpoint {
        RecordedEndpoint::Responses => request.at("text"@).at("format"@).at("type"@),
        RecordedEndpoint::ChatCompletions => request.at("response_format"@).at("type"@),
    }
}

/// The shape of an exchange that a request begins.
pub open spec fn shape_of(endpoint: RecordedEndpoint, request: JsonView) -> ExchangeShape {
    let format = format_of(endpoint, request);
    ExchangeShape {
        endpoint,
        stream: request.at("stream"@) == JsonView::Bool(true),
        structured: format == JsonView::Str("json_object"@) || format == JsonView::Str(
            "json_schema"@,
        ),
    }
}

impl ExchangeShape {
    /// The shape of the exchange that a request begins.
    #[must_use]
    pub fn from_request(endpoint: RecordedEndpoint, request: &Json) -> (r: Self)
        ensures
            r == shape_of(endpoint, request@),
    {
        let stream = match request.get("stream") {
            Some(v) => match v.as_bool() {
                Some(b) => b,
                None => false,
            },
            None => false,
        };
        let format = match endpoint {
            RecordedEndpoint::Responses => match request.get("text") {
                Some(t) => t.get("format"),
                None => None,
            },
            RecordedEndpoint::ChatCompletions => request.get("response_format"),
        };
        let structured = match format {
            Some(f) => f.at_is("type", "json_object") || f.at_is("type", "json_schema"),
            None => false,
        };
        ExchangeShape { endpoint, stream, structured }
    }
}

/// One event of a captured stream.
#[derive(Clone, Debug)]
pub struct RecordedSseEvent {
    pub event: Option<String>,
    pub data: String,
}

impl RecordedSseEvent {
    /// The event denoted.
    pub open spec fn view(&self) -> EventView {
        EventView { event: text::opt_text(self.event), data: self.data@ }
    }
}

/// The events that a list holds.
pub open spec fn events_view(events: Seq<RecordedSseEvent>) -> Seq<EventView> {
    Seq::new(events.len(), |i: int| events[i]@)
}

/// A captured response, ready for derivation.
pub enum RecordedExchange {
    Json(Json),
    Stream(Vec<RecordedSseEvent>),
}

/// Why an exchange cannot be derived.
#[derive(Clone, Copy, Debug, PartialEq, Eq, Structural)]
pub enum RecordError {
    /// The stream is no UTF-8 text.
    NotText,
    /// A response without an output list.
    MissingOutput,
    /// A tool call without a name.
    MissingName,
    /// A tool call without arguments.
    MissingArguments,
    /// A chat body without a message.
    MissingMessage,
    /// The data of an event that matters is no JSON.
    InvalidJson,
    /// The event that completes a response carries none.
    MissingResponse,
    /// The stream was never completed.
    Unfinished,
}

/// What was seen of a response.
#[verifier::ext_equal]
pub struct ObservationView {
    pub response_text: Option<Seq<char>>,
    pub structured_output: Option<JsonView>,
    pub tool_calls: Seq<(Seq<char>, JsonView)>,
    pub usage: Option<(u64, u64)>,
}

/// Nothing seen yet.
pub open spec fn nothing() -> ObservationView {
    ObservationView {
        response_text: None,
        structured_output: None,
        tool_calls: Seq::empty(),
        usage: None,
    }
}

/// Tool arguments, parsed where they parse, so that replay does not depend on
/// how the model wrote them.
pub open spec fn parsed_arguments(s: Seq<char>) -> JsonView {
    match codec::json_parse(encode_utf8(s)) {
        Ok(v) => v,
        Err(_) => JsonView::Str(s),
    }
}

/// Token counts, where both are given.
pub open spec fn usage_in(
    usage: JsonView,
    input_key: Seq<char>,
    output_key: Seq<char>,
) -> Option<(u64, u64)> {
    match (usage.at(input_key).as_u64(), usage.at(output_key).as_u64()) {
        (Some(i), Some(o)) => Some((i, o)),
        _ => None,
    }
}

/// Text seen: structured output where that is wanted and the text parses, else
/// the response text. Empty text shows nothing.
pub open spec fn text_seen(o: ObservationView, structured: bool, s: Seq<char>) -> ObservationView {
    if s.len() == 0 {
        o
    } else if structured && codec::json_parse(encode_utf8(s)) is Ok {
        ObservationView {
            structured_output: Some(codec::json_parse(encode_utf8(s))->Ok_0),
            ..o
        }
    } else {
        ObservationView { response_text: Some(s), ..o }
    }
}

/// A content part seen.
pub open spec fn part_seen(o: ObservationView, structured: bool, part: JsonView) -> ObservationView {
    if part.at("type"@) == JsonView::Str("output_text"@) {
        match part.at("text"@).as_str() {
            Some(s) => text_seen(o, structured, s),
            None => o,
        }
    } else if part.at("type"@) == JsonView::Str("output_json"@) {
        ObservationView { structured_output: part.get("json"@), ..o }
    } else {
        o
    }
}

/// Content parts seen one after another.
pub open spec fn parts_seen(
    o: ObservationView,
    structured: bool,
    parts: Seq<JsonView>,
) -> ObservationView
    decreases parts.len(),
{
    if parts.len() == 0 {
        o
    } else {
        part_seen(parts_seen(o, structured, parts.drop_last()), structured, parts.last())
    }
}

/// A tool call seen: it has a name and arguments.
pub open spec fn call_seen(o: ObservationView, call: JsonView) -> Result<
    ObservationView,
    RecordError,
> {
    match (call.at("name"@).as_str(), call.at("arguments"@).as_str()) {
        (None, _) => Err(RecordError::MissingName),
        (Some(_), None) => Err(RecordError::MissingArguments),
        (Some(name), Some(arguments)) => Ok(
            ObservationView {
                tool_calls: o.tool_calls.push((name, parsed_arguments(arguments))),
                ..o
            },
        ),
    }
}

/// An output item seen.
pub open spec fn item_seen(o: ObservationView, structured: bool, item: JsonView) -> Result<
    ObservationView,
    RecordError,
> {
    if item.at("type"@) == JsonView::Str("message"@) {
        Ok(parts_seen(o, structured, item.at("content"@).items()))
    } else if item.at("type"@) == JsonView::Str("function_call"@) {
        call_seen(o, item)
    } else {
        Ok(o)
    }
}

/// Output items seen one after another.
pub open spec fn items_seen(structured: bool, items: Seq<JsonView>) -> Result<
    ObservationView,
    RecordError,
>
    decreases items.len(),
{
    if items.len() == 0 {
        Ok(nothing())
    } else {
        match items_seen(structured, items.drop_last()) {
            Ok(o) => item_seen(o, structured, items.last()),
            Err(e) => Err(e),
        }
    }
}

/// What a Responses document shows.
pub open spec fn responses_seen(structured: bool, body: JsonView) -> Result<
    ObservationView,
    RecordError,
> {
    match body.at("output"@) {
        JsonView::Array(items) => match items_seen(structured, items) {
            Ok(o) => Ok(
                ObservationView {
                    usage: usage_in(body.at("usage"@), "input_tokens"@, "output_tokens"@),
                    ..o
                },
            ),
            Err(e) => Err(e),
        },
        _ => Err(RecordError::MissingOutput),
    }
}

/// Chat tool calls seen one after another.
pub open spec fn chat_calls_seen(o: ObservationView, calls: Seq<JsonView>) -> Result<
    ObservationView,
    RecordError,
>
    decreases calls.len(),
{
    if calls.len() == 0 {
        Ok(o)
    } else {
        match chat_calls_seen(o, calls.drop_last()) {
            Ok(seen) => call_seen(seen, calls.last().at("function"@)),
            Err(e) => Err(e),
        }
    }
}

/// The first choice of a chat document.
pub open spec fn first_choice(body: JsonView) -> JsonView {
    let choices = body.at("choices"@).items();
    if choices.len() > 0 {
        choices[0]
    } else {
        JsonView::Null
    }
}

/// What a Chat Completions document shows.
pub open spec fn chat_seen(structured: bool, body: JsonView) -> Result<
    ObservationView,
    RecordError,
> {
    match first_choice(body).get("message"@) {
        None => Err(RecordError::MissingMessage),
        Some(message) => {
            let said = match message.at("content"@).as_str() {
                Some(s) => text_seen(nothing(), structured, s),
                None => nothing(),
            };
            match chat_calls_seen(said, message.at("tool_calls"@).items()) {
                Ok(o) => Ok(
                    ObservationView {
                        usage: usage_in(body.at("usage"@), "prompt_tokens"@, "completion_tokens"@),
                        ..o
                    },
                ),
                Err(e) => Err(e),
            }
        },
    }
}

/// What a body shows.
pub open spec fn body_seen(shape: ExchangeShape, body: JsonView) -> Result<
    ObservationView,
    RecordError,
> {
    match shape.endpoint {
        RecordedEndpoint::Responses => responses_seen(shape.structured, body),
        RecordedEndpoint::ChatCompletions => chat_seen(shape.structured, body),
    }
}

/// What a Responses stream shows: the first completed response in it.
pub open spec fn responses_stream_seen(structured: bool, events: Seq<EventView>) -> Result<
    ObservationView,
    RecordError,
>
    decreases events.len(),
{
    if events.len() == 0 {
        Err(RecordError::Unfinished)
    } else if events[0].event != Some("response.completed"@) {
        responses_stream_seen(structured, events.skip(1))
    } else {
        match codec::json_parse(encode_utf8(events[0].data)) {
            Err(_) => Err(RecordError::InvalidJson),
            Ok(data) => match data.get("response"@) {
                None => Err(RecordError::MissingResponse),
                Some(response) => responses_seen(structured, response),
            },
        }
    }
}

/// A tool call that comes in pieces.
#[verifier::ext_equal]
pub struct CallView {
    pub index: u64,
    pub name: Seq<char>,
    pub arguments: Seq<char>,
}

/// A chat stream under way: the content so far, the tool calls in ascending
/// order of their indexes, and the token counts.
#[verifier::ext_equal]
pub struct ChatView {
    pub content: Seq<char>,
    pub calls: Seq<CallView>,
    pub usage: Option<(u64, u64)>,
}

/// A chat stream before its first chunk.
pub open spec fn no_chat() -> ChatView {
    ChatView { content: Seq::empty(), calls: Seq::empty(), usage: None }
}

/// Where the call `index` stands or belongs: behind the leading calls of smaller
/// index.
pub open spec fn call_place(calls: Seq<CallView>, index: u64) -> int
    decreases calls.len(),
{
    if calls.len() > 0 && calls[0].index < index {
        1 + call_place(calls.skip(1), index)
    } else {
        0
    }
}

/// The calls with the call `index` among them.
pub open spec fn with_call(calls: Seq<CallView>, index: u64) -> Seq<CallView> {
    let p = call_place(calls, index);
    if p < calls.len() && calls[p].index == index {
        calls
    } else {
        calls.insert(p, CallView { index, name: Seq::empty(), arguments: Seq::empty() })
    }
}

/// The text of a string, or none.
pub open spec fn text_or_none(v: JsonView) -> Seq<char> {
    match v {
        JsonView::Str(s) => s,
        _ => Seq::empty(),
    }
}

/// A piece of a tool call added.
pub open spec fn call_grown(calls: Seq<CallView>, piece: JsonView) -> Seq<CallView> {
    let index = match piece.at("index"@).as_u64() {
        Some(n) => n,
        None => 0,
    };
    let known = with_call(calls, index);
    let p = call_place(calls, index);
    let function = piece.at("function"@);
    known.update(
        p,
        CallView {
            name: known[p].name + text_or_none(function.at("name"@)),
            arguments: known[p].arguments + text_or_none(function.at("arguments"@)),
            ..known[p]
        },
    )
}

/// Pieces of tool calls added one after another.
pub open spec fn calls_grown(calls: Seq<CallView>, pieces: Seq<JsonView>) -> Seq<CallView>
    decreases pieces.len(),
{
    if pieces.len() == 0 {
        calls
    } else {
        call_grown(calls_grown(calls, pieces.drop_last()), pieces.last())
    }
}

/// A chunk of a chat stream.
pub open spec fn chunk_seen(chat: ChatView, chunk: JsonView) -> ChatView {
    let usage = if chunk.at("usage"@) is Null {
        chat.usage
    } else {
        usage_in(chunk.at("usage"@), "prompt_tokens"@, "completion_tokens"@)
    };
    let delta = first_choice(chunk).at("delta"@);
    ChatView {
        content: chat.content + text_or_none(delta.at("content"@)),
        calls: calls_grown(chat.calls, delta.at("tool_calls"@).items()),
        usage,
    }
}

/// A chat stream after some events. The end mark is passed over.
pub open spec fn chat_after(events: Seq<EventView>) -> Result<ChatView, RecordError>
    decreases events.len(),
{
    if events.len() == 0 {
        Ok(no_chat())
    } else {
        match chat_after(events.drop_last()) {
            Err(e) => Err(e),
            Ok(chat) => if events.last().data == "[DONE]"@ {
                Ok(chat)
            } else {
                match codec::json_parse(encode_utf8(events.last().data)) {
                    Err(_) => Err(RecordError::InvalidJson),
                    Ok(chunk) => Ok(chunk_seen(chat, chunk)),
                }
            },
        }
    }
}

/// The calls of a chat stream.
pub open spec fn calls_of(calls: Seq<CallView>) -> Seq<(Seq<char>, JsonView)> {
    Seq::new(calls.len(), |i: int| (calls[i].name, parsed_arguments(calls[i].arguments)))
}

/// What a chat stream shows.
pub open spec fn chat_stream_seen(structured: bool, events: Seq<EventView>) -> Result<
    ObservationView,
    RecordError,
> {
    match chat_after(events) {
        Err(e) => Err(e),
        Ok(chat) => {
            let said = if chat.content.len() > 0 {
                text_seen(nothing(), structured, chat.content)
            } else {
                nothing()
            };
            Ok(
                ObservationView { tool_calls: calls_of(chat.calls), usage: chat.usage, ..said },
            )
        },
    }
}

/// What a stream shows.
pub open spec fn stream_seen(shape: ExchangeShape, events: Seq<EventView>) -> Result<
    ObservationView,
    RecordError,
> {
    match shape.endpoint {
        RecordedEndpoint::Responses => responses_stream_seen(shape.structured, events),
        RecordedEndpoint::ChatCompletions => chat_stream_seen(shape.structured, events),
    }
}

/// A tool call in a script.
pub open spec fn call_script(call: (Seq<char>, JsonView)) -> JsonView {
    JsonView::Object(map!["name"@ => JsonView::Str(call.0), "arguments"@ => call.1])
}

/// Token counts in a script.
pub open spec fn usage_script(usage: (u64, u64)) -> JsonView {
    JsonView::Object(
        map![
            "input_tokens"@ => json::int_view(usage.0),
            "output_tokens"@ => json::int_view(usage.1)
        ],
    )
}

/// The script that answers with what was seen.
pub open spec fn script_of(o: ObservationView) -> Map<Seq<char>, JsonView> {
    let kind = map!["kind"@ => JsonView::Str("success"@)];
    let said = match o.response_text {
        Some(s) => kind.insert("response_text"@, JsonView::Str(s)),
        None => kind,
    };
    let structured = match o.structured_output {
        Some(v) => said.insert("structured_output"@, v),
        None => said,
    };
    let called = if o.tool_calls.len() > 0 {
        structured.insert(
            "tool_calls"@,
            JsonView::Array(Seq::new(o.tool_calls.len(), |i: int| call_script(o.tool_calls[i]))),
        )
    } else {
        structured
    };
    match o.usage {
        Some(usage) => called.insert("usage"@, usage_script(usage)),
        None => called,
    }
}

/// What a captured exchange shows.
pub open spec fn exchange_seen(shape: ExchangeShape, exchange: RecordedExchange) -> Result<
    ObservationView,
    RecordError,
> {
    match exchange {
        RecordedExchange::Json(body) => body_seen(shape, body@),
        RecordedExchange::Stream(events) => stream_seen(shape, events_view(events@)),
    }
}

/// What was seen of a response.
struct Observation {
    response_text: Option<String>,
    structured_output: Option<Json>,
    tool_calls: Vec<ObservedToolCall>,
    usage: Option<(u64, u64)>,
}

struct ObservedToolCall {
    name: String,
    arguments: Json,
}

spec fn observed_calls(calls: Seq<ObservedToolCall>) -> Seq<(Seq<char>, JsonView)> {
    Seq::new(calls.len(), |i: int| (calls[i].name@, calls[i].arguments@))
}

impl Observation {
    spec fn view(&self) -> ObservationView {
        ObservationView {
            response_text: text::opt_text(self.response_text),
            structured_output: match self.structured_output {
                Some(v) => Some(v@),
                None => None,
            },
            tool_calls: observed_calls(self.tool_calls@),
            usage: self.usage,
        }
    }

    /// Nothing seen yet.
    fn new() -> (r: Observation)
        ensures
            r@ == nothing(),
    {
        let r = Observation {
            response_text: None,
            structured_output: None,
            tool_calls: Vec::new(),
            usage: None,
        };
        assert(r@ =~= nothing());
        r
    }
}

spec fn observed(r: Result<Observation, RecordError>) -> Result<ObservationView, RecordError> {
    match r {
        Ok(o) => Ok(o@),
        Err(e) => Err(e),
    }
}

/// Tool arguments, parsed where they parse.
fn parse_arguments(arguments: &str) -> (r: Json)
    ensures
        r@ == parsed_arguments(arguments@),
{
    match codec::parse_text(arguments) {
        Ok(v) => v,
        Err(_) => Json::text(arguments),
    }
}

/// Token counts, where both are given.
fn observe_usage(usage: Option<&Json>, input_key: &str, output_key: &str) -> (r: Option<(u64, u64)>)
    ensures
        r == usage_in(
            match usage {
                Some(v) => v@,
                None => JsonView::Null,
            },
            input_key@,
            output_key@,
        ),
{
    let usage = match usage {
        Some(usage) => usage,
        None => {
            return None;
        },
    };
    let input = match usage.get(input_key) {
        Some(v) => v.as_u64(),
        None => None,
    };
    let output = match usage.get(output_key) {
        Some(v) => v.as_u64(),
        None => None,
    };
    match (input, output) {
        (Some(i), Some(o)) => Some((i, o)),
        _ => None,
    }
}

/// Text seen.
fn observe_text(o: Observation, structured: bool, s: &str) -> (r: Observation)
    ensures
        r@ == text_seen(o@, structured, s@),
{
    let mut o = o;
    if structured {
        match codec::parse_text(s) {
            Ok(v) => {
                o.structured_output = Some(v);
                return o;
            },
            Err(_) => {},
        }
    }
    if !s.is_empty() {
        o.response_text = Some(s.to_owned());
    }
    o
}

/// A content part seen.
fn observe_responses_content_part(o: Observation, structured: bool, part: &Json) -> (r: Observation)
    ensures
        r@ == part_seen(o@, structured, part@),
{
    proof {
        reveal_strlit("output_text");
        reveal_strlit("output_json");
        assert("output_text"@[7] != "output_json"@[7]);
    }
    if part.at_is("type", "output_text") {
        match part.str_at("text") {
            Some(s) => observe_text(o, structured, s),
            None => o,
        }
    } else if part.at_is("type", "output_json") {
        let mut o = o;
        o.structured_output = match part.get("json") {
            Some(v) => Some(v.copy()),
            None => None,
        };
        o
    } else {
        o
    }
}

/// A tool call seen.
fn observe_call(o: Observation, call: Option<&Json>) -> (r: Result<Observation, RecordError>)
    ensures
        observed(r) == call_seen(
            o@,
            match call {
                Some(v) => v@,
                None => JsonView::Null,
            },
        ),
{
    let name = match call {
        Some(v) => v.str_at("name"),
        None => None,
    };
    let name = match name {
        Some(name) => name,
        None => {
            return Err(RecordError::MissingName);
        },
    };
    let arguments = match call {
        Some(v) => v.str_at("arguments"),
        None => None,
    };
    let arguments = match arguments {
        Some(arguments) => arguments,
        None => {
            return Err(RecordError::MissingArguments);
        },
    };
    let mut o = o;
    let ghost before = o.tool_calls@;
    let made = ObservedToolCall { name: name.to_owned(), arguments: parse_arguments(arguments) };
    o.tool_calls.push(made);
    assert(observed_calls(o.tool_calls@) =~= observed_calls(before).push(
        (made.name@, made.arguments@),
    ));
    Ok(o)
}

/// An output item seen.
fn observe_item(o: Observation, structured: bool, item: &Json) -> (r: Result<
    Observation,
    RecordError,
>)
    ensures
        observed(r) == item_seen(o@, structured, item@),
{
    if item.at_is("type", "message") {
        let ghost first = o@;
        let mut o = o;
        match item.get("content") {
            Some(Json::Array(parts)) => {
                let ghost all = json::items_view(parts@);
                for i in 0..parts.len()
                    invariant
                        all == json::items_view(parts@),
                        o@ == parts_seen(first, structured, all.take(i as int)),
                {
                    assert(all.take(i + 1).drop_last() =~= all.take(i as int));
                    assert(all.take(i + 1).last() == parts@[i as int]@);
                    o = observe_responses_content_part(o, structured, &parts[i]);
                }
                assert(all.take(all.len() as int) =~= all);
            },
            _ => {},
        }
        Ok(o)
    } else if item.at_is("type", "function_call") {
        observe_call(o, Some(item))
    } else {
        Ok(o)
    }
}

proof fn lemma_items_prefix(structured: bool, items: Seq<JsonView>, n: int)
    requires
        0 <= n <= items.len(),
        items_seen(structured, items.take(n)) is Err,
    ensures
        items_seen(structured, items) == items_seen(structured, items.take(n)),
    decreases items.len(),
{
    if n == items.len() {
        assert(items.take(n) =~= items);
    } else {
        assert(items.drop_last().take(n) =~= items.take(n));
        lemma_items_prefix(structured, items.drop_last(), n);
    }
}

/// What a Responses document shows.
fn observe_responses_body(structured: bool, body: &Json) -> (r: Result<Observation, RecordError>)
    ensures
        observed(r) == responses_seen(structured, body@),
{
    let output = match body.get("output") {
        Some(Json::Array(items)) => items,
        _ => {
            return Err(RecordError::MissingOutput);
        },
    };
    let ghost all = json::items_view(output@);
    let mut o = Observation::new();
    for i in 0..output.len()
        invariant
            all == json::items_view(output@),
            body@.at("output"@) == JsonView::Array(all),
            items_seen(structured, all.take(i as int)) == Ok::<ObservationView, RecordError>(o@),
    {
        proof {
            assert(all.take(i + 1).drop_last() =~= all.take(i as int));
            assert(all.take(i + 1).last() == output@[i as int]@);
            if items_seen(structured, all.take(i + 1)) is Err {
                lemma_items_prefix(structured, all, i + 1);
            }
        }
        o =
        match observe_item(o, structured, &output[i]) {
            Ok(next) => next,
            Err(e) => {
                return Err(e);
            },
        };
    }
    assert(all.take(all.len() as int) =~= all);
    o.usage = observe_usage(body.get("usage"), "input_tokens", "output_tokens");
    Ok(o)
}

proof fn lemma_chat_calls_prefix(o: ObservationView, calls: Seq<JsonView>, n: int)
    requires
        0 <= n <= calls.len(),
        chat_calls_seen(o, calls.take(n)) is Err,
    ensures
        chat_calls_seen(o, calls) == chat_calls_seen(o, calls.take(n)),
    decreases calls.len(),
{
    if n == calls.len() {
        assert(calls.take(n) =~= calls);
    } else {
        assert(calls.drop_last().take(n) =~= calls.take(n));
        lemma_chat_calls_prefix(o, calls.drop_last(), n);
    }
}

/// The first choice of a chat document.
fn find_choice(body: &Json) -> (r: Option<&Json>)
    ensures
        (match r {
            Some(v) => v@,
            None => JsonView::Null,
        }) == first_choice(body@),
{
    match body.get("choices") {
        Some(Json::Array(items)) => if items.len() > 0 {
            Some(&items[0])
        } else {
            None
        },
        _ => None,
    }
}

/// Chat tool calls seen.
fn observe_chat_calls(said: Observation, message: &Json) -> (r: Result<Observation, RecordError>)
    ensures
        observed(r) == chat_calls_seen(said@, message@.at("tool_calls"@).items()),
{
    let calls = match message.get("tool_calls") {
        Some(Json::Array(items)) => items,
        _ => {
            return Ok(said);
        },
    };
    let ghost all = json::items_view(calls@);
    let ghost first = said@;
    let mut o = said;
    for i in 0..calls.len()
        invariant
            all == json::items_view(calls@),
            first == said@,
            message@.at("tool_calls"@) == JsonView::Array(all),
            chat_calls_seen(first, all.take(i as int)) == Ok::<ObservationView, RecordError>(o@),
    {
        proof {
            assert(all.take(i + 1).drop_last() =~= all.take(i as int));
            assert(all.take(i + 1).last() == calls@[i as int]@);
            if chat_calls_seen(first, all.take(i + 1)) is Err {
                lemma_chat_calls_prefix(first, all, i + 1);
            }
        }
        o =
        match observe_call(o, calls[i].get("function")) {
            Ok(next) => next,
            Err(e) => {
                return Err(e);
            },
        };
    }
    assert(all.take(all.len() as int) =~= all);
    Ok(o)
}

/// What a Chat Completions document shows.
fn observe_chat_body(structured: bool, body: &Json) -> (r: Result<Observation, RecordError>)
    ensures
        observed(r) == chat_seen(structured, body@),
{
    let message = match find_choice(body) {
        Some(choice) => choice.get("message"),
        None => None,
    };
    let message = match message {
        Some(message) => message,
        None => {
            return Err(RecordError::MissingMessage);
        },
    };
    let said = match message.str_at("content") {
        Some(s) => observe_text(Observation::new(), structured, s),
        None => Observation::new(),
    };
    match observe_chat_calls(said, message) {
        Ok(o) => {
            let mut o = o;
            o.usage = observe_usage(body.get("usage"), "prompt_tokens", "completion_tokens");
            Ok(o)
        },
        Err(e) => Err(e),
    }
}

/// What a body shows.
fn observe_body(shape: ExchangeShape, body: &Json) -> (r: Result<Observation, RecordError>)
    ensures
        observed(r) == body_seen(shape, body@),
{
    match shape.endpoint {
        RecordedEndpoint::Responses => observe_responses_body(shape.structured, body),
        RecordedEndpoint::ChatCompletions => observe_chat_body(shape.structured, body),
    }
}

/// What a Responses stream shows.
fn observe_responses_stream(structured: bool, events: &Vec<RecordedSseEvent>) -> (r: Result<
    Observation,
    RecordError,
>)
    ensures
        observed(r) == responses_stream_seen(structured, events_view(events@)),
{
    let ghost all = events_view(events@);
    assert(all.skip(0) =~= all);
    for i in 0..events.len()
        invariant
            all == events_view(events@),
            responses_stream_seen(structured, all) == responses_stream_seen(
                structured,
                all.skip(i as int),
            ),
    {
        assert(all.skip(i as int)[0] == events@[i as int]@);
        assert(all.skip(i as int).skip(1) =~= all.skip(i + 1));
        let completed = match &events[i].event {
            Some(name) => text::same(name.as_str(), "response.completed"),
            None => false,
        };
        if completed {
            let data = match codec::parse_text(events[i].data.as_str()) {
                Ok(data) => data,
                Err(_) => {
                    return Err(RecordError::InvalidJson);
                },
            };
            return match data.get("response") {
                Some(response) => observe_responses_body(structured, response),
                None => Err(RecordError::MissingResponse),
            };
        }
    }
    Err(RecordError::Unfinished)
}

/// A tool call that comes in pieces.
struct StreamedCall {
    index: u64,
    name: String,
    arguments: String,
}

impl StreamedCall {
    spec fn view(&self) -> CallView {
        CallView { index: self.index, name: self.name@, arguments: self.arguments@ }
    }
}

spec fn calls_view(calls: Seq<StreamedCall>) -> Seq<CallView> {
    Seq::new(calls.len(), |i: int| calls[i]@)
}

/// Where a call stands or belongs.
fn find_place(calls: &Vec<StreamedCall>, index: u64) -> (r: usize)
    ensures
        r == call_place(calls_view(calls@), index),
        r <= calls.len(),
{
    let ghost all = calls_view(calls@);
    let mut i: usize = 0;
    assert(all.skip(0) =~= all);
    while i < calls.len() && calls[i].index < index
        invariant
            i <= calls.len(),
            all == calls_view(calls@),
            call_place(all, index) == i + call_place(all.skip(i as int), index),
        decreases calls.len() - i,
    {
        assert(all.skip(i as int).skip(1) =~= all.skip(i + 1));
        i = i + 1;
    }
    i
}

/// A piece of a tool call added.
fn grow_call(calls: &mut Vec<StreamedCall>, piece: &Json)
    ensures
        calls_view(final(calls)@) == call_grown(calls_view(old(calls)@), piece@),
{
    let index = match piece.get("index") {
        Some(v) => match v.as_u64() {
            Some(n) => n,
            None => 0,
        },
        None => 0,
    };
    let ghost before = calls_view(calls@);
    let p = find_place(calls, index);
    if p < calls.len() && calls[p].index == index {
    } else {
        let made = StreamedCall { index, name: String::new(), arguments: String::new() };
        assert(made@ =~= (CallView { index, name: Seq::empty(), arguments: Seq::empty() }));
        calls.insert(p, made);
        assert(calls_view(calls@) =~= before.insert(p as int, made@));
    }
    let ghost known = calls_view(calls@);
    assert(known == with_call(before, index));
    let mut name = calls[p].name.clone();
    let mut arguments = calls[p].arguments.clone();
    let ghost function = piece@.at("function"@);
    match piece.get("function") {
        Some(function) => {
            name.append(function.text_at("name"));
            arguments.append(function.text_at("arguments"));
        },
        None => {},
    }
    assert(name@ =~= known[p as int].name + text_or_none(function.at("name"@)));
    assert(arguments@ =~= known[p as int].arguments + text_or_none(function.at("arguments"@)));
    let ghost stored = calls@;
    let grown = StreamedCall { index: calls[p].index, name, arguments };
    calls.set(p, grown);
    assert(calls_view(calls@) =~= known.update(p as int, grown@));
}

/// A chat stream under way.
struct ChatStream {
    content: String,
    calls: Vec<StreamedCall>,
    usage: Option<(u64, u64)>,
}

impl ChatStream {
    spec fn view(&self) -> ChatView {
        ChatView {
            content: self.content@,
            calls: calls_view(self.calls@),
            usage: self.usage,
        }
    }
}

/// A chunk of a chat stream.
fn observe_chunk(chat: ChatStream, chunk: &Json) -> (r: ChatStream)
    ensures
        r@ == chunk_seen(chat@, chunk@),
{
    let mut chat = chat;
    let ghost before = chat@;
    match chunk.get("usage") {
        None => {},
        Some(Json::Null) => {},
        Some(usage) => {
            chat.usage = observe_usage(Some(usage), "prompt_tokens", "completion_tokens");
        },
    }
    let delta = match find_choice(chunk) {
        Some(choice) => choice.get("delta"),
        None => None,
    };
    let ghost seen = first_choice(chunk@).at("delta"@);
    match delta {
        Some(delta) => {
            chat.content.append(delta.text_at("content"));
            match delta.get("tool_calls") {
                Some(Json::Array(pieces)) => {
                    let ghost all = json::items_view(pieces@);
                    for i in 0..pieces.len()
                        invariant
                            all == json::items_view(pieces@),
                            calls_view(chat.calls@) == calls_grown(
                                before.calls,
                                all.take(i as int),
                            ),
                            chat.content@ == before.content + text_or_none(seen.at("content"@)),
                            chat.usage == chunk_seen(before, chunk@).usage,
                    {
                        assert(all.take(i + 1).drop_last() =~= all.take(i as int));
                        assert(all.take(i + 1).last() == pieces@[i as int]@);
                        grow_call(&mut chat.calls, &pieces[i]);
                    }
                    assert(all.take(all.len() as int) =~= all);
                },
                _ => {},
            }
        },
        None => {
            assert(chat.content@ + Seq::<char>::empty() =~= chat.content@);
        },
    }
    assert(chat@ =~= chunk_seen(before, chunk@));
    chat
}

proof fn lemma_chat_prefix(events: Seq<EventView>, n: int)
    requires
        0 <= n <= events.len(),
        chat_after(events.take(n)) is Err,
    ensures
        chat_after(events) == chat_after(events.take(n)),
    decreases events.len(),
{
    if n == events.len() {
        assert(events.take(n) =~= events);
    } else {
        assert(events.drop_last().take(n) =~= events.take(n));
        lemma_chat_prefix(events.drop_last(), n);
    }
}

/// What a chat stream shows.
fn observe_chat_stream(structured: bool, events: &Vec<RecordedSseEvent>) -> (r: Result<
    Observation,
    RecordError,
>)
    ensures
        observed(r) == chat_stream_seen(structured, events_view(events@)),
{
    let ghost all = events_view(events@);
    let mut chat = ChatStream { content: String::new(), calls: Vec::new(), usage: None };
    assert(chat@ =~= no_chat());
    for i in 0..events.len()
        invariant
            all == events_view(events@),
            chat_after(all.take(i as int)) == Ok::<ChatView, RecordError>(chat@),
    {
        proof {
            assert(all.take(i + 1).drop_last() =~= all.take(i as int));
            assert(all.take(i + 1).last() == events@[i as int]@);
            if chat_after(all.take(i + 1)) is Err {
                lemma_chat_prefix(all, i + 1);
            }
        }
        if !text::same(events[i].data.as_str(), "[DONE]") {
            let chunk = match codec::parse_text(events[i].data.as_str()) {
                Ok(chunk) => chunk,
                Err(_) => {
                    return Err(RecordError::InvalidJson);
                },
            };
            chat = observe_chunk(chat, &chunk);
        }
    }
    assert(all.take(all.len() as int) =~= all);
    let ChatStream { content, calls, usage } = chat;
    let mut o = if content.as_str().is_empty() {
        Observation::new()
    } else {
        observe_text(Observation::new(), structured, content.as_str())
    };
    let ghost seen = calls_view(calls@);
    let mut tool_calls: Vec<ObservedToolCall> = Vec::new();
    for i in 0..calls.len()
        invariant
            seen == calls_view(calls@),
            observed_calls(tool_calls@) =~= calls_of(seen).take(i as int),
    {
        let ghost before = tool_calls@;
        let made = ObservedToolCall {
            name: calls[i].name.clone(),
            arguments: parse_arguments(calls[i].arguments.as_str()),
        };
        tool_calls.push(made);
        assert(observed_calls(tool_calls@) =~= observed_calls(before).push(
            (made.name@, made.arguments@),
        ));
    }
    assert(observed_calls(tool_calls@) =~= calls_of(seen));
    o.tool_calls = tool_calls;
    o.usage = usage;
    Ok(o)
}

/// What a stream shows.
fn observe_stream(shape: ExchangeShape, events: &Vec<RecordedSseEvent>) -> (r: Result<
    Observation,
    RecordError,
>)
    ensures
        observed(r) == stream_seen(shape, events_view(events@)),
{
    match shape.endpoint {
        RecordedEndpoint::Responses => observe_responses_stream(shape.structured, events),
        RecordedEndpoint::ChatCompletions => observe_chat_stream(shape.structured, events),
    }
}

/// Derives the script of a successful exchange.
pub fn derive_script(shape: ExchangeShape, exchange: &RecordedExchange) -> (r: Result<
    Members,
    RecordError,
>)
    ensures
        match exchange_seen(shape, *exchange) {
            Ok(o) => r matches Ok(m) && m@ == script_of(o),
            Err(e) => r matches Err(f) && f == e,
        },
{
    let seen = match exchange {
        RecordedExchange::Json(body) => observe_body(shape, body),
        RecordedExchange::Stream(events) => observe_stream(shape, events),
    };
    let o = match seen {
        Ok(o) => o,
        Err(e) => {
            return Err(e);
        },
    };
    let mut script = Members::new();
    script.set("kind", Json::text("success"));
    match &o.response_text {
        Some(s) => {
            script.set("response_text", Json::text(s.as_str()));
        },
        None => {},
    }
    match &o.structured_output {
        Some(v) => {
            script.set("structured_output", v.copy());
        },
        None => {},
    }
    if o.tool_calls.len() > 0 {
        let ghost wanted = Seq::new(
            o@.tool_calls.len(),
            |i: int| call_script(o@.tool_calls[i]),
        );
        let mut calls: Vec<Json> = Vec::new();
        for i in 0..o.tool_calls.len()
            invariant
                wanted == Seq::new(o@.tool_calls.len(), |i: int| call_script(o@.tool_calls[i])),
                json::items_view(calls@) =~= wanted.take(i as int),
        {
            let ghost before = calls@;
            let call = Json::Object(
                Members::new().with("name", Json::text(o.tool_calls[i].name.as_str())).with(
                    "arguments",
                    o.tool_calls[i].arguments.copy(),
                ),
            );
            calls.push(call);
            assert(json::items_view(calls@) =~= json::items_view(before).push(call@));
        }
        assert(json::items_view(calls@) =~= wanted);
        script.set("tool_calls", Json::Array(calls));
    }
    match o.usage {
        Some((input, output)) => {
            script.set(
                "usage",
                Json::Object(
                    Members::new().with("input_tokens", Json::uint(input)).with(
                        "output_tokens",
                        Json::uint(output),
                    ),
                ),
            );
        },
        None => {},
    }
    Ok(script)
}

/// Parses a captured event stream.
pub fn parse_sse_events(body: &[u8]) -> (r: Result<Vec<RecordedSseEvent>, RecordError>)
    ensures
        match r {
            Ok(events) => sse::sse_events(body@) == Some(events_view(events@)),
            Err(e) => e == RecordError::NotText && sse::sse_events(body@) is None,
        },
{
    let parsed = match sse::parse_events(body) {
        Some(parsed) => parsed,
        None => {
            return Err(RecordError::NotText);
        },
    };
    let ghost all = sse::events_view(parsed@);
    let mut events: Vec<RecordedSseEvent> = Vec::new();
    for event in it: parsed
        invariant
            all == sse::events_view(it.seq()),
            events_view(events@) =~= all.take(it.index() as int),
    {
        let ghost before = events@;
        let made = RecordedSseEvent { event: event.event, data: event.data };
        events.push(made);
        assert(events_view(events@) =~= events_view(before).push(made@));
    }
    assert(events_view(events@) =~= all);
    Ok(events)
}

} // verus!
