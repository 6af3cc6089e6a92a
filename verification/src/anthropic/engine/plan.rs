//! The canonical plan that both forms of a response are made from.

use std::collections::BTreeMap;

use vstd::prelude::*;
use vstd::string::*;

use crate::anthropic::engine::scenario::{SuccessScript, ToolCallTemplate};
use crate::anthropic::models;
use crate::anthropic::models::{generate_json, AnthropicError, ErrorView, MessagesRequest};
use crate::json::{Json, JsonView, Members};
use crate::{codec, json, text};

verus! {

broadcast use vstd::std_specs::btree::group_btree_axioms;

/// Token counts, with whatever else the provider reported.
pub struct TokenUsage {
    pub input_tokens: u64,
    pub output_tokens: u64,
    pub cache_creation_input_tokens: u64,
    pub cache_read_input_tokens: u64,
    pub extra: Members,
}

/// An optional text as a JSON value.
pub open spec fn opt_text_json(s: Option<Seq<char>>) -> JsonView {
    match s {
        Some(t) => JsonView::Str(t),
        None => JsonView::Null,
    }
}

impl TokenUsage {
    /// The counts as the members of a JSON object.
    pub open spec fn view(&self) -> Map<Seq<char>, JsonView> {
        map![
            "input_tokens"@ => json::int_view(self.input_tokens),
            "output_tokens"@ => json::int_view(self.output_tokens),
            "cache_creation_input_tokens"@ => json::int_view(self.cache_creation_input_tokens),
            "cache_read_input_tokens"@ => json::int_view(self.cache_read_input_tokens)
        ].union_prefer_right(self.extra@)
    }
}

/// The counts reported where a script gives none.
pub open spec fn is_default_usage(usage: TokenUsage) -> bool {
    &&& usage.input_tokens == 1
    &&& usage.output_tokens == 5
    &&& usage.cache_creation_input_tokens == 0
    &&& usage.cache_read_input_tokens == 0
    &&& usage.extra@ == Map::<Seq<char>, JsonView>::empty()
}

impl Default for TokenUsage {
    fn default() -> (r: Self)
        ensures
            is_default_usage(r),
    {
        TokenUsage {
            input_tokens: 1,
            output_tokens: 5,
            cache_creation_input_tokens: 0,
            cache_read_input_tokens: 0,
            extra: Members::new(),
        }
    }
}

/// Whether two token counts agree in every part.
pub open spec fn same_usage(a: TokenUsage, b: TokenUsage) -> bool {
    &&& a.input_tokens == b.input_tokens
    &&& a.output_tokens == b.output_tokens
    &&& a.cache_creation_input_tokens == b.cache_creation_input_tokens
    &&& a.cache_read_input_tokens == b.cache_read_input_tokens
    &&& a.extra@ == b.extra@
}

impl TokenUsage {
    /// A copy of the counts.
    pub fn copy(&self) -> (r: TokenUsage)
        ensures
            same_usage(r, *self),
    {
        TokenUsage {
            input_tokens: self.input_tokens,
            output_tokens: self.output_tokens,
            cache_creation_input_tokens: self.cache_creation_input_tokens,
            cache_read_input_tokens: self.cache_read_input_tokens,
            extra: self.extra.copy(),
        }
    }

    /// The counts as the members of a JSON object.
    pub fn to_json(&self) -> (r: Members)
        ensures
            r@ == self@,
    {
        let mut m = Members::new();
        m.set("input_tokens", Json::uint(self.input_tokens));
        m.set("output_tokens", Json::uint(self.output_tokens));
        m.set("cache_creation_input_tokens", Json::uint(self.cache_creation_input_tokens));
        m.set("cache_read_input_tokens", Json::uint(self.cache_read_input_tokens));
        m.extend(&self.extra);
        m
    }
}

/// A response before it is rendered.
pub struct ResponsePlan {
    pub id: String,
    pub model: String,
    pub content: Vec<Json>,
    pub usage: TokenUsage,
    pub stop_reason: String,
    pub stop_sequence: Option<String>,
    pub stop_details: Option<Json>,
    pub raw_arguments: BTreeMap<usize, String>,
}

/// What a tool call's arguments stream as, where a script says so.
pub open spec fn raw_at(raw: Map<usize, String>, i: int) -> Option<Seq<char>> {
    if 0 <= i <= usize::MAX && raw.contains_key(i as usize) {
        Some(raw[i as usize]@)
    } else {
        None
    }
}

impl ResponsePlan {
    /// The content blocks.
    pub open spec fn blocks(&self) -> Seq<JsonView> {
        json::items_view(self.content@)
    }

    /// The details of the stop.
    pub open spec fn details(&self) -> Option<JsonView> {
        match self.stop_details {
            Some(d) => Some(d@),
            None => None,
        }
    }

    /// The members of the message that the plan describes.
    pub open spec fn message(&self) -> Map<Seq<char>, JsonView> {
        let core = map![
            "id"@ => JsonView::Str(self.id@),
            "type"@ => JsonView::Str("message"@),
            "role"@ => JsonView::Str("assistant"@),
            "model"@ => JsonView::Str(self.model@),
            "content"@ => JsonView::Array(self.blocks()),
            "stop_reason"@ => JsonView::Str(self.stop_reason@),
            "stop_sequence"@ => opt_text_json(text::opt_text(self.stop_sequence)),
            "usage"@ => JsonView::Object(self.usage@)
        ];
        match self.details() {
            Some(d) => core.insert("stop_details"@, d),
            None => core,
        }
    }

    /// The members of the message that the plan describes.
    fn message_members(&self) -> (r: Members)
        ensures
            r@ == self.message(),
    {
        let mut m = Members::new();
        m.set("id", Json::text(self.id.as_str()));
        m.set("type", Json::text("message"));
        m.set("role", Json::text("assistant"));
        m.set("model", Json::text(self.model.as_str()));
        m.set("content", Json::Array(json::copy_items(&self.content)));
        m.set("stop_reason", Json::text(self.stop_reason.as_str()));
        m.set("stop_sequence", opt_text_value(&self.stop_sequence));
        m.set("usage", Json::Object(self.usage.to_json()));
        match &self.stop_details {
            Some(d) => {
                m.set("stop_details", d.copy());
            },
            None => {},
        }
        m
    }

    /// The message as a JSON document.
    pub fn messages_json(&self) -> (r: Json)
        ensures
            r@ == JsonView::Object(self.message()),
    {
        Json::Object(self.message_members())
    }
}

/// An optional text as a JSON value.
pub(crate) fn opt_text_value(s: &Option<String>) -> (r: Json)
    ensures
        r@ == opt_text_json(text::opt_text(*s)),
{
    match s {
        Some(t) => Json::text(t.as_str()),
        None => Json::Null,
    }
}

/// The text answered: the scripted one, else an echo of what the user said.
pub open spec fn answer_text(request: MessagesRequest, script: SuccessScript) -> Seq<char> {
    match script.response_text {
        Some(t) => t@,
        None => "deterministic: "@ + request.user_text(),
    }
}

/// The thoughts shown: the scripted ones, else an echo where thinking is on.
pub open spec fn shown_thoughts(request: MessagesRequest, script: SuccessScript) -> Seq<Seq<char>> {
    match script.reasoning {
        Some(thoughts) => text::texts(thoughts@),
        None => if request.thinks() {
            seq!["reasoning: "@ + request.user_text()]
        } else {
            Seq::empty()
        },
    }
}

/// A thinking block.
pub open spec fn thinking_block(number: u64, index: int, thought: Seq<char>) -> JsonView {
    JsonView::Object(
        map![
            "type"@ => JsonView::Str("thinking"@),
            "thinking"@ => JsonView::Str(thought),
            "signature"@ => JsonView::Str(
                "twin-signature-"@ + text::decimal(number as nat) + "-"@ + text::decimal(
                    index as nat,
                ),
            )
        ],
    )
}

/// A text block.
pub open spec fn text_block(s: Seq<char>) -> JsonView {
    JsonView::Object(map!["type"@ => JsonView::Str("text"@), "text"@ => JsonView::Str(s)])
}

/// A tool call block.
pub open spec fn tool_block(number: u64, index: int, tool: ToolCallTemplate) -> JsonView {
    JsonView::Object(
        map![
            "type"@ => JsonView::Str("tool_use"@),
            "id"@ => JsonView::Str(
                match tool.id {
                    Some(id) => id@,
                    None => "toolu_"@ + text::decimal(number as nat) + "_"@ + text::decimal(
                        index as nat,
                    ),
                },
            ),
            "name"@ => JsonView::Str(tool.name@),
            "input"@ => tool.arguments@
        ],
    )
}

/// The structured value answered: the scripted one, else one generated for the
/// schema that the request asks for.
pub open spec fn structured_value(request: MessagesRequest, script: SuccessScript) -> Option<
    JsonView,
> {
    match script.structured_output {
        Some(v) => Some(v@),
        None => match request.wanted_schema() {
            Some(schema) => Some(models::generated(schema, answer_text(request, script))),
            None => None,
        },
    }
}

/// The blocks in front of the tool calls: thoughts, then the structured value or
/// the text. A script that only calls tools has no text.
pub open spec fn leading_blocks(
    number: u64,
    request: MessagesRequest,
    script: SuccessScript,
) -> Seq<JsonView> {
    let thoughts = shown_thoughts(request, script);
    let shown = Seq::new(thoughts.len(), |i: int| thinking_block(number, i, thoughts[i]));
    match structured_value(request, script) {
        Some(v) => shown.push(text_block(codec::json_text(v))),
        None => if script.response_text is Some || script.tool_calls@.len() == 0 {
            shown.push(text_block(answer_text(request, script)))
        } else {
            shown
        },
    }
}

/// The content planned. Scripted native blocks are the whole content.
pub open spec fn planned_blocks(
    number: u64,
    request: MessagesRequest,
    script: SuccessScript,
) -> Seq<JsonView> {
    match script.content {
        Some(blocks) => json::items_view(blocks@),
        None => leading_blocks(number, request, script) + Seq::new(
            script.tool_calls@.len(),
            |i: int| tool_block(number, i, script.tool_calls@[i]),
        ),
    }
}

/// The raw arguments planned for the block at `at`: those of the tool call that
/// stands there.
pub open spec fn planned_raw(
    number: u64,
    request: MessagesRequest,
    script: SuccessScript,
    at: int,
) -> Option<Seq<char>> {
    let first = leading_blocks(number, request, script).len();
    if script.content is None && first <= at < first + script.tool_calls@.len() {
        text::opt_text(script.tool_calls@[at - first].raw_arguments)
    } else {
        None
    }
}

/// Whether a block is a tool call.
pub open spec fn is_tool_call(block: JsonView) -> bool {
    block.at("type"@) == JsonView::Str("tool_use"@)
}

/// Whether some block is a tool call.
pub open spec fn calls_tools(blocks: Seq<JsonView>) -> bool {
    exists|i: int| 0 <= i < blocks.len() && is_tool_call(#[trigger] blocks[i])
}

/// Whether some block calls another tool than the named one.
pub open spec fn calls_other_tool(blocks: Seq<JsonView>, name: JsonView) -> bool {
    exists|i: int|
        0 <= i < blocks.len() && is_tool_call(#[trigger] blocks[i]) && !json::values_equal(
            blocks[i].at("name"@),
            name,
        )
}

/// The refusal of a plan that goes against the request's tool choice.
pub open spec fn choice_refusal(blocks: Seq<JsonView>, choice: JsonView) -> Option<ErrorView> {
    let kind = choice.at("type"@);
    if kind == JsonView::Str("none"@) && calls_tools(blocks) {
        Some(models::invalid("tool_choice"@, "forbids tool calls in the response plan"@))
    } else if kind == JsonView::Str("any"@) && !calls_tools(blocks) {
        Some(models::invalid("tool_choice"@, "requires a scripted tool call"@))
    } else if kind == JsonView::Str("tool"@) && (!calls_tools(blocks) || calls_other_tool(
        blocks,
        choice.at("name"@),
    )) {
        Some(models::invalid("tool_choice"@, "requires the named scripted tool"@))
    } else {
        None
    }
}

/// The stop reason planned: the scripted one, with `length` and `stop` in the
/// provider's words, else what the content implies.
pub open spec fn planned_stop(blocks: Seq<JsonView>, script: SuccessScript) -> Seq<char> {
    let natural = if calls_tools(blocks) {
        "tool_use"@
    } else {
        "end_turn"@
    };
    match script.stop_reason {
        Some(reason) => reason@,
        None => match script.finish_reason {
            None => natural,
            Some(reason) => if reason@ == "length"@ {
                "max_tokens"@
            } else if reason@ == "stop"@ {
                natural
            } else {
                reason@
            },
        },
    }
}

/// Whether a plan is the one for a request and a script.
pub open spec fn is_plan(
    plan: ResponsePlan,
    number: u64,
    request: MessagesRequest,
    script: SuccessScript,
) -> bool {
    &&& plan.id@ == "msg_"@ + text::zero_padded(number as nat, 6)
    &&& plan.model@ == request.model@
    &&& plan.blocks() == planned_blocks(number, request, script)
    &&& match script.usage {
        Some(usage) => same_usage(plan.usage, usage),
        None => is_default_usage(plan.usage),
    }
    &&& plan.stop_reason@ == planned_stop(planned_blocks(number, request, script), script)
    &&& text::opt_text(plan.stop_sequence) == text::opt_text(script.stop_sequence)
    &&& plan.details() == (match script.stop_details {
        Some(d) => Some(d@),
        None => None,
    })
    &&& forall|at: int| #[trigger]
        raw_at(plan.raw_arguments@, at) == planned_raw(number, request, script, at)
}

/// A script that only calls tools plans no text.
pub proof fn tool_scripts_have_no_text(
    number: u64,
    request: MessagesRequest,
    script: SuccessScript,
)
    requires
        script.tool_calls@.len() > 0,
        script.response_text is None,
        script.content is None,
        structured_value(request, script) is None,
    ensures
        forall|i: int|
            0 <= i < planned_blocks(number, request, script).len() ==> (
            #[trigger] planned_blocks(number, request, script)[i]).at("type"@) != JsonView::Str(
                "text"@,
            ),
{
    reveal_strlit("text");
    reveal_strlit("thinking");
    reveal_strlit("tool_use");
    reveal_strlit("type");
    reveal_strlit("id");
    reveal_strlit("name");
    reveal_strlit("input");
    reveal_strlit("signature");
    assert("text"@.len() == 4 && "thinking"@.len() == 8 && "tool_use"@.len() == 8);
    assert("type"@.len() == 4 && "id"@.len() == 2 && "input"@.len() == 5);
    assert("name"@.len() == 4 && "name"@[0] != "type"@[0] && "signature"@.len() == 9);
    let leading = leading_blocks(number, request, script);
    let blocks = planned_blocks(number, request, script);
    assert forall|i: int| 0 <= i < blocks.len() implies (#[trigger] blocks[i]).at("type"@)
        != JsonView::Str("text"@) by {
        if i < leading.len() {
            assert(blocks[i] == leading[i]);
            assert(leading[i].at("type"@) == JsonView::Str("thinking"@));
        } else {
            assert(blocks[i] == tool_block(
                number,
                i - leading.len(),
                script.tool_calls@[i - leading.len()],
            ));
            assert(blocks[i].at("type"@) == JsonView::Str("tool_use"@));
        }
    }
}

/// A plan that is not refused keeps to the tool choice: none where tools are
/// forbidden, some where they are forced, and only the named one where one is
/// named.
pub proof fn tool_choice_is_kept(blocks: Seq<JsonView>, choice: JsonView)
    requires
        choice_refusal(blocks, choice) is None,
    ensures
        choice.at("type"@) == JsonView::Str("none"@) ==> !calls_tools(blocks),
        choice.at("type"@) == JsonView::Str("any"@) ==> calls_tools(blocks),
        choice.at("type"@) == JsonView::Str("tool"@) ==> calls_tools(blocks)
            && !calls_other_tool(blocks, choice.at("name"@)),
{
}

/// A thinking block.
fn make_thinking(number: u64, index: usize, thought: &str) -> (r: Json)
    ensures
        r@ == thinking_block(number, index as int, thought@),
{
    let mut signature = "twin-signature-".to_owned();
    signature.append(text::decimal_text(number).as_str());
    signature.append("-");
    signature.append(text::decimal_text(index as u64).as_str());
    let mut m = Members::new();
    m.set("type", Json::text("thinking"));
    m.set("thinking", Json::text(thought));
    m.set("signature", Json::Str(signature));
    Json::Object(m)
}

/// A text block.
fn make_text(s: &str) -> (r: Json)
    ensures
        r@ == text_block(s@),
{
    let mut m = Members::new();
    m.set("type", Json::text("text"));
    m.set("text", Json::text(s));
    Json::Object(m)
}

/// A tool call block.
fn make_tool(number: u64, index: usize, tool: &ToolCallTemplate) -> (r: Json)
    ensures
        r@ == tool_block(number, index as int, *tool),
{
    let id = match &tool.id {
        Some(id) => id.clone(),
        None => {
            let mut id = "toolu_".to_owned();
            id.append(text::decimal_text(number).as_str());
            id.append("_");
            id.append(text::decimal_text(index as u64).as_str());
            id
        },
    };
    let mut m = Members::new();
    m.set("type", Json::text("tool_use"));
    m.set("id", Json::Str(id));
    m.set("name", Json::text(tool.name.as_str()));
    m.set("input", tool.arguments.copy());
    Json::Object(m)
}

/// The blocks in front of the tool calls.
fn make_leading(number: u64, request: &MessagesRequest, script: &SuccessScript) -> (r: Vec<Json>)
    ensures
        json::items_view(r@) == leading_blocks(number, *request, *script),
{
    let spoken = request.extract_user_text();
    let answer = match &script.response_text {
        Some(t) => t.clone(),
        None => {
            let mut t = "deterministic: ".to_owned();
            t.append(spoken.as_str());
            t
        },
    };
    let thoughts = match &script.reasoning {
        Some(thoughts) => text::copy_texts(thoughts),
        None => {
            let mut echo: Vec<String> = Vec::new();
            if request.thinking_enabled() {
                let mut t = "reasoning: ".to_owned();
                t.append(spoken.as_str());
                echo.push(t);
            }
            echo
        },
    };
    let ghost all = shown_thoughts(*request, *script);
    assert(text::texts(thoughts@) =~= all);
    let ghost shown = Seq::new(all.len(), |i: int| thinking_block(number, i, all[i]));
    let mut content: Vec<Json> = Vec::new();
    for i in 0..thoughts.len()
        invariant
            text::texts(thoughts@) == all,
            shown == Seq::new(all.len(), |i: int| thinking_block(number, i, all[i])),
            json::items_view(content@) =~= shown.take(i as int),
    {
        let ghost before = content@;
        let block = make_thinking(number, i, thoughts[i].as_str());
        assert(all[i as int] == thoughts@[i as int]@);
        content.push(block);
        assert(json::items_view(content@) =~= json::items_view(before).push(block@));
    }
    assert(json::items_view(content@) =~= shown);
    let structured = match &script.structured_output {
        Some(v) => Some(v.copy()),
        None => match request.schema() {
            Some(schema) => Some(generate_json(schema, answer.as_str())),
            None => None,
        },
    };
    let ghost before = content@;
    match structured {
        Some(v) => {
            let block = make_text(codec::render(&v).as_str());
            content.push(block);
            assert(json::items_view(content@) =~= json::items_view(before).push(block@));
        },
        None => if script.response_text.is_some() || script.tool_calls.len() == 0 {
            let block = make_text(answer.as_str());
            content.push(block);
            assert(json::items_view(content@) =~= json::items_view(before).push(block@));
        },
    }
    content
}

/// Whether some block is a tool call.
fn has_tool_call(content: &Vec<Json>) -> (r: bool)
    ensures
        r == calls_tools(json::items_view(content@)),
{
    for i in 0..content.len()
        invariant
            forall|j: int| 0 <= j < i ==> !is_tool_call((#[trigger] content@[j])@),
    {
        if content[i].at_is("type", "tool_use") {
            assert(is_tool_call(json::items_view(content@)[i as int]));
            return true;
        }
    }
    false
}

/// Whether some block calls another tool than the named one.
fn has_other_call(content: &Vec<Json>, name: &Json) -> (r: bool)
    ensures
        r == calls_other_tool(json::items_view(content@), name@),
{
    for i in 0..content.len()
        invariant
            forall|j: int|
                0 <= j < i ==> !(is_tool_call((#[trigger] content@[j])@) && !json::values_equal(
                    content@[j]@.at("name"@),
                    name@,
                )),
    {
        if content[i].at_is("type", "tool_use") {
            let called = content[i].copy_at("name");
            if !json::same_value(&called, name) {
                assert(is_tool_call(json::items_view(content@)[i as int]));
                return true;
            }
        }
    }
    false
}

impl ResponsePlan {
    /// Plans the response to a request, or refuses a plan that goes against the
    /// request's tool choice.
    pub fn build(number: u64, request: &MessagesRequest, script: &SuccessScript) -> (r: Result<
        ResponsePlan,
        AnthropicError,
    >)
        ensures
            models::refusal(r) == choice_refusal(
                planned_blocks(number, *request, *script),
                request.tool_choice@,
            ),
            r matches Ok(plan) ==> is_plan(plan, number, *request, *script),
    {
        let mut raw_arguments: BTreeMap<usize, String> = BTreeMap::new();
        let content = match &script.content {
            Some(blocks) => json::copy_items(blocks),
            None => {
                let mut content = make_leading(number, request, script);
                let ghost leading = json::items_view(content@);
                let ghost first = leading.len();
                let ghost calls = Seq::new(
                    script.tool_calls@.len(),
                    |i: int| tool_block(number, i, script.tool_calls@[i]),
                );
                for i in 0..script.tool_calls.len()
                    invariant
                        leading == leading_blocks(number, *request, *script),
                        first == leading.len(),
                        calls == Seq::new(
                            script.tool_calls@.len(),
                            |i: int| tool_block(number, i, script.tool_calls@[i]),
                        ),
                        json::items_view(content@) =~= leading + calls.take(i as int),
                        forall|at: int| #[trigger]
                            raw_at(raw_arguments@, at) == (if first <= at < first + i {
                                text::opt_text(script.tool_calls@[at - first].raw_arguments)
                            } else {
                                None
                            }),
                {
                    let tool = &script.tool_calls[i];
                    let ghost before = content@;
                    let ghost old_raw = raw_arguments@;
                    let here: usize = content.len();
                    assert(json::items_view(content@).len() == first + i);
                    match &tool.raw_arguments {
                        Some(raw) => {
                            raw_arguments.insert(here, raw.clone());
                            assert(raw_arguments@ == old_raw.insert(
                                here,
                                raw_arguments@[here],
                            ));
                        },
                        None => {},
                    }
                    proof {
                        assert forall|at: int| #[trigger] raw_at(raw_arguments@, at) == (if first
                            <= at < first + i + 1 {
                            text::opt_text(script.tool_calls@[at - first].raw_arguments)
                        } else {
                            None
                        }) by {
                            assert(raw_at(old_raw, at) == (if first <= at < first + i {
                                text::opt_text(script.tool_calls@[at - first].raw_arguments)
                            } else {
                                None
                            }));
                        }
                    }
                    let block = make_tool(number, i, tool);
                    content.push(block);
                    assert(json::items_view(content@) =~= json::items_view(before).push(block@));
                }
                assert(calls.take(calls.len() as int) =~= calls);
                content
            },
        };
        let ghost blocks = planned_blocks(number, *request, *script);
        assert(json::items_view(content@) =~= blocks);
        assert forall|at: int| #[trigger] raw_at(raw_arguments@, at) == planned_raw(
            number,
            *request,
            *script,
            at,
        ) by {}
        let tools = has_tool_call(&content);
        if request.tool_choice.at_is("type", "none") && tools {
            return Err(
                AnthropicError::invalid_request(
                    "tool_choice",
                    "forbids tool calls in the response plan",
                ),
            );
        }
        if request.tool_choice.at_is("type", "any") && !tools {
            return Err(
                AnthropicError::invalid_request("tool_choice", "requires a scripted tool call"),
            );
        }
        if request.tool_choice.at_is("type", "tool") {
            let name = request.tool_choice.copy_at("name");
            if !tools || has_other_call(&content, &name) {
                return Err(
                    AnthropicError::invalid_request(
                        "tool_choice",
                        "requires the named scripted tool",
                    ),
                );
            }
        }
        let natural = if tools {
            "tool_use"
        } else {
            "end_turn"
        };
        let stop_reason = match &script.stop_reason {
            Some(reason) => reason.clone(),
            None => match &script.finish_reason {
                None => natural.to_owned(),
                Some(reason) => if text::same(reason.as_str(), "length") {
                    "max_tokens".to_owned()
                } else if text::same(reason.as_str(), "stop") {
                    natural.to_owned()
                } else {
                    reason.clone()
                },
            },
        };
        let mut id = "msg_".to_owned();
        id.append(text::zero_padded_text(number, 6).as_str());
        let usage = match &script.usage {
            Some(usage) => usage.copy(),
            None => TokenUsage::default(),
        };
        Ok(
            ResponsePlan {
                id,
                model: request.model.clone(),
                content,
                usage,
                stop_reason,
                stop_sequence: text::copy_opt(&script.stop_sequence),
                stop_details: match &script.stop_details {
                    Some(d) => Some(d.copy()),
                    None => None,
                },
                raw_arguments,
            },
        )
    }
}

} // verus!
