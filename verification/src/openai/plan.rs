//! The canonical plan that every form of a response is made from.

use vstd::prelude::*;
use vstd::string::*;

use crate::json::{Json, JsonView, Members};
use crate::{codec, json, text};

verus! {

/// Token counts.
#[derive(Clone, Copy, Debug, PartialEq, Eq, Structural)]
pub struct TokenUsage {
    pub input_tokens: u64,
    pub output_tokens: u64,
}

impl TokenUsage {
    /// The sum of the counts.
    pub open spec fn total(self) -> int {
        self.input_tokens + self.output_tokens
    }

    /// Whether the sum of the counts can be reported.
    pub open spec fn fits(self) -> bool {
        self.total() <= u64::MAX
    }

    /// The counts as the Responses API reports them.
    pub open spec fn responses_view(self) -> JsonView {
        JsonView::Object(
            map![
                "input_tokens"@ => json::int_view(self.input_tokens),
                "output_tokens"@ => json::int_view(self.output_tokens),
                "total_tokens"@ => json::int_view(self.total() as u64)
            ],
        )
    }

    /// The counts as the Chat Completions API reports them.
    pub open spec fn chat_view(self) -> JsonView {
        JsonView::Object(
            map![
                "prompt_tokens"@ => json::int_view(self.input_tokens),
                "completion_tokens"@ => json::int_view(self.output_tokens),
                "total_tokens"@ => json::int_view(self.total() as u64)
            ],
        )
    }

    /// The given counts.
    #[must_use]
    pub fn new(input_tokens: u64, output_tokens: u64) -> (r: Self)
        ensures
            r == (TokenUsage { input_tokens, output_tokens }),
    {
        TokenUsage { input_tokens, output_tokens }
    }

    /// The sum of the counts.
    #[must_use]
    pub fn total_tokens(self) -> (r: u64)
        requires
            self.fits(),
        ensures
            r == self.total(),
    {
        self.input_tokens + self.output_tokens
    }

    /// The counts as the Responses API reports them.
    #[must_use]
    pub fn responses_json(self) -> (r: Json)
        requires
            self.fits(),
        ensures
            r@ == self.responses_view(),
    {
        Json::Object(
            Members::new().with("input_tokens", Json::uint(self.input_tokens)).with(
                "output_tokens",
                Json::uint(self.output_tokens),
            ).with("total_tokens", Json::uint(self.total_tokens())),
        )
    }

    /// The counts as the Chat Completions API reports them.
    #[must_use]
    pub fn chat_completions_json(self) -> (r: Json)
        requires
            self.fits(),
        ensures
            r@ == self.chat_view(),
    {
        Json::Object(
            Members::new().with("prompt_tokens", Json::uint(self.input_tokens)).with(
                "completion_tokens",
                Json::uint(self.output_tokens),
            ).with("total_tokens", Json::uint(self.total_tokens())),
        )
    }
}

impl Default for TokenUsage {
    fn default() -> (r: Self)
        ensures
            r == (TokenUsage { input_tokens: 1, output_tokens: 5 }),
    {
        TokenUsage::new(1, 5)
    }
}

/// A response before it is rendered.
pub struct ResponsePlan {
    pub id: String,
    pub created: u64,
    pub model: String,
    pub response_text: String,
    pub structured_output: Option<Json>,
    pub reasoning: Vec<String>,
    pub tool_calls: Vec<ToolCallPlan>,
    pub usage: TokenUsage,
    /// The output token limit cut this response off.
    pub truncated: bool,
}

/// A planned tool call.
pub struct ToolCallPlan {
    pub id: String,
    pub name: String,
    pub arguments: Json,
    pub raw_arguments: Option<String>,
    /// A free-form `custom_tool_call` rather than a JSON `function_call`.
    pub custom: bool,
}

impl ToolCallPlan {
    /// The payload of the call: the raw arguments where the script gave them,
    /// the text itself of a custom call whose arguments are text, and the JSON
    /// text otherwise.
    pub open spec fn payload(&self) -> Seq<char> {
        match self.raw_arguments {
            Some(raw) => raw@,
            None => match self.arguments@ {
                JsonView::Str(s) if self.custom => s,
                other => codec::json_text(other),
            },
        }
    }

    /// The id of the call's output item.
    pub open spec fn item_id(&self) -> Seq<char> {
        if self.custom {
            "ctc_"@ + self.id@
        } else {
            "fc_"@ + self.id@
        }
    }

    /// The call as an output item of the Responses API.
    pub open spec fn item(&self) -> Map<Seq<char>, JsonView> {
        if self.custom {
            map![
                "id"@ => JsonView::Str(self.item_id()),
                "type"@ => JsonView::Str("custom_tool_call"@),
                "call_id"@ => JsonView::Str(self.id@),
                "name"@ => JsonView::Str(self.name@),
                "input"@ => JsonView::Str(self.payload())
            ]
        } else {
            map![
                "id"@ => JsonView::Str(self.item_id()),
                "type"@ => JsonView::Str("function_call"@),
                "call_id"@ => JsonView::Str(self.id@),
                "name"@ => JsonView::Str(self.name@),
                "arguments"@ => JsonView::Str(self.payload())
            ]
        }
    }

    /// The call as the Chat Completions API lists it.
    pub open spec fn chat_item(&self) -> Map<Seq<char>, JsonView> {
        map![
            "id"@ => JsonView::Str(self.id@),
            "type"@ => JsonView::Str("function"@),
            "function"@ => JsonView::Object(
                map![
                    "name"@ => JsonView::Str(self.name@),
                    "arguments"@ => JsonView::Str(self.payload())
                ],
            )
        ]
    }

    /// The id of the call's output item.
    pub(crate) fn make_item_id(&self) -> (r: String)
        ensures
            r@ == self.item_id(),
    {
        let mut id = if self.custom {
            "ctc_".to_owned()
        } else {
            "fc_".to_owned()
        };
        id.append(self.id.as_str());
        id
    }

    /// The call as an output item of the Responses API.
    pub(crate) fn make_item(&self) -> (r: Members)
        ensures
            r@ == self.item(),
    {
        let payload = ResponsePlan::tool_call_arguments_text(self);
        if self.custom {
            Members::new().with("id", Json::Str(self.make_item_id())).with(
                "type",
                Json::text("custom_tool_call"),
            ).with("call_id", Json::text(self.id.as_str())).with(
                "name",
                Json::text(self.name.as_str()),
            ).with("input", Json::Str(payload))
        } else {
            Members::new().with("id", Json::Str(self.make_item_id())).with(
                "type",
                Json::text("function_call"),
            ).with("call_id", Json::text(self.id.as_str())).with(
                "name",
                Json::text(self.name.as_str()),
            ).with("arguments", Json::Str(payload))
        }
    }

    /// The call as the Chat Completions API lists it.
    pub(crate) fn make_chat_item(&self) -> (r: Members)
        ensures
            r@ == self.chat_item(),
    {
        let function = Members::new().with("name", Json::text(self.name.as_str())).with(
            "arguments",
            Json::Str(ResponsePlan::tool_call_arguments_text(self)),
        );
        Members::new().with("id", Json::text(self.id.as_str())).with(
            "type",
            Json::text("function"),
        ).with("function", Json::Object(function))
    }
}

/// The output items of some calls.
pub open spec fn call_items(calls: Seq<ToolCallPlan>) -> Seq<JsonView> {
    Seq::new(calls.len(), |i: int| JsonView::Object(calls[i].item()))
}

/// Some calls as the Chat Completions API lists them.
pub open spec fn chat_items(calls: Seq<ToolCallPlan>) -> Seq<JsonView> {
    Seq::new(calls.len(), |i: int| JsonView::Object(calls[i].chat_item()))
}

impl ResponsePlan {
    /// The structured output.
    pub open spec fn structured(&self) -> Option<JsonView> {
        match self.structured_output {
            Some(v) => Some(v@),
            None => None,
        }
    }

    /// The content of a chat message: the structured output as text, else the
    /// text.
    pub open spec fn chat_text(&self) -> Seq<char> {
        match self.structured() {
            Some(v) => codec::json_text(v),
            None => self.response_text@,
        }
    }

    /// The finish reason that a chat choice reports.
    pub open spec fn finish(&self) -> Seq<char> {
        if self.truncated {
            "length"@
        } else if self.tool_calls@.len() == 0 {
            "stop"@
        } else {
            "tool_calls"@
        }
    }

    /// The status that a Responses document reports.
    pub open spec fn status(&self) -> Seq<char> {
        if self.truncated {
            "incomplete"@
        } else {
            "completed"@
        }
    }

    /// The parts of the output message: text where there is any, and the
    /// structured output.
    pub open spec fn content_parts(&self) -> Seq<JsonView> {
        let said = if self.response_text@.len() > 0 {
            seq![output_text(self.response_text@)]
        } else {
            Seq::empty()
        };
        match self.structured() {
            Some(v) => said.push(
                JsonView::Object(map!["type"@ => JsonView::Str("output_json"@), "json"@ => v]),
            ),
            None => said,
        }
    }

    /// The output items: a message where it has parts, and the tool calls.
    pub open spec fn output(&self) -> Seq<JsonView> {
        let parts = self.content_parts();
        let message = if parts.len() > 0 {
            seq![
                JsonView::Object(
                    map![
                        "id"@ => JsonView::Str("msg_"@ + self.id@),
                        "type"@ => JsonView::Str("message"@),
                        "role"@ => JsonView::Str("assistant"@),
                        "content"@ => JsonView::Array(parts)
                    ],
                ),
            ]
        } else {
            Seq::empty()
        };
        message + call_items(self.tool_calls@)
    }

    /// The response as a Responses document.
    pub open spec fn responses_document(&self) -> JsonView {
        let core = map![
            "id"@ => JsonView::Str(self.id@),
            "object"@ => JsonView::Str("response"@),
            "created"@ => json::int_view(self.created),
            "model"@ => JsonView::Str(self.model@),
            "status"@ => JsonView::Str(self.status()),
            "reasoning"@ => json::texts_json(text::texts(self.reasoning@)),
            "output"@ => JsonView::Array(self.output()),
            "usage"@ => self.usage.responses_view()
        ];
        JsonView::Object(
            if self.truncated {
                core.insert(
                    "incomplete_details"@,
                    JsonView::Object(map!["reason"@ => JsonView::Str("max_output_tokens"@)]),
                )
            } else {
                core
            },
        )
    }

    /// The message of the chat choice.
    pub open spec fn chat_message(&self) -> JsonView {
        JsonView::Object(
            map![
                "role"@ => JsonView::Str("assistant"@),
                "content"@ => JsonView::Str(self.chat_text()),
                "reasoning"@ => json::texts_json(text::texts(self.reasoning@)),
                "tool_calls"@ => JsonView::Array(chat_items(self.tool_calls@))
            ],
        )
    }

    /// The chat choice.
    pub open spec fn chat_choice(&self) -> JsonView {
        JsonView::Object(
            map![
                "index"@ => json::int_view(0),
                "finish_reason"@ => JsonView::Str(self.finish()),
                "message"@ => self.chat_message()
            ],
        )
    }

    /// The response as a Chat Completions document.
    pub open spec fn chat_document(&self) -> JsonView {
        JsonView::Object(
            map![
                "id"@ => JsonView::Str("chatcmpl_"@ + self.id@),
                "object"@ => JsonView::Str("chat.completion"@),
                "created"@ => json::int_view(self.created),
                "model"@ => JsonView::Str(self.model@),
                "choices"@ => JsonView::Array(seq![self.chat_choice()]),
                "usage"@ => self.usage.chat_view()
            ],
        )
    }
}

/// A text part.
pub open spec fn output_text(s: Seq<char>) -> JsonView {
    JsonView::Object(map!["type"@ => JsonView::Str("output_text"@), "text"@ => JsonView::Str(s)])
}

/// A text part.
pub(crate) fn make_output_text(s: &str) -> (r: Json)
    ensures
        r@ == output_text(s@),
{
    Json::Object(
        Members::new().with("type", Json::text("output_text")).with("text", Json::text(s)),
    )
}

impl ResponsePlan {
    /// The payload of a tool call.
    pub fn tool_call_arguments_text(tool_call: &ToolCallPlan) -> (r: String)
        ensures
            r@ == tool_call.payload(),
            tool_call.raw_arguments is None && !tool_call.custom ==> codec::legible(
                tool_call.arguments@,
            ),
    {
        match &tool_call.raw_arguments {
            Some(raw) => {
                return raw.clone();
            },
            None => {},
        }
        match &tool_call.arguments {
            Json::Str(s) => if tool_call.custom {
                s.clone()
            } else {
                codec::render(&tool_call.arguments)
            },
            other => codec::render(other),
        }
    }

    /// A tool call as an output item of the Responses API.
    pub fn responses_tool_call_item(tool_call: &ToolCallPlan) -> (r: Json)
        ensures
            r@ == JsonView::Object(tool_call.item()),
    {
        Json::Object(tool_call.make_item())
    }

    /// The finish reason that a chat choice reports.
    pub fn chat_finish_reason(&self) -> (r: &'static str)
        ensures
            r@ == self.finish(),
    {
        if self.truncated {
            "length"
        } else if self.tool_calls.len() == 0 {
            "stop"
        } else {
            "tool_calls"
        }
    }

    /// The status that a Responses document reports.
    pub fn responses_status(&self) -> (r: &'static str)
        ensures
            r@ == self.status(),
    {
        if self.truncated {
            "incomplete"
        } else {
            "completed"
        }
    }

    /// The content of a chat message.
    pub fn chat_content(&self) -> (r: String)
        ensures
            r@ == self.chat_text(),
            self.structured() matches Some(v) ==> codec::legible(v),
    {
        match &self.structured_output {
            Some(v) => codec::render(v),
            None => self.response_text.clone(),
        }
    }

    /// The response as a Responses document.
    pub fn responses_json(&self) -> (r: Json)
        requires
            self.usage.fits(),
        ensures
            r@ == self.responses_document(),
    {
        let mut parts: Vec<Json> = Vec::new();
        if !self.response_text.as_str().is_empty() {
            parts.push(make_output_text(self.response_text.as_str()));
        }
        match &self.structured_output {
            Some(v) => {
                parts.push(
                    Json::Object(
                        Members::new().with("type", Json::text("output_json")).with(
                            "json",
                            v.copy(),
                        ),
                    ),
                );
            },
            None => {},
        }
        assert(json::items_view(parts@) =~= self.content_parts());
        let mut output: Vec<Json> = Vec::new();
        if parts.len() > 0 {
            let mut id = "msg_".to_owned();
            id.append(self.id.as_str());
            output.push(
                Json::Object(
                    Members::new().with("id", Json::Str(id)).with(
                        "type",
                        Json::text("message"),
                    ).with("role", Json::text("assistant")).with("content", Json::Array(parts)),
                ),
            );
        }
        let ghost head = json::items_view(output@);
        let ghost calls = call_items(self.tool_calls@);
        for i in 0..self.tool_calls.len()
            invariant
                calls == call_items(self.tool_calls@),
                json::items_view(output@) =~= head + calls.take(i as int),
        {
            let ghost before = output@;
            let item = Self::responses_tool_call_item(&self.tool_calls[i]);
            output.push(item);
            assert(json::items_view(output@) =~= json::items_view(before).push(item@));
        }
        assert(json::items_view(output@) =~= self.output());
        let mut response = Members::new().with("id", Json::text(self.id.as_str())).with(
            "object",
            Json::text("response"),
        ).with("created", Json::uint(self.created)).with(
            "model",
            Json::text(self.model.as_str()),
        ).with("status", Json::text(self.responses_status())).with(
            "reasoning",
            json::texts_value(&self.reasoning),
        ).with("output", Json::Array(output)).with("usage", self.usage.responses_json());
        if self.truncated {
            response.set(
                "incomplete_details",
                Json::Object(Members::new().with("reason", Json::text("max_output_tokens"))),
            );
        }
        Json::Object(response)
    }

    /// The response as a Chat Completions document.
    pub fn chat_completions_json(&self) -> (r: Json)
        requires
            self.usage.fits(),
        ensures
            r@ == self.chat_document(),
    {
        let ghost calls = chat_items(self.tool_calls@);
        let mut tool_calls: Vec<Json> = Vec::new();
        for i in 0..self.tool_calls.len()
            invariant
                calls == chat_items(self.tool_calls@),
                json::items_view(tool_calls@) =~= calls.take(i as int),
        {
            let ghost before = tool_calls@;
            let item = Json::Object(self.tool_calls[i].make_chat_item());
            tool_calls.push(item);
            assert(json::items_view(tool_calls@) =~= json::items_view(before).push(item@));
        }
        assert(json::items_view(tool_calls@) =~= calls);
        let message = Members::new().with("role", Json::text("assistant")).with(
            "content",
            Json::Str(self.chat_content()),
        ).with("reasoning", json::texts_value(&self.reasoning)).with(
            "tool_calls",
            Json::Array(tool_calls),
        );
        let choice = Members::new().with("index", Json::uint(0)).with(
            "finish_reason",
            Json::text(self.chat_finish_reason()),
        ).with("message", Json::Object(message));
        let mut id = "chatcmpl_".to_owned();
        id.append(self.id.as_str());
        Json::Object(
            Members::new().with("id", Json::Str(id)).with(
                "object",
                Json::text("chat.completion"),
            ).with("created", Json::uint(self.created)).with(
                "model",
                Json::text(self.model.as_str()),
            ).with("choices", json::one_item(Json::Object(choice))).with(
                "usage",
                self.usage.chat_completions_json(),
            ),
        )
    }
}

} // verus!
