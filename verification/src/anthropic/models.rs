//! Requests, their validation, and the errors that refuse them.

use vstd::prelude::*;
use vstd::string::*;

use crate::json::{Json, JsonView, Members, NumberView};
use crate::{json, text};

verus! {

/// A Messages request.
pub struct MessagesRequest {
    pub model: String,
    pub messages: Vec<Message>,
    pub max_tokens: Option<u64>,
    pub stream: bool,
    pub system: Json,
    pub tools: Vec<Json>,
    pub tool_choice: Json,
    pub thinking: Json,
    pub output_config: Json,
    pub metadata: Members,
    pub stop_sequences: Vec<String>,
    pub extra: Members,
}

/// One turn of a conversation.
pub struct Message {
    pub role: String,
    pub content: Json,
}

/// The body of an error response.
#[derive(Debug)]
pub struct ErrorEnvelope {
    pub kind: String,
    pub error: ErrorBody,
}

/// What went wrong.
#[derive(Debug)]
pub struct ErrorBody {
    pub error_type: String,
    pub message: String,
    pub code: Option<String>,
}

/// An error response: its HTTP status and its body.
#[derive(Debug)]
pub struct AnthropicError {
    pub status: u16,
    pub body: ErrorEnvelope,
}

/// What an error response says.
#[verifier::ext_equal]
pub struct ErrorView {
    pub status: u16,
    pub kind: Seq<char>,
    pub error_type: Seq<char>,
    pub message: Seq<char>,
    pub code: Option<Seq<char>>,
}

impl AnthropicError {
    /// The error denoted.
    pub open spec fn view(&self) -> ErrorView {
        ErrorView {
            status: self.status,
            kind: self.body.kind@,
            error_type: self.body.error.error_type@,
            message: self.body.error.message@,
            code: text::opt_text(self.body.error.code),
        }
    }
}

/// The document that an error response carries. Its code is there only where it
/// has one.
pub open spec fn error_document(e: ErrorView) -> JsonView {
    let core = map![
        "type"@ => JsonView::Str(e.error_type),
        "message"@ => JsonView::Str(e.message)
    ];
    let details = match e.code {
        Some(code) => core.insert("code"@, JsonView::Str(code)),
        None => core,
    };
    JsonView::Object(
        map!["type"@ => JsonView::Str(e.kind), "error"@ => JsonView::Object(details)],
    )
}

/// The document that an error response carries.
pub fn error_json(error: &AnthropicError) -> (r: Json)
    ensures
        r@ == error_document(error@),
{
    let body = &error.body;
    let mut details = Members::new().with("type", Json::text(body.error.error_type.as_str())).with(
        "message",
        Json::text(body.error.message.as_str()),
    );
    match &body.error.code {
        Some(code) => {
            details.set("code", Json::text(code.as_str()));
        },
        None => {},
    }
    Json::Object(
        Members::new().with("type", Json::text(body.kind.as_str())).with(
            "error",
            Json::Object(details),
        ),
    )
}

/// The error in a result, where there is one.
pub open spec fn refusal<T>(r: Result<T, AnthropicError>) -> Option<ErrorView> {
    match r {
        Ok(_) => None,
        Err(e) => Some(e@),
    }
}

/// The first of two refusals.
pub open spec fn first_of(a: Option<ErrorView>, b: Option<ErrorView>) -> Option<ErrorView> {
    match a {
        Some(e) => Some(e),
        None => b,
    }
}

/// The refusal of a malformed request.
pub open spec fn invalid(param: Seq<char>, message: Seq<char>) -> ErrorView {
    ErrorView {
        status: 400,
        kind: "error"@,
        error_type: "invalid_request_error"@,
        message: param + ": "@ + message,
        code: None,
    }
}

/// The refusal of a request that no scenario answers.
pub open spec fn no_scenario() -> ErrorView {
    ErrorView {
        code: Some("scenario_not_found"@),
        ..invalid("scenario"@, "no matching scenario remains"@)
    }
}

/// The refusal of a missing or empty text member.
pub open spec fn text_required(value: JsonView, field: Seq<char>) -> Option<ErrorView> {
    match value.get(field) {
        Some(JsonView::Str(s)) if !text::blank(s) => None,
        _ => Some(invalid(field, "must be a non-empty string"@)),
    }
}

/// The refusal of an image or document source.
pub open spec fn source_error(source: JsonView, document: bool) -> Option<ErrorView>
    decreases source, 0int,
{
    let unsupported = Some(invalid("source"@, "unsupported image or document source"@));
    match source.at("type"@).as_str() {
        None => unsupported,
        Some(kind) => if kind == "base64"@ {
            first_of(text_required(source, "data"@), text_required(source, "media_type"@))
        } else if kind == "url"@ {
            text_required(source, "url"@)
        } else if document && kind == "text"@ {
            text_required(source, "data"@)
        } else if document && kind == "content"@ {
            match source.get("content"@) {
                Some(content) => content_error(content, false),
                None => Some(invalid("content"@, "must be a string or non-empty array"@)),
            }
        } else {
            unsupported
        },
    }
}

/// The refusal of a content part. Parts of unknown types are accepted.
pub open spec fn part_error(part: JsonView, system: bool) -> Option<ErrorView>
    decreases part, 1int,
{
    if text_required(part, "type"@) is Some {
        text_required(part, "type"@)
    } else {
        let kind = part.text_at("type"@);
        if system && kind != "text"@ {
            Some(invalid("system"@, "only text blocks are supported"@))
        } else if kind == "text"@ {
            text_required(part, "text"@)
        } else if kind == "image"@ || kind == "document"@ {
            match part.get("source"@) {
                Some(source) => source_error(source, kind == "document"@),
                None => Some(invalid("source"@, "unsupported image or document source"@)),
            }
        } else if kind == "tool_use"@ {
            first_of(
                first_of(text_required(part, "id"@), text_required(part, "name"@)),
                if part.at("input"@) is Object {
                    None
                } else {
                    Some(invalid("input"@, "tool input must be an object"@))
                },
            )
        } else if kind == "tool_result"@ {
            first_of(
                text_required(part, "tool_use_id"@),
                match part.get("content"@) {
                    None => None,
                    Some(content) => if content == JsonView::Str(""@) || content
                        == JsonView::Array(Seq::empty()) {
                        None
                    } else {
                        content_error(content, false)
                    },
                },
            )
        } else if kind == "thinking"@ {
            first_of(
                text_required(part, "signature"@),
                if part.at("thinking"@) is Str {
                    None
                } else {
                    Some(invalid("thinking"@, "must be text"@))
                },
            )
        } else if kind == "redacted_thinking"@ {
            text_required(part, "data"@)
        } else if kind == "system"@ {
            match part.get("content"@) {
                Some(content) => content_error(content, true),
                None => Some(invalid("content"@, "must be a string or non-empty array"@)),
            }
        } else if kind == "audio"@ {
            Some(invalid("content"@, "audio is not supported"@))
        } else {
            None
        }
    }
}

/// The refusal of the first bad part.
pub open spec fn parts_error(parts: Seq<JsonView>, system: bool) -> Option<ErrorView>
    decreases parts, 2int,
{
    if parts.len() == 0 {
        None
    } else {
        first_of(parts_error(parts.drop_last(), system), part_error(parts.last(), system))
    }
}

/// The refusal of content: it is non-empty text or a non-empty list of parts.
pub open spec fn content_error(content: JsonView, system: bool) -> Option<ErrorView>
    decreases content, 3int,
{
    match content {
        JsonView::Str(s) => if s.len() == 0 {
            Some(invalid("content"@, "must not be empty"@))
        } else {
            None
        },
        JsonView::Array(parts) if parts.len() > 0 => parts_error(parts, system),
        _ => Some(invalid("content"@, "must be a string or non-empty array"@)),
    }
}

/// The message of a refused schema.
pub open spec fn schema_refusal() -> ErrorView {
    invalid(
        "schema"@,
        "supported subset: object roots, nested objects, string, integer, number, boolean, enum, const"@,
    )
}

/// The supported schemas: objects of supported schemas, scalars, and, below the
/// root, constants and enumerations.
pub open spec fn schema_supported(schema: JsonView, root: bool) -> bool
    decreases schema,
{
    &&& schema is Object
    &&& schema.get("anyOf"@) is None
    &&& schema.get("oneOf"@) is None
    &&& schema.get("$ref"@) is None
    &&& {
        let kind = schema.at("type"@);
        if kind == JsonView::Str("object"@) {
            match schema.get("properties"@) {
                None => true,
                Some(JsonView::Object(properties)) => forall|k: Seq<char>| #[trigger]
                    properties.contains_key(k) ==> schema_supported(properties[k], false),
                Some(_) => false,
            }
        } else if root {
            false
        } else {
            ||| kind == JsonView::Str("string"@)
            ||| kind == JsonView::Str("integer"@)
            ||| kind == JsonView::Str("number"@)
            ||| kind == JsonView::Str("boolean"@)
            ||| schema.get("const"@) is Some
            ||| schema.at("enum"@).items().len() > 0
        }
    }
}

/// The value that a schema generates: its constant, the first of its
/// enumeration, an object of generated members, a fixed number or boolean, and
/// otherwise the text.
pub open spec fn generated(schema: JsonView, text: Seq<char>) -> JsonView
    decreases schema,
{
    match schema.get("const"@) {
        Some(value) => value,
        None => if schema.at("enum"@).items().len() > 0 {
            schema.at("enum"@).items()[0]
        } else {
            let kind = schema.at("type"@);
            if kind == JsonView::Str("object"@) {
                match schema.get("properties"@) {
                    Some(JsonView::Object(properties)) => JsonView::Object(
                        Map::new(
                            |k: Seq<char>| properties.contains_key(k),
                            |k: Seq<char>|
                                if properties.contains_key(k) {
                                    generated(properties[k], text)
                                } else {
                                    JsonView::Null
                                },
                        ),
                    ),
                    _ => JsonView::Object(Map::empty()),
                }
            } else if kind == JsonView::Str("integer"@) {
                JsonView::Num(NumberView::Int(1))
            } else if kind == JsonView::Str("number"@) {
                JsonView::Num(NumberView::Float("1.0"@))
            } else if kind == JsonView::Str("boolean"@) {
                JsonView::Bool(true)
            } else {
                JsonView::Str(text)
            }
        },
    }
}

/// The text in a piece of content: text itself, text parts, and what tool
/// results and system parts hold.
pub open spec fn text_in(content: JsonView) -> Seq<char>
    decreases content, 0int,
{
    match content {
        JsonView::Str(s) => s,
        JsonView::Array(parts) => text::joined(texts_in(parts), seq![' ']),
        JsonView::Object(_) => {
            let kind = content.at("type"@);
            if kind == JsonView::Str("text"@) {
                content.text_at("text"@)
            } else if kind == JsonView::Str("tool_result"@) || kind == JsonView::Str("system"@) {
                match content.get("content"@) {
                    Some(inner) => text_in(inner),
                    None => Seq::empty(),
                }
            } else {
                Seq::empty()
            }
        },
        _ => Seq::empty(),
    }
}

/// The text in each part.
pub open spec fn texts_in(parts: Seq<JsonView>) -> Seq<Seq<char>>
    decreases parts, 1int,
{
    if parts.len() == 0 {
        Seq::empty()
    } else {
        texts_in(parts.drop_last()).push(text_in(parts.last()))
    }
}

/// The text of each turn of a role, in order.
pub open spec fn role_texts(messages: Seq<Message>, role: Seq<char>) -> Seq<Seq<char>>
    decreases messages.len(),
{
    if messages.len() == 0 {
        Seq::empty()
    } else {
        let rest = role_texts(messages.drop_last(), role);
        if messages.last().role@ == role {
            rest.push(text_in(messages.last().content@))
        } else {
            rest
        }
    }
}

/// The refusal of the first bad turn.
pub open spec fn messages_error(messages: Seq<Message>) -> Option<ErrorView>
    decreases messages.len(),
{
    if messages.len() == 0 {
        None
    } else {
        let role = messages.last().role@;
        first_of(
            messages_error(messages.drop_last()),
            if role != "user"@ && role != "assistant"@ && role != "system"@ {
                Some(invalid("messages.role"@, "must be user, assistant, or system"@))
            } else {
                content_error(messages.last().content@, false)
            },
        )
    }
}

/// The refusal of a tool: it has a name, and an input schema where it is a
/// custom tool.
pub open spec fn tool_error(tool: JsonView) -> Option<ErrorView> {
    first_of(
        text_required(tool, "name"@),
        if (tool.get("type"@) is None || tool.at("type"@) == JsonView::Str("custom"@)) && !(tool.at(
            "input_schema"@,
        ) is Object) {
            Some(invalid("tools.input_schema"@, "must be an object"@))
        } else {
            None
        },
    )
}

/// The refusal of the first bad tool.
pub open spec fn tools_error(tools: Seq<JsonView>) -> Option<ErrorView>
    decreases tools.len(),
{
    if tools.len() == 0 {
        None
    } else {
        first_of(tools_error(tools.drop_last()), tool_error(tools.last()))
    }
}

/// Whether a tool has the given name.
pub open spec fn tool_named(tools: Seq<JsonView>, name: Seq<char>) -> bool {
    exists|i: int|
        0 <= i < tools.len() && (#[trigger] tools[i]).at("name"@) == JsonView::Str(name)
}

impl MessagesRequest {
    /// Whether extended thinking is on.
    pub open spec fn thinks(&self) -> bool {
        let kind = self.thinking@.at("type"@);
        kind == JsonView::Str("enabled"@) || kind == JsonView::Str("adaptive"@)
    }

    /// The schema asked for.
    pub open spec fn wanted_schema(&self) -> Option<JsonView> {
        self.output_config@.at("format"@).get("schema"@)
    }

    /// What the user said, white space collapsed.
    pub open spec fn user_text(&self) -> Seq<char> {
        text::normalized(text::joined(role_texts(self.messages@, "user"@), seq![' ']))
    }

    /// What the instructions say, white space collapsed.
    pub open spec fn instruction_text(&self) -> Seq<char> {
        text::normalized(
            text::joined(
                seq![text_in(self.system@)] + role_texts(self.messages@, "system"@),
                seq![' '],
            ),
        )
    }

    /// The refusal of the tool choice. A forced tool needs tools, must be one of
    /// them, and excludes thinking.
    pub open spec fn choice_error(&self) -> Option<ErrorView> {
        let kind = self.tool_choice@.at("type"@);
        let tool = kind == JsonView::Str("tool"@);
        let forced = tool || kind == JsonView::Str("any"@);
        if self.tool_choice@ is Null {
            None
        } else if !forced && kind != JsonView::Str("auto"@) && kind != JsonView::Str("none"@) {
            Some(invalid("tool_choice.type"@, "must be auto, any, tool, or none"@))
        } else if forced && self.tools@.len() == 0 {
            Some(invalid("tools"@, "required for forced tool use"@))
        } else if tool && text_required(self.tool_choice@, "name"@) is Some {
            text_required(self.tool_choice@, "name"@)
        } else if tool && !tool_named(
            json::items_view(self.tools@),
            self.tool_choice@.text_at("name"@),
        ) {
            Some(invalid("tool_choice.name"@, "must name a supplied tool"@))
        } else if forced && self.thinks() {
            Some(invalid("thinking"@, "cannot be combined with forced tool use"@))
        } else {
            None
        }
    }

    /// Whether a thinking budget is acceptable.
    pub open spec fn budget_fits(&self, count_tokens: bool) -> bool {
        match self.thinking@.at("budget_tokens"@).as_u64() {
            None => count_tokens,
            Some(n) => n >= 1024 && (count_tokens || (self.max_tokens matches Some(max) ==> n
                < max)),
        }
    }

    /// The refusal of the thinking settings.
    pub open spec fn thinking_error(&self, count_tokens: bool) -> Option<ErrorView> {
        let kind = self.thinking@.at("type"@);
        if self.thinking@ is Null {
            None
        } else if kind == JsonView::Str("enabled"@) {
            if self.budget_fits(count_tokens) {
                None
            } else {
                Some(
                    invalid(
                        "thinking.budget_tokens"@,
                        "must be at least 1024 and below max_tokens"@,
                    ),
                )
            }
        } else if kind == JsonView::Str("adaptive"@) || kind == JsonView::Str("disabled"@) {
            None
        } else {
            Some(invalid("thinking.type"@, "must be enabled, adaptive, or disabled"@))
        }
    }

    /// The refusal of the output format.
    pub open spec fn format_error(&self) -> Option<ErrorView> {
        match self.output_config@.get("format"@) {
            None => None,
            Some(format) => if format.at("type"@) != JsonView::Str("json_schema"@) {
                Some(invalid("output_config.format.type"@, "only json_schema is supported"@))
            } else if !schema_supported(format.at("schema"@), true) {
                Some(schema_refusal())
            } else {
                None
            },
        }
    }

    /// The refusal of the request. The rules are tried in this order, and the
    /// first one broken is reported.
    pub open spec fn error(&self, count_tokens: bool) -> Option<ErrorView> {
        if text::blank(self.model@) {
            Some(invalid("model"@, "must not be empty"@))
        } else if !count_tokens && (self.max_tokens is None || self.max_tokens == Some(0u64)) {
            Some(invalid("max_tokens"@, "must be a positive integer"@))
        } else if self.messages@.len() == 0 {
            Some(invalid("messages"@, "must not be empty"@))
        } else {
            first_of(
                first_of(
                    messages_error(self.messages@),
                    if self.system@ is Null {
                        None
                    } else {
                        content_error(self.system@, true)
                    },
                ),
                first_of(
                    first_of(tools_error(json::items_view(self.tools@)), self.choice_error()),
                    first_of(self.thinking_error(count_tokens), self.format_error()),
                ),
            )
        }
    }
}

impl AnthropicError {
    /// An error with the given status, type and message.
    pub fn new(status: u16, error_type: &str, message: String) -> (r: Self)
        ensures
            r@ == (ErrorView {
                status,
                kind: "error"@,
                error_type: error_type@,
                message: message@,
                code: None,
            }),
    {
        AnthropicError {
            status,
            body: ErrorEnvelope {
                kind: "error".to_owned(),
                error: ErrorBody { error_type: error_type.to_owned(), message, code: None },
            },
        }
    }

    /// The refusal of a malformed request.
    pub fn invalid_request(param: &str, message: &str) -> (r: Self)
        ensures
            r@ == invalid(param@, message@),
    {
        let mut whole = param.to_owned();
        whole.append(": ");
        whole.append(message);
        AnthropicError::new(400, "invalid_request_error", whole)
    }

    /// The refusal of a request that no scenario answers.
    pub fn scenario_not_found() -> (r: Self)
        ensures
            r@ == no_scenario(),
    {
        let mut error = AnthropicError::invalid_request(
            "scenario",
            "no matching scenario remains",
        );
        error.body.error.code = Some("scenario_not_found".to_owned());
        error
    }
}

/// The text member `field`, which must not be blank.
fn require_text<'a>(value: &'a Json, field: &str) -> (r: Result<&'a str, AnthropicError>)
    ensures
        refusal(r) == text_required(value@, field@),
        r matches Ok(s) ==> value@.at(field@) == JsonView::Str(s@),
{
    match value.str_at(field) {
        Some(s) => if text::is_blank(s) {
            Err(AnthropicError::invalid_request(field, "must be a non-empty string"))
        } else {
            Ok(s)
        },
        None => Err(AnthropicError::invalid_request(field, "must be a non-empty string")),
    }
}

/// Checks the source of an image or a document.
fn validate_source(source: &Json, document: bool) -> (r: Result<(), AnthropicError>)
    ensures
        refusal(r) == source_error(source@, document),
    decreases source@, 0int,
{
    let kind = match source.str_at("type") {
        Some(kind) => kind,
        None => {
            return Err(
                AnthropicError::invalid_request("source", "unsupported image or document source"),
            );
        },
    };
    if text::same(kind, "base64") {
        match require_text(source, "data") {
            Err(e) => {
                return Err(e);
            },
            Ok(_) => {},
        }
        match require_text(source, "media_type") {
            Err(e) => Err(e),
            Ok(_) => Ok(()),
        }
    } else if text::same(kind, "url") {
        match require_text(source, "url") {
            Err(e) => Err(e),
            Ok(_) => Ok(()),
        }
    } else if document && text::same(kind, "text") {
        match require_text(source, "data") {
            Err(e) => Err(e),
            Ok(_) => Ok(()),
        }
    } else if document && text::same(kind, "content") {
        match source.get("content") {
            Some(content) => {
                proof {
                    json::member_is_smaller(source@, "content"@);
                }
                validate_content(content, false)
            },
            None => Err(
                AnthropicError::invalid_request("content", "must be a string or non-empty array"),
            ),
        }
    } else {
        Err(AnthropicError::invalid_request("source", "unsupported image or document source"))
    }
}

/// Checks a content part. Native server-tool blocks and future extensions are
/// accepted.
fn validate_part(part: &Json, system: bool) -> (r: Result<(), AnthropicError>)
    ensures
        refusal(r) == part_error(part@, system),
    decreases part@, 1int,
{
    let kind = match require_text(part, "type") {
        Ok(kind) => kind,
        Err(e) => {
            return Err(e);
        },
    };
    if system && !text::same(kind, "text") {
        return Err(
            AnthropicError::invalid_request("system", "only text blocks are supported"),
        );
    }
    if text::same(kind, "text") {
        match require_text(part, "text") {
            Err(e) => Err(e),
            Ok(_) => Ok(()),
        }
    } else if text::same(kind, "image") || text::same(kind, "document") {
        match part.get("source") {
            Some(source) => {
                proof {
                    json::member_is_smaller(part@, "source"@);
                }
                validate_source(source, text::same(kind, "document"))
            },
            None => Err(
                AnthropicError::invalid_request("source", "unsupported image or document source"),
            ),
        }
    } else if text::same(kind, "tool_use") {
        match require_text(part, "id") {
            Err(e) => {
                return Err(e);
            },
            Ok(_) => {},
        }
        match require_text(part, "name") {
            Err(e) => {
                return Err(e);
            },
            Ok(_) => {},
        }
        match part.get("input") {
            Some(Json::Object(_)) => Ok(()),
            _ => Err(AnthropicError::invalid_request("input", "tool input must be an object")),
        }
    } else if text::same(kind, "tool_result") {
        match require_text(part, "tool_use_id") {
            Err(e) => {
                return Err(e);
            },
            Ok(_) => {},
        }
        match part.get("content") {
            None => Ok(()),
            Some(content) => {
                let empty = match content {
                    Json::Str(s) => text::same(s.as_str(), ""),
                    Json::Array(items) => items.len() == 0,
                    _ => false,
                };
                proof {
                    json::member_is_smaller(part@, "content"@);
                    assert(content@ matches JsonView::Array(items) ==> (items.len() == 0 <==> items
                        =~= Seq::empty()));
                }
                if empty {
                    Ok(())
                } else {
                    validate_content(content, false)
                }
            },
        }
    } else if text::same(kind, "thinking") {
        match require_text(part, "signature") {
            Err(e) => {
                return Err(e);
            },
            Ok(_) => {},
        }
        match part.get("thinking") {
            Some(Json::Str(_)) => Ok(()),
            _ => Err(AnthropicError::invalid_request("thinking", "must be text")),
        }
    } else if text::same(kind, "redacted_thinking") {
        match require_text(part, "data") {
            Err(e) => Err(e),
            Ok(_) => Ok(()),
        }
    } else if text::same(kind, "system") {
        match part.get("content") {
            Some(content) => {
                proof {
                    json::member_is_smaller(part@, "content"@);
                }
                validate_content(content, true)
            },
            None => Err(
                AnthropicError::invalid_request("content", "must be a string or non-empty array"),
            ),
        }
    } else if text::same(kind, "audio") {
        Err(AnthropicError::invalid_request("content", "audio is not supported"))
    } else {
        Ok(())
    }
}

proof fn lemma_parts_error_prefix(parts: Seq<JsonView>, system: bool, n: int)
    requires
        0 <= n <= parts.len(),
        parts_error(parts.take(n), system) is Some,
    ensures
        parts_error(parts, system) == parts_error(parts.take(n), system),
    decreases parts.len(),
{
    if n == parts.len() {
        assert(parts.take(n) =~= parts);
    } else {
        assert(parts.drop_last().take(n) =~= parts.take(n));
        lemma_parts_error_prefix(parts.drop_last(), system, n);
    }
}

/// Checks content: non-empty text, or a non-empty list of parts.
fn validate_content(content: &Json, system: bool) -> (r: Result<(), AnthropicError>)
    ensures
        refusal(r) == content_error(content@, system),
    decreases content@, 3int,
{
    match content {
        Json::Str(s) => if s.as_str().is_empty() {
            Err(AnthropicError::invalid_request("content", "must not be empty"))
        } else {
            Ok(())
        },
        Json::Array(parts) => {
            if parts.len() == 0 {
                return Err(
                    AnthropicError::invalid_request(
                        "content",
                        "must be a string or non-empty array",
                    ),
                );
            }
            let ghost all = json::items_view(parts@);
            for i in 0..parts.len()
                invariant
                    content@ == JsonView::Array(all),
                    all == json::items_view(parts@),
                    all.len() > 0,
                    parts_error(all.take(i as int), system) is None,
            {
                proof {
                    assert(all.take(i + 1).drop_last() =~= all.take(i as int));
                    assert(all.take(i + 1).last() == parts@[i as int]@);
                    json::item_is_smaller(content@, i as int);
                    if parts_error(all.take(i + 1), system) is Some {
                        lemma_parts_error_prefix(all, system, i + 1);
                    }
                }
                match validate_part(&parts[i], system) {
                    Ok(()) => {},
                    Err(e) => {
                        return Err(e);
                    },
                }
            }
            assert(all.take(all.len() as int) =~= all);
            Ok(())
        },
        _ => Err(
            AnthropicError::invalid_request("content", "must be a string or non-empty array"),
        ),
    }
}

/// Whether a schema is one that `generate_json` supports.
fn supports_schema(schema: &Json, root: bool) -> (r: bool)
    ensures
        r == schema_supported(schema@, root),
    decreases schema@,
{
    match schema {
        Json::Object(_) => {},
        _ => {
            return false;
        },
    }
    if schema.get("anyOf").is_some() || schema.get("oneOf").is_some() || schema.get(
        "$ref",
    ).is_some() {
        return false;
    }
    if schema.at_is("type", "object") {
        match schema.get("properties") {
            None => true,
            Some(Json::Object(properties)) => {
                for i in 0..properties.entries.len()
                    invariant
                        schema@ is Object,
                        schema@.get("anyOf"@) is None,
                        schema@.get("oneOf"@) is None,
                        schema@.get("$ref"@) is None,
                        schema@.at("type"@) == JsonView::Str("object"@),
                        schema@.get("properties"@) == Some(JsonView::Object(properties@)),
                        forall|j: int|
                            0 <= j < i ==> schema_supported(
                                properties@[(#[trigger] properties.entries@[j]).0@],
                                false,
                            ),
                {
                    let name = &properties.entries[i].0;
                    proof {
                        json::lemma_members_name(properties.entries@, i as int);
                        json::member_is_smaller(schema@, "properties"@);
                        json::member_is_smaller(JsonView::Object(properties@), name@);
                    }
                    match properties.get(name.as_str()) {
                        Some(child) => if !supports_schema(child, false) {
                            return false;
                        },
                        None => {},
                    }
                }
                proof {
                    assert forall|k: Seq<char>| #[trigger]
                        properties@.contains_key(k) implies schema_supported(
                        properties@[k],
                        false,
                    ) by {
                        let j = json::lemma_members_source(properties.entries@, k);
                        assert(properties.entries@[j].0@ == k);
                    }
                }
                true
            },
            Some(_) => false,
        }
    } else if root {
        false
    } else if schema.at_is("type", "string") || schema.at_is("type", "integer") || schema.at_is(
        "type",
        "number",
    ) || schema.at_is("type", "boolean") || schema.get("const").is_some() {
        true
    } else {
        match schema.get("enum") {
            Some(Json::Array(items)) => items.len() > 0,
            _ => false,
        }
    }
}

/// Checks that a schema is in the supported subset.
pub fn validate_schema(schema: &Json, root: bool) -> (r: Result<(), AnthropicError>)
    ensures
        refusal(r) == (if schema_supported(schema@, root) {
            None
        } else {
            Some(schema_refusal())
        }),
{
    if supports_schema(schema, root) {
        Ok(())
    } else {
        Err(
            AnthropicError::invalid_request(
                "schema",
                "supported subset: object roots, nested objects, string, integer, number, boolean, enum, const",
            ),
        )
    }
}

/// Generates a value for a schema.
pub fn generate_json(schema: &Json, text: &str) -> (r: Json)
    ensures
        r@ == generated(schema@, text@),
    decreases schema@,
{
    match schema.get("const") {
        Some(value) => {
            return value.copy();
        },
        None => {},
    }
    match schema.get("enum") {
        Some(Json::Array(items)) => if items.len() > 0 {
            return items[0].copy();
        },
        _ => {},
    }
    if schema.at_is("type", "object") {
        match schema.get("properties") {
            Some(Json::Object(properties)) => {
                let mut out = Members::new();
                for i in 0..properties.entries.len()
                    invariant
                        schema@.get("properties"@) == Some(JsonView::Object(properties@)),
                        forall|k: Seq<char>| #[trigger]
                            out@.contains_key(k) ==> properties@.contains_key(k) && out@[k]
                                == generated(properties@[k], text@),
                        forall|j: int|
                            0 <= j < i ==> out@.contains_key(
                                (#[trigger] properties.entries@[j]).0@,
                            ),
                {
                    let name = &properties.entries[i].0;
                    proof {
                        json::lemma_members_name(properties.entries@, i as int);
                        json::member_is_smaller(schema@, "properties"@);
                        json::member_is_smaller(JsonView::Object(properties@), name@);
                    }
                    match properties.get(name.as_str()) {
                        Some(child) => {
                            let value = generate_json(child, text);
                            out.set(name.as_str(), value);
                        },
                        None => {},
                    }
                }
                proof {
                    assert forall|k: Seq<char>| #[trigger]
                        properties@.contains_key(k) implies out@.contains_key(k) by {
                        let j = json::lemma_members_source(properties.entries@, k);
                        assert(properties.entries@[j].0@ == k);
                    }
                    assert(out@ =~= generated(schema@, text@)->Object_0);
                }
                Json::Object(out)
            },
            _ => Json::Object(Members::new()),
        }
    } else if schema.at_is("type", "integer") {
        Json::uint(1)
    } else if schema.at_is("type", "number") {
        match json::number_from_text("1.0") {
            Some(one) => Json::Num(one),
            None => Json::Null,
        }
    } else if schema.at_is("type", "boolean") {
        Json::Bool(true)
    } else {
        Json::text(text)
    }
}

/// Collapses every run of white space to one space and drops it at both ends.
pub fn normalize(text: &str) -> (r: String)
    ensures
        r@ == text::normalized(text@),
{
    text::normalize(text)
}

/// The text in a piece of content.
pub fn content_text(content: &Json) -> (r: String)
    ensures
        r@ == text_in(content@),
    decreases content@,
{
    match content {
        Json::Str(s) => s.clone(),
        Json::Array(parts) => {
            let ghost all = json::items_view(parts@);
            let mut found: Vec<String> = Vec::new();
            for i in 0..parts.len()
                invariant
                    content@ == JsonView::Array(all),
                    all == json::items_view(parts@),
                    text::texts(found@) =~= texts_in(all.take(i as int)),
            {
                proof {
                    assert(all.take(i + 1).drop_last() =~= all.take(i as int));
                    assert(all.take(i + 1).last() == parts@[i as int]@);
                    json::item_is_smaller(content@, i as int);
                }
                let ghost before = found@;
                let piece = content_text(&parts[i]);
                found.push(piece);
                assert(text::texts(found@) =~= text::texts(before).push(piece@));
            }
            assert(all.take(all.len() as int) =~= all);
            join_spaced(&found)
        },
        Json::Object(_) => if content.at_is("type", "text") {
            content.text_at("text").to_owned()
        } else if content.at_is("type", "tool_result") || content.at_is("type", "system") {
            match content.get("content") {
                Some(inner) => {
                    proof {
                        json::member_is_smaller(content@, "content"@);
                    }
                    content_text(inner)
                },
                None => String::new(),
            }
        } else {
            String::new()
        },
        _ => String::new(),
    }
}

/// The parts, one space apart.
pub(crate) fn join_spaced(parts: &Vec<String>) -> (r: String)
    ensures
        r@ == text::joined(text::texts(parts@), seq![' ']),
{
    proof {
        reveal_strlit(" ");
        assert(" "@ =~= seq![' ']);
    }
    text::join(parts, " ")
}

/// The text of each turn of a role, behind what was found before.
fn push_role_texts(found: &mut Vec<String>, messages: &Vec<Message>, role: &str)
    ensures
        text::texts(final(found)@) == text::texts(old(found)@) + role_texts(messages@, role@),
{
    let ghost head = text::texts(found@);
    assert(head + role_texts(messages@.take(0), role@) =~= head);
    for i in 0..messages.len()
        invariant
            text::texts(found@) =~= head + role_texts(messages@.take(i as int), role@),
    {
        assert(messages@.take(i + 1).drop_last() =~= messages@.take(i as int));
        let ghost before = found@;
        if text::same(messages[i].role.as_str(), role) {
            let piece = content_text(&messages[i].content);
            found.push(piece);
            assert(text::texts(found@) =~= text::texts(before).push(piece@));
        }
    }
    assert(messages@.take(messages@.len() as int) =~= messages@);
}

proof fn lemma_messages_error_prefix(messages: Seq<Message>, n: int)
    requires
        0 <= n <= messages.len(),
        messages_error(messages.take(n)) is Some,
    ensures
        messages_error(messages) == messages_error(messages.take(n)),
    decreases messages.len(),
{
    if n == messages.len() {
        assert(messages.take(n) =~= messages);
    } else {
        assert(messages.drop_last().take(n) =~= messages.take(n));
        lemma_messages_error_prefix(messages.drop_last(), n);
    }
}

proof fn lemma_tools_error_prefix(tools: Seq<JsonView>, n: int)
    requires
        0 <= n <= tools.len(),
        tools_error(tools.take(n)) is Some,
    ensures
        tools_error(tools) == tools_error(tools.take(n)),
    decreases tools.len(),
{
    if n == tools.len() {
        assert(tools.take(n) =~= tools);
    } else {
        assert(tools.drop_last().take(n) =~= tools.take(n));
        lemma_tools_error_prefix(tools.drop_last(), n);
    }
}

/// Checks the turns.
fn validate_messages(messages: &Vec<Message>) -> (r: Result<(), AnthropicError>)
    ensures
        refusal(r) == messages_error(messages@),
{
    for i in 0..messages.len()
        invariant
            messages_error(messages@.take(i as int)) is None,
    {
        proof {
            assert(messages@.take(i + 1).drop_last() =~= messages@.take(i as int));
            if messages_error(messages@.take(i + 1)) is Some {
                lemma_messages_error_prefix(messages@, i + 1);
            }
        }
        let role = messages[i].role.as_str();
        if !text::same(role, "user") && !text::same(role, "assistant") && !text::same(
            role,
            "system",
        ) {
            return Err(
                AnthropicError::invalid_request(
                    "messages.role",
                    "must be user, assistant, or system",
                ),
            );
        }
        match validate_content(&messages[i].content, false) {
            Ok(()) => {},
            Err(e) => {
                return Err(e);
            },
        }
    }
    assert(messages@.take(messages@.len() as int) =~= messages@);
    Ok(())
}

/// Checks a tool.
fn validate_tool(tool: &Json) -> (r: Result<(), AnthropicError>)
    ensures
        refusal(r) == tool_error(tool@),
{
    match require_text(tool, "name") {
        Ok(_) => {},
        Err(e) => {
            return Err(e);
        },
    }
    let custom = match tool.get("type") {
        Some(kind) => kind.is_text("custom"),
        None => true,
    };
    let described = match tool.get("input_schema") {
        Some(Json::Object(_)) => true,
        _ => false,
    };
    if custom && !described {
        Err(AnthropicError::invalid_request("tools.input_schema", "must be an object"))
    } else {
        Ok(())
    }
}

/// Checks the tools.
fn validate_tools(tools: &Vec<Json>) -> (r: Result<(), AnthropicError>)
    ensures
        refusal(r) == tools_error(json::items_view(tools@)),
{
    let ghost all = json::items_view(tools@);
    for i in 0..tools.len()
        invariant
            all == json::items_view(tools@),
            tools_error(all.take(i as int)) is None,
    {
        proof {
            assert(all.take(i + 1).drop_last() =~= all.take(i as int));
            assert(all.take(i + 1).last() == tools@[i as int]@);
            if tools_error(all.take(i + 1)) is Some {
                lemma_tools_error_prefix(all, i + 1);
            }
        }
        match validate_tool(&tools[i]) {
            Ok(()) => {},
            Err(e) => {
                return Err(e);
            },
        }
    }
    assert(all.take(all.len() as int) =~= all);
    Ok(())
}

/// Whether a tool has the given name.
fn names_tool(tools: &Vec<Json>, name: &str) -> (r: bool)
    ensures
        r == tool_named(json::items_view(tools@), name@),
{
    for i in 0..tools.len()
        invariant
            forall|j: int| 0 <= j < i ==> (#[trigger] tools@[j])@.at("name"@) != JsonView::Str(name@),
    {
        if tools[i].at_is("name", name) {
            assert(json::items_view(tools@)[i as int].at("name"@) == JsonView::Str(name@));
            return true;
        }
    }
    false
}

impl MessagesRequest {
    /// Whether extended thinking is on.
    pub fn thinking_enabled(&self) -> (r: bool)
        ensures
            r == self.thinks(),
    {
        self.thinking.at_is("type", "enabled") || self.thinking.at_is("type", "adaptive")
    }

    /// The schema asked for.
    pub fn schema(&self) -> (r: Option<&Json>)
        ensures
            json::opt_json(r) == self.wanted_schema(),
    {
        match self.output_config.get("format") {
            Some(format) => format.get("schema"),
            None => None,
        }
    }

    /// What the user said.
    pub fn extract_user_text(&self) -> (r: String)
        ensures
            r@ == self.user_text(),
    {
        let mut found: Vec<String> = Vec::new();
        push_role_texts(&mut found, &self.messages, "user");
        assert(text::texts(found@) =~= role_texts(self.messages@, "user"@));
        text::normalize(join_spaced(&found).as_str())
    }

    /// What the instructions say.
    pub fn extract_instruction_text(&self) -> (r: String)
        ensures
            r@ == self.instruction_text(),
    {
        let mut found: Vec<String> = Vec::new();
        let system = content_text(&self.system);
        found.push(system);
        assert(text::texts(found@) =~= seq![text_in(self.system@)]);
        push_role_texts(&mut found, &self.messages, "system");
        text::normalize(join_spaced(&found).as_str())
    }

    /// Checks the tool choice.
    fn validate_choice(&self) -> (r: Result<(), AnthropicError>)
        ensures
            refusal(r) == self.choice_error(),
    {
        match &self.tool_choice {
            Json::Null => {
                return Ok(());
            },
            _ => {},
        }
        let tool = self.tool_choice.at_is("type", "tool");
        let forced = tool || self.tool_choice.at_is("type", "any");
        if !forced && !self.tool_choice.at_is("type", "auto") && !self.tool_choice.at_is(
            "type",
            "none",
        ) {
            return Err(
                AnthropicError::invalid_request(
                    "tool_choice.type",
                    "must be auto, any, tool, or none",
                ),
            );
        }
        if forced && self.tools.len() == 0 {
            return Err(AnthropicError::invalid_request("tools", "required for forced tool use"));
        }
        if tool {
            let name = match require_text(&self.tool_choice, "name") {
                Ok(name) => name,
                Err(e) => {
                    return Err(e);
                },
            };
            if !names_tool(&self.tools, name) {
                return Err(
                    AnthropicError::invalid_request("tool_choice.name", "must name a supplied tool"),
                );
            }
        }
        if forced && self.thinking_enabled() {
            return Err(
                AnthropicError::invalid_request(
                    "thinking",
                    "cannot be combined with forced tool use",
                ),
            );
        }
        Ok(())
    }

    /// Checks the thinking settings.
    fn validate_thinking(&self, count_tokens: bool) -> (r: Result<(), AnthropicError>)
        ensures
            refusal(r) == self.thinking_error(count_tokens),
    {
        match &self.thinking {
            Json::Null => {
                return Ok(());
            },
            _ => {},
        }
        if self.thinking.at_is("type", "enabled") {
            let budget = match self.thinking.get("budget_tokens") {
                Some(v) => v.as_u64(),
                None => None,
            };
            let fits = match budget {
                None => count_tokens,
                Some(n) => n >= 1024 && (count_tokens || match self.max_tokens {
                    Some(max) => n < max,
                    None => true,
                }),
            };
            if fits {
                Ok(())
            } else {
                Err(
                    AnthropicError::invalid_request(
                        "thinking.budget_tokens",
                        "must be at least 1024 and below max_tokens",
                    ),
                )
            }
        } else if self.thinking.at_is("type", "adaptive") || self.thinking.at_is(
            "type",
            "disabled",
        ) {
            Ok(())
        } else {
            Err(
                AnthropicError::invalid_request(
                    "thinking.type",
                    "must be enabled, adaptive, or disabled",
                ),
            )
        }
    }

    /// Checks the output format.
    fn validate_format(&self) -> (r: Result<(), AnthropicError>)
        ensures
            refusal(r) == self.format_error(),
    {
        match self.output_config.get("format") {
            None => Ok(()),
            Some(format) => {
                if !format.at_is("type", "json_schema") {
                    return Err(
                        AnthropicError::invalid_request(
                            "output_config.format.type",
                            "only json_schema is supported",
                        ),
                    );
                }
                match format.get("schema") {
                    Some(schema) => validate_schema(schema, true),
                    None => validate_schema(&Json::Null, true),
                }
            },
        }
    }

    /// Checks the request. The rules are tried in order, and the first one
    /// broken is reported.
    pub fn validate(&self, count_tokens: bool) -> (r: Result<(), AnthropicError>)
        ensures
            refusal(r) == self.error(count_tokens),
    {
        if text::is_blank(self.model.as_str()) {
            return Err(AnthropicError::invalid_request("model", "must not be empty"));
        }
        let positive = match self.max_tokens {
            Some(n) => n > 0,
            None => false,
        };
        if !count_tokens && !positive {
            return Err(
                AnthropicError::invalid_request("max_tokens", "must be a positive integer"),
            );
        }
        if self.messages.len() == 0 {
            return Err(AnthropicError::invalid_request("messages", "must not be empty"));
        }
        match validate_messages(&self.messages) {
            Ok(()) => {},
            Err(e) => {
                return Err(e);
            },
        }
        match &self.system {
            Json::Null => {},
            system => match validate_content(system, true) {
                Ok(()) => {},
                Err(e) => {
                    return Err(e);
                },
            },
        }
        match validate_tools(&self.tools) {
            Ok(()) => {},
            Err(e) => {
                return Err(e);
            },
        }
        match self.validate_choice() {
            Ok(()) => {},
            Err(e) => {
                return Err(e);
            },
        }
        match self.validate_thinking(count_tokens) {
            Ok(()) => {},
            Err(e) => {
                return Err(e);
            },
        }
        self.validate_format()
    }
}

} // verus!
