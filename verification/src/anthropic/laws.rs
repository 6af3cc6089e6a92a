//! What checking a request promises.

use vstd::prelude::*;

use crate::anthropic::models;
use crate::anthropic::models::{ErrorView, Message, MessagesRequest};
use crate::json::{JsonView, NumberView};
use crate::{json, laws, text};

verus! {

/// Whether a request is refused as malformed, with the given words about the
/// given parameter.
pub open spec fn refused(e: Option<ErrorView>, param: Seq<char>, message: Seq<char>) -> bool {
    e matches Some(e) && e.status == 400 && e.kind == "error"@ && e.error_type
        == "invalid_request_error"@ && e.code is None && e.message == param + ": "@ + message
}

/// Whether a value has a text member with something other than white space in
/// it.
pub open spec fn says(value: JsonView, field: Seq<char>) -> bool {
    exists|s: Seq<char>, i: int|
        value.get(field) == Some(JsonView::Str(s)) && 0 <= i < s.len() && !text::white_space(
            #[trigger] s[i],
        )
}

proof fn lemma_says(value: JsonView, field: Seq<char>)
    ensures
        says(value, field) <==> models::text_required(value, field) is None,
        !says(value, field) ==> refused(
            models::text_required(value, field),
            field,
            "must be a non-empty string"@,
        ),
{
    match value.get(field) {
        Some(JsonView::Str(s)) => {
            if !text::blank(s) {
                let i = choose|i: int| 0 <= i < s.len() && !text::white_space(#[trigger] s[i]);
                assert(0 <= i < s.len() && !text::white_space(s[i]));
            }
        },
        _ => {},
    }
}

/// Where thinking is enabled, a generation request is accepted exactly where it
/// gives a whole budget of at least 1024 tokens that is below `max_tokens`. A
/// count needs no budget, but one that it gives is at least 1024.
pub proof fn thinking_budget_is_bounded(request: MessagesRequest)
    requires
        request.thinking@.at("type"@) == JsonView::Str("enabled"@),
    ensures
        request.thinking_error(false) is None <==> (match request.thinking@.at("budget_tokens"@) {
            JsonView::Num(NumberView::Int(n)) => {
                &&& 1024 <= n <= u64::MAX
                &&& request.max_tokens matches Some(max) ==> n < max
            },
            _ => false,
        }),
        request.thinking_error(true) is None <==> (match request.thinking@.at("budget_tokens"@) {
            JsonView::Num(NumberView::Int(n)) => !(0 <= n < 1024),
            _ => true,
        }),
        forall|count: bool|
            (#[trigger] request.thinking_error(count)) is Some ==> refused(
                request.thinking_error(count),
                "thinking.budget_tokens"@,
                "must be at least 1024 and below max_tokens"@,
            ),
{
}

/// A larger allowance never turns an accepted budget down, and a budget is never
/// turned down for being larger while it stays below the allowance.
pub proof fn larger_allowance_keeps_budget(a: MessagesRequest, b: MessagesRequest)
    requires
        a.thinking@ == b.thinking@,
        a.max_tokens is Some,
        b.max_tokens matches Some(max) ==> a.max_tokens->0 <= max,
        a.thinking_error(false) is None,
    ensures
        b.thinking_error(false) is None,
{
}

/// Thinking settings of another type are accepted where they are adaptive or
/// disabled, whatever else they say; a request without any is accepted.
pub proof fn thinking_types_are_known(request: MessagesRequest, count: bool)
    requires
        request.thinking@.at("type"@) != JsonView::Str("enabled"@),
    ensures
        request.thinking_error(count) is None <==> request.thinking@ is Null
            || request.thinking@.at("type"@) == JsonView::Str("adaptive"@)
            || request.thinking@.at("type"@) == JsonView::Str("disabled"@),
        request.thinking_error(count) is Some ==> refused(
            request.thinking_error(count),
            "thinking.type"@,
            "must be enabled, adaptive, or disabled"@,
        ),
{
}

/// A tool choice is one of the four kinds. One that forces a tool needs tools
/// and excludes thinking; one that names a tool names one of those given.
pub proof fn tool_choices_are_checked(request: MessagesRequest)
    ensures
        ({
            let choice = request.tool_choice@;
            let kind = choice.at("type"@);
            let tool = kind == JsonView::Str("tool"@);
            let any = kind == JsonView::Str("any"@);
            let mode = request.thinking@.at("type"@);
            let thinks = mode == JsonView::Str("enabled"@) || mode == JsonView::Str("adaptive"@);
            let free = kind == JsonView::Str("auto"@) || kind == JsonView::Str("none"@);
            let given = exists|i: int|
                0 <= i < request.tools@.len() && (#[trigger] request.tools@[i])@.at("name"@)
                    == choice.at("name"@);
            &&& choice is Null ==> request.choice_error() is None
            &&& free ==> request.choice_error() is None
            &&& any ==> (request.choice_error() is None <==> request.tools@.len() > 0 && !thinks)
            &&& tool ==> (request.choice_error() is None <==> says(choice, "name"@) && given
                && !thinks)
            &&& !(choice is Null) && !free && !any && !tool ==> refused(
                request.choice_error(),
                "tool_choice.type"@,
                "must be auto, any, tool, or none"@,
            )
            &&& (any || tool) && request.tools@.len() == 0 ==> refused(
                request.choice_error(),
                "tools"@,
                "required for forced tool use"@,
            )
            &&& tool && request.tools@.len() > 0 && says(choice, "name"@) && !given ==> refused(
                request.choice_error(),
                "tool_choice.name"@,
                "must name a supplied tool"@,
            )
            &&& any && request.tools@.len() > 0 && thinks ==> refused(
                request.choice_error(),
                "thinking"@,
                "cannot be combined with forced tool use"@,
            )
        }),
{
    reveal_strlit("tool");
    reveal_strlit("any");
    reveal_strlit("auto");
    reveal_strlit("none");
    assert("tool"@.len() == 4 && "any"@.len() == 3 && "auto"@.len() == 4 && "none"@.len() == 4);
    assert("tool"@[0] == 't' && "auto"@[0] == 'a' && "none"@[0] == 'n');
    let choice = request.tool_choice@;
    lemma_says(choice, "name"@);
    let items = json::items_view(request.tools@);
    let name = choice.text_at("name"@);
    if says(choice, "name"@) {
        assert(choice.at("name"@) == JsonView::Str(name));
        if models::tool_named(items, name) {
            let i = choose|i: int|
                0 <= i < items.len() && (#[trigger] items[i]).at("name"@) == JsonView::Str(name);
            assert(request.tools@[i]@ == items[i]);
        }
        assert forall|i: int|
            0 <= i < request.tools@.len() && (#[trigger] request.tools@[i])@.at("name"@)
                == choice.at("name"@) implies models::tool_named(items, name) by {
            assert(items[i] == request.tools@[i]@);
        }
    }
}

/// A tool needs a name, and an object as its input schema unless it is of
/// another type than custom.
pub proof fn tools_are_checked(tool: JsonView)
    ensures
        models::tool_error(tool) is None <==> says(tool, "name"@) && (tool.at("input_schema"@)
            is Object || (tool.get("type"@) is Some && tool.at("type"@) != JsonView::Str(
            "custom"@,
        ))),
        !says(tool, "name"@) ==> refused(
            models::tool_error(tool),
            "name"@,
            "must be a non-empty string"@,
        ),
        says(tool, "name"@) && models::tool_error(tool) is Some ==> refused(
            models::tool_error(tool),
            "tools.input_schema"@,
            "must be an object"@,
        ),
{
    lemma_says(tool, "name"@);
}

proof fn lemma_tools(tools: Seq<JsonView>)
    ensures
        models::tools_error(tools) is None <==> forall|i: int|
            0 <= i < tools.len() ==> models::tool_error(#[trigger] tools[i]) is None,
        models::tools_error(tools) is Some ==> exists|i: int|
            {
                &&& 0 <= i < tools.len()
                &&& models::tool_error(#[trigger] tools[i]) == models::tools_error(tools)
                &&& forall|j: int| 0 <= j < i ==> models::tool_error(#[trigger] tools[j]) is None
            },
    decreases tools.len(),
{
    if tools.len() > 0 {
        let front = tools.drop_last();
        lemma_tools(front);
        assert(tools.last() == tools[tools.len() - 1]);
        assert forall|i: int| 0 <= i < front.len() implies #[trigger] front[i] == tools[i] by {}
        if models::tools_error(front) is Some {
            let i = choose|i: int|
                {
                    &&& 0 <= i < front.len()
                    &&& models::tool_error(#[trigger] front[i]) == models::tools_error(front)
                    &&& forall|j: int|
                        0 <= j < i ==> models::tool_error(#[trigger] front[j]) is None
                };
            assert(models::tool_error(tools[i]) is Some);
            assert forall|j: int| 0 <= j < i implies models::tool_error(
                #[trigger] tools[j],
            ) is None by {
                assert(front[j] == tools[j]);
            }
        } else {
            assert forall|j: int| 0 <= j < front.len() implies models::tool_error(
                #[trigger] tools[j],
            ) is None by {
                assert(front[j] == tools[j]);
            }
        }
    }
}

/// The refusal of one turn.
spec fn turn_error(turn: Message) -> Option<ErrorView> {
    if turn.role@ == "user"@ || turn.role@ == "assistant"@ || turn.role@ == "system"@ {
        models::content_error(turn.content@, false)
    } else {
        Some(models::invalid("messages.role"@, "must be user, assistant, or system"@))
    }
}

proof fn lemma_turns(turns: Seq<Message>)
    ensures
        models::messages_error(turns) is None <==> forall|i: int|
            0 <= i < turns.len() ==> turn_error(#[trigger] turns[i]) is None,
        models::messages_error(turns) is Some ==> exists|i: int|
            {
                &&& 0 <= i < turns.len()
                &&& turn_error(#[trigger] turns[i]) == models::messages_error(turns)
                &&& forall|j: int| 0 <= j < i ==> turn_error(#[trigger] turns[j]) is None
            },
    decreases turns.len(),
{
    if turns.len() > 0 {
        let front = turns.drop_last();
        lemma_turns(front);
        assert(turns.last() == turns[turns.len() - 1]);
        assert forall|i: int| 0 <= i < front.len() implies #[trigger] front[i] == turns[i] by {}
        if models::messages_error(front) is Some {
            let i = choose|i: int|
                {
                    &&& 0 <= i < front.len()
                    &&& turn_error(#[trigger] front[i]) == models::messages_error(front)
                    &&& forall|j: int| 0 <= j < i ==> turn_error(#[trigger] front[j]) is None
                };
            assert(turn_error(turns[i]) is Some);
            assert forall|j: int| 0 <= j < i implies turn_error(#[trigger] turns[j]) is None by {
                assert(front[j] == turns[j]);
            }
        } else {
            assert forall|j: int| 0 <= j < front.len() implies turn_error(
                #[trigger] turns[j],
            ) is None by {
                assert(front[j] == turns[j]);
            }
        }
    }
}

/// The turns of a request are accepted exactly where each is the user's, the
/// assistant's or the system's and has acceptable content. Otherwise the first
/// that is not decides the refusal.
pub proof fn turns_are_checked(turns: Seq<Message>)
    ensures
        models::messages_error(turns) is None <==> forall|i: int|
            0 <= i < turns.len() ==> {
                &&& (#[trigger] turns[i]).role@ == "user"@ || turns[i].role@ == "assistant"@
                    || turns[i].role@ == "system"@
                &&& models::content_error(turns[i].content@, false) is None
            },
        models::messages_error(turns) is Some ==> exists|i: int|
            {
                &&& 0 <= i < turns.len()
                &&& models::messages_error(turns.take(i)) is None
                &&& if (#[trigger] turns[i]).role@ == "user"@ || turns[i].role@ == "assistant"@
                    || turns[i].role@ == "system"@ {
                    models::messages_error(turns) == models::content_error(
                        turns[i].content@,
                        false,
                    )
                } else {
                    refused(
                        models::messages_error(turns),
                        "messages.role"@,
                        "must be user, assistant, or system"@,
                    )
                }
            },
{
    lemma_turns(turns);
    if models::messages_error(turns) is Some {
        let i = choose|i: int|
            {
                &&& 0 <= i < turns.len()
                &&& turn_error(#[trigger] turns[i]) == models::messages_error(turns)
                &&& forall|j: int| 0 <= j < i ==> turn_error(#[trigger] turns[j]) is None
            };
        lemma_turns(turns.take(i));
        assert forall|j: int| 0 <= j < turns.take(i).len() implies turn_error(
            #[trigger] turns.take(i)[j],
        ) is None by {
            assert(turns.take(i)[j] == turns[j]);
        }
    } else {
        assert forall|i: int| 0 <= i < turns.len() implies turn_error(#[trigger] turns[i])
            is None by {}
    }
    if forall|i: int|
        0 <= i < turns.len() ==> {
            &&& (#[trigger] turns[i]).role@ == "user"@ || turns[i].role@ == "assistant"@
                || turns[i].role@ == "system"@
            &&& models::content_error(turns[i].content@, false) is None
        } {
        assert forall|i: int| 0 <= i < turns.len() implies turn_error(#[trigger] turns[i])
            is None by {}
    }
}

proof fn lemma_parts(parts: Seq<JsonView>, system: bool)
    ensures
        models::parts_error(parts, system) is None <==> forall|i: int|
            0 <= i < parts.len() ==> models::part_error(#[trigger] parts[i], system) is None,
        models::parts_error(parts, system) is Some ==> exists|i: int|
            {
                &&& 0 <= i < parts.len()
                &&& models::part_error(#[trigger] parts[i], system) == models::parts_error(
                    parts,
                    system,
                )
                &&& forall|j: int|
                    0 <= j < i ==> models::part_error(#[trigger] parts[j], system) is None
            },
    decreases parts.len(),
{
    if parts.len() > 0 {
        let front = parts.drop_last();
        lemma_parts(front, system);
        assert(parts.last() == parts[parts.len() - 1]);
        assert forall|i: int| 0 <= i < front.len() implies #[trigger] front[i] == parts[i] by {}
        if models::parts_error(front, system) is Some {
            let i = choose|i: int|
                {
                    &&& 0 <= i < front.len()
                    &&& models::part_error(#[trigger] front[i], system) == models::parts_error(
                        front,
                        system,
                    )
                    &&& forall|j: int|
                        0 <= j < i ==> models::part_error(#[trigger] front[j], system) is None
                };
            assert(models::part_error(parts[i], system) is Some);
            assert forall|j: int| 0 <= j < i implies models::part_error(
                #[trigger] parts[j],
                system,
            ) is None by {
                assert(front[j] == parts[j]);
            }
        } else {
            assert forall|j: int| 0 <= j < front.len() implies models::part_error(
                #[trigger] parts[j],
                system,
            ) is None by {
                assert(front[j] == parts[j]);
            }
        }
    }
}

/// Content is accepted exactly where it is text that is not empty, or a list of
/// acceptable parts that is not empty. The first bad part decides the refusal.
pub proof fn content_is_checked(content: JsonView, system: bool)
    ensures
        content matches JsonView::Str(s) ==> (models::content_error(content, system) is None
            <==> s.len() > 0),
        content == JsonView::Str(Seq::empty()) ==> refused(
            models::content_error(content, system),
            "content"@,
            "must not be empty"@,
        ),
        content matches JsonView::Array(parts) ==> (models::content_error(content, system) is None
            <==> parts.len() > 0 && forall|i: int|
            0 <= i < parts.len() ==> models::part_error(#[trigger] parts[i], system) is None),
        content matches JsonView::Array(parts) ==> parts.len() > 0 && models::content_error(
            content,
            system,
        ) is Some ==> exists|i: int|
            {
                &&& 0 <= i < parts.len()
                &&& models::part_error(#[trigger] parts[i], system) == models::content_error(
                    content,
                    system,
                )
                &&& forall|j: int|
                    0 <= j < i ==> models::part_error(#[trigger] parts[j], system) is None
            },
        (!(content is Str) && content.items().len() == 0) ==> refused(
            models::content_error(content, system),
            "content"@,
            "must be a string or non-empty array"@,
        ),
{
    if content is Array {
        lemma_parts(content->Array_0, system);
    }
}

/// The types of parts and sources, told apart.
proof fn part_types_differ()
    ensures
        "url"@.len() == 3,
        "text"@.len() == 4,
        "image"@.len() == 5 && "image"@[0] == 'i',
        "audio"@.len() == 5 && "audio"@[0] == 'a',
        "base64"@.len() == 6 && "base64"@[0] == 'b',
        "system"@.len() == 6 && "system"@[0] == 's',
        "content"@.len() == 7,
        "document"@.len() == 8 && "document"@[0] == 'd',
        "tool_use"@.len() == 8 && "tool_use"@[0] == 't' && "tool_use"@[1] == 'o',
        "thinking"@.len() == 8 && "thinking"@[0] == 't' && "thinking"@[1] == 'h',
        "tool_result"@.len() == 11,
        "redacted_thinking"@.len() == 17,
{
    reveal_strlit("url");
    reveal_strlit("text");
    reveal_strlit("image");
    reveal_strlit("audio");
    reveal_strlit("base64");
    reveal_strlit("system");
    reveal_strlit("content");
    reveal_strlit("document");
    reveal_strlit("tool_use");
    reveal_strlit("thinking");
    reveal_strlit("tool_result");
    reveal_strlit("redacted_thinking");
}

/// A part needs a type, and by its type: text its text; an image or a document a
/// source; a tool call its id, its name and an object as input; a tool result
/// the id of its call; a thought its signature and its text; a redacted thought
/// its data. Audio is refused, and among instructions everything but text. Other
/// types are accepted.
pub proof fn parts_are_checked(part: JsonView, system: bool)
    ensures
        ({
            let ok = models::part_error(part, system) is None;
            let kind = part.at("type"@);
            &&& !says(part, "type"@) ==> refused(
                models::part_error(part, system),
                "type"@,
                "must be a non-empty string"@,
            )
            &&& system && says(part, "type"@) && kind != JsonView::Str("text"@) ==> refused(
                models::part_error(part, system),
                "system"@,
                "only text blocks are supported"@,
            )
            &&& kind == JsonView::Str("text"@) ==> (ok <==> says(part, "text"@))
            &&& !system ==> {
                &&& kind == JsonView::Str("image"@) || kind == JsonView::Str("document"@) ==> (ok
                    <==> part.get("source"@) is Some && models::source_error(
                    part.at("source"@),
                    kind == JsonView::Str("document"@),
                ) is None)
                &&& kind == JsonView::Str("tool_use"@) ==> (ok <==> says(part, "id"@) && says(
                    part,
                    "name"@,
                ) && part.at("input"@) is Object)
                &&& kind == JsonView::Str("tool_result"@) ==> (ok <==> says(part, "tool_use_id"@)
                    && (part.get("content"@) is None || part.at("content"@) == JsonView::Str(""@)
                    || part.at("content"@) == JsonView::Array(Seq::empty())
                    || models::content_error(part.at("content"@), false) is None))
                &&& kind == JsonView::Str("thinking"@) ==> (ok <==> says(part, "signature"@)
                    && part.at("thinking"@) is Str)
                &&& kind == JsonView::Str("redacted_thinking"@) ==> (ok <==> says(part, "data"@))
                &&& kind == JsonView::Str("system"@) ==> (ok <==> part.get("content"@) is Some
                    && models::content_error(part.at("content"@), true) is None)
                &&& kind == JsonView::Str("audio"@) ==> refused(
                    models::part_error(part, system),
                    "content"@,
                    "audio is not supported"@,
                )
                &&& says(part, "type"@) && kind != JsonView::Str("text"@) && kind != JsonView::Str(
                    "image"@,
                ) && kind != JsonView::Str("document"@) && kind != JsonView::Str("tool_use"@)
                    && kind != JsonView::Str("tool_result"@) && kind != JsonView::Str("thinking"@)
                    && kind != JsonView::Str("redacted_thinking"@) && kind != JsonView::Str(
                    "system"@,
                ) && kind != JsonView::Str("audio"@) ==> ok
            }
        }),
{
    part_types_differ();
    let kind = part.at("type"@);
    lemma_says(part, "type"@);
    lemma_says(part, "text"@);
    lemma_says(part, "id"@);
    lemma_says(part, "name"@);
    lemma_says(part, "tool_use_id"@);
    lemma_says(part, "signature"@);
    lemma_says(part, "data"@);
    if kind is Str {
        lemma_named(part);
    }
}

/// A part whose type is one of the known ones has a type.
proof fn lemma_named(part: JsonView)
    ensures
        part.at("type"@) matches JsonView::Str(kind) ==> {
            ||| kind == "text"@
            ||| kind == "image"@
            ||| kind == "document"@
            ||| kind == "tool_use"@
            ||| kind == "tool_result"@
            ||| kind == "thinking"@
            ||| kind == "redacted_thinking"@
            ||| kind == "system"@
            ||| kind == "audio"@
        } ==> says(part, "type"@),
{
    part_types_differ();
    if part.at("type"@) is Str {
        let kind = part.at("type"@)->Str_0;
        assert(part.get("type"@) == Some(JsonView::Str(kind)));
        assert("text"@[0] == 't' && "tool_result"@[0] == 't' && "redacted_thinking"@[0] == 'r'
            && "tool_use"@[0] == 't' && "thinking"@[0] == 't') by {
            reveal_strlit("text");
            reveal_strlit("tool_use");
            reveal_strlit("thinking");
            reveal_strlit("tool_result");
            reveal_strlit("redacted_thinking");
        }
        if kind.len() > 0 && !text::white_space(kind[0]) {
            assert(says(part, "type"@));
        }
    }
}

/// A source is base64 data with its media type, or a URL. That of a document may
/// also be text, or content.
pub proof fn sources_are_checked(source: JsonView, document: bool)
    ensures
        ({
            let ok = models::source_error(source, document) is None;
            let kind = source.at("type"@);
            &&& kind == JsonView::Str("base64"@) ==> (ok <==> says(source, "data"@) && says(
                source,
                "media_type"@,
            ))
            &&& kind == JsonView::Str("url"@) ==> (ok <==> says(source, "url"@))
            &&& document && kind == JsonView::Str("text"@) ==> (ok <==> says(source, "data"@))
            &&& document && kind == JsonView::Str("content"@) ==> (ok <==> source.get(
                "content"@,
            ) is Some && models::content_error(source.at("content"@), false) is None)
            &&& kind != JsonView::Str("base64"@) && kind != JsonView::Str("url"@) && (!document || (
            kind != JsonView::Str("text"@) && kind != JsonView::Str("content"@))) ==> refused(
                models::source_error(source, document),
                "source"@,
                "unsupported image or document source"@,
            )
        }),
{
    part_types_differ();
    lemma_says(source, "data"@);
    lemma_says(source, "media_type"@);
    lemma_says(source, "url"@);
}

/// Whether the rules that come before the output format are kept: a model, a
/// positive limit unless tokens are counted, turns, instructions, tools, a tool
/// choice and thinking settings.
spec fn keeps_rules(request: MessagesRequest, count: bool) -> bool {
    &&& exists|i: int|
        0 <= i < request.model@.len() && !text::white_space(#[trigger] request.model@[i])
    &&& !count ==> (request.max_tokens matches Some(max) && max > 0)
    &&& request.messages@.len() > 0
    &&& forall|i: int|
        0 <= i < request.messages@.len() ==> {
            &&& (#[trigger] request.messages@[i]).role@ == "user"@ || request.messages@[i].role@
                == "assistant"@ || request.messages@[i].role@ == "system"@
            &&& models::content_error(request.messages@[i].content@, false) is None
        }
    &&& request.system@ is Null || models::content_error(request.system@, true) is None
    &&& forall|i: int|
        0 <= i < request.tools@.len() ==> models::tool_error(
            (#[trigger] request.tools@[i])@,
        ) is None
    &&& request.choice_error() is None
    &&& request.thinking_error(count) is None
}

/// A request is accepted exactly where it has a model; a positive `max_tokens`,
/// unless tokens are counted; at least one turn, and only acceptable ones;
/// acceptable instructions, where there are any; acceptable tools; an acceptable
/// tool choice; acceptable thinking settings; and, where it asks for an output
/// format, a supported schema.
pub proof fn requests_are_checked(request: MessagesRequest, count: bool)
    ensures
        request.error(count) is None <==> {
            &&& exists|i: int|
                0 <= i < request.model@.len() && !text::white_space(#[trigger] request.model@[i])
            &&& !count ==> (request.max_tokens matches Some(max) && max > 0)
            &&& request.messages@.len() > 0
            &&& forall|i: int|
                0 <= i < request.messages@.len() ==> {
                    &&& (#[trigger] request.messages@[i]).role@ == "user"@
                        || request.messages@[i].role@ == "assistant"@ || request.messages@[i].role@
                        == "system"@
                    &&& models::content_error(request.messages@[i].content@, false) is None
                }
            &&& request.system@ is Null || models::content_error(request.system@, true) is None
            &&& forall|i: int|
                0 <= i < request.tools@.len() ==> models::tool_error(
                    (#[trigger] request.tools@[i])@,
                ) is None
            &&& request.choice_error() is None
            &&& request.thinking_error(count) is None
            &&& request.output_config@.get("format"@) matches Some(format) ==> format.at("type"@)
                == JsonView::Str("json_schema"@) && models::schema_supported(
                format.at("schema"@),
                true,
            )
        },
{
    lemma_rules(request, count);
}

proof fn lemma_rules(request: MessagesRequest, count: bool)
    ensures
        keeps_rules(request, count) ==> request.error(count) == request.format_error(),
        !keeps_rules(request, count) ==> request.error(count) is Some,
{
    let model = request.model@;
    if !text::blank(model) {
        let i = choose|i: int| 0 <= i < model.len() && !text::white_space(#[trigger] model[i]);
        assert(0 <= i < model.len() && !text::white_space(request.model@[i]));
    }
    turns_are_checked(request.messages@);
    let items = json::items_view(request.tools@);
    lemma_tools(items);
    assert forall|i: int| 0 <= i < request.tools@.len() implies #[trigger] items[i]
        == request.tools@[i]@ by {}
    if models::tools_error(items) is None {
        assert forall|i: int| 0 <= i < request.tools@.len() implies models::tool_error(
            (#[trigger] request.tools@[i])@,
        ) is None by {
            assert(models::tool_error(items[i]) is None);
        }
    }
    if forall|i: int|
        0 <= i < request.tools@.len() ==> models::tool_error(
            (#[trigger] request.tools@[i])@,
        ) is None {
        assert forall|i: int| 0 <= i < items.len() implies models::tool_error(
            #[trigger] items[i],
        ) is None by {
            assert(items[i] == request.tools@[i]@);
        }
    }
}

/// The rules are tried in order, and the first that is broken is reported: the
/// model, the limit, the turns, the instructions, the tools, the tool choice,
/// the thinking settings, the output format.
pub proof fn first_broken_rule_is_reported(request: MessagesRequest, count: bool)
    ensures
        ({
            let e = request.error(count);
            let named = exists|i: int|
                0 <= i < request.model@.len() && !text::white_space(#[trigger] request.model@[i]);
            let limited = count || (request.max_tokens matches Some(max) && max > 0);
            let started = named && limited && request.messages@.len() > 0;
            let turns = models::messages_error(request.messages@);
            let instructions = models::content_error(request.system@, true);
            let tools = models::tools_error(json::items_view(request.tools@));
            &&& !named ==> refused(e, "model"@, "must not be empty"@)
            &&& named && !limited ==> refused(e, "max_tokens"@, "must be a positive integer"@)
            &&& named && limited && request.messages@.len() == 0 ==> refused(
                e,
                "messages"@,
                "must not be empty"@,
            )
            &&& started && turns is Some ==> e == turns
            &&& started && turns is None && !(request.system@ is Null) && instructions is Some ==> e
                == instructions
            &&& started && turns is None && (request.system@ is Null || instructions is None) ==> {
                &&& tools is Some ==> e == tools
                &&& tools is None && request.choice_error() is Some ==> e == request.choice_error()
                &&& tools is None && request.choice_error() is None && request.thinking_error(
                    count,
                ) is Some ==> e == request.thinking_error(count)
                &&& tools is None && request.choice_error() is None && request.thinking_error(
                    count,
                ) is None ==> (match request.output_config@.get("format"@) {
                    None => e is None,
                    Some(format) => {
                        &&& format.at("type"@) != JsonView::Str("json_schema"@) ==> refused(
                            e,
                            "output_config.format.type"@,
                            "only json_schema is supported"@,
                        )
                        &&& format.at("type"@) == JsonView::Str("json_schema"@) ==> (e is None
                            <==> models::schema_supported(format.at("schema"@), true))
                        &&& format.at("type"@) == JsonView::Str("json_schema"@) && e is Some
                            ==> refused(
                            e,
                            "schema"@,
                            "supported subset: object roots, nested objects, string, integer, number, boolean, enum, const"@,
                        )
                    },
                })
            }
        }),
{
    let model = request.model@;
    if !text::blank(model) {
        let i = choose|i: int| 0 <= i < model.len() && !text::white_space(#[trigger] model[i]);
        assert(0 <= i < model.len() && !text::white_space(request.model@[i]));
    }
}

/// Every refusal of a request is a 400 for a malformed request, without a code.
pub proof fn refusals_are_bad_requests(request: MessagesRequest, count: bool)
    ensures
        request.error(count) matches Some(e) ==> e.status == 400 && e.kind == "error"@
            && e.error_type == "invalid_request_error"@ && e.code is None,
{
    lemma_turns(request.messages@);
    if request.system@ is Array {
        content_is_checked(request.system@, true);
    }
    if models::content_error(request.system@, true) is Some {
        lemma_content_plain(request.system@, true);
    }
    if models::messages_error(request.messages@) is Some {
        let turns = request.messages@;
        let i = choose|i: int|
            {
                &&& 0 <= i < turns.len()
                &&& turn_error(#[trigger] turns[i]) == models::messages_error(turns)
                &&& forall|j: int| 0 <= j < i ==> turn_error(#[trigger] turns[j]) is None
            };
        lemma_content_plain(turns[i].content@, false);
    }
    let items = json::items_view(request.tools@);
    lemma_tools(items);
}

/// Whether a refusal, where there is one, is of a malformed request.
spec fn plain_refusal(e: Option<ErrorView>) -> bool {
    e matches Some(e) ==> e.status == 400 && e.kind == "error"@ && e.error_type
        == "invalid_request_error"@ && e.code is None
}

proof fn lemma_content_plain(content: JsonView, system: bool)
    ensures
        plain_refusal(models::content_error(content, system)),
    decreases content, 3int,
{
    match content {
        JsonView::Array(parts) => {
            if parts.len() > 0 {
                lemma_parts(parts, system);
                if models::parts_error(parts, system) is Some {
                    let i = choose|i: int|
                        {
                            &&& 0 <= i < parts.len()
                            &&& models::part_error(#[trigger] parts[i], system)
                                == models::parts_error(parts, system)
                            &&& forall|j: int|
                                0 <= j < i ==> models::part_error(#[trigger] parts[j], system)
                                    is None
                        };
                    json::item_is_smaller(content, i);
                    lemma_part_plain(parts[i], system);
                }
            }
        },
        _ => {},
    }
}

proof fn lemma_part_plain(part: JsonView, system: bool)
    ensures
        plain_refusal(models::part_error(part, system)),
    decreases part, 1int,
{
    if part.get("source"@) is Some {
        json::member_is_smaller(part, "source"@);
        let source = part.get("source"@)->0;
        if source.get("content"@) is Some {
            json::member_is_smaller(source, "content"@);
            lemma_content_plain(source.get("content"@)->0, false);
        }
    }
    if part.get("content"@) is Some {
        json::member_is_smaller(part, "content"@);
        lemma_content_plain(part.get("content"@)->0, false);
        lemma_content_plain(part.get("content"@)->0, true);
    }
}

/// The members of a schema and the types that it names, told apart.
proof fn schema_words_differ()
    ensures
        "object"@.len() == 6 && "object"@[0] == 'o',
        "string"@.len() == 6 && "string"@[0] == 's',
        "number"@.len() == 6 && "number"@[0] == 'n',
        "integer"@.len() == 7 && "integer"@[0] == 'i',
        "boolean"@.len() == 7 && "boolean"@[0] == 'b',
{
    reveal_strlit("object");
    reveal_strlit("string");
    reveal_strlit("number");
    reveal_strlit("integer");
    reveal_strlit("boolean");
}

/// The supported schemas, by kind. A root is an object; the properties of an
/// object are supported schemas themselves; below the root a scalar, a constant
/// or an enumeration that is not empty will do. Unions and references are never
/// supported.
pub proof fn schemas_are_checked(schema: JsonView, root: bool)
    ensures
        ({
            let ok = models::schema_supported(schema, root);
            let kind = schema.at("type"@);
            let plain = schema is Object && schema.get("anyOf"@) is None && schema.get("oneOf"@)
                is None && schema.get("$ref"@) is None;
            let scalar = kind == JsonView::Str("string"@) || kind == JsonView::Str("integer"@)
                || kind == JsonView::Str("number"@) || kind == JsonView::Str("boolean"@);
            &&& !plain ==> !ok
            &&& root && kind != JsonView::Str("object"@) ==> !ok
            &&& plain && !root && scalar ==> ok
            &&& plain && kind == JsonView::Str("object"@) ==> {
                &&& schema.get("properties"@) is None ==> ok
                &&& schema.get("properties"@) matches Some(p) ==> (ok <==> p is Object
                    && forall|k: Seq<char>| #[trigger]
                    p->Object_0.contains_key(k) ==> models::schema_supported(
                        p->Object_0[k],
                        false,
                    ))
            }
            &&& plain && !root && kind != JsonView::Str("object"@) && !scalar ==> (ok
                <==> schema.get("const"@) is Some || (schema.at("enum"@) is Array && schema.at(
                "enum"@,
            ) != JsonView::Array(Seq::empty())))
        }),
{
    schema_words_differ();
    if schema.at("enum"@) is Array && schema.at("enum"@).items().len() == 0 {
        assert(schema.at("enum"@).items() =~= Seq::empty());
    }
}

/// Whether a value is one that a schema allows: its constant; one of its
/// enumeration; an object whose members are those of the schema, each allowed by
/// the member's own; a whole number; a number; a boolean; a text.
pub open spec fn allows(schema: JsonView, value: JsonView) -> bool
    decreases schema,
{
    let kind = schema.at("type"@);
    if schema.get("const"@) is Some {
        value == schema.at("const"@)
    } else if schema.at("enum"@).items().len() > 0 {
        schema.at("enum"@).items().contains(value)
    } else if kind == JsonView::Str("object"@) {
        match schema.get("properties"@) {
            Some(JsonView::Object(members)) => {
                &&& value is Object
                &&& forall|k: Seq<char>| #[trigger]
                    value->Object_0.contains_key(k) <==> members.contains_key(k)
                &&& forall|k: Seq<char>| #[trigger]
                    members.contains_key(k) ==> allows(members[k], value->Object_0[k])
            },
            _ => value is Object,
        }
    } else if kind == JsonView::Str("integer"@) {
        value is Num && value->Num_0 is Int
    } else if kind == JsonView::Str("number"@) {
        value is Num
    } else if kind == JsonView::Str("boolean"@) {
        value is Bool
    } else {
        value is Str
    }
}

/// A generated value is one that its schema allows.
pub proof fn generated_values_are_allowed(schema: JsonView, said: Seq<char>)
    ensures
        allows(schema, models::generated(schema, said)),
    decreases schema,
{
    schema_words_differ();
    if schema.get("const"@) is None && schema.at("enum"@).items().len() == 0 && schema.at("type"@)
        == JsonView::Str("object"@) {
        match schema.get("properties"@) {
            Some(JsonView::Object(members)) => {
                json::member_is_smaller(schema, "properties"@);
                let value = models::generated(schema, said);
                assert forall|k: Seq<char>| #[trigger] members.contains_key(k) implies allows(
                    members[k],
                    value->Object_0[k],
                ) by {
                    json::member_is_smaller(schema.get("properties"@)->0, k);
                    generated_values_are_allowed(members[k], said);
                    assert(value->Object_0.contains_key(k));
                }
            },
            _ => {},
        }
    }
}

/// What a schema leaves open is filled in the same way everywhere: a text is the
/// text to say, a whole number 1, a number 1.0, a boolean true, an enumeration
/// its first.
pub proof fn generated_values_are_fixed(schema: JsonView, said: Seq<char>)
    requires
        schema.get("const"@) is None,
    ensures
        ({
            let value = models::generated(schema, said);
            let kind = schema.at("type"@);
            &&& schema.at("enum"@).items().len() > 0 ==> value == schema.at("enum"@).items()[0]
            &&& schema.at("enum"@).items().len() == 0 ==> {
                &&& kind == JsonView::Str("string"@) ==> value == JsonView::Str(said)
                &&& kind == JsonView::Str("integer"@) ==> value.as_u64() == Some(1u64)
                &&& kind == JsonView::Str("number"@) ==> value == JsonView::Num(
                    NumberView::Float("1.0"@),
                )
                &&& kind == JsonView::Str("boolean"@) ==> value == JsonView::Bool(true)
                &&& kind == JsonView::Str("object"@) ==> (match schema.get("properties"@) {
                    Some(JsonView::Object(members)) => forall|k: Seq<char>| #[trigger]
                        members.contains_key(k) ==> value.get(k) == Some(
                            models::generated(members[k], said),
                        ),
                    _ => value == JsonView::Object(Map::empty()),
                })
            }
        }),
{
    schema_words_differ();
}

/// The text in content: a text is itself, a text part gives its text, a tool
/// result or an instruction part what it holds, and anything else nothing.
pub proof fn content_texts(content: JsonView)
    ensures
        ({
            let kind = content.at("type"@);
            &&& content matches JsonView::Str(s) ==> models::text_in(content) == s
            &&& content is Object && kind == JsonView::Str("text"@) && content.at("text"@)
                is Str ==> JsonView::Str(models::text_in(content)) == content.at("text"@)
            &&& content is Object && (kind == JsonView::Str("tool_result"@) || kind
                == JsonView::Str("system"@)) && content.get("content"@) is Some
                ==> models::text_in(content) == models::text_in(content.at("content"@))
            &&& content is Object && kind != JsonView::Str("text"@) && kind != JsonView::Str(
                "tool_result"@,
            ) && kind != JsonView::Str("system"@) ==> models::text_in(content).len() == 0
            &&& !(content is Str) && !(content is Object) && !(content is Array)
                ==> models::text_in(content).len() == 0
        }),
{
    part_types_differ();
}

/// The text of a list of parts is that of its parts with a space between each
/// two.
pub proof fn part_texts_are_joined(parts: Seq<JsonView>, part: JsonView)
    ensures
        models::text_in(JsonView::Array(Seq::empty())).len() == 0,
        models::text_in(JsonView::Array(seq![part])) == models::text_in(part),
        parts.len() > 0 ==> models::text_in(JsonView::Array(parts.push(part))) == models::text_in(
            JsonView::Array(parts),
        ) + seq![' '] + models::text_in(part),
{
    reveal_with_fuel(models::texts_in, 2);
    let one = models::texts_in(seq![part]);
    assert(seq![part].drop_last() =~= Seq::empty());
    assert(one =~= seq![models::text_in(part)]);
    assert(text::joined(one, seq![' ']) == one[0]);
    let all = models::texts_in(parts.push(part));
    assert(parts.push(part).drop_last() =~= parts);
    lemma_texts_len(parts);
    assert(all.drop_last() =~= models::texts_in(parts));
    assert(models::texts_in(Seq::<JsonView>::empty()) =~= Seq::empty());
    assert(text::joined(Seq::empty(), seq![' ']).len() == 0);
}

proof fn lemma_texts_len(parts: Seq<JsonView>)
    ensures
        models::texts_in(parts).len() == parts.len(),
    decreases parts.len(),
{
    if parts.len() > 0 {
        lemma_texts_len(parts.drop_last());
    }
}

/// The document of an error gives the error's type and message, and its code
/// exactly where it has one.
pub proof fn error_documents_tell_the_error(e: ErrorView)
    ensures
        ({
            let document = models::error_document(e);
            &&& document.at("type"@) == JsonView::Str(e.kind)
            &&& document.at("error"@).at("type"@) == JsonView::Str(e.error_type)
            &&& document.at("error"@).at("message"@) == JsonView::Str(e.message)
            &&& e.code matches Some(code) ==> document.at("error"@).get("code"@) == Some(
                JsonView::Str(code),
            )
            &&& e.code is None ==> document.at("error"@).get("code"@) is None
        }),
{
    reveal_strlit("type");
    reveal_strlit("error");
    reveal_strlit("message");
    reveal_strlit("code");
    assert("type"@.len() == 4 && "error"@.len() == 5 && "message"@.len() == 7 && "code"@.len()
        == 4 && "type"@[0] == 't' && "code"@[0] == 'c');
}

/// A request that no scenario answers is refused as malformed, with a code of
/// its own.
pub proof fn unanswered_requests_have_a_code()
    ensures
        models::no_scenario().status == 400,
        models::no_scenario().error_type == "invalid_request_error"@,
        models::no_scenario().code == Some("scenario_not_found"@),
        models::no_scenario().message == "scenario: no matching scenario remains"@,
{
    reveal_strlit("scenario: no matching scenario remains");
    reveal_strlit("scenario");
    reveal_strlit(": ");
    reveal_strlit("no matching scenario remains");
    assert("scenario"@ + ": "@ + "no matching scenario remains"@
        =~= "scenario: no matching scenario remains"@);
}

proof fn lemma_spaced_words(parts: Seq<Seq<char>>, last: Seq<char>)
    ensures
        text::words(text::joined(parts.push(last), seq![' '])) == text::words(
            text::joined(parts, seq![' ']),
        ) + text::words(last),
{
    let sep = seq![' '];
    let before = text::joined(parts, sep);
    assert(parts.push(last).drop_last() =~= parts);
    if parts.len() == 0 {
        assert(before =~= Seq::empty());
        assert(text::words(before) =~= Seq::empty());
        assert(text::words(before) + text::words(last) =~= text::words(last));
    } else {
        laws::words_on_both_sides(before, ' ', last);
        assert(text::joined(parts.push(last), sep) =~= before.push(' ') + last);
    }
}

/// What the user said is the words of the user's turns, in order: a turn of the
/// user adds its words behind those before, and a turn of anybody else adds
/// none. Before the first turn nothing was said.
pub proof fn user_turns_add_their_words(a: MessagesRequest, b: MessagesRequest, turn: Message)
    requires
        b.messages@ == a.messages@.push(turn),
    ensures
        a.messages@.len() == 0 ==> text::words(a.user_text()).len() == 0,
        text::words(b.user_text()) == text::words(a.user_text()) + (if turn.role@ == "user"@ {
            text::words(models::text_in(turn.content@))
        } else {
            Seq::empty()
        }),
        text::normalized(a.user_text()) == a.user_text(),
{
    let sep = seq![' '];
    let before = models::role_texts(a.messages@, "user"@);
    assert(b.messages@.drop_last() =~= a.messages@);
    laws::normalizing_keeps_words(text::joined(before, sep));
    laws::normalizing_keeps_words(text::joined(models::role_texts(b.messages@, "user"@), sep));
    text::normalizing_twice_changes_nothing(text::joined(before, sep));
    lemma_spaced_words(before, models::text_in(turn.content@));
    let words = text::words(a.user_text());
    assert(words + Seq::<Seq<char>>::empty() =~= words);
    if a.messages@.len() == 0 {
        assert(text::joined(before, sep) =~= Seq::empty());
    }
}

/// What the instructions say is the words of the system prompt and then those of
/// the system's turns, in order.
pub proof fn system_turns_add_their_words(a: MessagesRequest, b: MessagesRequest, turn: Message)
    requires
        b.messages@ == a.messages@.push(turn),
        b.system@ == a.system@,
    ensures
        a.messages@.len() == 0 ==> text::words(a.instruction_text()) == text::words(
            models::text_in(a.system@),
        ),
        text::words(b.instruction_text()) == text::words(a.instruction_text()) + (if turn.role@
            == "system"@ {
            text::words(models::text_in(turn.content@))
        } else {
            Seq::empty()
        }),
        text::normalized(a.instruction_text()) == a.instruction_text(),
{
    let sep = seq![' '];
    let first = seq![models::text_in(a.system@)];
    let before = first + models::role_texts(a.messages@, "system"@);
    let after = first + models::role_texts(b.messages@, "system"@);
    assert(b.messages@.drop_last() =~= a.messages@);
    laws::normalizing_keeps_words(text::joined(before, sep));
    laws::normalizing_keeps_words(text::joined(after, sep));
    text::normalizing_twice_changes_nothing(text::joined(before, sep));
    lemma_spaced_words(before, models::text_in(turn.content@));
    let words = text::words(a.instruction_text());
    assert(words + Seq::<Seq<char>>::empty() =~= words);
    if turn.role@ == "system"@ {
        assert(after =~= before.push(models::text_in(turn.content@)));
    }
    if a.messages@.len() == 0 {
        assert(before =~= first);
        assert(text::joined(first, sep) == first[0]);
    }
}

} // verus!
