//! Names in the protocol, each told from the others of its kind by its length
//! or by a letter.

use vstd::prelude::*;

verus! {

/// The members of a chat document and of its chunks.
pub(crate) proof fn chunk_members_differ()
    ensures
        "id"@.len() == 2,
        "model"@.len() == 5 && "model"@[0] == 'm',
        "usage"@.len() == 5 && "usage"@[0] == 'u',
        "object"@.len() == 6,
        "choices"@.len() == 7 && "choices"@[1] == 'h',
        "created"@.len() == 7 && "created"@[1] == 'r',
{
    reveal_strlit("id");
    reveal_strlit("model");
    reveal_strlit("usage");
    reveal_strlit("object");
    reveal_strlit("choices");
    reveal_strlit("created");
}

/// The members of a chat choice.
pub(crate) proof fn choice_members_differ()
    ensures
        "delta"@.len() == 5 && "delta"@[0] == 'd',
        "index"@.len() == 5 && "index"@[0] == 'i',
        "message"@.len() == 7,
        "finish_reason"@.len() == 13,
{
    reveal_strlit("delta");
    reveal_strlit("index");
    reveal_strlit("message");
    reveal_strlit("finish_reason");
}

/// The members of a chat message and of a delta.
pub(crate) proof fn message_members_differ()
    ensures
        "role"@.len() == 4,
        "content"@.len() == 7,
        "reasoning"@.len() == 9,
        "tool_calls"@.len() == 10,
{
    reveal_strlit("role");
    reveal_strlit("content");
    reveal_strlit("reasoning");
    reveal_strlit("tool_calls");
}

/// The members of a chat tool call.
pub(crate) proof fn call_members_differ()
    ensures
        "id"@.len() == 2,
        "name"@.len() == 4 && "name"@[0] == 'n',
        "type"@.len() == 4 && "type"@[0] == 't',
        "index"@.len() == 5,
        "function"@.len() == 8,
        "arguments"@.len() == 9,
{
    reveal_strlit("id");
    reveal_strlit("name");
    reveal_strlit("type");
    reveal_strlit("index");
    reveal_strlit("function");
    reveal_strlit("arguments");
}

/// The token counts.
pub(crate) proof fn usage_members_differ()
    ensures
        "input_tokens"@.len() == 12 && "input_tokens"@[0] == 'i',
        "total_tokens"@.len() == 12 && "total_tokens"@[0] == 't',
        "output_tokens"@.len() == 13 && "output_tokens"@[0] == 'o',
        "prompt_tokens"@.len() == 13 && "prompt_tokens"@[0] == 'p',
        "completion_tokens"@.len() == 17,
{
    reveal_strlit("input_tokens");
    reveal_strlit("total_tokens");
    reveal_strlit("output_tokens");
    reveal_strlit("prompt_tokens");
    reveal_strlit("completion_tokens");
}

/// The members of an output item and of a content part.
pub(crate) proof fn item_members_differ()
    ensures
        "id"@.len() == 2,
        "json"@.len() == 4 && "json"@[0] == 'j',
        "name"@.len() == 4 && "name"@[0] == 'n',
        "role"@.len() == 4 && "role"@[0] == 'r',
        "text"@.len() == 4 && "text"@[0] == 't' && "text"@[1] == 'e',
        "type"@.len() == 4 && "type"@[0] == 't' && "type"@[1] == 'y',
        "input"@.len() == 5,
        "call_id"@.len() == 7 && "call_id"@[1] == 'a',
        "content"@.len() == 7 && "content"@[1] == 'o',
        "arguments"@.len() == 9,
{
    reveal_strlit("id");
    reveal_strlit("json");
    reveal_strlit("name");
    reveal_strlit("role");
    reveal_strlit("text");
    reveal_strlit("type");
    reveal_strlit("input");
    reveal_strlit("call_id");
    reveal_strlit("content");
    reveal_strlit("arguments");
}

/// The types of output items and of content parts.
pub(crate) proof fn item_types_differ()
    ensures
        "message"@.len() == 7,
        "output_json"@.len() == 11 && "output_json"@[7] == 'j',
        "output_text"@.len() == 11 && "output_text"@[7] == 't',
        "function_call"@.len() == 13,
        "custom_tool_call"@.len() == 16,
{
    reveal_strlit("message");
    reveal_strlit("output_json");
    reveal_strlit("output_text");
    reveal_strlit("function_call");
    reveal_strlit("custom_tool_call");
}

/// The members of a response.
pub(crate) proof fn document_members_differ()
    ensures
        "id"@.len() == 2,
        "model"@.len() == 5 && "model"@[0] == 'm',
        "usage"@.len() == 5 && "usage"@[0] == 'u',
        "object"@.len() == 6 && "object"@[0] == 'o' && "object"@[1] == 'b',
        "output"@.len() == 6 && "output"@[0] == 'o' && "output"@[1] == 'u',
        "status"@.len() == 6 && "status"@[0] == 's',
        "created"@.len() == 7,
        "reasoning"@.len() == 9,
        "incomplete_details"@.len() == 18,
{
    reveal_strlit("id");
    reveal_strlit("model");
    reveal_strlit("usage");
    reveal_strlit("object");
    reveal_strlit("output");
    reveal_strlit("status");
    reveal_strlit("created");
    reveal_strlit("reasoning");
    reveal_strlit("incomplete_details");
}

} // verus!
