//! Names in the protocol, each told from the others of its kind by its length
//! or by a letter.

use vstd::prelude::*;

verus! {

/// The names of stream events.
pub(crate) proof fn event_names_differ()
    ensures
        "ping"@.len() == 4,
        "error"@.len() == 5,
        "message_stop"@.len() == 12,
        "message_delta"@.len() == 13 && "message_delta"@[8] == 'd',
        "message_start"@.len() == 13 && "message_start"@[8] == 's',
        "content_block_stop"@.len() == 18,
        "content_block_delta"@.len() == 19 && "content_block_delta"@[14] == 'd',
        "content_block_start"@.len() == 19 && "content_block_start"@[14] == 's',
{
    reveal_strlit("ping");
    reveal_strlit("error");
    reveal_strlit("message_stop");
    reveal_strlit("message_delta");
    reveal_strlit("message_start");
    reveal_strlit("content_block_stop");
    reveal_strlit("content_block_delta");
    reveal_strlit("content_block_start");
}

/// The members of event data.
pub(crate) proof fn event_members_differ()
    ensures
        "type"@.len() == 4,
        "delta"@.len() == 5 && "delta"@[0] == 'd',
        "index"@.len() == 5 && "index"@[0] == 'i',
        "usage"@.len() == 5 && "usage"@[0] == 'u',
        "message"@.len() == 7,
        "content_block"@.len() == 13,
{
    reveal_strlit("type");
    reveal_strlit("delta");
    reveal_strlit("index");
    reveal_strlit("usage");
    reveal_strlit("message");
    reveal_strlit("content_block");
}

/// The types of deltas and blocks, and the members of either.
pub(crate) proof fn delta_names_differ()
    ensures
        "text"@.len() == 4 && "text"@[1] == 'e',
        "type"@.len() == 4 && "type"@[1] == 'y',
        "input"@.len() == 5,
        "thinking"@.len() == 8 && "thinking"@[1] == 'h',
        "tool_use"@.len() == 8 && "tool_use"@[1] == 'o',
        "signature"@.len() == 9,
        "text_delta"@.len() == 10,
        "partial_json"@.len() == 12,
        "thinking_delta"@.len() == 14,
        "citations_delta"@.len() == 15 && "citations_delta"@[0] == 'c',
        "server_tool_use"@.len() == 15 && "server_tool_use"@[0] == 's' && "server_tool_use"@[1] == 'e',
        "signature_delta"@.len() == 15 && "signature_delta"@[0] == 's' && "signature_delta"@[1] == 'i' && "signature_delta"@[2] == 'g',
        "input_json_delta"@.len() == 16,
{
    reveal_strlit("text");
    reveal_strlit("type");
    reveal_strlit("input");
    reveal_strlit("thinking");
    reveal_strlit("tool_use");
    reveal_strlit("signature");
    reveal_strlit("text_delta");
    reveal_strlit("partial_json");
    reveal_strlit("thinking_delta");
    reveal_strlit("citations_delta");
    reveal_strlit("server_tool_use");
    reveal_strlit("signature_delta");
    reveal_strlit("input_json_delta");
}

/// The members of a message and of its token counts.
pub(crate) proof fn message_members_differ()
    ensures
        "id"@.len() == 2,
        "role"@.len() == 4 && "role"@[0] == 'r',
        "type"@.len() == 4 && "type"@[0] == 't',
        "model"@.len() == 5 && "model"@[0] == 'm',
        "usage"@.len() == 5 && "usage"@[0] == 'u',
        "content"@.len() == 7,
        "stop_reason"@.len() == 11,
        "input_tokens"@.len() == 12 && "input_tokens"@[0] == 'i',
        "stop_details"@.len() == 12 && "stop_details"@[0] == 's',
        "output_tokens"@.len() == 13 && "output_tokens"@[0] == 'o',
        "stop_sequence"@.len() == 13 && "stop_sequence"@[0] == 's',
        "cache_read_input_tokens"@.len() == 23,
        "cache_creation_input_tokens"@.len() == 27,
{
    reveal_strlit("id");
    reveal_strlit("role");
    reveal_strlit("type");
    reveal_strlit("model");
    reveal_strlit("usage");
    reveal_strlit("content");
    reveal_strlit("stop_reason");
    reveal_strlit("input_tokens");
    reveal_strlit("stop_details");
    reveal_strlit("output_tokens");
    reveal_strlit("stop_sequence");
    reveal_strlit("cache_read_input_tokens");
    reveal_strlit("cache_creation_input_tokens");
}

} // verus!
