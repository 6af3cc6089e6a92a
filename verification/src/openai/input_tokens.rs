//! Input token counts.

use vstd::prelude::*;
use vstd::string::*;
use vstd::utf8::*;

use crate::json::{Json, JsonView, Members};
use crate::{codec, json};

verus! {

/// One token per four bytes, rounded up, and at least one.
pub open spec fn tokens_in(bytes: nat) -> nat {
    if bytes == 0 {
        1
    } else {
        (bytes + 3) / 4
    }
}

/// A stable approximation of the tokens in a request: its compact text is
/// counted, so instructions and tool definitions count too.
pub open spec fn estimated(body: JsonView) -> nat {
    tokens_in(encode_utf8(codec::json_text(body)).len())
}

/// A stable approximation of the tokens in a request.
fn approximate_input_tokens(body: &Json) -> (r: u64)
    ensures
        r == estimated(body@),
{
    text_tokens(codec::render(body).as_str())
}

/// One token per four bytes of a text, rounded up, and at least one.
pub fn text_tokens(written: &str) -> (r: u64)
    ensures
        r == tokens_in(encode_utf8(written@).len()),
{
    let bytes: usize = written.as_bytes().len();
    let whole: usize = bytes / 4;
    if bytes == 0 {
        1
    } else if bytes % 4 == 0 {
        whole as u64
    } else {
        whole as u64 + 1
    }
}

/// The document that answers a count.
pub open spec fn count_document(body: JsonView) -> JsonView {
    JsonView::Object(
        map![
            "object"@ => JsonView::Str("response.input_tokens"@),
            "input_tokens"@ => json::int_view(estimated(body) as u64)
        ],
    )
}

/// A count tells what it counted: one token for every four bytes of the
/// request's compact text, rounded up, and at least one.
pub proof fn counts_are_told(body: JsonView)
    requires
        encode_utf8(codec::json_text(body)).len() <= u64::MAX,
    ensures
        count_document(body).at("object"@) == JsonView::Str("response.input_tokens"@),
        ({
            let bytes = encode_utf8(codec::json_text(body)).len();
            count_document(body).at("input_tokens"@).as_u64() == Some(
                (if bytes == 0 {
                    1nat
                } else if bytes % 4 == 0 {
                    bytes / 4
                } else {
                    bytes / 4 + 1
                }) as u64,
            )
        }),
{
    reveal_strlit("object");
    reveal_strlit("input_tokens");
    assert("object"@.len() == 6 && "input_tokens"@.len() == 12);
}

/// Returns a stable approximation of the tokens in a Responses request that was
/// accepted.
///
/// A protocol twin cannot reproduce a model-specific tokenizer. Counting one
/// token per four compact JSON bytes keeps the result deterministic, counts
/// instructions and tool definitions, and grows with the complete request.
pub fn count_input_tokens(body: &Json) -> (r: Json)
    ensures
        r@ == count_document(body@),
        estimated(body@) <= u64::MAX,
{
    Json::Object(
        Members::new().with("object", Json::text("response.input_tokens")).with(
            "input_tokens",
            Json::uint(approximate_input_tokens(body)),
        ),
    )
}

/// A longer text never counts for less.
pub proof fn estimate_grows_with_text(shorter: nat, longer: nat)
    requires
        shorter <= longer,
    ensures
        tokens_in(shorter) <= tokens_in(longer),
        tokens_in(shorter) >= 1,
        tokens_in((longer + 4) as nat) == tokens_in(longer) + 1 || longer == 0,
{
}

} // verus!
