//! The models that clients discover.

use vstd::prelude::*;

use crate::json;
use crate::json::{Json, JsonView, Members};

verus! {

/// The one model that is listed.
pub open spec fn listed_model() -> JsonView {
    JsonView::Object(
        map![
            "id"@ => JsonView::Str("gpt-test"@),
            "object"@ => JsonView::Str("model"@),
            "created"@ => json::int_view(0),
            "owned_by"@ => JsonView::Str("twin-openai"@),
            "shutdown_date"@ => JsonView::Null
        ],
    )
}

/// The list of the one model.
pub open spec fn model_list() -> JsonView {
    JsonView::Object(
        map![
            "object"@ => JsonView::Str("list"@),
            "data"@ => JsonView::Array(seq![listed_model()])
        ],
    )
}

/// Lists the deterministic model identity accepted by the twin.
///
/// Generation routes remain permissive and accept any non-empty model ID. This
/// representative entry gives clients that require discovery a stable model to
/// select in black-box tests.
pub fn list_models() -> (r: Json)
    ensures
        r@ == model_list(),
{
    let model = Members::new().with("id", Json::text("gpt-test")).with(
        "object",
        Json::text("model"),
    ).with("created", Json::uint(0)).with("owned_by", Json::text("twin-openai")).with(
        "shutdown_date",
        Json::Null,
    );
    Json::Object(
        Members::new().with("object", Json::text("list")).with(
            "data",
            json::one_item(Json::Object(model)),
        ),
    )
}

} // verus!
