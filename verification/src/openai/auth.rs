//! Bearer tokens, which name namespaces.

use vstd::prelude::*;

use crate::openai::failures::ErrorOutcome;
use crate::{credentials, headers, text};

verus! {

/// Whether a request is let in: an authorization header that is given holds a
/// token, and there is one where one is required.
pub open spec fn bearer_accepted(
    contents: Map<Seq<char>, Seq<Seq<u8>>>,
    required: bool,
) -> bool {
    &&& credentials::bearer_given(contents) ==> credentials::bearer_token(contents) is Some
    &&& required ==> credentials::bearer_given(contents)
}

/// Whether this is the refusal of a request without a token.
pub open spec fn refuses_bearer(e: ErrorOutcome) -> bool {
    &&& e.status == 401
    &&& e.body.error.error_type@ == "invalid_request_error"@
    &&& e.body.error.code@ == "missing_bearer_token"@
    &&& e.body.error.message@ == "missing bearer token"@
    &&& e.body.error.param@ is Null
    &&& e.retry_after is None
    &&& e.delay_before_headers_ms == 0
}

/// The bearer token of a request, which names its namespace.
pub fn proxy_bearer_token(
    headers: &axum::http::HeaderMap<axum::http::HeaderValue>,
    required: bool,
) -> (r: Result<Option<String>, ErrorOutcome>)
    ensures
        r is Ok <==> bearer_accepted(headers::header_contents(*headers), required),
        r matches Ok(token) ==> text::opt_text(token) == credentials::bearer_token(
            headers::header_contents(*headers),
        ),
        r matches Err(e) ==> refuses_bearer(e),
{
    match credentials::find_bearer(headers) {
        Ok(Some(token)) => {
            return Ok(Some(token));
        },
        Ok(None) => {
            if !required {
                return Ok(None);
            }
        },
        Err(()) => {},
    }
    Err(
        ErrorOutcome::new(
            401,
            "missing bearer token".to_owned(),
            "invalid_request_error".to_owned(),
            "missing_bearer_token".to_owned(),
            None,
            0,
        ),
    )
}

} // verus!
