//! Credentials and the protocol version.

use vstd::prelude::*;

use crate::anthropic::models;
use crate::anthropic::models::{AnthropicError, ErrorView};
use crate::anthropic::state::NamespaceKey;
use crate::{credentials, headers, text};

verus! {

/// The first value of a header, whatever it is.
pub open spec fn header_given(contents: Map<Seq<char>, Seq<Seq<u8>>>, name: Seq<char>) -> bool {
    contents.contains_key(name)
}

/// The token of the key header.
pub open spec fn key_token(contents: Map<Seq<char>, Seq<Seq<u8>>>) -> Option<Seq<char>> {
    credentials::token_in(headers::first_text(contents, "x-api-key"@))
}

/// Whether the credentials are accepted: each header that is given holds a
/// token, two tokens agree, and there is one where one is required.
pub open spec fn credentials_accepted(
    contents: Map<Seq<char>, Seq<Seq<u8>>>,
    required: bool,
) -> bool {
    let key = header_given(contents, "x-api-key"@);
    let bearer = credentials::bearer_given(contents);
    &&& key ==> key_token(contents) is Some
    &&& bearer ==> credentials::bearer_token(contents) is Some
    &&& key && bearer ==> key_token(contents) == credentials::bearer_token(contents)
    &&& required ==> key || bearer
}

/// The token of accepted credentials.
pub open spec fn credential(contents: Map<Seq<char>, Seq<Seq<u8>>>) -> Option<Seq<char>> {
    if header_given(contents, "x-api-key"@) {
        key_token(contents)
    } else {
        credentials::bearer_token(contents)
    }
}

/// The refusal of credentials.
pub open spec fn credential_refusal() -> ErrorView {
    ErrorView {
        status: 401,
        kind: "error"@,
        error_type: "authentication_error"@,
        message: "missing, empty, or conflicting API credentials"@,
        code: None,
    }
}

/// The refusal that credentials meet.
pub open spec fn credential_error(
    contents: Map<Seq<char>, Seq<Seq<u8>>>,
    required: bool,
) -> Option<ErrorView> {
    if credentials_accepted(contents, required) {
        None
    } else {
        Some(credential_refusal())
    }
}

/// The refusal of a missing or other protocol version.
pub open spec fn version_error(contents: Map<Seq<char>, Seq<Seq<u8>>>) -> Option<ErrorView> {
    if headers::first_text(contents, "anthropic-version"@) == Some("2023-06-01"@) {
        None
    } else {
        Some(models::invalid("anthropic-version"@, "must be 2023-06-01"@))
    }
}

/// The headers that are read have names in lower case.
proof fn lemma_lower_names()
    ensures
        headers::lower("x-api-key"@) == "x-api-key"@,
        headers::lower("anthropic-version"@) == "anthropic-version"@,
{
    reveal_strlit("x-api-key");
    reveal_strlit("anthropic-version");
    assert(headers::lower("x-api-key"@) =~= "x-api-key"@);
    assert(headers::lower("anthropic-version"@) =~= "anthropic-version"@);
}

/// The refusal of credentials.
fn refuse() -> (r: AnthropicError)
    ensures
        r@ == credential_refusal(),
{
    AnthropicError::new(
        401,
        "authentication_error",
        "missing, empty, or conflicting API credentials".to_owned(),
    )
}

/// The API key of a request: the key header or a bearer token.
pub fn api_key(
    headers: &axum::http::HeaderMap<axum::http::HeaderValue>,
    required: bool,
) -> (r: Result<Option<String>, AnthropicError>)
    ensures
        models::refusal(r) == credential_error(headers::header_contents(*headers), required),
        r matches Ok(key) ==> text::opt_text(key) == credential(headers::header_contents(*headers)),
{
    proof {
        lemma_lower_names();
    }
    let ghost contents = headers::header_contents(*headers);
    let key = match headers::first_value(headers, "x-api-key") {
        Some(bytes) => match credentials::find_token(headers::text_of_value(&bytes)) {
            Some(token) => Some(token),
            None => {
                return Err(refuse());
            },
        },
        None => None,
    };
    let bearer = match credentials::find_bearer(headers) {
        Ok(bearer) => bearer,
        Err(()) => {
            return Err(refuse());
        },
    };
    match (key, bearer) {
        (Some(a), Some(b)) => if text::same(a.as_str(), b.as_str()) {
            Ok(Some(a))
        } else {
            Err(refuse())
        },
        (Some(a), None) => Ok(Some(a)),
        (None, Some(b)) => Ok(Some(b)),
        (None, None) => if required {
            Err(refuse())
        } else {
            Ok(None)
        },
    }
}

/// The namespace of a request: that of its API key, or the global one.
pub fn request_namespace(
    headers: &axum::http::HeaderMap<axum::http::HeaderValue>,
    required: bool,
) -> (r: Result<NamespaceKey, AnthropicError>)
    ensures
        models::refusal(r) == credential_error(headers::header_contents(*headers), required),
        r matches Ok(key) ==> key@ == credential(headers::header_contents(*headers)),
{
    match api_key(headers, required) {
        Ok(Some(token)) => Ok(NamespaceKey::ApiKey(token)),
        Ok(None) => Ok(NamespaceKey::Global),
        Err(e) => Err(e),
    }
}

/// The namespace of an admin request, which needs no credentials.
pub fn admin_request_namespace(
    headers: &axum::http::HeaderMap<axum::http::HeaderValue>,
) -> (r: Result<NamespaceKey, AnthropicError>)
    ensures
        models::refusal(r) == credential_error(headers::header_contents(*headers), false),
        r matches Ok(key) ==> key@ == credential(headers::header_contents(*headers)),
{
    request_namespace(headers, false)
}

/// Checks the protocol version of a request.
pub fn validate_version(
    headers: &axum::http::HeaderMap<axum::http::HeaderValue>,
) -> (r: Result<(), AnthropicError>)
    ensures
        models::refusal(r) == version_error(headers::header_contents(*headers)),
{
    proof {
        lemma_lower_names();
    }
    let accepted = match headers::header_text(headers, "anthropic-version") {
        Some(version) => text::same(version.as_str(), "2023-06-01"),
        None => false,
    };
    if accepted {
        Ok(())
    } else {
        Err(AnthropicError::invalid_request("anthropic-version", "must be 2023-06-01"))
    }
}

} // verus!
