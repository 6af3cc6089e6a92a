//! Tokens that requests carry.

use vstd::prelude::*;

use crate::headers;
use crate::text;

verus! {

/// A token: text that is not blank, without the white space at its ends.
pub open spec fn token_in(s: Option<Seq<char>>) -> Option<Seq<char>> {
    match s {
        Some(t) if text::trimmed(t).len() > 0 => Some(text::trimmed(t)),
        _ => None,
    }
}

/// Whether a request has an authorization header, whatever it holds.
pub open spec fn bearer_given(contents: Map<Seq<char>, Seq<Seq<u8>>>) -> bool {
    contents.contains_key("authorization"@)
}

/// The token of a bearer header.
pub open spec fn bearer_token(contents: Map<Seq<char>, Seq<Seq<u8>>>) -> Option<Seq<char>> {
    match headers::first_text(contents, "authorization"@) {
        Some(s) if "Bearer "@.is_prefix_of(s) => token_in(Some(s.skip("Bearer "@.len() as int))),
        _ => None,
    }
}

/// A token in a text.
pub(crate) fn find_token(s: Option<String>) -> (r: Option<String>)
    ensures
        text::opt_text(r) == token_in(text::opt_text(s)),
{
    match s {
        Some(t) => {
            let token = text::trim(t.as_str());
            if token.as_str().is_empty() {
                None
            } else {
                Some(token)
            }
        },
        None => None,
    }
}

/// The token of a bearer header; an error where the header holds none.
pub(crate) fn find_bearer(
    headers: &axum::http::HeaderMap<axum::http::HeaderValue>,
) -> (r: Result<Option<String>, ()>)
    ensures
        ({
            let contents = headers::header_contents(*headers);
            match r {
                Ok(Some(token)) => bearer_given(contents) && bearer_token(contents) == Some(token@),
                Ok(None) => !bearer_given(contents) && bearer_token(contents) is None,
                Err(_) => bearer_given(contents) && bearer_token(contents) is None,
            }
        }),
{
    proof {
        reveal_strlit("authorization");
        assert(headers::lower("authorization"@) =~= "authorization"@);
    }
    match headers::first_value(headers, "authorization") {
        Some(bytes) => {
            let rest = match headers::text_of_value(&bytes) {
                Some(s) => text::strip_prefix(s.as_str(), "Bearer "),
                None => None,
            };
            match find_token(rest) {
                Some(token) => Ok(Some(token)),
                None => Err(()),
            }
        },
        None => Ok(None),
    }
}

} // verus!
