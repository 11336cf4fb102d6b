//! The bearer token of a request.

use axum::http::{HeaderMap, HeaderValue};
use vstd::prelude::*;

verus! {

/// The headers of a request.
#[verifier::external_type_specification]
#[verifier::external_body]
#[verifier::reject_recursive_types(T)]
pub struct ExHeaderMap<T>(axum::http::HeaderMap<T>);

/// The value of one header field.
#[verifier::external_type_specification]
#[verifier::external_body]
pub struct ExHeaderValue(axum::http::HeaderValue);

/// The values that a header map holds under each lower-case field name, in
/// the order in which they were added.
pub uninterp spec fn header_fields(headers: HeaderMap) -> Map<Seq<char>, Seq<HeaderValue>>;

/// The bytes of a header value.
pub uninterp spec fn header_bytes(value: HeaderValue) -> Seq<u8>;

/// [`HeaderMap::get`] with the name `authorization`: the first value under
/// that name, and nothing where there is none.
#[verifier::external_body]
fn authorization(headers: &HeaderMap) -> (r: Option<&HeaderValue>)
    ensures
        r is Some <==> header_fields(*headers).contains_key("authorization"@),
        r matches Some(v) ==> header_fields(*headers)["authorization"@].len() > 0
            && header_fields(*headers)["authorization"@][0] == *v,
{
    headers.get(axum::http::header::AUTHORIZATION)
}

/// Whether a byte is a visible ASCII character, a space or a tab.
pub open spec fn is_visible_ascii(b: u8) -> bool {
    32 <= b < 127 || b == 9
}

/// The characters of a header value, where all of its bytes are visible ASCII.
pub open spec fn header_chars(bytes: Seq<u8>) -> Option<Seq<char>> {
    if forall|i: int| 0 <= i < bytes.len() ==> is_visible_ascii(#[trigger] bytes[i]) {
        Some(bytes.map_values(|b: u8| b as char))
    } else {
        None
    }
}

/// [`HeaderValue::to_str`]: the value as text where every byte of it is a
/// visible ASCII character, a space or a tab, and an error otherwise.
#[verifier::external_body]
fn header_text(value: &HeaderValue) -> (r: Option<&str>)
    ensures
        r is Some <==> header_chars(header_bytes(*value)) is Some,
        r matches Some(s) ==> header_chars(header_bytes(*value)) == Some(s@),
{
    value.to_str().ok()
}

/// The token in the text of an `Authorization` field of the `Bearer` scheme.
pub open spec fn bearer_in(text: Seq<char>) -> Option<Seq<char>> {
    crate::text::after_prefix(text, "Bearer "@)
}

/// The bearer token of a request: that of its first `Authorization` field,
/// where the field is visible ASCII text and of the `Bearer` scheme.
pub open spec fn bearer_of(headers: HeaderMap) -> Option<Seq<char>> {
    if header_fields(headers).contains_key("authorization"@) {
        match header_chars(header_bytes(header_fields(headers)["authorization"@][0])) {
            Some(text) => bearer_in(text),
            None => None,
        }
    } else {
        None
    }
}

/// Takes the token out of the text of an `Authorization` field.
pub fn read_bearer(text: &str) -> (r: Option<&str>)
    ensures
        r is Some <==> bearer_in(text@) is Some,
        r matches Some(token) ==> bearer_in(text@) == Some(token@),
{
    crate::text::strip_prefix(text, "Bearer ")
}

/// Finds the bearer token of a request.
pub fn bearer_token(headers: &HeaderMap) -> (r: Option<&str>)
    ensures
        r is Some <==> bearer_of(*headers) is Some,
        r matches Some(token) ==> bearer_of(*headers) == Some(token@),
{
    match authorization(headers) {
        Some(value) => match header_text(value) {
            Some(text) => read_bearer(text),
            None => None,
        },
        None => None,
    }
}

/// A bearer token is all that stands behind `Bearer ` in the field, and a field
/// that starts otherwise holds none.
pub proof fn law_bearer_token_follows_its_scheme(
    text: &str,
    found: Option<&str>,
    token: Seq<char>,
)
    requires
        call_ensures(read_bearer, (text,), found),
    ensures
        found is Some ==> text@ == "Bearer "@ + found->0@,
        text@ == "Bearer "@ + token ==> found is Some && found->0@ == token,
{
    if found is Some {
        assert(text@ =~= "Bearer "@ + text@.skip("Bearer "@.len() as int));
    }
    if text@ == "Bearer "@ + token {
        assert("Bearer "@.is_prefix_of(text@));
        assert(text@.skip("Bearer "@.len() as int) =~= token);
    }
}

/// The token of a request is the one in its first `Authorization` field, where
/// that field holds visible ASCII and names the scheme `Bearer`. No other request
/// has one.
pub proof fn law_bearer_token_is_that_of_the_first_field(
    headers: HeaderMap,
    found: Option<&str>,
    token: Seq<char>,
)
    requires
        call_ensures(bearer_token, (&headers,), found),
    ensures
        found is Some && found->0@ == token <==> {
            let values = header_fields(headers)["authorization"@];
            let bytes = header_bytes(values[0]);
            &&& header_fields(headers).contains_key("authorization"@)
            &&& forall|i: int|
                0 <= i < bytes.len() ==> 32 <= #[trigger] bytes[i] <= 126 || bytes[i] == 9
            &&& bytes.len() == 7 + token.len()
            &&& forall|i: int|
                0 <= i < 7 ==> #[trigger] bytes[i] as char == "Bearer "@[i]
            &&& forall|i: int|
                0 <= i < token.len() ==> bytes[i + 7] as char == #[trigger] token[i]
        },
{
    reveal_strlit("Bearer ");
    let values = header_fields(headers)["authorization"@];
    let bytes = header_bytes(values[0]);
    let chars = bytes.map_values(|b: u8| b as char);
    let scheme = "Bearer "@;
    if found is Some && found->0@ == token {
        assert(header_chars(bytes) == Some(chars));
        assert(scheme.is_prefix_of(chars));
        assert(token == chars.skip(7));
        assert forall|i: int| 0 <= i < bytes.len() implies 32 <= #[trigger] bytes[i] <= 126
            || bytes[i] == 9 by {
            assert(is_visible_ascii(bytes[i]));
        }
        assert forall|i: int| 0 <= i < 7 implies #[trigger] bytes[i] as char == scheme[i] by {
            assert(chars[i] == scheme[i]);
        }
    }
    if header_fields(headers).contains_key("authorization"@) && (forall|i: int|
        0 <= i < bytes.len() ==> 32 <= #[trigger] bytes[i] <= 126 || bytes[i] == 9) && bytes.len()
        == 7 + token.len() && (forall|i: int|
        0 <= i < 7 ==> #[trigger] bytes[i] as char == scheme[i]) && (forall|i: int|
        0 <= i < token.len() ==> bytes[i + 7] as char == #[trigger] token[i]) {
        assert forall|i: int| 0 <= i < 7 implies chars[i] == scheme[i] by {
            assert(bytes[i] as char == scheme[i]);
        }
        assert(scheme =~= chars.take(7));
        assert(scheme.is_prefix_of(chars));
        assert(chars.skip(7) =~= token);
        assert(header_chars(bytes) == Some(chars));
    }
}

} // verus!
