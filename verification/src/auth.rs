//! Who may call the server.

use axum::http::{HeaderMap, HeaderValue};
use vstd::prelude::*;

use crate::error::{AppError, Refusal};
use crate::text::{same_text, strip_prefix};

verus! {

/// The header map of a request.
#[verifier::external_type_specification]
#[verifier::external_body]
#[verifier::reject_recursive_types(T)]
pub struct ExHeaderMap<T>(axum::http::HeaderMap<T>);

/// The value of a header field, a string of bytes.
#[verifier::external_type_specification]
#[verifier::external_body]
pub struct ExHeaderValue(axum::http::HeaderValue);

/// The header fields of a request: each name under which the map finds a value,
/// with the bytes of the first such value.
pub uninterp spec fn header_fields(headers: HeaderMap<HeaderValue>) -> Map<Seq<char>, Seq<u8>>;

/// The bytes that a header value holds.
pub uninterp spec fn header_bytes(value: HeaderValue) -> Seq<u8>;

/// Calls `HeaderMap::get`, which gives the first value under a name, or `None`
/// where the map has no field of that name.
#[verifier::external_body]
fn get_header<'a>(headers: &'a HeaderMap<HeaderValue>, name: &str) -> (r: Option<&'a HeaderValue>)
    ensures
        match r {
            Some(value) => header_fields(*headers).contains_key(name@) && header_bytes(*value)
                == header_fields(*headers)[name@],
            None => !header_fields(*headers).contains_key(name@),
        },
{
    headers.get(name)
}

/// Whether a header value made of these bytes is text: every byte is a tab or a
/// visible ASCII character, the space among them.
pub open spec fn is_header_text(bytes: Seq<u8>) -> bool {
    forall|i: int| 0 <= i < bytes.len() ==> 32 <= #[trigger] bytes[i] < 127 || bytes[i] == 9
}

/// ASCII bytes as characters.
pub open spec fn ascii_text(bytes: Seq<u8>) -> Seq<char> {
    Seq::new(bytes.len(), |i: int| bytes[i] as char)
}

/// Calls `HeaderValue::to_str`, which gives the value as text if all of its
/// bytes are tabs or visible ASCII, and an error otherwise.
#[verifier::external_body]
fn header_text(value: &HeaderValue) -> (r: Option<&str>)
    ensures
        match r {
            Some(text) => is_header_text(header_bytes(*value)) && text@ == ascii_text(
                header_bytes(*value),
            ),
            None => !is_header_text(header_bytes(*value)),
        },
{
    value.to_str().ok()
}

/// The text of the `authorization` header, if there is one and it is text.
pub open spec fn authorization_text(fields: Map<Seq<char>, Seq<u8>>) -> Option<Seq<char>> {
    if fields.contains_key("authorization"@) && is_header_text(fields["authorization"@]) {
        Some(ascii_text(fields["authorization"@]))
    } else {
        None
    }
}

/// The token of an `authorization` header: what follows `Bearer `, and nothing
/// where there is no header or it begins otherwise.
pub open spec fn bearer_token(header: Option<Seq<char>>) -> Seq<char> {
    match header {
        Some(text) if "Bearer "@.is_prefix_of(text) => text.skip("Bearer "@.len() as int),
        _ => Seq::empty(),
    }
}

/// Whether a request with this `authorization` header may be served.
pub open spec fn is_authorized(api_key: Option<Seq<char>>, header: Option<Seq<char>>) -> bool {
    match api_key {
        Some(key) => bearer_token(header) == key,
        None => true,
    }
}

/// A key as a sequence of characters.
pub open spec fn key_text(api_key: Option<String>) -> Option<Seq<char>> {
    match api_key {
        Some(key) => Some(key@),
        None => None,
    }
}

/// What every request without the right key is answered.
pub open spec fn invalid_key() -> Refusal {
    Refusal::Unauthorized("Invalid API key"@)
}

/// Decides on a request by the text of its `authorization` header. Without a
/// configured key every request may pass.
pub fn check_bearer(api_key: &Option<String>, header: Option<&str>) -> (r: Result<(), AppError>)
    ensures
        ({
            let text = match header {
                Some(h) => Some(h@),
                None => None,
            };
            match r {
                Ok(_) => is_authorized(key_text(*api_key), text),
                Err(e) => !is_authorized(key_text(*api_key), text) && e@ == invalid_key(),
            }
        }),
{
    match api_key {
        None => Ok(()),
        Some(key) => {
            let provided: &str = match header {
                Some(text) => match strip_prefix(text, "Bearer ") {
                    Some(token) => {
                        assert(text@.skip("Bearer "@.len() as int) =~= token@);
                        token
                    },
                    None => "",
                },
                None => "",
            };
            proof {
                reveal_strlit("");
                assert(""@ =~= Seq::<char>::empty());
            }
            if same_text(provided, key.as_str()) {
                Ok(())
            } else {
                Err(AppError::unauthorized("Invalid API key"))
            }
        },
    }
}

/// Decides on a request by its headers.
pub fn authorize(api_key: &Option<String>, headers: &HeaderMap<HeaderValue>) -> (r: Result<
    (),
    AppError,
>)
    ensures
        ({
            let text = authorization_text(header_fields(*headers));
            match r {
                Ok(_) => is_authorized(key_text(*api_key), text),
                Err(e) => !is_authorized(key_text(*api_key), text) && e@ == invalid_key(),
            }
        }),
{
    let header: Option<&str> = match get_header(headers, "authorization") {
        Some(value) => header_text(value),
        None => None,
    };
    check_bearer(api_key, header)
}

/// A server without a key serves everyone.
pub proof fn law_no_key(header: Option<Seq<char>>)
    ensures
        is_authorized(None, header),
{
}

/// A server with a key serves exactly those who send it as a bearer token.
pub proof fn law_key_required(key: Seq<char>, header: Option<Seq<char>>)
    requires
        key.len() > 0,
    ensures
        is_authorized(Some(key), header) <==> header == Some("Bearer "@ + key),
{
    let prefix = "Bearer "@;
    if header == Some(prefix + key) {
        assert((prefix + key).skip(prefix.len() as int) =~= key);
    }
    if is_authorized(Some(key), header) {
        let text = header->Some_0;
        assert(prefix + text.skip(prefix.len() as int) =~= text);
    }
}

/// A server whose key is empty serves those who send no token.
pub proof fn law_empty_key(header: Option<Seq<char>>)
    ensures
        is_authorized(Some(Seq::empty()), header) <==> match header {
            Some(text) => text == "Bearer "@ || !"Bearer "@.is_prefix_of(text),
            None => true,
        },
{
    let prefix = "Bearer "@;
    if let Some(text) = header {
        if prefix.is_prefix_of(text) {
            assert(text.skip(prefix.len() as int).len() == text.len() - prefix.len());
            if text.len() == prefix.len() {
                assert(text =~= prefix);
                assert(text.skip(prefix.len() as int) =~= Seq::<char>::empty());
            }
        }
    }
}

/// The `authorization` header is read byte by byte as ASCII, where all of its bytes
/// are visible or tabs, and counts as missing otherwise.
pub proof fn law_authorization_text(fields: Map<Seq<char>, Seq<u8>>)
    ensures
        ({
            let bytes = fields["authorization"@];
            let visible = forall|i: int|
                0 <= i < bytes.len() ==> 32 <= #[trigger] bytes[i] <= 126 || bytes[i] == 9;
            match authorization_text(fields) {
                Some(text) => {
                    &&& fields.contains_key("authorization"@)
                    &&& visible
                    &&& text.len() == bytes.len()
                    &&& forall|i: int|
                        0 <= i < bytes.len() ==> #[trigger] text[i] == bytes[i] as char
                },
                None => !fields.contains_key("authorization"@) || !visible,
            }
        }),
{
}

/// A key is the text that it holds, and the answer to a wrong one is always the
/// same.
pub proof fn law_key_text(key: String)
    ensures
        key_text(Some(key)) == Some(key@),
        key_text(None) is None,
        invalid_key() == Refusal::Unauthorized("Invalid API key"@),
{
}

}
