use axum::http::{HeaderMap, HeaderValue};
use parakeet_server::auth::{authorize, check_bearer};
use parakeet_server::error::AppError;

fn headers(value: &[u8]) -> HeaderMap<HeaderValue> {
    let mut map = HeaderMap::new();
    map.insert("authorization", HeaderValue::from_bytes(value).unwrap());
    map
}

fn key(text: &str) -> Option<String> {
    Some(text.to_owned())
}

fn is_refused(r: Result<(), AppError>) -> bool {
    match r {
        Ok(()) => false,
        Err(e) => {
            assert_eq!(e.status(), 401);
            assert_eq!(e.message(), "Invalid API key");
            true
        }
    }
}

#[test]
fn without_a_key_everyone_may_call() {
    assert!(authorize(&None, &HeaderMap::new()).is_ok());
    assert!(authorize(&None, &headers(b"Bearer whatever")).is_ok());
    assert!(check_bearer(&None, None).is_ok());
}

#[test]
fn the_right_key_passes() {
    assert!(authorize(&key("my-secret-key"), &headers(b"Bearer my-secret-key")).is_ok());
    assert!(check_bearer(&key("my-secret-key"), Some("Bearer my-secret-key")).is_ok());
}

#[test]
fn the_wrong_key_is_refused() {
    let k = key("my-secret-key");
    assert!(is_refused(authorize(&k, &headers(b"Bearer my-secret-kez"))));
    assert!(is_refused(authorize(&k, &headers(b"Bearer my-secret-key "))));
    assert!(is_refused(authorize(&k, &headers(b"bearer my-secret-key"))));
    assert!(is_refused(authorize(&k, &headers(b"my-secret-key"))));
    assert!(is_refused(authorize(&k, &headers(b"Bearer "))));
    assert!(is_refused(authorize(&k, &HeaderMap::new())));
}

#[test]
fn a_header_that_is_no_text_counts_as_missing() {
    assert!(is_refused(authorize(&key("caf\u{e9}"), &headers("Bearer caf\u{e9}".as_bytes()))));
    assert!(is_refused(authorize(&key("k"), &headers(b"Bearer k\xff"))));
    assert!(authorize(&key("a\tb"), &headers(b"Bearer a\tb")).is_ok());
}

#[test]
fn an_empty_key_is_met_by_no_token() {
    assert!(authorize(&key(""), &HeaderMap::new()).is_ok());
    assert!(authorize(&key(""), &headers(b"Basic xyz")).is_ok());
    assert!(authorize(&key(""), &headers(b"Bearer ")).is_ok());
    assert!(is_refused(authorize(&key(""), &headers(b"Bearer x"))));
}

#[test]
fn the_first_of_two_headers_counts() {
    let mut map = headers(b"Bearer one");
    map.append("Authorization", HeaderValue::from_static("Bearer two"));
    assert!(authorize(&key("one"), &map).is_ok());
    assert!(is_refused(authorize(&key("two"), &map)));
}

#[test]
fn other_headers_do_not_count() {
    let mut map = HeaderMap::new();
    map.insert("x-authorization", HeaderValue::from_static("Bearer one"));
    assert!(is_refused(authorize(&key("one"), &map)));
}
