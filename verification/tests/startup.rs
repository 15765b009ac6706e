use parakeet_server::model::{health, list_models, Model};
use parakeet_server::startup::{listen_addr, load_failure, redact, redactable};
use parakeet_server::text::push_decimal;

#[test]
fn keys_are_shown_by_their_ends() {
    assert_eq!(redact("my-secret-key"), "my-s\u{2026}-key");
    assert_eq!(redact("abcdefgh"), "abcd\u{2026}efgh");
    assert_eq!(redact("abcdef"), "abcd\u{2026}cdef");
    assert_eq!(redact("abc"), "abc\u{2026}abc");
    assert_eq!(redact(""), "\u{2026}");
    assert_eq!(redact("\u{e9}\u{e9}xx\u{e9}\u{e9}"), "\u{e9}\u{e9}\u{2026}\u{e9}\u{e9}");
}

#[test]
fn the_middle_of_a_key_is_not_shown() {
    assert_eq!(redact("abcd-one-wxyz"), redact("abcd-another-wxyz"));
}

#[test]
fn a_key_whose_ends_are_no_text_cannot_be_shown() {
    assert!(redactable("my-secret-key"));
    assert!(redactable(""));
    assert!(!redactable("abc\u{e9}defghi"));
    assert!(!redactable("abcdefg\u{e9}xyz"));
}

#[test]
fn addresses_join_host_and_port() {
    assert_eq!(listen_addr("0.0.0.0", 8000), "0.0.0.0:8000");
    assert_eq!(listen_addr("localhost", 0), "localhost:0");
    assert_eq!(listen_addr("", u16::MAX), ":65535");
}

#[test]
fn numbers_are_written_in_decimal() {
    for n in [0, 7, 10, 99, 100, 1_700_000_000, u64::MAX] {
        let mut out = "x".to_owned();
        push_decimal(&mut out, n);
        assert_eq!(out, format!("x{n}"));
    }
}

#[test]
fn load_failures_name_the_model() {
    assert_eq!(load_failure(Model::Ctc, "no file"), "CTC load failed: no file");
    assert_eq!(load_failure(Model::Tdt, ""), "TDT load failed: ");
    assert_eq!(load_failure(Model::Eou, "x"), "EOU load failed: x");
    assert_eq!(load_failure(Model::Nemotron, "x"), "Nemotron load failed: x");
}

#[test]
fn the_loaded_model_is_listed() {
    let list = list_models(Model::Tdt);
    assert_eq!(list.object, "list");
    assert_eq!(list.data.len(), 1);
    assert_eq!(list.data[0].id, "parakeet-tdt-0.6b-v3");
    assert_eq!(list.data[0].object, "model");
    assert_eq!(list.data[0].created, 1_700_000_000);
    assert_eq!(list.data[0].owned_by, "parakeet-rs");
}

#[test]
fn the_server_is_well() {
    assert_eq!(health().status, "ok");
}
