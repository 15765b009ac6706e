//! What the server says about itself when it starts.

use vstd::prelude::*;
use vstd::string::*;
use vstd::utf8::*;

use crate::model::Model;
use crate::text::{decimal, push_decimal};

verus! {

/// How much of either end of a key may be shown, in bytes.
pub const SHOWN_BYTES: usize = 4;

/// Where the head of a key ends that may be shown.
pub open spec fn head_end(key: Seq<u8>) -> int {
    vstd::math::min(SHOWN_BYTES as int, key.len() as int)
}

/// Where the tail of a key begins that may be shown.
pub open spec fn tail_start(key: Seq<u8>) -> int {
    vstd::math::max(key.len() - SHOWN_BYTES, 0)
}

/// Whether the two ends of a key that may be shown are text.
pub open spec fn can_redact(key: Seq<u8>) -> bool {
    is_char_boundary(key, head_end(key)) && is_char_boundary(key, tail_start(key))
}

/// A key as it may be shown: its first and its last four bytes, with an ellipsis
/// between them.
pub open spec fn redacted(key: Seq<u8>) -> Seq<char> {
    decode_utf8(key.subrange(0, head_end(key))) + "\u{2026}"@ + decode_utf8(
        key.subrange(tail_start(key), key.len() as int),
    )
}

/// Tests whether the two ends of a key that may be shown are text.
pub fn redactable(key: &str) -> (r: bool)
    ensures
        r == can_redact(key.spec_bytes()),
{
    let len: usize = key.as_bytes().len();
    let head: usize = if len < SHOWN_BYTES {
        len
    } else {
        SHOWN_BYTES
    };
    let tail: usize = len.saturating_sub(SHOWN_BYTES);
    key.is_char_boundary(head) && key.is_char_boundary(tail)
}

/// A key as it may be shown in the log.
pub fn redact(key: &str) -> (r: String)
    requires
        can_redact(key.spec_bytes()),
    ensures
        r@ == redacted(key.spec_bytes()),
{
    broadcast use encode_utf8_decode_utf8;

    let len: usize = key.as_bytes().len();
    let head: usize = if len < SHOWN_BYTES {
        len
    } else {
        SHOWN_BYTES
    };
    let tail: usize = len.saturating_sub(SHOWN_BYTES);
    let (first, _) = key.split_at(head);
    let (_, last) = key.split_at(tail);
    let mut shown: String = first.to_owned();
    shown.append("\u{2026}");
    shown.append(last);
    assert(first@ == decode_utf8(first.spec_bytes()));
    assert(last@ == decode_utf8(last.spec_bytes()));
    shown
}

/// The address to listen on.
pub fn listen_addr(host: &str, port: u16) -> (r: String)
    ensures
        r@ == host@ + ":"@ + decimal(port as nat),
{
    let mut addr: String = host.to_owned();
    addr.append(":");
    push_decimal(&mut addr, port as u64);
    addr
}

/// What is reported where the model cannot be loaded.
pub fn load_failure(model: Model, cause: &str) -> (r: String)
    ensures
        r@ == model.label_text() + " load failed: "@ + cause@,
{
    let mut report: String = model.label().to_owned();
    report.append(" load failed: ");
    report.append(cause);
    report
}

/// What is shown of a key depends on its two ends alone.
pub proof fn law_redaction_hides_the_middle(a: Seq<u8>, b: Seq<u8>)
    requires
        can_redact(a),
        can_redact(b),
        a.len() >= SHOWN_BYTES,
        b.len() >= SHOWN_BYTES,
        a.take(SHOWN_BYTES as int) == b.take(SHOWN_BYTES as int),
        a.skip(a.len() - SHOWN_BYTES) == b.skip(b.len() - SHOWN_BYTES),
    ensures
        redacted(a) == redacted(b),
{
    assert(a.subrange(tail_start(a), a.len() as int) =~= a.skip(a.len() - SHOWN_BYTES));
    assert(b.subrange(tail_start(b), b.len() as int) =~= b.skip(b.len() - SHOWN_BYTES));
}

/// A key of four bytes or more is shown as its first and its last four bytes with
/// an ellipsis between them; a shorter one is shown whole on both sides.
pub proof fn law_redacted(key: Seq<u8>)
    ensures
        key.len() >= 4 ==> redacted(key) == decode_utf8(key.take(4)) + seq!['\u{2026}']
            + decode_utf8(key.skip(key.len() - 4)),
        key.len() < 4 ==> redacted(key) == decode_utf8(key) + seq!['\u{2026}'] + decode_utf8(key),
{
    reveal_strlit("\u{2026}");
    assert("\u{2026}"@ =~= seq!['\u{2026}']);
    if key.len() >= 4 {
        assert(key.subrange(0, head_end(key)) =~= key.take(4));
        assert(key.subrange(tail_start(key), key.len() as int) =~= key.skip(key.len() - 4));
    } else {
        assert(key.subrange(0, head_end(key)) =~= key);
        assert(key.subrange(tail_start(key), key.len() as int) =~= key);
    }
}

}
