//! The key under which a recorded request is found again.

use vstd::prelude::*;
use vstd::string::*;
use vstd::utf8::*;

use crate::json::JsonView;
use crate::{codec, text};

verus! {

/// One step of 64-bit FNV-1a.
pub open spec fn mix(hash: u64, byte: u8) -> u64 {
    (hash ^ (byte as u64)).wrapping_mul(0x0000_0100_0000_01b3)
}

/// 64-bit FNV-1a.
pub open spec fn fnv1a(bytes: Seq<u8>) -> u64
    decreases bytes.len(),
{
    if bytes.len() == 0 {
        0xcbf2_9ce4_8422_2325
    } else {
        mix(fnv1a(bytes.drop_last()), bytes.last())
    }
}

/// The key of a canonical text: its hash, in 16 hexadecimal digits.
pub open spec fn key_of(canonical: Seq<char>) -> Seq<char> {
    text::hexadecimal(fnv1a(encode_utf8(canonical)) as nat, 16)
}

/// The key of a request body: that of its canonical text. A body that is no JSON
/// has none.
pub open spec fn body_key(body: Seq<u8>) -> Option<Seq<char>> {
    match codec::json_parse(body) {
        Ok(v) => Some(key_of(codec::json_text(v))),
        Err(_) => None,
    }
}

/// The key of a canonical text.
pub fn text_key(canonical: &str) -> (r: String)
    ensures
        r@ == key_of(canonical@),
{
    let bytes = canonical.as_bytes();
    let mut hash: u64 = 0xcbf2_9ce4_8422_2325;
    for i in 0..bytes.len()
        invariant
            hash == fnv1a(bytes@.take(i as int)),
    {
        assert(bytes@.take(i + 1).drop_last() =~= bytes@.take(i as int));
        hash = hash ^ (bytes[i] as u64);
        hash = hash.wrapping_mul(0x0000_0100_0000_01b3);
    }
    assert(bytes@.take(bytes@.len() as int) =~= bytes@);
    text::hexadecimal_text(hash, 16)
}

/// Hash of a request body for transcript matching.
///
/// Object keys are sorted before hashing, so whitespace and key order do not
/// affect matching. Array order is preserved. The hash is a matcher key, not a
/// security boundary.
#[must_use]
pub fn request_hash(body: &[u8]) -> (r: Option<String>)
    ensures
        text::opt_text(r) == body_key(body@),
        codec::json_parse(body@) matches Ok(v) ==> codec::legible(v),
{
    match codec::canonical_text(body) {
        Ok(canonical) => Some(text_key(canonical.as_str())),
        Err(_) => None,
    }
}

/// Bodies that read as the same JSON value have the same key, whatever their
/// white space and the order of their members.
pub proof fn key_depends_on_value_only(a: Seq<u8>, b: Seq<u8>)
    requires
        codec::json_parse(a) is Ok,
        codec::json_parse(a) == codec::json_parse(b),
    ensures
        body_key(a) is Some,
        body_key(a) == body_key(b),
{
}

/// Values that differ, be it in the order of an array, are hashed from different
/// texts, where both texts read back. The keys of different texts may still be
/// the same, as with any hash.
pub proof fn different_values_have_different_texts(a: JsonView, b: JsonView)
    requires
        a != b,
        codec::legible(a) && codec::survives(a, 127),
        codec::legible(b) && codec::survives(b, 127),
    ensures
        codec::json_text(a) != codec::json_text(b),
        encode_utf8(codec::json_text(a)) != encode_utf8(codec::json_text(b)),
{
}

/// The order of an array counts: swapping two items that differ gives another
/// canonical text.
pub proof fn array_order_counts(items: Seq<JsonView>, i: int, j: int)
    requires
        0 <= i < j < items.len(),
        items[i] != items[j],
        codec::legible(JsonView::Array(items)) && codec::survives(JsonView::Array(items), 127),
        ({
            let swapped = JsonView::Array(items.update(i, items[j]).update(j, items[i]));
            codec::legible(swapped) && codec::survives(swapped, 127)
        }),
    ensures
        codec::json_text(JsonView::Array(items)) != codec::json_text(
            JsonView::Array(items.update(i, items[j]).update(j, items[i])),
        ),
{
    let swapped = items.update(i, items[j]).update(j, items[i]);
    assert(swapped[i] == items[j]);
    different_values_have_different_texts(JsonView::Array(items), JsonView::Array(swapped));
}

} // verus!
