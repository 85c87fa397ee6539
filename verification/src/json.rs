//! Looking into JSON: what stands at a place of a document, which a JSON pointer names.
use vstd::prelude::*;

verus! {

/// The length of the list at a place of a document; none where the document is no JSON, or there
/// is no list at the place.
pub uninterp spec fn list_at(json: Seq<u8>, pointer: Seq<char>) -> Option<nat>;

/// The text at a place of a document; none where the document is no JSON, or there is no text at
/// the place.
pub uninterp spec fn text_at(json: Seq<u8>, pointer: Seq<char>) -> Option<Seq<char>>;

/// The integer at a place of a document, where it fits in 64 bits; none where the document is no
/// JSON, or there is no such integer at the place.
pub uninterp spec fn integer_at(json: Seq<u8>, pointer: Seq<char>) -> Option<i64>;

/// `serde_json::from_slice` into a `serde_json::Value`, and `pointer` and `as_array` on it: the
/// length of the list, by the name [`list_at`].
#[verifier::external_body]
pub(crate) fn find_list(json: &[u8], pointer: &str) -> (r: Option<usize>)
    ensures
        match r {
            Some(n) => list_at(json@, pointer@) == Some(n as nat),
            None => list_at(json@, pointer@) is None,
        },
{
    let value: serde_json::Value = serde_json::from_slice(json).ok()?;
    value.pointer(pointer)?.as_array().map(|list| list.len())
}

/// `serde_json::from_slice` into a `serde_json::Value`, and `pointer` and `as_str` on it: the
/// text, by the name [`text_at`].
#[verifier::external_body]
pub(crate) fn find_text(json: &[u8], pointer: &str) -> (r: Option<String>)
    ensures
        match r {
            Some(t) => text_at(json@, pointer@) == Some(t@),
            None => text_at(json@, pointer@) is None,
        },
{
    let value: serde_json::Value = serde_json::from_slice(json).ok()?;
    value.pointer(pointer)?.as_str().map(|text| text.to_owned())
}

/// `serde_json::from_slice` into a `serde_json::Value`, and `pointer` and `as_i64` on it: the
/// integer, by the name [`integer_at`].
#[verifier::external_body]
pub(crate) fn find_integer(json: &[u8], pointer: &str) -> (r: Option<i64>)
    ensures
        r == integer_at(json@, pointer@),
{
    let value: serde_json::Value = serde_json::from_slice(json).ok()?;
    value.pointer(pointer)?.as_i64()
}

} // verus!
