//! Texts as sequences of characters.
use vstd::prelude::*;
use vstd::utf8::{decode_utf8, valid_utf8};

verus! {

/// Whether two texts are the same.
pub fn same_text(a: &str, b: &str) -> (same: bool)
    ensures
        same == (a@ == b@),
{
    a.to_owned() == b.to_owned()
}

/// The text that some bytes encode, where they are UTF-8.
pub open spec fn text_of_bytes(bytes: Seq<u8>) -> Option<Seq<char>> {
    if valid_utf8(bytes) {
        Some(decode_utf8(bytes))
    } else {
        None
    }
}

/// `std::str::from_utf8`: the text that some bytes encode, if and only if they are UTF-8.
#[verifier::external_body]
pub(crate) fn decode_text(bytes: &[u8]) -> (text: Option<String>)
    ensures
        match text {
            Some(text) => text_of_bytes(bytes@) == Some(text@),
            None => text_of_bytes(bytes@) is None,
        },
{
    std::str::from_utf8(bytes).ok().map(|text| text.to_string())
}

} // verus!
