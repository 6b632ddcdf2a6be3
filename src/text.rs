//! Turning raw name bytes into text.
use vstd::prelude::*;

verus! {

/// The text that lossy UTF-8 decoding makes of a byte sequence.
pub uninterp spec fn lossy_of(b: Seq<u8>) -> Seq<char>;

/// Relies on `String::from_utf8_lossy`: the text depends on the bytes alone,
/// and since every byte is either decoded or replaced, a non-empty input gives
/// a non-empty text.
#[verifier::external_body]
pub(crate) fn decode_lossy(b: &[u8]) -> (r: String)
    ensures
        r@ == lossy_of(b@),
        b@.len() > 0 ==> r@.len() > 0,
{
    String::from_utf8_lossy(b).into_owned()
}

} // verus!
