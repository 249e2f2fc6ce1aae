//! Payload text: every payload is decoded as UTF-8 before it is stored or
//! logged, with invalid sequences replaced by the replacement character.

use vstd::prelude::*;

verus! {

/// The UTF-8 bytes of the lossy decoding of a byte sequence: invalid
/// sequences come out as the replacement character U+FFFD.
pub uninterp spec fn lossy_utf8(payload: Seq<u8>) -> Seq<u8>;

/// Relies on std's String::from_utf8_lossy: decodes the bytes as UTF-8,
/// replacing invalid sequences with U+FFFD. The result depends on the bytes
/// alone; the remaining calls only convert it back to bytes.
#[verifier::external_body]
pub(crate) fn lossy_decode(payload: &[u8]) -> (r: Vec<u8>)
    ensures
        r@ == lossy_utf8(payload@),
{
    String::from_utf8_lossy(payload).into_owned().into_bytes()
}

} // verus!
