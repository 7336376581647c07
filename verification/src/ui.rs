//! Texts shown to the operator.

use vstd::prelude::*;

verus! {

/// The MD5 digest of a text, written as 32 lower-case hexadecimal digits.
pub uninterp spec fn md5_hex(text: Seq<char>) -> Seq<char>;

/// A short mark by which a message can be told from others: the MD5 digest
/// of its bytes in hexadecimal. This is `md5::compute`, formatted as
/// lower-case hexadecimal digits, two for each of the sixteen bytes of the
/// digest.
#[verifier::external_body]
pub fn encode_text(text: &str) -> (mark: String)
    ensures
        mark@ == md5_hex(text@),
        mark@.len() == 32,
{
    format!("{:x}", md5::compute(text.as_bytes()))
}

} // verus!
