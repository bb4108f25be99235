//! Content hashes.

use vstd::prelude::*;

verus! {

/// The MD5 digest of the UTF-8 bytes of a text, as 32 upper-case hexadecimal
/// digits.
pub uninterp spec fn spec_md5_hex(text: Seq<char>) -> Seq<char>;

/// The MD5 digest of a text in upper-case hexadecimal: `md5::compute` on
/// the bytes of the text, written with the digest's `UpperHex`. The digest is
/// a function of the text alone.
#[verifier::external_body]
pub fn md5_hex(text: &str) -> (r: String)
    ensures
        r@ == spec_md5_hex(text@),
{
    format!("{:X}", ::md5::compute(text))
}

} // verus!
