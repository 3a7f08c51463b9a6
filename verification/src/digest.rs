//! The checksum of a program image.

use sha2::Digest;
use sha2::Sha256;
use vstd::prelude::*;

verus! {

/// The SHA-256 digest of `data`, written as 64 lower-case hexadecimal digits.
pub uninterp spec fn sha256_hex(data: Seq<u8>) -> Seq<char>;

/// `Sha256::new`, `update` and `finalize` of the `sha2` crate, and the
/// digest's `LowerHex` form. The digest depends on the bytes alone; that the
/// text is their SHA-256 digest in hexadecimal is believed, not proved.
#[verifier::external_body]
fn sha256_lower_hex(data: &Vec<u8>) -> (hex: String)
    ensures
        hex@ == sha256_hex(data@),
{
    let mut hasher = Sha256::new();
    hasher.update(data);
    format!("{:x}", hasher.finalize())
}

/// The checksum by which a program image is recognised: its SHA-256 digest
/// in lower-case hexadecimal.
pub fn checksum(image: &Vec<u8>) -> (hex: String)
    ensures
        hex@ == sha256_hex(image@),
{
    sha256_lower_hex(image)
}

} // verus!
