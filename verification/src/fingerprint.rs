//! The stable fingerprint of a finding: a wide non-cryptographic content
//! hash of its message text, rendered in hexadecimal.  The digest itself
//! comes from an outside crate; its value is named, not restated.

use vstd::prelude::*;
use crate::textfmt::spec_hex;
use crate::textfmt::hex_u128;

verus! {

/// What the 128-bit content hash of a byte string is.  The digest is a
/// function of the bytes alone; its pages-long definition lives in the
/// outside crate and is not restated here.
pub uninterp spec fn xxh3_128_of(data: Seq<u8>) -> u128;

/// Relies on xxhash_rust::xxh3::xxh3_128: the 128-bit digest of the input
/// bytes, depending on those bytes alone.
#[verifier::external_body]
fn xxh3_128(data: &[u8]) -> (r: u128)
    ensures
        r == xxh3_128_of(data@),
{
    xxhash_rust::xxh3::xxh3_128(data)
}

/// The fingerprint of a message: its content hash written in lower-case
/// hexadecimal, without leading zeros.
pub open spec fn spec_fingerprint(data: Seq<u8>) -> Seq<char> {
    spec_hex(xxh3_128_of(data) as nat)
}

/// Computes the fingerprint of a message's bytes.
pub fn fingerprint(data: &[u8]) -> (r: String)
    ensures
        r@ == spec_fingerprint(data@),
{
    let h = xxh3_128(data);
    hex_u128(h)
}

} // verus!
