use vstd::prelude::*;
use tiny_keccak::Hasher;

verus! {

/// The Keccak-256 digest of a byte string. The algorithm itself is not
/// restated here: only that the digest is a function of the input bytes
/// alone, which is what replay identities and event signatures rest on.
pub uninterp spec fn keccak256_of(data: Seq<u8>) -> Seq<u8>;

/// Relies on tiny_keccak's Keccak::v256 (with Hasher::update and
/// Hasher::finalize): one Keccak-256 digest of `data`, 32 bytes wide,
/// determined by the bytes of `data` alone.
#[verifier::external_body]
pub(crate) fn keccak256(data: &Vec<u8>) -> (r: Vec<u8>)
    ensures
        r@ == keccak256_of(data@),
        r@.len() == 32,
{
    let mut hasher = tiny_keccak::Keccak::v256();
    hasher.update(data.as_slice());
    let mut out = [0u8; 32];
    hasher.finalize(&mut out);
    out.to_vec()
}

} // verus!
