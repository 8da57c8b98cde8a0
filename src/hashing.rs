use vstd::prelude::*;

verus! {

/// The SHA2-256 digest of a byte string.
pub uninterp spec fn sha2_256_of(input: Seq<u8>) -> Seq<u8>;

/// The BLAKE2b digest with 256-bit output of a byte string.
pub uninterp spec fn blake2_256_of(input: Seq<u8>) -> Seq<u8>;

/// Relies on sha2's `Sha256` digest: the hash of the input, 32 bytes.
#[verifier::external_body]
fn sha2_256(input: &[u8]) -> (r: [u8; 32])
    ensures
        r@ == sha2_256_of(input@),
{
    <sha2::Sha256 as sha2::Digest>::digest(input).into()
}

/// Relies on blake2's `Blake2b` with a 32-byte output: the hash of the input.
#[verifier::external_body]
fn blake2_256(input: &[u8]) -> (r: [u8; 32])
    ensures
        r@ == blake2_256_of(input@),
{
    <blake2::Blake2b<blake2::digest::consts::U32> as blake2::Digest>::digest(input).into()
}

/// A hash algorithm with a 32-byte output.
pub trait CryptoHash {
    /// The digest of `input` under this algorithm.
    spec fn digest(input: Seq<u8>) -> Seq<u8>;

    /// Writes the digest of `input` into `output`.
    fn hash(input: &[u8], output: &mut [u8; 32])
        ensures
            final(output)@ == Self::digest(input@),
    ;
}

/// SHA2 with a 256-bit output.
pub struct Sha2x256;

/// BLAKE2b with a 256-bit output.
pub struct Blake2x256;

impl CryptoHash for Sha2x256 {
    open spec fn digest(input: Seq<u8>) -> Seq<u8> {
        sha2_256_of(input)
    }

    fn hash(input: &[u8], output: &mut [u8; 32]) {
        *output = sha2_256(input);
    }
}

impl CryptoHash for Blake2x256 {
    open spec fn digest(input: Seq<u8>) -> Seq<u8> {
        blake2_256_of(input)
    }

    fn hash(input: &[u8], output: &mut [u8; 32]) {
        *output = blake2_256(input);
    }
}

/// Hashing is deterministic: two output buffers that hold the digest of the
/// same input under the same algorithm are identical, 32 bytes each.
pub proof fn lemma_hash_deterministic<H: CryptoHash>(input: Seq<u8>, a: [u8; 32], b: [u8; 32])
    requires
        a@ == H::digest(input),
        b@ == H::digest(input),
    ensures
        a == b,
        a@.len() == 32,
{
    assert(a@ =~= b@);
}

} // verus!
