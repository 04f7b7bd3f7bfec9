use byteorder::{BigEndian, ByteOrder};
use sha2::{Digest, Sha256};
use vstd::prelude::*;
use vstd::slice::slice_subrange;

verus! {

/// The SHA-256 digest of the UTF-8 bytes of a text.
pub uninterp spec fn sha256(text: Seq<char>) -> Seq<u8>;

/// The number that eight bytes spell, most significant byte first, starting
/// at position `at` of `bytes`.
pub open spec fn be_word(bytes: Seq<u8>, at: int) -> u64 {
    (bytes[at] as int * 0x100_0000_0000_0000 + bytes[at + 1] as int * 0x1_0000_0000_0000
        + bytes[at + 2] as int * 0x100_0000_0000 + bytes[at + 3] as int * 0x1_0000_0000
        + bytes[at + 4] as int * 0x100_0000 + bytes[at + 5] as int * 0x1_0000
        + bytes[at + 6] as int * 0x100 + bytes[at + 7] as int) as u64
}

/// The four words of a digest multiplied together on 64 wrapping bits, read
/// as a signed number.
pub open spec fn fold_digest(digest: Seq<u8>) -> i64 {
    be_word(digest, 0).wrapping_mul(be_word(digest, 8)).wrapping_mul(
        be_word(digest, 16),
    ).wrapping_mul(be_word(digest, 24)) as i64
}

/// Calls `Sha256::new`, `chain_update` and `finalize` of the crate `sha2`.
/// Claimed: the result is the digest of the text, a function of the text
/// alone, and it is 32 bytes long.
#[verifier::external_body]
fn sha256_digest(text: &str) -> (digest: Vec<u8>)
    ensures
        digest@ == sha256(text@),
        digest@.len() == 32,
{
    Sha256::new().chain_update(text).finalize().to_vec()
}

/// Calls `BigEndian::read_u64` of the crate `byteorder`. Claimed: the result
/// is the number that the first eight bytes spell, most significant first.
/// The call panics on fewer than eight bytes, which `requires` leaves out.
#[verifier::external_body]
fn read_u64_be(buf: &[u8]) -> (word: u64)
    requires
        buf@.len() >= 8,
    ensures
        word == be_word(buf@, 0),
{
    BigEndian::read_u64(buf)
}

/// Folds the first 32 bytes of a digest into a seed.
pub fn seed_from_digest(digest: &[u8]) -> (seed: i64)
    requires
        digest@.len() >= 32,
    ensures
        seed == fold_digest(digest@),
{
    let mut res = read_u64_be(slice_subrange(digest, 0, 8));
    res = res.wrapping_mul(read_u64_be(slice_subrange(digest, 8, 16)));
    res = res.wrapping_mul(read_u64_be(slice_subrange(digest, 16, 24)));
    res = res.wrapping_mul(read_u64_be(slice_subrange(digest, 24, 32)));
    res as i64
}

/// The seed that a text stands for: its digest, folded.
pub fn get_seed(str: String) -> (seed: i64)
    ensures
        seed == fold_digest(sha256(str@)),
{
    let digest = sha256_digest(str.as_str());
    seed_from_digest(digest.as_slice())
}

} // verus!
