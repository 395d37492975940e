//! Content hashes of byte blocks, computed with XXH3 (64-bit).
use vstd::prelude::*;

verus! {

/// The 64-bit XXH3 digest (seed 0, default secret) of a byte sequence.
pub uninterp spec fn xxh3_64_of(data: Seq<u8>) -> u64;

/// Calls `xxhash_rust::xxh3::xxh3_64`, which hashes its input with the
/// default seed and secret and reads nothing else; the contract claims
/// only that the result is the function `xxh3_64_of` of the input bytes.
#[verifier::external_body]
pub(crate) fn xxh3_64(data: &[u8]) -> (h: u64)
    ensures
        h == xxh3_64_of(data@),
{
    xxhash_rust::xxh3::xxh3_64(data)
}

/// The digest of one block of file content.
pub struct hash {
    pub hash: u64,
}

impl hash {
    pub fn new(data: u64) -> (r: Self)
        ensures
            r.hash == data,
    {
        hash { hash: data }
    }
}

/// Hashes one block of bytes.
pub fn hash_chunk(data: Vec<u8>) -> (r: hash)
    ensures
        r.hash == xxh3_64_of(data@),
{
    let mut data_arr: Vec<u8> = Vec::new();
    let n = data.len();
    for i in 0..n
        invariant
            n == data.len(),
            data_arr@ == data@.take(i as int),
    {
        data_arr.push(data[i]);
        assert(data@.take(i + 1) == data@.take(i as int).push(data@[i as int]));
    }
    assert(data@.take(n as int) == data@);
    let h = xxh3_64(data_arr.as_slice());
    hash::new(h)
}

/// Splits a file into hashed blocks; no blocks are produced.
pub fn chunk_hash_file(path: &str) -> (r: Vec<hash>)
    ensures
        r@.len() == 0,
{
    Vec::new()
}

} // verus!
