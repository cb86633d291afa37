//! The five storage hash algorithms, computed by `sp-crypto-hashing`.

use vstd::prelude::*;

verus! {

/// The digest that `sp_crypto_hashing::blake2_128` computes for `data`.
pub uninterp spec fn blake2_128_digest(data: Seq<u8>) -> Seq<u8>;

/// The digest that `sp_crypto_hashing::blake2_256` computes for `data`.
pub uninterp spec fn blake2_256_digest(data: Seq<u8>) -> Seq<u8>;

/// The digest that `sp_crypto_hashing::twox_64` computes for `data`.
pub uninterp spec fn twox_64_digest(data: Seq<u8>) -> Seq<u8>;

/// The digest that `sp_crypto_hashing::twox_128` computes for `data`.
pub uninterp spec fn twox_128_digest(data: Seq<u8>) -> Seq<u8>;

/// The digest that `sp_crypto_hashing::twox_256` computes for `data`.
pub uninterp spec fn twox_256_digest(data: Seq<u8>) -> Seq<u8>;

/// Calls `sp_crypto_hashing::blake2_128`: the result is the 16-byte Blake2b
/// digest of `data`, a function of the bytes alone.
#[verifier::external_body]
pub(crate) fn blake2_128(data: &[u8]) -> (digest: Vec<u8>)
    ensures
        digest@ == blake2_128_digest(data@),
        digest@.len() == 16,
{
    sp_crypto_hashing::blake2_128(data).to_vec()
}

/// Calls `sp_crypto_hashing::blake2_256`: the result is the 32-byte Blake2b
/// digest of `data`, a function of the bytes alone.
#[verifier::external_body]
pub(crate) fn blake2_256(data: &[u8]) -> (digest: Vec<u8>)
    ensures
        digest@ == blake2_256_digest(data@),
        digest@.len() == 32,
{
    sp_crypto_hashing::blake2_256(data).to_vec()
}

/// Calls `sp_crypto_hashing::twox_64`: the result is the 8-byte XX digest of
/// `data`, a function of the bytes alone.
#[verifier::external_body]
pub(crate) fn twox_64(data: &[u8]) -> (digest: Vec<u8>)
    ensures
        digest@ == twox_64_digest(data@),
        digest@.len() == 8,
{
    sp_crypto_hashing::twox_64(data).to_vec()
}

/// Calls `sp_crypto_hashing::twox_128`: the result is the 16-byte XX digest
/// of `data`, a function of the bytes alone.
#[verifier::external_body]
pub(crate) fn twox_128(data: &[u8]) -> (digest: Vec<u8>)
    ensures
        digest@ == twox_128_digest(data@),
        digest@.len() == 16,
{
    sp_crypto_hashing::twox_128(data).to_vec()
}

/// Calls `sp_crypto_hashing::twox_256`: the result is the 32-byte XX digest
/// of `data`, a function of the bytes alone.
#[verifier::external_body]
pub(crate) fn twox_256(data: &[u8]) -> (digest: Vec<u8>)
    ensures
        digest@ == twox_256_digest(data@),
        digest@.len() == 32,
{
    sp_crypto_hashing::twox_256(data).to_vec()
}

} // verus!
