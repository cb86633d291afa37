//! Addresses in the node's key/value store.

use vstd::prelude::*;
use crate::hashing::{
    blake2_128, blake2_128_digest, blake2_256, blake2_256_digest, twox_128, twox_128_digest,
    twox_256, twox_256_digest, twox_64, twox_64_digest,
};
use crate::schema::StorageHasher;

verus! {

/// The address of a value in the node's store.
#[derive(Debug, PartialEq, Eq)]
pub struct StorageKey(pub Vec<u8>);

impl View for StorageKey {
    type V = Seq<u8>;

    open spec fn view(&self) -> Seq<u8> {
        self.0@
    }
}

/// The digest of `data` under the algorithm `hasher`.
pub open spec fn storage_hash(hasher: StorageHasher, data: Seq<u8>) -> Seq<u8> {
    match hasher {
        StorageHasher::Blake2_128 => blake2_128_digest(data),
        StorageHasher::Blake2_256 => blake2_256_digest(data),
        StorageHasher::Twox128 => twox_128_digest(data),
        StorageHasher::Twox256 => twox_256_digest(data),
        StorageHasher::Twox64Concat => twox_64_digest(data),
    }
}

/// The number of bytes in a digest of `hasher`.
pub open spec fn digest_len(hasher: StorageHasher) -> nat {
    match hasher {
        StorageHasher::Blake2_128 => 16,
        StorageHasher::Blake2_256 => 32,
        StorageHasher::Twox128 => 16,
        StorageHasher::Twox256 => 32,
        StorageHasher::Twox64Concat => 8,
    }
}

/// Hashes `data` with the algorithm `hasher`.
pub fn hash_with(hasher: StorageHasher, data: &[u8]) -> (digest: Vec<u8>)
    ensures
        digest@ == storage_hash(hasher, data@),
        digest@.len() == digest_len(hasher),
{
    match hasher {
        StorageHasher::Blake2_128 => blake2_128(data),
        StorageHasher::Blake2_256 => blake2_256(data),
        StorageHasher::Twox128 => twox_128(data),
        StorageHasher::Twox256 => twox_256(data),
        StorageHasher::Twox64Concat => twox_64(data),
    }
}

/// A view of one storage map of the schema: what is needed to address its
/// entries, and the value that stands for an entry that is not stored.
#[derive(Debug)]
pub struct StorageMap<V> {
    prefix: Vec<u8>,
    hasher: StorageHasher,
    default: V,
}

impl<V> StorageMap<V> {
    /// The bytes that open the preimage of every key of this map.
    pub closed spec fn prefix(&self) -> Seq<u8> {
        self.prefix@
    }

    /// The algorithm that the schema dictates for this map.
    pub closed spec fn hasher(&self) -> StorageHasher {
        self.hasher
    }

    /// The value that stands for an entry that is not stored.
    pub closed spec fn default_value(&self) -> V {
        self.default
    }

    /// Makes the view from its parts.
    pub fn new(prefix: Vec<u8>, hasher: StorageHasher, default: V) -> (map: Self)
        ensures
            map.prefix() == prefix@,
            map.hasher() == hasher,
            map.default_value() == default,
    {
        StorageMap { prefix, hasher, default }
    }

    /// The address of the entry under `encoded_key`, the lookup key in the
    /// node's binary encoding: the digest of the prefix followed by the key.
    pub fn key(&self, encoded_key: &[u8]) -> (key: StorageKey)
        ensures
            key@ == storage_hash(self.hasher(), self.prefix() + encoded_key@),
            key@.len() == digest_len(self.hasher()),
    {
        let mut bytes = self.prefix.clone();
        bytes.extend_from_slice(encoded_key);
        proof {
            assert(bytes@ =~= self.prefix@ + encoded_key@);
        }
        StorageKey(hash_with(self.hasher, bytes.as_slice()))
    }

    /// The value that stands for an entry that is not stored.
    pub fn default(&self) -> (value: V) where V: Clone
        ensures
            cloned(self.default_value(), value),
    {
        self.default.clone()
    }
}

/// The address of an entry is a function of the prefix, the algorithm and the
/// key: two maps that agree on the first two give every key the same address.
pub proof fn lemma_key_is_determined<V, W>(a: StorageMap<V>, b: StorageMap<W>, encoded_key: Seq<u8>)
    requires
        a.prefix() == b.prefix(),
        a.hasher() == b.hasher(),
    ensures
        storage_hash(a.hasher(), a.prefix() + encoded_key) == storage_hash(
            b.hasher(),
            b.prefix() + encoded_key,
        ),
{
}

/// Two digests of different widths are different keys: the keys that the
/// 64-bit, the 128-bit and the 256-bit algorithms give are never the same.
pub proof fn lemma_keys_of_different_widths_differ(
    a: Seq<u8>,
    first: StorageHasher,
    b: Seq<u8>,
    second: StorageHasher,
)
    requires
        a.len() == digest_len(first),
        b.len() == digest_len(second),
        digest_len(first) != digest_len(second),
    ensures
        a != b,
{
}

} // verus!
