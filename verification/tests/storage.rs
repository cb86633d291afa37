use substrate_subxt::schema::StorageHasher;
use substrate_subxt::storage::{hash_with, StorageMap};

const HASHERS: [StorageHasher; 5] = [
    StorageHasher::Blake2_128,
    StorageHasher::Blake2_256,
    StorageHasher::Twox128,
    StorageHasher::Twox256,
    StorageHasher::Twox64Concat,
];

fn hex(bytes: &[u8]) -> String {
    bytes.iter().map(|b| format!("{:02x}", b)).collect()
}

#[test]
fn key_is_the_digest_of_prefix_and_key() {
    let prefix = b"Balances FreeBalance".to_vec();
    let key = [0xd4u8, 0x35, 0x93, 0xc7];
    let mut preimage = prefix.clone();
    preimage.extend_from_slice(&key);
    let expected: [Vec<u8>; 5] = [
        sp_crypto_hashing::blake2_128(&preimage).to_vec(),
        sp_crypto_hashing::blake2_256(&preimage).to_vec(),
        sp_crypto_hashing::twox_128(&preimage).to_vec(),
        sp_crypto_hashing::twox_256(&preimage).to_vec(),
        sp_crypto_hashing::twox_64(&preimage).to_vec(),
    ];
    for (hasher, expected) in HASHERS.iter().zip(expected.iter()) {
        let map = StorageMap::new(prefix.clone(), *hasher, 0u128);
        assert_eq!(&map.key(&key).0, expected);
        assert_ne!(map.key(&key).0, preimage);
    }
}

#[test]
fn known_digests() {
    let system = StorageMap::new(b"System".to_vec(), StorageHasher::Twox128, ());
    assert_eq!(hex(&system.key(&[]).0), "26aa394eea5630e07c48ae0c9558cef7");
    let split = StorageMap::new(b"Sys".to_vec(), StorageHasher::Twox128, ());
    assert_eq!(hex(&split.key(b"tem").0), "26aa394eea5630e07c48ae0c9558cef7");
    let empty = StorageMap::new(Vec::new(), StorageHasher::Blake2_256, ());
    assert_eq!(
        hex(&empty.key(&[]).0),
        "0e5751c026e543b2e8ab2eb06099daa1d1e5df47778f7787faab45cdf12fe3a8"
    );
    assert_eq!(hex(&hash_with(StorageHasher::Twox64Concat, b"")), "99e9d85137db46ef");
}

#[test]
fn digests_have_the_width_of_their_algorithm() {
    let widths = [16usize, 32, 16, 32, 8];
    for (hasher, width) in HASHERS.iter().zip(widths.iter()) {
        let map = StorageMap::new(b"Module Entry".to_vec(), *hasher, 0u8);
        assert_eq!(map.key(b"key").0.len(), *width);
        assert_eq!(hash_with(*hasher, b"anything").len(), *width);
    }
}

#[test]
fn every_hasher_gives_another_key() {
    let keys: Vec<Vec<u8>> = HASHERS
        .iter()
        .map(|hasher| StorageMap::new(b"System AccountNonce".to_vec(), *hasher, 0u32).key(&[9; 32]).0)
        .collect();
    for i in 0..keys.len() {
        for j in 0..keys.len() {
            if i != j {
                assert_ne!(keys[i], keys[j]);
            }
        }
    }
}

#[test]
fn key_depends_only_on_prefix_hasher_and_key() {
    for hasher in HASHERS.iter() {
        let a = StorageMap::new(b"Module Entry".to_vec(), *hasher, 1u8);
        let b = StorageMap::new(b"Module Entry".to_vec(), *hasher, "other default");
        assert_eq!(a.key(&[1, 2, 3]), b.key(&[1, 2, 3]));
        assert_eq!(a.key(&[1, 2, 3]), a.key(&[1, 2, 3]));
        assert_ne!(a.key(&[1, 2, 3]), a.key(&[1, 2, 4]));
        let c = StorageMap::new(b"Module Entry2".to_vec(), *hasher, 1u8);
        assert_ne!(a.key(&[1, 2, 3]), c.key(&[1, 2, 3]));
    }
}

#[test]
fn default_is_the_declared_one() {
    let map = StorageMap::new(Vec::new(), StorageHasher::Twox128, vec![1u8, 2, 3]);
    assert_eq!(map.default(), vec![1u8, 2, 3]);
    assert_eq!(map.default(), vec![1u8, 2, 3]);
}
