//! Transactions: what is signed, what identifies a transaction, and where a
//! transaction sits in its block.

use vstd::prelude::*;
use crate::codec::{compact_u32, encode_bytes, encode_compact_u32, length_prefixed, Encoded};
use crate::hashing::{blake2_256, blake2_256_digest};
use crate::rpc::{OpaqueExtrinsic, SignedBlock, SubmitError, H256};

verus! {

/// The longest payload that is signed as it is; a longer one is signed by
/// its digest.
pub const MAX_RAW_PAYLOAD: usize = 256;

/// The encoding of the checks that accompany every call: the genesis check
/// (nothing), the immortal era (one zero byte), the nonce (compact), the
/// weight check (nothing) and a fee of zero (compact).
pub open spec fn extra_bytes(nonce: u32) -> Seq<u8> {
    seq![0u8] + compact_u32(nonce) + compact_u32(0)
}

/// The payload that a signature covers: the call, the checks, the genesis
/// identifier.
pub open spec fn raw_payload(call: Seq<u8>, nonce: u32, genesis: Seq<u8>) -> Seq<u8> {
    call + extra_bytes(nonce) + genesis
}

/// The bytes that are handed to the signer for a payload: the payload itself
/// up to 256 bytes, the 256-bit Blake2 digest of a longer one.
pub open spec fn signed_bytes(payload: Seq<u8>) -> Seq<u8> {
    if payload.len() > 256 {
        blake2_256_digest(payload)
    } else {
        payload
    }
}

/// Serializes the payload of a transaction: `call`, the checks with `nonce`,
/// and the genesis identifier.
pub fn signing_payload(call: &Encoded, nonce: u32, genesis_hash: &H256) -> (payload: Vec<u8>)
    ensures
        payload@ == raw_payload(call@, nonce, genesis_hash@),
{
    let mut payload = call.0.clone();
    payload.push(0u8);
    let mut encoded_nonce = encode_compact_u32(nonce);
    payload.append(&mut encoded_nonce);
    let mut encoded_fee = encode_compact_u32(0);
    payload.append(&mut encoded_fee);
    payload.extend_from_slice(genesis_hash.0.as_slice());
    proof {
        assert(payload@ =~= raw_payload(call@, nonce, genesis_hash@));
    }
    payload
}

/// Chooses what the signer signs: `payload` itself, or its digest if it is
/// longer than 256 bytes.
pub fn signature_target(payload: &[u8]) -> (target: Vec<u8>)
    ensures
        target@ == signed_bytes(payload@),
        payload@.len() <= 256 ==> target@ == payload@,
        payload@.len() > 256 ==> target@.len() == 32 && target@ != payload@,
{
    if payload.len() > MAX_RAW_PAYLOAD {
        blake2_256(payload)
    } else {
        let mut target: Vec<u8> = Vec::new();
        target.extend_from_slice(payload);
        proof {
            assert(target@ =~= payload@);
        }
        target
    }
}

/// The checks that accompany a call in a transaction.
#[derive(Clone, Copy, Debug, PartialEq, Eq, Structural)]
pub struct Extra {
    /// The nonce of the sending account.
    pub nonce: u32,
    /// The fee offered on top of what the node charges.
    pub fee: u128,
}

/// A signed transaction, ready to be encoded and submitted.
#[derive(Debug, PartialEq, Eq)]
pub struct UncheckedExtrinsic {
    /// The call.
    pub function: Encoded,
    /// The public key of the signer.
    pub signer: Vec<u8>,
    /// The signature over the payload.
    pub signature: Vec<u8>,
    /// The checks, as they were signed.
    pub extra: Extra,
}

impl UncheckedExtrinsic {
    /// Packages a call with its signature: the transaction is immortal, pays
    /// no extra fee and carries the `nonce` that was signed.
    pub fn new_signed(function: Encoded, signer: Vec<u8>, signature: Vec<u8>, nonce: u32) -> (xt:
        Self)
        ensures
            xt.function == function,
            xt.signer == signer,
            xt.signature == signature,
            xt.extra == (Extra { nonce, fee: 0 }),
    {
        UncheckedExtrinsic { function, signer, signature, extra: Extra { nonce, fee: 0 } }
    }
}

/// The identifier of a transaction: the 256-bit Blake2 digest of its encoding.
pub fn hash_of_encoded(encoded: &[u8]) -> (id: H256)
    ensures
        id@ == blake2_256_digest(encoded@),
        id@.len() == 32,
{
    H256(blake2_256(encoded))
}

/// The identifier of a transaction that a block holds, if its body can be
/// encoded: the digest of the body behind its length.
pub open spec fn extrinsic_id(body: Seq<u8>) -> Option<Seq<u8>> {
    if body.len() <= u32::MAX {
        Some(blake2_256_digest(length_prefixed(body)))
    } else {
        None
    }
}

/// The identifiers of the transactions of a block, in order.
pub open spec fn ids_of(extrinsics: Seq<OpaqueExtrinsic>) -> Seq<Option<Seq<u8>>> {
    Seq::new(extrinsics.len(), |i: int| extrinsic_id(extrinsics[i].0@))
}

/// The identifiers of `ids` as mathematical values, in order.
pub open spec fn id_views(ids: Seq<Option<H256>>) -> Seq<Option<Seq<u8>>> {
    Seq::new(
        ids.len(),
        |i: int|
            match ids[i] {
                Some(id) => Some(id@),
                None => None,
            },
    )
}

/// The position of the first identifier that is `wanted`.
pub open spec fn first_match(ids: Seq<Option<Seq<u8>>>, wanted: Seq<u8>) -> Option<nat>
    decreases ids.len(),
{
    if ids.len() == 0 {
        None
    } else if ids[0] == Some(wanted) {
        Some(0)
    } else {
        match first_match(ids.drop_first(), wanted) {
            Some(i) => Some(i + 1),
            None => None,
        }
    }
}

/// The position of the first transaction with the identifier `id`.
pub open spec fn position_of(extrinsics: Seq<OpaqueExtrinsic>, id: Seq<u8>) -> Option<nat> {
    first_match(ids_of(extrinsics), id)
}

/// The identifier of a transaction that a block holds; none for a body too
/// long to be encoded.
pub fn hash_of(extrinsic: &OpaqueExtrinsic) -> (id: Option<H256>)
    ensures
        match id {
            Some(hash) => extrinsic_id(extrinsic.0@) == Some(hash@),
            None => extrinsic_id(extrinsic.0@) is None,
        },
{
    if extrinsic.0.len() > 0xffff_ffff {
        None
    } else {
        let encoded = encode_bytes(extrinsic.0.as_slice());
        Some(H256(blake2_256(encoded.as_slice())))
    }
}

/// Recomputes the identifier of each transaction of a block.
#[verifier::loop_isolation(false)]
pub fn block_ids(signed_block: &SignedBlock) -> (ids: Vec<Option<H256>>)
    ensures
        id_views(ids@) == ids_of(signed_block.block.extrinsics@),
{
    let extrinsics = &signed_block.block.extrinsics;
    let mut ids: Vec<Option<H256>> = Vec::new();
    let mut i: usize = 0;
    proof {
        assert(id_views(ids@) =~= ids_of(extrinsics@.take(0)));
    }
    while i < extrinsics.len()
        invariant
            i <= extrinsics.len(),
            ids@.len() == i,
            id_views(ids@) == ids_of(extrinsics@.take(i as int)),
        decreases extrinsics.len() - i,
    {
        let ghost before = id_views(ids@);
        let id = hash_of(&extrinsics[i]);
        ids.push(id);
        proof {
            assert forall|j: int| 0 <= j < i + 1 implies id_views(ids@)[j] == ids_of(
                extrinsics@.take(i + 1),
            )[j] by {
                if j < i {
                    assert(id_views(ids@)[j] == before[j]);
                    assert(before[j] == ids_of(extrinsics@.take(i as int))[j]);
                }
            }
            assert(id_views(ids@) =~= ids_of(extrinsics@.take(i + 1)));
        }
        i = i + 1;
    }
    proof {
        assert(extrinsics@.take(extrinsics.len() as int) =~= extrinsics@);
    }
    ids
}

/// Finds the first of `ids` that is `wanted`.
pub fn first_position(ids: &Vec<Option<H256>>, wanted: &H256) -> (at: Option<usize>)
    ensures
        match at {
            Some(i) => first_match(id_views(ids@), wanted@) == Some(i as nat),
            None => first_match(id_views(ids@), wanted@) is None,
        },
{
    let ghost all = id_views(ids@);
    let mut i: usize = 0;
    proof {
        assert(all.skip(0) =~= all);
    }
    while i < ids.len()
        invariant
            i <= ids.len(),
            all == id_views(ids@),
            first_match(all, wanted@) == match first_match(all.skip(i as int), wanted@) {
                Some(k) => Some((k + i) as nat),
                None => None,
            },
        decreases ids.len() - i,
    {
        proof {
            assert(all.skip(i as int).drop_first() =~= all.skip(i + 1));
            assert(all.skip(i as int)[0] == all[i as int]);
        }
        match &ids[i] {
            Some(id) => {
                if id.same(wanted) {
                    return Some(i);
                }
            },
            None => {},
        }
        i = i + 1;
    }
    None
}

/// Finds the transaction with the identifier `ext_hash` in the block: the
/// position of the first one whose recomputed identifier is `ext_hash`.
pub fn find_extrinsic(signed_block: &SignedBlock, ext_hash: &H256) -> (r: Result<
    usize,
    SubmitError,
>)
    ensures
        match r {
            Ok(i) => position_of(signed_block.block.extrinsics@, ext_hash@) == Some(i as nat),
            Err(e) => position_of(signed_block.block.extrinsics@, ext_hash@) is None && e
                == SubmitError::ExtrinsicNotFound,
        },
{
    let ids = block_ids(signed_block);
    match first_position(&ids, ext_hash) {
        Some(i) => Ok(i),
        None => Err(SubmitError::ExtrinsicNotFound),
    }
}

/// The first transaction with the wanted identifier is found, and none before
/// it has that identifier; none is found only if no transaction has it.
pub proof fn lemma_first_match(ids: Seq<Option<Seq<u8>>>, wanted: Seq<u8>)
    ensures
        match first_match(ids, wanted) {
            Some(i) => i < ids.len() && ids[i as int] == Some(wanted) && forall|j: int|
                0 <= j < i ==> ids[j] != Some(wanted),
            None => forall|j: int| 0 <= j < ids.len() ==> ids[j] != Some(wanted),
        },
    decreases ids.len(),
{
    if ids.len() > 0 && ids[0] != Some(wanted) {
        let rest = ids.drop_first();
        lemma_first_match(rest, wanted);
        match first_match(rest, wanted) {
            Some(i) => {
                assert(rest[i as int] == ids[i as int + 1]);
                assert forall|j: int| 0 <= j < i + 1 implies ids[j] != Some(wanted) by {
                    if j > 0 {
                        assert(rest[j - 1] == ids[j]);
                    }
                }
            },
            None => {
                assert forall|j: int| 0 <= j < ids.len() implies ids[j] != Some(wanted) by {
                    if j > 0 {
                        assert(rest[j - 1] == ids[j]);
                    }
                }
            },
        }
    }
}

} // verus!
