//! Talking to the node: identifiers, blocks, the keys to read before a
//! submission, and the reading of the status that the pool reports.

use vstd::prelude::*;
use vstd::string::StrSliceExecFns;
use vstd::utf8::encode_utf8;
use crate::codec::{decode_u32, little_endian};
use crate::hashing::{blake2_256, blake2_256_digest, twox_128, twox_128_digest};
use crate::storage::StorageKey;

verus! {

/// A 256-bit identifier of a block or of a transaction.
#[derive(Debug, PartialEq, Eq)]
pub struct H256(pub Vec<u8>);

impl View for H256 {
    type V = Seq<u8>;

    open spec fn view(&self) -> Seq<u8> {
        self.0@
    }
}

impl Clone for H256 {
    fn clone(&self) -> (copy: Self)
        ensures
            copy@ == self@,
    {
        H256(self.0.clone())
    }
}

/// Whether two byte strings are the same.
pub fn same_bytes(a: &[u8], b: &[u8]) -> (same: bool)
    ensures
        same == (a@ == b@),
{
    if a.len() != b.len() {
        return false;
    }
    let mut i: usize = 0;
    while i < a.len()
        invariant
            i <= a.len(),
            a.len() == b.len(),
            forall|j: int| 0 <= j < i ==> a@[j] == b@[j],
        decreases a.len() - i,
    {
        if a[i] != b[i] {
            return false;
        }
        i = i + 1;
    }
    proof {
        assert(a@ =~= b@);
    }
    true
}

impl H256 {
    /// Whether this is the identifier `other`.
    pub fn same(&self, other: &H256) -> (same: bool)
        ensures
            same == (self@ == other@),
    {
        same_bytes(self.0.as_slice(), other.0.as_slice())
    }
}

/// A transaction as a block holds it: its encoded body, without the length
/// that precedes it on the wire.
#[derive(Clone, Debug, Default, PartialEq, Eq)]
pub struct OpaqueExtrinsic(pub Vec<u8>);

/// A block, reduced to its transactions.
#[derive(Clone, Debug, PartialEq, Eq)]
pub struct Block {
    /// The transactions of the block, in order.
    pub extrinsics: Vec<OpaqueExtrinsic>,
}

/// A block as the node hands it out.
#[derive(Clone, Debug, PartialEq, Eq)]
pub struct SignedBlock {
    pub block: Block,
}

/// Why a submission did not resolve.
#[derive(Clone, Copy, Debug, PartialEq, Eq, Structural)]
pub enum SubmitError {
    /// Another transaction took the place of this one in the pool.
    Usurped,
    /// The pool dropped the transaction.
    Dropped,
    /// The pool found the transaction invalid.
    Invalid,
    /// The status stream ended before the transaction reached a final status.
    StreamTerminated,
    /// The node has no block at height zero.
    GenesisHashNotFound,
    /// The node does not have the block in which the transaction was finalized.
    BlockNotFound,
    /// The finalized block does not hold the transaction.
    ExtrinsicNotFound,
    /// The stored account nonce is not a number.
    InvalidNonce,
    /// A request or a subscription failed.
    Transport,
}

impl SubmitError {
    /// The text that describes the error to a user.
    pub open spec fn message_text(self) -> Seq<char> {
        match self {
            SubmitError::Usurped => "Extrinsic Usurped"@,
            SubmitError::Dropped => "Extrinsic Dropped"@,
            SubmitError::Invalid => "Extrinsic Invalid"@,
            SubmitError::StreamTerminated => "Stream terminated"@,
            SubmitError::GenesisHashNotFound => "Genesis hash not found"@,
            SubmitError::BlockNotFound => "Failed to find block"@,
            SubmitError::ExtrinsicNotFound => "Failed to find Extrinsic"@,
            SubmitError::InvalidNonce => "Account nonce is not a valid Index"@,
            SubmitError::Transport => "Transport failed"@,
        }
    }

    /// Describes the error in words.
    pub fn message(&self) -> (text: &'static str)
        ensures
            text@ == self.message_text(),
    {
        match self {
            SubmitError::Usurped => "Extrinsic Usurped",
            SubmitError::Dropped => "Extrinsic Dropped",
            SubmitError::Invalid => "Extrinsic Invalid",
            SubmitError::StreamTerminated => "Stream terminated",
            SubmitError::GenesisHashNotFound => "Genesis hash not found",
            SubmitError::BlockNotFound => "Failed to find block",
            SubmitError::ExtrinsicNotFound => "Failed to find Extrinsic",
            SubmitError::InvalidNonce => "Account nonce is not a valid Index",
            SubmitError::Transport => "Transport failed",
        }
    }
}

/// Whether `r` is the outcome `expected`.
pub open spec fn resolves_to(r: Result<H256, SubmitError>, expected: Result<Seq<u8>, SubmitError>)
    -> bool {
    match r {
        Ok(hash) => expected == Ok::<Seq<u8>, SubmitError>(hash@),
        Err(e) => expected == Err::<Seq<u8>, SubmitError>(e),
    }
}

/// The label whose digest addresses the event log of a block.
pub open spec fn events_label() -> Seq<u8> {
    encode_utf8("System Events"@)
}

/// The label that precedes an account in the preimage of its nonce key.
pub open spec fn nonce_label() -> Seq<u8> {
    encode_utf8("System AccountNonce"@)
}

/// The key under which the node stores the event log of the current block:
/// the 128-bit XX digest of the label `System Events`.
pub fn system_events_key() -> (key: StorageKey)
    ensures
        key@ == twox_128_digest(events_label()),
        key@.len() == 16,
{
    StorageKey(twox_128("System Events".as_bytes()))
}

/// The key under which the node stores the nonce of `account`, an account
/// identifier in the node's binary encoding: the 256-bit Blake2 digest of the
/// label `System AccountNonce` followed by the account.
pub fn account_nonce_key(account: &[u8]) -> (key: StorageKey)
    ensures
        key@ == blake2_256_digest(nonce_label() + account@),
        key@.len() == 32,
{
    let mut preimage = "System AccountNonce".as_bytes_vec();
    preimage.extend_from_slice(account);
    proof {
        assert(preimage@ =~= nonce_label() + account@);
    }
    StorageKey(blake2_256(preimage.as_slice()))
}

/// The nonce that stored bytes hold: zero where nothing is stored, else the
/// number in the first four bytes, least significant first.
pub open spec fn stored_nonce(data: Option<Seq<u8>>) -> Option<u32> {
    match data {
        None => Some(0u32),
        Some(bytes) => if bytes.len() >= 4 {
            Some(
                (bytes[0] as nat + bytes[1] as nat * 0x100 + bytes[2] as nat * 0x1_0000 + bytes[3] as nat
                    * 0x100_0000) as u32,
            )
        } else {
            None
        },
    }
}

proof fn lemma_little_endian_4(n: u32, bytes: Seq<u8>)
    requires
        bytes.len() >= 4,
        little_endian(n as nat, 4) == bytes.take(4),
    ensures
        n == (bytes[0] as nat + bytes[1] as nat * 0x100 + bytes[2] as nat * 0x1_0000 + bytes[3] as nat
            * 0x100_0000) as u32,
{
    reveal_with_fuel(little_endian, 5);
    let v = n as nat;
    let le = little_endian(v, 4);
    assert(le[0] == (v % 256) as u8);
    assert(le[1] == ((v / 256) % 256) as u8);
    assert(le[2] == ((v / 256 / 256) % 256) as u8);
    assert(le[3] == ((v / 256 / 256 / 256) % 256) as u8);
    assert(bytes.take(4)[0] == bytes[0]);
    assert(bytes.take(4)[1] == bytes[1]);
    assert(bytes.take(4)[2] == bytes[2]);
    assert(bytes.take(4)[3] == bytes[3]);
    assert(v == v % 256 + ((v / 256) % 256) * 0x100 + ((v / 256 / 256) % 256) * 0x1_0000 + ((v
        / 256 / 256 / 256) % 256) * 0x100_0000) by (nonlinear_arith)
        requires
            v <= 0xffff_ffff,
    ;
}

/// Reads the account nonce from what the node stores under the nonce key.
/// An account that never transacted has nothing stored, and nonce zero.
pub fn nonce_from_storage(data: Option<&Vec<u8>>) -> (nonce: Option<u32>)
    ensures
        nonce == stored_nonce(
            match data {
                Some(bytes) => Some(bytes@),
                None => None,
            },
        ),
{
    match data {
        None => Some(0),
        Some(bytes) => {
            let decoded = decode_u32(bytes.as_slice());
            proof {
                if let Some(n) = decoded {
                    lemma_little_endian_4(n, bytes@);
                }
            }
            decoded
        },
    }
}

/// The genesis identifier, or the error for a node that reports none.
pub fn genesis_or_error(fetched: Option<H256>) -> (r: Result<H256, SubmitError>)
    ensures
        match fetched {
            Some(hash) => r == Ok::<H256, SubmitError>(hash),
            None => r == Err::<H256, SubmitError>(SubmitError::GenesisHashNotFound),
        },
{
    match fetched {
        Some(hash) => Ok(hash),
        None => Err(SubmitError::GenesisHashNotFound),
    }
}

/// What the pool reports of a submitted transaction.
#[derive(Debug)]
pub enum Status {
    /// Waiting for an earlier transaction of the account.
    Future,
    /// Ready to be included.
    Ready,
    /// Finalized in the block with this identifier.
    Finalized(H256),
    /// Replaced by the transaction with this identifier.
    Usurped(H256),
    /// Sent on to these peers.
    Broadcast(Vec<String>),
    /// Dropped from the pool.
    Dropped,
    /// Found invalid.
    Invalid,
}

/// What one status decides: nothing while the transaction is in progress, the
/// block for a finalized transaction, the failure for a lost one.
pub open spec fn verdict(status: Status) -> Option<Result<Seq<u8>, SubmitError>> {
    match status {
        Status::Future | Status::Ready | Status::Broadcast(_) => None,
        Status::Finalized(block) => Some(Ok(block@)),
        Status::Usurped(_) => Some(Err(SubmitError::Usurped)),
        Status::Dropped => Some(Err(SubmitError::Dropped)),
        Status::Invalid => Some(Err(SubmitError::Invalid)),
    }
}

/// What a stream of statuses decides: the verdict of the first status that
/// has one, and a terminated stream if none has.
pub open spec fn outcome(statuses: Seq<Status>) -> Result<Seq<u8>, SubmitError>
    decreases statuses.len(),
{
    if statuses.len() == 0 {
        Err(SubmitError::StreamTerminated)
    } else {
        match verdict(statuses[0]) {
            Some(r) => r,
            None => outcome(statuses.drop_first()),
        }
    }
}

/// The number of statuses that are read before the stream is decided: up to
/// and including the first that has a verdict.
pub open spec fn consumed(statuses: Seq<Status>) -> nat
    decreases statuses.len(),
{
    if statuses.len() == 0 {
        0
    } else if verdict(statuses[0]) is Some {
        1
    } else {
        1 + consumed(statuses.drop_first())
    }
}

/// Reads one status: none for one that leaves the transaction in progress.
pub fn on_status(status: &Status) -> (r: Option<Result<H256, SubmitError>>)
    ensures
        match r {
            Some(decided) => verdict(*status) is Some && resolves_to(
                decided,
                verdict(*status)->Some_0,
            ),
            None => verdict(*status) is None,
        },
{
    match status {
        Status::Future => None,
        Status::Ready => None,
        Status::Broadcast(_) => None,
        Status::Finalized(block) => Some(Ok(block.clone())),
        Status::Usurped(_) => Some(Err(SubmitError::Usurped)),
        Status::Dropped => Some(Err(SubmitError::Dropped)),
        Status::Invalid => Some(Err(SubmitError::Invalid)),
    }
}

/// Reads a stream of statuses up to its first verdict. The second part of the
/// result is the number of statuses that were read.
pub fn submit_and_watch(statuses: &Vec<Status>) -> (r: (Result<H256, SubmitError>, usize))
    ensures
        resolves_to(r.0, outcome(statuses@)),
        r.1 == consumed(statuses@),
        r.1 <= statuses@.len(),
{
    let mut i: usize = 0;
    proof {
        assert(statuses@.skip(0) =~= statuses@);
    }
    while i < statuses.len()
        invariant
            i <= statuses.len(),
            outcome(statuses@) == outcome(statuses@.skip(i as int)),
            consumed(statuses@) == i + consumed(statuses@.skip(i as int)),
        decreases statuses.len() - i,
    {
        proof {
            assert(statuses@.skip(i as int).drop_first() =~= statuses@.skip(i + 1));
        }
        match on_status(&statuses[i]) {
            Some(decided) => {
                return (decided, i + 1);
            },
            None => {},
        }
        i = i + 1;
    }
    (Err(SubmitError::StreamTerminated), i)
}

/// A status that leaves the transaction in progress contributes nothing:
/// the stream without it is decided in the same way.
pub proof fn lemma_transient_status_is_unobserved(statuses: Seq<Status>, at: int)
    requires
        0 <= at < statuses.len(),
        verdict(statuses[at]) is None,
    ensures
        outcome(statuses.remove(at)) == outcome(statuses),
    decreases at,
{
    if at == 0 {
        assert(statuses.remove(0) =~= statuses.drop_first());
    } else {
        let rest = statuses.drop_first();
        assert(statuses.remove(at)[0] == statuses[0]);
        assert(statuses.remove(at).drop_first() =~= rest.remove(at - 1));
        if verdict(statuses[0]) is None {
            lemma_transient_status_is_unobserved(rest, at - 1);
        }
    }
}

/// The first status with a verdict decides the stream, whatever follows it.
pub proof fn lemma_first_verdict_decides(statuses: Seq<Status>, at: int)
    requires
        0 <= at < statuses.len(),
        verdict(statuses[at]) is Some,
        forall|i: int| 0 <= i < at ==> verdict(statuses[i]) is None,
    ensures
        outcome(statuses) == verdict(statuses[at])->Some_0,
        consumed(statuses) == at + 1,
    decreases at,
{
    if at > 0 {
        let rest = statuses.drop_first();
        assert(rest[at - 1] == statuses[at]);
        assert forall|i: int| 0 <= i < at - 1 implies verdict(rest[i]) is None by {
            assert(rest[i] == statuses[i + 1]);
        }
        lemma_first_verdict_decides(rest, at - 1);
    }
}

} // verus!
