//! Events: the log of a block as a storage subscription reports it, and the
//! part of it that one transaction raised.

use vstd::prelude::*;
use crate::extrinsic::{find_extrinsic, position_of};
use crate::rpc::{same_bytes, SignedBlock, SubmitError, H256};
use crate::storage::StorageKey;

verus! {

/// The phase of block execution in which an event was raised.
#[derive(Clone, Copy, Debug, PartialEq, Eq, Structural)]
pub enum Phase {
    /// While the transaction at this position was applied.
    ApplyExtrinsic(u32),
    /// While the block was finalized.
    Finalization,
}

/// An event: the ordinal of the module that raised it, and its encoded body.
#[derive(Debug, PartialEq, Eq)]
pub struct RawEvent {
    pub module: u8,
    pub data: Vec<u8>,
}

impl View for RawEvent {
    type V = (u8, Seq<u8>);

    open spec fn view(&self) -> (u8, Seq<u8>) {
        (self.module, self.data@)
    }
}

impl Clone for RawEvent {
    fn clone(&self) -> (copy: Self)
        ensures
            copy@ == self@,
    {
        RawEvent { module: self.module, data: self.data.clone() }
    }
}

/// One record of the event log of a block.
#[derive(Debug, PartialEq, Eq)]
pub struct EventRecord {
    pub phase: Phase,
    pub event: RawEvent,
}

/// The event log that a change-set carries, with the block it reports.
#[derive(Debug, PartialEq, Eq)]
pub struct BlockEvents {
    pub block: H256,
    pub records: Vec<EventRecord>,
}

/// What a resolved submission yields.
#[derive(Debug, PartialEq, Eq)]
pub struct ExtrinsicSuccess {
    /// The block in which the transaction was finalized.
    pub block: H256,
    /// The identifier of the transaction.
    pub extrinsic: H256,
    /// The events that the transaction raised, in the order of the log.
    pub events: Vec<RawEvent>,
}

/// What a storage subscription reports for one block: the keys that changed,
/// each with its new value, or with none if the entry was removed.
#[derive(Debug, PartialEq, Eq)]
pub struct StorageChangeSet {
    pub block: H256,
    pub changes: Vec<(StorageKey, Option<Vec<u8>>)>,
}

/// The new value of the first change of the entry `key`, if there is such a
/// change and it holds a value.
pub open spec fn changed_value(changes: Seq<(StorageKey, Option<Vec<u8>>)>, key: Seq<u8>) -> Option<
    Seq<u8>,
>
    decreases changes.len(),
{
    if changes.len() == 0 {
        None
    } else if changes[0].0@ == key {
        match changes[0].1 {
            Some(data) => Some(data@),
            None => None,
        }
    } else {
        changed_value(changes.drop_first(), key)
    }
}

/// Picks from a change-set the one entry that holds the event log: the new
/// value under `events_key`. Changes of other keys are not looked at.
#[verifier::loop_isolation(false)]
pub fn events_entry<'a>(change_set: &'a StorageChangeSet, events_key: &StorageKey) -> (r: Option<
    &'a Vec<u8>,
>)
    ensures
        match r {
            Some(data) => changed_value(change_set.changes@, events_key@) == Some(data@),
            None => changed_value(change_set.changes@, events_key@) is None,
        },
{
    let changes = &change_set.changes;
    let mut i: usize = 0;
    proof {
        assert(changes@.skip(0) =~= changes@);
    }
    while i < changes.len()
        invariant
            i <= changes.len(),
            changed_value(changes@, events_key@) == changed_value(
                changes@.skip(i as int),
                events_key@,
            ),
        decreases changes.len() - i,
    {
        proof {
            assert(changes@.skip(i as int).drop_first() =~= changes@.skip(i + 1));
            assert(changes@.skip(i as int)[0] == changes@[i as int]);
        }
        if same_bytes(changes[i].0.0.as_slice(), events_key.0.as_slice()) {
            return changes[i].1.as_ref();
        }
        i = i + 1;
    }
    None
}

/// The events of `events` as mathematical values, in order.
pub open spec fn raw_views(events: Seq<RawEvent>) -> Seq<(u8, Seq<u8>)> {
    Seq::new(events.len(), |i: int| events[i]@)
}

/// Whether `record` was raised while the transaction at `position` was applied.
pub open spec fn raised_by(record: EventRecord, position: nat) -> bool {
    record.phase matches Phase::ApplyExtrinsic(i) && i == position
}

/// The events of `records` that the transaction at `position` raised, in the
/// order of the log.
pub open spec fn attributed(records: Seq<EventRecord>, position: nat) -> Seq<(u8, Seq<u8>)>
    decreases records.len(),
{
    if records.len() == 0 {
        Seq::empty()
    } else {
        let earlier = attributed(records.drop_last(), position);
        if raised_by(records.last(), position) {
            earlier.push(records.last().event@)
        } else {
            earlier
        }
    }
}

/// The events of a log in two parts are those of the first part, then those
/// of the second.
pub proof fn lemma_attributed_concat(a: Seq<EventRecord>, b: Seq<EventRecord>, position: nat)
    ensures
        attributed(a + b, position) == attributed(a, position) + attributed(b, position),
    decreases b.len(),
{
    if b.len() == 0 {
        assert(a + b =~= a);
        assert(attributed(a, position) + attributed(b, position) =~= attributed(a, position));
    } else {
        assert((a + b).drop_last() =~= a + b.drop_last());
        assert((a + b).last() == b.last());
        lemma_attributed_concat(a, b.drop_last(), position);
        assert(attributed(a, position) + attributed(b.drop_last(), position).push(b.last().event@)
            =~= (attributed(a, position) + attributed(b.drop_last(), position)).push(
            b.last().event@,
        ));
    }
}

/// A record that is tagged with another position, or with none, adds nothing
/// to the events of a transaction: the log without it yields the same events.
pub proof fn lemma_record_of_another_is_left_out(
    records: Seq<EventRecord>,
    at: int,
    position: nat,
)
    requires
        0 <= at < records.len(),
        !raised_by(records[at], position),
    ensures
        attributed(records.remove(at), position) == attributed(records, position),
{
    let before = records.take(at);
    let one = seq![records[at]];
    let after = records.skip(at + 1);
    assert(records =~= before + one + after);
    assert(records.remove(at) =~= before + after);
    lemma_attributed_concat(before + one, after, position);
    lemma_attributed_concat(before, one, position);
    lemma_attributed_concat(before, after, position);
    assert(one.drop_last() =~= Seq::<EventRecord>::empty());
    assert(one.last() == records[at]);
    assert(attributed(one.drop_last(), position) =~= Seq::<(u8, Seq<u8>)>::empty());
    assert(attributed(one, position) =~= Seq::<(u8, Seq<u8>)>::empty());
    assert(attributed(before, position) + attributed(one, position) =~= attributed(
        before,
        position,
    ));
}

/// A record that is tagged with the position adds its event, in its place.
pub proof fn lemma_record_of_the_transaction_is_kept(
    records: Seq<EventRecord>,
    at: int,
    position: nat,
)
    requires
        0 <= at < records.len(),
        raised_by(records[at], position),
    ensures
        attributed(records, position) == attributed(records.take(at), position).push(
            records[at].event@,
        ) + attributed(records.skip(at + 1), position),
{
    let before = records.take(at);
    let one = seq![records[at]];
    let after = records.skip(at + 1);
    assert(records =~= before + one + after);
    lemma_attributed_concat(before + one, after, position);
    lemma_attributed_concat(before, one, position);
    assert(one.drop_last() =~= Seq::<EventRecord>::empty());
    assert(one.last() == records[at]);
    assert(attributed(one.drop_last(), position) =~= Seq::<(u8, Seq<u8>)>::empty());
    assert(attributed(one, position) =~= seq![records[at].event@]);
    assert(attributed(before, position) + seq![records[at].event@] =~= attributed(
        before,
        position,
    ).push(records[at].event@));
}

/// The log of the first change-set that reports `block`, if there is one.
pub open spec fn log_of(change_sets: Seq<BlockEvents>, block: Seq<u8>) -> Option<
    Seq<EventRecord>,
>
    decreases change_sets.len(),
{
    if change_sets.len() == 0 {
        None
    } else if change_sets[0].block@ == block {
        Some(change_sets[0].records@)
    } else {
        log_of(change_sets.drop_first(), block)
    }
}

/// The events that the transaction at `position` of `block` raised according
/// to `change_sets`: those of the first change-set that reports `block`, and
/// none if no change-set does.
pub open spec fn block_events(change_sets: Seq<BlockEvents>, block: Seq<u8>, position: nat) -> Seq<
    (u8, Seq<u8>),
> {
    match log_of(change_sets, block) {
        Some(records) => attributed(records, position),
        None => Seq::empty(),
    }
}

/// Picks from the log of a block the events that the transaction at position
/// `ext_index` raised.
pub fn attribute_events(records: &Vec<EventRecord>, ext_index: usize) -> (events: Vec<RawEvent>)
    ensures
        raw_views(events@) == attributed(records@, ext_index as nat),
{
    let mut events: Vec<RawEvent> = Vec::new();
    let mut k: usize = 0;
    proof {
        assert(records@.take(0) =~= Seq::<EventRecord>::empty());
        assert(raw_views(events@) =~= Seq::<(u8, Seq<u8>)>::empty());
    }
    while k < records.len()
        invariant
            k <= records.len(),
            raw_views(events@) == attributed(records@.take(k as int), ext_index as nat),
        decreases records.len() - k,
    {
        let ghost before = raw_views(events@);
        proof {
            assert(records@.take(k + 1).drop_last() =~= records@.take(k as int));
            assert(records@.take(k + 1).last() == records@[k as int]);
        }
        match records[k].phase {
            Phase::ApplyExtrinsic(i) => {
                if i as usize == ext_index {
                    let event = records[k].event.clone();
                    events.push(event);
                    proof {
                        assert(raw_views(events@) =~= before.push(records@[k as int].event@));
                    }
                }
            },
            Phase::Finalization => {},
        }
        k = k + 1;
    }
    proof {
        assert(records@.take(records.len() as int) =~= records@);
    }
    events
}

/// Reads one change-set: the events of the transaction at `ext_index` if the
/// change-set reports `block_hash`, and none for a change-set of another
/// block, which is passed over.
pub fn on_change_set(change_set: &BlockEvents, block_hash: &H256, ext_index: usize) -> (r: Option<
    Vec<RawEvent>,
>)
    ensures
        match r {
            Some(events) => change_set.block@ == block_hash@ && raw_views(events@) == attributed(
                change_set.records@,
                ext_index as nat,
            ),
            None => change_set.block@ != block_hash@,
        },
{
    if change_set.block.same(block_hash) {
        Some(attribute_events(&change_set.records, ext_index))
    } else {
        None
    }
}

/// Resolves a submission from the finalized block and the change-sets that
/// the event subscription delivered: finds the transaction in the block, and
/// attributes to it the events that the first change-set of that block tags
/// with its position.
#[verifier::loop_isolation(false)]
pub fn wait_for_block_events(
    ext_hash: H256,
    signed_block: &SignedBlock,
    block_hash: H256,
    change_sets: &Vec<BlockEvents>,
) -> (r: Result<ExtrinsicSuccess, SubmitError>)
    ensures
        match r {
            Ok(success) => success.block == block_hash && success.extrinsic == ext_hash && match position_of(
                signed_block.block.extrinsics@,
                ext_hash@,
            ) {
                Some(position) => raw_views(success.events@) == block_events(
                    change_sets@,
                    block_hash@,
                    position,
                ),
                None => false,
            },
            Err(e) => position_of(signed_block.block.extrinsics@, ext_hash@) is None && e
                == SubmitError::ExtrinsicNotFound,
        },
{
    let ext_index = match find_extrinsic(signed_block, &ext_hash) {
        Ok(i) => i,
        Err(e) => {
            return Err(e);
        },
    };
    let mut events: Vec<RawEvent> = Vec::new();
    let mut k: usize = 0;
    proof {
        assert(change_sets@.skip(0) =~= change_sets@);
        assert(raw_views(events@) =~= Seq::<(u8, Seq<u8>)>::empty());
    }
    while k < change_sets.len()
        invariant
            k <= change_sets.len(),
            events@.len() == 0,
            log_of(change_sets@, block_hash@) == log_of(change_sets@.skip(k as int), block_hash@),
        decreases change_sets.len() - k,
    {
        proof {
            assert(change_sets@.skip(k as int).drop_first() =~= change_sets@.skip(k + 1));
            assert(change_sets@.skip(k as int)[0] == change_sets@[k as int]);
        }
        match on_change_set(&change_sets[k], &block_hash, ext_index) {
            Some(found) => {
                return Ok(ExtrinsicSuccess { block: block_hash, extrinsic: ext_hash, events: found });
            },
            None => {},
        }
        k = k + 1;
    }
    proof {
        assert(raw_views(events@) =~= Seq::<(u8, Seq<u8>)>::empty());
    }
    Ok(ExtrinsicSuccess { block: block_hash, extrinsic: ext_hash, events })
}

} // verus!
