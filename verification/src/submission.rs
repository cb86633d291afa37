//! One submission of a transaction, as a state machine: each event that the
//! node or the signer delivers moves the submission on and says what is to be
//! done next.

use vstd::prelude::*;
use crate::codec::Encoded;
use crate::events::{
    attribute_events, attributed, block_events, raw_views, BlockEvents, ExtrinsicSuccess, RawEvent,
};
use crate::extrinsic::{
    find_extrinsic, hash_of_encoded, position_of, raw_payload, signature_target, signed_bytes,
    signing_payload, UncheckedExtrinsic,
};
use crate::rpc::{
    genesis_or_error, nonce_from_storage, on_status, outcome, stored_nonce, verdict, SignedBlock,
    Status, SubmitError, H256,
};
use crate::hashing::blake2_256_digest;

verus! {

/// How far a submission has come.
#[derive(Debug)]
pub enum Submission {
    /// The nonce, the genesis identifier and the event subscription were
    /// asked for; the transaction is built once all three are there.
    Preparing { call: Encoded, nonce: Option<u32>, genesis: Option<H256>, subscribed: bool },
    /// The payload is with the signer.
    Signing { call: Encoded, nonce: u32 },
    /// The signed transaction is being encoded for the wire.
    Encoding,
    /// The transaction was submitted; the pool reports on it.
    Watching { extrinsic: H256 },
    /// The transaction was finalized; its block was asked for.
    FetchingBlock { extrinsic: H256, block: H256 },
    /// The transaction was found in its block; the event log of that block
    /// is awaited.
    AwaitingEvents { extrinsic: H256, block: H256, position: usize },
    /// The submission resolved or failed; nothing more happens.
    Done,
}

/// Mathematical value of a [`Submission`].
pub enum SubmissionView {
    Preparing { call: Seq<u8>, nonce: Option<u32>, genesis: Option<Seq<u8>>, subscribed: bool },
    Signing { call: Seq<u8>, nonce: u32 },
    Encoding,
    Watching { extrinsic: Seq<u8> },
    FetchingBlock { extrinsic: Seq<u8>, block: Seq<u8> },
    AwaitingEvents { extrinsic: Seq<u8>, block: Seq<u8>, position: nat },
    Done,
}

impl View for Submission {
    type V = SubmissionView;

    open spec fn view(&self) -> SubmissionView {
        match self {
            Submission::Preparing { call, nonce, genesis, subscribed } => SubmissionView::Preparing {
                call: call@,
                nonce: *nonce,
                genesis: match genesis {
                    Some(hash) => Some(hash@),
                    None => None,
                },
                subscribed: *subscribed,
            },
            Submission::Signing { call, nonce } => SubmissionView::Signing {
                call: call@,
                nonce: *nonce,
            },
            Submission::Encoding => SubmissionView::Encoding,
            Submission::Watching { extrinsic } => SubmissionView::Watching { extrinsic: extrinsic@ },
            Submission::FetchingBlock { extrinsic, block } => SubmissionView::FetchingBlock {
                extrinsic: extrinsic@,
                block: block@,
            },
            Submission::AwaitingEvents { extrinsic, block, position } => {
                SubmissionView::AwaitingEvents {
                    extrinsic: extrinsic@,
                    block: block@,
                    position: *position as nat,
                }
            },
            Submission::Done => SubmissionView::Done,
        }
    }
}

/// What the node or the signer delivered.
#[derive(Debug)]
pub enum Event {
    /// What the node stores under the nonce key of the account.
    Nonce(Option<Vec<u8>>),
    /// The identifier of the block at height zero, if the node has one.
    Genesis(Option<H256>),
    /// The subscription to the event log is open.
    Subscribed,
    /// The signer's public key and its signature over the payload.
    Signed { signer: Vec<u8>, signature: Vec<u8> },
    /// The signed transaction in its wire encoding.
    Encoded(Vec<u8>),
    /// A status of the transaction in the pool.
    Status(Status),
    /// The status stream ended.
    StatusEnded,
    /// The block that was asked for, if the node has it.
    Block(Option<SignedBlock>),
    /// A change-set of the event log.
    ChangeSet(BlockEvents),
    /// The event subscription ended.
    EventsEnded,
    /// A request or a subscription failed.
    Failed,
}

/// What is to be done next.
#[derive(Debug)]
pub enum Action {
    /// Nothing new: deliver the next event.
    Wait,
    /// Have these bytes signed.
    Sign(Vec<u8>),
    /// Encode this transaction for the wire.
    Encode(UncheckedExtrinsic),
    /// Submit these bytes and watch their status.
    Submit(Vec<u8>),
    /// Fetch the block with this identifier.
    FetchBlock(H256),
    /// The submission resolved with this result.
    Resolve(ExtrinsicSuccess),
    /// The submission failed with this error.
    Abort(SubmitError),
}

/// Mathematical value of an [`Action`].
pub enum ActionView {
    Wait,
    Sign(Seq<u8>),
    Encode { function: Seq<u8>, signer: Seq<u8>, signature: Seq<u8>, nonce: u32, fee: u128 },
    Submit(Seq<u8>),
    FetchBlock(Seq<u8>),
    Resolve { block: Seq<u8>, extrinsic: Seq<u8>, events: Seq<(u8, Seq<u8>)> },
    Abort(SubmitError),
}

impl View for Action {
    type V = ActionView;

    open spec fn view(&self) -> ActionView {
        match self {
            Action::Wait => ActionView::Wait,
            Action::Sign(target) => ActionView::Sign(target@),
            Action::Encode(xt) => ActionView::Encode {
                function: xt.function@,
                signer: xt.signer@,
                signature: xt.signature@,
                nonce: xt.extra.nonce,
                fee: xt.extra.fee,
            },
            Action::Submit(bytes) => ActionView::Submit(bytes@),
            Action::FetchBlock(block) => ActionView::FetchBlock(block@),
            Action::Resolve(success) => ActionView::Resolve {
                block: success.block@,
                extrinsic: success.extrinsic@,
                events: raw_views(success.events@),
            },
            Action::Abort(e) => ActionView::Abort(*e),
        }
    }
}

/// Where the preparation stands once all that was fetched is in: the payload
/// goes to the signer when the nonce, the genesis identifier and the
/// subscription are all there, and the submission waits on otherwise.
pub open spec fn prepared(
    call: Seq<u8>,
    nonce: Option<u32>,
    genesis: Option<Seq<u8>>,
    subscribed: bool,
) -> (SubmissionView, ActionView) {
    match (nonce, genesis, subscribed) {
        (Some(n), Some(g), true) => (
            SubmissionView::Signing { call, nonce: n },
            ActionView::Sign(signed_bytes(raw_payload(call, n, g))),
        ),
        _ => (SubmissionView::Preparing { call, nonce, genesis, subscribed }, ActionView::Wait),
    }
}

/// The bytes that an optional byte string holds.
pub open spec fn bytes_of(data: Option<Vec<u8>>) -> Option<Seq<u8>> {
    match data {
        Some(bytes) => Some(bytes@),
        None => None,
    }
}

/// The state after `event` and what is to be done then.
///
/// A failure of the transport ends a running submission. Otherwise each
/// state reads the events that it waits for, and passes over any other.
pub open spec fn next(state: SubmissionView, event: Event) -> (SubmissionView, ActionView) {
    match (state, event) {
        (SubmissionView::Done, _) => (SubmissionView::Done, ActionView::Wait),
        (_, Event::Failed) => (SubmissionView::Done, ActionView::Abort(SubmitError::Transport)),
        (SubmissionView::Preparing { call, nonce, genesis, subscribed }, Event::Nonce(data)) => {
            match stored_nonce(bytes_of(data)) {
                Some(n) => prepared(call, Some(n), genesis, subscribed),
                None => (SubmissionView::Done, ActionView::Abort(SubmitError::InvalidNonce)),
            }
        },
        (SubmissionView::Preparing { call, nonce, genesis, subscribed }, Event::Genesis(fetched)) => {
            match fetched {
                Some(hash) => prepared(call, nonce, Some(hash@), subscribed),
                None => (
                    SubmissionView::Done,
                    ActionView::Abort(SubmitError::GenesisHashNotFound),
                ),
            }
        },
        (SubmissionView::Preparing { call, nonce, genesis, subscribed }, Event::Subscribed) => {
            prepared(call, nonce, genesis, true)
        },
        (SubmissionView::Signing { call, nonce }, Event::Signed { signer, signature }) => (
            SubmissionView::Encoding,
            ActionView::Encode {
                function: call,
                signer: signer@,
                signature: signature@,
                nonce,
                fee: 0,
            },
        ),
        (SubmissionView::Encoding, Event::Encoded(bytes)) => (
            SubmissionView::Watching { extrinsic: blake2_256_digest(bytes@) },
            ActionView::Submit(bytes@),
        ),
        (SubmissionView::Watching { extrinsic }, Event::Status(status)) => match verdict(status) {
            None => (SubmissionView::Watching { extrinsic }, ActionView::Wait),
            Some(Ok(block)) => (
                SubmissionView::FetchingBlock { extrinsic, block },
                ActionView::FetchBlock(block),
            ),
            Some(Err(e)) => (SubmissionView::Done, ActionView::Abort(e)),
        },
        (SubmissionView::Watching { extrinsic }, Event::StatusEnded) => (
            SubmissionView::Done,
            ActionView::Abort(SubmitError::StreamTerminated),
        ),
        (SubmissionView::FetchingBlock { extrinsic, block }, Event::Block(fetched)) => {
            match fetched {
                None => (SubmissionView::Done, ActionView::Abort(SubmitError::BlockNotFound)),
                Some(signed_block) => match position_of(
                    signed_block.block.extrinsics@,
                    extrinsic,
                ) {
                    Some(position) => (
                        SubmissionView::AwaitingEvents { extrinsic, block, position },
                        ActionView::Wait,
                    ),
                    None => (
                        SubmissionView::Done,
                        ActionView::Abort(SubmitError::ExtrinsicNotFound),
                    ),
                },
            }
        },
        (SubmissionView::AwaitingEvents { extrinsic, block, position }, Event::ChangeSet(changes)) => {
            if changes.block@ == block {
                (
                    SubmissionView::Done,
                    ActionView::Resolve {
                        block,
                        extrinsic,
                        events: attributed(changes.records@, position),
                    },
                )
            } else {
                (SubmissionView::AwaitingEvents { extrinsic, block, position }, ActionView::Wait)
            }
        },
        (SubmissionView::AwaitingEvents { extrinsic, block, position }, Event::EventsEnded) => (
            SubmissionView::Done,
            ActionView::Resolve { block, extrinsic, events: Seq::empty() },
        ),
        (other, _) => (other, ActionView::Wait),
    }
}

impl Submission {
    /// Starts the submission of `call`. The nonce of the account, the genesis
    /// identifier and the event subscription are to be asked for, all three
    /// at once, and their answers delivered as events.
    pub fn start(call: Encoded) -> (state: Submission)
        ensures
            state@ == (SubmissionView::Preparing {
                call: call@,
                nonce: None,
                genesis: None,
                subscribed: false,
            }),
    {
        Submission::Preparing { call, nonce: None, genesis: None, subscribed: false }
    }

    /// Whether the submission has resolved or failed.
    pub fn is_done(&self) -> (done: bool)
        ensures
            done == (self@ is Done),
    {
        match self {
            Submission::Done => true,
            _ => false,
        }
    }

    /// Goes on from a preparation to which an answer was added.
    fn join(call: Encoded, nonce: Option<u32>, genesis: Option<H256>, subscribed: bool) -> (r: (
        Submission,
        Action,
    ))
        ensures
            (r.0@, r.1@) == prepared(
                call@,
                nonce,
                match genesis {
                    Some(hash) => Some(hash@),
                    None => None,
                },
                subscribed,
            ),
    {
        if subscribed {
            match (nonce, genesis) {
                (Some(n), Some(g)) => {
                    let payload = signing_payload(&call, n, &g);
                    let target = signature_target(payload.as_slice());
                    (Submission::Signing { call, nonce: n }, Action::Sign(target))
                },
                (nonce, genesis) => (
                    Submission::Preparing { call, nonce, genesis, subscribed },
                    Action::Wait,
                ),
            }
        } else {
            (Submission::Preparing { call, nonce, genesis, subscribed }, Action::Wait)
        }
    }

    /// Takes in one event: the state after it, and what is to be done next.
    pub fn step(self, event: Event) -> (r: (Submission, Action))
        ensures
            (r.0@, r.1@) == next(self@, event),
    {
        match (self, event) {
            (Submission::Done, _) => (Submission::Done, Action::Wait),
            (_, Event::Failed) => (Submission::Done, Action::Abort(SubmitError::Transport)),
            (Submission::Preparing { call, nonce, genesis, subscribed }, Event::Nonce(data)) => {
                match nonce_from_storage(data.as_ref()) {
                    Some(n) => Submission::join(call, Some(n), genesis, subscribed),
                    None => (Submission::Done, Action::Abort(SubmitError::InvalidNonce)),
                }
            },
            (
                Submission::Preparing { call, nonce, genesis, subscribed },
                Event::Genesis(fetched),
            ) => {
                match genesis_or_error(fetched) {
                    Ok(hash) => Submission::join(call, nonce, Some(hash), subscribed),
                    Err(e) => (Submission::Done, Action::Abort(e)),
                }
            },
            (Submission::Preparing { call, nonce, genesis, subscribed }, Event::Subscribed) => {
                Submission::join(call, nonce, genesis, true)
            },
            (Submission::Signing { call, nonce }, Event::Signed { signer, signature }) => {
                let xt = UncheckedExtrinsic::new_signed(call, signer, signature, nonce);
                (Submission::Encoding, Action::Encode(xt))
            },
            (Submission::Encoding, Event::Encoded(bytes)) => {
                let extrinsic = hash_of_encoded(bytes.as_slice());
                (Submission::Watching { extrinsic }, Action::Submit(bytes))
            },
            (Submission::Watching { extrinsic }, Event::Status(status)) => {
                match on_status(&status) {
                    None => (Submission::Watching { extrinsic }, Action::Wait),
                    Some(Ok(block)) => {
                        let wanted = block.clone();
                        (Submission::FetchingBlock { extrinsic, block }, Action::FetchBlock(wanted))
                    },
                    Some(Err(e)) => (Submission::Done, Action::Abort(e)),
                }
            },
            (Submission::Watching { extrinsic }, Event::StatusEnded) => (
                Submission::Done,
                Action::Abort(SubmitError::StreamTerminated),
            ),
            (Submission::FetchingBlock { extrinsic, block }, Event::Block(fetched)) => {
                match fetched {
                    None => (Submission::Done, Action::Abort(SubmitError::BlockNotFound)),
                    Some(signed_block) => match find_extrinsic(&signed_block, &extrinsic) {
                        Ok(position) => (
                            Submission::AwaitingEvents { extrinsic, block, position },
                            Action::Wait,
                        ),
                        Err(e) => (Submission::Done, Action::Abort(e)),
                    },
                }
            },
            (
                Submission::AwaitingEvents { extrinsic, block, position },
                Event::ChangeSet(changes),
            ) => {
                if changes.block.same(&block) {
                    let events = attribute_events(&changes.records, position);
                    (
                        Submission::Done,
                        Action::Resolve(ExtrinsicSuccess { block, extrinsic, events }),
                    )
                } else {
                    (Submission::AwaitingEvents { extrinsic, block, position }, Action::Wait)
                }
            },
            (Submission::AwaitingEvents { extrinsic, block, position }, Event::EventsEnded) => {
                let events: Vec<RawEvent> = Vec::new();
                proof {
                    assert(raw_views(events@) =~= Seq::<(u8, Seq<u8>)>::empty());
                }
                (Submission::Done, Action::Resolve(ExtrinsicSuccess { block, extrinsic, events }))
            },
            (other, _) => (other, Action::Wait),
        }
    }
}

/// A submission that is done stays done, and asks for nothing more.
pub proof fn lemma_done_is_final(event: Event)
    ensures
        next(SubmissionView::Done, event) == (SubmissionView::Done, ActionView::Wait),
{
}

/// A running submission ends with an event exactly if that event resolves it
/// or aborts it: it yields one result, and only at its end.
pub proof fn lemma_ends_with_its_result(state: SubmissionView, event: Event)
    requires
        !(state is Done),
    ensures
        next(state, event).0 is Done <==> (next(state, event).1 is Resolve || next(
            state,
            event,
        ).1 is Abort),
{
}

/// A submission resolves only on the event log of its block, or on the end
/// of the log, after the transaction was finalized and found in that block;
/// the result names that block and that transaction.
pub proof fn lemma_resolves_after_finalization(state: SubmissionView, event: Event)
    requires
        next(state, event).1 is Resolve,
    ensures
        state is AwaitingEvents,
        event is ChangeSet || event is EventsEnded,
        next(state, event).1->Resolve_block == state->AwaitingEvents_block,
        next(state, event).1->Resolve_extrinsic == state->AwaitingEvents_extrinsic,
        event matches Event::ChangeSet(changes) ==> changes.block@ == state->AwaitingEvents_block
            && next(state, event).1->Resolve_events == attributed(
            changes.records@,
            state->AwaitingEvents_position,
        ),
{
}

/// While the pool is watched, a status that leaves the transaction in
/// progress changes nothing.
pub proof fn lemma_status_in_progress_changes_nothing(state: SubmissionView, status: Status)
    requires
        state is Watching,
        verdict(status) is None,
    ensures
        next(state, Event::Status(status)) == (state, ActionView::Wait),
{
}

/// A change-set that reports another block is passed over.
pub proof fn lemma_other_block_is_passed_over(state: SubmissionView, changes: BlockEvents)
    requires
        state is AwaitingEvents,
        changes.block@ != state->AwaitingEvents_block,
    ensures
        next(state, Event::ChangeSet(changes)) == (state, ActionView::Wait),
{
}

/// The three answers that a submission waits for at its start may come in
/// any order: the payload goes to the signer with the last of them, and it
/// is the same payload whatever the order was.
pub proof fn lemma_join_on_three(call: Seq<u8>, data: Option<Vec<u8>>, genesis: H256)
    requires
        stored_nonce(bytes_of(data)) is Some,
    ensures
        ({
            let start = SubmissionView::Preparing {
                call,
                nonce: None,
                genesis: None,
                subscribed: false,
            };
            let nonce = stored_nonce(bytes_of(data))->Some_0;
            let signing = (
                SubmissionView::Signing { call, nonce },
                ActionView::Sign(signed_bytes(raw_payload(call, nonce, genesis@))),
            );
            let n = Event::Nonce(data);
            let g = Event::Genesis(Some(genesis));
            let s = Event::Subscribed;
            &&& next(next(next(start, n).0, g).0, s) == signing
            &&& next(next(next(start, n).0, s).0, g) == signing
            &&& next(next(next(start, g).0, n).0, s) == signing
            &&& next(next(next(start, g).0, s).0, n) == signing
            &&& next(next(next(start, s).0, n).0, g) == signing
            &&& next(next(next(start, s).0, g).0, n) == signing
            &&& next(next(start, n).0, g).1 is Wait
            &&& next(next(start, s).0, g).1 is Wait
            &&& next(next(start, n).0, s).1 is Wait
        }),
{
}

/// Where a submission that watches the pool stands after the statuses
/// `statuses` and, if none of them decided, the end of the stream.
pub open spec fn after_statuses(extrinsic: Seq<u8>, statuses: Seq<Status>) -> (
    SubmissionView,
    ActionView,
)
    decreases statuses.len(),
{
    let watching = SubmissionView::Watching { extrinsic };
    if statuses.len() == 0 {
        next(watching, Event::StatusEnded)
    } else {
        let step = next(watching, Event::Status(statuses[0]));
        if step.0 == watching {
            after_statuses(extrinsic, statuses.drop_first())
        } else {
            step
        }
    }
}

/// Fed one status after the other, a submission ends up where the stream as
/// a whole decides: it asks for the block of a finalized transaction, and
/// fails with the error of a lost one or of a stream that ended too soon.
pub proof fn lemma_statuses_decide_the_submission(extrinsic: Seq<u8>, statuses: Seq<Status>)
    ensures
        after_statuses(extrinsic, statuses) == match outcome(statuses) {
            Ok(block) => (
                SubmissionView::FetchingBlock { extrinsic, block },
                ActionView::FetchBlock(block),
            ),
            Err(e) => (SubmissionView::Done, ActionView::Abort(e)),
        },
    decreases statuses.len(),
{
    if statuses.len() > 0 {
        lemma_statuses_decide_the_submission(extrinsic, statuses.drop_first());
    }
}

/// Where a submission that waits for the event log stands after the
/// change-sets `change_sets` and, if none of them reported its block, the end
/// of the subscription.
pub open spec fn after_change_sets(
    extrinsic: Seq<u8>,
    block: Seq<u8>,
    position: nat,
    change_sets: Seq<BlockEvents>,
) -> (SubmissionView, ActionView)
    decreases change_sets.len(),
{
    let waiting = SubmissionView::AwaitingEvents { extrinsic, block, position };
    if change_sets.len() == 0 {
        next(waiting, Event::EventsEnded)
    } else {
        let step = next(waiting, Event::ChangeSet(change_sets[0]));
        if step.0 == waiting {
            after_change_sets(extrinsic, block, position, change_sets.drop_first())
        } else {
            step
        }
    }
}

/// Fed one change-set after the other, a submission resolves with the events
/// that the first change-set of its block tags with its position; the
/// change-sets of other blocks are passed over.
pub proof fn lemma_change_sets_resolve_the_submission(
    extrinsic: Seq<u8>,
    block: Seq<u8>,
    position: nat,
    change_sets: Seq<BlockEvents>,
)
    ensures
        after_change_sets(extrinsic, block, position, change_sets) == (
            SubmissionView::Done,
            ActionView::Resolve {
                block,
                extrinsic,
                events: block_events(change_sets, block, position),
            },
        ),
    decreases change_sets.len(),
{
    if change_sets.len() > 0 {
        lemma_change_sets_resolve_the_submission(
            extrinsic,
            block,
            position,
            change_sets.drop_first(),
        );
    }
}

} // verus!
