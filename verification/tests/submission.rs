use parity_scale_codec::Encode;
use substrate_subxt::codec::Encoded;
use substrate_subxt::events::{BlockEvents, EventRecord, ExtrinsicSuccess, Phase, RawEvent};
use substrate_subxt::extrinsic::{
    signature_target, signing_payload, Extra, UncheckedExtrinsic,
};
use substrate_subxt::rpc::{Block, OpaqueExtrinsic, SignedBlock, Status, SubmitError, H256};
use substrate_subxt::submission::{Action, Event, Submission};

fn hash(byte: u8) -> H256 {
    H256(vec![byte; 32])
}

fn record(position: u32, module: u8, data: &[u8]) -> EventRecord {
    EventRecord {
        phase: Phase::ApplyExtrinsic(position),
        event: RawEvent { module, data: data.to_vec() },
    }
}

fn is_wait(action: &Action) -> bool {
    matches!(action, Action::Wait)
}

/// Drives a submission up to the point where the pool is watched; the body
/// of the transaction on the wire is `body`.
fn submitted(body: &[u8]) -> (Submission, H256) {
    let call = Encoded(vec![6, 0, 1]);
    let state = Submission::start(call);
    let (state, action) = state.step(Event::Subscribed);
    assert!(is_wait(&action));
    let (state, action) = state.step(Event::Nonce(Some(3u32.encode())));
    assert!(is_wait(&action));
    let (state, action) = state.step(Event::Genesis(Some(hash(0))));
    let payload = signing_payload(&Encoded(vec![6, 0, 1]), 3, &hash(0));
    match action {
        Action::Sign(target) => assert_eq!(target, signature_target(&payload)),
        other => panic!("unexpected: {:?}", other),
    }
    let (state, action) =
        state.step(Event::Signed { signer: vec![1; 32], signature: vec![2; 64] });
    match action {
        Action::Encode(xt) => {
            assert_eq!(xt.extra, Extra { nonce: 3, fee: 0 });
            assert_eq!(
                xt,
                UncheckedExtrinsic::new_signed(Encoded(vec![6, 0, 1]), vec![1; 32], vec![2; 64], 3)
            );
        }
        other => panic!("unexpected: {:?}", other),
    }
    let wire = body.to_vec().encode();
    let (state, action) = state.step(Event::Encoded(wire.clone()));
    match action {
        Action::Submit(bytes) => assert_eq!(bytes, wire),
        other => panic!("unexpected: {:?}", other),
    }
    (state, H256(sp_crypto_hashing::blake2_256(&wire).to_vec()))
}

fn three_transactions() -> SignedBlock {
    SignedBlock {
        block: Block {
            extrinsics: vec![
                OpaqueExtrinsic(b"timestamp".to_vec()),
                OpaqueExtrinsic(b"ours".to_vec()),
                OpaqueExtrinsic(b"theirs".to_vec()),
            ],
        },
    }
}

#[test]
fn finalized_transaction_gets_the_events_of_its_position() {
    let (state, id) = submitted(b"ours");
    let (state, action) = state.step(Event::Status(Status::Ready));
    assert!(is_wait(&action));
    let (state, action) = state.step(Event::Status(Status::Broadcast(vec!["peer".to_string()])));
    assert!(is_wait(&action));
    let (state, action) = state.step(Event::Status(Status::Finalized(hash(7))));
    match action {
        Action::FetchBlock(block) => assert_eq!(block, hash(7)),
        other => panic!("unexpected: {:?}", other),
    }
    let (state, action) = state.step(Event::Block(Some(three_transactions())));
    assert!(is_wait(&action));
    assert!(!state.is_done());
    let (state, action) = state.step(Event::ChangeSet(BlockEvents {
        block: hash(6),
        records: vec![record(1, 9, &[9])],
    }));
    assert!(is_wait(&action));
    let (state, action) = state.step(Event::ChangeSet(BlockEvents {
        block: hash(7),
        records: vec![
            record(0, 2, &[0]),
            record(1, 4, &[1, 2]),
            record(2, 4, &[3]),
            record(1, 0, &[0]),
            EventRecord {
                phase: Phase::Finalization,
                event: RawEvent { module: 1, data: vec![] },
            },
        ],
    }));
    assert!(state.is_done());
    match action {
        Action::Resolve(success) => assert_eq!(
            success,
            ExtrinsicSuccess {
                block: hash(7),
                extrinsic: id,
                events: vec![
                    RawEvent { module: 4, data: vec![1, 2] },
                    RawEvent { module: 0, data: vec![0] },
                ],
            }
        ),
        other => panic!("unexpected: {:?}", other),
    }
    let (state, action) = state.step(Event::Status(Status::Dropped));
    assert!(state.is_done());
    assert!(is_wait(&action));
}

#[test]
fn dropped_after_broadcast_fails_as_dropped() {
    let (state, _) = submitted(b"ours");
    let (state, action) = state.step(Event::Status(Status::Broadcast(vec![])));
    assert!(is_wait(&action));
    assert!(!state.is_done());
    let (state, action) = state.step(Event::Status(Status::Dropped));
    assert!(state.is_done());
    assert!(matches!(action, Action::Abort(SubmitError::Dropped)));

    let (state, _) = submitted(b"ours");
    let (state, action) = state.step(Event::Status(Status::Dropped));
    assert!(state.is_done());
    assert!(matches!(action, Action::Abort(SubmitError::Dropped)));
}

#[test]
fn each_lost_status_has_its_error() {
    let (state, _) = submitted(b"ours");
    assert!(matches!(
        state.step(Event::Status(Status::Usurped(hash(1)))).1,
        Action::Abort(SubmitError::Usurped)
    ));
    let (state, _) = submitted(b"ours");
    assert!(matches!(
        state.step(Event::Status(Status::Invalid)).1,
        Action::Abort(SubmitError::Invalid)
    ));
    let (state, _) = submitted(b"ours");
    assert!(matches!(
        state.step(Event::StatusEnded).1,
        Action::Abort(SubmitError::StreamTerminated)
    ));
}

#[test]
fn answers_may_come_in_any_order() {
    let payload = signing_payload(&Encoded(vec![1]), 0, &hash(5));
    let orders: [[u8; 3]; 6] =
        [[0, 1, 2], [0, 2, 1], [1, 0, 2], [1, 2, 0], [2, 0, 1], [2, 1, 0]];
    for order in orders.iter() {
        let mut state = Submission::start(Encoded(vec![1]));
        for (n, which) in order.iter().enumerate() {
            let event = match which {
                0 => Event::Nonce(None),
                1 => Event::Genesis(Some(hash(5))),
                _ => Event::Subscribed,
            };
            let (after, action) = state.step(event);
            state = after;
            if n < 2 {
                assert!(is_wait(&action));
            } else {
                match action {
                    Action::Sign(target) => assert_eq!(target, payload),
                    other => panic!("unexpected: {:?}", other),
                }
            }
        }
    }
}

#[test]
fn long_payload_goes_to_the_signer_as_digest() {
    let call = Encoded(vec![7; 300]);
    let state = Submission::start(Encoded(vec![7; 300]));
    let (state, _) = state.step(Event::Nonce(None));
    let (state, _) = state.step(Event::Subscribed);
    let (_, action) = state.step(Event::Genesis(Some(hash(5))));
    let payload = signing_payload(&call, 0, &hash(5));
    match action {
        Action::Sign(target) => {
            assert_eq!(target, sp_crypto_hashing::blake2_256(&payload).to_vec())
        }
        other => panic!("unexpected: {:?}", other),
    }
}

#[test]
fn failed_fetch_aborts_the_submission() {
    let state = Submission::start(Encoded(vec![1]));
    let (state, action) = state.step(Event::Genesis(None));
    assert!(state.is_done());
    assert!(matches!(action, Action::Abort(SubmitError::GenesisHashNotFound)));

    let state = Submission::start(Encoded(vec![1]));
    let (state, action) = state.step(Event::Nonce(Some(vec![1, 2])));
    assert!(state.is_done());
    assert!(matches!(action, Action::Abort(SubmitError::InvalidNonce)));

    let state = Submission::start(Encoded(vec![1]));
    let (state, _) = state.step(Event::Subscribed);
    let (state, action) = state.step(Event::Failed);
    assert!(state.is_done());
    assert!(matches!(action, Action::Abort(SubmitError::Transport)));

    let (state, _) = submitted(b"ours");
    let (state, action) = state.step(Event::Failed);
    assert!(state.is_done());
    assert!(matches!(action, Action::Abort(SubmitError::Transport)));
}

#[test]
fn missing_block_or_transaction_aborts() {
    let (state, _) = submitted(b"ours");
    let (state, _) = state.step(Event::Status(Status::Finalized(hash(7))));
    let (state, action) = state.step(Event::Block(None));
    assert!(state.is_done());
    assert!(matches!(action, Action::Abort(SubmitError::BlockNotFound)));

    let (state, _) = submitted(b"not in the block");
    let (state, _) = state.step(Event::Status(Status::Finalized(hash(7))));
    let (state, action) = state.step(Event::Block(Some(three_transactions())));
    assert!(state.is_done());
    assert!(matches!(action, Action::Abort(SubmitError::ExtrinsicNotFound)));
}

#[test]
fn end_of_the_event_log_resolves_without_events() {
    let (state, id) = submitted(b"theirs");
    let (state, _) = state.step(Event::Status(Status::Finalized(hash(7))));
    let (state, _) = state.step(Event::Block(Some(three_transactions())));
    let (state, action) = state.step(Event::EventsEnded);
    assert!(state.is_done());
    match action {
        Action::Resolve(success) => assert_eq!(
            success,
            ExtrinsicSuccess { block: hash(7), extrinsic: id, events: vec![] }
        ),
        other => panic!("unexpected: {:?}", other),
    }
}

#[test]
fn events_out_of_turn_are_passed_over() {
    let state = Submission::start(Encoded(vec![1]));
    let (state, action) = state.step(Event::Status(Status::Dropped));
    assert!(is_wait(&action));
    assert!(!state.is_done());
    let (state, action) = state.step(Event::Encoded(vec![1, 2, 3]));
    assert!(is_wait(&action));
    let (state, action) = state.step(Event::EventsEnded);
    assert!(is_wait(&action));
    assert!(!state.is_done());

    let (state, _) = submitted(b"ours");
    let (state, action) = state.step(Event::Block(Some(three_transactions())));
    assert!(is_wait(&action));
    let (state, action) = state.step(Event::Subscribed);
    assert!(is_wait(&action));
    assert!(!state.is_done());
}
