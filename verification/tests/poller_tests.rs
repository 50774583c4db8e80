use pending_sync::chain::Block;
use pending_sync::chain::GatewayError;
use pending_sync::chain::GatewayStatus;
use pending_sync::chain::Head;
use pending_sync::chain::MaybePendingBlock;
use pending_sync::chain::PendingBlock;
use pending_sync::chain::PollError;
use pending_sync::chain::PollTermination;
use pending_sync::chain::StateUpdate;
use pending_sync::chain::SyncEvent;
use pending_sync::felt::Felt;
use pending_sync::poller::run_session;
use pending_sync::poller::PollerEvent;
use pending_sync::poller::PollerState;

fn felt(hex: &str) -> Felt {
    Felt::from_hex_str(hex).unwrap()
}

fn parent_hash() -> Felt {
    felt("0x1234")
}

// The bytes of "parent root", big-endian.
fn parent_root() -> Felt {
    felt("0x706172656e7420726f6f74")
}

fn head() -> Head {
    Head {
        block_hash: parent_hash(),
        state_commitment: parent_root(),
    }
}

fn next_block() -> Block {
    Block {
        block_hash: felt("0xabcd"),
        block_number: 1,
        parent_block_hash: parent_hash(),
        state_commitment: parent_root(),
        timestamp: 10,
        gas_price: None,
        sequencer_address: None,
        status: GatewayStatus::AcceptedOnL2,
        transaction_hashes: Vec::new(),
    }
}

fn pending_update() -> StateUpdate {
    let mut u = StateUpdate::default();
    u.parent_state_commitment = parent_root();
    u
}

fn pending_block() -> PendingBlock {
    PendingBlock {
        parent_hash: parent_hash(),
        timestamp: 20,
        gas_price: 11,
        // The bytes of "seqeunecer address", big-endian.
        sequencer_address: felt("0x73657165756e656365722061646472657373"),
        status: GatewayStatus::Pending,
        transaction_hashes: Vec::new(),
    }
}

#[test]
fn exits_on_full_block() {
    let log = run_session(
        &head(),
        vec![PollerEvent::BlockFetched(Ok(MaybePendingBlock::Full(
            next_block(),
        )))],
    );
    assert!(log.published.is_empty());
    match log.state {
        PollerState::Terminated {
            outcome: PollTermination::Handoff(full_block, state_update),
        } => {
            assert_eq!(full_block.unwrap(), next_block());
            assert!(state_update.is_none());
        }
        other => panic!("expected a terminated session, got {:?}", other),
    }
}

#[test]
fn exits_on_full_state_diff() {
    let mut full_diff = pending_update();
    full_diff.block_hash = next_block().block_hash;
    full_diff.state_commitment = felt("0x12");

    let log = run_session(
        &head(),
        vec![
            PollerEvent::BlockFetched(Ok(MaybePendingBlock::Pending(pending_block()))),
            PollerEvent::StateUpdateFetched(Ok(full_diff.clone())),
        ],
    );
    assert!(log.published.is_empty());
    match log.state {
        PollerState::Terminated {
            outcome: PollTermination::Handoff(full_block, state_update),
        } => {
            assert!(full_block.is_none());
            assert_eq!(state_update.unwrap(), full_diff);
        }
        other => panic!("expected a terminated session, got {:?}", other),
    }
}

#[test]
fn exits_on_block_discontinuity() {
    let mut disconnected = pending_block();
    disconnected.parent_hash = felt("0xFFFFFF");

    let log = run_session(
        &head(),
        vec![PollerEvent::BlockFetched(Ok(MaybePendingBlock::Pending(
            disconnected,
        )))],
    );
    assert!(log.published.is_empty());
    assert_eq!(
        log.state,
        PollerState::Terminated {
            outcome: PollTermination::Handoff(None, None)
        }
    );
}

#[test]
fn exits_on_state_diff_discontinuity() {
    let mut disconnected_diff = pending_update();
    // The bytes of "different old root", big-endian.
    disconnected_diff.parent_state_commitment = felt("0x646966666572656e74206f6c6420726f6f74");

    let log = run_session(
        &head(),
        vec![
            PollerEvent::BlockFetched(Ok(MaybePendingBlock::Pending(pending_block()))),
            PollerEvent::StateUpdateFetched(Ok(disconnected_diff)),
        ],
    );
    assert!(log.published.is_empty());
    assert_eq!(
        log.state,
        PollerState::Terminated {
            outcome: PollTermination::Handoff(None, None)
        }
    );
}

#[test]
fn success() {
    let log = run_session(
        &head(),
        vec![
            PollerEvent::BlockFetched(Ok(MaybePendingBlock::Pending(pending_block()))),
            PollerEvent::StateUpdateFetched(Ok(pending_update())),
            PollerEvent::ClassesResolved(Ok(())),
            PollerEvent::PublishDelivered,
        ],
    );
    assert_eq!(log.published.len(), 1);
    let SyncEvent::Pending(block, diff) = &log.published[0];
    assert_eq!(*block, pending_block());
    assert_eq!(*diff, pending_update());
    assert_eq!(log.state, PollerState::Sleep);
}

#[test]
fn stale_echo_keeps_polling() {
    let mut echoed = next_block();
    echoed.block_hash = parent_hash();
    let log = run_session(
        &head(),
        vec![
            PollerEvent::BlockFetched(Ok(MaybePendingBlock::Full(echoed.clone()))),
            PollerEvent::SleepElapsed,
            PollerEvent::BlockFetched(Ok(MaybePendingBlock::Full(echoed))),
            PollerEvent::SleepElapsed,
        ],
    );
    assert!(log.published.is_empty());
    assert_eq!(log.state, PollerState::FetchBlock);
}

#[test]
fn state_update_timeout_is_soft_exit() {
    let log = run_session(
        &head(),
        vec![
            PollerEvent::BlockFetched(Ok(MaybePendingBlock::Pending(pending_block()))),
            PollerEvent::StateUpdateTimedOut,
        ],
    );
    assert!(log.published.is_empty());
    assert_eq!(
        log.state,
        PollerState::Terminated {
            outcome: PollTermination::Handoff(None, None)
        }
    );
}

#[test]
fn block_fetch_error_is_fatal() {
    let err = GatewayError {
        message: String::from("connection reset"),
    };
    let log = run_session(&head(), vec![PollerEvent::BlockFetched(Err(err.clone()))]);
    assert!(log.published.is_empty());
    assert_eq!(
        log.state,
        PollerState::Terminated {
            outcome: PollTermination::Failed(PollError::BlockFetch(err))
        }
    );
}

#[test]
fn state_update_error_is_fatal() {
    let err = GatewayError {
        message: String::from("bad gateway"),
    };
    let log = run_session(
        &head(),
        vec![
            PollerEvent::BlockFetched(Ok(MaybePendingBlock::Pending(pending_block()))),
            PollerEvent::StateUpdateFetched(Err(err.clone())),
        ],
    );
    assert!(log.published.is_empty());
    assert_eq!(
        log.state,
        PollerState::Terminated {
            outcome: PollTermination::Failed(PollError::StateUpdateFetch(err))
        }
    );
}

#[test]
fn class_resolution_failure_is_fatal() {
    let log = run_session(
        &head(),
        vec![
            PollerEvent::BlockFetched(Ok(MaybePendingBlock::Pending(pending_block()))),
            PollerEvent::StateUpdateFetched(Ok(pending_update())),
            PollerEvent::ClassesResolved(Err(String::from("artifact missing upstream"))),
        ],
    );
    assert!(log.published.is_empty());
    assert_eq!(
        log.state,
        PollerState::Terminated {
            outcome: PollTermination::Failed(PollError::ClassResolution(String::from(
                "artifact missing upstream"
            )))
        }
    );
}

#[test]
fn closed_sink_is_fatal() {
    let log = run_session(
        &head(),
        vec![
            PollerEvent::BlockFetched(Ok(MaybePendingBlock::Pending(pending_block()))),
            PollerEvent::StateUpdateFetched(Ok(pending_update())),
            PollerEvent::ClassesResolved(Ok(())),
            PollerEvent::PublishRejected,
        ],
    );
    assert!(log.published.is_empty());
    assert_eq!(
        log.state,
        PollerState::Terminated {
            outcome: PollTermination::Failed(PollError::SinkClosed)
        }
    );
}

#[test]
fn nothing_follows_termination() {
    let log = run_session(
        &head(),
        vec![
            PollerEvent::BlockFetched(Ok(MaybePendingBlock::Full(next_block()))),
            PollerEvent::BlockFetched(Ok(MaybePendingBlock::Pending(pending_block()))),
            PollerEvent::StateUpdateFetched(Ok(pending_update())),
        ],
    );
    assert!(log.published.is_empty());
    assert_eq!(
        log.state,
        PollerState::Terminated {
            outcome: PollTermination::Handoff(Some(next_block()), None)
        }
    );
}

#[test]
fn two_good_cycles_publish_twice() {
    let log = run_session(
        &head(),
        vec![
            PollerEvent::BlockFetched(Ok(MaybePendingBlock::Pending(pending_block()))),
            PollerEvent::StateUpdateFetched(Ok(pending_update())),
            PollerEvent::ClassesResolved(Ok(())),
            PollerEvent::PublishDelivered,
            PollerEvent::SleepElapsed,
            PollerEvent::BlockFetched(Ok(MaybePendingBlock::Pending(pending_block()))),
            PollerEvent::StateUpdateFetched(Ok(pending_update())),
            PollerEvent::ClassesResolved(Ok(())),
            PollerEvent::PublishDelivered,
        ],
    );
    assert_eq!(log.published.len(), 2);
    assert_eq!(log.state, PollerState::Sleep);
}
