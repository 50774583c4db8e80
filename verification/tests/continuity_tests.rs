use pending_sync::chain::Block;
use pending_sync::chain::GatewayStatus;
use pending_sync::chain::Head;
use pending_sync::chain::MaybePendingBlock;
use pending_sync::chain::PendingBlock;
use pending_sync::chain::StateUpdate;
use pending_sync::continuity::evaluate_continuity;
use pending_sync::continuity::ContinuityVerdict;
use pending_sync::continuity::StateQueryOutcome;
use pending_sync::felt::Felt;

fn felt(n: u64) -> Felt {
    Felt::from_limbs(0, 0, 0, n)
}

fn head() -> Head {
    Head {
        block_hash: felt(0x1234),
        state_commitment: felt(0x99),
    }
}

fn full_block(hash: Felt) -> MaybePendingBlock {
    MaybePendingBlock::Full(Block {
        block_hash: hash,
        block_number: 7,
        parent_block_hash: felt(0x1111),
        state_commitment: felt(0x77),
        timestamp: 1,
        gas_price: Some(2),
        sequencer_address: Some(felt(0x5)),
        status: GatewayStatus::AcceptedOnL2,
        transaction_hashes: vec![felt(0xa)],
    })
}

fn pending_block(parent: Felt) -> MaybePendingBlock {
    MaybePendingBlock::Pending(PendingBlock {
        parent_hash: parent,
        timestamp: 2,
        gas_price: 3,
        sequencer_address: felt(0x6),
        status: GatewayStatus::Pending,
        transaction_hashes: Vec::new(),
    })
}

fn pending_update(parent_commitment: Felt) -> StateQueryOutcome {
    let mut u = StateUpdate::default();
    u.parent_state_commitment = parent_commitment;
    StateQueryOutcome::Resolved(u)
}

fn full_update() -> StateQueryOutcome {
    let mut u = StateUpdate::default();
    u.block_hash = felt(0xabcd);
    u.parent_state_commitment = felt(0x99);
    StateQueryOutcome::Resolved(u)
}

#[test]
fn full_block_with_head_hash_resumes() {
    let v = evaluate_continuity(&head(), &full_block(felt(0x1234)), &full_update());
    assert_eq!(v, ContinuityVerdict::ResumeCurrentHead);
}

#[test]
fn full_block_with_other_hash_is_finalized() {
    let v = evaluate_continuity(&head(), &full_block(felt(0xabcd)), &full_update());
    assert_eq!(v, ContinuityVerdict::FinalizedBlockFound);
}

#[test]
fn pending_block_with_wrong_parent_disconnects() {
    let v = evaluate_continuity(&head(), &pending_block(felt(0xffff)), &full_update());
    assert_eq!(v, ContinuityVerdict::Disconnected);
}

#[test]
fn matching_block_with_full_update_is_finalized_state() {
    let v = evaluate_continuity(&head(), &pending_block(felt(0x1234)), &full_update());
    assert_eq!(v, ContinuityVerdict::FinalizedStateFound);
}

#[test]
fn matching_block_with_wrong_update_parent_disconnects() {
    let v = evaluate_continuity(
        &head(),
        &pending_block(felt(0x1234)),
        &pending_update(felt(0x42)),
    );
    assert_eq!(v, ContinuityVerdict::Disconnected);
}

#[test]
fn both_links_matching_is_pending_extension() {
    let v = evaluate_continuity(
        &head(),
        &pending_block(felt(0x1234)),
        &pending_update(felt(0x99)),
    );
    assert_eq!(v, ContinuityVerdict::PendingExtension);
}

#[test]
fn matching_block_with_timeout_disconnects() {
    let v = evaluate_continuity(
        &head(),
        &pending_block(felt(0x1234)),
        &StateQueryOutcome::TimedOut,
    );
    assert_eq!(v, ContinuityVerdict::Disconnected);
}
