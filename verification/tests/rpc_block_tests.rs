use pending_sync::chain::Block;
use pending_sync::chain::GatewayStatus;
use pending_sync::chain::MaybePendingBlock;
use pending_sync::chain::PendingBlock;
use pending_sync::felt::Felt;
use pending_sync::rpc_block::pending_block_response;
use pending_sync::rpc_block::status_of;
use pending_sync::rpc_block::stored_block_status;
use pending_sync::rpc_block::BlockHeader;
use pending_sync::rpc_block::BlockStatus;
use pending_sync::rpc_block::GetBlockError;
use pending_sync::rpc_block::RpcBlock;

fn felt(n: u64) -> Felt {
    Felt::from_limbs(0, 0, 0, n)
}

fn full_block() -> Block {
    Block {
        block_hash: felt(0xabcd),
        block_number: 12,
        parent_block_hash: felt(0x1234),
        state_commitment: felt(0x77),
        timestamp: 1000,
        gas_price: Some(5),
        sequencer_address: None,
        status: GatewayStatus::AcceptedOnL2,
        transaction_hashes: vec![felt(0xa), felt(0xb)],
    }
}

fn pending_block() -> PendingBlock {
    PendingBlock {
        parent_hash: felt(0x1234),
        timestamp: 2000,
        gas_price: 7,
        sequencer_address: felt(0x9),
        status: GatewayStatus::Pending,
        transaction_hashes: vec![felt(0xc)],
    }
}

#[test]
fn from_parts_keeps_the_header() {
    let header = BlockHeader {
        hash: felt(0xabcd),
        parent_hash: felt(0x1234),
        number: 12,
        state_commitment: felt(0x77),
        timestamp: 1000,
        sequencer_address: felt(0x9),
    };
    let b = RpcBlock::from_parts(header, BlockStatus::AcceptedOnL1, vec![felt(0xa)]);
    assert_eq!(b.status, BlockStatus::AcceptedOnL1);
    assert_eq!(b.block_hash, Some(felt(0xabcd)));
    assert_eq!(b.parent_hash, felt(0x1234));
    assert_eq!(b.block_number, Some(12));
    assert_eq!(b.new_root, Some(felt(0x77)));
    assert_eq!(b.timestamp, 1000);
    assert_eq!(b.sequencer_address, felt(0x9));
    assert_eq!(b.transaction_hashes, vec![felt(0xa)]);
}

#[test]
fn from_sequencer_full_block_keeps_identity() {
    let b = RpcBlock::from_sequencer(MaybePendingBlock::Full(full_block()));
    assert_eq!(b.status, BlockStatus::AcceptedOnL2);
    assert_eq!(b.block_hash, Some(felt(0xabcd)));
    assert_eq!(b.parent_hash, felt(0x1234));
    assert_eq!(b.block_number, Some(12));
    assert_eq!(b.new_root, Some(felt(0x77)));
    // A block from before sequencer addresses is served with the zero one.
    assert_eq!(b.sequencer_address, Felt::zero());
    assert_eq!(b.transaction_hashes, vec![felt(0xa), felt(0xb)]);
}

#[test]
fn from_sequencer_pending_block_has_no_identity() {
    let b = RpcBlock::from_sequencer(MaybePendingBlock::Pending(pending_block()));
    assert_eq!(b.status, BlockStatus::Pending);
    assert_eq!(b.block_hash, None);
    assert_eq!(b.parent_hash, felt(0x1234));
    assert_eq!(b.block_number, None);
    assert_eq!(b.new_root, None);
    assert_eq!(b.sequencer_address, felt(0x9));
    assert_eq!(b.transaction_hashes, vec![felt(0xc)]);
}

#[test]
fn pending_unsupported_when_not_configured() {
    let r = pending_block_response(false, Some(MaybePendingBlock::Pending(pending_block())));
    match r {
        Err(GetBlockError::Internal(m)) => {
            assert_eq!(m, "Pending data not supported in this configuration");
        }
        other => panic!("expected an internal error, got {:?}", other),
    }
}

#[test]
fn pending_empty_is_not_found() {
    let r = pending_block_response(true, None);
    assert_eq!(r, Err(GetBlockError::BlockNotFound));
}

#[test]
fn pending_present_is_served() {
    let r = pending_block_response(true, Some(MaybePendingBlock::Pending(pending_block())))
        .unwrap();
    assert_eq!(r.block_hash, None);
    assert_eq!(r.parent_hash, felt(0x1234));
}

#[test]
fn status_mapping() {
    assert_eq!(status_of(GatewayStatus::Pending), BlockStatus::Pending);
    assert_eq!(
        status_of(GatewayStatus::AcceptedOnL1),
        BlockStatus::AcceptedOnL1
    );
    assert_eq!(
        status_of(GatewayStatus::AcceptedOnL2),
        BlockStatus::AcceptedOnL2
    );
    assert_eq!(status_of(GatewayStatus::Reverted), BlockStatus::Rejected);
    assert_eq!(status_of(GatewayStatus::Aborted), BlockStatus::Rejected);
    assert_eq!(status_of(GatewayStatus::Rejected), BlockStatus::Rejected);
}

#[test]
fn stored_status_follows_l1_record() {
    assert_eq!(stored_block_status(true), BlockStatus::AcceptedOnL1);
    assert_eq!(stored_block_status(false), BlockStatus::AcceptedOnL2);
}
