//! Assembling the block shape served over RPC, either from a stored header
//! read back out of the database or from whatever the gateway serves at the
//! pending position, and the decision logic of the block query's pending
//! branch.
use vstd::prelude::*;
use crate::chain::GatewayStatus;
use crate::chain::MaybePendingBlock;
use crate::felt::Felt;
use crate::felt::felt_zero;

verus! {

/// The status of a block as served over RPC.
#[derive(Clone, Copy, PartialEq, Eq, Structural, Debug)]
pub enum BlockStatus {
    Pending,
    AcceptedOnL2,
    AcceptedOnL1,
    Rejected,
}

/// How a gateway status is served over RPC: the three live states carry
/// over; everything else is rejected.
pub open spec fn spec_status_of(s: GatewayStatus) -> BlockStatus {
    match s {
        GatewayStatus::Pending => BlockStatus::Pending,
        GatewayStatus::AcceptedOnL1 => BlockStatus::AcceptedOnL1,
        GatewayStatus::AcceptedOnL2 => BlockStatus::AcceptedOnL2,
        GatewayStatus::Reverted => BlockStatus::Rejected,
        GatewayStatus::Aborted => BlockStatus::Rejected,
        GatewayStatus::Rejected => BlockStatus::Rejected,
    }
}

pub fn status_of(s: GatewayStatus) -> (r: BlockStatus)
    ensures
        r == spec_status_of(s),
{
    match s {
        GatewayStatus::Pending => BlockStatus::Pending,
        GatewayStatus::AcceptedOnL1 => BlockStatus::AcceptedOnL1,
        GatewayStatus::AcceptedOnL2 => BlockStatus::AcceptedOnL2,
        GatewayStatus::Reverted => BlockStatus::Rejected,
        GatewayStatus::Aborted => BlockStatus::Rejected,
        GatewayStatus::Rejected => BlockStatus::Rejected,
    }
}

/// The status a stored block is served with: accepted on L1 once the L1
/// record confirms it, otherwise accepted on L2.
pub fn stored_block_status(l1_accepted: bool) -> (r: BlockStatus)
    ensures
        r == (if l1_accepted {
            BlockStatus::AcceptedOnL1
        } else {
            BlockStatus::AcceptedOnL2
        }),
{
    if l1_accepted {
        BlockStatus::AcceptedOnL1
    } else {
        BlockStatus::AcceptedOnL2
    }
}

/// A stored block header as read back out of the database.
#[derive(Clone, PartialEq, Eq, Debug)]
pub struct BlockHeader {
    pub hash: Felt,
    pub parent_hash: Felt,
    pub number: u64,
    pub state_commitment: Felt,
    pub timestamp: u64,
    pub sequencer_address: Felt,
}

/// A block as served over RPC. A pending block has no hash, no number and
/// no new state root of its own.
#[derive(Clone, PartialEq, Eq, Debug)]
pub struct RpcBlock {
    pub status: BlockStatus,
    pub block_hash: Option<Felt>,
    pub parent_hash: Felt,
    pub block_number: Option<u64>,
    pub new_root: Option<Felt>,
    pub timestamp: u64,
    pub sequencer_address: Felt,
    pub transaction_hashes: Vec<Felt>,
}

impl RpcBlock {
    /// Builds the served block from a stored header, the status decided
    /// from the L1 record, and the block's transactions.
    pub fn from_parts(
        header: BlockHeader,
        status: BlockStatus,
        transaction_hashes: Vec<Felt>,
    ) -> (r: RpcBlock)
        ensures
            r.status == status,
            r.block_hash == Some(header.hash),
            r.parent_hash == header.parent_hash,
            r.block_number == Some(header.number),
            r.new_root == Some(header.state_commitment),
            r.timestamp == header.timestamp,
            r.sequencer_address == header.sequencer_address,
            r.transaction_hashes@ == transaction_hashes@,
    {
        RpcBlock {
            status,
            block_hash: Some(header.hash),
            parent_hash: header.parent_hash,
            block_number: Some(header.number),
            new_root: Some(header.state_commitment),
            timestamp: header.timestamp,
            sequencer_address: header.sequencer_address,
            transaction_hashes,
        }
    }

    /// What `from_sequencer` serves: a full block keeps its identity; a
    /// provisional one is served without hash, number or new root. A full
    /// block that predates sequencer addresses is served with the zero
    /// address.
    pub open spec fn spec_from_sequencer(block: MaybePendingBlock) -> RpcBlock {
        match block {
            MaybePendingBlock::Full(b) => RpcBlock {
                status: spec_status_of(b.status),
                block_hash: Some(b.block_hash),
                parent_hash: b.parent_block_hash,
                block_number: Some(b.block_number),
                new_root: Some(b.state_commitment),
                timestamp: b.timestamp,
                sequencer_address: if b.sequencer_address is Some {
                    b.sequencer_address->0
                } else {
                    felt_zero()
                },
                transaction_hashes: b.transaction_hashes,
            },
            MaybePendingBlock::Pending(p) => RpcBlock {
                status: spec_status_of(p.status),
                block_hash: None,
                parent_hash: p.parent_hash,
                block_number: None,
                new_root: None,
                timestamp: p.timestamp,
                sequencer_address: p.sequencer_address,
                transaction_hashes: p.transaction_hashes,
            },
        }
    }

    /// Builds the served block from whatever the gateway returned at the
    /// pending position.
    pub fn from_sequencer(block: MaybePendingBlock) -> (r: RpcBlock)
        ensures
            r == Self::spec_from_sequencer(block),
    {
        match block {
            MaybePendingBlock::Full(b) => {
                let sequencer_address = match b.sequencer_address {
                    Some(a) => a,
                    None => Felt::zero(),
                };
                RpcBlock {
                    status: status_of(b.status),
                    block_hash: Some(b.block_hash),
                    parent_hash: b.parent_block_hash,
                    block_number: Some(b.block_number),
                    new_root: Some(b.state_commitment),
                    timestamp: b.timestamp,
                    sequencer_address,
                    transaction_hashes: b.transaction_hashes,
                }
            },
            MaybePendingBlock::Pending(p) => RpcBlock {
                status: status_of(p.status),
                block_hash: None,
                parent_hash: p.parent_hash,
                block_number: None,
                new_root: None,
                timestamp: p.timestamp,
                sequencer_address: p.sequencer_address,
                transaction_hashes: p.transaction_hashes,
            },
        }
    }
}

/// Why the block query failed.
#[derive(Clone, PartialEq, Eq, Debug)]
pub enum GetBlockError {
    BlockNotFound,
    Internal(String),
}

/// The words the query answers with when the node keeps no pending data.
pub open spec fn pending_unsupported_message() -> Seq<char> {
    "Pending data not supported in this configuration"@
}

/// Decides the pending branch of the block query: how the node answers a
/// request for the pending block, given whether it is configured to keep
/// pending data at all and what, if anything, that data currently holds.
pub fn pending_block_response(
    pending_configured: bool,
    pending: Option<MaybePendingBlock>,
) -> (r: Result<RpcBlock, GetBlockError>)
    ensures
        !pending_configured ==> (r matches Err(e) && e matches GetBlockError::Internal(m) && m@
            == pending_unsupported_message()),
        pending_configured && pending is None ==> r == Err::<RpcBlock, GetBlockError>(
            GetBlockError::BlockNotFound,
        ),
        pending_configured ==> (pending matches Some(b) ==> r == Ok::<RpcBlock, GetBlockError>(
            RpcBlock::spec_from_sequencer(b),
        )),
{
    if !pending_configured {
        let m: String = pending_unsupported_string();
        Err(GetBlockError::Internal(m))
    } else {
        match pending {
            None => Err(GetBlockError::BlockNotFound),
            Some(block) => Ok(RpcBlock::from_sequencer(block)),
        }
    }
}

fn pending_unsupported_string() -> (r: String)
    ensures
        r@ == pending_unsupported_message(),
{
    let r = String::new();
    let mut r = r;
    r.append("Pending data not supported in this configuration");
    r
}

} // verus!
