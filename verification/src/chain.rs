//! The chain data handled by the synchronization engine: the caller's head,
//! the two shapes of tentative block and state update a gateway can serve,
//! the event published downstream, and the error taxonomy of a poll session.
use vstd::prelude::*;
use crate::felt::Felt;
use crate::felt::felt_zero;

verus! {

/// The last trustworthy point known to the caller: the hash of the latest
/// accepted block together with the state commitment it produced. A polling
/// session is judged against one immutable head from start to finish.
#[derive(Clone, Copy, PartialEq, Eq, Structural, Debug)]
pub struct Head {
    pub block_hash: Felt,
    pub state_commitment: Felt,
}

/// The status a gateway reports for a block.
#[derive(Clone, Copy, PartialEq, Eq, Structural, Debug)]
pub enum GatewayStatus {
    Pending,
    AcceptedOnL1,
    AcceptedOnL2,
    Reverted,
    Aborted,
    Rejected,
}

/// A fully formed block: it has a hash of its own.
#[derive(Clone, PartialEq, Eq, Debug)]
pub struct Block {
    pub block_hash: Felt,
    pub block_number: u64,
    pub parent_block_hash: Felt,
    pub state_commitment: Felt,
    pub timestamp: u64,
    pub gas_price: Option<u128>,
    pub sequencer_address: Option<Felt>,
    pub status: GatewayStatus,
    pub transaction_hashes: Vec<Felt>,
}

/// A provisional block: it has no hash of its own and is keyed by the parent
/// hash it claims to extend.
#[derive(Clone, PartialEq, Eq, Debug)]
pub struct PendingBlock {
    pub parent_hash: Felt,
    pub timestamp: u64,
    pub gas_price: u128,
    pub sequencer_address: Felt,
    pub status: GatewayStatus,
    pub transaction_hashes: Vec<Felt>,
}

/// What the gateway serves when asked for the block at the pending position.
#[derive(Clone, PartialEq, Eq, Debug)]
pub enum MaybePendingBlock {
    Full(Block),
    Pending(PendingBlock),
}

/// A state update. A full update carries the hash of the block it belongs
/// to; a pending update carries the zero hash and is keyed by the parent
/// state commitment it claims to extend. The class lists name every class
/// newly referenced by the delta.
#[derive(Clone, PartialEq, Eq, Debug)]
pub struct StateUpdate {
    pub block_hash: Felt,
    pub parent_state_commitment: Felt,
    pub state_commitment: Felt,
    pub declared_classes: Vec<Felt>,
    pub deployed_classes: Vec<Felt>,
    pub replaced_classes: Vec<Felt>,
}

impl StateUpdate {
    /// A pending update carries the zero block hash.
    pub open spec fn spec_is_pending(&self) -> bool {
        self.block_hash == felt_zero()
    }

    pub fn is_pending(&self) -> (r: bool)
        ensures
            r == self.spec_is_pending(),
    {
        self.block_hash.is_zero()
    }
}

impl Default for StateUpdate {
    fn default() -> (r: Self)
        ensures
            r.block_hash == felt_zero(),
            r.parent_state_commitment == felt_zero(),
            r.state_commitment == felt_zero(),
            r.declared_classes@ == Seq::<Felt>::empty(),
            r.deployed_classes@ == Seq::<Felt>::empty(),
            r.replaced_classes@ == Seq::<Felt>::empty(),
    {
        StateUpdate {
            block_hash: Felt::zero(),
            parent_state_commitment: Felt::zero(),
            state_commitment: Felt::zero(),
            declared_classes: Vec::new(),
            deployed_classes: Vec::new(),
            replaced_classes: Vec::new(),
        }
    }
}

/// The event the engine publishes downstream: one provisional block paired
/// atomically with its matching state update. Neither half is ever emitted
/// alone.
#[derive(Clone, PartialEq, Eq, Debug)]
pub enum SyncEvent {
    Pending(PendingBlock, StateUpdate),
}

/// A transport or deserialization failure reported by the gateway.
#[derive(Clone, PartialEq, Eq, Debug)]
pub struct GatewayError {
    pub message: String,
}

/// Why a poll session failed; each variant names the phase that failed.
#[derive(Clone, PartialEq, Eq, Debug)]
pub enum PollError {
    BlockFetch(GatewayError),
    StateUpdateFetch(GatewayError),
    ClassResolution(String),
    SinkClosed,
}

/// How a poll session ended: a clean hand-off back to normal synchronization
/// (optionally carrying a finalized block or state update observed on the
/// way out), or a fatal failure.
#[derive(Clone, PartialEq, Eq, Debug)]
pub enum PollTermination {
    Handoff(Option<Block>, Option<StateUpdate>),
    Failed(PollError),
}

} // verus!
