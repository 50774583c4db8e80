//! The continuity evaluator: a pure decision table classifying a freshly
//! fetched tentative block / state-update pair against the session head.
use vstd::prelude::*;
use crate::chain::Head;
use crate::chain::MaybePendingBlock;
use crate::chain::StateUpdate;

verus! {

/// How the state-update query at the pending position came out. The query is
/// bounded by a timeout, so beside an update it can also yield nothing.
#[derive(Clone, PartialEq, Eq, Debug)]
pub enum StateQueryOutcome {
    Resolved(StateUpdate),
    TimedOut,
}

/// The five terminal classes of one poll cycle, derived fresh every cycle
/// and never persisted.
#[derive(Clone, Copy, PartialEq, Eq, Structural, Debug)]
pub enum ContinuityVerdict {
    /// The gateway echoed the block the head already points at: ordinary
    /// repetition, not progress; the cycle is a no-op.
    ResumeCurrentHead,
    /// A full block with a different hash appeared: pending mode is over.
    FinalizedBlockFound,
    /// A full state update appeared: pending mode is over.
    FinalizedStateFound,
    /// The tentative data no longer extends the head (or the state-update
    /// query timed out): fall back to normal synchronization.
    Disconnected,
    /// Both continuity checks hold: the pair is a valid pending extension.
    PendingExtension,
}

/// The decision table. A pending extension is reachable only when the
/// block's parent hash equals the head's block hash *and* the update's
/// parent commitment equals the head's state commitment; either check alone
/// is insufficient. For a full block the state-update column is ignored.
pub open spec fn spec_verdict(
    head: Head,
    block: MaybePendingBlock,
    state: StateQueryOutcome,
) -> ContinuityVerdict {
    match block {
        MaybePendingBlock::Full(b) => if b.block_hash == head.block_hash {
            ContinuityVerdict::ResumeCurrentHead
        } else {
            ContinuityVerdict::FinalizedBlockFound
        },
        MaybePendingBlock::Pending(p) => if p.parent_hash != head.block_hash {
            ContinuityVerdict::Disconnected
        } else {
            match state {
                StateQueryOutcome::TimedOut => ContinuityVerdict::Disconnected,
                StateQueryOutcome::Resolved(u) => if !u.spec_is_pending() {
                    ContinuityVerdict::FinalizedStateFound
                } else if u.parent_state_commitment != head.state_commitment {
                    ContinuityVerdict::Disconnected
                } else {
                    ContinuityVerdict::PendingExtension
                },
            }
        },
    }
}

/// Classifies one cycle's fetched data against the head.
pub fn evaluate_continuity(
    head: &Head,
    block: &MaybePendingBlock,
    state: &StateQueryOutcome,
) -> (v: ContinuityVerdict)
    ensures
        v == spec_verdict(*head, *block, *state),
{
    match block {
        MaybePendingBlock::Full(b) => {
            if b.block_hash == head.block_hash {
                ContinuityVerdict::ResumeCurrentHead
            } else {
                ContinuityVerdict::FinalizedBlockFound
            }
        },
        MaybePendingBlock::Pending(p) => {
            if p.parent_hash != head.block_hash {
                ContinuityVerdict::Disconnected
            } else {
                match state {
                    StateQueryOutcome::TimedOut => ContinuityVerdict::Disconnected,
                    StateQueryOutcome::Resolved(u) => {
                        if !u.is_pending() {
                            ContinuityVerdict::FinalizedStateFound
                        } else if u.parent_state_commitment != head.state_commitment {
                            ContinuityVerdict::Disconnected
                        } else {
                            ContinuityVerdict::PendingExtension
                        }
                    },
                }
            }
        },
    }
}

/// A pending extension demands both continuity checks: whenever the verdict
/// is `PendingExtension`, the block's parent hash equals the head's block
/// hash and the update's claimed parent commitment equals the head's state
/// commitment.
pub proof fn lemma_extension_needs_both_links(
    head: Head,
    block: MaybePendingBlock,
    state: StateQueryOutcome,
)
    requires
        spec_verdict(head, block, state) == ContinuityVerdict::PendingExtension,
    ensures
        block matches MaybePendingBlock::Pending(p) && p.parent_hash == head.block_hash,
        state matches StateQueryOutcome::Resolved(u) && u.spec_is_pending()
            && u.parent_state_commitment == head.state_commitment,
{
}

} // verus!
