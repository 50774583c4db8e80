//! The pending poller: a state machine that decides, cycle by cycle, whether
//! the tentative block and state update served at the pending position still
//! extend the session head, and what the loop does next.
//!
//! The machine owns every decision of the loop; the surrounding runtime only
//! performs the effect each state calls for (fetch, resolve classes, publish,
//! sleep) and feeds the outcome back in as an event.
use vstd::prelude::*;
use crate::chain::Block;
use crate::chain::GatewayError;
use crate::chain::Head;
use crate::chain::MaybePendingBlock;
use crate::chain::PendingBlock;
use crate::chain::PollError;
use crate::chain::PollTermination;
use crate::chain::StateUpdate;
use crate::chain::SyncEvent;
use crate::continuity::ContinuityVerdict;
use crate::continuity::StateQueryOutcome;
use crate::continuity::spec_verdict;

verus! {

/// Default bound on the state-update query, in seconds. The upstream source
/// is known to stall on this query while it computes the pending root; an
/// unbounded retry would hang the loop.
pub const DEFAULT_STATE_UPDATE_TIMEOUT_SECS: u64 = 180;

/// Where the loop stands inside one cycle. Each non-terminal state names the
/// one effect the runtime must perform next.
#[derive(Clone, PartialEq, Eq, Debug)]
pub enum PollerState {
    /// Query the gateway for the block at the pending position.
    FetchBlock,
    /// Query the gateway for the state update at the pending position,
    /// bounded by the configured timeout; `block` is the provisional block
    /// retained from the first half of the cycle.
    FetchStateUpdate { block: PendingBlock },
    /// Download and persist every class the update references that is not
    /// yet locally known.
    ResolveClasses { block: PendingBlock, update: StateUpdate },
    /// Publish `SyncEvent::Pending(block, update)` on the event sink.
    Publish { block: PendingBlock, update: StateUpdate },
    /// Wait out the poll interval, then start the next cycle.
    Sleep,
    /// The session is over; `outcome` is what the caller receives.
    Terminated { outcome: PollTermination },
}

/// What the runtime observed while performing the effect the current state
/// called for.
#[derive(PartialEq, Eq, Debug)]
pub enum PollerEvent {
    BlockFetched(Result<MaybePendingBlock, GatewayError>),
    StateUpdateFetched(Result<StateUpdate, GatewayError>),
    StateUpdateTimedOut,
    ClassesResolved(Result<(), String>),
    PublishDelivered,
    PublishRejected,
    SleepElapsed,
}

/// Which events can answer which state: exactly the outcomes the state's
/// effect can produce. A terminated session accepts no further event.
pub open spec fn event_fits(s: PollerState, e: PollerEvent) -> bool {
    match s {
        PollerState::FetchBlock => e matches PollerEvent::BlockFetched(_),
        PollerState::FetchStateUpdate { .. } => e matches PollerEvent::StateUpdateFetched(_)
            || e == PollerEvent::StateUpdateTimedOut,
        PollerState::ResolveClasses { .. } => e matches PollerEvent::ClassesResolved(_),
        PollerState::Publish { .. } => e == PollerEvent::PublishDelivered
            || e == PollerEvent::PublishRejected,
        PollerState::Sleep => e == PollerEvent::SleepElapsed,
        PollerState::Terminated { .. } => false,
    }
}

/// The transition relation of the loop, continuity checks included.
pub open spec fn spec_step(head: Head, s: PollerState, e: PollerEvent) -> PollerState {
    match (s, e) {
        (PollerState::FetchBlock, PollerEvent::BlockFetched(r)) => match r {
            Result::Err(err) => PollerState::Terminated {
                outcome: PollTermination::Failed(PollError::BlockFetch(err)),
            },
            Result::Ok(MaybePendingBlock::Full(b)) => if b.block_hash == head.block_hash {
                PollerState::Sleep
            } else {
                PollerState::Terminated {
                    outcome: PollTermination::Handoff(Some(b), None),
                }
            },
            Result::Ok(MaybePendingBlock::Pending(p)) => if p.parent_hash != head.block_hash {
                PollerState::Terminated {
                    outcome: PollTermination::Handoff(None, None),
                }
            } else {
                PollerState::FetchStateUpdate { block: p }
            },
        },
        (PollerState::FetchStateUpdate { .. }, PollerEvent::StateUpdateTimedOut) =>
            PollerState::Terminated {
                outcome: PollTermination::Handoff(None, None),
            },
        (PollerState::FetchStateUpdate { block }, PollerEvent::StateUpdateFetched(r)) => match r {
            Result::Err(err) => PollerState::Terminated {
                outcome: PollTermination::Failed(PollError::StateUpdateFetch(err)),
            },
            Result::Ok(u) => if !u.spec_is_pending() {
                PollerState::Terminated {
                    outcome: PollTermination::Handoff(None, Some(u)),
                }
            } else if u.parent_state_commitment != head.state_commitment {
                PollerState::Terminated {
                    outcome: PollTermination::Handoff(None, None),
                }
            } else {
                PollerState::ResolveClasses { block, update: u }
            },
        },
        (PollerState::ResolveClasses { block, update }, PollerEvent::ClassesResolved(r)) => match r {
            Result::Err(m) => PollerState::Terminated {
                outcome: PollTermination::Failed(PollError::ClassResolution(m)),
            },
            Result::Ok(()) => PollerState::Publish { block, update },
        },
        (PollerState::Publish { .. }, PollerEvent::PublishRejected) => PollerState::Terminated {
            outcome: PollTermination::Failed(PollError::SinkClosed),
        },
        (PollerState::Publish { .. }, PollerEvent::PublishDelivered) => PollerState::Sleep,
        (PollerState::Sleep, PollerEvent::SleepElapsed) => PollerState::FetchBlock,
        _ => s,
    }
}

/// Advances the loop by one event.
pub fn step(head: &Head, s: PollerState, e: PollerEvent) -> (r: PollerState)
    requires
        event_fits(s, e),
    ensures
        r == spec_step(*head, s, e),
{
    match (s, e) {
        (PollerState::FetchBlock, PollerEvent::BlockFetched(r)) => match r {
            Result::Err(err) => PollerState::Terminated {
                outcome: PollTermination::Failed(PollError::BlockFetch(err)),
            },
            Result::Ok(MaybePendingBlock::Full(b)) => {
                if b.block_hash == head.block_hash {
                    // The gateway may echo the latest finalized block at the
                    // pending position for a while; that is repetition, not
                    // progress.
                    PollerState::Sleep
                } else {
                    PollerState::Terminated {
                        outcome: PollTermination::Handoff(Some(b), None),
                    }
                }
            },
            Result::Ok(MaybePendingBlock::Pending(p)) => {
                if p.parent_hash != head.block_hash {
                    PollerState::Terminated {
                        outcome: PollTermination::Handoff(None, None),
                    }
                } else {
                    PollerState::FetchStateUpdate { block: p }
                }
            },
        },
        (PollerState::FetchStateUpdate { block: _ }, PollerEvent::StateUpdateTimedOut) => {
            // A timeout is a soft exit, not an error: fall back to normal
            // synchronization from the existing head.
            PollerState::Terminated {
                outcome: PollTermination::Handoff(None, None),
            }
        },
        (PollerState::FetchStateUpdate { block }, PollerEvent::StateUpdateFetched(r)) => match r {
            Result::Err(err) => PollerState::Terminated {
                outcome: PollTermination::Failed(PollError::StateUpdateFetch(err)),
            },
            Result::Ok(u) => {
                if !u.is_pending() {
                    PollerState::Terminated {
                        outcome: PollTermination::Handoff(None, Some(u)),
                    }
                } else if u.parent_state_commitment != head.state_commitment {
                    PollerState::Terminated {
                        outcome: PollTermination::Handoff(None, None),
                    }
                } else {
                    PollerState::ResolveClasses { block, update: u }
                }
            },
        },
        (PollerState::ResolveClasses { block, update }, PollerEvent::ClassesResolved(r)) => match r {
            Result::Err(m) => PollerState::Terminated {
                outcome: PollTermination::Failed(PollError::ClassResolution(m)),
            },
            Result::Ok(()) => PollerState::Publish { block, update },
        },
        (PollerState::Publish { block: _, update: _ }, PollerEvent::PublishRejected) => {
            PollerState::Terminated {
                outcome: PollTermination::Failed(PollError::SinkClosed),
            }
        },
        (PollerState::Publish { block: _, update: _ }, PollerEvent::PublishDelivered) => {
            PollerState::Sleep
        },
        (PollerState::Sleep, PollerEvent::SleepElapsed) => PollerState::FetchBlock,
        (s2, _) => s2,
    }
}

/// Whether the given event can answer the current state.
pub fn fits(s: &PollerState, e: &PollerEvent) -> (r: bool)
    ensures
        r == event_fits(*s, *e),
{
    match (s, e) {
        (PollerState::FetchBlock, PollerEvent::BlockFetched(_)) => true,
        (PollerState::FetchStateUpdate { .. }, PollerEvent::StateUpdateFetched(_)) => true,
        (PollerState::FetchStateUpdate { .. }, PollerEvent::StateUpdateTimedOut) => true,
        (PollerState::ResolveClasses { .. }, PollerEvent::ClassesResolved(_)) => true,
        (PollerState::Publish { .. }, PollerEvent::PublishDelivered) => true,
        (PollerState::Publish { .. }, PollerEvent::PublishRejected) => true,
        (PollerState::Sleep, PollerEvent::SleepElapsed) => true,
        _ => false,
    }
}

/// The event, if any, that answering `e` in state `s` publishes downstream:
/// exactly one `SyncEvent::Pending` per delivered publish, nothing anywhere
/// else.
pub open spec fn published_by(s: PollerState, e: PollerEvent) -> Seq<SyncEvent> {
    match (s, e) {
        (PollerState::Publish { block, update }, PollerEvent::PublishDelivered) => seq![
            SyncEvent::Pending(block, update),
        ],
        _ => Seq::<SyncEvent>::empty(),
    }
}

/// Everything a session starting in `s` publishes while consuming `events`,
/// in order. Consumption stops at the first event that does not fit the
/// current state; a terminated session accepts nothing.
pub open spec fn spec_run_events(head: Head, s: PollerState, events: Seq<PollerEvent>) -> Seq<
    SyncEvent,
>
    decreases events.len(),
{
    if events.len() == 0 || !event_fits(s, events.first()) {
        Seq::<SyncEvent>::empty()
    } else {
        published_by(s, events.first()) + spec_run_events(
            head,
            spec_step(head, s, events.first()),
            events.drop_first(),
        )
    }
}

/// The state a session starting in `s` stands in after consuming `events`.
pub open spec fn spec_run_state(head: Head, s: PollerState, events: Seq<PollerEvent>) -> PollerState
    decreases events.len(),
{
    if events.len() == 0 || !event_fits(s, events.first()) {
        s
    } else {
        spec_run_state(head, spec_step(head, s, events.first()), events.drop_first())
    }
}

/// What one scripted session did: the events published downstream, in
/// order, and the state the machine ended in.
pub struct SessionLog {
    pub published: Vec<SyncEvent>,
    pub state: PollerState,
}

/// Runs the machine from the start of a session over a script of observed
/// events, collecting everything it publishes.
pub fn run_session(head: &Head, events: Vec<PollerEvent>) -> (log: SessionLog)
    ensures
        log.published@ == spec_run_events(*head, PollerState::FetchBlock, events@),
        log.state == spec_run_state(*head, PollerState::FetchBlock, events@),
{
    let ghost all = events@;
    let mut s = PollerState::FetchBlock;
    let mut published: Vec<SyncEvent> = Vec::new();
    let mut rest = events;
    loop
        invariant
            all == events@,
            spec_run_events(*head, PollerState::FetchBlock, all) == published@ + spec_run_events(
                *head,
                s,
                rest@,
            ),
            spec_run_state(*head, PollerState::FetchBlock, all) == spec_run_state(*head, s, rest@),
        decreases rest@.len(),
    {
        if rest.len() == 0 {
            proof {
                assert(spec_run_events(*head, s, rest@) == Seq::<SyncEvent>::empty());
                assert(spec_run_state(*head, s, rest@) == s);
                assert(published@ + Seq::<SyncEvent>::empty() =~= published@);
            }
            return SessionLog { published, state: s };
        }
        if !fits(&s, &rest[0]) {
            proof {
                assert(rest@.first() == rest@[0]);
                assert(spec_run_events(*head, s, rest@) == Seq::<SyncEvent>::empty());
                assert(spec_run_state(*head, s, rest@) == s);
                assert(published@ + Seq::<SyncEvent>::empty() =~= published@);
            }
            return SessionLog { published, state: s };
        }
        let ghost pre = rest@;
        let ghost s_pre = s;
        let e = rest.remove(0);
        let ghost ge = e;
        proof {
            assert(pre.remove(0) =~= pre.drop_first());
            assert(pre.first() == ge);
        }
        let ghost pub_pre = published@;
        match (s, e) {
            (PollerState::Publish { block, update }, PollerEvent::PublishDelivered) => {
                published.push(SyncEvent::Pending(block, update));
                s = PollerState::Sleep;
            },
            (s2, e2) => {
                s = step(head, s2, e2);
            },
        }
        proof {
            assert(s == spec_step(*head, s_pre, ge));
            assert(spec_run_events(*head, s_pre, pre) == published_by(s_pre, ge)
                + spec_run_events(*head, s, rest@));
            assert(published@ =~= pub_pre + published_by(s_pre, ge));
            assert(pub_pre + (published_by(s_pre, ge) + spec_run_events(*head, s, rest@))
                =~= published@ + spec_run_events(*head, s, rest@));
        }
    }
}

/// The event a state-query outcome feeds back into the machine.
pub open spec fn state_event_of(o: StateQueryOutcome) -> PollerEvent {
    match o {
        StateQueryOutcome::Resolved(u) => PollerEvent::StateUpdateFetched(Ok(u)),
        StateQueryOutcome::TimedOut => PollerEvent::StateUpdateTimedOut,
    }
}

/// Where one cycle stands after the block answer and, where the machine
/// asks for one, the state-update answer.
pub open spec fn cycle_end_state(
    head: Head,
    block: MaybePendingBlock,
    state: StateQueryOutcome,
) -> PollerState {
    let s1 = spec_step(head, PollerState::FetchBlock, PollerEvent::BlockFetched(Ok(block)));
    if s1 matches PollerState::FetchStateUpdate { .. } {
        spec_step(head, s1, state_event_of(state))
    } else {
        s1
    }
}

/// The machine implements the continuity evaluator's decision table: each
/// of the five verdicts forces the corresponding fate of the cycle.
pub proof fn lemma_cycle_agrees_with_verdict(
    head: Head,
    block: MaybePendingBlock,
    state: StateQueryOutcome,
)
    ensures
        spec_verdict(head, block, state) == ContinuityVerdict::ResumeCurrentHead
            ==> cycle_end_state(head, block, state) == PollerState::Sleep,
        spec_verdict(head, block, state) == ContinuityVerdict::FinalizedBlockFound
            ==> (block matches MaybePendingBlock::Full(b) && cycle_end_state(head, block, state)
            == (PollerState::Terminated { outcome: PollTermination::Handoff(Some(b), None) })),
        spec_verdict(head, block, state) == ContinuityVerdict::Disconnected
            ==> cycle_end_state(head, block, state) == (PollerState::Terminated {
            outcome: PollTermination::Handoff(None, None),
        }),
        spec_verdict(head, block, state) == ContinuityVerdict::FinalizedStateFound
            ==> (state matches StateQueryOutcome::Resolved(u) && cycle_end_state(head, block, state)
            == (PollerState::Terminated { outcome: PollTermination::Handoff(None, Some(u)) })),
        spec_verdict(head, block, state) == ContinuityVerdict::PendingExtension
            ==> (block matches MaybePendingBlock::Pending(p) && state
            matches StateQueryOutcome::Resolved(u) && cycle_end_state(head, block, state)
            == (PollerState::ResolveClasses { block: p, update: u })),
{
}

/// After a session has terminated no further event fits: nothing more is
/// ever published and the outcome stands whatever the rest of the script
/// holds.
pub proof fn lemma_terminal_absorbs(
    head: Head,
    outcome: PollTermination,
    events: Seq<PollerEvent>,
)
    ensures
        spec_run_events(head, PollerState::Terminated { outcome }, events) == Seq::<
            SyncEvent,
        >::empty(),
        spec_run_state(head, PollerState::Terminated { outcome }, events) == (
        PollerState::Terminated { outcome }),
{
}

/// Stale echo: a full block carrying the head's own hash is ordinary
/// repetition, not progress. The cycle publishes nothing, terminates
/// nothing, and after the sleep the loop stands ready to poll again.
pub proof fn lemma_stale_echo(head: Head, b: Block)
    requires
        b.block_hash == head.block_hash,
    ensures
        spec_step(
            head,
            PollerState::FetchBlock,
            PollerEvent::BlockFetched(Ok(MaybePendingBlock::Full(b))),
        ) == PollerState::Sleep,
        spec_run_events(
            head,
            PollerState::FetchBlock,
            seq![
                PollerEvent::BlockFetched(Ok(MaybePendingBlock::Full(b))),
                PollerEvent::SleepElapsed,
            ],
        ) == Seq::<SyncEvent>::empty(),
        spec_run_state(
            head,
            PollerState::FetchBlock,
            seq![
                PollerEvent::BlockFetched(Ok(MaybePendingBlock::Full(b))),
                PollerEvent::SleepElapsed,
            ],
        ) == PollerState::FetchBlock,
{
    let script = seq![
        PollerEvent::BlockFetched(Ok(MaybePendingBlock::Full(b))),
        PollerEvent::SleepElapsed,
    ];
    assert(script.drop_first() =~= seq![PollerEvent::SleepElapsed]);
    assert(script.drop_first().drop_first() =~= Seq::<PollerEvent>::empty());
    reveal_with_fuel(spec_run_events, 4);
    reveal_with_fuel(spec_run_state, 4);
}

/// A full block with any other hash ends the session: the poller hands the
/// block back for normal synchronization and publishes nothing, on this
/// cycle or ever after.
pub proof fn lemma_new_finalized_block(head: Head, b: Block, rest: Seq<PollerEvent>)
    requires
        b.block_hash != head.block_hash,
    ensures
        spec_step(
            head,
            PollerState::FetchBlock,
            PollerEvent::BlockFetched(Ok(MaybePendingBlock::Full(b))),
        ) == (PollerState::Terminated { outcome: PollTermination::Handoff(Some(b), None) }),
        spec_run_events(
            head,
            PollerState::FetchBlock,
            seq![PollerEvent::BlockFetched(Ok(MaybePendingBlock::Full(b)))] + rest,
        ) == Seq::<SyncEvent>::empty(),
        spec_run_state(
            head,
            PollerState::FetchBlock,
            seq![PollerEvent::BlockFetched(Ok(MaybePendingBlock::Full(b)))] + rest,
        ) == (PollerState::Terminated { outcome: PollTermination::Handoff(Some(b), None) }),
{
    let script = seq![PollerEvent::BlockFetched(Ok(MaybePendingBlock::Full(b)))] + rest;
    assert(script.first() == PollerEvent::BlockFetched(Ok(MaybePendingBlock::Full(b))));
    assert(script.drop_first() =~= rest);
    lemma_terminal_absorbs(head, PollTermination::Handoff(Some(b), None), rest);
}

/// A pending block whose declared parent is not the head breaks continuity:
/// the session ends with an empty hand-off and publishes nothing, on this
/// cycle or ever after.
pub proof fn lemma_block_discontinuity(head: Head, p: PendingBlock, rest: Seq<PollerEvent>)
    requires
        p.parent_hash != head.block_hash,
    ensures
        spec_step(
            head,
            PollerState::FetchBlock,
            PollerEvent::BlockFetched(Ok(MaybePendingBlock::Pending(p))),
        ) == (PollerState::Terminated { outcome: PollTermination::Handoff(None, None) }),
        spec_run_events(
            head,
            PollerState::FetchBlock,
            seq![PollerEvent::BlockFetched(Ok(MaybePendingBlock::Pending(p)))] + rest,
        ) == Seq::<SyncEvent>::empty(),
        spec_run_state(
            head,
            PollerState::FetchBlock,
            seq![PollerEvent::BlockFetched(Ok(MaybePendingBlock::Pending(p)))] + rest,
        ) == (PollerState::Terminated { outcome: PollTermination::Handoff(None, None) }),
{
    let script = seq![PollerEvent::BlockFetched(Ok(MaybePendingBlock::Pending(p)))] + rest;
    assert(script.first() == PollerEvent::BlockFetched(Ok(MaybePendingBlock::Pending(p))));
    assert(script.drop_first() =~= rest);
    lemma_terminal_absorbs(head, PollTermination::Handoff(None, None), rest);
}

/// A pending state update whose claimed parent commitment is not the head's
/// breaks continuity even under a continuity-satisfying pending block: the
/// session ends with an empty hand-off and publishes nothing.
pub proof fn lemma_state_discontinuity(
    head: Head,
    p: PendingBlock,
    u: StateUpdate,
    rest: Seq<PollerEvent>,
)
    requires
        p.parent_hash == head.block_hash,
        u.spec_is_pending(),
        u.parent_state_commitment != head.state_commitment,
    ensures
        spec_run_events(
            head,
            PollerState::FetchBlock,
            seq![
                PollerEvent::BlockFetched(Ok(MaybePendingBlock::Pending(p))),
                PollerEvent::StateUpdateFetched(Ok(u)),
            ] + rest,
        ) == Seq::<SyncEvent>::empty(),
        spec_run_state(
            head,
            PollerState::FetchBlock,
            seq![
                PollerEvent::BlockFetched(Ok(MaybePendingBlock::Pending(p))),
                PollerEvent::StateUpdateFetched(Ok(u)),
            ] + rest,
        ) == (PollerState::Terminated { outcome: PollTermination::Handoff(None, None) }),
{
    let script = seq![
        PollerEvent::BlockFetched(Ok(MaybePendingBlock::Pending(p))),
        PollerEvent::StateUpdateFetched(Ok(u)),
    ] + rest;
    assert(script.first() == PollerEvent::BlockFetched(Ok(MaybePendingBlock::Pending(p))));
    assert(script.drop_first() =~= seq![PollerEvent::StateUpdateFetched(Ok(u))] + rest);
    assert(script.drop_first().first() == PollerEvent::StateUpdateFetched(Ok(u)));
    assert(script.drop_first().drop_first() =~= rest);
    reveal_with_fuel(spec_run_events, 4);
    reveal_with_fuel(spec_run_state, 4);
    lemma_terminal_absorbs(head, PollTermination::Handoff(None, None), rest);
}

/// A timed-out state-update query is a soft exit: the session ends with the
/// same empty hand-off as a discontinuity — not with an error — and
/// publishes nothing.
pub proof fn lemma_timeout_soft_exit(head: Head, p: PendingBlock, rest: Seq<PollerEvent>)
    requires
        p.parent_hash == head.block_hash,
    ensures
        spec_step(head, PollerState::FetchStateUpdate { block: p }, PollerEvent::StateUpdateTimedOut)
            == (PollerState::Terminated { outcome: PollTermination::Handoff(None, None) }),
        spec_run_events(
            head,
            PollerState::FetchBlock,
            seq![
                PollerEvent::BlockFetched(Ok(MaybePendingBlock::Pending(p))),
                PollerEvent::StateUpdateTimedOut,
            ] + rest,
        ) == Seq::<SyncEvent>::empty(),
        spec_run_state(
            head,
            PollerState::FetchBlock,
            seq![
                PollerEvent::BlockFetched(Ok(MaybePendingBlock::Pending(p))),
                PollerEvent::StateUpdateTimedOut,
            ] + rest,
        ) == (PollerState::Terminated { outcome: PollTermination::Handoff(None, None) }),
{
    let script = seq![
        PollerEvent::BlockFetched(Ok(MaybePendingBlock::Pending(p))),
        PollerEvent::StateUpdateTimedOut,
    ] + rest;
    assert(script.first() == PollerEvent::BlockFetched(Ok(MaybePendingBlock::Pending(p))));
    assert(script.drop_first() =~= seq![PollerEvent::StateUpdateTimedOut] + rest);
    assert(script.drop_first().first() == PollerEvent::StateUpdateTimedOut);
    assert(script.drop_first().drop_first() =~= rest);
    reveal_with_fuel(spec_run_events, 4);
    reveal_with_fuel(spec_run_state, 4);
    lemma_terminal_absorbs(head, PollTermination::Handoff(None, None), rest);
}

/// Extension: under both continuity links, successful class resolution and
/// a delivered publish, one cycle emits exactly the paired event — the
/// block and its matching state update, atomically — and the loop goes on
/// polling against the same head.
pub proof fn lemma_pending_extension_cycle(head: Head, p: PendingBlock, u: StateUpdate)
    requires
        p.parent_hash == head.block_hash,
        u.spec_is_pending(),
        u.parent_state_commitment == head.state_commitment,
    ensures
        spec_run_events(
            head,
            PollerState::FetchBlock,
            seq![
                PollerEvent::BlockFetched(Ok(MaybePendingBlock::Pending(p))),
                PollerEvent::StateUpdateFetched(Ok(u)),
                PollerEvent::ClassesResolved(Ok(())),
                PollerEvent::PublishDelivered,
                PollerEvent::SleepElapsed,
            ],
        ) == seq![SyncEvent::Pending(p, u)],
        spec_run_state(
            head,
            PollerState::FetchBlock,
            seq![
                PollerEvent::BlockFetched(Ok(MaybePendingBlock::Pending(p))),
                PollerEvent::StateUpdateFetched(Ok(u)),
                PollerEvent::ClassesResolved(Ok(())),
                PollerEvent::PublishDelivered,
                PollerEvent::SleepElapsed,
            ],
        ) == PollerState::FetchBlock,
{
    let script = seq![
        PollerEvent::BlockFetched(Ok(MaybePendingBlock::Pending(p))),
        PollerEvent::StateUpdateFetched(Ok(u)),
        PollerEvent::ClassesResolved(Ok(())),
        PollerEvent::PublishDelivered,
        PollerEvent::SleepElapsed,
    ];
    let s2 = script.drop_first();
    let s3 = s2.drop_first();
    let s4 = s3.drop_first();
    let s5 = s4.drop_first();
    assert(s2 =~= seq![
        PollerEvent::StateUpdateFetched(Ok(u)),
        PollerEvent::ClassesResolved(Ok(())),
        PollerEvent::PublishDelivered,
        PollerEvent::SleepElapsed,
    ]);
    assert(s3 =~= seq![
        PollerEvent::ClassesResolved(Ok(())),
        PollerEvent::PublishDelivered,
        PollerEvent::SleepElapsed,
    ]);
    assert(s4 =~= seq![PollerEvent::PublishDelivered, PollerEvent::SleepElapsed]);
    assert(s5 =~= seq![PollerEvent::SleepElapsed]);
    assert(s5.drop_first() =~= Seq::<PollerEvent>::empty());
    reveal_with_fuel(spec_run_events, 7);
    reveal_with_fuel(spec_run_state, 7);
    assert(spec_run_events(head, PollerState::FetchBlock, script) =~= seq![
        SyncEvent::Pending(p, u),
    ]);
}

/// A failed class dependency download ends the session on the spot: the
/// pending pair of that cycle is never published, then or ever after.
pub proof fn lemma_failed_resolution_publishes_nothing(
    head: Head,
    p: PendingBlock,
    u: StateUpdate,
    m: String,
    rest: Seq<PollerEvent>,
)
    ensures
        spec_run_events(
            head,
            PollerState::ResolveClasses { block: p, update: u },
            seq![PollerEvent::ClassesResolved(Err(m))] + rest,
        ) == Seq::<SyncEvent>::empty(),
        spec_run_state(
            head,
            PollerState::ResolveClasses { block: p, update: u },
            seq![PollerEvent::ClassesResolved(Err(m))] + rest,
        ) == (PollerState::Terminated {
            outcome: PollTermination::Failed(PollError::ClassResolution(m)),
        }),
{
    let script = seq![PollerEvent::ClassesResolved(Err(m))] + rest;
    assert(script.first() == PollerEvent::ClassesResolved(Err(m)));
    assert(script.drop_first() =~= rest);
    lemma_terminal_absorbs(head, PollTermination::Failed(PollError::ClassResolution(m)), rest);
}

/// What continuity demands of a mid-cycle state: a retained provisional
/// block always extends the head, and a retained state update always
/// extends the head's commitment. The start of a cycle, the sleep and a
/// terminated session carry nothing.
pub open spec fn state_continuity_ok(head: Head, s: PollerState) -> bool {
    match s {
        PollerState::FetchStateUpdate { block } => block.parent_hash == head.block_hash,
        PollerState::ResolveClasses { block, update } => block.parent_hash == head.block_hash
            && update.spec_is_pending() && update.parent_state_commitment
            == head.state_commitment,
        PollerState::Publish { block, update } => block.parent_hash == head.block_hash
            && update.spec_is_pending() && update.parent_state_commitment
            == head.state_commitment,
        _ => true,
    }
}

/// Every step keeps the continuity demands: data that fails a check never
/// survives into a later phase of the cycle.
pub proof fn lemma_step_preserves_continuity(head: Head, s: PollerState, e: PollerEvent)
    requires
        state_continuity_ok(head, s),
        event_fits(s, e),
    ensures
        state_continuity_ok(head, spec_step(head, s, e)),
{
}

/// Nothing untrustworthy is ever published: whatever the session observes,
/// each published event pairs a provisional block whose parent is the
/// head's block hash with a pending state update whose claimed parent
/// commitment is the head's state commitment.
pub proof fn lemma_published_events_extend_head(
    head: Head,
    s: PollerState,
    events: Seq<PollerEvent>,
)
    requires
        state_continuity_ok(head, s),
    ensures
        forall|i: int|
            0 <= i < spec_run_events(head, s, events).len() ==> (#[trigger] spec_run_events(
                head,
                s,
                events,
            )[i] matches SyncEvent::Pending(p, u) && p.parent_hash == head.block_hash
                && u.spec_is_pending() && u.parent_state_commitment == head.state_commitment),
    decreases events.len(),
{
    if events.len() == 0 || !event_fits(s, events.first()) {
    } else {
        let e = events.first();
        lemma_step_preserves_continuity(head, s, e);
        lemma_published_events_extend_head(head, spec_step(head, s, e), events.drop_first());
        assert(forall|i: int|
            0 <= i < published_by(s, e).len() ==> (#[trigger] published_by(s, e)[i]
                matches SyncEvent::Pending(p, u) && p.parent_hash == head.block_hash
                && u.spec_is_pending() && u.parent_state_commitment == head.state_commitment));
    }
}

} // verus!
