//! A dispatcher and the overflow flag together: what one worker does to the
//! flag while other workers swap it as well.

use crate::dispatcher::{pending, transition, valid, ActionView, EventView, Fault, Phase, State};
use crate::overflow::{flag_after, FlagOp, CLEAR};
use vstd::prelude::*;

verus! {

/// What happens next to a worker and the flag.
pub enum Move {
    /// The worker is told how its action went.
    Own(EventView),
    /// Another worker swaps the flag.
    Other(FlagOp),
}

/// The worker that does `op`.
pub open spec fn worker_of(op: FlagOp) -> usize {
    match op {
        FlagOp::Acquire(id) => id,
        FlagOp::Release(id) => id,
    }
}

/// Whether `event` tells the worker in state `s` truly of the flag, which
/// reads `flag`: a value read is the flag's, and a swap took place exactly
/// where the flag read what the swap expects.
pub open spec fn tells_truly(s: State, flag: usize, event: EventView) -> bool {
    match event {
        EventView::Flag(f) => f == flag,
        EventView::Swapped(done) => match pending(s) {
            ActionView::AcquireFlag => done == (flag == CLEAR),
            ActionView::ReleaseFlag => done == (flag == s.worker_id),
            _ => true,
        },
        _ => true,
    }
}

/// Whether `step` may happen to the worker in state `s` while the flag
/// reads `flag`: its own events tell truly of the flag, and another
/// worker's swap is that of a worker with another id, which is not zero.
pub open spec fn fair(s: State, flag: usize, step: Move) -> bool {
    match step {
        Move::Own(event) => tells_truly(s, flag, event),
        Move::Other(op) => worker_of(op) != s.worker_id && worker_of(op) != CLEAR,
    }
}

/// The flag after `step`: the worker's own swap that took place changes it
/// as the swap says, and so does another worker's.
pub open spec fn flag_next(s: State, flag: usize, step: Move) -> usize {
    match step {
        Move::Own(EventView::Swapped(true)) => match pending(s) {
            ActionView::AcquireFlag => flag_after(flag, FlagOp::Acquire(s.worker_id)),
            ActionView::ReleaseFlag => flag_after(flag, FlagOp::Release(s.worker_id)),
            _ => flag,
        },
        Move::Own(_) => flag,
        Move::Other(op) => flag_after(flag, op),
    }
}

/// The worker's state after `step`: that after its own event; another
/// worker's swap leaves it as it is.
pub open spec fn state_next(s: State, step: Move) -> State {
    match step {
        Move::Own(event) => transition(s, event),
        Move::Other(_) => s,
    }
}

/// Whether all of `steps` may happen in order, from state `s` and the flag
/// reading `flag`.
pub open spec fn all_fair(s: State, flag: usize, steps: Seq<Move>) -> bool
    decreases steps.len(),
{
    steps.len() == 0 || {
        &&& fair(s, flag, steps[0])
        &&& all_fair(
            state_next(s, steps[0]),
            flag_next(s, flag, steps[0]),
            steps.drop_first(),
        )
    }
}

/// The worker's state and the flag after all of `steps`.
pub open spec fn after_steps(s: State, flag: usize, steps: Seq<Move>) -> (State, usize)
    decreases steps.len(),
{
    if steps.len() == 0 {
        (s, flag)
    } else {
        after_steps(
            state_next(s, steps[0]),
            flag_next(s, flag, steps[0]),
            steps.drop_first(),
        )
    }
}

/// Whether the worker is in its round of probing in `phase`: it has found
/// the flag to be its own and has not released it yet.
pub open spec fn probing(phase: Phase) -> bool {
    phase is ProbeRefresh || phase is ProbeSign || phase is ProbeSubmit || phase is ProbeRelease
        || phase is ProbeSleep
}

/// Whether the flag may read the worker's id in `phase`.
pub open spec fn may_hold(phase: Phase) -> bool {
    probing(phase) || phase is PostSyncLoad || phase is ProbeLoad || phase
        == Phase::Faulted(Fault::NonceExhausted)
}

/// Whether the worker and the flag agree: while the worker probes the flag
/// reads its id; the flag reads its id only from the swap that made it the
/// probe until its release; and the probe has not been lost.
pub open spec fn agree(s: State, flag: usize) -> bool {
    &&& probing(s.phase) ==> flag == s.worker_id
    &&& flag == s.worker_id ==> may_hold(s.phase)
    &&& s.phase != Phase::Faulted(Fault::ProbeLost)
}

/// One fair step keeps worker and flag in agreement, and changes the flag
/// on the worker's side only by a swap from clear to its id or from its id
/// to clear.
pub proof fn lemma_step_agrees(s: State, flag: usize, step: Move)
    requires
        valid(s),
        agree(s, flag),
        fair(s, flag, step),
    ensures
        valid(state_next(s, step)),
        state_next(s, step).worker_id == s.worker_id,
        agree(state_next(s, step), flag_next(s, flag, step)),
        step is Own && flag_next(s, flag, step) != flag ==> (flag == CLEAR && flag_next(
            s,
            flag,
            step,
        ) == s.worker_id) || (flag == s.worker_id && flag_next(s, flag, step) == CLEAR),
{
    match step {
        Move::Own(event) => {
            crate::dispatcher::lemma_transition_valid(s, event);
            lemma_own_step(s, flag, event);
        },
        Move::Other(op) => {},
    }
}

proof fn lemma_own_step(s: State, flag: usize, event: EventView)
    requires
        valid(s),
        agree(s, flag),
        tells_truly(s, flag, event),
    ensures
        transition(s, event).worker_id == s.worker_id,
        agree(transition(s, event), flag_next(s, flag, Move::Own(event))),
{
    lemma_filed_phase(s);
    match s.phase {
        Phase::SignFailedRefresh | Phase::RetryFailedRefresh => {
            if let EventView::Nonce(v) = event {
                lemma_filed_phase(State { nonce: crate::nonce::refreshed(s.nonce, v), ..s });
            }
        },
        Phase::RetrySubmit => {
            if let EventView::Accepted(hash) = event {
                lemma_filed_phase(
                    crate::dispatcher::accepted(
                        State { last_err_cnt: 0, ..s },
                        hash,
                        Phase::RetrySubmit,
                    ),
                );
            }
        },
        _ => {},
    }
}

/// Filing the metric in hand leads to the next signature, to the receipts
/// or to the end, and leaves the worker's id alone.
proof fn lemma_filed_phase(s: State)
    ensures
        crate::dispatcher::file(s).worker_id == s.worker_id,
        crate::dispatcher::file(s).phase is Sign || crate::dispatcher::file(s).phase is Poll
            || crate::dispatcher::file(s).phase is Finished,
{
}

/// Whatever the other workers do to the flag, a worker that has finished or
/// that was skipped does not hold the flag, and a probe is never lost: the
/// worker that probes finds the flag to be its own when it releases it.
pub proof fn lemma_flag_discipline(s: State, flag: usize, steps: Seq<Move>)
    requires
        valid(s),
        agree(s, flag),
        all_fair(s, flag, steps),
    ensures
        ({
            let (t, f) = after_steps(s, flag, steps);
            &&& valid(t)
            &&& agree(t, f)
            &&& t.phase is Finished || t.phase is Skipped ==> f != t.worker_id
            &&& t.phase != Phase::Faulted(Fault::ProbeLost)
        }),
    decreases steps.len(),
{
    if steps.len() > 0 {
        lemma_step_agrees(s, flag, steps[0]);
        lemma_flag_discipline(
            state_next(s, steps[0]),
            flag_next(s, flag, steps[0]),
            steps.drop_first(),
        );
    }
}

/// A dispatcher that starts while the flag does not read its id agrees
/// with the flag.
pub proof fn lemma_start_agrees(s: State, flag: usize)
    requires
        s.phase is FetchChainId,
        flag != s.worker_id,
    ensures
        agree(s, flag),
{
}

} // verus!
