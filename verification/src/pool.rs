//! The worker pool's schedule: rounds, and the work of each source in one.

use crate::keys::SecretKey;
use crate::types::Address;
use crate::u256::U256;
use crate::TransferMetrics;
use vstd::prelude::*;

verus! {

/// Seconds between two rounds where a run names no other value.
pub const ROUND_DELAY: u64 = 15;

/// A source account with the transfers it is to make, one in each round.
#[derive(Debug)]
pub struct Source {
    /// The key that signs.
    pub secret: SecretKey,
    /// The account's address.
    pub address: Address,
    /// Recipient and value of each transfer, in the order of the rounds.
    pub targets: Vec<(Address, U256)>,
}

/// What one worker does in one round.
#[derive(Debug)]
pub struct WorkItem {
    /// The worker's id in the overflow flag; never zero.
    pub worker_id: usize,
    /// The key that signs.
    pub secret: SecretKey,
    /// The source account.
    pub address: Address,
    /// Recipient and value of each transfer, in order.
    pub targets: Vec<(Address, U256)>,
}

/// Whether `item` is the work of the source at place `i` in round `round`:
/// the one transfer of that round, done by worker `i + 1`.
pub open spec fn is_item_of(item: WorkItem, source: Source, i: int, round: int) -> bool {
    &&& item.worker_id == i + 1
    &&& item.secret == source.secret
    &&& item.address == source.address
    &&& item.targets@ == seq![source.targets@[round]]
}

/// The work of round `round`: for each source, in order, the transfer of
/// that round.
pub fn round_items(sources: &Vec<Source>, round: usize) -> (items: Vec<WorkItem>)
    requires
        forall|i: int| 0 <= i < sources@.len() ==> round < (#[trigger] sources@[i]).targets@.len(),
    ensures
        items@.len() == sources@.len(),
        forall|i: int|
            0 <= i < sources@.len() ==> is_item_of(#[trigger] items@[i], sources@[i], i, round as int),
{
    let mut items: Vec<WorkItem> = Vec::new();
    let mut i: usize = 0;
    while i < sources.len()
        invariant
            i <= sources.len(),
            items@.len() == i,
            forall|k: int|
                0 <= k < sources@.len() ==> round < (#[trigger] sources@[k]).targets@.len(),
            forall|k: int|
                0 <= k < i ==> is_item_of(#[trigger] items@[k], sources@[k], k, round as int),
        decreases sources.len() - i,
    {
        let source = &sources[i];
        let mut targets: Vec<(Address, U256)> = Vec::new();
        targets.push(source.targets[round]);
        assert(targets@ =~= seq![source.targets@[round as int]]);
        items.push(
            WorkItem { worker_id: i + 1, secret: source.secret, address: source.address, targets },
        );
        i += 1;
    }
    items
}

/// How many workers are busy at once: one for each source, as far as the
/// pool has workers.
pub fn concurrency(sources: usize, pool_size: usize) -> (n: usize)
    ensures
        n == if sources > pool_size {
            pool_size
        } else {
            sources
        },
{
    if sources > pool_size {
        pool_size
    } else {
        sources
    }
}

/// How many transfers a run attempts: `count` for each source. None where
/// that is no `usize`.
pub fn total_transfers(sources: usize, count: u64) -> (r: Option<usize>)
    ensures
        r is Some <==> sources * count <= usize::MAX,
        r matches Some(n) ==> n == sources * count,
{
    if sources == 0 {
        return Some(0);
    }
    if count > usize::MAX as u64 {
        assert(sources * count >= count) by (nonlinear_arith)
            requires
                sources >= 1,
        ;
        return None;
    }
    sources.checked_mul(count as usize)
}

/// The transfers that `rounds` rounds attempt where each of `sources`
/// sources sends one transfer in every round.
pub open spec fn attempts_in(sources: nat, rounds: nat) -> nat
    decreases rounds,
{
    if rounds == 0 {
        0
    } else {
        attempts_in(sources, (rounds - 1) as nat) + sources
    }
}

/// A run of `count` rounds attempts `count` transfers for each source: as
/// many as [`total_transfers`] gives.
pub proof fn lemma_rounds_attempt_all(sources: nat, count: nat)
    ensures
        attempts_in(sources, count) == sources * count,
    decreases count,
{
    if count > 0 {
        let before = (count - 1) as nat;
        lemma_rounds_attempt_all(sources, before);
        assert(sources * count == sources * before + sources) by (nonlinear_arith)
            requires
                count == before + 1,
        ;
    } else {
        assert(sources * count == 0) by (nonlinear_arith)
            requires
                count == 0,
        ;
    }
}

/// The successes in the first `upto` of `metrics`, added up.
pub open spec fn successes(metrics: Seq<TransferMetrics>, upto: int) -> nat
    decreases upto,
{
    if upto <= 0 {
        0
    } else {
        successes(metrics, upto - 1) + metrics[upto - 1].succeed as nat
    }
}

/// The transfers that receipts confirmed, over all of `metrics`. None where
/// that is no `u64`.
pub fn total_succeed(metrics: &Vec<TransferMetrics>) -> (r: Option<u64>)
    ensures
        r is Some <==> successes(metrics@, metrics@.len() as int) <= u64::MAX,
        r matches Some(n) ==> n == successes(metrics@, metrics@.len() as int),
{
    let mut sum: u64 = 0;
    let mut i: usize = 0;
    while i < metrics.len()
        invariant
            i <= metrics.len(),
            sum == successes(metrics@, i as int),
        decreases metrics.len() - i,
    {
        match sum.checked_add(metrics[i].succeed) {
            Some(next) => {
                sum = next;
            },
            None => {
                proof {
                    lemma_successes_grow(metrics@, i + 1, metrics@.len() as int);
                }
                return None;
            },
        }
        i += 1;
    }
    Some(sum)
}

/// More metrics never have fewer successes.
proof fn lemma_successes_grow(metrics: Seq<TransferMetrics>, from: int, upto: int)
    requires
        0 <= from <= upto,
    ensures
        successes(metrics, from) <= successes(metrics, upto),
    decreases upto - from,
{
    if from < upto {
        lemma_successes_grow(metrics, from, upto - 1);
    }
}

/// Where a run of rounds stands.
#[derive(Clone, Copy, Debug, PartialEq, Eq)]
pub enum RoundState {
    /// The round with this number is to be run; rounds are counted from
    /// zero.
    Run(u64),
    /// The network drains after the round with this number, before the next
    /// is run.
    Pause(u64),
    /// All rounds were run.
    Finished,
}

/// What the pool does next.
#[derive(Clone, Copy, Debug, PartialEq, Eq)]
pub enum RoundStep {
    /// Run this round, counted from zero: every source sends one transfer.
    Run(u64),
    /// Let this many seconds pass.
    Sleep(u64),
    /// Nothing is left to do.
    Finished,
}

/// The rounds of a run: `count` of them, with `delay` seconds between one
/// and the next.
#[derive(Clone, Copy, Debug, PartialEq, Eq)]
pub struct Rounds {
    /// How many rounds there are.
    pub count: u64,
    /// Seconds between two rounds.
    pub delay: u64,
    /// Where the run stands.
    pub state: RoundState,
}

/// Where a run of `count` rounds stands before anything was done.
pub open spec fn first_state(count: u64) -> RoundState {
    if count == 0 {
        RoundState::Finished
    } else {
        RoundState::Run(0)
    }
}

/// Where a run of `count` rounds stands after what `state` asks for was
/// done: after a round but the last comes a pause, after a pause the next
/// round, after the last round the end.
pub open spec fn next_state(count: u64, state: RoundState) -> RoundState {
    match state {
        RoundState::Run(r) => if r + 1 < count {
            RoundState::Pause(r)
        } else {
            RoundState::Finished
        },
        RoundState::Pause(r) => if r + 1 < count {
            RoundState::Run((r + 1) as u64)
        } else {
            RoundState::Finished
        },
        RoundState::Finished => RoundState::Finished,
    }
}

/// What is to be done in `state`.
pub open spec fn step_of(delay: u64, state: RoundState) -> RoundStep {
    match state {
        RoundState::Run(r) => RoundStep::Run(r),
        RoundState::Pause(_) => RoundStep::Sleep(delay),
        RoundState::Finished => RoundStep::Finished,
    }
}

impl Rounds {
    /// A run of `count` rounds with `delay` seconds between them.
    pub fn new(count: u64, delay: u64) -> (r: Rounds)
        ensures
            r == (Rounds { count, delay, state: first_state(count) }),
    {
        Rounds {
            count,
            delay,
            state: if count == 0 {
                RoundState::Finished
            } else {
                RoundState::Run(0)
            },
        }
    }

    /// What is to be done now.
    pub fn step(&self) -> (s: RoundStep)
        ensures
            s == step_of(self.delay, self.state),
    {
        match self.state {
            RoundState::Run(r) => RoundStep::Run(r),
            RoundState::Pause(_) => RoundStep::Sleep(self.delay),
            RoundState::Finished => RoundStep::Finished,
        }
    }

    /// Takes note that what [`Rounds::step`] asked for was done.
    pub fn done(&mut self)
        ensures
            *final(self) == (Rounds { state: next_state(old(self).count, old(self).state), ..*old(self) }),
    {
        self.state = match self.state {
            RoundState::Run(r) => {
                if r < u64::MAX && r + 1 < self.count {
                    RoundState::Pause(r)
                } else {
                    RoundState::Finished
                }
            },
            RoundState::Pause(r) => {
                if r < u64::MAX && r + 1 < self.count {
                    RoundState::Run(r + 1)
                } else {
                    RoundState::Finished
                }
            },
            RoundState::Finished => RoundState::Finished,
        };
    }
}

/// The state of a run of `count` rounds after `steps` steps were done.
pub open spec fn state_after(count: u64, steps: nat) -> RoundState
    decreases steps,
{
    if steps == 0 {
        first_state(count)
    } else {
        next_state(count, state_after(count, (steps - 1) as nat))
    }
}

/// A run of `count` rounds runs its rounds in order with one pause between
/// each two: round `r` is step `2 r`, the pause after it step `2 r + 1`,
/// and after the last round, step `2 count - 2`, nothing is left.
pub proof fn lemma_round_schedule(count: u64, r: nat)
    requires
        r < count,
    ensures
        state_after(count, 2 * r) == RoundState::Run(r as u64),
        r + 1 < count ==> state_after(count, 2 * r + 1) == RoundState::Pause(r as u64),
        r + 1 == count ==> state_after(count, 2 * r + 1) == RoundState::Finished,
    decreases r,
{
    if r > 0 {
        lemma_round_schedule(count, (r - 1) as nat);
        assert(state_after(count, 2 * r) == next_state(
            count,
            state_after(count, (2 * r - 1) as nat),
        ));
        assert(2 * r - 1 == 2 * (r - 1) + 1);
    }
    assert(state_after(count, 2 * r + 1) == next_state(count, state_after(count, 2 * r)));
}

} // verus!
