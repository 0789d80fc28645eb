//! Runs of a dispatcher, and the nonces that a node takes during one.

use crate::dispatcher::{
    confirmed, initial, lemma_transition_valid, none_confirmed, pending, transition, valid,
    ActionView, EventView, Phase, State,
};
use crate::STATUS_SUCCESS;
use crate::types::Address;
use crate::u256::{lemma_u256_of_value, pow256, U256};
use vstd::prelude::*;

verus! {

/// The state after all of `events`, in order.
pub open spec fn run(s: State, events: Seq<EventView>) -> State
    decreases events.len(),
{
    if events.len() == 0 {
        s
    } else {
        run(transition(s, events[0]), events.drop_first())
    }
}

/// A run keeps what holds of every state, and changes neither the
/// transfers to make nor whether receipts are waited for.
pub proof fn lemma_run_valid(s: State, events: Seq<EventView>)
    requires
        valid(s),
    ensures
        valid(run(s, events)),
        run(s, events).targets == s.targets,
        run(s, events).need_wait == s.need_wait,
        run(s, events).need_retry == s.need_retry,
        run(s, events).source == s.source,
    decreases events.len(),
{
    if events.len() > 0 {
        lemma_transition_valid(s, events[0]);
        lemma_run_valid(transition(s, events[0]), events.drop_first());
    }
}

/// One more transfer counts as confirmed only when a receipt with status 1
/// comes for it while receipts are waited for; nothing else changes the
/// count.
pub proof fn lemma_success_by_receipt(s: State, event: EventView)
    requires
        valid(s),
    ensures
        transition(s, event).succeed == s.succeed || {
            &&& transition(s, event).succeed == s.succeed + 1
            &&& s.need_wait
            &&& s.phase is Poll
            &&& event matches EventView::Receipt(Some(r))
            &&& r.status == Some(STATUS_SUCCESS)
            &&& s.results[s.index as int].hash is Some
        },
{
}

/// Whatever happens, a metric has status 1 only with a hash and only where
/// receipts are waited for; where they are not, no transfer counts as
/// confirmed. The count of those confirmed is never above the number of
/// metrics.
pub proof fn lemma_success_needs_receipt(s: State, events: Seq<EventView>)
    requires
        valid(s),
    ensures
        ({
            let t = run(s, events);
            &&& forall|i: int|
                0 <= i < t.results.len() && (#[trigger] t.results[i]).status == STATUS_SUCCESS
                    ==> s.need_wait && t.results[i].hash is Some
            &&& !s.need_wait ==> t.succeed == 0 && none_confirmed(t.results)
            &&& t.succeed <= t.results.len()
            &&& t.phase is Finished ==> t.succeed == confirmed(t.results, t.results.len() as int)
        }),
{
    lemma_run_valid(s, events);
    let t = run(s, events);
    assert forall|i: int|
        0 <= i < t.results.len() && (#[trigger] t.results[i]).status
            == STATUS_SUCCESS implies s.need_wait && t.results[i].hash is Some by {
        assert(crate::dispatcher::metric_of(t.results[i], t.targets[i], t.wait_time));
    }
}

/// Whether a transaction is on its way to the node in `phase`.
pub open spec fn submitting(phase: Phase) -> bool {
    phase is Submit || phase is ProbeSubmit || phase is RetrySubmit
}

/// Whether `event` in state `s` says that the node took a transaction.
pub open spec fn takes(s: State, event: EventView) -> bool {
    submitting(s.phase) && event is Accepted
}

/// Whether the pending nonce is asked for again in `phase`, after the first
/// time.
pub open spec fn asks_again(phase: Phase) -> bool {
    phase is SignFailedRefresh || phase is NonceRefusedRefresh || phase is ProbeRefresh
        || phase is RetryRefresh || phase is RetryFailedRefresh
}

/// The nonce of the signature last asked for: that of the signature asked
/// for in `s`, or else `before`.
pub open spec fn signed_nonce(s: State, before: nat) -> nat {
    match pending(s) {
        ActionView::Sign(p) => p.nonce@,
        _ => before,
    }
}

/// The nonces of the transactions that the node took during `events`, in
/// order. Each is the nonce of the signature last asked for before the node
/// took it; `signed` is that nonce at the start.
pub open spec fn taken_nonces(s: State, signed: nat, events: Seq<EventView>) -> Seq<nat>
    decreases events.len(),
{
    if events.len() == 0 {
        Seq::empty()
    } else {
        let now = signed_nonce(s, signed);
        let rest = taken_nonces(transition(s, events[0]), now, events.drop_first());
        if takes(s, events[0]) {
            seq![now] + rest
        } else {
            rest
        }
    }
}

/// Whether the node reports the source's pending nonce truly during
/// `events`: asked again after it took `taken` transactions since the first
/// nonce `first`, it reports `first + taken` or nothing.
pub open spec fn truthful(s: State, first: nat, taken: nat, events: Seq<EventView>) -> bool
    decreases events.len(),
{
    events.len() == 0 || {
        let e = events[0];
        &&& (asks_again(s.phase) ==> (e matches EventView::Nonce(Some(n)) ==> n@ == first + taken))
        &&& truthful(
            transition(s, e),
            first,
            if takes(s, e) {
                taken + 1
            } else {
                taken
            },
            events.drop_first(),
        )
    }
}

/// Whether a signed transaction is kept for a submission in `phase`.
pub open spec fn holds_signed(phase: Phase) -> bool {
    phase is PreSubmitLoad || phase is PreSubmitSleep || submitting(phase)
}

/// Whether the tracked nonce is the first nonce plus the transactions that
/// the node took, and a signature that is kept carries it.
pub open spec fn in_step(s: State, signed: nat, first: nat, taken: nat) -> bool {
    s.phase is Faulted || s.phase is Finished || s.phase is Skipped || {
        &&& s.nonce@ == first + taken
        &&& holds_signed(s.phase) ==> signed == s.nonce@
    }
}

/// Whether the dispatcher has its first nonce in `phase`.
pub open spec fn started(phase: Phase) -> bool {
    !(phase is FetchChainId || phase is FetchGasPrice || phase is FetchNonce)
}

/// Whether the event `e` in state `s` keeps the tracked nonce in step, and
/// a transaction that the node takes with it carries the first nonce plus
/// the number taken before.
pub open spec fn keeps_step(s: State, signed: nat, first: nat, taken: nat, e: EventView) -> bool {
    &&& takes(s, e) ==> signed_nonce(s, signed) == first + taken
    &&& in_step(
        transition(s, e),
        signed_nonce(s, signed),
        first,
        if takes(s, e) {
            taken + 1
        } else {
            taken
        },
    )
    &&& started(transition(s, e).phase)
}

/// Whether the event `e` may come in state `s` from a truthful node, with
/// the tracked nonce in step.
pub open spec fn may_step(s: State, signed: nat, first: nat, taken: nat, e: EventView) -> bool {
    &&& in_step(s, signed, first, taken)
    &&& started(s.phase)
    &&& asks_again(s.phase) ==> (e matches EventView::Nonce(Some(n)) ==> n@ == first + taken)
}

proof fn lemma_step_plain(s: State, signed: nat, first: nat, taken: nat, e: EventView)
    requires
        may_step(s, signed, first, taken, e),
        s.phase is Sign || s.phase is PreSubmitLoad || s.phase is PreSubmitSleep
            || s.phase is Acquire || s.phase is PostSyncLoad || s.phase is PostSyncSleep
            || s.phase is ProbeRefresh || s.phase is ProbeSign || s.phase is ProbeSleep
            || s.phase is RetrySleep || s.phase is RetryRefresh || s.phase is RetrySign
            || s.phase is NonceRefusedRefresh || s.phase is Finished || s.phase is Skipped
            || s.phase is Faulted,
    ensures
        keeps_step(s, signed, first, taken, e),
{
}

proof fn lemma_step_taken(s: State, signed: nat, first: nat, taken: nat, e: EventView)
    requires
        may_step(s, signed, first, taken, e),
        s.phase is Submit || s.phase is ProbeSubmit,
    ensures
        keeps_step(s, signed, first, taken, e),
{
    if s.nonce@ + 1 < pow256() {
        lemma_u256_of_value((s.nonce@ + 1) as nat);
    }
}

proof fn lemma_step_filed(s: State, signed: nat, first: nat, taken: nat, e: EventView)
    requires
        may_step(s, signed, first, taken, e),
        s.phase is SubmittedRelease || s.phase is ProbeRelease || s.phase is ProbeLoad
            || s.phase is SignFailedRefresh || s.phase is RetryFailedRefresh,
    ensures
        keeps_step(s, signed, first, taken, e),
{
    lemma_file_keeps_nonce(s);
    if let EventView::Nonce(v) = e {
        lemma_file_keeps_nonce(State { nonce: crate::nonce::refreshed(s.nonce, v), ..s });
    }
}

proof fn lemma_step_retried(s: State, signed: nat, first: nat, taken: nat, e: EventView)
    requires
        may_step(s, signed, first, taken, e),
        s.phase is RetrySubmit,
    ensures
        keeps_step(s, signed, first, taken, e),
{
    if s.nonce@ + 1 < pow256() {
        lemma_u256_of_value((s.nonce@ + 1) as nat);
    }
    if let EventView::Accepted(hash) = e {
        lemma_file_keeps_nonce(
            crate::dispatcher::accepted(State { last_err_cnt: 0, ..s }, hash, Phase::RetrySubmit),
        );
    }
}

proof fn lemma_step_polled(s: State, signed: nat, first: nat, taken: nat, e: EventView)
    requires
        may_step(s, signed, first, taken, e),
        s.phase is Poll || s.phase is PollSleep,
    ensures
        keeps_step(s, signed, first, taken, e),
{
    lemma_polled_ends(s, e);
}

/// One event keeps the tracked nonce in step with a truthful node, and a
/// transaction that the node takes carries the first nonce plus the number
/// taken before.
proof fn lemma_step(s: State, signed: nat, first: nat, taken: nat, e: EventView)
    requires
        in_step(s, signed, first, taken),
        !(s.phase is FetchChainId || s.phase is FetchGasPrice || s.phase is FetchNonce),
        asks_again(s.phase) ==> (e matches EventView::Nonce(Some(n)) ==> n@ == first + taken),
    ensures
        takes(s, e) ==> signed_nonce(s, signed) == first + taken,
        in_step(
            transition(s, e),
            signed_nonce(s, signed),
            first,
            if takes(s, e) {
                taken + 1
            } else {
                taken
            },
        ),
        !(transition(s, e).phase is FetchChainId || transition(s, e).phase is FetchGasPrice
            || transition(s, e).phase is FetchNonce),
{
    match s.phase {
        Phase::Submit | Phase::ProbeSubmit => {
            lemma_step_taken(s, signed, first, taken, e);
        },
        Phase::SubmittedRelease
        | Phase::ProbeRelease
        | Phase::ProbeLoad
        | Phase::SignFailedRefresh
        | Phase::RetryFailedRefresh => {
            lemma_step_filed(s, signed, first, taken, e);
        },
        Phase::RetrySubmit => {
            lemma_step_retried(s, signed, first, taken, e);
        },
        Phase::Poll | Phase::PollSleep => {
            lemma_step_polled(s, signed, first, taken, e);
        },
        _ => {
            lemma_step_plain(s, signed, first, taken, e);
        },
    }
}

/// Filing the metric in hand leaves the nonce alone and leads to the next
/// signature, to the receipts or to the end.
proof fn lemma_file_keeps_nonce(s: State)
    ensures
        crate::dispatcher::file(s).nonce == s.nonce,
        crate::dispatcher::file(s).phase is Sign || crate::dispatcher::file(s).phase is Poll
            || crate::dispatcher::file(s).phase is Finished,
{
}

/// While receipts are waited for, no transaction is signed or submitted.
proof fn lemma_polled_ends(s: State, e: EventView)
    requires
        s.phase is Poll || s.phase is PollSleep,
    ensures
        transition(s, e).phase is Poll || transition(s, e).phase is PollSleep || transition(
            s,
            e,
        ).phase is Finished,
        transition(s, e).nonce == s.nonce,
{
}

/// Against a truthful node, the nonces of the transactions that the node
/// takes count up one by one: from a state in which the tracked nonce is
/// `first + taken`, the next transaction taken carries `first + taken`, the
/// one after it `first + taken + 1`, and so on, whatever fails in between.
pub proof fn lemma_nonces_count_up(
    s: State,
    signed: nat,
    first: nat,
    taken: nat,
    events: Seq<EventView>,
)
    requires
        !(s.phase is FetchChainId || s.phase is FetchGasPrice || s.phase is FetchNonce),
        in_step(s, signed, first, taken),
        truthful(s, first, taken, events),
    ensures
        forall|i: int|
            0 <= i < taken_nonces(s, signed, events).len() ==> #[trigger] taken_nonces(
                s,
                signed,
                events,
            )[i] == first + taken + i,
    decreases events.len(),
{
    if events.len() > 0 {
        let e = events[0];
        let t = transition(s, e);
        let now = signed_nonce(s, signed);
        let more = if takes(s, e) {
            taken + 1
        } else {
            taken
        };
        lemma_step(s, signed, first, taken, e);
        lemma_nonces_count_up(t, now, first, more, events.drop_first());
        let rest = taken_nonces(t, now, events.drop_first());
        let all = taken_nonces(s, signed, events);
        assert forall|i: int| 0 <= i < all.len() implies #[trigger] all[i] == first + taken
            + i by {
            if takes(s, e) {
                if i > 0 {
                    assert(all[i] == rest[i - 1]);
                }
            }
        }
    }
}

/// A node that is never asked again, or never answers, reports nothing
/// untrue.
pub proof fn lemma_silent_is_truthful(s: State, first: nat, taken: nat, events: Seq<EventView>)
    requires
        forall|k: int| 0 <= k < events.len() ==> !(#[trigger] events[k] matches EventView::Nonce(
            Some(_),
        )),
    ensures
        truthful(s, first, taken, events),
    decreases events.len(),
{
    if events.len() > 0 {
        let rest = events.drop_first();
        assert forall|k: int| 0 <= k < rest.len() implies !(#[trigger] rest[k] matches EventView::Nonce(
            Some(_),
        )) by {
            assert(rest[k] == events[k + 1]);
        }
        let more = if takes(s, events[0]) {
            taken + 1
        } else {
            taken
        };
        lemma_silent_is_truthful(transition(s, events[0]), first, more, rest);
        assert(!(events[0] matches EventView::Nonce(Some(_))));
    }
}

/// Against a truthful node, a transaction that the node takes later carries
/// a higher nonce than any that it took before.
pub proof fn lemma_nonces_increase(
    s: State,
    signed: nat,
    first: nat,
    taken: nat,
    events: Seq<EventView>,
    i: int,
    j: int,
)
    requires
        !(s.phase is FetchChainId || s.phase is FetchGasPrice || s.phase is FetchNonce),
        in_step(s, signed, first, taken),
        truthful(s, first, taken, events),
        0 <= i < j < taken_nonces(s, signed, events).len(),
    ensures
        taken_nonces(s, signed, events)[i] < taken_nonces(s, signed, events)[j],
{
    lemma_nonces_count_up(s, signed, first, taken, events);
}

/// The answers with which a dispatcher starts: the chain id, the gas price
/// and the source's pending nonce `first`.
pub open spec fn start_with(
    chain_id: Option<u64>,
    gas_price: Option<U256>,
    first: U256,
) -> Seq<EventView> {
    seq![
        EventView::ChainId(chain_id),
        EventView::GasPrice(gas_price),
        EventView::Nonce(Some(first)),
    ]
}

/// The nonces of one source's transactions that the node takes form the
/// run `first`, `first + 1`, `first + 2`, ... without a gap, where `first` is
/// the pending nonce that the node reported when the dispatcher started and
/// the node reports truly whenever it is asked again.
pub proof fn lemma_nonces_contiguous(
    worker_id: usize,
    source: Address,
    targets: Seq<(Address, U256)>,
    wait_time: u64,
    need_wait: bool,
    need_retry: bool,
    chain_id: Option<u64>,
    gas_price: Option<U256>,
    first: U256,
    events: Seq<EventView>,
)
    requires
        truthful(
            run(
                initial(worker_id, source, targets, wait_time, need_wait, need_retry),
                start_with(chain_id, gas_price, first),
            ),
            first@,
            0,
            events,
        ),
    ensures
        ({
            let taken = taken_nonces(
                initial(worker_id, source, targets, wait_time, need_wait, need_retry),
                0,
                start_with(chain_id, gas_price, first) + events,
            );
            forall|i: int| 0 <= i < taken.len() ==> #[trigger] taken[i] == first@ + i
        }),
{
    let s0 = initial(worker_id, source, targets, wait_time, need_wait, need_retry);
    let e0 = EventView::ChainId(chain_id);
    let e1 = EventView::GasPrice(gas_price);
    let e2 = EventView::Nonce(Some(first));
    let start = start_with(chain_id, gas_price, first);
    let all = start + events;
    let s1 = transition(s0, e0);
    let s2 = transition(s1, e1);
    let s3 = transition(s2, e2);
    // The three answers of the start lead to `s3`.
    assert(start.drop_first() =~= seq![e1, e2]);
    assert(seq![e1, e2].drop_first() =~= seq![e2]);
    assert(seq![e2].drop_first() =~= Seq::<EventView>::empty());
    reveal_with_fuel(run, 4);
    assert(run(s0, start) == s3);
    // None of them is a transaction taken.
    let r1 = all.drop_first();
    let r2 = r1.drop_first();
    let r3 = r2.drop_first();
    assert(r3 =~= events);
    assert(all[0] == e0 && r1[0] == e1 && r2[0] == e2);
    reveal_with_fuel(taken_nonces, 4);
    let signed = signed_nonce(s2, signed_nonce(s1, signed_nonce(s0, 0)));
    assert(taken_nonces(s0, 0, all) == taken_nonces(s3, signed, events));
    lemma_nonces_count_up(s3, signed, first@, 0, events);
}

} // verus!
