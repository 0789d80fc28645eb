//! The run in which nothing fails: every transfer is signed, taken by the
//! node at once, and confirmed by the first receipt.

use crate::dispatcher::{
    file, first_hashed, lemma_transition_valid, poll_from, polled, take_up, transition, valid,
    EventView, Phase, Receipt, State,
};
use crate::overflow::CLEAR;
use crate::trace::run;
use crate::types::{Address, H256};
use crate::u256::{lemma_u256_of_value, pow256, u256_of, U256};
use crate::{TxMetric, STATUS_PENDING, STATUS_SUCCESS};
use vstd::prelude::*;

verus! {

/// What a worker is told of a transfer that goes through at once: it was
/// signed as `raw`, the flag is clear, the node took it under `hash`, and
/// the flag was not this worker's to release.
pub open spec fn smooth_transfer(raw: Seq<u8>, hash: H256) -> Seq<EventView> {
    seq![
        EventView::Signed(Some(raw)),
        EventView::Flag(CLEAR),
        EventView::Accepted(hash),
        EventView::Swapped(false),
    ]
}

/// What a worker is told of the first `upto` transfers where each goes
/// through at once.
pub open spec fn smooth_transfers(raws: Seq<Seq<u8>>, hashes: Seq<H256>, upto: int) -> Seq<
    EventView,
>
    decreases upto,
{
    if upto <= 0 {
        Seq::empty()
    } else {
        smooth_transfers(raws, hashes, upto - 1) + smooth_transfer(raws[upto - 1], hashes[upto - 1])
    }
}

/// A receipt that reports success.
pub open spec fn good_receipt() -> EventView {
    EventView::Receipt(Some(Receipt { status: Some(STATUS_SUCCESS) }))
}

/// `upto` receipts that report success.
pub open spec fn good_receipts(upto: int) -> Seq<EventView>
    decreases upto,
{
    if upto <= 0 {
        Seq::empty()
    } else {
        good_receipts(upto - 1).push(good_receipt())
    }
}

/// The metric of a transfer that the node took under `hash`.
pub open spec fn sent_metric(target: (Address, U256), hash: H256) -> TxMetric {
    TxMetric { to: target.0, amount: target.1, hash: Some(hash), status: STATUS_PENDING, wait: 0 }
}

/// The metric of a transfer that the node took under `hash` and that the
/// first receipt confirmed.
pub open spec fn confirmed_metric(target: (Address, U256), hash: H256) -> TxMetric {
    TxMetric { to: target.0, amount: target.1, hash: Some(hash), status: STATUS_SUCCESS, wait: 1 }
}

/// Whether `t` differs from `s` in nothing that a run is given.
pub open spec fn same_run(t: State, s: State) -> bool {
    &&& t.worker_id == s.worker_id
    &&& t.source == s.source
    &&& t.targets == s.targets
    &&& t.wait_time == s.wait_time
    &&& t.need_wait == s.need_wait
    &&& t.need_retry == s.need_retry
    &&& t.chain_id == s.chain_id
    &&& t.gas_price == s.gas_price
}

/// Whether `s` is about to sign the transfer at its index with nothing
/// known of it yet.
pub open spec fn takes_up(s: State) -> bool {
    &&& s.phase is Sign
    &&& s.index < s.targets.len()
    &&& s.metric == TxMetric::fresh(s.targets[s.index as int].0, s.targets[s.index as int].1)
}

/// Whether `t` is where a run from `s` stands once the first `k` transfers
/// went through at once: their metrics are filed with their hashes, the
/// nonce has moved up by `k`, and the next transfer is taken up; after the
/// last the receipts are waited for from the first on, or the run has
/// finished.
pub open spec fn sent_upto(t: State, s: State, hashes: Seq<H256>, k: int) -> bool {
    &&& valid(t)
    &&& same_run(t, s)
    &&& t.results.len() == k
    &&& forall|j: int| 0 <= j < k ==> #[trigger] t.results[j] == sent_metric(s.targets[j], hashes[j])
    &&& t.nonce@ == s.nonce@ + k
    &&& t.succeed == 0
    &&& if k < s.targets.len() {
        takes_up(t) && t.index == k
    } else if s.need_wait {
        t.phase is Poll && t.index == 0 && t.retry_left == s.wait_time
    } else {
        t.phase is Finished
    }
}

/// Whether `t` is where a run from `s` stands once all transfers went
/// through and the first `i` were confirmed by their first receipt.
pub open spec fn confirmed_upto(t: State, s: State, hashes: Seq<H256>, i: int) -> bool {
    &&& valid(t)
    &&& same_run(t, s)
    &&& t.results.len() == s.targets.len()
    &&& forall|j: int|
        0 <= j < i ==> #[trigger] t.results[j] == confirmed_metric(s.targets[j], hashes[j])
    &&& forall|j: int|
        i <= j < s.targets.len() ==> #[trigger] t.results[j] == sent_metric(
            s.targets[j],
            hashes[j],
        )
    &&& t.succeed == i
    &&& t.nonce@ == s.nonce@ + s.targets.len()
    &&& if i < s.targets.len() {
        t.phase is Poll && t.index == i && t.retry_left == s.wait_time
    } else {
        t.phase is Finished
    }
}

/// A run in two parts is the run of the second part from where the first
/// ends.
pub proof fn lemma_run_append(s: State, a: Seq<EventView>, b: Seq<EventView>)
    ensures
        run(s, a + b) == run(run(s, a), b),
    decreases a.len(),
{
    if a.len() == 0 {
        assert(a + b =~= b);
    } else {
        assert((a + b)[0] == a[0]);
        assert((a + b).drop_first() =~= a.drop_first() + b);
        lemma_run_append(transition(s, a[0]), a.drop_first(), b);
    }
}

/// A signature is kept for the submission.
proof fn lemma_signed(s: State, raw: Seq<u8>)
    requires
        s.phase is Sign,
    ensures
        transition(s, EventView::Signed(Some(raw))) == (State {
            raw,
            phase: Phase::PreSubmitLoad,
            ..s
        }),
{
}

/// With the flag clear the submission follows.
proof fn lemma_flag_clear(s: State)
    requires
        s.phase is PreSubmitLoad,
    ensures
        transition(s, EventView::Flag(CLEAR)) == (State { phase: Phase::Submit, ..s }),
{
}

/// A transfer that the node takes gets its hash, and the nonce moves up.
proof fn lemma_taken(s: State, hash: H256)
    requires
        s.phase is Submit,
        s.nonce@ + 1 < pow256(),
    ensures
        transition(s, EventView::Accepted(hash)) == (State {
            metric: TxMetric { hash: Some(hash), ..s.metric },
            nonce: u256_of((s.nonce@ + 1) as nat),
            phase: Phase::SubmittedRelease,
            ..s
        }),
{
}

/// After the release the metric is filed.
proof fn lemma_released(s: State, done: bool)
    requires
        s.phase is SubmittedRelease,
    ensures
        transition(s, EventView::Swapped(done)) == file(s),
{
}

/// One transfer that goes through at once is filed with its hash, and the
/// nonce moves up by one.
proof fn lemma_smooth_transfer(s: State, raw: Seq<u8>, hash: H256)
    requires
        valid(s),
        takes_up(s),
        s.nonce@ + 1 < pow256(),
    ensures
        run(s, smooth_transfer(raw, hash)) == file(
            State {
                raw,
                metric: TxMetric { hash: Some(hash), ..s.metric },
                nonce: u256_of((s.nonce@ + 1) as nat),
                phase: Phase::SubmittedRelease,
                ..s
            },
        ),
        valid(run(s, smooth_transfer(raw, hash))),
{
    let events = smooth_transfer(raw, hash);
    let s1 = State { raw, phase: Phase::PreSubmitLoad, ..s };
    let s2 = State { phase: Phase::Submit, ..s1 };
    let s3 = State {
        metric: TxMetric { hash: Some(hash), ..s.metric },
        nonce: u256_of((s.nonce@ + 1) as nat),
        phase: Phase::SubmittedRelease,
        ..s2
    };
    let s4 = file(s3);
    lemma_signed(s, raw);
    lemma_flag_clear(s1);
    lemma_taken(s2, hash);
    lemma_released(s3, false);
    lemma_run_four(s, events);
    crate::trace::lemma_run_valid(s, events);
}

/// A run of four events is four transitions.
proof fn lemma_run_four(s: State, events: Seq<EventView>)
    requires
        events.len() == 4,
    ensures
        run(s, events) == transition(
            transition(transition(transition(s, events[0]), events[1]), events[2]),
            events[3],
        ),
{
    let r1 = events.drop_first();
    let r2 = r1.drop_first();
    let r3 = r2.drop_first();
    let r4 = r3.drop_first();
    let s1 = transition(s, events[0]);
    let s2 = transition(s1, events[1]);
    let s3 = transition(s2, events[2]);
    let s4 = transition(s3, events[3]);
    assert(r1[0] == events[1] && r2[0] == events[2] && r3[0] == events[3] && r4.len() == 0);
    assert(run(s4, r4) == s4);
    assert(run(s3, r3) == s4);
    assert(run(s2, r2) == s4);
    assert(run(s1, r1) == s4);
}

/// Where all transfers go through at once, each is filed with its hash in
/// the order given, and the nonce moves up by one for each.
pub proof fn lemma_all_sent(s: State, raws: Seq<Seq<u8>>, hashes: Seq<H256>, k: int)
    requires
        valid(s),
        takes_up(s),
        s.index == 0,
        raws.len() == s.targets.len(),
        hashes.len() == s.targets.len(),
        s.nonce@ + s.targets.len() < pow256(),
        0 <= k <= s.targets.len(),
    ensures
        sent_upto(run(s, smooth_transfers(raws, hashes, k)), s, hashes, k),
    decreases k,
{
    if k == 0 {
        assert(run(s, smooth_transfers(raws, hashes, 0)) == s);
    } else {
        lemma_all_sent(s, raws, hashes, k - 1);
        let before = smooth_transfers(raws, hashes, k - 1);
        let one = smooth_transfer(raws[k - 1], hashes[k - 1]);
        let t = run(s, before);
        lemma_run_append(s, before, one);
        lemma_smooth_transfer(t, raws[k - 1], hashes[k - 1]);
        lemma_u256_of_value((t.nonce@ + 1) as nat);
        let u = run(t, one);
        assert(u == run(s, smooth_transfers(raws, hashes, k)));
        let sent = State {
            raw: raws[k - 1],
            metric: TxMetric { hash: Some(hashes[k - 1]), ..t.metric },
            nonce: u256_of((t.nonce@ + 1) as nat),
            phase: Phase::SubmittedRelease,
            ..t
        };
        let pushed = State { results: sent.results.push(sent.metric), ..sent };
        assert(u == take_up(pushed, k));
        assert(pushed.results[k - 1] == sent_metric(s.targets[k - 1], hashes[k - 1]));
        assert forall|j: int| 0 <= j < k implies #[trigger] pushed.results[j] == sent_metric(
            s.targets[j],
            hashes[j],
        ) by {
            if j < k - 1 {
                assert(pushed.results[j] == t.results[j]);
            }
        }
        if k == s.targets.len() && s.need_wait {
            assert(first_hashed(pushed.results, 0) == 0);
        }
    }
}

/// Where all transfers went through and every first receipt reports
/// success, each metric is confirmed after one second, in order.
pub proof fn lemma_all_confirmed(s: State, t: State, hashes: Seq<H256>, i: int)
    requires
        s.need_wait,
        s.targets.len() >= 1,
        hashes.len() == s.targets.len(),
        sent_upto(t, s, hashes, s.targets.len() as int),
        0 <= i <= s.targets.len(),
    ensures
        confirmed_upto(run(t, good_receipts(i)), s, hashes, i),
    decreases i,
{
    if i == 0 {
        assert(run(t, good_receipts(0)) == t);
    } else {
        lemma_all_confirmed(s, t, hashes, i - 1);
        let before = good_receipts(i - 1);
        let u = run(t, before);
        assert(good_receipts(i) =~= before + seq![good_receipt()]);
        lemma_run_append(t, before, seq![good_receipt()]);
        let one = seq![good_receipt()];
        assert(one.drop_first().len() == 0);
        assert(run(u, one) == run(transition(u, good_receipt()), one.drop_first()));
        assert(run(transition(u, good_receipt()), one.drop_first()) == transition(
            u,
            good_receipt(),
        ));
        lemma_transition_valid(u, good_receipt());
        let v = transition(u, good_receipt());
        assert(v == polled(u, Some(Receipt { status: Some(STATUS_SUCCESS) })));
        let metric = confirmed_metric(s.targets[i - 1], hashes[i - 1]);
        let updated = State {
            results: u.results.update(i - 1, metric),
            succeed: (u.succeed + 1) as u64,
            ..u
        };
        assert(u.results[i - 1] == sent_metric(s.targets[i - 1], hashes[i - 1]));
        assert(v == poll_from(updated, i));
        if i < s.targets.len() {
            assert(updated.results[i] == sent_metric(s.targets[i], hashes[i]));
            assert(first_hashed(updated.results, i) == i);
        }
        assert forall|j: int| 0 <= j < i implies #[trigger] v.results[j] == confirmed_metric(
            s.targets[j],
            hashes[j],
        ) by {
            if j < i - 1 {
                assert(v.results[j] == u.results[j]);
            }
        }
        assert forall|j: int| i <= j < s.targets.len() implies #[trigger] v.results[j]
            == sent_metric(s.targets[j], hashes[j]) by {
            assert(v.results[j] == u.results[j]);
        }
    }
}

/// The events of the run in which nothing fails: every transfer goes
/// through at once and, where receipts are waited for, every first receipt
/// reports success.
pub open spec fn smooth_events(s: State, raws: Seq<Seq<u8>>, hashes: Seq<H256>) -> Seq<
    EventView,
> {
    if s.need_wait {
        smooth_transfers(raws, hashes, s.targets.len() as int) + good_receipts(
            s.targets.len() as int,
        )
    } else {
        smooth_transfers(raws, hashes, s.targets.len() as int)
    }
}

/// The metric of the transfer at place `j` after the run in which nothing
/// fails.
pub open spec fn smooth_metric(s: State, hashes: Seq<H256>, j: int) -> TxMetric {
    if s.need_wait {
        confirmed_metric(s.targets[j], hashes[j])
    } else {
        sent_metric(s.targets[j], hashes[j])
    }
}

/// Where nothing fails, there is one metric for each transfer, in the order
/// given, each with the hash under which the node took it; the nonce has
/// moved up by one for each. Where receipts are waited for, each is
/// confirmed by its first receipt and all count as succeeded; where not,
/// none does.
pub proof fn lemma_smooth_run(s: State, raws: Seq<Seq<u8>>, hashes: Seq<H256>)
    requires
        valid(s),
        takes_up(s),
        s.index == 0,
        raws.len() == s.targets.len(),
        hashes.len() == s.targets.len(),
        s.nonce@ + s.targets.len() < pow256(),
    ensures
        run(s, smooth_events(s, raws, hashes)).phase is Finished,
        valid(run(s, smooth_events(s, raws, hashes))),
        run(s, smooth_events(s, raws, hashes)).results.len() == s.targets.len(),
        run(s, smooth_events(s, raws, hashes)).nonce@ == s.nonce@ + s.targets.len(),
        s.need_wait ==> run(s, smooth_events(s, raws, hashes)).succeed == s.targets.len(),
        !s.need_wait ==> run(s, smooth_events(s, raws, hashes)).succeed == 0,
        forall|j: int|
            0 <= j < s.targets.len() ==> #[trigger] run(
                s,
                smooth_events(s, raws, hashes),
            ).results[j] == smooth_metric(s, hashes, j),
{
    let n = s.targets.len() as int;
    let sending = smooth_transfers(raws, hashes, n);
    lemma_all_sent(s, raws, hashes, n);
    let t = run(s, sending);
    if s.need_wait {
        lemma_all_confirmed(s, t, hashes, n);
        lemma_run_append(s, sending, good_receipts(n));
        let u = run(t, good_receipts(n));
        assert(u == run(s, smooth_events(s, raws, hashes)));
        assert(confirmed_upto(u, s, hashes, n));
    } else {
        assert(sent_upto(t, s, hashes, n));
    }
}

/// Whether none of `events` is a report of the pending nonce.
pub open spec fn no_report(events: Seq<EventView>) -> bool {
    forall|k: int| 0 <= k < events.len() ==> !(#[trigger] events[k] matches EventView::Nonce(Some(_)))
}

proof fn lemma_transfers_report_nothing(raws: Seq<Seq<u8>>, hashes: Seq<H256>, upto: int)
    ensures
        no_report(smooth_transfers(raws, hashes, upto)),
    decreases upto,
{
    if upto > 0 {
        lemma_transfers_report_nothing(raws, hashes, upto - 1);
        let before = smooth_transfers(raws, hashes, upto - 1);
        let one = smooth_transfer(raws[upto - 1], hashes[upto - 1]);
        let all = smooth_transfers(raws, hashes, upto);
        assert forall|k: int| 0 <= k < all.len() implies !(#[trigger] all[k] matches EventView::Nonce(
            Some(_),
        )) by {
            if k < before.len() {
                assert(all[k] == before[k]);
            } else {
                assert(all[k] == one[k - before.len()]);
            }
        }
    }
}

proof fn lemma_receipts_report_nothing(upto: int)
    ensures
        no_report(good_receipts(upto)),
    decreases upto,
{
    if upto > 0 {
        lemma_receipts_report_nothing(upto - 1);
        let before = good_receipts(upto - 1);
        let all = good_receipts(upto);
        assert forall|k: int| 0 <= k < all.len() implies !(#[trigger] all[k] matches EventView::Nonce(
            Some(_),
        )) by {
            if k < before.len() {
                assert(all[k] == before[k]);
            }
        }
    }
}

/// Where nothing fails, the transactions that the node takes carry the
/// nonce at the start, the next, and so on, without a gap.
pub proof fn lemma_smooth_nonces(s: State, raws: Seq<Seq<u8>>, hashes: Seq<H256>, signed: nat)
    requires
        takes_up(s),
    ensures
        forall|i: int|
            0 <= i < crate::trace::taken_nonces(s, signed, smooth_events(s, raws, hashes)).len()
                ==> #[trigger] crate::trace::taken_nonces(
                s,
                signed,
                smooth_events(s, raws, hashes),
            )[i] == s.nonce@ + i,
{
    let n = s.targets.len() as int;
    let events = smooth_events(s, raws, hashes);
    let sending = smooth_transfers(raws, hashes, n);
    lemma_transfers_report_nothing(raws, hashes, n);
    lemma_receipts_report_nothing(n);
    assert forall|k: int| 0 <= k < events.len() implies !(#[trigger] events[k] matches EventView::Nonce(
        Some(_),
    )) by {
        if s.need_wait {
            if k < sending.len() {
                assert(events[k] == sending[k]);
            } else {
                assert(events[k] == good_receipts(n)[k - sending.len()]);
            }
        }
    }
    crate::trace::lemma_silent_is_truthful(s, s.nonce@, 0, events);
    crate::trace::lemma_nonces_count_up(s, signed, s.nonce@, 0, events);
}

} // verus!
