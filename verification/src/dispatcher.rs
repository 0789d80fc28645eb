//! The dispatcher: what one source account does next.
//!
//! A dispatcher works through the transfers of one source in the order given.
//! It never talks to a node, signs or sleeps itself. It names the one thing
//! to do now, an [`Action`], and is told how that went, an [`Event`]; whoever
//! drives it does the work in between.

use crate::error::{Error, InternalError};
use crate::nonce::{refreshed, NonceTracker};
use crate::overflow::{must_park, should_park};
use crate::types::{Address, H256};
use crate::u256::{pow256, u256_of, U256};
use crate::{
    TransactionParameters, TransferMetrics, TxMetric, BLOCK_TIME, STATUS_PENDING,
    STATUS_RETRIED, STATUS_SIGN_FAILED, STATUS_SUCCESS,
};
use vstd::prelude::*;

verus! {

/// Seconds between two looks at the overflow flag, and between two probes.
pub const OVERFLOW_INTERVAL: u64 = 3;

/// Seconds between two requests for a receipt.
pub const RECEIPT_INTERVAL: u64 = 1;

/// Seconds of back-off for each failure in a row before a retry.
pub const RETRY_INTERVAL: u64 = 2;

/// Why a dispatcher stopped for good.
#[derive(Clone, Copy, Debug, PartialEq, Eq)]
pub enum Fault {
    /// This worker probed, its transaction was taken, and the flag was no
    /// longer its own: two workers probed at once.
    ProbeLost,
    /// The nonce cannot grow further.
    NonceExhausted,
}

/// Where a dispatcher stands.
#[derive(Clone, Copy, Debug, PartialEq, Eq)]
pub enum Phase {
    /// The chain id is being asked for.
    FetchChainId,
    /// The gas price is being asked for.
    FetchGasPrice,
    /// The source's pending nonce is being asked for.
    FetchNonce,
    /// The current transfer is being signed.
    Sign,
    /// Signing failed; the nonce is being asked for again.
    SignFailedRefresh,
    /// The flag is being read before the submission.
    PreSubmitLoad,
    /// Another worker probes; this one waits before it reads the flag again.
    PreSubmitSleep,
    /// The signed transfer is being submitted.
    Submit,
    /// The node refused the nonce; the nonce is being asked for again.
    NonceRefusedRefresh,
    /// The node took the transfer; the flag is being released in case this
    /// worker held it.
    SubmittedRelease,
    /// The mempool was full; this worker tries to become the probe.
    Acquire,
    /// The flag is being read after the mempool was full.
    PostSyncLoad,
    /// Another worker probes; this one waits before it reads the flag again.
    PostSyncSleep,
    /// The flag is being read to see whether this worker probes.
    ProbeLoad,
    /// This worker probes; the nonce is being asked for again.
    ProbeRefresh,
    /// This worker probes; the transfer is being signed again.
    ProbeSign,
    /// This worker probes; the transfer is being submitted again.
    ProbeSubmit,
    /// The probe's transfer was taken; the flag is being released.
    ProbeRelease,
    /// The probe failed; this worker waits before the next one.
    ProbeSleep,
    /// The back-off before the one retry.
    RetrySleep,
    /// The nonce is being asked for again before the retry.
    RetryRefresh,
    /// The transfer is being signed for the retry.
    RetrySign,
    /// The transfer is being submitted for the retry.
    RetrySubmit,
    /// The retry failed; the nonce is being asked for again.
    RetryFailedRefresh,
    /// The receipt of a submitted transfer is being asked for.
    Poll,
    /// No receipt yet; the dispatcher waits before it asks again.
    PollSleep,
    /// All transfers were handled; the metrics are complete.
    Finished,
    /// The source has no pending nonce; none of its transfers was tried.
    Skipped,
    /// The dispatcher stopped for good.
    Faulted(Fault),
}

/// What a node reports of a mined transaction.
#[derive(Clone, Copy, Debug, PartialEq, Eq)]
pub struct Receipt {
    /// The status code, where the node gave one; 1 is success.
    pub status: Option<u64>,
}

/// How the last action went.
#[derive(Debug)]
pub enum Event {
    /// The chain id, or none where the node did not answer.
    ChainId(Option<u64>),
    /// The gas price, or none where the node did not answer.
    GasPrice(Option<U256>),
    /// The source's pending nonce, or none where the node did not answer.
    Nonce(Option<U256>),
    /// The signed transaction, or none where signing failed.
    Signed(Option<Vec<u8>>),
    /// The value read from the overflow flag.
    Flag(usize),
    /// Whether the compare-and-swap on the overflow flag took place.
    Swapped(bool),
    /// The hash that the node returned for the transaction, or why it took
    /// none.
    Submitted(Result<H256, Error>),
    /// The time asked for has passed.
    Slept,
    /// The receipt, or none while the node has none.
    Receipt(Option<Receipt>),
}

/// An [`Event`] as contracts see it.
pub enum EventView {
    ChainId(Option<u64>),
    GasPrice(Option<U256>),
    Nonce(Option<U256>),
    Signed(Option<Seq<u8>>),
    Flag(usize),
    Swapped(bool),
    /// The node took the transaction and returned this hash.
    Accepted(H256),
    /// The node took nothing because its mempool is full.
    Overflow,
    /// The node took nothing because it refused the nonce.
    NonceRefused,
    /// The node took nothing, for another reason.
    Rejected,
    Slept,
    Receipt(Option<Receipt>),
}

impl View for Event {
    type V = EventView;

    open spec fn view(&self) -> EventView {
        match *self {
            Event::ChainId(v) => EventView::ChainId(v),
            Event::GasPrice(v) => EventView::GasPrice(v),
            Event::Nonce(v) => EventView::Nonce(v),
            Event::Signed(Some(raw)) => EventView::Signed(Some(raw@)),
            Event::Signed(None) => EventView::Signed(None),
            Event::Flag(v) => EventView::Flag(v),
            Event::Swapped(v) => EventView::Swapped(v),
            Event::Submitted(Ok(hash)) => EventView::Accepted(hash),
            Event::Submitted(Err(Error::SyncTx)) => EventView::Overflow,
            Event::Submitted(
                Err(Error::TxInternalErr(InternalError::InvalidNonce(_))),
            ) => EventView::NonceRefused,
            Event::Submitted(Err(_)) => EventView::Rejected,
            Event::Slept => EventView::Slept,
            Event::Receipt(v) => EventView::Receipt(v),
        }
    }
}

/// The one thing to do now.
#[derive(Debug)]
pub enum Action {
    /// Ask the node for the chain id; answer with [`Event::ChainId`].
    FetchChainId,
    /// Ask the node for the gas price; answer with [`Event::GasPrice`].
    FetchGasPrice,
    /// Ask the node for the source's pending nonce; answer with
    /// [`Event::Nonce`].
    FetchNonce,
    /// Sign a transfer with the source's key; answer with [`Event::Signed`].
    Sign(TransactionParameters),
    /// Read the overflow flag; answer with [`Event::Flag`].
    LoadFlag,
    /// Swap the overflow flag from clear to this worker's id; answer with
    /// [`Event::Swapped`].
    AcquireFlag,
    /// Swap the overflow flag from this worker's id to clear; answer with
    /// [`Event::Swapped`].
    ReleaseFlag,
    /// Hand the signed transaction to the node; answer with
    /// [`Event::Submitted`].
    Submit(Vec<u8>),
    /// Let this many seconds pass; answer with [`Event::Slept`].
    Sleep(u64),
    /// Ask the node for the receipt of this transaction; answer with
    /// [`Event::Receipt`].
    PollReceipt(H256),
    /// Nothing is left to do: take the metrics.
    Finished,
    /// Nothing was done: the source has no pending nonce.
    Skipped,
    /// Nothing can be done any more.
    Fault(Fault),
}

/// An [`Action`] as contracts see it.
pub enum ActionView {
    FetchChainId,
    FetchGasPrice,
    FetchNonce,
    Sign(TransactionParameters),
    LoadFlag,
    AcquireFlag,
    ReleaseFlag,
    Submit(Seq<u8>),
    Sleep(u64),
    PollReceipt(H256),
    Finished,
    Skipped,
    Fault(Fault),
}

impl View for Action {
    type V = ActionView;

    open spec fn view(&self) -> ActionView {
        match *self {
            Action::FetchChainId => ActionView::FetchChainId,
            Action::FetchGasPrice => ActionView::FetchGasPrice,
            Action::FetchNonce => ActionView::FetchNonce,
            Action::Sign(p) => ActionView::Sign(p),
            Action::LoadFlag => ActionView::LoadFlag,
            Action::AcquireFlag => ActionView::AcquireFlag,
            Action::ReleaseFlag => ActionView::ReleaseFlag,
            Action::Submit(raw) => ActionView::Submit(raw@),
            Action::Sleep(secs) => ActionView::Sleep(secs),
            Action::PollReceipt(hash) => ActionView::PollReceipt(hash),
            Action::Finished => ActionView::Finished,
            Action::Skipped => ActionView::Skipped,
            Action::Fault(f) => ActionView::Fault(f),
        }
    }
}

/// All that a dispatcher knows.
pub struct State {
    /// This worker's id in the overflow flag; never zero.
    pub worker_id: usize,
    /// The source account.
    pub source: Address,
    /// The transfers to make: recipient and value, in order.
    pub targets: Seq<(Address, U256)>,
    /// Seconds to wait for one receipt.
    pub wait_time: u64,
    /// Whether receipts are waited for once all transfers were tried.
    pub need_wait: bool,
    /// Whether a failed submission is tried once more.
    pub need_retry: bool,
    /// The chain id, asked for once.
    pub chain_id: Option<u64>,
    /// The gas price, asked for once.
    pub gas_price: Option<U256>,
    /// The nonce that the next signature will carry.
    pub nonce: U256,
    /// Failures in a row that a retry did not mend.
    pub last_err_cnt: u64,
    /// Where the dispatcher stands.
    pub phase: Phase,
    /// The transfer in hand; while receipts are waited for, the metric in
    /// hand.
    pub index: usize,
    /// The metric of the transfer in hand.
    pub metric: TxMetric,
    /// The transaction as it was last signed.
    pub raw: Seq<u8>,
    /// The metrics of the transfers already handled.
    pub results: Seq<TxMetric>,
    /// Receipts that reported success.
    pub succeed: u64,
    /// Requests for the receipt in hand that are left.
    pub retry_left: u64,
}

/// Whether `phase` belongs to the work on one transfer.
pub open spec fn at_transfer(phase: Phase) -> bool {
    match phase {
        Phase::Sign
        | Phase::SignFailedRefresh
        | Phase::PreSubmitLoad
        | Phase::PreSubmitSleep
        | Phase::Submit
        | Phase::NonceRefusedRefresh
        | Phase::SubmittedRelease
        | Phase::Acquire
        | Phase::PostSyncLoad
        | Phase::PostSyncSleep
        | Phase::ProbeLoad
        | Phase::ProbeRefresh
        | Phase::ProbeSign
        | Phase::ProbeSubmit
        | Phase::ProbeRelease
        | Phase::ProbeSleep
        | Phase::RetrySleep
        | Phase::RetryRefresh
        | Phase::RetrySign
        | Phase::RetrySubmit
        | Phase::RetryFailedRefresh => true,
        _ => false,
    }
}

/// How many failures the transfer in hand may have added to the count of
/// failures in a row, by phase.
pub open spec fn failures_in_hand(phase: Phase) -> int {
    match phase {
        Phase::RetrySleep | Phase::RetryRefresh | Phase::RetrySign | Phase::RetrySubmit => 1,
        Phase::RetryFailedRefresh => 2,
        _ => 0,
    }
}

/// Whether `status` is one of the codes that a metric can have.
pub open spec fn known_status(status: u64) -> bool {
    status == STATUS_SUCCESS || status == STATUS_RETRIED || status == STATUS_SIGN_FAILED || status
        == STATUS_PENDING
}

/// How many of the first `upto` of `results` a receipt has confirmed.
pub open spec fn confirmed(results: Seq<TxMetric>, upto: int) -> nat
    decreases upto,
{
    if upto <= 0 {
        0
    } else {
        confirmed(results, upto - 1) + if results[upto - 1].status == STATUS_SUCCESS {
            1nat
        } else {
            0nat
        }
    }
}

/// Whether `metric` is one of the transfer `target`, with a status and a
/// wait that a dispatcher with `wait_time` can give.
pub open spec fn metric_of(metric: TxMetric, target: (Address, U256), wait_time: u64) -> bool {
    &&& metric.to == target.0
    &&& metric.amount == target.1
    &&& known_status(metric.status)
    &&& metric.wait <= wait_time
    &&& metric.status == STATUS_SUCCESS ==> metric.hash is Some
}

/// Whether none of `results` is confirmed.
pub open spec fn none_confirmed(results: Seq<TxMetric>) -> bool {
    forall|i: int| 0 <= i < results.len() ==> (#[trigger] results[i]).status != STATUS_SUCCESS
}

/// What holds of every state that a dispatcher reaches.
pub open spec fn valid(s: State) -> bool {
    &&& s.worker_id != 0
    &&& 1 <= s.wait_time < u64::MAX
    &&& 4 * s.targets.len() + 4 <= u64::MAX
    &&& s.targets.len() <= usize::MAX
    &&& s.results.len() <= s.targets.len()
    &&& s.succeed <= s.results.len()
    &&& forall|i: int|
        0 <= i < s.results.len() ==> metric_of(#[trigger] s.results[i], s.targets[i], s.wait_time)
    &&& !s.need_wait ==> {
        &&& !(s.phase is Poll || s.phase is PollSleep)
        &&& s.succeed == 0
        &&& none_confirmed(s.results)
    }
    &&& match s.phase {
        Phase::FetchChainId | Phase::FetchGasPrice | Phase::FetchNonce | Phase::Skipped => {
            &&& s.results.len() == 0
            &&& s.last_err_cnt == 0
            &&& s.succeed == 0
        },
        Phase::Poll | Phase::PollSleep => {
            &&& s.results.len() == s.targets.len()
            &&& s.index < s.results.len()
            &&& s.results[s.index as int].hash is Some
            &&& 1 <= s.retry_left <= s.wait_time
            &&& s.succeed == confirmed(s.results, s.index as int)
            &&& forall|i: int|
                s.index <= i < s.results.len() ==> (#[trigger] s.results[i]).status
                    != STATUS_SUCCESS
            &&& s.last_err_cnt <= 2 * s.targets.len()
        },
        Phase::Finished => {
            &&& s.results.len() == s.targets.len()
            &&& s.succeed == confirmed(s.results, s.results.len() as int)
            &&& s.last_err_cnt <= 2 * s.targets.len()
        },
        Phase::Faulted(_) => {
            &&& s.last_err_cnt <= 2 * s.targets.len() + 2
        },
        _ => {
            &&& s.index < s.targets.len()
            &&& s.results.len() == s.index
            &&& metric_of(s.metric, s.targets[s.index as int], s.wait_time)
            &&& s.metric.status != STATUS_SUCCESS
            &&& s.metric.wait == 0
            &&& forall|i: int|
                0 <= i < s.results.len() ==> (#[trigger] s.results[i]).status != STATUS_SUCCESS
            &&& s.succeed == 0
            &&& s.last_err_cnt <= 2 * s.index + failures_in_hand(s.phase)
        },
    }
}

/// The state before anything was done.
pub open spec fn initial(
    worker_id: usize,
    source: Address,
    targets: Seq<(Address, U256)>,
    wait_time: u64,
    need_wait: bool,
    need_retry: bool,
) -> State {
    State {
        worker_id,
        source,
        targets,
        wait_time,
        need_wait,
        need_retry,
        chain_id: None,
        gas_price: None,
        nonce: u256_of(0),
        last_err_cnt: 0,
        phase: Phase::FetchChainId,
        index: 0,
        metric: TxMetric::fresh(source, u256_of(0)),
        raw: Seq::empty(),
        results: Seq::empty(),
        succeed: 0,
        retry_left: 0,
    }
}

/// The first metric at or after `from` that has a hash; the number of
/// metrics where there is none.
pub open spec fn first_hashed(results: Seq<TxMetric>, from: int) -> int
    decreases results.len() - from,
{
    if from < 0 || from >= results.len() {
        results.len() as int
    } else if results[from].hash is Some {
        from
    } else {
        first_hashed(results, from + 1)
    }
}

/// The receipts are waited for, from metric `from` on; where none is left
/// with a hash, the dispatcher has finished.
pub open spec fn poll_from(s: State, from: int) -> State {
    let i = first_hashed(s.results, from);
    if i < s.results.len() {
        State { phase: Phase::Poll, index: i as usize, retry_left: s.wait_time, ..s }
    } else {
        State { phase: Phase::Finished, ..s }
    }
}

/// The transfer at `index` is taken up; where there is none, the receipts
/// are waited for or the dispatcher has finished.
pub open spec fn take_up(s: State, index: int) -> State {
    if index < s.targets.len() {
        State {
            phase: Phase::Sign,
            index: index as usize,
            metric: TxMetric::fresh(s.targets[index].0, s.targets[index].1),
            ..s
        }
    } else if s.need_wait {
        poll_from(s, 0)
    } else {
        State { phase: Phase::Finished, ..s }
    }
}

/// The metric in hand is filed and the next transfer taken up.
pub open spec fn file(s: State) -> State {
    take_up(State { results: s.results.push(s.metric), ..s }, s.index + 1)
}

/// The node took the transaction in hand: the metric gets the hash and the
/// nonce moves up, after which the dispatcher is in `next`. At the largest
/// nonce the dispatcher stops for good.
pub open spec fn accepted(s: State, hash: H256, next: Phase) -> State {
    let metric = TxMetric { hash: Some(hash), ..s.metric };
    if s.nonce@ + 1 < pow256() {
        State { metric, nonce: u256_of(s.nonce@ + 1), phase: next, ..s }
    } else {
        State { metric, phase: Phase::Faulted(Fault::NonceExhausted), ..s }
    }
}

/// The submission failed and this worker does not probe: one retry where
/// retries are asked for, else the metric is filed as it is.
pub open spec fn give_up_or_retry(s: State) -> State {
    if s.need_retry {
        State {
            metric: TxMetric { status: STATUS_RETRIED, ..s.metric },
            last_err_cnt: (s.last_err_cnt + 1) as u64,
            phase: Phase::RetrySleep,
            ..s
        }
    } else {
        file(s)
    }
}

/// The receipt in hand came, or will not be waited for any longer: the
/// metric is updated and the next receipt waited for.
pub open spec fn polled(s: State, receipt: Option<Receipt>) -> State {
    let old_metric = s.results[s.index as int];
    let confirmed = receipt matches Some(r) && r.status == Some(STATUS_SUCCESS);
    let metric = TxMetric {
        status: if confirmed {
            STATUS_SUCCESS
        } else {
            old_metric.status
        },
        wait: if receipt is Some {
            (s.wait_time + 1 - s.retry_left) as u64
        } else {
            s.wait_time
        },
        ..old_metric
    };
    poll_from(
        State {
            results: s.results.update(s.index as int, metric),
            succeed: if confirmed {
                (s.succeed + 1) as u64
            } else {
                s.succeed
            },
            ..s
        },
        s.index + 1,
    )
}

/// The state after `event` came in state `s`. An event that does not answer
/// the action in hand changes nothing.
pub open spec fn transition(s: State, event: EventView) -> State {
    match (s.phase, event) {
        (Phase::FetchChainId, EventView::ChainId(v)) => State {
            chain_id: v,
            phase: Phase::FetchGasPrice,
            ..s
        },
        (Phase::FetchGasPrice, EventView::GasPrice(v)) => State {
            gas_price: v,
            phase: Phase::FetchNonce,
            ..s
        },
        (Phase::FetchNonce, EventView::Nonce(Some(n))) => take_up(State { nonce: n, ..s }, 0),
        (Phase::FetchNonce, EventView::Nonce(None)) => State { phase: Phase::Skipped, ..s },
        (Phase::Sign, EventView::Signed(Some(raw))) => State {
            raw,
            phase: Phase::PreSubmitLoad,
            ..s
        },
        (Phase::Sign, EventView::Signed(None)) => State {
            metric: TxMetric { status: STATUS_SIGN_FAILED, ..s.metric },
            phase: Phase::SignFailedRefresh,
            ..s
        },
        (Phase::SignFailedRefresh, EventView::Nonce(v)) => file(
            State { nonce: refreshed(s.nonce, v), ..s },
        ),
        (Phase::PreSubmitLoad, EventView::Flag(f)) => State {
            phase: if must_park(f, s.worker_id) {
                Phase::PreSubmitSleep
            } else {
                Phase::Submit
            },
            ..s
        },
        (Phase::PreSubmitSleep, EventView::Slept) => State { phase: Phase::PreSubmitLoad, ..s },
        (Phase::Submit, EventView::Accepted(hash)) => accepted(s, hash, Phase::SubmittedRelease),
        (Phase::Submit, EventView::Overflow) => State { phase: Phase::Acquire, ..s },
        (Phase::Submit, EventView::NonceRefused) => State {
            phase: Phase::NonceRefusedRefresh,
            ..s
        },
        (Phase::Submit, EventView::Rejected) => State { phase: Phase::ProbeLoad, ..s },
        (Phase::NonceRefusedRefresh, EventView::Nonce(v)) => State {
            nonce: refreshed(s.nonce, v),
            phase: Phase::ProbeLoad,
            ..s
        },
        (Phase::SubmittedRelease, EventView::Swapped(_)) => file(s),
        (Phase::Acquire, EventView::Swapped(_)) => State { phase: Phase::PostSyncLoad, ..s },
        (Phase::PostSyncLoad, EventView::Flag(f)) => State {
            phase: if must_park(f, s.worker_id) {
                Phase::PostSyncSleep
            } else {
                Phase::ProbeLoad
            },
            ..s
        },
        (Phase::PostSyncSleep, EventView::Slept) => State { phase: Phase::PostSyncLoad, ..s },
        (Phase::ProbeLoad, EventView::Flag(f)) => if f == s.worker_id {
            State { phase: Phase::ProbeRefresh, ..s }
        } else {
            give_up_or_retry(s)
        },
        (Phase::ProbeRefresh, EventView::Nonce(v)) => State {
            nonce: refreshed(s.nonce, v),
            phase: Phase::ProbeSign,
            ..s
        },
        (Phase::ProbeSign, EventView::Signed(Some(raw))) => State {
            raw,
            phase: Phase::ProbeSubmit,
            ..s
        },
        (Phase::ProbeSign, EventView::Signed(None)) => State { phase: Phase::ProbeSleep, ..s },
        (Phase::ProbeSubmit, EventView::Accepted(hash)) => accepted(s, hash, Phase::ProbeRelease),
        (Phase::ProbeSubmit, EventView::Overflow) => State { phase: Phase::ProbeSleep, ..s },
        (Phase::ProbeSubmit, EventView::NonceRefused) => State { phase: Phase::ProbeSleep, ..s },
        (Phase::ProbeSubmit, EventView::Rejected) => State { phase: Phase::ProbeSleep, ..s },
        (Phase::ProbeRelease, EventView::Swapped(true)) => file(s),
        (Phase::ProbeRelease, EventView::Swapped(false)) => State {
            phase: Phase::Faulted(Fault::ProbeLost),
            ..s
        },
        (Phase::ProbeSleep, EventView::Slept) => State { phase: Phase::ProbeLoad, ..s },
        (Phase::RetrySleep, EventView::Slept) => State { phase: Phase::RetryRefresh, ..s },
        (Phase::RetryRefresh, EventView::Nonce(v)) => State {
            nonce: refreshed(s.nonce, v),
            phase: Phase::RetrySign,
            ..s
        },
        (Phase::RetrySign, EventView::Signed(Some(raw))) => State {
            raw,
            phase: Phase::RetrySubmit,
            ..s
        },
        (Phase::RetrySign, EventView::Signed(None)) => State {
            last_err_cnt: (s.last_err_cnt + 1) as u64,
            phase: Phase::RetryFailedRefresh,
            ..s
        },
        (Phase::RetrySubmit, EventView::Accepted(hash)) => {
            let t = accepted(State { last_err_cnt: 0, ..s }, hash, Phase::RetrySubmit);
            if t.phase is Faulted {
                t
            } else {
                file(t)
            }
        },
        (Phase::RetrySubmit, EventView::Overflow) => State {
            last_err_cnt: (s.last_err_cnt + 1) as u64,
            phase: Phase::RetryFailedRefresh,
            ..s
        },
        (Phase::RetrySubmit, EventView::NonceRefused) => State {
            last_err_cnt: (s.last_err_cnt + 1) as u64,
            phase: Phase::RetryFailedRefresh,
            ..s
        },
        (Phase::RetrySubmit, EventView::Rejected) => State {
            last_err_cnt: (s.last_err_cnt + 1) as u64,
            phase: Phase::RetryFailedRefresh,
            ..s
        },
        (Phase::RetryFailedRefresh, EventView::Nonce(v)) => file(
            State { nonce: refreshed(s.nonce, v), ..s },
        ),
        (Phase::Poll, EventView::Receipt(Some(r))) => polled(s, Some(r)),
        (Phase::Poll, EventView::Receipt(None)) => State { phase: Phase::PollSleep, ..s },
        (Phase::PollSleep, EventView::Slept) => if s.retry_left <= 1 {
            polled(s, None)
        } else {
            State { retry_left: (s.retry_left - 1) as u64, phase: Phase::Poll, ..s }
        },
        _ => s,
    }
}

/// The transfer in hand as the signer is to see it.
pub open spec fn parameters(s: State) -> TransactionParameters {
    TransactionParameters {
        to: s.metric.to,
        value: s.metric.amount,
        chain_id: s.chain_id,
        gas_price: s.gas_price,
        nonce: s.nonce,
    }
}

/// What is to be done in state `s`.
pub open spec fn pending(s: State) -> ActionView {
    match s.phase {
        Phase::FetchChainId => ActionView::FetchChainId,
        Phase::FetchGasPrice => ActionView::FetchGasPrice,
        Phase::FetchNonce
        | Phase::SignFailedRefresh
        | Phase::NonceRefusedRefresh
        | Phase::ProbeRefresh
        | Phase::RetryRefresh
        | Phase::RetryFailedRefresh => ActionView::FetchNonce,
        Phase::Sign | Phase::ProbeSign | Phase::RetrySign => ActionView::Sign(parameters(s)),
        Phase::PreSubmitLoad | Phase::PostSyncLoad | Phase::ProbeLoad => ActionView::LoadFlag,
        Phase::PreSubmitSleep | Phase::PostSyncSleep | Phase::ProbeSleep => ActionView::Sleep(
            OVERFLOW_INTERVAL,
        ),
        Phase::Submit | Phase::ProbeSubmit | Phase::RetrySubmit => ActionView::Submit(s.raw),
        Phase::SubmittedRelease | Phase::ProbeRelease => ActionView::ReleaseFlag,
        Phase::Acquire => ActionView::AcquireFlag,
        Phase::RetrySleep => ActionView::Sleep((RETRY_INTERVAL * s.last_err_cnt) as u64),
        Phase::Poll => ActionView::PollReceipt(s.results[s.index as int].hash->0),
        Phase::PollSleep => ActionView::Sleep(RECEIPT_INTERVAL),
        Phase::Finished => ActionView::Finished,
        Phase::Skipped => ActionView::Skipped,
        Phase::Faulted(f) => ActionView::Fault(f),
    }
}


/// A transition keeps what holds of every state.
pub proof fn lemma_transition_valid(s: State, event: EventView)
    requires
        valid(s),
    ensures
        valid(transition(s, event)),
{
    match (s.phase, event) {
        (Phase::FetchNonce, EventView::Nonce(Some(n))) => {
            lemma_take_up_valid(State { nonce: n, ..s }, 0);
        },
        (Phase::SignFailedRefresh, EventView::Nonce(v)) => {
            lemma_file_valid(State { nonce: refreshed(s.nonce, v), ..s });
        },
        (Phase::SubmittedRelease, EventView::Swapped(_)) => {
            lemma_file_valid(s);
        },
        (Phase::ProbeLoad, EventView::Flag(f)) => {
            if f != s.worker_id && !s.need_retry {
                lemma_file_valid(s);
            }
        },
        (Phase::ProbeRelease, EventView::Swapped(true)) => {
            lemma_file_valid(s);
        },
        (Phase::RetrySubmit, EventView::Accepted(hash)) => {
            let a = accepted(State { last_err_cnt: 0, ..s }, hash, Phase::RetrySubmit);
            if !(a.phase is Faulted) {
                lemma_file_valid(a);
            }
        },
        (Phase::RetryFailedRefresh, EventView::Nonce(v)) => {
            lemma_file_valid(State { nonce: refreshed(s.nonce, v), ..s });
        },
        (Phase::Poll, EventView::Receipt(Some(r))) => {
            lemma_polled_valid(s, Some(r));
        },
        (Phase::PollSleep, EventView::Slept) => {
            if s.retry_left <= 1 {
                lemma_polled_valid(s, None);
            }
        },
        _ => {},
    }
}

/// Whether `event` tells of something that failed: a signature, a
/// submission, or a request for the nonce.
pub open spec fn tells_failure(event: EventView) -> bool {
    match event {
        EventView::Signed(None)
        | EventView::Nonce(None)
        | EventView::Overflow
        | EventView::NonceRefused
        | EventView::Rejected
        | EventView::Receipt(None) => true,
        _ => false,
    }
}

/// Once the first nonce is known, no failure stops a dispatcher: it goes on
/// with the transfer in hand or with the next, loses no metric, and neither
/// skips the source nor stops for good.
pub proof fn lemma_failures_stop_nothing(s: State, event: EventView)
    requires
        valid(s),
        at_transfer(s.phase) || s.phase is Poll || s.phase is PollSleep,
        tells_failure(event),
    ensures
        !(transition(s, event).phase is Faulted),
        !(transition(s, event).phase is Skipped),
        transition(s, event).results.len() >= s.results.len(),
        transition(s, event).targets == s.targets,
{
}

/// `first_hashed` finds a metric with a hash at or after `from`, or the end.
pub proof fn lemma_first_hashed(results: Seq<TxMetric>, from: int)
    requires
        0 <= from <= results.len(),
    ensures
        from <= first_hashed(results, from) <= results.len(),
        first_hashed(results, from) < results.len() ==> results[first_hashed(
            results,
            from,
        )].hash is Some,
        forall|j: int| from <= j < first_hashed(results, from) ==> results[j].hash is None,
    decreases results.len() - from,
{
    if from < results.len() && results[from].hash is None {
        lemma_first_hashed(results, from + 1);
    }
}

/// Metrics without a confirmation add nothing to the count of those
/// confirmed.
pub proof fn lemma_confirmed_stays(results: Seq<TxMetric>, from: int, upto: int)
    requires
        0 <= from <= upto <= results.len(),
        forall|i: int| from <= i < upto ==> (#[trigger] results[i]).status != STATUS_SUCCESS,
    ensures
        confirmed(results, upto) == confirmed(results, from),
    decreases upto - from,
{
    if from < upto {
        lemma_confirmed_stays(results, from, upto - 1);
    }
}

/// The count of the metrics confirmed among the first `upto` looks at those
/// only.
pub proof fn lemma_confirmed_prefix(a: Seq<TxMetric>, b: Seq<TxMetric>, upto: int)
    requires
        0 <= upto <= a.len(),
        upto <= b.len(),
        forall|i: int| 0 <= i < upto ==> a[i] == b[i],
    ensures
        confirmed(a, upto) == confirmed(b, upto),
    decreases upto,
{
    if upto > 0 {
        lemma_confirmed_prefix(a, b, upto - 1);
    }
}

/// No more metrics are confirmed than there are.
pub proof fn lemma_confirmed_bound(results: Seq<TxMetric>, upto: int)
    requires
        0 <= upto <= results.len(),
    ensures
        confirmed(results, upto) <= upto,
    decreases upto,
{
    if upto > 0 {
        lemma_confirmed_bound(results, upto - 1);
    }
}

proof fn lemma_poll_from_valid(s: State, from: int)
    requires
        s.worker_id != 0,
        1 <= s.wait_time < u64::MAX,
        4 * s.targets.len() + 4 <= u64::MAX,
        s.targets.len() <= usize::MAX,
        s.results.len() == s.targets.len(),
        s.last_err_cnt <= 2 * s.targets.len(),
        s.need_wait,
        forall|i: int|
            0 <= i < s.results.len() ==> metric_of(
                #[trigger] s.results[i],
                s.targets[i],
                s.wait_time,
            ),
        0 <= from <= s.results.len(),
        s.succeed == confirmed(s.results, from),
        forall|i: int|
            from <= i < s.results.len() ==> (#[trigger] s.results[i]).status != STATUS_SUCCESS,
    ensures
        valid(poll_from(s, from)),
{
    lemma_first_hashed(s.results, from);
    let i = first_hashed(s.results, from);
    lemma_confirmed_stays(s.results, from, i);
    lemma_confirmed_bound(s.results, i);
}

proof fn lemma_take_up_valid(s: State, index: int)
    requires
        s.worker_id != 0,
        1 <= s.wait_time < u64::MAX,
        4 * s.targets.len() + 4 <= u64::MAX,
        s.targets.len() <= usize::MAX,
        s.results.len() == index,
        0 <= index <= s.targets.len(),
        s.succeed == 0,
        s.last_err_cnt <= 2 * index,
        forall|i: int|
            0 <= i < s.results.len() ==> metric_of(
                #[trigger] s.results[i],
                s.targets[i],
                s.wait_time,
            ),
        forall|i: int|
            0 <= i < s.results.len() ==> (#[trigger] s.results[i]).status != STATUS_SUCCESS,
    ensures
        valid(take_up(s, index)),
{
    if index >= s.targets.len() {
        if s.need_wait {
            lemma_poll_from_valid(s, 0);
        } else {
            lemma_confirmed_stays(s.results, 0, s.results.len() as int);
        }
    }
}

proof fn lemma_file_valid(s: State)
    requires
        valid(s),
        at_transfer(s.phase),
    ensures
        valid(file(s)),
{
    let pushed = State { results: s.results.push(s.metric), ..s };
    assert forall|i: int| 0 <= i < pushed.results.len() implies metric_of(
        #[trigger] pushed.results[i],
        pushed.targets[i],
        pushed.wait_time,
    ) && pushed.results[i].status != STATUS_SUCCESS by {
        if i < s.results.len() {
            assert(pushed.results[i] == s.results[i]);
        }
    }
    lemma_take_up_valid(pushed, s.index + 1);
}

proof fn lemma_polled_valid(s: State, receipt: Option<Receipt>)
    requires
        valid(s),
        s.phase is Poll || s.phase is PollSleep,
    ensures
        valid(polled(s, receipt)),
{
    let old_metric = s.results[s.index as int];
    let confirmed = receipt matches Some(r) && r.status == Some(STATUS_SUCCESS);
    let metric = TxMetric {
        status: if confirmed {
            STATUS_SUCCESS
        } else {
            old_metric.status
        },
        wait: if receipt is Some {
            (s.wait_time + 1 - s.retry_left) as u64
        } else {
            s.wait_time
        },
        ..old_metric
    };
    let updated = State {
        results: s.results.update(s.index as int, metric),
        succeed: if confirmed {
            (s.succeed + 1) as u64
        } else {
            s.succeed
        },
        ..s
    };
    assert forall|i: int| 0 <= i < updated.results.len() implies metric_of(
        #[trigger] updated.results[i],
        updated.targets[i],
        updated.wait_time,
    ) by {
        if i != s.index {
            assert(updated.results[i] == s.results[i]);
        }
    }
    assert forall|i: int| s.index + 1 <= i < updated.results.len() implies (
    #[trigger] updated.results[i]).status != STATUS_SUCCESS by {
        assert(updated.results[i] == s.results[i]);
    }
    lemma_confirmed_prefix(updated.results, s.results, s.index as int);
    lemma_confirmed_bound(s.results, s.index as int);
    lemma_poll_from_valid(updated, s.index + 1);
}

/// The dispatcher of one source account.
#[derive(Debug)]
pub struct Dispatcher {
    worker_id: usize,
    source: Address,
    targets: Vec<(Address, U256)>,
    wait_time: u64,
    need_wait: bool,
    need_retry: bool,
    chain_id: Option<u64>,
    gas_price: Option<U256>,
    nonce: NonceTracker,
    last_err_cnt: u64,
    phase: Phase,
    index: usize,
    metric: TxMetric,
    raw: Vec<u8>,
    results: Vec<TxMetric>,
    succeed: u64,
    retry_left: u64,
}

impl View for Dispatcher {
    type V = State;

    closed spec fn view(&self) -> State {
        State {
            worker_id: self.worker_id,
            source: self.source,
            targets: self.targets@,
            wait_time: self.wait_time,
            need_wait: self.need_wait,
            need_retry: self.need_retry,
            chain_id: self.chain_id,
            gas_price: self.gas_price,
            nonce: self.nonce.current,
            last_err_cnt: self.last_err_cnt,
            phase: self.phase,
            index: self.index,
            metric: self.metric,
            raw: self.raw@,
            results: self.results@,
            succeed: self.succeed,
            retry_left: self.retry_left,
        }
    }
}

/// The node's answer to a submission, as far as the dispatcher cares.
enum Outcome {
    Accepted(H256),
    Overflow,
    NonceRefused,
    Rejected,
}

fn outcome_of(answer: Result<H256, Error>) -> (r: Outcome)
    ensures
        match r {
            Outcome::Accepted(hash) => Event::Submitted(answer)@ == EventView::Accepted(hash),
            Outcome::Overflow => Event::Submitted(answer)@ == EventView::Overflow,
            Outcome::NonceRefused => Event::Submitted(answer)@ == EventView::NonceRefused,
            Outcome::Rejected => Event::Submitted(answer)@ == EventView::Rejected,
        },
{
    match answer {
        Ok(hash) => Outcome::Accepted(hash),
        Err(Error::SyncTx) => Outcome::Overflow,
        Err(Error::TxInternalErr(InternalError::InvalidNonce(_))) => Outcome::NonceRefused,
        Err(_) => Outcome::Rejected,
    }
}

/// The first metric at or after `from` that has a hash.
fn find_hashed(results: &Vec<TxMetric>, from: usize) -> (i: usize)
    requires
        from <= results.len(),
    ensures
        i == first_hashed(results@, from as int),
{
    let mut i = from;
    while i < results.len()
        invariant
            from <= i <= results.len(),
            first_hashed(results@, from as int) == first_hashed(results@, i as int),
        decreases results.len() - i,
    {
        if results[i].hash.is_some() {
            return i;
        }
        i += 1;
    }
    i
}

impl Dispatcher {
    /// A dispatcher for worker `worker_id`, which sends from `source` to each
    /// of `targets` in turn. A receipt is waited for three block times and a
    /// second; `block_time` is in seconds.
    pub fn new(
        worker_id: usize,
        source: Address,
        targets: Vec<(Address, U256)>,
        block_time: Option<u64>,
        need_wait: bool,
        need_retry: bool,
    ) -> (d: Dispatcher)
        requires
            worker_id != 0,
            4 * targets.len() + 4 <= u64::MAX,
            wait_time_of(block_time) < u64::MAX,
        ensures
            d@ == initial(
                worker_id,
                source,
                targets@,
                wait_time_of(block_time) as u64,
                need_wait,
                need_retry,
            ),
            valid(d@),
    {
        let seconds = match block_time {
            Some(t) => t,
            None => BLOCK_TIME,
        };
        let zero = U256::zero();
        proof {
            crate::u256::lemma_u256_of(zero);
        }
        Dispatcher {
            worker_id,
            source,
            targets,
            wait_time: seconds * 3 + 1,
            need_wait,
            need_retry,
            chain_id: None,
            gas_price: None,
            nonce: NonceTracker::new(zero),
            last_err_cnt: 0,
            phase: Phase::FetchChainId,
            index: 0,
            metric: TxMetric::new(source, zero),
            raw: Vec::new(),
            results: Vec::new(),
            succeed: 0,
            retry_left: 0,
        }
    }

    /// Where the dispatcher stands.
    pub fn phase(&self) -> (p: Phase)
        ensures
            p == self@.phase,
    {
        self.phase
    }

    /// What is to be done now.
    pub fn action(&self) -> (a: Action)
        requires
            valid(self@),
        ensures
            a@ == pending(self@),
    {
        match self.phase {
            Phase::FetchChainId => Action::FetchChainId,
            Phase::FetchGasPrice => Action::FetchGasPrice,
            Phase::FetchNonce
            | Phase::SignFailedRefresh
            | Phase::NonceRefusedRefresh
            | Phase::ProbeRefresh
            | Phase::RetryRefresh
            | Phase::RetryFailedRefresh => Action::FetchNonce,
            Phase::Sign | Phase::ProbeSign | Phase::RetrySign => Action::Sign(
                TransactionParameters {
                    to: self.metric.to,
                    value: self.metric.amount,
                    chain_id: self.chain_id,
                    gas_price: self.gas_price,
                    nonce: self.nonce.peek(),
                },
            ),
            Phase::PreSubmitLoad | Phase::PostSyncLoad | Phase::ProbeLoad => Action::LoadFlag,
            Phase::PreSubmitSleep | Phase::PostSyncSleep | Phase::ProbeSleep => Action::Sleep(
                OVERFLOW_INTERVAL,
            ),
            Phase::Submit | Phase::ProbeSubmit | Phase::RetrySubmit => {
                let raw = self.raw.clone();
                assert(raw@ =~= self.raw@);
                Action::Submit(raw)
            },
            Phase::SubmittedRelease | Phase::ProbeRelease => Action::ReleaseFlag,
            Phase::Acquire => Action::AcquireFlag,
            Phase::RetrySleep => Action::Sleep(RETRY_INTERVAL * self.last_err_cnt),
            Phase::Poll => {
                match self.results[self.index].hash {
                    Some(hash) => Action::PollReceipt(hash),
                    None => Action::Finished,
                }
            },
            Phase::PollSleep => Action::Sleep(RECEIPT_INTERVAL),
            Phase::Finished => Action::Finished,
            Phase::Skipped => Action::Skipped,
            Phase::Faulted(f) => Action::Fault(f),
        }
    }

    /// Takes note of how the action in hand went. An event that does not
    /// answer that action changes nothing.
    pub fn handle(&mut self, event: Event)
        requires
            valid(old(self)@),
        ensures
            final(self)@ == transition(old(self)@, event@),
            valid(final(self)@),
    {
        proof {
            lemma_transition_valid(self@, event@);
        }
        match self.phase {
            Phase::FetchChainId => {
                if let Event::ChainId(v) = event {
                    self.chain_id = v;
                    self.phase = Phase::FetchGasPrice;
                }
            },
            Phase::FetchGasPrice => {
                if let Event::GasPrice(v) = event {
                    self.gas_price = v;
                    self.phase = Phase::FetchNonce;
                }
            },
            Phase::FetchNonce => {
                if let Event::Nonce(v) = event {
                    match v {
                        Some(n) => {
                            self.nonce = NonceTracker::new(n);
                            self.take_up(0);
                        },
                        None => {
                            self.phase = Phase::Skipped;
                        },
                    }
                }
            },
            Phase::Sign => {
                if let Event::Signed(v) = event {
                    match v {
                        Some(raw) => {
                            self.raw = raw;
                            self.phase = Phase::PreSubmitLoad;
                        },
                        None => {
                            self.metric.status = STATUS_SIGN_FAILED;
                            self.phase = Phase::SignFailedRefresh;
                        },
                    }
                }
            },
            Phase::SignFailedRefresh | Phase::RetryFailedRefresh => {
                if let Event::Nonce(v) = event {
                    self.refresh(v);
                    self.file();
                }
            },
            Phase::PreSubmitLoad => {
                if let Event::Flag(f) = event {
                    if should_park(f, self.worker_id) {
                        self.phase = Phase::PreSubmitSleep;
                    } else {
                        self.phase = Phase::Submit;
                    }
                }
            },
            Phase::PreSubmitSleep => {
                if let Event::Slept = event {
                    self.phase = Phase::PreSubmitLoad;
                }
            },
            Phase::Submit => {
                if let Event::Submitted(answer) = event {
                    match outcome_of(answer) {
                        Outcome::Accepted(hash) => {
                            self.accept(hash, Phase::SubmittedRelease);
                        },
                        Outcome::Overflow => {
                            self.phase = Phase::Acquire;
                        },
                        Outcome::NonceRefused => {
                            self.phase = Phase::NonceRefusedRefresh;
                        },
                        Outcome::Rejected => {
                            self.phase = Phase::ProbeLoad;
                        },
                    }
                }
            },
            Phase::NonceRefusedRefresh => {
                if let Event::Nonce(v) = event {
                    self.refresh(v);
                    self.phase = Phase::ProbeLoad;
                }
            },
            Phase::SubmittedRelease => {
                if let Event::Swapped(_) = event {
                    self.file();
                }
            },
            Phase::Acquire => {
                if let Event::Swapped(_) = event {
                    self.phase = Phase::PostSyncLoad;
                }
            },
            Phase::PostSyncLoad => {
                if let Event::Flag(f) = event {
                    if should_park(f, self.worker_id) {
                        self.phase = Phase::PostSyncSleep;
                    } else {
                        self.phase = Phase::ProbeLoad;
                    }
                }
            },
            Phase::PostSyncSleep => {
                if let Event::Slept = event {
                    self.phase = Phase::PostSyncLoad;
                }
            },
            Phase::ProbeLoad => {
                if let Event::Flag(f) = event {
                    if f == self.worker_id {
                        self.phase = Phase::ProbeRefresh;
                    } else if self.need_retry {
                        self.metric.status = STATUS_RETRIED;
                        self.last_err_cnt = self.last_err_cnt + 1;
                        self.phase = Phase::RetrySleep;
                    } else {
                        self.file();
                    }
                }
            },
            Phase::ProbeRefresh => {
                if let Event::Nonce(v) = event {
                    self.refresh(v);
                    self.phase = Phase::ProbeSign;
                }
            },
            Phase::ProbeSign => {
                if let Event::Signed(v) = event {
                    match v {
                        Some(raw) => {
                            self.raw = raw;
                            self.phase = Phase::ProbeSubmit;
                        },
                        None => {
                            self.phase = Phase::ProbeSleep;
                        },
                    }
                }
            },
            Phase::ProbeSubmit => {
                if let Event::Submitted(answer) = event {
                    match outcome_of(answer) {
                        Outcome::Accepted(hash) => {
                            self.accept(hash, Phase::ProbeRelease);
                        },
                        Outcome::Overflow | Outcome::NonceRefused | Outcome::Rejected => {
                            self.phase = Phase::ProbeSleep;
                        },
                    }
                }
            },
            Phase::ProbeRelease => {
                if let Event::Swapped(done) = event {
                    if done {
                        self.file();
                    } else {
                        self.phase = Phase::Faulted(Fault::ProbeLost);
                    }
                }
            },
            Phase::ProbeSleep => {
                if let Event::Slept = event {
                    self.phase = Phase::ProbeLoad;
                }
            },
            Phase::RetrySleep => {
                if let Event::Slept = event {
                    self.phase = Phase::RetryRefresh;
                }
            },
            Phase::RetryRefresh => {
                if let Event::Nonce(v) = event {
                    self.refresh(v);
                    self.phase = Phase::RetrySign;
                }
            },
            Phase::RetrySign => {
                if let Event::Signed(v) = event {
                    match v {
                        Some(raw) => {
                            self.raw = raw;
                            self.phase = Phase::RetrySubmit;
                        },
                        None => {
                            self.last_err_cnt = self.last_err_cnt + 1;
                            self.phase = Phase::RetryFailedRefresh;
                        },
                    }
                }
            },
            Phase::RetrySubmit => {
                if let Event::Submitted(answer) = event {
                    match outcome_of(answer) {
                        Outcome::Accepted(hash) => {
                            self.last_err_cnt = 0;
                            self.accept(hash, Phase::RetrySubmit);
                            if let Phase::RetrySubmit = self.phase {
                                self.file();
                            }
                        },
                        Outcome::Overflow | Outcome::NonceRefused | Outcome::Rejected => {
                            self.last_err_cnt = self.last_err_cnt + 1;
                            self.phase = Phase::RetryFailedRefresh;
                        },
                    }
                }
            },
            Phase::Poll => {
                if let Event::Receipt(v) = event {
                    match v {
                        Some(receipt) => {
                            self.polled(Some(receipt));
                        },
                        None => {
                            self.phase = Phase::PollSleep;
                        },
                    }
                }
            },
            Phase::PollSleep => {
                if let Event::Slept = event {
                    if self.retry_left <= 1 {
                        self.polled(None);
                    } else {
                        self.retry_left = self.retry_left - 1;
                        self.phase = Phase::Poll;
                    }
                }
            },
            Phase::Finished | Phase::Skipped | Phase::Faulted(_) => {},
        }
    }

    /// The metrics, once the dispatcher has finished: one for each transfer,
    /// in the order given.
    pub fn metrics(&self) -> (r: Option<TransferMetrics>)
        requires
            valid(self@),
        ensures
            r is Some <==> self@.phase is Finished,
            r matches Some(m) ==> {
                &&& m.wf()
                &&& m.from == self@.source
                &&& m.total == self@.targets.len()
                &&& m.succeed == self@.succeed
                &&& m.succeed == confirmed(m.txs@, m.txs@.len() as int)
                &&& !self@.need_wait ==> m.succeed == 0 && none_confirmed(m.txs@)
                &&& m.txs@ == self@.results
                &&& forall|i: int|
                    0 <= i < m.txs@.len() ==> metric_of(
                        #[trigger] m.txs@[i],
                        self@.targets[i],
                        self@.wait_time,
                    )
            },
    {
        match self.phase {
            Phase::Finished => {
                let txs = self.results.clone();
                assert(txs@ =~= self.results@);
                Some(
                    TransferMetrics {
                        from: self.source,
                        total: self.targets.len() as u64,
                        succeed: self.succeed,
                        txs,
                    },
                )
            },
            _ => None,
        }
    }

    fn refresh(&mut self, reported: Option<U256>)
        ensures
            final(self)@ == (State { nonce: refreshed(old(self)@.nonce, reported), ..old(self)@ }),
    {
        self.nonce.refresh(reported);
    }

    fn poll_from(&mut self, from: usize)
        requires
            from <= old(self)@.results.len(),
        ensures
            final(self)@ == poll_from(old(self)@, from as int),
    {
        let i = find_hashed(&self.results, from);
        if i < self.results.len() {
            self.phase = Phase::Poll;
            self.index = i;
            self.retry_left = self.wait_time;
        } else {
            self.phase = Phase::Finished;
        }
    }

    fn take_up(&mut self, index: usize)
        ensures
            final(self)@ == take_up(old(self)@, index as int),
    {
        if index < self.targets.len() {
            let target = self.targets[index];
            self.phase = Phase::Sign;
            self.index = index;
            self.metric = TxMetric::new(target.0, target.1);
        } else if self.need_wait {
            self.poll_from(0);
        } else {
            self.phase = Phase::Finished;
        }
    }

    fn file(&mut self)
        requires
            old(self)@.index < usize::MAX,
        ensures
            final(self)@ == file(old(self)@),
    {
        self.results.push(self.metric);
        self.take_up(self.index + 1);
    }

    fn accept(&mut self, hash: H256, next: Phase)
        ensures
            final(self)@ == accepted(old(self)@, hash, next),
    {
        self.metric.hash = Some(hash);
        if self.nonce.advance() {
            self.phase = next;
        } else {
            self.phase = Phase::Faulted(Fault::NonceExhausted);
        }
    }

    fn polled(&mut self, receipt: Option<Receipt>)
        requires
            valid(old(self)@),
            old(self)@.phase is Poll || old(self)@.phase is PollSleep,
        ensures
            final(self)@ == polled(old(self)@, receipt),
    {
        let mut metric = self.results[self.index];
        let confirmed = match receipt {
            Some(r) => match r.status {
                Some(code) => code == STATUS_SUCCESS,
                None => false,
            },
            None => false,
        };
        if confirmed {
            metric.status = STATUS_SUCCESS;
            self.succeed = self.succeed + 1;
        }
        metric.wait = match receipt {
            Some(_) => self.wait_time + 1 - self.retry_left,
            None => self.wait_time,
        };
        self.results.set(self.index, metric);
        self.poll_from(self.index + 1);
    }
}

/// Seconds to wait for one receipt: three block times and one more.
pub open spec fn wait_time_of(block_time: Option<u64>) -> int {
    match block_time {
        Some(t) => t * 3 + 1,
        None => BLOCK_TIME * 3 + 1,
    }
}

} // verus!
