//! How often a node is asked again, and how long is waited in between.

use vstd::prelude::*;

verus! {

/// Seconds that one request may take where a run names no other value.
pub const DEFAULT_TIMEOUT: u64 = 3;

/// Seconds between two requests for the pending nonce where the caller names no
/// other value.
pub const NONCE_INTERVAL: u64 = 5;

/// Seconds between two requests for a block where the caller names no other
/// value.
pub const BLOCK_INTERVAL: u64 = 1;

/// Seconds that one request may take.
pub fn timeout_secs(timeout: Option<u64>) -> (secs: u64)
    ensures
        secs == match timeout {
            Some(t) => t,
            None => DEFAULT_TIMEOUT,
        },
{
    match timeout {
        Some(t) => t,
        None => DEFAULT_TIMEOUT,
    }
}

/// Whether no further request is made after request number `tries`,
/// counted from one, has failed: `times` requests were made, or `times` is
/// zero, which allows one request only. Without `times` there is no end.
pub open spec fn gives_up(times: Option<u64>, tries: u64) -> bool {
    times == Some(tries) || times == Some(0u64)
}

/// In which order a failed request is followed by the wait and by the
/// decision to ask again.
#[derive(Clone, Copy, Debug, PartialEq, Eq)]
pub enum Order {
    /// The wait comes first, also before the last failure is final: so the
    /// pending nonce is asked for.
    WaitThenDecide,
    /// The decision comes first, and the wait only before another request:
    /// so a block is asked for.
    DecideThenWait,
}

/// Where a series of requests stands.
#[derive(Clone, Copy, Debug, PartialEq, Eq)]
pub enum RetryState {
    /// A request is to be made.
    Ask,
    /// A wait is to pass; `give_up` says whether it is the end afterwards.
    Wait { give_up: bool },
    /// The node answered.
    Answered,
    /// The node did not answer and is not asked again.
    GaveUp,
}

/// What to do next in a series of requests.
#[derive(Clone, Copy, Debug, PartialEq, Eq)]
pub enum RetryStep {
    /// Make the request; report with [`Retry::answered`] or
    /// [`Retry::failed`].
    Ask,
    /// Let this many seconds pass; report with [`Retry::waited`].
    Sleep(u64),
    /// The node answered: nothing is left to do.
    Answered,
    /// The node did not answer: nothing is left to do.
    GaveUp,
}

/// A series of requests for one thing, repeated while the node fails to
/// answer.
#[derive(Clone, Copy, Debug, PartialEq, Eq)]
pub struct Retry {
    /// Seconds between two requests.
    pub interval: u64,
    /// How many requests are made at most; without it there is no end.
    pub times: Option<u64>,
    /// The order of wait and decision.
    pub order: Order,
    /// The number of the request in hand, counted from one.
    pub tries: u64,
    /// Where the series stands.
    pub state: RetryState,
}

/// The number after `tries`; the largest number stays.
pub open spec fn next_try(tries: u64) -> u64 {
    if tries < u64::MAX {
        (tries + 1) as u64
    } else {
        tries
    }
}

/// The series after the request in hand failed.
pub open spec fn after_failure(r: Retry) -> Retry {
    match r.state {
        RetryState::Ask => match r.order {
            Order::WaitThenDecide => Retry {
                state: RetryState::Wait { give_up: gives_up(r.times, r.tries) },
                ..r
            },
            Order::DecideThenWait => if gives_up(r.times, r.tries) {
                Retry { state: RetryState::GaveUp, ..r }
            } else {
                Retry { state: RetryState::Wait { give_up: false }, ..r }
            },
        },
        _ => r,
    }
}

/// The series after the wait has passed.
pub open spec fn after_wait(r: Retry) -> Retry {
    match r.state {
        RetryState::Wait { give_up } => if give_up {
            Retry { state: RetryState::GaveUp, ..r }
        } else {
            Retry { state: RetryState::Ask, tries: next_try(r.tries), ..r }
        },
        _ => r,
    }
}

/// The series after the node answered.
pub open spec fn after_answer(r: Retry) -> Retry {
    match r.state {
        RetryState::Ask => Retry { state: RetryState::Answered, ..r },
        _ => r,
    }
}

impl Retry {
    /// The requests for a pending nonce: every `interval` seconds, five
    /// where none is given, `times` of them at most.
    pub fn for_nonce(interval: Option<u64>, times: Option<u64>) -> (r: Retry)
        ensures
            r == (Retry {
                interval: match interval {
                    Some(i) => i,
                    None => NONCE_INTERVAL,
                },
                times,
                order: Order::WaitThenDecide,
                tries: 1,
                state: RetryState::Ask,
            }),
    {
        Retry {
            interval: match interval {
                Some(i) => i,
                None => NONCE_INTERVAL,
            },
            times,
            order: Order::WaitThenDecide,
            tries: 1,
            state: RetryState::Ask,
        }
    }

    /// The requests for a block: every `interval` seconds, one where none
    /// is given, `times` of them at most.
    pub fn for_block(interval: Option<u64>, times: Option<u64>) -> (r: Retry)
        ensures
            r == (Retry {
                interval: match interval {
                    Some(i) => i,
                    None => BLOCK_INTERVAL,
                },
                times,
                order: Order::DecideThenWait,
                tries: 1,
                state: RetryState::Ask,
            }),
    {
        Retry {
            interval: match interval {
                Some(i) => i,
                None => BLOCK_INTERVAL,
            },
            times,
            order: Order::DecideThenWait,
            tries: 1,
            state: RetryState::Ask,
        }
    }

    /// What to do next.
    pub fn step(&self) -> (s: RetryStep)
        ensures
            s == match self.state {
                RetryState::Ask => RetryStep::Ask,
                RetryState::Wait { .. } => RetryStep::Sleep(self.interval),
                RetryState::Answered => RetryStep::Answered,
                RetryState::GaveUp => RetryStep::GaveUp,
            },
    {
        match self.state {
            RetryState::Ask => RetryStep::Ask,
            RetryState::Wait { .. } => RetryStep::Sleep(self.interval),
            RetryState::Answered => RetryStep::Answered,
            RetryState::GaveUp => RetryStep::GaveUp,
        }
    }

    /// Takes note that the node answered the request in hand.
    pub fn answered(&mut self)
        ensures
            *final(self) == after_answer(*old(self)),
    {
        if let RetryState::Ask = self.state {
            self.state = RetryState::Answered;
        }
    }

    /// Takes note that the request in hand failed.
    pub fn failed(&mut self)
        ensures
            *final(self) == after_failure(*old(self)),
    {
        if let RetryState::Ask = self.state {
            let last = match self.times {
                Some(t) => t == self.tries || t == 0,
                None => false,
            };
            match self.order {
                Order::WaitThenDecide => {
                    self.state = RetryState::Wait { give_up: last };
                },
                Order::DecideThenWait => {
                    if last {
                        self.state = RetryState::GaveUp;
                    } else {
                        self.state = RetryState::Wait { give_up: false };
                    }
                },
            }
        }
    }

    /// Takes note that the wait has passed.
    pub fn waited(&mut self)
        ensures
            *final(self) == after_wait(*old(self)),
    {
        if let RetryState::Wait { give_up } = self.state {
            if give_up {
                self.state = RetryState::GaveUp;
            } else {
                if self.tries < u64::MAX {
                    self.tries = self.tries + 1;
                }
                self.state = RetryState::Ask;
            }
        }
    }
}

/// The series after `failures` requests in a row failed, each followed by
/// its wait where one is due.
pub open spec fn after_failures(r: Retry, failures: nat) -> Retry
    decreases failures,
{
    if failures == 0 {
        r
    } else {
        after_wait(after_failure(after_failures(r, (failures - 1) as nat)))
    }
}

/// A series that allows `times` requests, one at least, asks exactly that
/// often while the node fails: after fewer failures it asks again, after
/// `times` it has given up.
pub proof fn lemma_bounded_retries(r: Retry, times: u64, failures: nat)
    requires
        r.state == RetryState::Ask,
        r.tries == 1,
        r.times == Some(times),
        1 <= times,
        failures <= times,
    ensures
        after_failures(r, failures).times == r.times,
        after_failures(r, failures).order == r.order,
        after_failures(r, failures).interval == r.interval,
        failures < times ==> after_failures(r, failures).state == RetryState::Ask
            && after_failures(r, failures).tries == failures + 1,
        failures == times ==> after_failures(r, failures).state == RetryState::GaveUp,
    decreases failures,
{
    if failures > 0 {
        lemma_bounded_retries(r, times, (failures - 1) as nat);
        let before = after_failures(r, (failures - 1) as nat);
        assert(before.state == RetryState::Ask && before.tries == failures);
        assert(gives_up(before.times, before.tries) == (failures == times));
    }
}

/// A series that allows zero requests makes one and gives up when it
/// fails.
pub proof fn lemma_zero_times_is_one_try(r: Retry)
    requires
        r.state == RetryState::Ask,
        r.times == Some(0u64),
    ensures
        after_failures(r, 1).state == RetryState::GaveUp,
{
    assert(after_failures(r, 0) == r);
}

/// The seconds reported for a receipt that did not come.
pub const NO_RECEIPT_WAIT: u64 = 0;

/// What a wait of `times` requests reports where the receipt first comes
/// on request `came`, counted from one, or never: the number of that
/// request and that it came; zero and that none came where it is not among
/// the `times` requests.
pub open spec fn wait_reported(times: u64, came: Option<u64>) -> (u64, bool) {
    match came {
        Some(k) => if 1 <= k <= times {
            (k, true)
        } else {
            (NO_RECEIPT_WAIT, false)
        },
        None => (NO_RECEIPT_WAIT, false),
    }
}

/// A wait of `times` requests after `misses` of them failed.
pub open spec fn after_misses(times: u64, misses: nat) -> ReceiptWait {
    ReceiptWait {
        times,
        left: if misses <= times {
            (times - misses) as u64
        } else {
            0
        },
    }
}

/// A wait of `times` requests makes no more than `times`: while fewer have
/// failed another is made, and the receipt that comes on request `k` is
/// reported with `k` seconds; after `times` failures none is left.
pub proof fn lemma_wait_reports(times: u64, k: u64)
    requires
        1 <= times < u64::MAX,
        1 <= k <= times,
    ensures
        after_misses(times, 0) == (ReceiptWait { times, left: times }),
        after_misses(times, (k - 1) as nat).left >= 1,
        times + 1 - after_misses(times, (k - 1) as nat).left == wait_reported(times, Some(k)).0,
        after_misses(times, times as nat).left == 0,
        wait_reported(times, None) == (NO_RECEIPT_WAIT, false),
{
}

/// The wait for one receipt: it is asked for every so often until it comes
/// or `times` requests have failed.
#[derive(Clone, Copy, Debug, PartialEq, Eq)]
pub struct ReceiptWait {
    /// How many requests are made at most; one at least.
    pub times: u64,
    /// How many of them are left; zero once the wait is over.
    pub left: u64,
}

impl ReceiptWait {
    /// A wait of `times` requests at most.
    pub fn new(times: u64) -> (w: ReceiptWait)
        requires
            1 <= times < u64::MAX,
        ensures
            w == (ReceiptWait { times, left: times }),
            w.wf(),
    {
        ReceiptWait { times, left: times }
    }

    /// Whether `left` is in range.
    pub open spec fn wf(&self) -> bool {
        self.left <= self.times && self.times < u64::MAX
    }

    /// The seconds waited when the receipt has come: one for this request
    /// and one for each that failed before it.
    pub fn received(&self) -> (wait: u64)
        requires
            self.wf(),
        ensures
            wait == self.times + 1 - self.left,
    {
        self.times + 1 - self.left
    }

    /// The seconds reported when the wait is over and no receipt has come:
    /// none.
    pub fn expired(&self) -> (wait: u64)
        ensures
            wait == NO_RECEIPT_WAIT,
    {
        NO_RECEIPT_WAIT
    }

    /// Takes note that a request failed and the interval has passed; says
    /// whether another request is made.
    pub fn missed(&mut self) -> (again: bool)
        ensures
            old(self).wf() ==> final(self).wf(),
            final(self).times == old(self).times,
            final(self).left == if old(self).left > 0 {
                (old(self).left - 1) as u64
            } else {
                0u64
            },
            again == (old(self).left > 1),
            forall|misses: nat|
                misses < old(self).times && *old(self) == after_misses(old(self).times, misses)
                    ==> *final(self) == #[trigger] after_misses(old(self).times, misses + 1),
    {
        if self.left > 0 {
            self.left = self.left - 1;
        }
        self.left > 0
    }
}

} // verus!
