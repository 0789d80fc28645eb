use feth::rpc::{timeout_secs, ReceiptWait, Retry, RetryStep};

/// The steps of a series in which every request fails, up to `limit` steps.
fn all_fail(mut r: Retry, limit: usize) -> Vec<RetryStep> {
    let mut steps = vec![];
    for _ in 0..limit {
        let step = r.step();
        steps.push(step);
        match step {
            RetryStep::Ask => r.failed(),
            RetryStep::Sleep(_) => r.waited(),
            RetryStep::Answered | RetryStep::GaveUp => break,
        }
    }
    steps
}

#[test]
fn the_timeout_is_three_seconds_unless_named() {
    assert_eq!(timeout_secs(None), 3);
    assert_eq!(timeout_secs(Some(10)), 10);
    assert_eq!(timeout_secs(Some(0)), 0);
}

#[test]
fn the_nonce_is_asked_for_every_five_seconds() {
    let steps = all_fail(Retry::for_nonce(None, Some(3)), 100);
    assert_eq!(
        steps,
        vec![
            RetryStep::Ask,
            RetryStep::Sleep(5),
            RetryStep::Ask,
            RetryStep::Sleep(5),
            RetryStep::Ask,
            RetryStep::Sleep(5),
            RetryStep::GaveUp
        ]
    );
}

#[test]
fn zero_times_means_one_request() {
    let steps = all_fail(Retry::for_nonce(Some(2), Some(0)), 100);
    assert_eq!(steps, vec![RetryStep::Ask, RetryStep::Sleep(2), RetryStep::GaveUp]);
    let steps = all_fail(Retry::for_block(Some(2), Some(0)), 100);
    assert_eq!(steps, vec![RetryStep::Ask, RetryStep::GaveUp]);
    let steps = all_fail(Retry::for_block(Some(2), Some(1)), 100);
    assert_eq!(steps, vec![RetryStep::Ask, RetryStep::GaveUp]);
}

#[test]
fn without_times_there_is_no_end() {
    let steps = all_fail(Retry::for_nonce(None, None), 1000);
    assert_eq!(steps.len(), 1000);
    assert!(!steps.contains(&RetryStep::GaveUp));
    let steps = all_fail(Retry::for_block(None, None), 50);
    assert_eq!(steps[..4], [RetryStep::Ask, RetryStep::Sleep(1), RetryStep::Ask, RetryStep::Sleep(1)]);
    assert!(!steps.contains(&RetryStep::GaveUp));
}

#[test]
fn a_block_is_asked_for_every_second_and_not_waited_for_at_the_end() {
    let steps = all_fail(Retry::for_block(None, Some(3)), 100);
    assert_eq!(
        steps,
        vec![
            RetryStep::Ask,
            RetryStep::Sleep(1),
            RetryStep::Ask,
            RetryStep::Sleep(1),
            RetryStep::Ask,
            RetryStep::GaveUp
        ]
    );
}

#[test]
fn an_answer_ends_the_series() {
    let mut r = Retry::for_nonce(None, Some(3));
    r.failed();
    r.waited();
    assert_eq!(r.tries, 2);
    r.answered();
    assert_eq!(r.step(), RetryStep::Answered);
    r.failed();
    r.waited();
    assert_eq!(r.step(), RetryStep::Answered);
}

#[test]
fn reports_out_of_turn_change_nothing() {
    let mut r = Retry::for_nonce(None, Some(3));
    r.waited();
    assert_eq!((r.step(), r.tries), (RetryStep::Ask, 1));
    r.failed();
    r.failed();
    r.answered();
    assert_eq!((r.step(), r.tries), (RetryStep::Sleep(5), 1));
}

#[test]
fn the_count_of_requests_stops_at_the_largest_number() {
    let mut r = Retry::for_nonce(None, None);
    r.tries = u64::MAX;
    r.failed();
    r.waited();
    assert_eq!((r.step(), r.tries), (RetryStep::Ask, u64::MAX));
}

#[test]
fn a_receipt_is_waited_for_so_many_times() {
    let mut w = ReceiptWait::new(3);
    assert_eq!(w.received(), 1);
    assert!(w.missed());
    assert_eq!(w.received(), 2);
    assert!(w.missed());
    assert_eq!(w.received(), 3);
    assert!(!w.missed());
    assert_eq!(w.left, 0);
    assert!(!w.missed());
    assert_eq!(w.left, 0);
    let mut once = ReceiptWait::new(1);
    assert_eq!(once.received(), 1);
    assert!(!once.missed());
}

#[test]
fn a_receipt_that_never_comes_is_reported_with_no_wait() {
    let mut w = ReceiptWait::new(3);
    let mut requests = 1;
    while w.missed() {
        requests += 1;
    }
    assert_eq!(requests, 3);
    assert_eq!(w.expired(), 0);
    assert_eq!(ReceiptWait::new(1).expired(), 0);
}
