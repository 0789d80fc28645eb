use feth::tasks::{max_tasks_update, must_drain, trend, verdict, TaskStats, Trend};

#[test]
fn no_task_is_started_while_as_many_run_as_may() {
    assert!(must_drain(2, 2));
    assert!(must_drain(2, 3));
    assert!(!must_drain(2, 1));
    assert!(must_drain(0, 0));
}

#[test]
fn averages_are_kept_for_the_first_ten_tasks() {
    let mut stats = TaskStats::new();
    assert_eq!(stats.average(), 0);
    for i in 1..=12u128 {
        assert!(stats.update_res_queue_secs(100 * i));
    }
    assert_eq!(stats.succeeded, 12);
    assert_eq!(stats.total, 7800);
    assert_eq!(stats.average(), 650);
    // The average after k tasks of 100, 200, ... is 50 (k + 1).
    assert_eq!(stats.averages, vec![100, 150, 200, 250, 300, 350, 400, 450, 500, 550]);
}

#[test]
fn the_average_rounds_down() {
    let mut stats = TaskStats::new();
    stats.update_res_queue_secs(1);
    stats.update_res_queue_secs(2);
    assert_eq!(stats.average(), 1);
    assert_eq!(stats.averages, vec![1, 1]);
}

#[test]
fn counts_that_do_not_fit_are_not_taken() {
    let mut stats = TaskStats { succeeded: 5, total: u128::MAX - 1, averages: vec![9] };
    assert!(!stats.update_res_queue_secs(2));
    assert_eq!(stats, TaskStats { succeeded: 5, total: u128::MAX - 1, averages: vec![9] });
    assert!(stats.update_res_queue_secs(1));
    assert_eq!(stats.total, u128::MAX);
    let mut full = TaskStats { succeeded: u32::MAX, total: 0, averages: vec![] };
    assert!(!full.update_res_queue_secs(0));
    assert_eq!(full.succeeded, u32::MAX);
}

#[test]
fn averages_within_the_range_are_steady() {
    assert_eq!(trend(1000, 1000, 100), Trend::Steady);
    assert_eq!(trend(1100, 1000, 100), Trend::Steady);
    assert_eq!(trend(1101, 1000, 100), Trend::Slower);
    assert_eq!(trend(900, 1000, 100), Trend::Steady);
    assert_eq!(trend(899, 1000, 100), Trend::Faster);
    assert_eq!(trend(0, u128::MAX, 100), Trend::Faster);
    assert_eq!(trend(u128::MAX, 0, 100), Trend::Slower);
}

#[test]
fn the_verdict_goes_by_the_majority_of_earlier_averages() {
    assert_eq!(verdict(&vec![], 100), Trend::Steady);
    assert_eq!(verdict(&vec![500], 100), Trend::Steady);
    assert_eq!(verdict(&vec![1000, 500], 100), Trend::Faster);
    assert_eq!(verdict(&vec![500, 1000], 100), Trend::Slower);
    assert_eq!(verdict(&vec![1000, 1000, 100, 500], 100), Trend::Faster);
    assert_eq!(verdict(&vec![100, 100, 1000, 500], 100), Trend::Slower);
    assert_eq!(verdict(&vec![500, 520, 480, 500], 100), Trend::Steady);
}

#[test]
fn a_tie_goes_by_the_average_before_the_latest() {
    // One earlier average is higher, one lower; the one before the latest
    // is the higher one.
    assert_eq!(verdict(&vec![100, 1000, 500], 100), Trend::Faster);
    assert_eq!(verdict(&vec![1000, 100, 500], 100), Trend::Slower);
    assert_eq!(verdict(&vec![100, 1000, 450, 500], 100), Trend::Steady);
}

#[test]
fn faster_tasks_double_the_limit_and_slower_ones_lower_it() {
    assert_eq!(max_tasks_update(2, &vec![1000, 500], 100), 4);
    assert_eq!(max_tasks_update(4, &vec![500, 1000], 100), 3);
    assert_eq!(max_tasks_update(4, &vec![500, 510], 100), 4);
    assert_eq!(max_tasks_update(4, &vec![500], 100), 4);
    assert_eq!(max_tasks_update(4, &vec![], 100), 4);
}

#[test]
fn the_limit_stays_within_its_bounds() {
    assert_eq!(max_tasks_update(1, &vec![500, 1000], 100), 1);
    assert_eq!(max_tasks_update(2, &vec![500, 1000], 100), 1);
    assert_eq!(max_tasks_update(u32::MAX, &vec![1000, 500], 100), u32::MAX);
    assert_eq!(max_tasks_update(u32::MAX / 2, &vec![1000, 500], 100), u32::MAX - 1);
    assert_eq!(max_tasks_update(u32::MAX / 2 + 1, &vec![1000, 500], 100), u32::MAX);
    assert_eq!(max_tasks_update(0, &vec![1000, 500], 100), 0);
    assert_eq!(max_tasks_update(0, &vec![500, 1000], 100), 0);
}
