use feth::blocks::{block_infos, block_range, block_time, BlockInfo, FetchedBlock, RangeError};
use feth::u256::U256;

fn fetched(number: u64, timestamp: u64, count: usize) -> Option<FetchedBlock> {
    Some(FetchedBlock { number, timestamp: U256::from_u64(timestamp), count })
}

#[test]
fn a_negative_count_gives_the_blocks_before_the_start() {
    // Blocks 97, 98, 99 and 100.
    assert_eq!(block_range(100, Some(-3), None), Ok((97, 101)));
}

#[test]
fn a_negative_count_stops_at_the_first_block() {
    assert_eq!(block_range(2, Some(-3), None), Ok((0, 3)));
    assert_eq!(block_range(3, Some(-3), None), Ok((0, 4)));
    assert_eq!(block_range(4, Some(-3), None), Ok((1, 5)));
    assert_eq!(block_range(0, Some(-1), None), Ok((0, 1)));
    assert_eq!(block_range(5, Some(i64::MIN), None), Ok((0, 6)));
}

#[test]
fn a_count_of_zero_gives_the_start_alone() {
    assert_eq!(block_range(100, Some(0), Some(3)), Ok((100, 101)));
}

#[test]
fn a_positive_count_gives_the_start_and_so_many_more() {
    assert_eq!(block_range(100, Some(3), None), Ok((100, 104)));
    assert_eq!(block_range(0, Some(i64::MAX), None), Ok((0, i64::MAX as u64 + 1)));
}

#[test]
fn without_a_count_the_range_ends_at_the_latest_block() {
    assert_eq!(block_range(100, None, Some(250)), Ok((100, 251)));
    assert_eq!(block_range(100, None, Some(100)), Ok((100, 101)));
}

#[test]
fn a_start_above_the_latest_block_is_refused() {
    assert_eq!(
        block_range(101, None, Some(100)),
        Err(RangeError::StartAboveLatest { start: 101, latest: 100 })
    );
}

#[test]
fn without_count_and_height_there_is_no_range() {
    assert_eq!(block_range(5, None, None), Err(RangeError::NoLatest));
}

#[test]
fn a_range_that_ends_beyond_the_numbers_is_refused() {
    assert_eq!(block_range(u64::MAX, Some(0), None), Err(RangeError::TooHigh));
    assert_eq!(block_range(u64::MAX, Some(-2), None), Err(RangeError::TooHigh));
    assert_eq!(block_range(u64::MAX - 3, Some(3), None), Err(RangeError::TooHigh));
    assert_eq!(block_range(u64::MAX - 4, Some(3), None), Ok((u64::MAX - 4, u64::MAX)));
    assert_eq!(block_range(0, None, Some(u64::MAX)), Err(RangeError::TooHigh));
}

#[test]
fn block_time_is_the_difference_of_the_timestamps() {
    assert_eq!(block_time(&U256::from_u64(1_650_000_016), &U256::from_u64(1_650_000_000)), Some(16));
    assert_eq!(block_time(&U256::from_u64(5), &U256::from_u64(5)), Some(0));
    assert_eq!(block_time(&U256::from_u64(5), &U256::from_u64(6)), None);
    assert_eq!(block_time(&U256::from_limbs([0, 1, 0, 0]), &U256::zero()), None);
    assert_eq!(
        block_time(&U256::from_limbs([0, 1, 0, 0]), &U256::one()),
        Some(u64::MAX)
    );
}

#[test]
fn blocks_are_shown_in_order_with_the_time_since_the_one_before() {
    let blocks = vec![
        fetched(97, 1_000, 3),
        fetched(98, 1_016, 0),
        fetched(99, 1_031, 7),
        fetched(100, 1_050, 1),
    ];
    let shown = block_infos(fetched(96, 990, 2), &blocks);
    let rows: Vec<_> = shown
        .iter()
        .map(|b| {
            let b = b.unwrap();
            (b.number, b.timestamp.limbs[0], b.count, b.block_time)
        })
        .collect();
    assert_eq!(
        rows,
        vec![(97, 1_000, 3, 10), (98, 1_016, 0, 16), (99, 1_031, 7, 15), (100, 1_050, 1, 19)]
    );
}

#[test]
fn the_first_block_of_the_chain_has_no_block_time() {
    let shown = block_infos(None, &vec![fetched(0, 1_000, 0), fetched(1, 1_005, 0)]);
    assert_eq!(shown[0].unwrap().block_time, 0);
    assert_eq!(shown[1].unwrap().block_time, 5);
}

#[test]
fn a_block_that_is_missing_breaks_the_chain_of_times() {
    let blocks = vec![fetched(10, 100, 0), None, fetched(12, 130, 0), fetched(13, 140, 0)];
    let shown = block_infos(None, &blocks);
    assert_eq!(shown.len(), 4);
    assert_eq!(
        shown[0],
        Some(BlockInfo { number: 10, timestamp: U256::from_u64(100), count: 0, block_time: 0 })
    );
    assert_eq!(shown[1], None);
    // Block 11 is not known, so block 12 has no block time.
    assert_eq!(shown[2].unwrap().block_time, 0);
    assert_eq!(shown[3].unwrap().block_time, 10);
}

#[test]
fn timestamps_that_go_back_give_no_block_time() {
    let shown = block_infos(None, &vec![fetched(1, 100, 0), fetched(2, 90, 0)]);
    assert_eq!(shown[1].unwrap().block_time, 0);
}
