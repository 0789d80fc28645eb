use feth::etl::{
    bounds_of_heights, height_bounds, no_bounds, parse_abcid, parse_tendermint, split_words,
    AbciEvent, BlockInfo, EtlError,
};

const EXECUTED: &str =
    "I[2022-04-07|02:17:07.759] Executed block                               module=state height=191 validTxs=3368 invalidTxs=666";

fn block(height: u64, timestamp: i64) -> BlockInfo {
    BlockInfo {
        height,
        timestamp,
        txs: 0,
        valid_txs: 0,
        block_time: None,
        begin: 0,
        snapshot: 0,
        end: 0,
        commit: 0,
        commit_evm: 0,
    }
}

/// A line of the application log with `fields` after its fifty-two
/// characters of time and place.
fn abci(fields: &str) -> String {
    let head = "2022-04-07 02:17:07.759 INFO abciapp::server::callback";
    format!("{:<52}{}", &head[..52.min(head.len())], fields)
}

#[test]
fn an_executed_block_is_read_with_its_time_and_counts() {
    let info = parse_tendermint(EXECUTED).unwrap().unwrap();
    assert_eq!(
        info,
        BlockInfo {
            height: 191,
            // 2022-04-07 02:17:07 UTC
            timestamp: 1_649_297_827,
            txs: 4034,
            valid_txs: 3368,
            block_time: None,
            begin: 0,
            snapshot: 0,
            end: 0,
            commit: 0,
            commit_evm: 0,
        }
    );
}

#[test]
fn other_lines_of_the_consensus_log_say_nothing() {
    assert_eq!(parse_tendermint(""), Ok(None));
    assert_eq!(
        parse_tendermint("I[2022-04-07|02:17:07.759] Committed state  module=state height=191"),
        Ok(None)
    );
    assert_eq!(parse_tendermint("executed block height=1 validTxs=1 invalidTxs=1"), Ok(None));
}

#[test]
fn a_line_that_is_too_short_for_its_time_is_refused() {
    assert_eq!(parse_tendermint("Executed block"), Err(EtlError::TooShort));
    assert_eq!(parse_tendermint("I[2022] Executed block"), Err(EtlError::TooShort));
    assert_eq!(parse_tendermint("I[2022] Executed block h=1"), Err(EtlError::BadTime));
}

#[test]
fn a_line_without_a_time_is_refused() {
    let line = EXECUTED.replace("2022-04-07", "2022-13-07");
    assert_eq!(parse_tendermint(&line), Err(EtlError::BadTime));
    let line = EXECUTED.replace("02:17:07.759", "xx:17:07.759");
    assert_eq!(parse_tendermint(&line), Err(EtlError::BadTime));
}

#[test]
fn a_line_without_its_numbers_is_refused() {
    for (from, to) in [
        ("height=191", "height=x"),
        ("height=191", "heigth=191"),
        ("validTxs=3368", ""),
        ("invalidTxs=666", "invalidTxs=-1"),
        ("invalidTxs=666", "invalidTxs=6=6"),
        ("validTxs=3368", "validTxs=18446744073709551615"),
    ] {
        assert_eq!(parse_tendermint(&EXECUTED.replace(from, to)), Err(EtlError::BadNumber));
    }
}

#[test]
fn the_last_word_for_a_number_counts() {
    let line = format!("{} height=7", EXECUTED);
    assert_eq!(parse_tendermint(&line).unwrap().unwrap().height, 7);
    let line = format!("{} height=x", EXECUTED);
    assert_eq!(parse_tendermint(&line), Err(EtlError::BadNumber));
    let line = format!("{} height=1=2 other=5", EXECUTED);
    assert_eq!(parse_tendermint(&line).unwrap().unwrap().height, 191);
}

#[test]
fn words_are_what_white_space_parts() {
    let words = |s: &str| -> Vec<String> {
        let chars: Vec<char> = s.chars().collect();
        split_words(&chars).iter().map(|w| w.iter().collect()).collect()
    };
    for s in ["", " ", "a", " a ", "a b", "a  b\tc\n", "td_height 781", "\u{a0}x\u{2003}y", "a\rb"] {
        let want: Vec<String> = s.split_whitespace().map(|w| w.to_string()).collect();
        assert_eq!(words(s), want, "words of {:?}", s);
    }
    assert_eq!(words("td_height 781"), vec!["td_height", "781"]);
}

#[test]
fn the_begin_of_a_block_gives_snapshot_and_begin() {
    let line = abci("tps,begin_block,31,32,td_height 781,end of begin_block");
    assert_eq!(
        parse_abcid(&line),
        Ok(Some(AbciEvent::BeginBlock { height: 781, snapshot: 31, begin: 32 }))
    );
}

#[test]
fn the_end_of_a_block_gives_end() {
    let line = abci("tps,end_block,6,td_height 781,end of end_block");
    assert_eq!(parse_abcid(&line), Ok(Some(AbciEvent::EndBlock { height: 781, end: 6 })));
}

#[test]
fn a_commit_gives_both_commit_times() {
    let line = abci("tps,commit,2,60,62,td_height 781,end of commit \n");
    assert_eq!(
        parse_abcid(&line),
        Ok(Some(AbciEvent::Commit { height: 781, commit_evm: 60, commit: 62 }))
    );
}

#[test]
fn other_lines_of_the_application_log_say_nothing() {
    assert_eq!(parse_abcid(""), Ok(None));
    assert_eq!(parse_abcid(&abci("something else")), Ok(None));
    assert_eq!(parse_abcid(&abci("tps,deliver_tx,5,td_height 781,end of deliver_tx")), Ok(None));
    assert_eq!(parse_abcid(&abci("tps,")), Ok(None));
}

#[test]
fn a_short_line_of_the_application_log_is_refused() {
    assert_eq!(parse_abcid("tps,end_block,6,td_height 781,end of end_block"), Err(EtlError::TooShort));
}

#[test]
fn an_event_without_its_numbers_is_refused() {
    for fields in [
        "tps,end_block,x,td_height 781,end of end_block",
        "tps,end_block,6,td_height,end of end_block",
        "tps,end_block,6,781,end of end_block",
        "tps,end_block,6,td_height x,end of end_block",
        "tps,begin_block,31,td_height 781,end of begin_block",
        "tps,commit,2,60,td_height 781,end of commit",
        "tps,end of commit",
    ] {
        assert_eq!(parse_abcid(&abci(fields)), Err(EtlError::BadNumber), "{}", fields);
    }
}

#[test]
fn events_are_taken_note_of() {
    let mut info = block(781, 100);
    let begin = AbciEvent::BeginBlock { height: 781, snapshot: 31, begin: 32 };
    let end = AbciEvent::EndBlock { height: 781, end: 6 };
    let commit = AbciEvent::Commit { height: 781, commit_evm: 60, commit: 62 };
    assert_eq!((begin.height(), end.height(), commit.height()), (781, 781, 781));
    info.note(&begin);
    assert_eq!((info.snapshot, info.begin, info.end, info.commit, info.commit_evm), (31, 32, 0, 0, 0));
    info.note(&end);
    info.note(&commit);
    assert_eq!((info.snapshot, info.begin, info.end, info.commit, info.commit_evm), (31, 32, 6, 62, 60));
    assert_eq!((info.height, info.timestamp), (781, 100));
}

#[test]
fn the_time_since_the_block_before_is_positive_or_zero() {
    assert_eq!(block(2, 116).seconds_since(Some(block(1, 100))), 16);
    assert_eq!(block(2, 100).seconds_since(Some(block(1, 100))), 0);
    assert_eq!(block(2, 90).seconds_since(Some(block(1, 100))), 0);
    assert_eq!(block(2, 90).seconds_since(None), 0);
    assert_eq!(block(2, i64::MAX).seconds_since(Some(block(1, 0))), i64::MAX);
    assert_eq!(block(2, i64::MAX).seconds_since(Some(block(1, -1))), 0);
    assert_eq!(block(2, -5).seconds_since(Some(block(1, -9))), 4);
}

#[test]
fn a_block_is_written_as_one_line() {
    let info = BlockInfo {
        height: 781,
        timestamp: 5,
        txs: 4034,
        valid_txs: 3368,
        block_time: Some(16),
        begin: 32,
        snapshot: 31,
        end: 6,
        commit: 62,
        commit_evm: 60,
    };
    assert_eq!(info.to_line(), "781,16,4034,32,31,6,62,60");
    assert_eq!(block(0, 0).to_line(), "0,0,0,0,0,0,0,0");
    let big = BlockInfo { height: u64::MAX, block_time: None, ..info };
    assert_eq!(big.to_line(), "18446744073709551615,0,4034,32,31,6,62,60");
}

#[test]
fn no_blocks_have_bounds_that_hold_nothing() {
    assert_eq!(no_bounds(), (u64::MAX, 0));
    assert_eq!(bounds_of_heights(&vec![]), (u64::MAX, 0));
}

#[test]
fn the_bounds_are_the_smallest_and_the_largest_height() {
    assert_eq!(height_bounds(no_bounds(), 191), (191, 191));
    assert_eq!(height_bounds((191, 191), 190), (190, 191));
    assert_eq!(height_bounds((190, 191), 195), (190, 195));
    assert_eq!(height_bounds((190, 195), 193), (190, 195));
    assert_eq!(height_bounds(no_bounds(), 0), (0, 0));
    assert_eq!(height_bounds(no_bounds(), u64::MAX), (u64::MAX, u64::MAX));
    assert_eq!(bounds_of_heights(&vec![5, 3, 9, 3, 7]), (3, 9));
}

#[test]
fn the_lines_of_a_log_give_the_bounds_of_their_heights() {
    let mut bounds = no_bounds();
    for height in [191u64, 192, 190, 200] {
        let line = EXECUTED.replace("height=191", &format!("height={}", height));
        let info = parse_tendermint(&line).unwrap().unwrap();
        bounds = height_bounds(bounds, info.height);
    }
    assert_eq!(bounds, (190, 200));
    assert_eq!(parse_tendermint("no block here"), Ok(None));
}
