//! Reading a node's logs: what a line says of a block.

use crate::text::{
    chars_of, decimal, decimal_of, found_in, is_space, is_whitespace, number_of, occurs_in,
    parse_u64, same_chars, slice_of, split, split_chars, string_of, trim, trimmed, views,
};
use vstd::prelude::*;

verus! {

/// How the time at the start of a line of the consensus log is written.
pub const TIME_FORMAT: &'static str = "%Y-%m-%d|%H:%M:%S%.3f";

/// Where the time begins in a line of the consensus log.
pub const TIME_START: usize = 2;

/// Where the time ends in a line of the consensus log.
pub const TIME_END: usize = 25;

/// Where the fields begin in a line of the application log.
pub const FIELDS_START: usize = 52;

/// What is known of one block.
#[derive(Clone, Copy, Debug, PartialEq, Eq)]
pub struct BlockInfo {
    /// The block's height.
    pub height: u64,
    /// When it was executed, in seconds since 1970.
    pub timestamp: i64,
    /// How many transactions it holds.
    pub txs: u64,
    /// How many of them are valid.
    pub valid_txs: u64,
    /// Seconds since the block before, where known.
    pub block_time: Option<u64>,
    /// Time spent at the begin of the block.
    pub begin: u64,
    /// Time spent on the snapshot.
    pub snapshot: u64,
    /// Time spent at the end of the block.
    pub end: u64,
    /// Time spent on the commit.
    pub commit: u64,
    /// Time that the EVM spent on the commit.
    pub commit_evm: u64,
}

/// Why a line that tells of a block could not be read.
#[derive(Clone, Copy, Debug, PartialEq, Eq)]
pub enum EtlError {
    /// The line is too short to hold what it should.
    TooShort,
    /// The time at the start of the line is none.
    BadTime,
    /// A number is missing or is none.
    BadNumber,
}

/// The seconds since 1970 of the time that `text` spells in the format
/// `format`, as `chrono` reads it; none where it reads none.
pub uninterp spec fn timestamp_of(text: Seq<char>, format: Seq<char>) -> Option<i64>;

/// `chrono::NaiveDateTime::parse_from_str`, and the seconds since 1970 of
/// what it reads.
#[verifier::external_body]
fn parse_timestamp(text: &str, format: &str) -> (seconds: Option<i64>)
    ensures
        seconds == timestamp_of(text@, format@),
{
    match chrono::NaiveDateTime::parse_from_str(text, format) {
        Ok(time) => Some(time.and_utc().timestamp()),
        Err(_) => None,
    }
}

/// `piece` as a word, if it is one.
pub open spec fn word_if_any(piece: Seq<char>) -> Seq<Seq<char>> {
    if piece.len() > 0 {
        seq![piece]
    } else {
        Seq::empty()
    }
}

/// The words of `s` from position `from` on, where `current` holds the
/// characters of the word in hand. A word is a run of characters that are
/// no white space, as long as it can be.
pub open spec fn words_from(s: Seq<char>, from: int, current: Seq<char>) -> Seq<Seq<char>>
    decreases s.len() - from,
{
    if from < 0 || from >= s.len() {
        word_if_any(current)
    } else if is_space(s[from]) {
        word_if_any(current) + words_from(s, from + 1, Seq::empty())
    } else {
        words_from(s, from + 1, current.push(s[from]))
    }
}

/// The words of `s`, in order.
pub open spec fn words(s: Seq<char>) -> Seq<Seq<char>> {
    words_from(s, 0, Seq::empty())
}

/// The words of `s`, in order.
pub fn split_words(s: &Vec<char>) -> (out: Vec<Vec<char>>)
    ensures
        views(out@) == words(s@),
{
    let mut out: Vec<Vec<char>> = Vec::new();
    let mut current: Vec<char> = Vec::new();
    let mut i: usize = 0;
    assert(views(out@) + words_from(s@, 0, current@) =~= words(s@));
    while i < s.len()
        invariant
            i <= s.len(),
            words(s@) == views(out@) + words_from(s@, i as int, current@),
        decreases s.len() - i,
    {
        let c = s[i];
        let ghost here = words_from(s@, i as int, current@);
        if is_whitespace(c) {
            assert(here == word_if_any(current@) + words_from(s@, i + 1, Seq::empty()));
            if current.len() > 0 {
                let ghost before = out@;
                let ghost word = current@;
                out.push(current);
                current = Vec::new();
                assert(current@ =~= Seq::<char>::empty());
                assert(views(out@) =~= views(before) + seq![word]);
                assert(views(before) + (seq![word] + words_from(s@, i + 1, Seq::empty()))
                    =~= views(out@) + words_from(s@, i + 1, Seq::empty()));
            } else {
                assert(current@ =~= Seq::<char>::empty());
                assert(word_if_any(current@) + words_from(s@, i + 1, Seq::empty())
                    =~= words_from(s@, i + 1, Seq::empty()));
            }
        } else {
            assert(here == words_from(s@, i + 1, current@.push(c)));
            current.push(c);
        }
        i += 1;
    }
    if current.len() > 0 {
        let ghost before = out@;
        let ghost word = current@;
        out.push(current);
        assert(views(out@) =~= views(before) + seq![word]);
    } else {
        assert(views(out@) + Seq::<Seq<char>>::empty() =~= views(out@));
    }
    out
}

/// What the first `upto` of `words` say of the number named `key`: what
/// the last of them that reads `key`, `=` and a value gives as the value,
/// which is none where the value spells no number; `unset` where there is
/// no such word.
pub open spec fn field_of(
    words: Seq<Seq<char>>,
    key: Seq<char>,
    upto: int,
    unset: Option<u64>,
) -> Option<u64>
    decreases upto,
{
    if upto <= 0 {
        unset
    } else {
        let parts = split(words[upto - 1], '=');
        if parts.len() == 2 && parts[0] == key {
            match number_of(parts[1], u64::MAX as nat) {
                Some(n) => Some(n as u64),
                None => None,
            }
        } else {
            field_of(words, key, upto - 1, unset)
        }
    }
}

/// What `words` say of the number named `key`; see [`field_of`].
fn read_field(words: &Vec<Vec<char>>, key: &str) -> (r: Option<u64>)
    ensures
        r == field_of(views(words@), key@, words@.len() as int, None),
{
    let name = chars_of(key);
    let mut value: Option<u64> = None;
    let mut i: usize = 0;
    while i < words.len()
        invariant
            i <= words.len(),
            name@ == key@,
            value == field_of(views(words@), key@, i as int, None),
        decreases words.len() - i,
    {
        let parts = split_chars(&words[i], '=');
        assert(views(words@)[i as int] == words@[i as int]@);
        assert(views(parts@).len() == parts@.len());
        if parts.len() == 2 {
            assert(views(parts@)[0] == parts@[0]@);
            assert(views(parts@)[1] == parts@[1]@);
            if same_chars(&parts[0], &name) {
                value = parse_u64(&parts[1]);
            }
        }
        i += 1;
    }
    value
}

/// What a line of the consensus log says of a block: nothing where it does
/// not tell of an executed block; else the block's height, its time, and
/// its transactions, valid and not.
pub open spec fn tendermint_line_of(line: Seq<char>) -> core::result::Result<
    Option<BlockInfo>,
    EtlError,
> {
    let all = words(line);
    let height = field_of(all, "height"@, all.len() as int, None);
    let valid = field_of(all, "validTxs"@, all.len() as int, None);
    let invalid = field_of(all, "invalidTxs"@, all.len() as int, None);
    if !occurs_in(line, "Executed block"@) {
        Ok(None)
    } else if line.len() < TIME_END {
        Err(EtlError::TooShort)
    } else {
        match timestamp_of(line.subrange(TIME_START as int, TIME_END as int), TIME_FORMAT@) {
            None => Err(EtlError::BadTime),
            Some(timestamp) => if height is Some && valid is Some && invalid is Some && valid->0
                + invalid->0 <= u64::MAX {
                Ok(
                    Some(
                        BlockInfo {
                            height: height->0,
                            timestamp,
                            txs: (valid->0 + invalid->0) as u64,
                            valid_txs: valid->0,
                            block_time: None,
                            begin: 0,
                            snapshot: 0,
                            end: 0,
                            commit: 0,
                            commit_evm: 0,
                        },
                    ),
                )
            } else {
                Err(EtlError::BadNumber)
            },
        }
    }
}

/// What a line of the consensus log says of a block; see
/// [`tendermint_line_of`].
pub fn parse_tendermint(line: &str) -> (r: core::result::Result<Option<BlockInfo>, EtlError>)
    ensures
        r == tendermint_line_of(line@),
{
    let chars = chars_of(line);
    if !found_in(&chars, &chars_of("Executed block")) {
        return Ok(None);
    }
    if chars.len() < TIME_END {
        return Err(EtlError::TooShort);
    }
    let time_text = string_of(&slice_of(&chars, TIME_START, TIME_END));
    let timestamp = match parse_timestamp(time_text.as_str(), TIME_FORMAT) {
        Some(t) => t,
        None => {
            return Err(EtlError::BadTime);
        },
    };
    let all = split_words(&chars);
    let height = read_field(&all, "height");
    let valid = read_field(&all, "validTxs");
    let invalid = read_field(&all, "invalidTxs");
    match (height, valid, invalid) {
        (Some(h), Some(v), Some(iv)) => {
            match v.checked_add(iv) {
                Some(txs) => Ok(
                    Some(
                        BlockInfo {
                            height: h,
                            timestamp,
                            txs,
                            valid_txs: v,
                            block_time: None,
                            begin: 0,
                            snapshot: 0,
                            end: 0,
                            commit: 0,
                            commit_evm: 0,
                        },
                    ),
                ),
                None => Err(EtlError::BadNumber),
            }
        },
        _ => Err(EtlError::BadNumber),
    }
}

/// The smallest and the largest height once `height` is counted in, where
/// `bounds` are the smallest and the largest so far.
pub open spec fn bounds_after(bounds: (u64, u64), height: u64) -> (u64, u64) {
    (
        if height < bounds.0 {
            height
        } else {
            bounds.0
        },
        if height > bounds.1 {
            height
        } else {
            bounds.1
        },
    )
}

/// The smallest and the largest of the first `upto` of `heights`; for no
/// heights the largest number and zero, which bound nothing.
pub open spec fn bounds_of(heights: Seq<u64>, upto: int) -> (u64, u64)
    decreases upto,
{
    if upto <= 0 {
        (u64::MAX, 0u64)
    } else {
        bounds_after(bounds_of(heights, upto - 1), heights[upto - 1])
    }
}

/// The bounds before any block was read: the largest number and zero.
pub fn no_bounds() -> (r: (u64, u64))
    ensures
        r == bounds_of(Seq::<u64>::empty(), 0),
        r == (u64::MAX, 0u64),
{
    (u64::MAX, 0)
}

/// The smallest and the largest height once `height` is counted in.
pub fn height_bounds(bounds: (u64, u64), height: u64) -> (r: (u64, u64))
    ensures
        r == bounds_after(bounds, height),
{
    (
        if height < bounds.0 {
            height
        } else {
            bounds.0
        },
        if height > bounds.1 {
            height
        } else {
            bounds.1
        },
    )
}

/// The smallest and the largest of `heights`.
pub fn bounds_of_heights(heights: &Vec<u64>) -> (r: (u64, u64))
    ensures
        r == bounds_of(heights@, heights@.len() as int),
{
    let mut bounds = no_bounds();
    let mut i: usize = 0;
    while i < heights.len()
        invariant
            i <= heights.len(),
            bounds == bounds_of(heights@, i as int),
        decreases heights.len() - i,
    {
        bounds = height_bounds(bounds, heights[i]);
        i += 1;
    }
    bounds
}

/// The bounds of heights hold all of them, and each bound is one of the
/// heights.
pub proof fn lemma_bounds_of(heights: Seq<u64>, upto: int)
    requires
        0 < upto <= heights.len(),
    ensures
        forall|i: int|
            0 <= i < upto ==> bounds_of(heights, upto).0 <= #[trigger] heights[i] <= bounds_of(
                heights,
                upto,
            ).1,
        exists|i: int| 0 <= i < upto && #[trigger] heights[i] == bounds_of(heights, upto).0,
        exists|i: int| 0 <= i < upto && #[trigger] heights[i] == bounds_of(heights, upto).1,
    decreases upto,
{
    let last = heights[upto - 1];
    let before = bounds_of(heights, upto - 1);
    let all = bounds_of(heights, upto);
    if upto > 1 {
        lemma_bounds_of(heights, upto - 1);
        let low = choose|i: int| 0 <= i < upto - 1 && #[trigger] heights[i] == before.0;
        let high = choose|i: int| 0 <= i < upto - 1 && #[trigger] heights[i] == before.1;
        if last < before.0 {
            assert(heights[upto - 1] == all.0);
        } else {
            assert(heights[low] == all.0);
        }
        if last > before.1 {
            assert(heights[upto - 1] == all.1);
        } else {
            assert(heights[high] == all.1);
        }
    } else {
        assert(before == (u64::MAX, 0u64));
        assert(heights[upto - 1] == all.0);
        assert(heights[upto - 1] == all.1);
    }
}

/// What a line of the application log tells of a block.
#[derive(Clone, Copy, Debug, PartialEq, Eq)]
pub enum AbciEvent {
    /// The begin of a block was handled.
    BeginBlock { height: u64, snapshot: u64, begin: u64 },
    /// The end of a block was handled.
    EndBlock { height: u64, end: u64 },
    /// A block was committed.
    Commit { height: u64, commit_evm: u64, commit: u64 },
}

/// The number that field `i` of `fields` spells.
pub open spec fn number_at(fields: Seq<Seq<char>>, i: int) -> Option<u64> {
    if 0 <= i < fields.len() {
        match number_of(fields[i], u64::MAX as nat) {
            Some(n) => Some(n as u64),
            None => None,
        }
    } else {
        None
    }
}

/// The height that the last field but one tells: its second word.
pub open spec fn height_in(fields: Seq<Seq<char>>) -> Option<u64> {
    if fields.len() < 2 {
        None
    } else {
        number_at(words(fields[fields.len() - 2]), 1)
    }
}

/// The event that the fields of a line tell of, by the text of the last
/// field; nothing where that is the text of no event.
pub open spec fn abci_event_of(fields: Seq<Seq<char>>) -> core::result::Result<
    Option<AbciEvent>,
    EtlError,
> {
    let kind = trimmed(fields.last());
    let height = height_in(fields);
    if kind == "end of begin_block"@ {
        if height is Some && number_at(fields, 2) is Some && number_at(fields, 3) is Some {
            Ok(
                Some(
                    AbciEvent::BeginBlock {
                        height: height->0,
                        snapshot: number_at(fields, 2)->0,
                        begin: number_at(fields, 3)->0,
                    },
                ),
            )
        } else {
            Err(EtlError::BadNumber)
        }
    } else if kind == "end of end_block"@ {
        if height is Some && number_at(fields, 2) is Some {
            Ok(Some(AbciEvent::EndBlock { height: height->0, end: number_at(fields, 2)->0 }))
        } else {
            Err(EtlError::BadNumber)
        }
    } else if kind == "end of commit"@ {
        if height is Some && number_at(fields, 3) is Some && number_at(fields, 4) is Some {
            Ok(
                Some(
                    AbciEvent::Commit {
                        height: height->0,
                        commit_evm: number_at(fields, 3)->0,
                        commit: number_at(fields, 4)->0,
                    },
                ),
            )
        } else {
            Err(EtlError::BadNumber)
        }
    } else {
        Ok(None)
    }
}

/// What a line of the application log tells of a block: nothing where it
/// holds no `tps,`; else the event named in the last of the fields that
/// commas part from position [`FIELDS_START`] on.
pub open spec fn abcid_line_of(line: Seq<char>) -> core::result::Result<
    Option<AbciEvent>,
    EtlError,
> {
    if !occurs_in(line, "tps,"@) {
        Ok(None)
    } else if line.len() < FIELDS_START {
        Err(EtlError::TooShort)
    } else {
        abci_event_of(split(line.subrange(FIELDS_START as int, line.len() as int), ','))
    }
}

/// The number that field `i` of `fields` spells.
fn read_number(fields: &Vec<Vec<char>>, i: usize) -> (r: Option<u64>)
    ensures
        r == number_at(views(fields@), i as int),
{
    if i < fields.len() {
        assert(views(fields@)[i as int] == fields@[i as int]@);
        parse_u64(&fields[i])
    } else {
        None
    }
}

/// What a line of the application log tells of a block; see
/// [`abcid_line_of`].
pub fn parse_abcid(line: &str) -> (r: core::result::Result<Option<AbciEvent>, EtlError>)
    ensures
        r == abcid_line_of(line@),
{
    let chars = chars_of(line);
    if !found_in(&chars, &chars_of("tps,")) {
        return Ok(None);
    }
    if chars.len() < FIELDS_START {
        return Err(EtlError::TooShort);
    }
    let rest = slice_of(&chars, FIELDS_START, chars.len());
    let fields = split_chars(&rest, ',');
    proof {
        crate::text::lemma_split_not_empty(rest@, ',');
    }
    assert(views(fields@).len() == fields@.len());
    let last = &fields[fields.len() - 1];
    assert(views(fields@).last() == last@);
    let kind = string_of(last);
    let kind = chars_of(trim(kind.as_str()));
    let height = if fields.len() < 2 {
        None
    } else {
        let holder = &fields[fields.len() - 2];
        assert(views(fields@)[fields@.len() - 2] == holder@);
        let parts = split_words(holder);
        read_number(&parts, 1)
    };
    if same_chars(&kind, &chars_of("end of begin_block")) {
        match (height, read_number(&fields, 2), read_number(&fields, 3)) {
            (Some(h), Some(snapshot), Some(begin)) => Ok(
                Some(AbciEvent::BeginBlock { height: h, snapshot, begin }),
            ),
            _ => Err(EtlError::BadNumber),
        }
    } else if same_chars(&kind, &chars_of("end of end_block")) {
        match (height, read_number(&fields, 2)) {
            (Some(h), Some(end)) => Ok(Some(AbciEvent::EndBlock { height: h, end })),
            _ => Err(EtlError::BadNumber),
        }
    } else if same_chars(&kind, &chars_of("end of commit")) {
        match (height, read_number(&fields, 3), read_number(&fields, 4)) {
            (Some(h), Some(commit_evm), Some(commit)) => Ok(
                Some(AbciEvent::Commit { height: h, commit_evm, commit }),
            ),
            _ => Err(EtlError::BadNumber),
        }
    } else {
        Ok(None)
    }
}

impl AbciEvent {
    /// The height of the block that the event tells of.
    pub fn height(&self) -> (h: u64)
        ensures
            h == match *self {
                AbciEvent::BeginBlock { height, .. } => height,
                AbciEvent::EndBlock { height, .. } => height,
                AbciEvent::Commit { height, .. } => height,
            },
    {
        match *self {
            AbciEvent::BeginBlock { height, .. } => height,
            AbciEvent::EndBlock { height, .. } => height,
            AbciEvent::Commit { height, .. } => height,
        }
    }
}

/// What is known of a block once `event` is taken note of.
pub open spec fn noted(info: BlockInfo, event: AbciEvent) -> BlockInfo {
    match event {
        AbciEvent::BeginBlock { snapshot, begin, .. } => BlockInfo { snapshot, begin, ..info },
        AbciEvent::EndBlock { end, .. } => BlockInfo { end, ..info },
        AbciEvent::Commit { commit_evm, commit, .. } => BlockInfo { commit_evm, commit, ..info },
    }
}

impl BlockInfo {
    /// Takes note of what `event` tells of this block.
    pub fn note(&mut self, event: &AbciEvent)
        ensures
            *final(self) == noted(*old(self), *event),
    {
        match *event {
            AbciEvent::BeginBlock { snapshot, begin, .. } => {
                self.snapshot = snapshot;
                self.begin = begin;
            },
            AbciEvent::EndBlock { end, .. } => {
                self.end = end;
            },
            AbciEvent::Commit { commit_evm, commit, .. } => {
                self.commit_evm = commit_evm;
                self.commit = commit;
            },
        }
    }

    /// The seconds from the block before to this one, where that block is
    /// known and older; else zero.
    pub fn seconds_since(&self, before: Option<BlockInfo>) -> (seconds: i64)
        ensures
            seconds == seconds_after(self.timestamp, before),
    {
        match before {
            Some(b) => {
                if self.timestamp > b.timestamp {
                    match self.timestamp.checked_sub(b.timestamp) {
                        Some(d) => d,
                        None => 0,
                    }
                } else {
                    0
                }
            },
            None => 0,
        }
    }

    /// The block as one line: height, block time, transactions, and the
    /// times of begin, snapshot, end, commit and the EVM's commit, with
    /// commas between them.
    pub fn to_line(&self) -> (line: String)
        ensures
            line@ == line_of(*self),
    {
        let block_time = match self.block_time {
            Some(t) => t,
            None => 0,
        };
        let mut out: Vec<char> = decimal_of(self.height);
        append_number(&mut out, block_time);
        append_number(&mut out, self.txs);
        append_number(&mut out, self.begin);
        append_number(&mut out, self.snapshot);
        append_number(&mut out, self.end);
        append_number(&mut out, self.commit);
        append_number(&mut out, self.commit_evm);
        string_of(&out)
    }
}

/// The seconds from the block `before` to one executed at `timestamp`,
/// where `before` is known, is older and the difference is an `i64`; else
/// zero.
pub open spec fn seconds_after(timestamp: i64, before: Option<BlockInfo>) -> i64 {
    match before {
        Some(b) => if timestamp > b.timestamp && timestamp - b.timestamp <= i64::MAX {
            (timestamp - b.timestamp) as i64
        } else {
            0
        },
        None => 0,
    }
}

/// A block as one line.
pub open spec fn line_of(info: BlockInfo) -> Seq<char> {
    decimal(info.height as nat) + seq![','] + decimal(
        match info.block_time {
            Some(t) => t as nat,
            None => 0,
        },
    ) + seq![','] + decimal(info.txs as nat) + seq![','] + decimal(info.begin as nat) + seq![',']
        + decimal(info.snapshot as nat) + seq![','] + decimal(info.end as nat) + seq![',']
        + decimal(info.commit as nat) + seq![','] + decimal(info.commit_evm as nat)
}

/// Adds a comma and the number `n` to `out`.
fn append_number(out: &mut Vec<char>, n: u64)
    ensures
        final(out)@ == old(out)@ + seq![','] + decimal(n as nat),
{
    let ghost start = out@;
    out.push(',');
    let digits = decimal_of(n);
    let mut i: usize = 0;
    while i < digits.len()
        invariant
            i <= digits.len(),
            out@ == start + seq![','] + digits@.take(i as int),
        decreases digits.len() - i,
    {
        out.push(digits[i]);
        assert(start + seq![','] + digits@.take(i + 1) =~= (start + seq![','] + digits@.take(
            i as int,
        )).push(digits@[i as int]));
        i += 1;
    }
    assert(digits@.take(digits.len() as int) =~= digits@);
}

} // verus!
