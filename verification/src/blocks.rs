//! Which blocks to show, and the time that passed between them.

use crate::u256::U256;
use vstd::prelude::*;

verus! {

/// Why no range of blocks could be named.
#[derive(Debug, Clone, Copy, PartialEq, Eq)]
pub enum RangeError {
    /// The first block asked for is above the chain's latest.
    StartAboveLatest { start: u64, latest: u64 },
    /// The chain's height is needed and the node gave none.
    NoLatest,
    /// The last block asked for has no 64-bit number.
    TooHigh,
}

/// The size of `count`, whatever its sign.
pub open spec fn magnitude(count: i64) -> nat {
    if count < 0 {
        (-count) as nat
    } else {
        count as nat
    }
}

/// The blocks to show, as the first and the one after the last.
///
/// With a count of zero it is the block `start` alone; with a negative count
/// so many blocks before `start`, as far as there are, and `start`; with a
/// positive count `start` and so many after it. Without a count it is every
/// block from `start` to the chain's `latest`.
pub open spec fn range_of(start: u64, count: Option<i64>, latest: Option<u64>) -> core::result::Result<
    (int, int),
    RangeError,
> {
    match count {
        Some(c) => if c < 0 {
            if start > magnitude(c) {
                Ok((start - magnitude(c), start + 1))
            } else {
                Ok((0, start + 1))
            }
        } else {
            Ok((start as int, start + magnitude(c) + 1))
        },
        None => match latest {
            Some(end) => if start > end {
                Err(RangeError::StartAboveLatest { start, latest: end })
            } else {
                Ok((start as int, end + 1))
            },
            None => Err(RangeError::NoLatest),
        },
    }
}

/// The blocks to show, as the first and the one after the last; see
/// [`range_of`]. The chain's `latest` is looked at only where there is no
/// count.
pub fn block_range(start: u64, count: Option<i64>, latest: Option<u64>) -> (r: core::result::Result<
    (u64, u64),
    RangeError,
>)
    ensures
        match r {
            Ok((first, end)) => range_of(start, count, latest) == Ok::<_, RangeError>(
                (first as int, end as int),
            ),
            Err(RangeError::TooHigh) => range_of(start, count, latest) matches Ok((_, end))
                && end > u64::MAX,
            Err(e) => range_of(start, count, latest) == Err::<(int, int), _>(e),
        },
{
    match count {
        Some(c) => {
            if start == u64::MAX {
                return Err(RangeError::TooHigh);
            }
            if c < 0 {
                // The size of `c`, also where `-c` is no `i64`.
                let size: u64 = (-(c + 1)) as u64 + 1;
                if start > size {
                    Ok((start - size, start + 1))
                } else {
                    Ok((0, start + 1))
                }
            } else {
                let size: u64 = c as u64;
                if size > u64::MAX - 1 - start {
                    Err(RangeError::TooHigh)
                } else {
                    Ok((start, start + size + 1))
                }
            }
        },
        None => match latest {
            Some(end) => {
                if start > end {
                    Err(RangeError::StartAboveLatest { start, latest: end })
                } else if end == u64::MAX {
                    Err(RangeError::TooHigh)
                } else {
                    Ok((start, end + 1))
                }
            },
            None => Err(RangeError::NoLatest),
        },
    }
}

/// A block as the node reported it.
#[derive(Debug, Clone, Copy, PartialEq, Eq)]
pub struct FetchedBlock {
    /// The block's height.
    pub number: u64,
    /// When it was made, in seconds.
    pub timestamp: U256,
    /// How many transactions it holds.
    pub count: usize,
}

/// A block as it is shown.
#[derive(Debug, Clone, Copy, PartialEq, Eq)]
pub struct BlockInfo {
    /// The block's height.
    pub number: u64,
    /// When it was made, in seconds.
    pub timestamp: U256,
    /// How many transactions it holds.
    pub count: usize,
    /// Seconds since the block one below, where that is known; else zero.
    pub block_time: u64,
}

/// The seconds from `previous` to `current`, where that is a `u64`.
pub open spec fn seconds_between(current: U256, previous: U256) -> Option<u64> {
    if previous@ <= current@ && current@ - previous@ <= u64::MAX {
        Some((current@ - previous@) as u64)
    } else {
        None
    }
}

/// The seconds from `previous` to `current`, where that is a `u64`.
pub fn block_time(current: &U256, previous: &U256) -> (r: Option<u64>)
    ensures
        r == seconds_between(*current, *previous),
{
    match current.checked_sub(previous) {
        Some(diff) => diff.as_u64(),
        None => None,
    }
}

/// The block that was fetched last among the first `upto` of `blocks`;
/// `before` where none of them was.
pub open spec fn last_fetched(
    before: Option<FetchedBlock>,
    blocks: Seq<Option<FetchedBlock>>,
    upto: int,
) -> Option<FetchedBlock>
    decreases upto,
{
    if upto <= 0 {
        before
    } else if blocks[upto - 1] is Some {
        blocks[upto - 1]
    } else {
        last_fetched(before, blocks, upto - 1)
    }
}

/// The block `block` as it is shown after `previous`: its block time is the
/// time since `previous` where that is the block one below, else zero.
pub open spec fn shown(block: FetchedBlock, previous: Option<FetchedBlock>) -> BlockInfo {
    BlockInfo {
        number: block.number,
        timestamp: block.timestamp,
        count: block.count,
        block_time: match previous {
            Some(p) => if p.number + 1 == block.number {
                match seconds_between(block.timestamp, p.timestamp) {
                    Some(t) => t,
                    None => 0,
                }
            } else {
                0
            },
            None => 0,
        },
    }
}

/// The blocks as they are shown, one for each that was asked for; `before`
/// is the block below the first, where it was fetched. A block that could
/// not be fetched is shown as nothing.
pub fn block_infos(before: Option<FetchedBlock>, blocks: &Vec<Option<FetchedBlock>>) -> (out: Vec<
    Option<BlockInfo>,
>)
    ensures
        out@.len() == blocks@.len(),
        forall|i: int|
            0 <= i < blocks@.len() ==> #[trigger] out@[i] == match blocks@[i] {
                Some(b) => Some(shown(b, last_fetched(before, blocks@, i))),
                None => None,
            },
{
    let mut out: Vec<Option<BlockInfo>> = Vec::new();
    let mut previous = before;
    let mut i: usize = 0;
    while i < blocks.len()
        invariant
            i <= blocks.len(),
            out@.len() == i,
            previous == last_fetched(before, blocks@, i as int),
            forall|k: int|
                0 <= k < i ==> #[trigger] out@[k] == match blocks@[k] {
                    Some(b) => Some(shown(b, last_fetched(before, blocks@, k))),
                    None => None,
                },
        decreases blocks.len() - i,
    {
        match blocks[i] {
            Some(b) => {
                let time = match previous {
                    Some(p) => {
                        if p.number < u64::MAX && p.number + 1 == b.number {
                            match block_time(&b.timestamp, &p.timestamp) {
                                Some(t) => t,
                                None => 0,
                            }
                        } else {
                            0
                        }
                    },
                    None => 0,
                };
                out.push(
                    Some(
                        BlockInfo {
                            number: b.number,
                            timestamp: b.timestamp,
                            count: b.count,
                            block_time: time,
                        },
                    ),
                );
                previous = Some(b);
            },
            None => {
                out.push(None);
            },
        }
        i += 1;
    }
    out
}

} // verus!
