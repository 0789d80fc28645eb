//! The overflow flag: which worker, if any, probes a full mempool while the
//! others wait.
//!
//! The flag is one integer shared by all workers. Zero means that nobody
//! probes; any other value is the id of the worker that does. A worker
//! becomes the probe by swapping the flag from zero to its id, and only the
//! probe swaps it back.

use std::sync::atomic::AtomicUsize;
use std::sync::atomic::Ordering;
use vstd::prelude::*;

verus! {

/// The flag's value while nobody probes.
pub const CLEAR: usize = 0;

/// Whether worker `id` is the probe when the flag reads `flag`.
pub open spec fn holds(flag: usize, id: usize) -> bool {
    id != CLEAR && flag == id
}

/// Whether worker `id` has to wait when the flag reads `flag`: somebody
/// probes, and it is another worker.
pub open spec fn must_park(flag: usize, id: usize) -> bool {
    flag != CLEAR && flag != id
}

/// Whether worker `id` has to wait when the flag reads `flag`.
pub fn should_park(flag: usize, id: usize) -> (r: bool)
    ensures
        r == must_park(flag, id),
{
    flag != CLEAR && flag != id
}

/// What a worker may do to the flag.
#[derive(Clone, Copy, Debug, PartialEq, Eq)]
pub enum FlagOp {
    /// The worker with this id swaps the flag from clear to its id.
    Acquire(usize),
    /// The worker with this id swaps the flag from its id to clear.
    Release(usize),
}

/// The flag after `op`, where it read `flag` before. A swap that does not
/// find the value it expects changes nothing.
pub open spec fn flag_after(flag: usize, op: FlagOp) -> usize {
    match op {
        FlagOp::Acquire(id) => if flag == CLEAR {
            id
        } else {
            flag
        },
        FlagOp::Release(id) => if flag == id {
            CLEAR
        } else {
            flag
        },
    }
}

/// The flag after all of `ops` in order, where it read `flag` before.
pub open spec fn flag_after_all(flag: usize, ops: Seq<FlagOp>) -> usize
    decreases ops.len(),
{
    if ops.len() == 0 {
        flag
    } else {
        flag_after_all(flag_after(flag, ops[0]), ops.drop_first())
    }
}

/// Whatever the flag reads, at most one worker is the probe.
pub proof fn lemma_one_probe(flag: usize, a: usize, b: usize)
    requires
        holds(flag, a),
        holds(flag, b),
    ensures
        a == b,
{
}

/// Whatever the workers did to the flag, and in whatever order, at most one
/// of them is the probe afterwards.
pub proof fn lemma_one_probe_after(ops: Seq<FlagOp>, a: usize, b: usize)
    requires
        holds(flag_after_all(CLEAR, ops), a),
        holds(flag_after_all(CLEAR, ops), b),
    ensures
        a == b,
{
}

/// A worker becomes the probe only from the clear flag, and nobody takes
/// the flag from the probe but the probe itself.
pub proof fn lemma_flag_protocol(flag: usize, op: FlagOp, id: usize)
    requires
        id != CLEAR,
    ensures
        !holds(flag, id) && holds(flag_after(flag, op), id) ==> flag == CLEAR && op
            == FlagOp::Acquire(id),
        holds(flag, id) && !holds(flag_after(flag, op), id) ==> op == FlagOp::Release(id),
{
}

/// Whether the swap `op` takes place where the flag reads `flag`: it finds
/// the value that it expects.
pub open spec fn takes_place(flag: usize, op: FlagOp) -> bool {
    match op {
        FlagOp::Acquire(_) => flag == CLEAR,
        FlagOp::Release(id) => flag == id,
    }
}

/// How many of `ops`, done in order from where the flag reads `flag`, take
/// place.
pub open spec fn swaps_done(flag: usize, ops: Seq<FlagOp>) -> nat
    decreases ops.len(),
{
    if ops.len() == 0 {
        0
    } else {
        swaps_done(flag_after(flag, ops[0]), ops.drop_first()) + if takes_place(flag, ops[0]) {
            1nat
        } else {
            0nat
        }
    }
}

/// Whether every one of `ops` is a worker's try to become the probe.
pub open spec fn all_acquire(ops: Seq<FlagOp>) -> bool {
    forall|k: int|
        0 <= k < ops.len() ==> (#[trigger] ops[k] matches FlagOp::Acquire(id) && id != CLEAR)
}

/// While a worker probes, nobody else becomes the probe: no try takes
/// place and the flag stays.
pub proof fn lemma_held_flag_stays(flag: usize, ops: Seq<FlagOp>)
    requires
        flag != CLEAR,
        all_acquire(ops),
    ensures
        swaps_done(flag, ops) == 0,
        flag_after_all(flag, ops) == flag,
    decreases ops.len(),
{
    if ops.len() > 0 {
        let rest = ops.drop_first();
        assert forall|k: int| 0 <= k < rest.len() implies (#[trigger] rest[k] matches FlagOp::Acquire(
            id,
        ) && id != CLEAR) by {
            assert(rest[k] == ops[k + 1]);
        }
        lemma_held_flag_stays(flag, rest);
    }
}

/// Of the workers that try to become the probe while the flag is clear, in
/// whatever order their swaps come, exactly one does: the first. The flag
/// reads its id afterwards.
pub proof fn lemma_one_worker_wins(ops: Seq<FlagOp>)
    requires
        ops.len() >= 1,
        all_acquire(ops),
    ensures
        swaps_done(CLEAR, ops) == 1,
        ops[0] matches FlagOp::Acquire(id) && flag_after_all(CLEAR, ops) == id && holds(
            flag_after_all(CLEAR, ops),
            id,
        ),
{
    let rest = ops.drop_first();
    assert forall|k: int| 0 <= k < rest.len() implies (#[trigger] rest[k] matches FlagOp::Acquire(
        id,
    ) && id != CLEAR) by {
        assert(rest[k] == ops[k + 1]);
    }
    assert(ops[0] matches FlagOp::Acquire(id) && id != CLEAR);
    lemma_held_flag_stays(flag_after(CLEAR, ops[0]), rest);
}

/// The overflow flag that the workers of one run share.
#[derive(Debug)]
pub struct OverflowFlag {
    flag: AtomicUsize,
}

impl OverflowFlag {
    /// A clear flag.
    pub fn new() -> OverflowFlag {
        OverflowFlag { flag: AtomicUsize::new(CLEAR) }
    }

    /// What the flag reads now.
    pub fn load(&self) -> usize {
        self.flag.load(Ordering::Acquire)
    }

    /// Swaps the flag from clear to `id`; says whether the swap took place.
    pub fn try_acquire(&self, id: usize) -> bool {
        self.flag.compare_exchange(CLEAR, id, Ordering::AcqRel, Ordering::Acquire).is_ok()
    }

    /// Swaps the flag from `id` to clear; says whether the swap took place.
    pub fn try_release(&self, id: usize) -> bool {
        self.flag.compare_exchange(id, CLEAR, Ordering::AcqRel, Ordering::Acquire).is_ok()
    }

    /// Whether worker `id` has to wait now.
    pub fn check_wait_overflow(&self, id: usize) -> bool {
        should_park(self.load(), id)
    }
}

} // verus!
