//! How many contract tasks run at once: the count adapts to how long the
//! tasks take.

use vstd::prelude::*;

verus! {

/// How many averages are kept.
pub const RES_QUEUE_MAX_LEN: usize = 10;

/// Milliseconds by which two averages must differ to count as different.
pub const DELTA_RANGE: u128 = 100;

/// Milliseconds between two looks at the averages.
pub const UPDATE_INTERVAL: u64 = 300;

/// Milliseconds between two looks at a pending deployment.
pub const PULL_INTERVAL: u64 = 50;

/// How many tasks may run at once when a run starts.
pub const INITIAL_MAX_TASKS: u32 = 2;

/// Whether no further task is started until one has finished: as many run
/// as may run at once.
pub fn must_drain(max_tasks: u32, cur_tasks: u32) -> (wait: bool)
    ensures
        wait == (max_tasks <= cur_tasks),
{
    max_tasks <= cur_tasks
}

/// What is known of the tasks that succeeded.
#[derive(Clone, Debug, PartialEq, Eq)]
pub struct TaskStats {
    /// How many tasks succeeded.
    pub succeeded: u32,
    /// The milliseconds that they took in all.
    pub total: u128,
    /// The average after each of the first tasks, oldest first.
    pub averages: Vec<u128>,
}

/// The average of `total` over `succeeded` tasks; zero for no tasks.
pub open spec fn average_of(succeeded: u32, total: u128) -> u128 {
    if succeeded == 0 {
        0
    } else {
        total / (succeeded as u128)
    }
}

impl TaskStats {
    /// Nothing known yet.
    pub fn new() -> (s: TaskStats)
        ensures
            s.succeeded == 0,
            s.total == 0,
            s.averages@ == Seq::<u128>::empty(),
    {
        TaskStats { succeeded: 0, total: 0, averages: Vec::new() }
    }

    /// The milliseconds that a task took on average.
    pub fn average(&self) -> (a: u128)
        ensures
            a == average_of(self.succeeded, self.total),
    {
        if self.succeeded == 0 {
            0
        } else {
            self.total / (self.succeeded as u128)
        }
    }

    /// Takes note of a task that succeeded after `elapsed` milliseconds.
    /// The new average is kept while fewer than [`RES_QUEUE_MAX_LEN`] are.
    /// Nothing changes, and `false` comes back, where the counts would not
    /// fit.
    pub fn update_res_queue_secs(&mut self, elapsed: u128) -> (counted: bool)
        ensures
            counted == (old(self).succeeded < u32::MAX && old(self).total + elapsed <= u128::MAX),
            !counted ==> *final(self) == *old(self),
            counted ==> {
                &&& final(self).succeeded == old(self).succeeded + 1
                &&& final(self).total == old(self).total + elapsed
                &&& final(self).averages@ == if old(self).averages@.len() < RES_QUEUE_MAX_LEN {
                    old(self).averages@.push(
                        average_of(final(self).succeeded, final(self).total),
                    )
                } else {
                    old(self).averages@
                }
            },
    {
        if self.succeeded == u32::MAX {
            return false;
        }
        match self.total.checked_add(elapsed) {
            None => false,
            Some(total) => {
                self.succeeded = self.succeeded + 1;
                self.total = total;
                if self.averages.len() < RES_QUEUE_MAX_LEN {
                    let average = total / (self.succeeded as u128);
                    self.averages.push(average);
                }
                true
            },
        }
    }
}

/// How the latest average compares with an earlier one.
#[derive(Clone, Copy, Debug, PartialEq, Eq)]
pub enum Trend {
    /// The latest is lower by more than the range: tasks got faster.
    Faster,
    /// The latest is higher by more than the range: tasks got slower.
    Slower,
    /// They differ by no more than the range.
    Steady,
}

/// How `latest` compares with `earlier`, where averages within `delta` of
/// each other count as the same.
pub open spec fn trend_of(latest: u128, earlier: u128, delta: u128) -> Trend {
    if latest > earlier && latest - earlier > delta {
        Trend::Slower
    } else if latest < earlier && earlier - latest > delta {
        Trend::Faster
    } else {
        Trend::Steady
    }
}

/// How `latest` compares with `earlier`.
pub fn trend(latest: u128, earlier: u128, delta: u128) -> (t: Trend)
    ensures
        t == trend_of(latest, earlier, delta),
{
    if latest > earlier && latest - earlier > delta {
        Trend::Slower
    } else if latest < earlier && earlier - latest > delta {
        Trend::Faster
    } else {
        Trend::Steady
    }
}

/// How many of the first `upto` of `averages` show the trend `which`
/// against `latest`.
pub open spec fn votes(averages: Seq<u128>, latest: u128, delta: u128, which: Trend, upto: int) -> nat
    decreases upto,
{
    if upto <= 0 {
        0
    } else {
        votes(averages, latest, delta, which, upto - 1) + if trend_of(
            latest,
            averages[upto - 1],
            delta,
        ) == which {
            1nat
        } else {
            0nat
        }
    }
}

/// What the averages say of the tasks: the trend that more of the earlier
/// averages show against the latest; where as many show one as the other,
/// the trend against the one before the latest. Fewer than two averages
/// say nothing.
pub open spec fn verdict_of(averages: Seq<u128>, delta: u128) -> Trend {
    if averages.len() < 2 {
        Trend::Steady
    } else {
        let latest = averages.last();
        let faster = votes(averages, latest, delta, Trend::Faster, averages.len() - 1);
        let slower = votes(averages, latest, delta, Trend::Slower, averages.len() - 1);
        if faster > slower {
            Trend::Faster
        } else if slower > faster {
            Trend::Slower
        } else {
            trend_of(latest, averages[averages.len() - 2], delta)
        }
    }
}

/// What the averages say of the tasks; see [`verdict_of`].
pub fn verdict(averages: &Vec<u128>, delta: u128) -> (t: Trend)
    ensures
        t == verdict_of(averages@, delta),
{
    if averages.len() < 2 {
        return Trend::Steady;
    }
    let n = averages.len() - 1;
    let latest = averages[n];
    let mut faster: usize = 0;
    let mut slower: usize = 0;
    let mut i: usize = 0;
    while i < n
        invariant
            i <= n,
            n == averages.len() - 1,
            latest == averages@.last(),
            faster == votes(averages@, latest, delta, Trend::Faster, i as int),
            slower == votes(averages@, latest, delta, Trend::Slower, i as int),
            faster <= i,
            slower <= i,
        decreases n - i,
    {
        match trend(latest, averages[i], delta) {
            Trend::Faster => {
                faster += 1;
            },
            Trend::Slower => {
                slower += 1;
            },
            Trend::Steady => {},
        }
        i += 1;
    }
    if faster > slower {
        Trend::Faster
    } else if slower > faster {
        Trend::Slower
    } else {
        trend(latest, averages[n - 1], delta)
    }
}

/// How many tasks may run at once from now on: twice as many where tasks
/// got faster, as far as the number goes; one fewer where they got slower,
/// but not fewer than one.
pub open spec fn next_max_tasks(max_tasks: u32, verdict: Trend) -> u32 {
    match verdict {
        Trend::Faster => if max_tasks * 2 <= u32::MAX {
            (max_tasks * 2) as u32
        } else {
            u32::MAX
        },
        Trend::Slower => if max_tasks > 1 {
            (max_tasks - 1) as u32
        } else {
            max_tasks
        },
        Trend::Steady => max_tasks,
    }
}

/// How many tasks may run at once from now on, after a look at the
/// averages; see [`verdict_of`] and [`next_max_tasks`].
pub fn max_tasks_update(max_tasks: u32, averages: &Vec<u128>, delta: u128) -> (next: u32)
    ensures
        next == next_max_tasks(max_tasks, verdict_of(averages@, delta)),
{
    match verdict(averages, delta) {
        Trend::Faster => {
            if max_tasks <= u32::MAX / 2 {
                max_tasks * 2
            } else {
                u32::MAX
            }
        },
        Trend::Slower => {
            if max_tasks > 1 {
                max_tasks - 1
            } else {
                max_tasks
            }
        },
        Trend::Steady => max_tasks,
    }
}

} // verus!
