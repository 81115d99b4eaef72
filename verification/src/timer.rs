//! Wall-clock samples split into seconds and microseconds.

use vstd::prelude::*;
use crate::config::MICRO_PER_SEC;

verus! {

/// A wall-clock sample: whole seconds and the remaining microseconds.
#[derive(Debug, Clone, Copy, PartialEq, Eq, Structural)]
pub struct TimeVal {
    /// Second
    pub sec: usize,
    /// Microsecond
    pub usec: usize,
}

impl TimeVal {
    /// The sample that a raw microsecond count `us` splits into.
    pub open spec fn of_micros(us: usize) -> TimeVal {
        TimeVal { sec: us / MICRO_PER_SEC, usec: us % MICRO_PER_SEC }
    }

    /// The raw microsecond count that this sample stands for.
    pub open spec fn micros(self) -> int {
        self.sec * MICRO_PER_SEC + self.usec
    }

    /// A sample is normalized when its microsecond part is below one second.
    pub open spec fn normalized(self) -> bool {
        self.usec < MICRO_PER_SEC
    }

    /// Splits a raw microsecond count into seconds and microseconds.
    pub fn from_micros(us: usize) -> (tv: TimeVal)
        ensures
            tv == TimeVal::of_micros(us),
            tv.normalized(),
            tv.micros() == us,
    {
        proof {
            lemma_split_recovers(us);
        }
        TimeVal { sec: us / MICRO_PER_SEC, usec: us % MICRO_PER_SEC }
    }

    /// Puts the two parts together again: `sec * 1_000_000 + usec`, or `None`
    /// where that count does not fit in a machine word.
    pub fn to_micros(&self) -> (us: Option<usize>)
        ensures
            us == (if self.micros() <= usize::MAX {
                Some(self.micros() as usize)
            } else {
                None
            }),
    {
        match self.sec.checked_mul(MICRO_PER_SEC) {
            Some(whole) => whole.checked_add(self.usec),
            None => None,
        }
    }
}

/// Splitting a microsecond count and putting the parts together again gives
/// the count back, and the microsecond part of the split is below one second.
pub proof fn lemma_split_recovers(us: usize)
    ensures
        TimeVal::of_micros(us).micros() == us,
        TimeVal::of_micros(us).normalized(),
        TimeVal::of_micros(us).sec == us / 1_000_000,
        TimeVal::of_micros(us).usec == us % 1_000_000,
{
}

/// Two samples of a clock that advanced by `d` microseconds in between stand
/// for raw counts that differ by exactly `d`.
pub proof fn lemma_samples_differ_by_advance(first: usize, d: usize)
    requires
        first + d <= usize::MAX,
    ensures
        TimeVal::of_micros((first + d) as usize).micros() - TimeVal::of_micros(first).micros()
            == d,
{
    lemma_split_recovers(first);
    lemma_split_recovers((first + d) as usize);
}

} // verus!
