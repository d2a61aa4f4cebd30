//! Shared view of a power time series: a vector of `(timestamp, value)`
//! pairs, the timestamp in hours since the Unix epoch and the value in
//! milliwatts. Every consumer that zips two series first checks that they
//! share one timestamp grid; a mismatch is an error, never a guess.
use crate::MAX_POWER_MW;
use vstd::prelude::*;

verus! {

/// One point of a power series: (hours since the epoch, milliwatts).
pub type PowerPoint = (u64, i64);

/// The power values of a series, in order, as mathematical integers.
pub open spec fn vals_of(s: Seq<PowerPoint>) -> Seq<int> {
    s.map_values(|p: PowerPoint| p.1 as int)
}

/// Two series are aligned when they have the same length and pairwise equal
/// timestamps.
pub open spec fn aligned(a: Seq<PowerPoint>, b: Seq<PowerPoint>) -> bool {
    &&& a.len() == b.len()
    &&& forall|i: int| 0 <= i < a.len() ==> a[i].0 == #[trigger] b[i].0
}

/// Every value of the series lies in `[0, MAX_POWER_MW]`.
pub open spec fn values_in_range(s: Seq<PowerPoint>) -> bool {
    forall|i: int| 0 <= i < s.len() ==> 0 <= (#[trigger] s[i]).1 <= MAX_POWER_MW
}

/// Checks that two series share one timestamp grid.
pub fn check_aligned(a: &Vec<PowerPoint>, b: &Vec<PowerPoint>) -> (r: bool)
    ensures
        r == aligned(a@, b@),
{
    if a.len() != b.len() {
        return false;
    }
    let n = a.len();
    let mut i: usize = 0;
    while i < n
        invariant
            n == a@.len() == b@.len(),
            0 <= i <= n,
            forall|j: int| 0 <= j < i ==> a@[j].0 == #[trigger] b@[j].0,
        decreases n - i,
    {
        if a[i].0 != b[i].0 {
            return false;
        }
        i = i + 1;
    }
    true
}

/// Checks that every value of the series lies in `[0, MAX_POWER_MW]`.
pub fn check_values_in_range(s: &Vec<PowerPoint>) -> (r: bool)
    ensures
        r == values_in_range(s@),
{
    let n = s.len();
    let mut i: usize = 0;
    while i < n
        invariant
            n == s@.len(),
            0 <= i <= n,
            forall|j: int| 0 <= j < i ==> 0 <= (#[trigger] s@[j]).1 <= MAX_POWER_MW,
        decreases n - i,
    {
        if s[i].1 < 0 || s[i].1 > MAX_POWER_MW {
            return false;
        }
        i = i + 1;
    }
    true
}

} // verus!
