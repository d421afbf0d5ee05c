//! The process table: the ordered rows the presentation adapter renders,
//! and the usage buckets it colors them by.

use vstd::prelude::*;

verus! {

use crate::BYTES_PER_MB;
use crate::model::{DerivedRow, HostTotals};
use crate::sort::{sort_rows, spec_sort_rows};
use crate::state::State;

/// The ordered table body: the derived rows of the current snapshot,
/// stably sorted under the state's sort key — heaviest first, provider
/// order under `Sorting::Unsorted`. The state itself is only read; turning
/// rows into terminal cells is the presentation adapter's job.
pub fn process_list(state: &State) -> (rows: Vec<DerivedRow>)
    ensures
        rows@ == spec_sort_rows(state.rows@, state.sorting),
{
    let n: usize = state.rows.len();
    let mut copy: Vec<DerivedRow> = Vec::new();
    let mut i: usize = 0;
    while i < n
        invariant
            i <= n,
            n == state.rows@.len(),
            copy@.len() == i as int,
            forall|k: int| 0 <= k < i ==> copy@[k] == state.rows@[k],
        decreases n - i,
    {
        let row = state.rows[i].clone();
        copy.push(row);
        i = i + 1;
    }
    assert(copy@ =~= state.rows@);
    sort_rows(copy, state.sorting)
}

/// How heavily a metric uses its maximum, bucketed for color-coding.
#[derive(PartialEq, Eq, Structural, Clone, Copy, Debug)]
pub enum UsageLevel {
    /// Strictly above 75% of the maximum.
    Critical,
    /// Strictly above 50%.
    High,
    /// Strictly above 25%.
    Elevated,
    /// Strictly above 5%.
    Moderate,
    /// Strictly above 1%.
    Low,
    /// Strictly above 0.1%.
    Minimal,
    /// Everything else, a zero maximum included.
    Idle,
}

/// The bucket of `value / max`, decided by exact per-mille comparisons.
pub open spec fn spec_usage_level(value: int, max: int) -> UsageLevel {
    if 1000 * value > 750 * max {
        UsageLevel::Critical
    } else if 1000 * value > 500 * max {
        UsageLevel::High
    } else if 1000 * value > 250 * max {
        UsageLevel::Elevated
    } else if 1000 * value > 50 * max {
        UsageLevel::Moderate
    } else if 1000 * value > 10 * max {
        UsageLevel::Low
    } else if 1000 * value > 1 * max {
        UsageLevel::Minimal
    } else {
        UsageLevel::Idle
    }
}

/// Bucket `value` as a share of `max`. With `max == 0`, any positive value
/// counts as `Critical` and zero as `Idle`.
pub fn usage_level(value: u64, max: u64) -> (r: UsageLevel)
    ensures
        r == spec_usage_level(value as int, max as int),
{
    let v: u128 = (value as u128) * 1000;
    let m: u128 = max as u128;
    if v > m * 750 {
        UsageLevel::Critical
    } else if v > m * 500 {
        UsageLevel::High
    } else if v > m * 250 {
        UsageLevel::Elevated
    } else if v > m * 50 {
        UsageLevel::Moderate
    } else if v > m * 10 {
        UsageLevel::Low
    } else if v > m * 1 {
        UsageLevel::Minimal
    } else {
        UsageLevel::Idle
    }
}

/// The three buckets a row is colored by: resident memory as a share of
/// the host's total (whole megabytes on both sides), normalized CPU as a
/// share of 100%, and cumulative disk megabytes as a share of 100.
pub open spec fn spec_row_levels(row: DerivedRow, totals: HostTotals) -> (UsageLevel, UsageLevel, UsageLevel) {
    (
        spec_usage_level(
            row.memory_centi_mb as int / 100,
            totals.total_memory_bytes as int / (BYTES_PER_MB as int),
        ),
        spec_usage_level(row.cpu_centi as int / 100, 100),
        spec_usage_level(row.disk_centi_mb as int / 100, 100),
    )
}

/// Compute a row's memory, CPU and disk buckets.
pub fn row_levels(row: &DerivedRow, totals: &HostTotals) -> (r: (
    UsageLevel,
    UsageLevel,
    UsageLevel,
))
    ensures
        r == spec_row_levels(*row, *totals),
{
    let memory = usage_level(row.memory_centi_mb / 100, totals.total_memory_bytes / BYTES_PER_MB);
    let cpu = usage_level(row.cpu_centi / 100, 100);
    let disk = usage_level(row.disk_centi_mb / 100, 100);
    (memory, cpu, disk)
}

} // verus!
