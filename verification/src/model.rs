//! Data model of one refresh cycle: raw process samples, host totals, and
//! the derived rows with normalized, comparable metrics.
//!
//! All metrics are held as exact integers. Fractional quantities (megabytes,
//! percentages) are kept in hundredths, so a value of `1234` reads `12.34`.

use vstd::prelude::*;

verus! {

use crate::BYTES_PER_MB;

/// One process as reported by the snapshot provider for the current refresh.
/// Materialized fresh each refresh cycle, never mutated in place.
pub struct ProcessSample {
    /// Process id; unique within one snapshot.
    pub pid: u64,
    /// Display name.
    pub name: String,
    /// Resident memory, in bytes.
    pub memory_bytes: u64,
    /// Instantaneous CPU utilization summed across all logical cores, in
    /// hundredths of a percent; may exceed 100_00 on multi-core hosts.
    pub cpu_total_centi: u64,
    /// Cumulative bytes read from disk since process start.
    pub disk_read_bytes: u64,
    /// Cumulative bytes written to disk since process start.
    pub disk_written_bytes: u64,
}

impl Clone for ProcessSample {
    fn clone(&self) -> (r: Self)
        ensures
            r == *self,
    {
        ProcessSample {
            pid: self.pid,
            name: self.name.clone(),
            memory_bytes: self.memory_bytes,
            cpu_total_centi: self.cpu_total_centi,
            disk_read_bytes: self.disk_read_bytes,
            disk_written_bytes: self.disk_written_bytes,
        }
    }
}

/// Refresh-scoped host context, used only to normalize per-process metrics.
#[derive(Clone, Copy)]
pub struct HostTotals {
    /// Total installed memory, in bytes; must be positive.
    pub total_memory_bytes: u64,
    /// Number of logical cores; must be at least one.
    pub core_count: u64,
}

impl HostTotals {
    /// The snapshot provider's obligations: positive memory, at least one core.
    pub open spec fn valid(self) -> bool {
        self.total_memory_bytes > 0 && self.core_count >= 1
    }

    /// Runtime check of `valid`.
    pub fn is_valid(&self) -> (r: bool)
        ensures
            r == self.valid(),
    {
        self.total_memory_bytes > 0 && self.core_count >= 1
    }
}

/// Why a refresh (or part of one) could not be carried out.
#[derive(PartialEq, Eq, Structural, Clone, Copy, Debug)]
pub enum RefreshError {
    /// Host totals reported zero memory or zero cores; the tick is abandoned
    /// and the prior display is retained.
    InvalidHostTotals,
    /// The snapshot provider could not enumerate processes; the tick is
    /// skipped and the prior display is retained.
    ProviderUnavailable,
}

/// A `ProcessSample` plus normalized metrics. Normalization is pure and
/// total: every sample yields exactly one row.
pub struct DerivedRow {
    /// Process id, copied from the sample.
    pub pid: u64,
    /// Display name, copied from the sample.
    pub name: String,
    /// Resident memory in bytes, copied from the sample.
    pub memory_bytes: u64,
    /// Raw CPU utilization summed across cores, in hundredths of a percent.
    pub cpu_total_centi: u64,
    /// Cumulative disk bytes read, copied from the sample.
    pub disk_read_bytes: u64,
    /// Cumulative disk bytes written, copied from the sample.
    pub disk_written_bytes: u64,
    /// Resident memory in hundredths of a megabyte.
    pub memory_centi_mb: u64,
    /// CPU utilization normalized per logical core, hundredths of a percent.
    pub cpu_centi: u64,
    /// Combined cumulative disk traffic (read plus written) in hundredths of
    /// a megabyte.
    pub disk_centi_mb: u64,
}

impl Clone for DerivedRow {
    fn clone(&self) -> (r: Self)
        ensures
            r == *self,
    {
        DerivedRow {
            pid: self.pid,
            name: self.name.clone(),
            memory_bytes: self.memory_bytes,
            cpu_total_centi: self.cpu_total_centi,
            disk_read_bytes: self.disk_read_bytes,
            disk_written_bytes: self.disk_written_bytes,
            memory_centi_mb: self.memory_centi_mb,
            cpu_centi: self.cpu_centi,
            disk_centi_mb: self.disk_centi_mb,
        }
    }
}

/// Bytes converted to hundredths of a megabyte, rounding down.
pub open spec fn centi_mb_of(bytes: int) -> int {
    bytes * 100 / (BYTES_PER_MB as int)
}

/// Combined cumulative disk traffic of a sample, in bytes.
pub open spec fn disk_total_bytes(s: ProcessSample) -> int {
    s.disk_read_bytes + s.disk_written_bytes
}

/// The one row a sample yields under given host totals.
pub open spec fn spec_derive(s: ProcessSample, h: HostTotals) -> DerivedRow {
    DerivedRow {
        pid: s.pid,
        name: s.name,
        memory_bytes: s.memory_bytes,
        cpu_total_centi: s.cpu_total_centi,
        disk_read_bytes: s.disk_read_bytes,
        disk_written_bytes: s.disk_written_bytes,
        memory_centi_mb: centi_mb_of(s.memory_bytes as int) as u64,
        cpu_centi: (s.cpu_total_centi as int / h.core_count as int) as u64,
        disk_centi_mb: centi_mb_of(disk_total_bytes(s)) as u64,
    }
}

/// A row's rounded display fields agree with its raw counters under the
/// given host totals. Every row `spec_derive` yields has this shape.
pub open spec fn derived_consistent(r: DerivedRow, h: HostTotals) -> bool {
    &&& r.memory_centi_mb == centi_mb_of(r.memory_bytes as int)
    &&& r.cpu_centi == r.cpu_total_centi as int / h.core_count as int
    &&& r.disk_centi_mb == centi_mb_of(r.disk_read_bytes + r.disk_written_bytes)
}

/// Normalization totality, field level: the one row a sample yields keeps
/// the sample's raw counters and carries display fields consistent with
/// them.
pub proof fn lemma_derive_consistent(s: ProcessSample, h: HostTotals)
    requires
        h.valid(),
    ensures
        derived_consistent(spec_derive(s, h), h),
{
    lemma_centi_mb_fits(s.memory_bytes as int);
    lemma_centi_mb_fits(disk_total_bytes(s));
    vstd::arithmetic::div_mod::lemma_div_nonincreasing(
        s.cpu_total_centi as int,
        h.core_count as int,
    );
    vstd::arithmetic::div_mod::lemma_div_pos_is_pos(s.cpu_total_centi as int, h.core_count as int);
}

/// `bytes * 100 / 1 MB` stays comfortably below `2^64` for any byte count
/// that fits in two 64-bit counters.
proof fn lemma_centi_mb_fits(bytes: int)
    requires
        0 <= bytes <= 2 * (u64::MAX as int),
    ensures
        0 <= centi_mb_of(bytes) <= bytes,
        centi_mb_of(bytes) <= u64::MAX,
{
    vstd::arithmetic::div_mod::lemma_div_pos_is_pos(bytes * 100, BYTES_PER_MB as int);
    vstd::arithmetic::div_mod::lemma_div_is_ordered(bytes * 100, bytes * (BYTES_PER_MB as int), BYTES_PER_MB as int);
    vstd::arithmetic::div_mod::lemma_div_by_multiple(bytes, BYTES_PER_MB as int);
}

/// Normalize one sample. The division is well-defined because the host
/// totals have been checked by the caller.
pub fn derive_sample(sample: ProcessSample, host: &HostTotals) -> (row: DerivedRow)
    requires
        host.valid(),
    ensures
        row == spec_derive(sample, *host),
{
    proof {
        lemma_centi_mb_fits(sample.memory_bytes as int);
        lemma_centi_mb_fits(disk_total_bytes(sample));
    }
    let memory_centi_mb: u64 = ((sample.memory_bytes as u128) * 100 / (BYTES_PER_MB as u128)) as u64;
    let disk_sum: u128 = sample.disk_read_bytes as u128 + sample.disk_written_bytes as u128;
    let disk_centi_mb: u64 = (disk_sum * 100 / (BYTES_PER_MB as u128)) as u64;
    let cpu_centi: u64 = sample.cpu_total_centi / host.core_count;
    DerivedRow {
        pid: sample.pid,
        name: sample.name,
        memory_bytes: sample.memory_bytes,
        cpu_total_centi: sample.cpu_total_centi,
        disk_read_bytes: sample.disk_read_bytes,
        disk_written_bytes: sample.disk_written_bytes,
        memory_centi_mb,
        cpu_centi,
        disk_centi_mb,
    }
}

/// Normalize a whole snapshot, or reject it when the host totals are
/// unusable. Every sample yields exactly one row, in sample order; no row
/// is ever dropped.
pub fn derive_rows(samples: Vec<ProcessSample>, host: &HostTotals) -> (r: Result<
    Vec<DerivedRow>,
    RefreshError,
>)
    ensures
        r is Ok <==> host.valid(),
        !host.valid() ==> r == Err::<Vec<DerivedRow>, RefreshError>(
            RefreshError::InvalidHostTotals,
        ),
        r matches Ok(rows) ==> {
            &&& rows@.len() == samples@.len()
            &&& forall|k: int|
                0 <= k < samples@.len() ==> rows@[k] == spec_derive(samples@[k], *host)
        },
{
    if !host.is_valid() {
        return Err(RefreshError::InvalidHostTotals);
    }
    let ghost orig = samples@;
    let mut pending = samples;
    let mut rows: Vec<DerivedRow> = Vec::new();
    while pending.len() > 0
        invariant
            host.valid(),
            rows@.len() + pending@.len() == orig.len(),
            pending@ == orig.skip(rows@.len() as int),
            forall|k: int| 0 <= k < rows@.len() ==> rows@[k] == spec_derive(orig[k], *host),
        decreases pending@.len(),
    {
        let ghost done = rows@.len() as int;
        let s = pending.remove(0);
        assert(s == orig[done]);
        let row = derive_sample(s, host);
        rows.push(row);
        proof {
            assert(pending@ =~= orig.skip(done + 1));
        }
    }
    Ok(rows)
}

} // verus!
