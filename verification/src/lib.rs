//! Core of a terminal process dashboard: the snapshot model and its
//! sort/select/refresh engine.
//!
//! A snapshot provider (an OS process enumerator, wired up outside this
//! library) hands over plain per-process counters and host totals; this
//! library derives comparable metrics from them, orders the table under a
//! user-selected sort key with a stable descending sort, and keeps a
//! wrap-around cursor valid while the list changes shape between refreshes.

pub mod model;
pub mod process_list;
pub mod sort;
pub mod state;

use vstd::prelude::*;

verus! {

/// Megabyte, in bytes.
pub const BYTES_PER_MB: u64 = 0x100000;

} // verus!
