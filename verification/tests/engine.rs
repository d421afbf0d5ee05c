//! End-to-end checks of the snapshot engine: metric derivation, stable
//! sorting under each key, and the wrap-around selection tracker.

use system_insights::model::{HostTotals, ProcessSample, RefreshError};
use system_insights::process_list::{process_list, row_levels, usage_level, UsageLevel};
use system_insights::sort::sort_rows;
use system_insights::state::{Command, Cursor, Sorting, State};
use system_insights::BYTES_PER_MB;

fn sample(pid: u64, name: &str, memory_mb: u64, cpu_centi: u64, read: u64, written: u64) -> ProcessSample {
    ProcessSample {
        pid,
        name: String::from(name),
        memory_bytes: memory_mb * BYTES_PER_MB,
        cpu_total_centi: cpu_centi,
        disk_read_bytes: read,
        disk_written_bytes: written,
    }
}

fn host() -> HostTotals {
    HostTotals {
        total_memory_bytes: 8192 * BYTES_PER_MB,
        core_count: 4,
    }
}

fn loaded_state(samples: Vec<ProcessSample>) -> State {
    let mut state = State::new();
    state.apply_snapshot(samples, host()).unwrap();
    state
}

#[test]
fn derivation_is_exact() {
    let mut state = State::new();
    // 3 MB + half a megabyte of resident memory; 200% raw CPU on 4 cores;
    // 1 MB read + 2 MB written.
    let s = ProcessSample {
        pid: 7,
        name: String::from("worker"),
        memory_bytes: 3 * BYTES_PER_MB + BYTES_PER_MB / 2,
        cpu_total_centi: 200_00,
        disk_read_bytes: BYTES_PER_MB,
        disk_written_bytes: 2 * BYTES_PER_MB,
    };
    state.apply_snapshot(vec![s], host()).unwrap();
    assert_eq!(state.rows.len(), 1);
    let row = &state.rows[0];
    assert_eq!(row.pid, 7);
    assert_eq!(row.name, "worker");
    assert_eq!(row.memory_centi_mb, 350); // 3.50 MB
    assert_eq!(row.cpu_centi, 50_00); // 50.00% per core
    assert_eq!(row.disk_centi_mb, 300); // 3.00 MB cumulative
}

#[test]
fn derivation_is_total() {
    // Every sample yields exactly one row, in provider order.
    let samples = vec![
        sample(1, "a", 1, 0, 0, 0),
        sample(2, "b", 2, 0, 0, 0),
        sample(3, "c", 3, 0, 0, 0),
    ];
    let state = loaded_state(samples);
    assert_eq!(state.rows.len(), 3);
    assert_eq!(state.rows[0].pid, 1);
    assert_eq!(state.rows[1].pid, 2);
    assert_eq!(state.rows[2].pid, 3);
}

#[test]
fn invalid_host_totals_retain_prior_display() {
    let mut state = loaded_state(vec![sample(1, "a", 10, 0, 0, 0)]);
    let bad = HostTotals { total_memory_bytes: 0, core_count: 4 };
    let r = state.apply_snapshot(vec![sample(2, "b", 20, 0, 0, 0)], bad);
    assert_eq!(r, Err(RefreshError::InvalidHostTotals));
    // prior rows are still shown
    assert_eq!(state.rows.len(), 1);
    assert_eq!(state.rows[0].pid, 1);

    let no_cores = HostTotals { total_memory_bytes: 1, core_count: 0 };
    let r = state.apply_snapshot(vec![], no_cores);
    assert_eq!(r, Err(RefreshError::InvalidHostTotals));
    assert_eq!(state.rows.len(), 1);
}

#[test]
fn memory_sort_heaviest_first() {
    // Memory MB [10, 50, 5] sorts to [50, 10, 5].
    let state = loaded_state(vec![
        sample(1, "a", 10, 0, 0, 0),
        sample(2, "b", 50, 0, 0, 0),
        sample(3, "c", 5, 0, 0, 0),
    ]);
    assert_eq!(state.sorting, Sorting::Memory); // the default key
    let rows = process_list(&state);
    let mb: Vec<u64> = rows.iter().map(|r| r.memory_centi_mb / 100).collect();
    assert_eq!(mb, vec![50, 10, 5]);
}

#[test]
fn processor_sort_ranks_by_normalized_cpu() {
    // Raw CPU% [200, 50] on a 4-core host normalizes to [50.00, 12.50].
    let mut state = loaded_state(vec![
        sample(1, "small", 1, 50_00, 0, 0),
        sample(2, "big", 1, 200_00, 0, 0),
    ]);
    state.apply_command(Command::SortByProcessor);
    let rows = process_list(&state);
    assert_eq!(rows[0].cpu_centi, 50_00);
    assert_eq!(rows[1].cpu_centi, 12_50);
    assert_eq!(rows[0].pid, 2);
}

#[test]
fn disk_sort_uses_combined_throughput() {
    let mut state = loaded_state(vec![
        sample(1, "a", 1, 0, 100, 100),
        sample(2, "b", 1, 0, 500, 0),
        sample(3, "c", 1, 0, 0, 300),
    ]);
    state.apply_command(Command::SortByDisk);
    let rows = process_list(&state);
    let pids: Vec<u64> = rows.iter().map(|r| r.pid).collect();
    assert_eq!(pids, vec![2, 3, 1]);
}

#[test]
fn unsorted_keeps_provider_order() {
    let mut state = loaded_state(vec![
        sample(9, "a", 10, 0, 0, 0),
        sample(4, "b", 50, 0, 0, 0),
        sample(7, "c", 5, 0, 0, 0),
    ]);
    state.apply_command(Command::SortByNone);
    let rows = process_list(&state);
    let pids: Vec<u64> = rows.iter().map(|r| r.pid).collect();
    assert_eq!(pids, vec![9, 4, 7]);
}

#[test]
fn sort_is_stable_on_equal_metrics() {
    // No distinguishing metric differences: provider order is reproduced,
    // however often the sort is repeated.
    let state = loaded_state(vec![
        sample(5, "a", 8, 0, 0, 0),
        sample(1, "b", 8, 0, 0, 0),
        sample(9, "c", 8, 0, 0, 0),
        sample(2, "d", 8, 0, 0, 0),
    ]);
    let once = process_list(&state);
    let pids: Vec<u64> = once.iter().map(|r| r.pid).collect();
    assert_eq!(pids, vec![5, 1, 9, 2]);
    let twice = sort_rows(once, Sorting::Memory);
    let pids: Vec<u64> = twice.iter().map(|r| r.pid).collect();
    assert_eq!(pids, vec![5, 1, 9, 2]);
}

#[test]
fn equal_metrics_tie_break_keeps_relative_order() {
    // Ties under the sort key keep their provider order among themselves.
    let state = loaded_state(vec![
        sample(1, "a", 8, 0, 0, 0),
        sample(2, "b", 32, 0, 0, 0),
        sample(3, "c", 8, 0, 0, 0),
    ]);
    let rows = process_list(&state);
    let pids: Vec<u64> = rows.iter().map(|r| r.pid).collect();
    assert_eq!(pids, vec![2, 1, 3]);
}

#[test]
fn three_process_navigation_scenario() {
    // Cursor starts Unselected; SelectNext -> Selected(0); two more ->
    // Selected(2); one more wraps to Selected(0).
    let mut state = loaded_state(vec![
        sample(1, "a", 1, 0, 0, 0),
        sample(2, "b", 2, 0, 0, 0),
        sample(3, "c", 3, 0, 0, 0),
    ]);
    assert_eq!(state.cursor(), Cursor::Unselected);
    state.next_process();
    assert_eq!(state.cursor(), Cursor::Selected(0));
    state.next_process();
    state.next_process();
    assert_eq!(state.cursor(), Cursor::Selected(2));
    state.next_process();
    assert_eq!(state.cursor(), Cursor::Selected(0));
}

#[test]
fn previous_wraps_to_last_row() {
    let mut state = loaded_state(vec![
        sample(1, "a", 1, 0, 0, 0),
        sample(2, "b", 2, 0, 0, 0),
        sample(3, "c", 3, 0, 0, 0),
    ]);
    state.previous_process();
    assert_eq!(state.cursor(), Cursor::Selected(0));
    state.previous_process();
    assert_eq!(state.cursor(), Cursor::Selected(2));
    state.previous_process();
    assert_eq!(state.cursor(), Cursor::Selected(1));
}

#[test]
fn empty_list_navigation_is_safe() {
    let mut state = State::new();
    state.next_process();
    assert_eq!(state.cursor(), Cursor::Unselected);
    state.previous_process();
    assert_eq!(state.cursor(), Cursor::Unselected);
    state.apply_snapshot(vec![], host()).unwrap();
    state.next_process();
    assert_eq!(state.cursor(), Cursor::Unselected);
}

#[test]
fn unselect_clears_the_cursor() {
    let mut state = loaded_state(vec![sample(1, "a", 1, 0, 0, 0)]);
    state.next_process();
    assert_eq!(state.cursor(), Cursor::Selected(0));
    state.unselect_process();
    assert_eq!(state.cursor(), Cursor::Unselected);
}

#[test]
fn shrinking_snapshot_clamps_the_cursor() {
    let mut state = loaded_state(vec![
        sample(1, "a", 1, 0, 0, 0),
        sample(2, "b", 2, 0, 0, 0),
        sample(3, "c", 3, 0, 0, 0),
    ]);
    state.next_process();
    state.next_process();
    state.next_process();
    assert_eq!(state.cursor(), Cursor::Selected(2));
    state
        .apply_snapshot(vec![sample(1, "a", 1, 0, 0, 0), sample(2, "b", 2, 0, 0, 0)], host())
        .unwrap();
    assert_eq!(state.cursor(), Cursor::Selected(1));
    state.apply_snapshot(vec![], host()).unwrap();
    assert_eq!(state.cursor(), Cursor::Unselected);
}

#[test]
fn commands_drive_sort_key_and_quit() {
    let mut state = loaded_state(vec![sample(1, "a", 1, 0, 0, 0)]);
    assert!(!state.apply_command(Command::SortByDisk));
    assert_eq!(state.sorting, Sorting::Disk);
    assert!(!state.apply_command(Command::SortByProcessor));
    assert_eq!(state.sorting, Sorting::Processor);
    assert!(!state.apply_command(Command::SortByMemory));
    assert_eq!(state.sorting, Sorting::Memory);
    assert!(!state.apply_command(Command::SortByNone));
    assert_eq!(state.sorting, Sorting::Unsorted);
    assert!(!state.apply_command(Command::SelectNext));
    assert_eq!(state.cursor(), Cursor::Selected(0));
    assert!(!state.apply_command(Command::ClearSelection));
    assert_eq!(state.cursor(), Cursor::Unselected);
    assert!(state.apply_command(Command::Quit));
    assert_eq!(state.sorting, Sorting::Unsorted);
    assert_eq!(state.cursor(), Cursor::Unselected);
    assert_eq!(state.rows.len(), 1);
}

#[test]
fn usage_level_thresholds_are_strict() {
    assert_eq!(usage_level(751, 1000), UsageLevel::Critical);
    assert_eq!(usage_level(750, 1000), UsageLevel::High);
    assert_eq!(usage_level(500, 1000), UsageLevel::Elevated);
    assert_eq!(usage_level(250, 1000), UsageLevel::Moderate);
    assert_eq!(usage_level(50, 1000), UsageLevel::Low);
    assert_eq!(usage_level(10, 1000), UsageLevel::Minimal);
    assert_eq!(usage_level(2, 1000), UsageLevel::Minimal);
    assert_eq!(usage_level(1, 1000), UsageLevel::Idle);
    assert_eq!(usage_level(0, 1000), UsageLevel::Idle);
    // a zero maximum: any positive value dominates it, zero does not
    assert_eq!(usage_level(1, 0), UsageLevel::Critical);
    assert_eq!(usage_level(0, 0), UsageLevel::Idle);
}

#[test]
fn row_levels_bucket_all_three_metrics() {
    // 4096 of 8192 MB memory (50%, not strictly above), 80% CPU, 30 MB disk.
    let state = loaded_state(vec![sample(1, "a", 4097, 320_00, 30 * BYTES_PER_MB, 0)]);
    let (memory, cpu, disk) = row_levels(&state.rows[0], &state.host);
    assert_eq!(memory, UsageLevel::High); // 4097/8192 is just above 50%
    assert_eq!(cpu, UsageLevel::Critical); // 80% of 100
    assert_eq!(disk, UsageLevel::Elevated); // 30 of 100
}

#[test]
fn large_counters_do_not_overflow() {
    let h = HostTotals { total_memory_bytes: u64::MAX, core_count: 1 };
    let s = ProcessSample {
        pid: 1,
        name: String::from("huge"),
        memory_bytes: u64::MAX,
        cpu_total_centi: u64::MAX,
        disk_read_bytes: u64::MAX,
        disk_written_bytes: u64::MAX,
    };
    let mut state = State::new();
    state.apply_snapshot(vec![s], h).unwrap();
    let row = &state.rows[0];
    let expected_centi_mb = ((u64::MAX as u128) * 100 / (BYTES_PER_MB as u128)) as u64;
    assert_eq!(row.memory_centi_mb, expected_centi_mb);
    assert_eq!(row.cpu_centi, u64::MAX);
    let rows = sort_rows(process_list(&state), Sorting::Disk);
    assert_eq!(rows.len(), 1);
}
