//! Dashboard state: the sort key, the selection tracker, and the refresh
//! engine that installs each new snapshot.
//!
//! The cursor is positional: it tracks "the row currently at index `i`",
//! not a particular process, so re-sorting or process churn between
//! refreshes never invalidates it — navigation wraps around, an empty list
//! leaves the cursor untouched, and a shrunken list clamps the cursor to
//! the nearest visible row.

use vstd::prelude::*;

verus! {

use crate::model::{
    ProcessSample,
    HostTotals,
    DerivedRow,
    RefreshError,
    spec_derive,
    derived_consistent,
    lemma_derive_consistent,
};

/// The user-selected sort key; `Unsorted` keeps the provider's enumeration
/// order. The default is `Memory`.
#[derive(PartialEq, Eq, Structural, Clone, Copy, Debug)]
pub enum Sorting {
    Unsorted,
    Memory,
    Processor,
    Disk,
}

/// The selection over the ordered rows: either no row, or the row at a
/// zero-based index.
#[derive(PartialEq, Eq, Structural, Clone, Copy, Debug)]
pub enum Cursor {
    Unselected,
    Selected(usize),
}

/// The discrete user command surface. Key bindings are an input
/// collaborator's business; this core defines only the commands and their
/// effect on the sort key and the cursor.
#[derive(PartialEq, Eq, Structural, Clone, Copy, Debug)]
pub enum Command {
    SortByMemory,
    SortByProcessor,
    SortByDisk,
    SortByNone,
    SelectNext,
    SelectPrevious,
    ClearSelection,
    Quit,
}

/// A cursor is in bounds for a list length when it selects nothing or a
/// valid index.
pub open spec fn cursor_in_bounds(c: Cursor, len: nat) -> bool {
    match c {
        Cursor::Unselected => true,
        Cursor::Selected(i) => (i as nat) < len,
    }
}

/// One `SelectNext` step: first row from nothing, wrap past the end to the
/// top; a no-op on an empty list.
pub open spec fn next_cursor(c: Cursor, len: nat) -> Cursor {
    if len == 0 {
        c
    } else {
        match c {
            Cursor::Unselected => Cursor::Selected(0),
            Cursor::Selected(i) => if i + 1 < len {
                Cursor::Selected((i + 1) as usize)
            } else {
                Cursor::Selected(0)
            },
        }
    }
}

/// One `SelectPrevious` step: first row from nothing, wrap from the top to
/// the last row; a no-op on an empty list.
pub open spec fn prev_cursor(c: Cursor, len: nat) -> Cursor {
    if len == 0 {
        c
    } else {
        match c {
            Cursor::Unselected => Cursor::Selected(0),
            Cursor::Selected(i) => if i == 0 {
                Cursor::Selected((len - 1) as usize)
            } else {
                Cursor::Selected((i - 1) as usize)
            },
        }
    }
}

/// Where a refresh shrank the list below the stored index, the cursor is
/// clamped to the last row (or cleared when no rows are left) rather than
/// left dangling.
pub open spec fn clamped_cursor(c: Cursor, len: nat) -> Cursor {
    match c {
        Cursor::Unselected => Cursor::Unselected,
        Cursor::Selected(i) => if (i as nat) < len {
            c
        } else if len == 0 {
            Cursor::Unselected
        } else {
            Cursor::Selected((len - 1) as usize)
        },
    }
}

/// The sort key after a command: the four sort commands select their key,
/// every other command leaves it alone.
pub open spec fn sorting_after(s: Sorting, cmd: Command) -> Sorting {
    match cmd {
        Command::SortByMemory => Sorting::Memory,
        Command::SortByProcessor => Sorting::Processor,
        Command::SortByDisk => Sorting::Disk,
        Command::SortByNone => Sorting::Unsorted,
        _ => s,
    }
}

/// The cursor after a command: the three selection commands move or clear
/// it, every other command leaves it alone.
pub open spec fn cursor_after(c: Cursor, len: nat, cmd: Command) -> Cursor {
    match cmd {
        Command::SelectNext => next_cursor(c, len),
        Command::SelectPrevious => prev_cursor(c, len),
        Command::ClearSelection => Cursor::Unselected,
        _ => c,
    }
}

/// The cursor after a whole sequence of commands, applied left to right on
/// a list of fixed length.
pub open spec fn cursor_after_commands(c: Cursor, len: nat, cmds: Seq<Command>) -> Cursor
    decreases cmds.len(),
{
    if cmds.len() == 0 {
        c
    } else {
        cursor_after_commands(cursor_after(c, len, cmds[0]), len, cmds.drop_first())
    }
}

/// One command keeps the cursor in bounds.
pub proof fn lemma_cursor_step_bounds(c: Cursor, len: nat, cmd: Command)
    requires
        cursor_in_bounds(c, len),
    ensures
        cursor_in_bounds(cursor_after(c, len, cmd), len),
{
}

/// Cursor bounds: starting in bounds, any sequence of commands — in
/// particular any mix of `SelectNext` and `SelectPrevious` on a non-empty
/// list — leaves the cursor `Unselected` or at a valid index, and does so
/// at every intermediate step, since each prefix of the sequence is itself
/// such a sequence.
pub proof fn lemma_cursor_bounds(c: Cursor, len: nat, cmds: Seq<Command>)
    requires
        cursor_in_bounds(c, len),
    ensures
        cursor_in_bounds(cursor_after_commands(c, len, cmds), len),
    decreases cmds.len(),
{
    if cmds.len() > 0 {
        lemma_cursor_step_bounds(c, len, cmds[0]);
        lemma_cursor_bounds(cursor_after(c, len, cmds[0]), len, cmds.drop_first());
    }
}

/// Wrap-around: from the last row, `SelectNext` returns to the top; from
/// the top, `SelectPrevious` wraps to the last row.
pub proof fn lemma_wrap_around(len: nat)
    requires
        0 < len <= usize::MAX,
    ensures
        next_cursor(Cursor::Selected((len - 1) as usize), len) == Cursor::Selected(0usize),
        prev_cursor(Cursor::Selected(0usize), len) == Cursor::Selected((len - 1) as usize),
{
}

/// Empty-list safety: on a zero-length row sequence, navigation leaves the
/// cursor `Unselected`.
pub proof fn lemma_empty_list_safety()
    ensures
        next_cursor(Cursor::Unselected, 0) == Cursor::Unselected,
        prev_cursor(Cursor::Unselected, 0) == Cursor::Unselected,
{
}

/// Rows installed by a snapshot — one `spec_derive` image per sample —
/// all carry display fields consistent with their raw counters, so the
/// display-order guarantees of the sort engine apply to them.
pub proof fn lemma_snapshot_rows_consistent(
    samples: Seq<ProcessSample>,
    h: HostTotals,
    rows: Seq<DerivedRow>,
)
    requires
        h.valid(),
        rows.len() == samples.len(),
        forall|k: int| 0 <= k < samples.len() ==> rows[k] == spec_derive(samples[k], h),
    ensures
        forall|k: int| 0 <= k < rows.len() ==> derived_consistent(#[trigger] rows[k], h),
{
    assert forall|k: int| 0 <= k < rows.len() implies derived_consistent(#[trigger] rows[k], h) by {
        lemma_derive_consistent(samples[k], h);
    }
}

/// The dashboard state across one refresh→render cycle: the derived rows
/// of the latest good snapshot in provider order, the host totals that
/// normalized them, the sort key, and the cursor.
pub struct State {
    /// Derived rows of the latest good snapshot, in provider order.
    pub rows: Vec<DerivedRow>,
    /// Host totals of the latest good snapshot; neutral (one byte, one
    /// core) until the first snapshot arrives, when no rows exist to
    /// normalize.
    pub host: HostTotals,
    /// The selected sort key.
    pub sorting: Sorting,
    /// The selection over the ordered rows.
    pub cursor: Cursor,
}

impl State {
    /// Well-formedness: the cursor is in bounds and the host totals are
    /// usable. Established by `new` and preserved by every method.
    pub open spec fn wf(self) -> bool {
        cursor_in_bounds(self.cursor, self.rows@.len()) && self.host.valid()
    }

    /// A fresh dashboard: no rows yet, the default `Memory` sort, nothing
    /// selected.
    pub fn new() -> (s: State)
        ensures
            s.rows@.len() == 0,
            s.sorting == Sorting::Memory,
            s.cursor == Cursor::Unselected,
            s.wf(),
    {
        State {
            rows: Vec::new(),
            host: HostTotals { total_memory_bytes: 1, core_count: 1 },
            sorting: Sorting::Memory,
            cursor: Cursor::Unselected,
        }
    }

    /// Move the selection one row down, wrapping past the end; a no-op on
    /// an empty list.
    pub fn next_process(&mut self)
        requires
            old(self).wf(),
        ensures
            final(self).cursor == next_cursor(old(self).cursor, old(self).rows@.len()),
            final(self).rows@ == old(self).rows@,
            final(self).sorting == old(self).sorting,
            final(self).host == old(self).host,
            final(self).wf(),
    {
        let len: usize = self.rows.len();
        if len == 0 {
            return ;
        }
        let i: usize = match self.cursor {
            Cursor::Unselected => 0,
            Cursor::Selected(i) => if i + 1 < len {
                i + 1
            } else {
                0
            },
        };
        self.cursor = Cursor::Selected(i);
    }

    /// Move the selection one row up, wrapping from the top to the last
    /// row; a no-op on an empty list.
    pub fn previous_process(&mut self)
        requires
            old(self).wf(),
        ensures
            final(self).cursor == prev_cursor(old(self).cursor, old(self).rows@.len()),
            final(self).rows@ == old(self).rows@,
            final(self).sorting == old(self).sorting,
            final(self).host == old(self).host,
            final(self).wf(),
    {
        let len: usize = self.rows.len();
        if len == 0 {
            return ;
        }
        let i: usize = match self.cursor {
            Cursor::Unselected => 0,
            Cursor::Selected(i) => if i == 0 {
                len - 1
            } else {
                i - 1
            },
        };
        self.cursor = Cursor::Selected(i);
    }

    /// Clear the selection.
    pub fn unselect_process(&mut self)
        ensures
            final(self).cursor == Cursor::Unselected,
            final(self).rows@ == old(self).rows@,
            final(self).sorting == old(self).sorting,
            final(self).host == old(self).host,
            old(self).wf() ==> final(self).wf(),
    {
        self.cursor = Cursor::Unselected;
    }

    /// The current selection, for the presentation adapter.
    pub fn cursor(&self) -> (c: Cursor)
        ensures
            c == self.cursor,
    {
        self.cursor
    }

    /// Apply one user command: the sort commands pick the sort key, the
    /// selection commands move or clear the cursor, and `Quit` — the only
    /// command that ends execution — changes nothing and reports `true`.
    pub fn apply_command(&mut self, cmd: Command) -> (quit: bool)
        requires
            old(self).wf(),
        ensures
            final(self).sorting == sorting_after(old(self).sorting, cmd),
            final(self).cursor == cursor_after(old(self).cursor, old(self).rows@.len(), cmd),
            final(self).rows@ == old(self).rows@,
            final(self).host == old(self).host,
            final(self).wf(),
            quit == (cmd is Quit),
    {
        match cmd {
            Command::SortByMemory => {
                self.sorting = Sorting::Memory;
                false
            },
            Command::SortByProcessor => {
                self.sorting = Sorting::Processor;
                false
            },
            Command::SortByDisk => {
                self.sorting = Sorting::Disk;
                false
            },
            Command::SortByNone => {
                self.sorting = Sorting::Unsorted;
                false
            },
            Command::SelectNext => {
                self.next_process();
                false
            },
            Command::SelectPrevious => {
                self.previous_process();
                false
            },
            Command::ClearSelection => {
                self.unselect_process();
                false
            },
            Command::Quit => true,
        }
    }

    /// Install a fresh snapshot: every sample is normalized into exactly
    /// one row (provider order kept), the host totals are recorded, and
    /// the cursor is clamped into the new length. Unusable host totals
    /// reject the whole tick and leave the prior display untouched.
    ///
    /// A tick on which the provider itself failed simply never reaches
    /// this method: not calling it is the stale-but-available policy.
    pub fn apply_snapshot(&mut self, samples: Vec<ProcessSample>, host: HostTotals) -> (r: Result<
        (),
        RefreshError,
    >)
        requires
            old(self).wf(),
        ensures
            r is Ok <==> host.valid(),
            !host.valid() ==> r == Err::<(), RefreshError>(RefreshError::InvalidHostTotals)
                && *final(self) == *old(self),
            host.valid() ==> {
                &&& r == Ok::<(), RefreshError>(())
                &&& final(self).rows@.len() == samples@.len()
                &&& forall|k: int|
                    0 <= k < samples@.len() ==> final(self).rows@[k] == spec_derive(
                        samples@[k],
                        host,
                    )
                &&& final(self).host == host
                &&& final(self).sorting == old(self).sorting
                &&& final(self).cursor == clamped_cursor(old(self).cursor, samples@.len())
            },
            final(self).wf(),
    {
        let rows = match crate::model::derive_rows(samples, &host) {
            Ok(rows) => rows,
            Err(e) => {
                return Err(e);
            },
        };
        self.rows = rows;
        self.host = host;
        let len: usize = self.rows.len();
        self.cursor = match self.cursor {
            Cursor::Unselected => Cursor::Unselected,
            Cursor::Selected(i) => if i < len {
                Cursor::Selected(i)
            } else if len == 0 {
                Cursor::Unselected
            } else {
                Cursor::Selected(len - 1)
            },
        };
        Ok(())
    }
}

} // verus!
