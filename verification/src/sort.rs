//! The sort engine: a stable descending insertion sort of derived rows
//! under a selected sort key.
//!
//! The executable sort returns exactly the mathematical stable sort
//! `spec_sort_rows`, whose definition inserts each row after every earlier
//! row whose metric is at least as large; equal-metric rows therefore keep
//! their input order, and under `Sorting::Unsorted` (where every metric
//! compares equal) the input comes back unchanged.

use vstd::prelude::*;

verus! {

use vstd::multiset::Multiset;
use crate::model::{DerivedRow, HostTotals, derived_consistent};
use crate::state::Sorting;

/// The full-precision comparison metric of a row under a sort key.
///
/// Raw byte and centi-percent counts are compared rather than the rounded
/// display fields: ordering by raw values orders by the normalized metrics
/// too, since normalization divides every row by the same positive
/// constant. Under `Sorting::Unsorted` every row compares equal, so the stable
/// sort keeps provider order.
pub open spec fn row_metric(r: DerivedRow, key: Sorting) -> int {
    match key {
        Sorting::Unsorted => 0,
        Sorting::Memory => r.memory_bytes as int,
        Sorting::Processor => r.cpu_total_centi as int,
        Sorting::Disk => r.disk_read_bytes + r.disk_written_bytes,
    }
}

/// Heaviest first: metrics never increase along the sequence.
pub open spec fn sorted_desc(s: Seq<DerivedRow>, key: Sorting) -> bool {
    forall|i: int, j: int|
        #![trigger row_metric(s[i], key), row_metric(s[j], key)]
        0 <= i <= j < s.len() ==> row_metric(s[i], key) >= row_metric(s[j], key)
}

/// Stable insertion of `x`: scanning from the right, `x` passes rows with a
/// strictly smaller metric and stops behind the first row at least as large.
pub open spec fn insert_desc(s: Seq<DerivedRow>, x: DerivedRow, key: Sorting) -> Seq<DerivedRow>
    decreases s.len(),
{
    if s.len() == 0 {
        seq![x]
    } else if row_metric(s.last(), key) < row_metric(x, key) {
        insert_desc(s.drop_last(), x, key).push(s.last())
    } else {
        s.push(x)
    }
}

/// The stable descending sort: rows are inserted left to right.
pub open spec fn spec_sort_rows(s: Seq<DerivedRow>, key: Sorting) -> Seq<DerivedRow>
    decreases s.len(),
{
    if s.len() == 0 {
        s
    } else {
        insert_desc(spec_sort_rows(s.drop_last(), key), s.last(), key)
    }
}

/// Where the cut point `j` separates a prefix of rows with metric at least
/// `x`'s from a suffix of strictly smaller rows, insertion splices `x` in
/// at exactly `j`.
proof fn lemma_insert_desc_at(s: Seq<DerivedRow>, x: DerivedRow, key: Sorting, j: int)
    requires
        0 <= j <= s.len(),
        forall|k: int| j <= k < s.len() ==> row_metric(s[k], key) < row_metric(x, key),
        j > 0 ==> row_metric(s[j - 1], key) >= row_metric(x, key),
    ensures
        insert_desc(s, x, key) == s.take(j) + seq![x] + s.skip(j),
    decreases s.len(),
{
    if s.len() == 0 {
        assert(insert_desc(s, x, key) =~= s.take(j) + seq![x] + s.skip(j));
    } else if row_metric(s.last(), key) < row_metric(x, key) {
        assert(j < s.len());
        let t = s.drop_last();
        assert(forall|k: int| j <= k < t.len() ==> row_metric(t[k], key) < row_metric(x, key));
        lemma_insert_desc_at(t, x, key, j);
        assert(insert_desc(s, x, key) =~= s.take(j) + seq![x] + s.skip(j));
    } else {
        assert(j == s.len()) by {
            if j < s.len() {
                assert(row_metric(s[s.len() - 1], key) < row_metric(x, key));
            }
        }
        assert(insert_desc(s, x, key) =~= s.take(j) + seq![x] + s.skip(j));
    }
}

/// The cut point that stable insertion uses: the length of the prefix that
/// `x` does not pass.
spec fn insert_pos(s: Seq<DerivedRow>, x: DerivedRow, key: Sorting) -> int
    decreases s.len(),
{
    if s.len() == 0 {
        0
    } else if row_metric(s.last(), key) < row_metric(x, key) {
        insert_pos(s.drop_last(), x, key)
    } else {
        s.len() as int
    }
}

proof fn lemma_insert_pos_props(s: Seq<DerivedRow>, x: DerivedRow, key: Sorting)
    ensures
        0 <= insert_pos(s, x, key) <= s.len(),
        forall|k: int|
            insert_pos(s, x, key) <= k < s.len() ==> row_metric(s[k], key) < row_metric(x, key),
        insert_pos(s, x, key) > 0 ==> row_metric(s[insert_pos(s, x, key) - 1], key)
            >= row_metric(x, key),
    decreases s.len(),
{
    if s.len() == 0 {
    } else if row_metric(s.last(), key) < row_metric(x, key) {
        let t = s.drop_last();
        lemma_insert_pos_props(t, x, key);
        assert forall|k: int|
            insert_pos(s, x, key) <= k < s.len() implies row_metric(s[k], key) < row_metric(
            x,
            key,
        ) by {
            if k < s.len() - 1 {
                assert(s[k] == t[k]);
            } else {
                assert(s[k] == s.last());
            }
        }
    }
}

/// Inserting into a sorted sequence keeps it sorted and grows it by one.
pub proof fn lemma_insert_desc_sorted(s: Seq<DerivedRow>, x: DerivedRow, key: Sorting)
    requires
        sorted_desc(s, key),
    ensures
        insert_desc(s, x, key).len() == s.len() + 1,
        sorted_desc(insert_desc(s, x, key), key),
{
    let pos = insert_pos(s, x, key);
    lemma_insert_pos_props(s, x, key);
    lemma_insert_desc_at(s, x, key, pos);
    let t = s.take(pos) + seq![x] + s.skip(pos);
    assert forall|i: int, j: int|
        0 <= i <= j < t.len() implies row_metric(t[i], key) >= row_metric(t[j], key) by {
        if i < pos {
            assert(t[i] == s[i]);
        } else if i > pos {
            assert(t[i] == s[i - 1]);
        }
        if j < pos {
            assert(t[j] == s[j]);
        } else if j > pos {
            assert(t[j] == s[j - 1]);
        }
        if i < pos && j == pos {
            assert(row_metric(s[i], key) >= row_metric(s[pos - 1], key));
        }
        if i == pos && j > pos {
            assert(row_metric(s[j - 1], key) < row_metric(x, key));
        }
    }
}

/// Insertion adds exactly `x` to the rows: nothing else appears or
/// disappears.
pub proof fn lemma_insert_desc_multiset(s: Seq<DerivedRow>, x: DerivedRow, key: Sorting)
    ensures
        insert_desc(s, x, key).to_multiset() == s.to_multiset().insert(x),
{
    broadcast use vstd::seq_lib::group_to_multiset_ensures;

    let pos = insert_pos(s, x, key);
    lemma_insert_pos_props(s, x, key);
    lemma_insert_desc_at(s, x, key, pos);
    let front = s.take(pos);
    let back = s.skip(pos);
    vstd::seq_lib::lemma_multiset_commutative(front + seq![x], back);
    vstd::seq_lib::lemma_multiset_commutative(front, seq![x]);
    vstd::seq_lib::lemma_multiset_commutative(front, back);
    assert(front + back =~= s);
    assert(seq![x] =~= Seq::<DerivedRow>::empty().push(x));
    assert(seq![x].to_multiset() =~= Multiset::<DerivedRow>::empty().insert(x));
    assert(insert_desc(s, x, key).to_multiset() =~= s.to_multiset().insert(x));
}

/// Sort correctness: the stable sort output is in descending metric order
/// and keeps the length of its input.
pub proof fn lemma_sort_rows_sorted(s: Seq<DerivedRow>, key: Sorting)
    ensures
        spec_sort_rows(s, key).len() == s.len(),
        sorted_desc(spec_sort_rows(s, key), key),
    decreases s.len(),
{
    if s.len() > 0 {
        lemma_sort_rows_sorted(s.drop_last(), key);
        lemma_insert_desc_sorted(spec_sort_rows(s.drop_last(), key), s.last(), key);
    }
}

/// Sorting permutes the rows: the output holds exactly the input rows,
/// with their multiplicities.
pub proof fn lemma_sort_rows_multiset(s: Seq<DerivedRow>, key: Sorting)
    ensures
        spec_sort_rows(s, key).to_multiset() == s.to_multiset(),
    decreases s.len(),
{
    broadcast use vstd::seq_lib::group_to_multiset_ensures;

    if s.len() > 0 {
        lemma_sort_rows_multiset(s.drop_last(), key);
        lemma_insert_desc_multiset(spec_sort_rows(s.drop_last(), key), s.last(), key);
        assert(s =~= s.drop_last().push(s.last()));
        assert(spec_sort_rows(s, key).to_multiset() =~= s.to_multiset());
    }
}

/// Stability: when no metric distinguishes any two rows, sorting
/// reproduces the input order exactly, however often it is repeated.
pub proof fn lemma_sort_rows_all_equal(s: Seq<DerivedRow>, key: Sorting)
    requires
        forall|i: int, j: int|
            0 <= i < s.len() && 0 <= j < s.len() ==> row_metric(s[i], key) == row_metric(
                s[j],
                key,
            ),
    ensures
        spec_sort_rows(s, key) == s,
    decreases s.len(),
{
    if s.len() > 0 {
        let t = s.drop_last();
        lemma_sort_rows_all_equal(t, key);
        if t.len() == 0 {
            assert(spec_sort_rows(s, key) =~= s);
        } else {
            assert(row_metric(t.last(), key) == row_metric(s.last(), key));
            assert(spec_sort_rows(s, key) =~= s);
        }
    }
}

/// Sorting an already ordered sequence changes nothing: ties keep their
/// places, so a repeated sort — a re-sort on the next refresh of an
/// unchanged table — never reorders rows.
pub proof fn lemma_sort_rows_sorted_identity(s: Seq<DerivedRow>, key: Sorting)
    requires
        sorted_desc(s, key),
    ensures
        spec_sort_rows(s, key) == s,
    decreases s.len(),
{
    if s.len() > 0 {
        let t = s.drop_last();
        assert forall|i: int, j: int|
            0 <= i <= j < t.len() implies row_metric(t[i], key) >= row_metric(t[j], key) by {
            assert(t[i] == s[i]);
            assert(t[j] == s[j]);
        }
        lemma_sort_rows_sorted_identity(t, key);
        if t.len() == 0 {
            assert(spec_sort_rows(s, key) =~= s);
        } else {
            assert(t.last() == s[s.len() - 2]);
            assert(row_metric(s[s.len() - 2], key) >= row_metric(s[s.len() - 1], key));
            assert(spec_sort_rows(s, key) =~= s);
        }
    }
}

/// The sort is idempotent: sorting its own output reproduces it exactly.
pub proof fn lemma_sort_rows_idempotent(s: Seq<DerivedRow>, key: Sorting)
    ensures
        spec_sort_rows(spec_sort_rows(s, key), key) == spec_sort_rows(s, key),
{
    lemma_sort_rows_sorted(s, key);
    lemma_sort_rows_sorted_identity(spec_sort_rows(s, key), key);
}

/// Ordering by the full-precision metric orders the rounded display
/// metrics too: for rows whose display fields were derived from their raw
/// counters under one host, rounding down is monotone.
pub proof fn lemma_display_follows_metric(
    a: DerivedRow,
    b: DerivedRow,
    h: HostTotals,
    key: Sorting,
)
    requires
        h.valid(),
        derived_consistent(a, h),
        derived_consistent(b, h),
        row_metric(a, key) >= row_metric(b, key),
    ensures
        key is Memory ==> a.memory_centi_mb >= b.memory_centi_mb,
        key is Processor ==> a.cpu_centi >= b.cpu_centi,
        key is Disk ==> a.disk_centi_mb >= b.disk_centi_mb,
{
    let mb = crate::BYTES_PER_MB as int;
    match key {
        Sorting::Unsorted => {},
        Sorting::Memory => {
            vstd::arithmetic::div_mod::lemma_div_is_ordered(
                b.memory_bytes * 100,
                a.memory_bytes * 100,
                mb,
            );
        },
        Sorting::Processor => {
            vstd::arithmetic::div_mod::lemma_div_is_ordered(
                b.cpu_total_centi as int,
                a.cpu_total_centi as int,
                h.core_count as int,
            );
        },
        Sorting::Disk => {
            vstd::arithmetic::div_mod::lemma_div_is_ordered(
                (b.disk_read_bytes + b.disk_written_bytes) * 100,
                (a.disk_read_bytes + a.disk_written_bytes) * 100,
                mb,
            );
        },
    }
}

/// Under `Sorting::Unsorted` the sort is the identity: provider order is kept.
pub proof fn lemma_sort_rows_unsorted(s: Seq<DerivedRow>)
    ensures
        spec_sort_rows(s, Sorting::Unsorted) == s,
{
    lemma_sort_rows_all_equal(s, Sorting::Unsorted);
}

/// Strict metric comparison of two rows, computed without overflow.
fn metric_lt(a: &DerivedRow, b: &DerivedRow, key: Sorting) -> (r: bool)
    ensures
        r == (row_metric(*a, key) < row_metric(*b, key)),
{
    match key {
        Sorting::Unsorted => false,
        Sorting::Memory => a.memory_bytes < b.memory_bytes,
        Sorting::Processor => a.cpu_total_centi < b.cpu_total_centi,
        Sorting::Disk => {
            let da: u128 = a.disk_read_bytes as u128 + a.disk_written_bytes as u128;
            let db: u128 = b.disk_read_bytes as u128 + b.disk_written_bytes as u128;
            da < db
        },
    }
}

/// Order the rows under `key`: a stable insertion sort, heaviest first.
/// Returns exactly the mathematical stable sort of the input; the rows
/// themselves are never altered, and under `Sorting::Unsorted` the input order
/// comes back unchanged.
pub fn sort_rows(rows: Vec<DerivedRow>, key: Sorting) -> (r: Vec<DerivedRow>)
    ensures
        r@ == spec_sort_rows(rows@, key),
{
    let ghost orig = rows@;
    if key == Sorting::Unsorted {
        proof {
            lemma_sort_rows_unsorted(orig);
        }
        return rows;
    }
    let mut pending = rows;
    let mut out: Vec<DerivedRow> = Vec::new();
    proof {
        assert(orig.take(0) =~= Seq::<DerivedRow>::empty());
        assert(pending@ =~= orig.skip(0));
    }
    while pending.len() > 0
        invariant
            out@.len() + pending@.len() == orig.len(),
            pending@ == orig.skip(out@.len() as int),
            out@ == spec_sort_rows(orig.take(out@.len() as int), key),
            sorted_desc(out@, key),
        decreases pending@.len(),
    {
        let ghost done = out@.len() as int;
        let x = pending.remove(0);
        assert(x == orig[done]);
        let mut j: usize = out.len();
        while j > 0 && metric_lt(&out[j - 1], &x, key)
            invariant
                j <= out@.len(),
                forall|k: int| j <= k < out@.len() ==> row_metric(out@[k], key) < row_metric(
                    x,
                    key,
                ),
            decreases j,
        {
            j = j - 1;
        }
        let ghost old_out = out@;
        proof {
            lemma_insert_desc_at(old_out, x, key, j as int);
            lemma_insert_desc_sorted(old_out, x, key);
        }
        out.insert(j, x);
        proof {
            assert(out@ =~= old_out.take(j as int) + seq![x] + old_out.skip(j as int));
            assert(out@ == insert_desc(old_out, x, key));
            assert(orig.take(done + 1).drop_last() =~= orig.take(done));
            assert(orig.take(done + 1).last() == orig[done]);
            assert(out@ == spec_sort_rows(orig.take(done + 1), key));
            assert(pending@ =~= orig.skip(done + 1));
        }
    }
    proof {
        assert(orig.take(orig.len() as int) =~= orig);
    }
    out
}

} // verus!
