//! Removal of incomplete rows, and the labelled rows that remain.

use vstd::prelude::*;
use polars::prelude::{Column, PolarsError};
use crate::column::{byte_cells, byte_column, holds_i64, int_cells, int_column_cells};
use crate::label::{label_cell, label_of, labels_as_bool, quality_into_num};

verus! {

/// Every column of a presence table has one entry per row.
pub open spec fn columns_have_rows(present: Seq<Vec<bool>>, n_rows: int) -> bool {
    forall|c: int| 0 <= c < present.len() ==> (#[trigger] present[c])@.len() == n_rows
}

/// Row `r` holds a value in every column (`present[c][r]` is true when the
/// cell of column `c` in row `r` holds a value).
pub open spec fn row_complete(present: Seq<Vec<bool>>, r: int) -> bool {
    forall|c: int| 0 <= c < present.len() ==> (#[trigger] present[c])@[r]
}

/// `rows` lists, in increasing order, exactly the rows below `n_rows` that
/// satisfy `keep`.
pub open spec fn lists_rows(rows: Seq<usize>, n_rows: int, keep: spec_fn(int) -> bool) -> bool {
    &&& forall|i: int, j: int| 0 <= i < j < rows.len() ==> rows[i] < rows[j]
    &&& forall|i: int|
        0 <= i < rows.len() ==> (#[trigger] rows[i] as int) < n_rows && keep(rows[i] as int)
    &&& forall|r: int|
        0 <= r < n_rows && #[trigger] keep(r) ==> exists|i: int|
            0 <= i < rows.len() && rows[i] as int == r
}

fn is_row_complete(present: &Vec<Vec<bool>>, n_rows: usize, r: usize) -> (b: bool)
    requires
        columns_have_rows(present@, n_rows as int),
        r < n_rows,
    ensures
        b == row_complete(present@, r as int),
{
    let mut c: usize = 0;
    while c < present.len()
        invariant
            columns_have_rows(present@, n_rows as int),
            r < n_rows,
            c <= present@.len(),
            forall|k: int| 0 <= k < c ==> (#[trigger] present@[k])@[r as int],
        decreases present@.len() - c,
    {
        if !present[c][r] {
            return false;
        }
        c = c + 1;
    }
    true
}

/// The indices of the rows that hold a value in every column, in their
/// original order. A row with a missing cell in any column is left out.
pub fn complete_rows(present: &Vec<Vec<bool>>, n_rows: usize) -> (rows: Vec<usize>)
    requires
        columns_have_rows(present@, n_rows as int),
    ensures
        lists_rows(rows@, n_rows as int, |r: int| row_complete(present@, r)),
        rows@.len() <= n_rows,
{
    let mut rows: Vec<usize> = Vec::new();
    let mut r: usize = 0;
    while r < n_rows
        invariant
            columns_have_rows(present@, n_rows as int),
            r <= n_rows,
            rows@.len() <= r,
            forall|i: int, j: int| 0 <= i < j < rows@.len() ==> rows@[i] < rows@[j],
            forall|i: int|
                0 <= i < rows@.len() ==> (#[trigger] rows@[i] as int) < r && row_complete(
                    present@,
                    rows@[i] as int,
                ),
            forall|k: int|
                0 <= k < r && #[trigger] row_complete(present@, k) ==> exists|i: int|
                    0 <= i < rows@.len() && rows@[i] as int == k,
        decreases n_rows - r,
    {
        let ghost before = rows@;
        if is_row_complete(present, n_rows, r) {
            rows.push(r);
            assert(rows@[rows@.len() - 1] as int == r);
        }
        assert forall|k: int|
            0 <= k < r && #[trigger] row_complete(present@, k) implies exists|i: int|
                0 <= i < rows@.len() && rows@[i] as int == k by {
            let i = choose|i: int| 0 <= i < before.len() && before[i] as int == k;
            assert(rows@[i] == before[i]);
        }
        r = r + 1;
    }
    rows
}

/// The values of `column` at `rows`, in the order of `rows`.
pub fn values_at<T: Copy>(column: &Vec<Option<T>>, rows: &Vec<usize>) -> (r: Vec<T>)
    requires
        forall|i: int|
            0 <= i < rows@.len() ==> (#[trigger] rows@[i] as int) < column@.len() && column@[rows@[i] as int] is Some,
    ensures
        r@.len() == rows@.len(),
        forall|i: int|
            0 <= i < rows@.len() ==> Some(#[trigger] r@[i]) == column@[rows@[i] as int],
{
    let mut r: Vec<T> = Vec::with_capacity(rows.len());
    let mut k: usize = 0;
    while k < rows.len()
        invariant
            forall|i: int|
                0 <= i < rows@.len() ==> (#[trigger] rows@[i] as int) < column@.len() && column@[rows@[i] as int] is Some,
            k <= rows@.len(),
            r@.len() == k,
            forall|i: int| 0 <= i < k ==> Some(#[trigger] r@[i]) == column@[rows@[i] as int],
        decreases rows@.len() - k,
    {
        let row = rows[k];
        match column[row] {
            Some(v) => {
                r.push(v);
            },
            None => {},
        }
        k = k + 1;
    }
    r
}

/// The rows of a table that survive the removal of incomplete rows, with the
/// class of each.
pub struct LabelledRows {
    /// Indices of the kept rows in the original table, increasing.
    pub rows: Vec<usize>,
    /// The class of each kept row: true when its quality is above the threshold.
    pub labels: Vec<bool>,
}

/// The same rows satisfy two conditions that agree below `n_rows`.
proof fn lemma_lists_rows_same(
    rows: Seq<usize>,
    n_rows: int,
    k1: spec_fn(int) -> bool,
    k2: spec_fn(int) -> bool,
)
    requires
        lists_rows(rows, n_rows, k1),
        forall|i: int| 0 <= i < n_rows ==> #[trigger] k1(i) == k2(i),
    ensures
        lists_rows(rows, n_rows, k2),
{
    assert forall|i: int| 0 <= i < rows.len() implies (#[trigger] rows[i] as int) < n_rows && k2(
        rows[i] as int,
    ) by {
        assert(k1(rows[i] as int));
    }
    assert forall|r: int| 0 <= r < n_rows && #[trigger] k2(r) implies exists|i: int|
        0 <= i < rows.len() && rows[i] as int == r by {
        assert(k1(r));
    }
}

/// Drops every row whose label is missing or which has a missing cell in any
/// other column, and returns the kept rows with their classes (a label other
/// than 0 is the positive class). `others` gives, for each column other than
/// the labels, which of its cells hold a value.
pub fn rows_of_labels(labels: &Vec<Option<u8>>, others: Vec<Vec<bool>>) -> (r: LabelledRows)
    requires
        columns_have_rows(others@, labels@.len() as int),
    ensures
        r.labels@.len() == r.rows@.len(),
        lists_rows(r.rows@, labels@.len() as int, |i: int| labels@[i] is Some && row_complete(others@, i)),
        forall|k: int|
            0 <= k < r.rows@.len() ==> (#[trigger] r.rows@[k] as int) < labels@.len()
                && labels@[r.rows@[k] as int] is Some && r.labels@[k] == (labels@[r.rows@[k] as int]->Some_0 != 0),
{
    let ghost others_v = others@;
    let n = labels.len();
    let mut has_label: Vec<bool> = Vec::with_capacity(n);
    let mut i: usize = 0;
    while i < n
        invariant
            n == labels@.len(),
            i <= n,
            has_label@ == Seq::new(i as nat, |j: int| labels@[j] is Some),
        decreases n - i,
    {
        has_label.push(labels[i].is_some());
        i = i + 1;
    }
    let mut present = others;
    present.push(has_label);
    assert(present@ == others_v.push(has_label));
    assert forall|c: int| 0 <= c < present@.len() implies (#[trigger] present@[c])@.len() == n by {
        if c < others_v.len() {
            assert(present@[c] == others_v[c]);
        }
    }
    let rows = complete_rows(&present, n);
    assert forall|r: int| 0 <= r < n implies row_complete(present@, r) == (labels@[r] is Some
        && row_complete(others_v, r)) by {
        assert(present@[others_v.len() as int] == has_label);
        if row_complete(present@, r) {
            assert forall|c: int| 0 <= c < others_v.len() implies (#[trigger] others_v[c])@[r] by {
                assert(present@[c] == others_v[c]);
            }
        }
        if labels@[r] is Some && row_complete(others_v, r) {
            assert forall|c: int| 0 <= c < present@.len() implies (#[trigger] present@[c])@[r] by {
                if c < others_v.len() {
                    assert(present@[c] == others_v[c]);
                }
            }
        }
    }
    proof {
        lemma_lists_rows_same(
            rows@,
            n as int,
            |r: int| row_complete(present@, r),
            |i: int| labels@[i] is Some && row_complete(others_v, i),
        );
    }
    let values = values_at(labels, &rows);
    let classes = labels_as_bool(&values);
    assert forall|k: int| 0 <= k < rows@.len() implies classes@[k] == (labels@[
        #[trigger] rows@[k] as int]->Some_0 != 0) by {
        assert(Some(values@[k]) == labels@[rows@[k] as int]);
    }
    LabelledRows { rows, labels: classes }
}

/// Labels the quality column, drops every row with a missing cell in any
/// column, and returns the kept rows with their classes. `others` gives, for
/// each column other than quality, which of its cells hold a value.
pub fn labelled_rows(quality: &Vec<Option<i64>>, others: Vec<Vec<bool>>) -> (r: LabelledRows)
    requires
        columns_have_rows(others@, quality@.len() as int),
    ensures
        r.labels@.len() == r.rows@.len(),
        lists_rows(
            r.rows@,
            quality@.len() as int,
            |i: int| quality@[i] is Some && row_complete(others@, i),
        ),
        forall|k: int|
            0 <= k < r.rows@.len() ==> (#[trigger] r.rows@[k] as int) < quality@.len()
                && quality@[r.rows@[k] as int] is Some && r.labels@[k] == (label_of(
                quality@[r.rows@[k] as int]->Some_0,
            ) == 1),
{
    let ghost others_v = others@;
    let labelled = quality_into_num(quality);
    let r = rows_of_labels(&labelled, others);
    proof {
        lemma_labels_keep_rows(quality@, labelled@, others_v, r);
    }
    r
}

/// What `rows_of_labels` states of the labels carries over to the scores
/// they were made from.
proof fn lemma_labels_keep_rows(
    quality: Seq<Option<i64>>,
    labelled: Seq<Option<u8>>,
    others: Seq<Vec<bool>>,
    r: LabelledRows,
)
    requires
        labelled.len() == quality.len(),
        forall|i: int| 0 <= i < quality.len() ==> labelled[i] == label_cell(#[trigger] quality[i]),
        lists_rows(r.rows@, labelled.len() as int, |i: int| labelled[i] is Some && row_complete(others, i)),
        forall|k: int|
            0 <= k < r.rows@.len() ==> (#[trigger] r.rows@[k] as int) < labelled.len()
                && labelled[r.rows@[k] as int] is Some && r.labels@[k] == (labelled[r.rows@[k] as int]->Some_0 != 0),
    ensures
        lists_rows(r.rows@, quality.len() as int, |i: int| quality[i] is Some && row_complete(others, i)),
        forall|k: int|
            0 <= k < r.rows@.len() ==> (#[trigger] r.rows@[k] as int) < quality.len()
                && quality[r.rows@[k] as int] is Some && r.labels@[k] == (label_of(
                quality[r.rows@[k] as int]->Some_0,
            ) == 1),
{
    assert forall|i: int| 0 <= i < quality.len() implies (labelled[i] is Some && row_complete(
        others,
        i,
    )) == (quality[i] is Some && row_complete(others, i)) by {
        assert(labelled[i] == label_cell(quality[i]));
    }
    lemma_lists_rows_same(
        r.rows@,
        quality.len() as int,
        |i: int| labelled[i] is Some && row_complete(others, i),
        |i: int| quality[i] is Some && row_complete(others, i),
    );
    assert forall|k: int| 0 <= k < r.rows@.len() implies (#[trigger] r.rows@[k] as int) < quality.len()
        && quality[r.rows@[k] as int] is Some && r.labels@[k] == (label_of(
        quality[r.rows@[k] as int]->Some_0,
    ) == 1) by {
        assert(labelled[r.rows@[k] as int] == label_cell(quality[r.rows@[k] as int]));
    }
}

/// Why the rows of a table could not be labelled.
pub enum LabelError {
    /// The quality column's data type is not 64-bit signed integer.
    NotIntegers(PolarsError),
    /// Some column has a different number of rows than the quality column.
    RowCountMismatch,
}

/// Whether every column of `present` has `n_rows` entries.
pub fn columns_match(present: &Vec<Vec<bool>>, n_rows: usize) -> (b: bool)
    ensures
        b == columns_have_rows(present@, n_rows as int),
{
    let mut c: usize = 0;
    while c < present.len()
        invariant
            c <= present@.len(),
            forall|k: int| 0 <= k < c ==> (#[trigger] present@[k])@.len() == n_rows,
        decreases present@.len() - c,
    {
        if present[c].len() != n_rows {
            return false;
        }
        c = c + 1;
    }
    true
}

/// A labelled quality column with the rows that survive the removal of
/// incomplete rows.
pub struct LabelledColumn {
    /// The labels, as a column of 8-bit unsigned integers.
    pub column: Column,
    /// The kept rows with their classes.
    pub kept: LabelledRows,
}

/// Labels a polars quality column once, and from those labels keeps the
/// complete rows with their classes. Fails when the column's data type is not
/// 64-bit signed integer, or when a column of `others` has another length.
pub fn labelled_rows_of_column(quality: &Column, others: Vec<Vec<bool>>) -> (r: Result<
    LabelledColumn,
    LabelError,
>)
    ensures
        r matches Err(LabelError::NotIntegers(_)) <==> !holds_i64(*quality),
        r is Ok <==> holds_i64(*quality) && columns_have_rows(
            others@,
            int_cells(*quality).len() as int,
        ),
        r matches Ok(t) ==> {
            let q = int_cells(*quality);
            &&& byte_cells(t.column).len() == q.len()
            &&& forall|i: int| 0 <= i < q.len() ==> byte_cells(t.column)[i] == label_cell(#[trigger] q[i])
            &&& t.kept.labels@.len() == t.kept.rows@.len()
            &&& lists_rows(t.kept.rows@, q.len() as int, |i: int| q[i] is Some && row_complete(others@, i))
            &&& forall|k: int|
                0 <= k < t.kept.rows@.len() ==> (#[trigger] t.kept.rows@[k] as int) < q.len()
                    && q[t.kept.rows@[k] as int] is Some && t.kept.labels@[k] == (label_of(
                    q[t.kept.rows@[k] as int]->Some_0,
                ) == 1)
        },
{
    let ghost others_v = others@;
    match int_column_cells(quality) {
        Ok(scores) => {
            if columns_match(&others, scores.len()) {
                let labelled = quality_into_num(&scores);
                let kept = rows_of_labels(&labelled, others);
                proof {
                    lemma_labels_keep_rows(scores@, labelled@, others_v, kept);
                }
                let column = byte_column(labelled);
                Ok(LabelledColumn { column, kept })
            } else {
                Err(LabelError::RowCountMismatch)
            }
        },
        Err(e) => Err(LabelError::NotIntegers(e)),
    }
}

} // verus!
