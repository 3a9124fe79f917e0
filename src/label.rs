//! Turning quality scores into binary labels.

use vstd::prelude::*;
use polars::prelude::{Column, PolarsError};
use crate::column::{byte_cells, byte_column, holds_i64, int_cells, int_column_cells};

verus! {

/// Scores strictly above this value are labelled good (1), the others bad (0).
pub const QUALITY_THRESHOLD: i64 = 5;

/// The label of one quality score.
pub open spec fn label_of(quality: i64) -> u8 {
    if quality > QUALITY_THRESHOLD {
        1
    } else {
        0
    }
}

/// The label of one cell of the quality column; a missing score stays missing.
pub open spec fn label_cell(quality: Option<i64>) -> Option<u8> {
    match quality {
        Some(q) => Some(label_of(q)),
        None => None,
    }
}

/// Labels one quality score.
pub fn binarize(quality: i64) -> (r: u8)
    ensures
        r == label_of(quality),
{
    if quality > QUALITY_THRESHOLD {
        1
    } else {
        0
    }
}

/// Replaces every score of the quality column by its label, keeping missing
/// cells missing and the order of the rows.
pub fn quality_into_num(quality: &Vec<Option<i64>>) -> (r: Vec<Option<u8>>)
    ensures
        r@.len() == quality@.len(),
        forall|i: int| 0 <= i < quality@.len() ==> r@[i] == label_cell(#[trigger] quality@[i]),
        forall|i: int|
            0 <= i < r@.len() ==> (#[trigger] r@[i] is None || r@[i] == Some(0u8) || r@[i]
                == Some(1u8)),
        forall|i: int|
            0 <= i < quality@.len() ==> (#[trigger] quality@[i] is None <==> r@[i] is None),
{
    let mut r: Vec<Option<u8>> = Vec::with_capacity(quality.len());
    let mut i: usize = 0;
    while i < quality.len()
        invariant
            i <= quality@.len(),
            r@.len() == i,
            forall|j: int| 0 <= j < i ==> r@[j] == label_cell(#[trigger] quality@[j]),
        decreases quality@.len() - i,
    {
        let cell = match quality[i] {
            Some(q) => Some(binarize(q)),
            None => None,
        };
        r.push(cell);
        i = i + 1;
    }
    assert forall|i: int| 0 <= i < r@.len() implies (#[trigger] r@[i] is None || r@[i] == Some(
        0u8,
    ) || r@[i] == Some(1u8)) by {
        assert(r@[i] == label_cell(quality@[i]));
    }
    r
}

/// Replaces every score of a column of 64-bit integers by its label, in a
/// new column of 8-bit unsigned integers. Fails with polars' error exactly
/// when the column's data type is not 64-bit signed integer.
pub fn quality_column_into_num(quality: &Column) -> (r: Result<Column, PolarsError>)
    ensures
        r is Ok <==> holds_i64(*quality),
        r matches Ok(c) ==> byte_cells(c).len() == int_cells(*quality).len() && forall|i: int|
            0 <= i < int_cells(*quality).len() ==> byte_cells(c)[i] == label_cell(
                #[trigger] int_cells(*quality)[i],
            ),
{
    match int_column_cells(quality) {
        Ok(scores) => Ok(byte_column(quality_into_num(&scores))),
        Err(e) => Err(e),
    }
}

/// Reads each label as a class: any value other than 0 is the positive class.
pub fn labels_as_bool(labels: &Vec<u8>) -> (r: Vec<bool>)
    ensures
        r@.len() == labels@.len(),
        forall|i: int| 0 <= i < labels@.len() ==> r@[i] == (#[trigger] labels@[i] != 0),
{
    let mut r: Vec<bool> = Vec::with_capacity(labels.len());
    let mut i: usize = 0;
    while i < labels.len()
        invariant
            i <= labels@.len(),
            r@.len() == i,
            forall|j: int| 0 <= j < i ==> r@[j] == (#[trigger] labels@[j] != 0),
        decreases labels@.len() - i,
    {
        r.push(labels[i] != 0);
        i = i + 1;
    }
    r
}

} // verus!
