//! The polars column type, and the two reads and writes of its cells that the
//! labelling needs.

use vstd::prelude::*;
use polars::prelude::{Column, IntoColumn, PolarsError, UInt8Chunked};

verus! {

#[verifier::external_type_specification]
#[verifier::external_body]
pub struct ExColumn(Column);

#[verifier::external_type_specification]
#[verifier::external_body]
pub struct ExPolarsError(PolarsError);

/// Whether a column's data type is 64-bit signed integer.
pub uninterp spec fn holds_i64(c: Column) -> bool;

/// The cells of a column read as 64-bit integers, in row order, `None` where
/// a cell is missing.
pub uninterp spec fn int_cells(c: Column) -> Seq<Option<i64>>;

/// The cells of a column read as 8-bit unsigned integers, in row order,
/// `None` where a cell is missing.
pub uninterp spec fn byte_cells(c: Column) -> Seq<Option<u8>>;

/// Relies on polars' `Column::i64`, which succeeds exactly when the column's
/// data type is `Int64` (`Series::try_i64`), and on `ChunkedArray::iter`, which yields every cell in
/// row order with `None` for a missing one.
#[verifier::external_body]
pub(crate) fn int_column_cells(c: &Column) -> (r: Result<Vec<Option<i64>>, PolarsError>)
    ensures
        r is Ok <==> holds_i64(*c),
        r matches Ok(v) ==> v@ == int_cells(*c),
{
    match c.i64() {
        Ok(ca) => Ok(ca.iter().collect()),
        Err(e) => Err(e),
    }
}

/// Relies on polars' `FromIterator<Option<u8>>` for `UInt8Chunked` and on
/// `IntoColumn`: a column of 8-bit unsigned integers holding `cells` in order.
#[verifier::external_body]
pub(crate) fn byte_column(cells: Vec<Option<u8>>) -> (c: Column)
    ensures
        byte_cells(c) == cells@,
{
    cells.into_iter().collect::<UInt8Chunked>().into_column()
}

} // verus!
