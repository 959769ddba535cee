//! The main trace.
use miden_air::trace::main_trace::MainTrace;
use vstd::arithmetic::power2::pow2;
use vstd::prelude::*;

use crate::felt::{Felt, MODULUS};
use crate::fragment::columns_view;
use crate::inversion::representatives;

verus! {

/// The main trace of `miden_air`.
#[verifier::external_type_specification]
#[verifier::external_body]
pub struct ExMainTrace(MainTrace);

/// The columns of a main trace, by the canonical representatives of their elements.
pub uninterp spec fn main_trace_columns(trace: MainTrace) -> Seq<Seq<u64>>;

/// The last row of the program in a main trace.
pub uninterp spec fn main_trace_last_row(trace: MainTrace) -> u32;

/// Columns by the canonical representatives of their elements.
pub open spec fn column_values(columns: Seq<Seq<Felt>>) -> Seq<Seq<u64>> {
    Seq::new(
        columns.len(),
        |c: int| Seq::new(columns[c].len(), |row: int| columns[c][row]@ as u64),
    )
}

/// Whether columns can make up a trace: they are equally long, and their length is a power of two
/// greater than 1.
pub open spec fn can_form_trace(columns: Seq<Seq<u64>>) -> bool {
    &&& columns.len() > 0
    &&& columns[0].len() > 1
    &&& exists|k: nat| columns[0].len() == #[trigger] pow2(k)
    &&& forall|c: int| 0 <= c < columns.len() ==> (#[trigger] columns[c]).len() == columns[0].len()
}

/// Calls `ColMatrix::new` on the columns and `MainTrace::new` on the matrix. Claimed of the trace:
/// it holds these columns, in this order, and this row. The former panics unless the columns are
/// equally long, and their length is a power of two greater than 1.
#[verifier::external_body]
fn main_trace_from_values(columns: Vec<Vec<u64>>, last_program_row: u32) -> (r: MainTrace)
    requires
        can_form_trace(columns@.map_values(|column: Vec<u64>| column@)),
        forall|c: int, row: int|
            0 <= c < columns@.len() && 0 <= row < columns@[c]@.len()
                ==> #[trigger] columns@[c]@[row] < MODULUS,
    ensures
        main_trace_columns(r) == columns@.map_values(|column: Vec<u64>| column@),
        main_trace_last_row(r) == last_program_row,
{
    let columns: Vec<Vec<miden_core::Felt>> = columns
        .into_iter()
        .map(|column| column.into_iter().map(|value| miden_core::Felt::new(value)).collect())
        .collect();
    let matrix = winter_prover::matrix::ColMatrix::new(columns);
    MainTrace::new(matrix, miden_air::RowIndex::from(last_program_row))
}

/// The main trace with the given columns.
pub fn new_main_trace(columns: &Vec<Vec<Felt>>, last_program_row: u32) -> (r: MainTrace)
    requires
        can_form_trace(column_values(columns_view(columns@))),
    ensures
        main_trace_columns(r) == column_values(columns_view(columns@)),
        main_trace_last_row(r) == last_program_row,
{
    let mut values: Vec<Vec<u64>> = Vec::new();
    for c in 0..columns.len()
        invariant
            values@.len() == c,
            forall|k: int|
                0 <= k < c ==> (#[trigger] values@[k])@ =~= column_values(
                    columns_view(columns@),
                )[k],
            forall|k: int, row: int|
                0 <= k < c && 0 <= row < values@[k]@.len() ==> #[trigger] values@[k]@[row]
                    < MODULUS,
    {
        values.push(representatives(&columns[c]));
    }
    assert(values@.map_values(|column: Vec<u64>| column@) =~= column_values(
        columns_view(columns@),
    ));
    main_trace_from_values(values, last_program_row)
}

} // verus!
