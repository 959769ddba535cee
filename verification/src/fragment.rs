//! Fragments of the core trace.
use vstd::prelude::*;

use crate::felt::{Felt, felt};
use crate::layout::CORE_TRACE_WIDTH;

verus! {

/// Contents of columns.
pub open spec fn columns_view(columns: Seq<Vec<Felt>>) -> Seq<Seq<Felt>> {
    columns.map_values(|column: Vec<Felt>| column@)
}

/// Whether the columns are as many and as long as given.
pub open spec fn is_table(columns: Seq<Seq<Felt>>, width: int, rows: int) -> bool {
    &&& columns.len() == width
    &&& forall|c: int| 0 <= c < width ==> (#[trigger] columns[c]).len() == rows
}

/// Columns after a cell has been written.
pub open spec fn with_cell(
    columns: Seq<Seq<Felt>>,
    column: int,
    row: int,
    value: Felt,
) -> Seq<Seq<Felt>> {
    columns.update(column, columns[column].update(row, value))
}

/// Columns of the given length that hold zeros.
pub fn zero_columns(width: usize, rows: usize) -> (r: Vec<Vec<Felt>>)
    ensures
        columns_view(r@) == Seq::new(
            width as nat,
            |c: int| Seq::new(rows as nat, |row: int| felt(0)),
        ),
{
    let mut columns: Vec<Vec<Felt>> = Vec::new();
    for c in 0..width
        invariant
            columns@.len() == c,
            forall|k: int|
                0 <= k < c ==> (#[trigger] columns@[k])@ == Seq::new(
                    rows as nat,
                    |row: int| felt(0),
                ),
    {
        let mut column: Vec<Felt> = Vec::new();
        for row in 0..rows
            invariant
                column@ == Seq::new(row as nat, |k: int| felt(0)),
        {
            column.push(Felt::zero());
            assert(column@ =~= Seq::new((row + 1) as nat, |k: int| felt(0)));
        }
        columns.push(column);
    }
    assert(columns_view(columns@) =~= Seq::new(
        width as nat,
        |c: int| Seq::new(rows as nat, |row: int| felt(0)),
    ));
    columns
}

/// The columns of a fragment of the core trace: those of the system, the decoder and the stack.
///
/// Only the fragment that ends the program is shorter than the others.
#[derive(Debug)]
pub struct CoreTraceFragment {
    pub columns: Vec<Vec<Felt>>,
}

impl View for CoreTraceFragment {
    type V = Seq<Seq<Felt>>;

    open spec fn view(&self) -> Seq<Seq<Felt>> {
        columns_view(self.columns@)
    }
}

impl CoreTraceFragment {
    /// Validity of a fragment: it has the core columns, and they are equally long.
    pub open spec fn wf(&self) -> bool {
        is_table(self@, CORE_TRACE_WIDTH as int, self.rows())
    }

    /// Number of rows.
    pub open spec fn rows(&self) -> int {
        self@[0].len() as int
    }

    /// Creates a fragment whose columns are as long as given and hold no values yet: all cells are
    /// zero until they are written.
    pub fn new_uninit(num_rows: usize) -> (r: Self)
        ensures
            r.wf(),
            r.rows() == num_rows,
            forall|c: int, row: int|
                0 <= c < CORE_TRACE_WIDTH && 0 <= row < num_rows ==> #[trigger] r@[c][row] == felt(
                    0,
                ),
    {
        let columns = zero_columns(CORE_TRACE_WIDTH, num_rows);
        CoreTraceFragment { columns }
    }

    /// Whether the fragment has the core columns, and they are equally long.
    pub fn is_valid(&self) -> (r: bool)
        ensures
            r == self.wf(),
    {
        if self.columns.len() != CORE_TRACE_WIDTH {
            return false;
        }
        let rows: usize = self.row_count();
        for c in 0..CORE_TRACE_WIDTH
            invariant
                self.columns@.len() == CORE_TRACE_WIDTH,
                rows == self.rows(),
                forall|k: int| 0 <= k < c ==> (#[trigger] self@[k]).len() == rows,
        {
            assert(self@[c as int] == self.columns@[c as int]@);
            if self.columns[c].len() != rows {
                return false;
            }
        }
        true
    }

    /// Number of rows in this fragment.
    pub fn row_count(&self) -> (r: usize)
        requires
            self.columns@.len() > 0,
        ensures
            r == self.rows(),
    {
        self.columns[0].len()
    }

    /// Writes a cell.
    pub fn set(&mut self, column: usize, row: usize, value: Felt)
        requires
            column < old(self)@.len(),
            row < old(self)@[column as int].len(),
        ensures
            final(self)@ == with_cell(old(self)@, column as int, row as int, value),
    {
        self.columns[column][row] = value;
        assert(self@ =~= with_cell(old(self)@, column as int, row as int, value));
    }
}

} // verus!
