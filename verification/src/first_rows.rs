//! First rows of fragments.
//!
//! Stack and system columns are written one row ahead, so a fragment's generator writes those of
//! the first row of the next fragment, and leaves its own first row open.
use vstd::prelude::*;

use crate::felt::{Felt, felt};
use crate::fragment::CoreTraceFragment;
use crate::layout::{
    B0_COL_IDX, B1_COL_IDX, CORE_TRACE_WIDTH, H0_COL_IDX, MIN_STACK_DEPTH, STACK_TOP_OFFSET,
    STACK_TRACE_OFFSET, STACK_TRACE_WIDTH, SYS_TRACE_WIDTH,
};

verus! {

/// Columns with the system and stack columns of the first row replaced.
pub open spec fn with_first_row(
    columns: Seq<Seq<Felt>>,
    system: Seq<Felt>,
    stack: Seq<Felt>,
) -> Seq<Seq<Felt>> {
    Seq::new(
        columns.len(),
        |c: int|
            if 0 <= c < SYS_TRACE_WIDTH {
                columns[c].update(0, system[c])
            } else if STACK_TRACE_OFFSET <= c < STACK_TRACE_OFFSET + STACK_TRACE_WIDTH {
                columns[c].update(0, stack[c - STACK_TRACE_OFFSET])
            } else {
                columns[c]
            },
    )
}

/// Stack columns of the first row of a program: the elements of the stack, the last one of which is
/// the top, followed by the stack depth, and zeros for the empty overflow table. Columns of elements
/// that are not there keep their value.
pub open spec fn initial_stack_row(columns: Seq<Seq<Felt>>, stack_top: Seq<Felt>) -> Seq<Felt> {
    Seq::new(
        STACK_TRACE_WIDTH as nat,
        |i: int|
            if i < MIN_STACK_DEPTH {
                if i < stack_top.len() {
                    stack_top[stack_top.len() - 1 - i]
                } else {
                    columns[STACK_TRACE_OFFSET + i][0]
                }
            } else if i == B0_COL_IDX {
                felt(MIN_STACK_DEPTH as int)
            } else {
                felt(0)
            },
    )
}

/// Columns of the `k`-th fragment, where the first row is that of the program, or the one that has
/// been handed on by the previous fragment.
pub open spec fn completed_columns(
    columns: Seq<Seq<Felt>>,
    k: int,
    stack_rows: Seq<[Felt; 19]>,
    system_rows: Seq<[Felt; 8]>,
    first_stack_top: Seq<Felt>,
    first_system_state: Seq<Felt>,
) -> Seq<Seq<Felt>> {
    if columns[0].len() == 0 {
        columns
    } else if k == 0 {
        with_first_row(columns, first_system_state, initial_stack_row(columns, first_stack_top))
    } else if k - 1 < stack_rows.len() && k - 1 < system_rows.len() {
        with_first_row(columns, system_rows[k - 1]@, stack_rows[k - 1]@)
    } else {
        columns
    }
}

impl CoreTraceFragment {
    /// Replaces the system and stack columns of the first row.
    pub fn set_first_row(&mut self, system: &[Felt; 8], stack: &[Felt; 19])
        requires
            old(self).wf(),
            old(self).rows() > 0,
        ensures
            final(self)@ == with_first_row(old(self)@, system@, stack@),
            final(self).wf(),
            final(self).rows() == old(self).rows(),
    {
        let ghost before = self@;
        for i in 0..SYS_TRACE_WIDTH
            invariant
                before.len() == CORE_TRACE_WIDTH,
                self@.len() == before.len(),
                forall|c: int| 0 <= c < 51 ==> (#[trigger] before[c]).len() == before[0].len(),
                before[0].len() > 0,
                forall|c: int|
                    0 <= c < 51 ==> #[trigger] self@[c] == (if c < i {
                        before[c].update(0, system@[c])
                    } else {
                        before[c]
                    }),
        {
            self.set(i, 0, system[i]);
        }
        for i in 0..STACK_TRACE_WIDTH
            invariant
                before.len() == CORE_TRACE_WIDTH,
                self@.len() == before.len(),
                forall|c: int| 0 <= c < 51 ==> (#[trigger] before[c]).len() == before[0].len(),
                before[0].len() > 0,
                forall|c: int|
                    0 <= c < 51 ==> #[trigger] self@[c] == (if c < SYS_TRACE_WIDTH {
                        before[c].update(0, system@[c])
                    } else if STACK_TRACE_OFFSET <= c < STACK_TRACE_OFFSET + i {
                        before[c].update(0, stack@[c - STACK_TRACE_OFFSET])
                    } else {
                        before[c]
                    }),
        {
            self.set(STACK_TRACE_OFFSET + i, 0, stack[i]);
        }
        assert(self@ =~= with_first_row(before, system@, stack@));
    }

    /// The stack columns of the first row of a program that starts in this fragment.
    fn first_stack_row(&self, first_stack_top: &Vec<Felt>) -> (r: [Felt; 19])
        requires
            self.wf(),
            self.rows() > 0,
        ensures
            r@ == initial_stack_row(self@, first_stack_top@),
    {
        let mut row: [Felt; 19] = [Felt::zero();19];
        let len: usize = first_stack_top.len();
        for i in 0..MIN_STACK_DEPTH
            invariant
                self.wf(),
                self.rows() > 0,
                len == first_stack_top@.len(),
                forall|k: int|
                    0 <= k < i ==> #[trigger] row@[k] == initial_stack_row(
                        self@,
                        first_stack_top@,
                    )[k],
                forall|k: int| i <= k < 19 ==> #[trigger] row@[k] == felt(0),
        {
            assert(self@[32 + i] == self.columns@[32 + i]@);
            // The trace starts with the top of the stack, which ends with it.
            row[i] = if i < len {
                first_stack_top[len - 1 - i]
            } else {
                self.columns[STACK_TRACE_OFFSET + STACK_TOP_OFFSET + i][0]
            };
        }
        row[B0_COL_IDX] = Felt::new(MIN_STACK_DEPTH as u64);
        row[B1_COL_IDX] = Felt::zero();
        row[H0_COL_IDX] = Felt::zero();
        assert(row@ =~= initial_stack_row(self@, first_stack_top@));
        row
    }
}

/// Completes the first row of each fragment: the first fragment starts with the initial state, the
/// others with what the fragment before them has handed on.
pub fn fixup_stack_and_system_rows(
    fragments: &mut Vec<CoreTraceFragment>,
    stack_rows: &Vec<[Felt; 19]>,
    system_rows: &Vec<[Felt; 8]>,
    first_stack_top: &Vec<Felt>,
    first_system_state: &[Felt; 8],
)
    requires
        forall|k: int| 0 <= k < old(fragments)@.len() ==> (#[trigger] old(fragments)@[k]).wf(),
    ensures
        final(fragments)@.len() == old(fragments)@.len(),
        forall|k: int|
            0 <= k < old(fragments)@.len() ==> {
                &&& (#[trigger] final(fragments)@[k]).wf()
                &&& final(fragments)@[k].rows() == old(fragments)@[k].rows()
                &&& final(fragments)@[k]@ == completed_columns(
                    old(fragments)@[k]@,
                    k,
                    stack_rows@,
                    system_rows@,
                    first_stack_top@,
                    first_system_state@,
                )
            },
{
    let n: usize = fragments.len();
    let ghost before = fragments@;
    for k in 0..n
        invariant
            n == before.len(),
            fragments@.len() == n,
            forall|j: int| 0 <= j < n ==> (#[trigger] before[j]).wf(),
            forall|j: int| k <= j < n ==> #[trigger] fragments@[j] == before[j],
            forall|j: int|
                0 <= j < k ==> {
                    &&& (#[trigger] fragments@[j]).wf()
                    &&& fragments@[j].rows() == before[j].rows()
                    &&& fragments@[j]@ == completed_columns(
                        before[j]@,
                        j,
                        stack_rows@,
                        system_rows@,
                        first_stack_top@,
                        first_system_state@,
                    )
                },
    {
        assert(fragments@[k as int] == before[k as int]);
        if fragments[k].row_count() > 0 {
            if k == 0 {
                let stack_row = fragments[k].first_stack_row(first_stack_top);
                fragments[k].set_first_row(first_system_state, &stack_row);
            } else if k - 1 < stack_rows.len() && k - 1 < system_rows.len() {
                fragments[k].set_first_row(&system_rows[k - 1], &stack_rows[k - 1]);
            }
        }
    }
}

} // verus!
