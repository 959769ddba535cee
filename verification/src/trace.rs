//! Building the main trace from fragments of the core trace.
use miden_air::trace::main_trace::MainTrace;
use vstd::arithmetic::power2::pow2;
use vstd::prelude::*;

use crate::checkpoints::CoreTraceState;
use crate::executor::FMP_MIN;
use crate::felt::{Felt, Word, felt};
use crate::first_rows::{completed_columns, fixup_stack_and_system_rows};
use crate::fragment::{CoreTraceFragment, columns_view, is_table, zero_columns};
use crate::inversion::{inverse_of, invert_column, is_inverse};
use crate::layout::{
    CORE_TRACE_WIDTH, H0_COL_IDX, MIN_STACK_DEPTH, MIN_TRACE_LEN, NUM_RAND_ROWS, STACK_TRACE_OFFSET,
    TRACE_WIDTH,
};
use crate::main_trace::{
    can_form_trace, column_values, main_trace_columns, main_trace_last_row, new_main_trace,
};
use crate::padding::{pad_trace_columns, padded_column};
use crate::power::{
    checked_next_power_of_two, lemma_next_power_is_least, next_power, next_power_of_two,
};
use crate::random_coin::{draw_elements, drawn_elements};

verus! {

// MODEL
// ================================================================================================

pub open spec fn fragments_view(fragments: Seq<CoreTraceFragment>) -> Seq<Seq<Seq<Felt>>> {
    fragments.map_values(|fragment: CoreTraceFragment| fragment@)
}

/// Number of rows of several fragments.
pub open spec fn total_rows(fragments: Seq<Seq<Seq<Felt>>>) -> nat
    decreases fragments.len(),
{
    if fragments.len() == 0 {
        0
    } else {
        total_rows(fragments.drop_last()) + fragments.last()[0].len()
    }
}

/// A column of several fragments, one after the other.
pub open spec fn joined_column(fragments: Seq<Seq<Seq<Felt>>>, c: int) -> Seq<Felt>
    decreases fragments.len(),
{
    if fragments.len() == 0 {
        Seq::empty()
    } else {
        joined_column(fragments.drop_last(), c) + fragments.last()[c]
    }
}

/// Whether fragments can be combined: they are valid, they have a row, and the length of the trace
/// can be represented.
pub open spec fn can_combine(fragments: Seq<Seq<Seq<Felt>>>) -> bool {
    &&& forall|k: int|
        0 <= k < fragments.len() ==> is_table(
            #[trigger] fragments[k],
            CORE_TRACE_WIDTH as int,
            fragments[k][0].len() as int,
        )
    &&& total_rows(fragments) > 0
    &&& next_power(total_rows(fragments) + NUM_RAND_ROWS as nat) <= usize::MAX
}

/// Length of a trace: a power of two that leaves room for random rows, or the minimum length.
pub open spec fn trace_length(program_rows: nat) -> nat {
    let needed = next_power(program_rows + NUM_RAND_ROWS as nat);
    if needed < MIN_TRACE_LEN {
        MIN_TRACE_LEN as nat
    } else {
        needed
    }
}

/// Index of the last row of the program.
pub open spec fn last_program_row(program_rows: nat) -> u32 {
    let rows = program_rows as usize as u32;
    if rows == 0 {
        0
    } else {
        (rows - 1) as u32
    }
}

/// A column of the trace with the rows of the program, and zeros in all other rows. Columns other
/// than the core columns hold zeros only.
pub open spec fn program_column(fragments: Seq<Seq<Seq<Felt>>>, c: int) -> Seq<Felt> {
    let rows = total_rows(fragments);
    Seq::new(
        trace_length(rows),
        |row: int|
            if c < CORE_TRACE_WIDTH && row < rows {
                joined_column(fragments, c)[row]
            } else {
                felt(0)
            },
    )
}

/// Columns of the trace with the rows of the program and, after them, padding.
pub open spec fn padded_columns(fragments: Seq<Seq<Seq<Felt>>>) -> Seq<Seq<Felt>> {
    Seq::new(
        TRACE_WIDTH as nat,
        |c: int| padded_column(program_column(fragments, c), c, total_rows(fragments) as int),
    )
}

/// Columns with the elements of a stack helper column inverted.
pub open spec fn with_inverted_helper(columns: Seq<Seq<Felt>>) -> Seq<Seq<Felt>> {
    let h0 = STACK_TRACE_OFFSET + H0_COL_IDX;
    columns.update(h0, columns[h0].map_values(|element: Felt| inverse_of(element)))
}

/// Columns whose last rows, in the core columns, hold the given values, row by row.
pub open spec fn with_random_rows(columns: Seq<Seq<Felt>>, draws: Seq<Felt>) -> Seq<Seq<Felt>> {
    Seq::new(
        columns.len(),
        |c: int|
            if c < CORE_TRACE_WIDTH {
                let from = columns[c].len() - NUM_RAND_ROWS;
                Seq::new(
                    columns[c].len(),
                    |row: int|
                        if row < from {
                            columns[c][row]
                        } else {
                            draws[(row - from) * CORE_TRACE_WIDTH + c]
                        },
                )
            } else {
                columns[c]
            },
    )
}

/// Columns of the trace of a program.
pub open spec fn combined_columns(
    fragments: Seq<Seq<Seq<Felt>>>,
    draws: Seq<Felt>,
) -> Seq<Seq<Felt>> {
    with_random_rows(with_inverted_helper(padded_columns(fragments)), draws)
}

/// Whether, in the rows of the program, a stack helper column holds the inverses of what the
/// fragments hold there.
pub open spec fn helper_is_inverted(
    fragments: Seq<Seq<Seq<Felt>>>,
    columns: Seq<Seq<Felt>>,
) -> bool {
    let h0 = STACK_TRACE_OFFSET + H0_COL_IDX;
    forall|row: int|
        0 <= row < total_rows(fragments) ==> is_inverse(
            joined_column(fragments, h0)[row]@,
            (#[trigger] columns[h0][row])@,
        )
}

// COMBINING FRAGMENTS
// ================================================================================================

pub proof fn lemma_joined_length(fragments: Seq<Seq<Seq<Felt>>>, c: int)
    requires
        forall|k: int|
            0 <= k < fragments.len() ==> is_table(
                #[trigger] fragments[k],
                CORE_TRACE_WIDTH as int,
                fragments[k][0].len() as int,
            ),
        0 <= c < CORE_TRACE_WIDTH,
    ensures
        joined_column(fragments, c).len() == total_rows(fragments),
    decreases fragments.len(),
{
    if fragments.len() > 0 {
        lemma_joined_length(fragments.drop_last(), c);
        assert(fragments.last() == fragments[fragments.len() - 1]);
    }
}

proof fn lemma_fragment_in_total(fragments: Seq<Seq<Seq<Felt>>>, k: int)
    requires
        0 <= k < fragments.len(),
    ensures
        total_rows(fragments.take(k + 1)) == total_rows(fragments.take(k)) + fragments[k][0].len(),
        total_rows(fragments.take(k + 1)) <= total_rows(fragments),
        forall|c: int|
            #[trigger] joined_column(fragments.take(k + 1), c) == joined_column(
                fragments.take(k),
                c,
            ) + fragments[k][c],
    decreases fragments.len(),
{
    assert(fragments.take(k + 1).drop_last() =~= fragments.take(k));
    if k + 1 == fragments.len() {
        assert(fragments.take(k + 1) =~= fragments);
    } else {
        let shorter = fragments.drop_last();
        lemma_fragment_in_total(shorter, k);
        assert(shorter.take(k + 1) =~= fragments.take(k + 1));
        assert(shorter.take(k) =~= fragments.take(k));
    }
}

/// Number of rows of all fragments.
fn count_rows(fragments: &Vec<CoreTraceFragment>) -> (r: usize)
    requires
        forall|k: int| 0 <= k < fragments@.len() ==> (#[trigger] fragments@[k]).wf(),
        total_rows(fragments_view(fragments@)) <= usize::MAX,
    ensures
        r == total_rows(fragments_view(fragments@)),
{
    let ghost all = fragments_view(fragments@);
    let mut total: usize = 0;
    for k in 0..fragments.len()
        invariant
            all == fragments_view(fragments@),
            forall|j: int| 0 <= j < fragments@.len() ==> (#[trigger] fragments@[j]).wf(),
            total_rows(all) <= usize::MAX,
            total == total_rows(all.take(k as int)),
    {
        proof {
            lemma_fragment_in_total(all, k as int);
            assert(all[k as int] == fragments@[k as int]@);
        }
        total = total + fragments[k].row_count();
    }
    assert(all.take(all.len() as int) =~= all);
    total
}

/// Columns, as long as given, that hold the rows of fragments in the core columns, and zeros in all
/// other cells.
spec fn filled_columns(fragments: Seq<Seq<Seq<Felt>>>, trace_len: nat) -> Seq<Seq<Felt>> {
    Seq::new(
        TRACE_WIDTH as nat,
        |c: int|
            Seq::new(
                trace_len,
                |row: int|
                    if c < CORE_TRACE_WIDTH && row < total_rows(fragments) {
                        joined_column(fragments, c)[row]
                    } else {
                        felt(0)
                    },
            ),
    )
}

/// Copies the rows of a fragment to the core columns of the trace, from the given row on.
fn copy_fragment(trace_columns: &mut Vec<Vec<Felt>>, fragment: &CoreTraceFragment, from: usize)
    requires
        old(trace_columns)@.len() == TRACE_WIDTH,
        fragment.wf(),
        forall|c: int|
            0 <= c < TRACE_WIDTH ==> from + fragment.rows() <= (#[trigger] old(
                trace_columns,
            )@[c])@.len(),
    ensures
        final(trace_columns)@.len() == TRACE_WIDTH,
        forall|c: int|
            CORE_TRACE_WIDTH <= c < TRACE_WIDTH ==> #[trigger] final(trace_columns)@[c] == old(
                trace_columns,
            )@[c],
        forall|c: int|
            0 <= c < CORE_TRACE_WIDTH ==> (#[trigger] final(trace_columns)@[c])@ == Seq::new(
                old(trace_columns)@[c]@.len(),
                |row: int|
                    if from <= row < from + fragment.rows() {
                        fragment@[c][row - from]
                    } else {
                        old(trace_columns)@[c]@[row]
                    },
            ),
{
    let rows: usize = fragment.row_count();
    let ghost before = trace_columns@;
    for c in 0..CORE_TRACE_WIDTH
        invariant
            rows == fragment.rows(),
            fragment.wf(),
            before.len() == TRACE_WIDTH,
            trace_columns@.len() == TRACE_WIDTH,
            forall|k: int|
                0 <= k < TRACE_WIDTH ==> from + rows <= (#[trigger] before[k])@.len(),
            forall|k: int| c <= k < TRACE_WIDTH ==> #[trigger] trace_columns@[k] == before[k],
            forall|k: int|
                0 <= k < c ==> (#[trigger] trace_columns@[k])@ == Seq::new(
                    before[k]@.len(),
                    |row: int|
                        if from <= row < from + rows {
                            fragment@[k][row - from]
                        } else {
                            before[k]@[row]
                        },
                ),
    {
        assert(fragment@[c as int] == fragment.columns@[c as int]@);
        assert(trace_columns@[c as int] == before[c as int]);
        let ghost old_columns = trace_columns@;
        let trace_len: usize = trace_columns[c].len();
        assert(trace_columns@[c as int]@ =~= Seq::new(
            before[c as int]@.len(),
            |r: int|
                if from <= r < from {
                    fragment@[c as int][r - from]
                } else {
                    before[c as int]@[r]
                },
        ));
        for row in 0..rows
            invariant
                rows == fragment.rows(),
                c < CORE_TRACE_WIDTH,
                fragment.columns@.len() == CORE_TRACE_WIDTH,
                fragment@[c as int] == fragment.columns@[c as int]@,
                fragment.columns@[c as int]@.len() == rows,
                before.len() == TRACE_WIDTH,
                trace_columns@.len() == TRACE_WIDTH,
                from + rows <= trace_len == before[c as int]@.len(),
                forall|k: int|
                    0 <= k < TRACE_WIDTH && k != c ==> #[trigger] trace_columns@[k]
                        == old_columns[k],
                trace_columns@[c as int]@ == Seq::new(
                    before[c as int]@.len(),
                    |r: int|
                        if from <= r < from + row {
                            fragment@[c as int][r - from]
                        } else {
                            before[c as int]@[r]
                        },
                ),
        {
            trace_columns[c][from + row] = fragment.columns[c][row];
            assert(trace_columns@[c as int]@ =~= Seq::new(
                before[c as int]@.len(),
                |r: int|
                    if from <= r < from + row + 1 {
                        fragment@[c as int][r - from]
                    } else {
                        before[c as int]@[r]
                    },
            ));
        }
    }
}

/// The columns of the trace with the rows of the fragments, one fragment after the other, and
/// padding.
pub fn assemble_columns(fragments: &Vec<CoreTraceFragment>) -> (r: Vec<Vec<Felt>>)
    requires
        can_combine(fragments_view(fragments@)),
    ensures
        columns_view(r@) == padded_columns(fragments_view(fragments@)),
{
    let ghost all = fragments_view(fragments@);
    proof {
        lemma_next_power_is_least(total_rows(all) + NUM_RAND_ROWS as nat);
        assert forall|k: int| 0 <= k < fragments@.len() implies (#[trigger] fragments@[k]).wf() by {
            assert(all[k] == fragments@[k]@);
        }
    }
    let total_program_rows: usize = count_rows(fragments);
    let needed: usize = next_power_of_two(total_program_rows + NUM_RAND_ROWS);
    let trace_len: usize = if needed < MIN_TRACE_LEN {
        MIN_TRACE_LEN
    } else {
        needed
    };
    let mut trace_columns = zero_columns(TRACE_WIDTH, trace_len);
    let mut current_row_idx: usize = 0;
    assert(columns_view(trace_columns@) =~~= filled_columns(all.take(0), trace_len as nat));
    assert(columns_view(trace_columns@).len() == trace_columns@.len());
    for k in 0..fragments.len()
        invariant
            all == fragments_view(fragments@),
            forall|j: int| 0 <= j < fragments@.len() ==> (#[trigger] fragments@[j]).wf(),
            current_row_idx == total_rows(all.take(k as int)),
            total_rows(all) <= trace_len,
            trace_columns@.len() == TRACE_WIDTH,
            columns_view(trace_columns@) == filled_columns(all.take(k as int), trace_len as nat),
    {
        let ghost before = columns_view(trace_columns@);
        proof {
            lemma_fragment_in_total(all, k as int);
            assert(all[k as int] == fragments@[k as int]@);
            assert forall|c: int| 0 <= c < TRACE_WIDTH implies (#[trigger] trace_columns@[c])@
                == before[c] by {}
        }
        copy_fragment(&mut trace_columns, &fragments[k], current_row_idx);
        proof {
            let done = filled_columns(all.take(k + 1), trace_len as nat);
            assert forall|c: int| 0 <= c < TRACE_WIDTH implies (#[trigger] trace_columns@[c])@
                =~= done[c] by {
                if c < CORE_TRACE_WIDTH {
                    assert forall|j: int| 0 <= j < k implies is_table(
                        #[trigger] all.take(k as int)[j],
                        CORE_TRACE_WIDTH as int,
                        all.take(k as int)[j][0].len() as int,
                    ) by {
                        assert(fragments@[j].wf());
                    }
                    lemma_joined_length(all.take(k as int), c);
                    assert(joined_column(all.take(k + 1), c) == joined_column(
                        all.take(k as int),
                        c,
                    ) + all[k as int][c]);
                }
            }
            assert(columns_view(trace_columns@) =~= done);
        }
        current_row_idx = current_row_idx + fragments[k].row_count();
    }
    assert(all.take(all.len() as int) =~= all);
    let ghost filled = trace_columns@;
    assert forall|c: int| 0 <= c < TRACE_WIDTH implies (#[trigger] filled[c])@ =~= program_column(
        all,
        c,
    ) by {
        assert(columns_view(filled)[c] == filled[c]@);
    }
    pad_trace_columns(&mut trace_columns, total_program_rows, trace_len);
    assert forall|c: int| 0 <= c < TRACE_WIDTH implies columns_view(trace_columns@)[c]
        == #[trigger] padded_columns(all)[c] by {
        assert(filled[c]@ == program_column(all, c));
    }
    assert(columns_view(trace_columns@) =~= padded_columns(all));
    trace_columns
}

/// Writes values to the last rows of the core columns, row by row.
pub fn inject_random_values(trace_columns: &mut Vec<Vec<Felt>>, draws: &Vec<Felt>)
    requires
        old(trace_columns)@.len() == TRACE_WIDTH,
        forall|c: int|
            0 <= c < TRACE_WIDTH ==> (#[trigger] old(trace_columns)@[c])@.len() >= NUM_RAND_ROWS
                && old(trace_columns)@[c]@.len() == old(trace_columns)@[0]@.len(),
        draws@.len() == NUM_RAND_ROWS * CORE_TRACE_WIDTH,
    ensures
        columns_view(final(trace_columns)@) == with_random_rows(
            columns_view(old(trace_columns)@),
            draws@,
        ),
{
    let ghost before = columns_view(trace_columns@);
    let trace_len: usize = trace_columns[0].len();
    let from: usize = trace_len - NUM_RAND_ROWS;
    for i in from..trace_len
        invariant
            from == trace_len - NUM_RAND_ROWS,
            draws@.len() == NUM_RAND_ROWS * CORE_TRACE_WIDTH,
            before.len() == TRACE_WIDTH,
            forall|c: int| 0 <= c < TRACE_WIDTH ==> (#[trigger] before[c]).len() == trace_len,
            trace_columns@.len() == TRACE_WIDTH,
            forall|c: int|
                CORE_TRACE_WIDTH <= c < TRACE_WIDTH ==> (#[trigger] trace_columns@[c])@
                    == before[c],
            forall|c: int|
                0 <= c < CORE_TRACE_WIDTH ==> (#[trigger] trace_columns@[c])@ == Seq::new(
                    trace_len as nat,
                    |row: int|
                        if from <= row < i {
                            draws@[(row - from) * CORE_TRACE_WIDTH + c]
                        } else {
                            before[c][row]
                        },
                ),
    {
        let ghost so_far = trace_columns@;
        for c in 0..CORE_TRACE_WIDTH
            invariant
                from == trace_len - NUM_RAND_ROWS,
                from <= i < trace_len,
                draws@.len() == NUM_RAND_ROWS * CORE_TRACE_WIDTH,
                so_far.len() == TRACE_WIDTH,
                trace_columns@.len() == TRACE_WIDTH,
                forall|k: int|
                    0 <= k < CORE_TRACE_WIDTH ==> (#[trigger] so_far[k])@.len() == trace_len,
                forall|k: int|
                    c <= k < TRACE_WIDTH ==> #[trigger] trace_columns@[k] == so_far[k],
                forall|k: int|
                    0 <= k < c ==> (#[trigger] trace_columns@[k])@ == so_far[k]@.update(
                        i as int,
                        draws@[(i - from) * CORE_TRACE_WIDTH + k],
                    ),
        {
            assert(trace_columns@[c as int] == so_far[c as int]);
            trace_columns[c][i] = draws[(i - from) * CORE_TRACE_WIDTH + c];
        }
        assert forall|c: int| 0 <= c < CORE_TRACE_WIDTH implies (#[trigger] trace_columns@[c])@
            =~= Seq::new(
            trace_len as nat,
            |row: int|
                if from <= row < i + 1 {
                    draws@[(row - from) * CORE_TRACE_WIDTH + c]
                } else {
                    before[c][row]
                },
        ) by {
            assert(so_far[c]@.len() == trace_len);
        }
    }
    let ghost done = with_random_rows(before, draws@);
    assert forall|c: int| 0 <= c < TRACE_WIDTH implies (#[trigger] trace_columns@[c])@
        =~= done[c] by {
        assert(before[c].len() == trace_len);
    }
    assert(columns_view(trace_columns@) =~= done);
}

/// The columns of the trace of a program, given the values for its random rows.
pub fn combine_columns(fragments: &Vec<CoreTraceFragment>, draws: &Vec<Felt>) -> (r: Vec<Vec<Felt>>)
    requires
        can_combine(fragments_view(fragments@)),
        draws@.len() == NUM_RAND_ROWS * CORE_TRACE_WIDTH,
    ensures
        columns_view(r@) == combined_columns(fragments_view(fragments@), draws@),
        helper_is_inverted(fragments_view(fragments@), columns_view(r@)),
{
    let ghost all = fragments_view(fragments@);
    let mut trace_columns = assemble_columns(fragments);
    let ghost padded = trace_columns@;
    assert(columns_view(padded).len() == padded.len());
    assert forall|c: int| 0 <= c < TRACE_WIDTH implies (#[trigger] padded[c])@
        == padded_columns(all)[c] by {
        assert(columns_view(padded)[c] == padded[c]@);
    }
    let h0: usize = STACK_TRACE_OFFSET + H0_COL_IDX;
    let inverses = invert_column(&trace_columns[h0]);
    let ghost inverted = inverses@;
    trace_columns[h0] = inverses;
    assert(columns_view(trace_columns@) =~= with_inverted_helper(padded_columns(all)));
    assert forall|c: int| 0 <= c < TRACE_WIDTH implies (#[trigger] trace_columns@[c])@.len()
        == trace_length(total_rows(all)) by {
        assert(padded[c]@.len() == trace_length(total_rows(all)));
    }
    inject_random_values(&mut trace_columns, draws);
    proof {
        let columns = combined_columns(all, draws@);
        law_trace_length(total_rows(all));
        lemma_joined_length(all, h0 as int);
        assert forall|row: int| 0 <= row < total_rows(all) implies is_inverse(
            joined_column(all, h0 as int)[row]@,
            (#[trigger] columns[h0 as int][row])@,
        ) by {
            assert(padded[h0 as int]@[row] == joined_column(all, h0 as int)[row]);
            assert(columns[h0 as int][row] == inverted[row]);
        }
    }
    trace_columns
}

/// Combines fragments into the trace of a program. The values of the random rows are drawn from a
/// generator that is seeded with the program hash.
pub fn combine_fragments(fragments: Vec<CoreTraceFragment>, program_hash: Word) -> (r: MainTrace)
    requires
        can_combine(fragments_view(fragments@)),
    ensures
        main_trace_columns(r) == column_values(
            combined_columns(
                fragments_view(fragments@),
                drawn_elements(program_hash, (NUM_RAND_ROWS * CORE_TRACE_WIDTH) as nat),
            ),
        ),
        main_trace_last_row(r) == last_program_row(total_rows(fragments_view(fragments@))),
        forall|row: int|
            0 <= row < total_rows(fragments_view(fragments@)) ==> is_inverse(
                joined_column(fragments_view(fragments@), STACK_TRACE_OFFSET + H0_COL_IDX)[row]@,
                #[trigger] main_trace_columns(r)[STACK_TRACE_OFFSET + H0_COL_IDX][row] as int,
            ),
{
    let ghost all = fragments_view(fragments@);
    proof {
        lemma_next_power_is_least(total_rows(all) + NUM_RAND_ROWS as nat);
        assert forall|k: int| 0 <= k < fragments@.len() implies (#[trigger] fragments@[k]).wf() by {
            assert(all[k] == fragments@[k]@);
        }
    }
    let draws = draw_elements(program_hash, NUM_RAND_ROWS * CORE_TRACE_WIDTH);
    let trace_columns = combine_columns(&fragments, &draws);
    let total_program_rows: usize = count_rows(&fragments);
    let last_row: u32 = (total_program_rows as u32).saturating_sub(1);
    proof {
        law_trace_length(total_rows(all));
        let columns = combined_columns(all, draws@);
        assert(column_values(columns).len() == TRACE_WIDTH);
        assert forall|c: int| 0 <= c < TRACE_WIDTH implies (#[trigger] column_values(
            columns,
        )[c]).len() == trace_length(total_rows(all)) by {
            assert(padded_columns(all)[c].len() == trace_length(total_rows(all)));
            assert(with_inverted_helper(padded_columns(all))[c].len() == trace_length(
                total_rows(all),
            ));
            assert(columns[c].len() == trace_length(total_rows(all)));
        }
        assert(can_form_trace(column_values(columns)));
        let h0 = STACK_TRACE_OFFSET + H0_COL_IDX;
        assert(columns[h0].len() == trace_length(total_rows(all)));
        assert forall|row: int| 0 <= row < total_rows(all) implies is_inverse(
            joined_column(all, h0)[row]@,
            #[trigger] column_values(columns)[h0][row] as int,
        ) by {
            assert(is_inverse(joined_column(all, h0)[row]@, columns[h0][row]@));
        }
    }
    new_main_trace(&trace_columns, last_row)
}

/// The length of a trace is a power of two. It leaves room for the rows of the program and the
/// random rows, it is not below the minimum length, and no smaller power of two is like this.
pub proof fn law_trace_length(program_rows: nat)
    ensures
        exists|k: nat| trace_length(program_rows) == #[trigger] pow2(k),
        trace_length(program_rows) >= program_rows + NUM_RAND_ROWS,
        trace_length(program_rows) >= MIN_TRACE_LEN,
        forall|k: nat| #[trigger]
            pow2(k) >= program_rows + NUM_RAND_ROWS && pow2(k) >= MIN_TRACE_LEN ==> pow2(k)
                >= trace_length(program_rows),
{
    lemma_next_power_is_least(program_rows + NUM_RAND_ROWS as nat);
    vstd::arithmetic::power2::lemma2_to64();
    assert(pow2(6) == 64);
}

// BUILDING THE TRACE
// ================================================================================================

/// What generating the fragments of a program gives: each fragment, and the stack and system
/// columns of the row after it.
pub type FragmentResult = (CoreTraceFragment, [Felt; 19], [Felt; 8]);

/// System columns of the first row of a program: the clock is at zero, the free memory pointer at
/// its initial value, and execution starts in the root context.
pub open spec fn initial_system_row() -> Seq<Felt> {
    seq![
        felt(0),
        felt(FMP_MIN as int),
        felt(0),
        felt(0),
        felt(0),
        felt(0),
        felt(0),
        felt(0),
    ]
}

/// The fragments with their first rows completed.
pub open spec fn completed_fragments(
    results: Seq<FragmentResult>,
    first_stack_top: Seq<Felt>,
) -> Seq<Seq<Seq<Felt>>> {
    Seq::new(
        results.len(),
        |k: int|
            completed_columns(
                results[k].0@,
                k,
                results.map_values(|result: FragmentResult| result.1),
                results.map_values(|result: FragmentResult| result.2),
                first_stack_top,
                initial_system_row(),
            ),
    )
}

/// Elements on top of the stack before the program starts, the last of which is the top.
pub fn initial_stack_top(trace_states: &Vec<CoreTraceState>) -> (r: Vec<Felt>)
    ensures
        r@ == (if trace_states@.len() > 0 {
            trace_states@[0].stack@.top
        } else {
            Seq::new(MIN_STACK_DEPTH as nat, |i: int| felt(0))
        }),
{
    let zero = Felt::zero();
    let elements: [Felt; 16] = if trace_states.len() > 0 {
        *trace_states[0].stack.stack_top()
    } else {
        [zero;16]
    };
    let mut top: Vec<Felt> = Vec::new();
    for i in 0..MIN_STACK_DEPTH
        invariant
            top@ == elements@.take(i as int),
    {
        top.push(elements[i]);
        assert(top@ =~= elements@.take(i + 1));
    }
    assert(elements@.take(16) =~= elements@);
    assert(trace_states@.len() == 0 ==> elements@ =~= Seq::new(16, |i: int| felt(0)));
    top
}

pub proof fn lemma_total_of_lengths(a: Seq<Seq<Seq<Felt>>>, b: Seq<Seq<Seq<Felt>>>)
    requires
        a.len() == b.len(),
        forall|k: int| 0 <= k < a.len() ==> (#[trigger] a[k])[0].len() == (#[trigger] b[k])[0].len(),
    ensures
        total_rows(a) == total_rows(b),
    decreases a.len(),
{
    if a.len() > 0 {
        lemma_total_of_lengths(a.drop_last(), b.drop_last());
        assert(a.last() == a[a.len() - 1] && b.last() == b[a.len() - 1]);
    }
}

/// Whether the fragments of a program can be combined.
pub fn can_build(fragment_results: &Vec<FragmentResult>) -> (r: bool)
    ensures
        r == can_combine(fragment_results@.map_values(|result: FragmentResult| result.0@)),
{
    let ghost raw = fragment_results@.map_values(|result: FragmentResult| result.0@);
    let mut total: usize = 0;
    for k in 0..fragment_results.len()
        invariant
            raw == fragment_results@.map_values(|result: FragmentResult| result.0@),
            forall|j: int| 0 <= j < k ==> (#[trigger] fragment_results@[j]).0.wf(),
            total == total_rows(raw.take(k as int)),
    {
        proof {
            lemma_fragment_in_total(raw, k as int);
            lemma_next_power_is_least(total_rows(raw) + NUM_RAND_ROWS as nat);
            assert(raw[k as int] == fragment_results@[k as int].0@);
        }
        if !fragment_results[k].0.is_valid() {
            return false;
        }
        let rows: usize = fragment_results[k].0.row_count();
        if rows > usize::MAX - total {
            return false;
        }
        total = total + rows;
    }
    proof {
        assert(raw.take(raw.len() as int) =~= raw);
        lemma_next_power_is_least(total_rows(raw) + NUM_RAND_ROWS as nat);
        assert forall|k: int| 0 <= k < raw.len() implies is_table(
            #[trigger] raw[k],
            CORE_TRACE_WIDTH as int,
            raw[k][0].len() as int,
        ) by {
            assert(fragment_results@[k].0.wf());
        }
    }
    total > 0 && total <= usize::MAX - NUM_RAND_ROWS && checked_next_power_of_two(
        total + NUM_RAND_ROWS,
    ).is_some()
}

/// Builds the main trace from the fragments of a program.
pub fn build_trace(
    first_stack_top: Vec<Felt>,
    fragment_results: Vec<FragmentResult>,
    program_hash: Word,
) -> (r: MainTrace)
    requires
        can_combine(fragment_results@.map_values(|result: FragmentResult| result.0@)),
    ensures
        main_trace_columns(r) == column_values(
            combined_columns(
                completed_fragments(fragment_results@, first_stack_top@),
                drawn_elements(program_hash, (NUM_RAND_ROWS * CORE_TRACE_WIDTH) as nat),
            ),
        ),
        main_trace_last_row(r) == last_program_row(
            total_rows(fragment_results@.map_values(|result: FragmentResult| result.0@)),
        ),
        ({
            let fragments = completed_fragments(fragment_results@, first_stack_top@);
            let h0 = STACK_TRACE_OFFSET + H0_COL_IDX;
            forall|row: int|
                0 <= row < total_rows(fragments) ==> is_inverse(
                    joined_column(fragments, h0)[row]@,
                    #[trigger] main_trace_columns(r)[h0][row] as int,
                )
        }),
{
    let ghost results = fragment_results@;
    let zero = Felt::zero();
    let first_system_state: [Felt; 8] = [
        zero,
        Felt::new(FMP_MIN),
        zero,
        zero,
        zero,
        zero,
        zero,
        zero,
    ];
    assert(first_system_state@ =~= initial_system_row());

    let mut fragments: Vec<CoreTraceFragment> = Vec::new();
    let mut stack_rows: Vec<[Felt; 19]> = Vec::new();
    let mut system_rows: Vec<[Felt; 8]> = Vec::new();
    for result in iter: fragment_results
        invariant
            iter.seq() == results,
            fragments@ == results.take(iter.index()).map_values(|result: FragmentResult| result.0),
            stack_rows@ == results.take(iter.index()).map_values(|result: FragmentResult| result.1),
            system_rows@ == results.take(iter.index()).map_values(
                |result: FragmentResult| result.2,
            ),
    {
        let (fragment, stack_row, system_row) = result;
        fragments.push(fragment);
        stack_rows.push(stack_row);
        system_rows.push(system_row);
    }
    let ghost generated = fragments@;
    proof {
        let raw = results.map_values(|result: FragmentResult| result.0@);
        assert(results.take(results.len() as int) =~= results);
        assert forall|k: int| 0 <= k < fragments@.len() implies (#[trigger] fragments@[k]).wf() by {
            assert(raw[k] == fragments@[k]@);
        }
    }
    fixup_stack_and_system_rows(
        &mut fragments,
        &stack_rows,
        &system_rows,
        &first_stack_top,
        &first_system_state,
    );
    proof {
        let raw = results.map_values(|result: FragmentResult| result.0@);
        let completed = fragments_view(fragments@);
        assert forall|k: int| 0 <= k < raw.len() implies (#[trigger] raw[k])[0].len()
            == (#[trigger] completed[k])[0].len() && is_table(
            completed[k],
            CORE_TRACE_WIDTH as int,
            completed[k][0].len() as int,
        ) by {
            assert(fragments@[k].wf());
            assert(raw[k] == generated[k]@);
        }
        lemma_total_of_lengths(raw, completed);
        assert(completed =~= completed_fragments(results, first_stack_top@));
    }
    combine_fragments(fragments, program_hash)
}

} // verus!
