//! Laws of the main trace, cell by cell. Columns are given by their numbers: the clock is column 0,
//! the free memory pointer column 1, the opcode bits are columns 9 to 15, the hasher state is in
//! columns 16 to 23, and the stack is in columns 32 to 50, the last of which is inverted.
use vstd::prelude::*;

use crate::checkpoints::CoreTraceState;
use crate::felt::{Felt, Word, felt, lemma_felt_view};
use crate::first_rows::completed_columns;
use crate::fragment::is_table;
use crate::inversion::inverse_of;
use crate::main_trace::column_values;
use crate::power::{lemma_next_power_is_least, next_power};
use crate::processor::opcode_bit;
use crate::random_coin::{drawn_elements, rpo_draws, word_values};
use crate::trace::{
    FragmentResult, can_combine, combined_columns, completed_fragments, initial_stack_top,
    joined_column, last_program_row, law_trace_length, total_rows, trace_length,
};
use crate::trace_laws::{
    law_program_rows_are_kept, law_traces_start_with_the_initial_state, lemma_combined_cell,
    lemma_completed_can_combine,
};

verus! {

/// The clock goes on counting after the program: each padding row, up to the random row, holds its
/// own number, so consecutive ones differ by one.
pub proof fn law_padding_counts_clock_cycles(
    fragments: Seq<Seq<Seq<Felt>>>,
    draws: Seq<Felt>,
    row: int,
)
    requires
        can_combine(fragments),
        total_rows(fragments) <= row < trace_length(total_rows(fragments)) - 1,
        row < 0x1_0000_0000,
    ensures
        ({
            let clk = combined_columns(fragments, draws)[0];
            &&& clk[row] == felt(row)
            &&& clk[row]@ == row
            &&& row + 1 < trace_length(total_rows(fragments)) - 1 && row + 1 < 0x1_0000_0000
                ==> clk[row + 1]@ == clk[row]@ + 1
        }),
{
    law_trace_length(total_rows(fragments));
    lemma_combined_cell(fragments, draws, 0, row);
    lemma_felt_view(row);
    if row + 1 < trace_length(total_rows(fragments)) - 1 && row + 1 < 0x1_0000_0000 {
        lemma_combined_cell(fragments, draws, 0, row + 1);
        lemma_felt_view(row + 1);
    }
}

/// After the program, the free memory pointer, the first half of the hasher state and the stack stay
/// as they are in the last row of the program.
pub proof fn law_padding_keeps_the_last_state(
    fragments: Seq<Seq<Seq<Felt>>>,
    draws: Seq<Felt>,
    c: int,
    row: int,
)
    requires
        can_combine(fragments),
        c == 1 || 16 <= c < 20 || 32 <= c < 51,
        total_rows(fragments) <= row < trace_length(total_rows(fragments)) - 1,
    ensures
        combined_columns(fragments, draws)[c][row] == combined_columns(
            fragments,
            draws,
        )[c][total_rows(fragments) - 1],
{
    law_trace_length(total_rows(fragments));
    lemma_combined_cell(fragments, draws, c, row);
    lemma_combined_cell(fragments, draws, c, total_rows(fragments) - 1);
}

/// After the program, the opcode bits are those of HALT, and so are their two products. The context,
/// the system call flag, the function hash, the block address, the second half of the hasher state
/// and all that describes operation groups are zero.
pub proof fn law_padding_rows_halt_in_the_root_context(
    fragments: Seq<Seq<Seq<Felt>>>,
    draws: Seq<Felt>,
    c: int,
    row: int,
)
    requires
        can_combine(fragments),
        total_rows(fragments) <= row < trace_length(total_rows(fragments)) - 1,
    ensures
        2 <= c < 11 || 20 <= c < 31 ==> combined_columns(fragments, draws)[c][row] == felt(0),
        11 <= c < 16 || c == 31 ==> combined_columns(fragments, draws)[c][row] == felt(1),
{
    law_trace_length(total_rows(fragments));
    if 0 <= c < 51 {
        lemma_combined_cell(fragments, draws, c, row);
    }
    lemma_halt_bits();
}

pub proof fn lemma_halt_bits()
    ensures
        opcode_bit(0x7c, 0) == 0,
        opcode_bit(0x7c, 1) == 0,
        opcode_bit(0x7c, 2) == 1,
        opcode_bit(0x7c, 3) == 1,
        opcode_bit(0x7c, 4) == 1,
        opcode_bit(0x7c, 5) == 1,
        opcode_bit(0x7c, 6) == 1,
{
    assert((0x7cu8 >> 0usize) & 1 == 0 && (0x7cu8 >> 1usize) & 1 == 0 && (0x7cu8 >> 2usize) & 1 == 1
        && (0x7cu8 >> 3usize) & 1 == 1 && (0x7cu8 >> 4usize) & 1 == 1 && (0x7cu8 >> 5usize) & 1 == 1
        && (0x7cu8 >> 6usize) & 1 == 1) by (bit_vector);
}

/// Fragments add up: their rows are counted and joined in order.
pub proof fn law_fragments_add_up(
    fragments: Seq<Seq<Seq<Felt>>>,
    fragment: Seq<Seq<Felt>>,
    c: int,
)
    ensures
        total_rows(Seq::empty()) == 0,
        total_rows(fragments.push(fragment)) == total_rows(fragments) + fragment[0].len(),
        joined_column(Seq::empty(), c) == Seq::<Felt>::empty(),
        joined_column(fragments.push(fragment), c) == joined_column(fragments, c) + fragment[c],
{
    assert(fragments.push(fragment).drop_last() =~= fragments);
}

/// The last row of the program is the one before the first padding row.
pub proof fn law_last_program_row(rows: nat)
    requires
        0 < rows < 0x1_0000_0000,
    ensures
        last_program_row(rows) + 1 == rows,
{
}

/// The trace has 73 columns, all as long as the trace, and each row of each fragment stands in it,
/// after the rows of the fragments before it: unchanged, but for the inverted column.
pub proof fn law_rows_of_fragments_are_cells(
    fragments: Seq<Seq<Seq<Felt>>>,
    draws: Seq<Felt>,
    k: int,
    c: int,
    row: int,
)
    requires
        can_combine(fragments),
        0 <= k < fragments.len(),
        0 <= row < fragments[k][0].len(),
    ensures
        ({
            let columns = combined_columns(fragments, draws);
            let at = total_rows(fragments.take(k)) + row;
            &&& columns.len() == 73
            &&& 0 <= c < 50 ==> columns[c][at] == fragments[k][c][row]
            &&& columns[50][at] == inverse_of(fragments[k][50][row])
        }),
{
    if 0 <= c < 50 {
        law_program_rows_are_kept(fragments, draws, k, c, row);
    }
    law_program_rows_are_kept(fragments, draws, k, 50, row);
}

/// The last row of the trace, and no other, holds what was drawn, column by column.
pub proof fn law_the_last_row_is_drawn(
    fragments: Seq<Seq<Seq<Felt>>>,
    draws: Seq<Felt>,
    other_draws: Seq<Felt>,
    c: int,
    row: int,
)
    requires
        can_combine(fragments),
        0 <= c < 51,
        0 <= row < trace_length(total_rows(fragments)) - 1,
    ensures
        combined_columns(fragments, draws)[c].len() == trace_length(total_rows(fragments)),
        combined_columns(fragments, draws)[c].last() == draws[c],
        combined_columns(fragments, draws)[c][row] == combined_columns(
            fragments,
            other_draws,
        )[c][row],
{
    crate::trace_laws::law_random_rows_come_last(fragments, draws, c, 0);
    lemma_combined_cell(fragments, draws, c, row);
    lemma_combined_cell(fragments, other_draws, c, row);
}

/// The first row of the trace holds the initial state: clock cycle 0, the free memory pointer at
/// 2^30, the root context with no function hash, the elements of the stack from the top down, the
/// depth 16, and an empty overflow table. Stack columns without an element keep what the fragment
/// holds.
pub proof fn law_the_first_row_is_the_initial_state(
    results: Seq<FragmentResult>,
    first_stack_top: Seq<Felt>,
    draws: Seq<Felt>,
    i: int,
)
    requires
        can_combine(results.map_values(|result: FragmentResult| result.0@)),
        results.len() > 0,
        results[0].0@[0].len() > 0,
    ensures
        ({
            let columns = combined_columns(completed_fragments(results, first_stack_top), draws);
            &&& columns[0][0] == felt(0)
            &&& columns[1][0] == felt(0x4000_0000)
            &&& 2 <= i < 8 ==> columns[i][0] == felt(0)
            &&& 0 <= i < 16 && i < first_stack_top.len() ==> columns[32 + i][0]
                == first_stack_top[first_stack_top.len() - 1 - i]
            &&& first_stack_top.len() <= i < 16 ==> columns[32 + i][0] == results[0].0@[32 + i][0]
            &&& columns[48][0] == felt(16)
            &&& columns[49][0] == felt(0)
            &&& columns[50][0] == inverse_of(felt(0))
        }),
{
    law_traces_start_with_the_initial_state(results, first_stack_top, draws, 0);
    law_traces_start_with_the_initial_state(results, first_stack_top, draws, 1);
    law_traces_start_with_the_initial_state(results, first_stack_top, draws, i);
    law_traces_start_with_the_initial_state(results, first_stack_top, draws, 16);
    law_traces_start_with_the_initial_state(results, first_stack_top, draws, 17);
    law_traces_start_with_the_initial_state(results, first_stack_top, draws, 18);
}

/// A trace starts with the stack of the first state, whatever the other states are, or with zeros if
/// there is none.
pub proof fn law_traces_start_with_the_stack_of_the_first_state(
    states: Vec<CoreTraceState>,
    top: Vec<Felt>,
    i: int,
)
    requires
        call_ensures(initial_stack_top, (&states,), top),
    ensures
        states@.len() > 0 ==> top@ == states@[0].stack@.top,
        states@.len() == 0 ==> top@.len() == 16,
        states@.len() == 0 && 0 <= i < 16 ==> top@[i] == felt(0),
{
}

/// The first row of a fragment other than the first one is what was handed on to it, if anything was;
/// its decoder columns and all other rows stay.
pub proof fn law_first_rows_are_those_handed_on(
    columns: Seq<Seq<Felt>>,
    k: int,
    stack_rows: Seq<[Felt; 19]>,
    system_rows: Seq<[Felt; 8]>,
    first_stack_top: Seq<Felt>,
    first_system_state: Seq<Felt>,
    rows: int,
    c: int,
    row: int,
)
    requires
        is_table(columns, 51, rows),
        0 < k,
        0 <= c < 51,
        0 <= row < rows,
    ensures
        ({
            let handed_on = k <= stack_rows.len() && k <= system_rows.len();
            let completed = completed_columns(
                columns,
                k,
                stack_rows,
                system_rows,
                first_stack_top,
                first_system_state,
            );
            &&& completed[c].len() == rows
            &&& !handed_on || row > 0 || 8 <= c < 32 ==> completed[c][row] == columns[c][row]
            &&& handed_on && row == 0 && c < 8 ==> completed[c][row] == system_rows[k - 1]@[c]
            &&& handed_on && row == 0 && c >= 32 ==> completed[c][row] == stack_rows[k - 1]@[c - 32]
        }),
{
    assert(columns[c].len() == rows && columns[0].len() == rows);
}

/// Completing the first rows of fragments changes no other row, and no decoder column.
pub proof fn law_completion_changes_first_rows_only(
    results: Seq<FragmentResult>,
    first_stack_top: Seq<Felt>,
    k: int,
    c: int,
    row: int,
)
    requires
        can_combine(results.map_values(|result: FragmentResult| result.0@)),
        0 <= k < results.len(),
        0 <= c < 51,
        0 <= row < results[k].0@[0].len(),
    ensures
        ({
            let fragments = completed_fragments(results, first_stack_top);
            &&& fragments.len() == results.len()
            &&& fragments[k][c].len() == results[k].0@[0].len()
            &&& row > 0 || 8 <= c < 32 ==> fragments[k][c][row] == results[k].0@[c][row]
        }),
{
    let raw = results.map_values(|result: FragmentResult| result.0@);
    assert(is_table(raw[k], 51, raw[k][0].len() as int));
    assert(raw[k][c].len() == raw[k][0].len());
    lemma_completed_can_combine(results, first_stack_top);
}

/// Exactly fragments with 51 equally long columns can be combined, provided that they have a row and
/// are not too long.
pub proof fn law_fragments_that_can_be_combined(fragments: Seq<Seq<Seq<Felt>>>)
    ensures
        total_rows(fragments) < 0x4000_0000 ==> next_power(total_rows(fragments) + 1) <= usize::MAX,
        can_combine(fragments) <==> {
            &&& total_rows(fragments) > 0
            &&& next_power(total_rows(fragments) + 1) <= usize::MAX
            &&& forall|k: int|
                0 <= k < fragments.len() ==> (#[trigger] fragments[k]).len() == 51 && forall|c: int|
                    0 <= c < 51 ==> (#[trigger] fragments[k][c]).len() == fragments[k][0].len()
        },
{
    lemma_next_power_is_least(total_rows(fragments) + 1);
    if can_combine(fragments) {
        assert forall|k: int| 0 <= k < fragments.len() implies (#[trigger] fragments[k]).len() == 51
            && forall|c: int|
            0 <= c < 51 ==> (#[trigger] fragments[k][c]).len() == fragments[k][0].len() by {
            assert(is_table(fragments[k], 51, fragments[k][0].len() as int));
        }
    }
}

/// A main trace holds each cell by its canonical representative.
pub proof fn law_cells_are_held_by_their_representatives(
    columns: Seq<Seq<Felt>>,
    c: int,
    row: int,
)
    requires
        0 <= c < columns.len(),
        0 <= row < columns[c].len(),
        0 <= columns[c][row]@ <= u64::MAX,
    ensures
        column_values(columns).len() == columns.len(),
        column_values(columns)[c].len() == columns[c].len(),
        column_values(columns)[c][row] == columns[c][row]@,
{
}

/// Elements are drawn one after the other from a generator that is seeded with the four elements of
/// a word: how many are drawn does not change those that are drawn first.
pub proof fn law_draws_follow_each_other(seed: Word, n: nat, k: int)
    requires
        0 <= k < n,
    ensures
        drawn_elements(seed, n).len() == n,
        drawn_elements(seed, n)[k] == drawn_elements(seed, (k + 1) as nat).last(),
        drawn_elements(seed, n)[k] == felt(
            rpo_draws(
                seq![seed@[0]@ as u64, seed@[1]@ as u64, seed@[2]@ as u64, seed@[3]@ as u64],
            )[k] as int,
        ),
{
    assert(word_values(seed) =~= seq![
        seed@[0]@ as u64,
        seed@[1]@ as u64,
        seed@[2]@ as u64,
        seed@[3]@ as u64,
    ]);
}

} // verus!
