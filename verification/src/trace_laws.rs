//! Laws of the main trace.
use vstd::prelude::*;

use crate::checkpoints::CoreTraceStateView;
use crate::execution_laws::law_generation_is_determined;
use crate::executor::Action;
use crate::felt::{Felt, felt};
use crate::first_rows::initial_stack_row;
use crate::fragment::is_table;
use crate::generator::{FragmentView, GeneratorView};
use crate::inversion::inverse_of;
use crate::layout::{
    CORE_TRACE_WIDTH, H0_COL_IDX, NUM_RAND_ROWS, STACK_TRACE_OFFSET, STACK_TRACE_WIDTH,
    SYS_TRACE_WIDTH, TRACE_WIDTH,
};
use crate::padding::padding_value;
use crate::trace::{
    FragmentResult, can_combine, combined_columns, completed_fragments, initial_system_row,
    joined_column, last_program_row, law_trace_length, lemma_joined_length, lemma_total_of_lengths,
    padded_columns, total_rows, trace_length, with_inverted_helper,
};

verus! {

/// What the trace holds where the core columns of a fragment hold the given value: a stack helper
/// column is inverted.
pub open spec fn traced(c: int, value: Felt) -> Felt {
    if c == STACK_TRACE_OFFSET + H0_COL_IDX {
        inverse_of(value)
    } else {
        value
    }
}

proof fn lemma_joined_rows(fragments: Seq<Seq<Seq<Felt>>>, k: int, c: int, row: int)
    requires
        forall|j: int|
            0 <= j < fragments.len() ==> is_table(
                #[trigger] fragments[j],
                CORE_TRACE_WIDTH as int,
                fragments[j][0].len() as int,
            ),
        0 <= k < fragments.len(),
        0 <= c < CORE_TRACE_WIDTH,
        0 <= row < fragments[k][0].len(),
    ensures
        joined_column(fragments, c).len() == total_rows(fragments),
        total_rows(fragments.take(k)) + row < total_rows(fragments),
        joined_column(fragments, c)[total_rows(fragments.take(k)) + row] == fragments[k][c][row],
    decreases fragments.len(),
{
    let shorter = fragments.drop_last();
    assert(fragments.last() == fragments[fragments.len() - 1]);
    lemma_joined_length(shorter, c);
    if k == fragments.len() - 1 {
        assert(fragments.take(k) =~= shorter);
    } else {
        lemma_joined_rows(shorter, k, c, row);
        assert(shorter.take(k) =~= fragments.take(k));
    }
}

pub proof fn lemma_combined_cell(
    fragments: Seq<Seq<Seq<Felt>>>,
    draws: Seq<Felt>,
    c: int,
    row: int,
)
    requires
        0 <= c < TRACE_WIDTH,
        0 <= row < trace_length(total_rows(fragments)),
        c < CORE_TRACE_WIDTH ==> row < trace_length(total_rows(fragments)) - NUM_RAND_ROWS,
    ensures
        combined_columns(fragments, draws)[c].len() == trace_length(total_rows(fragments)),
        combined_columns(fragments, draws)[c][row] == traced(
            c,
            padded_columns(fragments)[c][row],
        ),
{
    let padded = padded_columns(fragments);
    assert(padded[c].len() == trace_length(total_rows(fragments)));
    assert(with_inverted_helper(padded)[c].len() == padded[c].len());
    assert(with_inverted_helper(padded)[c][row] == traced(c, padded[c][row]));
}

/// The rows of each fragment stand in the trace, after the rows of the fragments before it.
pub proof fn law_program_rows_are_kept(
    fragments: Seq<Seq<Seq<Felt>>>,
    draws: Seq<Felt>,
    k: int,
    c: int,
    row: int,
)
    requires
        can_combine(fragments),
        0 <= k < fragments.len(),
        0 <= c < CORE_TRACE_WIDTH,
        0 <= row < fragments[k][0].len(),
    ensures
        combined_columns(fragments, draws)[c][total_rows(fragments.take(k)) + row] == traced(
            c,
            fragments[k][c][row],
        ),
{
    lemma_joined_rows(fragments, k, c, row);
    law_trace_length(total_rows(fragments));
    lemma_combined_cell(fragments, draws, c, total_rows(fragments.take(k)) + row);
}

/// After the program, the trace goes on with padding, up to the random rows.
pub proof fn law_padding_follows_the_program(
    fragments: Seq<Seq<Seq<Felt>>>,
    draws: Seq<Felt>,
    c: int,
    row: int,
)
    requires
        can_combine(fragments),
        0 <= c < CORE_TRACE_WIDTH,
        total_rows(fragments) <= row < trace_length(total_rows(fragments)) - NUM_RAND_ROWS,
    ensures
        combined_columns(fragments, draws)[c][row] == traced(
            c,
            padding_value(c, row, joined_column(fragments, c)[total_rows(fragments) - 1]),
        ),
{
    law_trace_length(total_rows(fragments));
    lemma_combined_cell(fragments, draws, c, row);
}

/// All columns after the core columns hold zeros only.
pub proof fn law_other_columns_are_zero(
    fragments: Seq<Seq<Seq<Felt>>>,
    draws: Seq<Felt>,
    c: int,
    row: int,
)
    requires
        can_combine(fragments),
        CORE_TRACE_WIDTH <= c < TRACE_WIDTH,
        0 <= row < trace_length(total_rows(fragments)),
    ensures
        combined_columns(fragments, draws)[c][row] == felt(0),
{
    law_trace_length(total_rows(fragments));
    lemma_combined_cell(fragments, draws, c, row);
}

/// The random rows, which are the last ones, hold the drawn values in the core columns.
pub proof fn law_random_rows_come_last(
    fragments: Seq<Seq<Seq<Felt>>>,
    draws: Seq<Felt>,
    c: int,
    i: int,
)
    requires
        0 <= c < CORE_TRACE_WIDTH,
        0 <= i < NUM_RAND_ROWS,
    ensures
        ({
            let column = combined_columns(fragments, draws)[c];
            &&& column.len() == trace_length(total_rows(fragments))
            &&& column[column.len() - NUM_RAND_ROWS + i] == draws[i * CORE_TRACE_WIDTH + c]
        }),
{
    law_trace_length(total_rows(fragments));
    let padded = padded_columns(fragments);
    assert(padded[c].len() == trace_length(total_rows(fragments)));
    assert(with_inverted_helper(padded)[c].len() == padded[c].len());
}

pub proof fn lemma_completed_can_combine(results: Seq<FragmentResult>, first_stack_top: Seq<Felt>)
    requires
        can_combine(results.map_values(|result: FragmentResult| result.0@)),
    ensures
        can_combine(completed_fragments(results, first_stack_top)),
        total_rows(completed_fragments(results, first_stack_top)) == total_rows(
            results.map_values(|result: FragmentResult| result.0@),
        ),
{
    let raw = results.map_values(|result: FragmentResult| result.0@);
    let completed = completed_fragments(results, first_stack_top);
    assert forall|k: int| 0 <= k < completed.len() implies raw[k][0].len()
        == completed[k][0].len() && is_table(
        #[trigger] completed[k],
        CORE_TRACE_WIDTH as int,
        completed[k][0].len() as int,
    ) by {
        assert(is_table(raw[k], CORE_TRACE_WIDTH as int, raw[k][0].len() as int));
    }
    lemma_total_of_lengths(raw, completed);
}

/// The trace is continuous: the first row of each fragment but the first one holds the system and
/// stack columns that the fragment before it has handed on.
pub proof fn law_fragments_continue_each_other(
    results: Seq<FragmentResult>,
    first_stack_top: Seq<Felt>,
    draws: Seq<Felt>,
    k: int,
    c: int,
)
    requires
        can_combine(results.map_values(|result: FragmentResult| result.0@)),
        0 < k < results.len(),
        results[k].0@[0].len() > 0,
    ensures
        ({
            let fragments = completed_fragments(results, first_stack_top);
            let columns = combined_columns(fragments, draws);
            let row = total_rows(fragments.take(k)) as int;
            &&& 0 <= c < SYS_TRACE_WIDTH ==> columns[c][row] == results[k - 1].2@[c]
            &&& 0 <= c < STACK_TRACE_WIDTH ==> columns[STACK_TRACE_OFFSET + c][row] == traced(
                STACK_TRACE_OFFSET + c,
                results[k - 1].1@[c],
            )
        }),
{
    let raw = results.map_values(|result: FragmentResult| result.0@);
    let fragments = completed_fragments(results, first_stack_top);
    lemma_completed_can_combine(results, first_stack_top);
    assert(is_table(raw[k], CORE_TRACE_WIDTH as int, raw[k][0].len() as int));
    if 0 <= c < SYS_TRACE_WIDTH {
        assert(raw[k][c].len() == raw[k][0].len());
        assert(fragments[k][c][0] == results[k - 1].2@[c]);
        law_program_rows_are_kept(fragments, draws, k, c, 0);
    }
    if 0 <= c < STACK_TRACE_WIDTH {
        assert(raw[k][STACK_TRACE_OFFSET + c].len() == raw[k][0].len());
        assert(fragments[k][STACK_TRACE_OFFSET + c][0] == results[k - 1].1@[c]);
        law_program_rows_are_kept(fragments, draws, k, STACK_TRACE_OFFSET + c, 0);
    }
}

/// The trace starts with the initial state of the machine.
pub proof fn law_traces_start_with_the_initial_state(
    results: Seq<FragmentResult>,
    first_stack_top: Seq<Felt>,
    draws: Seq<Felt>,
    c: int,
)
    requires
        can_combine(results.map_values(|result: FragmentResult| result.0@)),
        results.len() > 0,
        results[0].0@[0].len() > 0,
    ensures
        ({
            let columns = combined_columns(completed_fragments(results, first_stack_top), draws);
            &&& 0 <= c < SYS_TRACE_WIDTH ==> columns[c][0] == initial_system_row()[c]
            &&& 0 <= c < STACK_TRACE_WIDTH ==> columns[STACK_TRACE_OFFSET + c][0] == traced(
                STACK_TRACE_OFFSET + c,
                initial_stack_row(results[0].0@, first_stack_top)[c],
            )
        }),
{
    let raw = results.map_values(|result: FragmentResult| result.0@);
    let fragments = completed_fragments(results, first_stack_top);
    lemma_completed_can_combine(results, first_stack_top);
    assert(is_table(raw[0], CORE_TRACE_WIDTH as int, raw[0][0].len() as int));
    assert(total_rows(fragments.take(0)) == 0);
    if 0 <= c < SYS_TRACE_WIDTH {
        assert(raw[0][c].len() == raw[0][0].len());
        law_program_rows_are_kept(fragments, draws, 0, c, 0);
    }
    if 0 <= c < STACK_TRACE_WIDTH {
        assert(raw[0][STACK_TRACE_OFFSET + c].len() == raw[0][0].len());
        law_program_rows_are_kept(fragments, draws, 0, STACK_TRACE_OFFSET + c, 0);
    }
}

/// What generating a fragment gives, by its contents.
pub open spec fn result_view(result: FragmentResult) -> FragmentView {
    FragmentView { columns: result.0@, stack_row: result.1@, system_row: result.2@ }
}

/// Equal fragments in equal order give equal traces.
pub proof fn law_equal_fragments_give_equal_traces(
    a: Seq<FragmentResult>,
    b: Seq<FragmentResult>,
    first_stack_top: Seq<Felt>,
    draws: Seq<Felt>,
)
    requires
        a.len() == b.len(),
        forall|k: int| 0 <= k < a.len() ==> result_view(#[trigger] a[k]) == result_view(b[k]),
    ensures
        combined_columns(completed_fragments(a, first_stack_top), draws) == combined_columns(
            completed_fragments(b, first_stack_top),
            draws,
        ),
        last_program_row(total_rows(a.map_values(|result: FragmentResult| result.0@)))
            == last_program_row(total_rows(b.map_values(|result: FragmentResult| result.0@))),
{
    let of_a = completed_fragments(a, first_stack_top);
    let of_b = completed_fragments(b, first_stack_top);
    assert forall|k: int| 0 <= k < a.len() implies #[trigger] of_a[k] == of_b[k] by {
        assert(result_view(a[k]) == result_view(b[k]));
        if k > 0 {
            assert(result_view(a[k - 1]) == result_view(b[k - 1]));
        }
    }
    assert(of_a =~= of_b);
    assert forall|k: int| 0 <= k < a.len() implies (#[trigger] a[k]).0@ == b[k].0@ by {
        assert(result_view(a[k]) == result_view(b[k]));
    }
    assert(a.map_values(|result: FragmentResult| result.0@) =~= b.map_values(
        |result: FragmentResult| result.0@,
    ));
}

impl GeneratorView {
    /// A generator that has nothing left to execute, with the program halted in its fragment if there
    /// is room for that.
    pub open spec fn ended(
        self,
        perform: spec_fn(GeneratorView, Action) -> GeneratorView,
    ) -> GeneratorView {
        if self.flow() is Break {
            self
        } else {
            let (halted, row) = self.halted();
            perform(halted, row)
        }
    }
}

/// Whether a fragment is what a state leads to, after some number of steps at which nothing is left
/// to execute.
pub open spec fn is_generated_from(
    result: FragmentResult,
    state: CoreTraceStateView,
    perform: spec_fn(GeneratorView, Action) -> GeneratorView,
    steps: nat,
) -> bool {
    let done = GeneratorView::initial(state).started_from(state.exec_phase).run(perform, steps);
    done.tasks.len() == 0 && result_view(result) == done.ended(perform).fragment_view()
}

/// The trace depends on the trace states and their order, not on when their fragments are
/// generated: equal states lead to equal traces, provided that doing actions has equal outcomes.
pub proof fn law_equal_states_give_equal_traces(
    states: Seq<CoreTraceStateView>,
    perform: spec_fn(GeneratorView, Action) -> GeneratorView,
    a: Seq<FragmentResult>,
    steps_of_a: Seq<nat>,
    b: Seq<FragmentResult>,
    steps_of_b: Seq<nat>,
    first_stack_top: Seq<Felt>,
    draws: Seq<Felt>,
)
    requires
        a.len() == states.len() && steps_of_a.len() == states.len(),
        b.len() == states.len() && steps_of_b.len() == states.len(),
        forall|k: int|
            0 <= k < states.len() ==> is_generated_from(
                #[trigger] a[k],
                states[k],
                perform,
                steps_of_a[k],
            ),
        forall|k: int|
            0 <= k < states.len() ==> is_generated_from(
                #[trigger] b[k],
                states[k],
                perform,
                steps_of_b[k],
            ),
    ensures
        combined_columns(completed_fragments(a, first_stack_top), draws) == combined_columns(
            completed_fragments(b, first_stack_top),
            draws,
        ),
        last_program_row(total_rows(a.map_values(|result: FragmentResult| result.0@)))
            == last_program_row(total_rows(b.map_values(|result: FragmentResult| result.0@))),
{
    assert forall|k: int| 0 <= k < a.len() implies result_view(#[trigger] a[k]) == result_view(
        b[k],
    ) by {
        assert(is_generated_from(a[k], states[k], perform, steps_of_a[k]));
        assert(is_generated_from(b[k], states[k], perform, steps_of_b[k]));
        law_generation_is_determined(
            GeneratorView::initial(states[k]).started_from(states[k].exec_phase),
            perform,
            steps_of_a[k],
            steps_of_b[k],
        );
    }
    law_equal_fragments_give_equal_traces(a, b, first_stack_top, draws);
}

} // verus!
