//! Laws of the rows of a fragment.
use core::ops::ControlFlow;

use vstd::prelude::*;

use crate::checkpoints::CoreTraceStateView;
use crate::executor::Action;
use crate::felt::{Felt, felt};
use crate::fragment::is_table;
use crate::generator::GeneratorView;
use crate::processor::{opcode_bit, with_opcode};
use crate::trace_cell_laws::lemma_halt_bits;

verus! {

proof fn lemma_bits_are_digits(opcode: u8)
    ensures
        opcode_bit(opcode, 0) == opcode % 2,
        opcode_bit(opcode, 1) == opcode / 2 % 2,
        opcode_bit(opcode, 2) == opcode / 4 % 2,
        opcode_bit(opcode, 3) == opcode / 8 % 2,
        opcode_bit(opcode, 4) == opcode / 16 % 2,
        opcode_bit(opcode, 5) == opcode / 32 % 2,
        opcode_bit(opcode, 6) == opcode / 64 % 2,
{
    assert((opcode >> 0usize) & 1 == opcode % 2 && (opcode >> 1usize) & 1 == opcode / 2 % 2 && (opcode
        >> 2usize) & 1 == opcode / 4 % 2 && (opcode >> 3usize) & 1 == opcode / 8 % 2 && (opcode
        >> 4usize) & 1 == opcode / 16 % 2 && (opcode >> 5usize) & 1 == opcode / 32 % 2 && (opcode
        >> 6usize) & 1 == opcode / 64 % 2) by (bit_vector);
}

/// Writing an opcode to a row writes its seven bits, the least significant first, to columns 9 to
/// 15. Column 30 tells whether the three most significant bits are 101, and column 31 whether the two
/// most significant bits are 11. No other cell changes.
pub proof fn law_opcodes_are_written_to_their_columns(
    columns: Seq<Seq<Felt>>,
    rows: int,
    opcode: u8,
    row: int,
    other_column: int,
    other_row: int,
)
    requires
        is_table(columns, 51, rows),
        0 <= row < rows,
        opcode < 128,
        0 <= other_column < 51,
        0 <= other_row < rows,
    ensures
        ({
            let written = with_opcode(columns, opcode, row);
            &&& is_table(written, 51, rows)
            &&& written[9][row] == felt(opcode as int % 2)
            &&& written[10][row] == felt(opcode as int / 2 % 2)
            &&& written[11][row] == felt(opcode as int / 4 % 2)
            &&& written[12][row] == felt(opcode as int / 8 % 2)
            &&& written[13][row] == felt(opcode as int / 16 % 2)
            &&& written[14][row] == felt(opcode as int / 32 % 2)
            &&& written[15][row] == felt(opcode as int / 64)
            &&& written[30][row] == felt(
                if opcode as int / 16 == 5 {
                    1
                } else {
                    0
                },
            )
            &&& written[31][row] == felt(
                if opcode as int / 32 == 3 {
                    1
                } else {
                    0
                },
            )
            &&& other_row != row || !(9 <= other_column < 16 || other_column == 30 || other_column
                == 31) ==> written[other_column][other_row] == columns[other_column][other_row]
        }),
{
    let written = with_opcode(columns, opcode, row);
    lemma_bits_are_digits(opcode);
    let b4 = opcode_bit(opcode, 4);
    let b5 = opcode_bit(opcode, 5);
    let b6 = opcode_bit(opcode, 6);
    assert(b6 * (1 - b5) * b4 == if b6 == 1 && b5 == 0 && b4 == 1 {
        1int
    } else {
        0
    }) by (nonlinear_arith)
        requires
            b4 == 0 || b4 == 1,
            b5 == 0 || b5 == 1,
            b6 == 0 || b6 == 1,
    ;
    assert(b6 * b5 == if b6 == 1 && b5 == 1 {
        1int
    } else {
        0
    }) by (nonlinear_arith)
        requires
            b5 == 0 || b5 == 1,
            b6 == 0 || b6 == 1,
    ;
    assert(columns[9].len() == rows && columns[10].len() == rows && columns[11].len() == rows
        && columns[12].len() == rows && columns[13].len() == rows && columns[14].len() == rows
        && columns[15].len() == rows && columns[30].len() == rows && columns[31].len() == rows);
    assert(columns[other_column].len() == rows);
    assert forall|c: int| 0 <= c < 51 implies (#[trigger] written[c]).len() == rows by {
        assert(columns[c].len() == rows);
    }
}

/// Halting writes the opcode of HALT, 0b1111100, to the row that is built next, and changes nothing
/// else.
pub proof fn law_halting_writes_one_row(generator: GeneratorView, c: int, row: int)
    requires
        generator.can_halt(),
        0 <= c < 51,
        0 <= row < 1024,
    ensures
        ({
            let (halted, action) = generator.halted();
            let next = generator.state.system.clk - generator.fragment_start_clk;
            &&& action == (Action::HaltRow { opcode: 0x7c })
            &&& halted == (GeneratorView { columns: halted.columns, ..generator })
            &&& row == next && (c == 9 || c == 10 || c == 30) ==> halted.columns[c][row] == felt(0)
            &&& row == next && (11 <= c < 16 || c == 31) ==> halted.columns[c][row] == felt(1)
            &&& row != next || !(9 <= c < 16 || c == 30 || c == 31) ==> halted.columns[c][row]
                == generator.columns[c][row]
        }),
{
    assert(generator.columns[c].len() == 1024);
    lemma_halt_bits();
    law_opcodes_are_written_to_their_columns(
        generator.columns,
        1024,
        0x7c,
        generator.rows_built(),
        c,
        row,
    );
}

/// A program can halt exactly if its fragment has its 51 columns of 1024 rows, not all of which are
/// built, and nothing is left to execute.
pub proof fn law_programs_that_can_halt(generator: GeneratorView)
    ensures
        generator.can_halt() <==> {
            &&& generator.columns.len() == 51
            &&& forall|c: int| 0 <= c < 51 ==> (#[trigger] generator.columns[c]).len() == 1024
            &&& 0 <= generator.state.system.clk - generator.fragment_start_clk < 1024
            &&& generator.tasks.len() == 0
        },
{
}

/// A fragment is finished exactly if it has its 51 columns of 1024 rows and either all of these are
/// built, or nothing is left to execute and the last row that is built holds HALT.
pub proof fn law_finished_fragments(generator: GeneratorView)
    ensures
        generator.finished() <==> {
            let built = generator.state.system.clk - generator.fragment_start_clk;
            &&& generator.columns.len() == 51
            &&& forall|c: int| 0 <= c < 51 ==> (#[trigger] generator.columns[c]).len() == 1024
            &&& built >= 1024 || {
                &&& built > 0
                &&& generator.tasks.len() == 0
                &&& generator.columns[9][built - 1] == felt(0)
                &&& generator.columns[10][built - 1] == felt(0)
                &&& generator.columns[11][built - 1] == felt(1)
                &&& generator.columns[12][built - 1] == felt(1)
                &&& generator.columns[13][built - 1] == felt(1)
                &&& generator.columns[14][built - 1] == felt(1)
                &&& generator.columns[15][built - 1] == felt(1)
            }
        },
{
    lemma_halt_bits();
    let built = generator.state.system.clk - generator.fragment_start_clk;
    let at = |i: int| generator.columns[8 + 1 + i][built - 1];
    assert(at(0) == generator.columns[9][built - 1]);
    assert(at(1) == generator.columns[10][built - 1]);
    assert(at(2) == generator.columns[11][built - 1]);
    assert(at(3) == generator.columns[12][built - 1]);
    assert(at(4) == generator.columns[13][built - 1]);
    assert(at(5) == generator.columns[14][built - 1]);
    assert(at(6) == generator.columns[15][built - 1]);
}

/// Moving on to the next row advances the clock, that of the overflow table too, and changes nothing
/// else.
pub proof fn law_cycles_advance_the_clocks(generator: GeneratorView)
    requires
        generator.state.system.clk < u32::MAX,
        generator.state.stack.overflow.clk < u32::MAX,
    ensures
        ({
            let next = generator.next_cycle();
            let system = next.state.system;
            let stack = next.state.stack;
            &&& system.clk == generator.state.system.clk + 1
            &&& system.ctx == generator.state.system.ctx
            &&& system.fmp == generator.state.system.fmp
            &&& system.in_syscall == generator.state.system.in_syscall
            &&& system.fn_hash == generator.state.system.fn_hash
            &&& stack.overflow.clk == generator.state.stack.overflow.clk + 1
            &&& stack.overflow.current == generator.state.stack.overflow.current
            &&& stack.overflow.suspended == generator.state.stack.overflow.suspended
            &&& stack.top == generator.state.stack.top
            &&& next == (GeneratorView {
                state: CoreTraceStateView { system, stack, ..generator.state },
                ..generator
            })
        }),
{
}

/// Generation breaks exactly when 1024 rows have been built. Handing back a row then drops all that
/// is left to do, and changes nothing before.
pub proof fn law_fragments_have_1024_rows(generator: GeneratorView)
    ensures
        generator.flow() is Break <==> generator.state.system.clk - generator.fragment_start_clk
            >= 1024,
        generator.after_row(ControlFlow::Continue(())) == generator,
        generator.after_row(ControlFlow::Break(())) == (GeneratorView {
            tasks: seq![],
            ..generator
        }),
{
}

/// A generated fragment holds the rows that were built, up to 1024 of them, and no others.
pub proof fn law_fragments_hold_the_rows_that_were_built(
    generator: GeneratorView,
    c: int,
    row: int,
)
    requires
        is_table(generator.columns, 51, 1024),
        generator.state.system.clk >= generator.fragment_start_clk,
        0 <= c < 51,
    ensures
        ({
            let built = generator.state.system.clk - generator.fragment_start_clk;
            let columns = generator.fragment_view().columns;
            &&& columns.len() == 51
            &&& built <= 1024 ==> columns[c].len() == built
            &&& built >= 1024 ==> columns[c].len() == 1024
            &&& 0 <= row < columns[c].len() ==> columns[c][row] == generator.columns[c][row]
        }),
{
    assert(generator.columns[c].len() == 1024);
}

/// A generated fragment hands on the stack and system columns that were written for the row after
/// it, or zeros.
pub proof fn law_fragments_hand_on_the_next_row(generator: GeneratorView, i: int)
    ensures
        ({
            let view = generator.fragment_view();
            &&& generator.stack_rows matches Some(row) ==> view.stack_row == row@
            &&& generator.system_rows matches Some(row) ==> view.system_row == row@
            &&& generator.stack_rows is None ==> view.stack_row.len() == 19
            &&& generator.stack_rows is None && 0 <= i < 19 ==> view.stack_row[i] == felt(0)
            &&& generator.system_rows is None ==> view.system_row.len() == 8
            &&& generator.system_rows is None && 0 <= i < 8 ==> view.system_row[i] == felt(0)
        }),
{
}

/// A new generator has built no row: it starts at the clock cycle of its state, its 51 columns of
/// 1024 rows hold zeros, it is not within a basic block, and nothing has been handed out.
pub proof fn law_new_generators_have_built_nothing(state: CoreTraceStateView, c: int, row: int)
    requires
        0 <= c < 51,
        0 <= row < 1024,
    ensures
        ({
            let generator = GeneratorView::initial(state);
            &&& generator.state == state
            &&& generator.fragment_start_clk == state.system.clk
            &&& generator.columns.len() == 51
            &&& generator.columns[c].len() == 1024
            &&& generator.columns[c][row] == felt(0)
            &&& generator.span_context is None
            &&& generator.stack_rows is None
            &&& generator.system_rows is None
            &&& generator.user_op_helpers is None
            &&& generator.forest == state.initial_mast_forest
            &&& generator.tasks.len() == 0
        }),
{
}

} // verus!
