//! Rows that fill up a trace after the program has ended.
use vstd::prelude::*;

use crate::felt::{Felt, felt};
use crate::fragment::{columns_view, is_table};
use crate::layout::{
    CLK_COL_IDX, CORE_TRACE_WIDTH, DECODER_TRACE_OFFSET, FMP_COL_IDX, HASHER_STATE_OFFSET,
    NUM_RAND_ROWS, OP_BITS_EXTRA_COLS_OFFSET, OP_BITS_OFFSET, STACK_TRACE_OFFSET,
    STACK_TRACE_WIDTH, TRACE_WIDTH,
};
use crate::operation::{FlowOperation, NUM_OP_BITS};
use crate::processor::{opcode_bit, with_opcode};

verus! {

/// What a column holds in a row after the end of the program, given its value in the last row of
/// the program.
///
/// The clock goes on counting. The free memory pointer, the first half of the hasher state, which is
/// the program hash, and the stack keep their values. The operation is HALT. Everything else is
/// zero: the program has ended in the root context.
pub open spec fn padding_value(column: int, row: int, last_value: Felt) -> Felt {
    let op_bits = DECODER_TRACE_OFFSET + OP_BITS_OFFSET;
    let hasher_state = DECODER_TRACE_OFFSET + HASHER_STATE_OFFSET;
    let op_bit_products = DECODER_TRACE_OFFSET + OP_BITS_EXTRA_COLS_OFFSET;
    if column == CLK_COL_IDX {
        felt((row as usize as u32) as int)
    } else if column == FMP_COL_IDX {
        last_value
    } else if op_bits <= column < op_bits + NUM_OP_BITS {
        felt(opcode_bit(FlowOperation::Halt.code(), column - op_bits))
    } else if hasher_state <= column < hasher_state + 4 {
        last_value
    } else if column == op_bit_products + 1 {
        // Both of the most significant bits of HALT are set.
        felt(1)
    } else if STACK_TRACE_OFFSET <= column < STACK_TRACE_OFFSET + STACK_TRACE_WIDTH {
        last_value
    } else {
        felt(0)
    }
}

/// A column whose rows, from the given one on, are padding.
pub open spec fn padded_column(column: Seq<Felt>, idx: int, program_rows: int) -> Seq<Felt> {
    Seq::new(
        column.len(),
        |row: int|
            if row < program_rows {
                column[row]
            } else {
                padding_value(idx, row, column[program_rows - 1])
            },
    )
}

fn padding(column: usize, row: usize, last_value: Felt) -> (r: Felt)
    ensures
        r == padding_value(column as int, row as int, last_value),
{
    let op_bits: usize = DECODER_TRACE_OFFSET + OP_BITS_OFFSET;
    let hasher_state: usize = DECODER_TRACE_OFFSET + HASHER_STATE_OFFSET;
    let op_bit_products: usize = DECODER_TRACE_OFFSET + OP_BITS_EXTRA_COLS_OFFSET;
    if column == CLK_COL_IDX {
        Felt::new(row as u32 as u64)
    } else if column == FMP_COL_IDX {
        last_value
    } else if op_bits <= column && column < op_bits + NUM_OP_BITS {
        let halt_opcode: u8 = FlowOperation::Halt.op_code();
        let bit: u8 = (halt_opcode >> (column - op_bits)) & 1;
        Felt::new(bit as u64)
    } else if hasher_state <= column && column < hasher_state + 4 {
        last_value
    } else if column == op_bit_products + 1 {
        Felt::one()
    } else if STACK_TRACE_OFFSET <= column && column < STACK_TRACE_OFFSET + STACK_TRACE_WIDTH {
        last_value
    } else {
        Felt::zero()
    }
}

/// Fills the rows of the trace after the last row of the program.
pub fn pad_trace_columns(
    trace_columns: &mut Vec<Vec<Felt>>,
    total_program_rows: usize,
    trace_len: usize,
)
    requires
        is_table(columns_view(old(trace_columns)@), TRACE_WIDTH as int, trace_len as int),
        total_program_rows > 0,
        total_program_rows + NUM_RAND_ROWS <= trace_len,
    ensures
        columns_view(final(trace_columns)@) == Seq::new(
            TRACE_WIDTH as nat,
            |c: int|
                padded_column(old(trace_columns)@[c]@, c, total_program_rows as int),
        ),
{
    let ghost before = columns_view(trace_columns@);
    for c in 0..TRACE_WIDTH
        invariant
            0 < total_program_rows <= trace_len,
            is_table(before, TRACE_WIDTH as int, trace_len as int),
            trace_columns@.len() == TRACE_WIDTH,
            forall|k: int|
                0 <= k < c ==> (#[trigger] trace_columns@[k])@ == padded_column(
                    before[k],
                    k,
                    total_program_rows as int,
                ),
            forall|k: int|
                c <= k < TRACE_WIDTH ==> (#[trigger] trace_columns@[k])@ == before[k],
    {
        assert(trace_columns@[c as int]@ == before[c as int]);
        let last_value = trace_columns[c][total_program_rows - 1];
        for row in total_program_rows..trace_len
            invariant
                0 < total_program_rows <= trace_len,
                is_table(before, TRACE_WIDTH as int, trace_len as int),
                c < TRACE_WIDTH,
                trace_columns@.len() == TRACE_WIDTH,
                last_value == before[c as int][total_program_rows - 1],
                trace_columns@[c as int]@.len() == trace_len,
                forall|r: int|
                    0 <= r < trace_len ==> #[trigger] trace_columns@[c as int]@[r] == (if r < row {
                        padded_column(before[c as int], c as int, total_program_rows as int)[r]
                    } else {
                        before[c as int][r]
                    }),
                forall|k: int|
                    0 <= k < c ==> (#[trigger] trace_columns@[k])@ == padded_column(
                        before[k],
                        k,
                        total_program_rows as int,
                    ),
                forall|k: int|
                    c < k < TRACE_WIDTH ==> (#[trigger] trace_columns@[k])@ == before[k],
        {
            trace_columns[c][row] = padding(c, row, last_value);
        }
        assert(trace_columns@[c as int]@ =~= padded_column(
            before[c as int],
            c as int,
            total_program_rows as int,
        ));
    }
    assert(columns_view(trace_columns@) =~= Seq::new(
        TRACE_WIDTH as nat,
        |c: int| padded_column(old(trace_columns)@[c]@, c, total_program_rows as int),
    ));
}

/// A padding row decodes to HALT: its operation columns are those that writing the opcode of HALT
/// gives.
pub proof fn law_padding_halts(
    columns: Seq<Seq<Felt>>,
    rows: int,
    row: int,
    column: int,
    last_value: Felt,
)
    requires
        is_table(columns, CORE_TRACE_WIDTH as int, rows),
        0 <= row < rows,
        0 <= column < CORE_TRACE_WIDTH,
        ({
            let op_bits = DECODER_TRACE_OFFSET + OP_BITS_OFFSET;
            let op_bit_products = DECODER_TRACE_OFFSET + OP_BITS_EXTRA_COLS_OFFSET;
            op_bits <= column < op_bits + NUM_OP_BITS || op_bit_products <= column < op_bit_products
                + 2
        }),
    ensures
        padding_value(column, row, last_value) == with_opcode(
            columns,
            FlowOperation::Halt.code(),
            row,
        )[column][row],
{
    assert((0b0111_1100u8 >> 6usize) & 1 == 1) by (bit_vector);
    assert((0b0111_1100u8 >> 5usize) & 1 == 1) by (bit_vector);
    let halt = FlowOperation::Halt.code();
    assert(opcode_bit(halt, 6) == 1 && opcode_bit(halt, 5) == 1);
    assert(opcode_bit(halt, 6) * (1 - opcode_bit(halt, 5)) * opcode_bit(halt, 4) == 0)
        by (nonlinear_arith)
        requires
            opcode_bit(halt, 5) == 1,
    ;
    assert(columns[column].len() == rows);
}

} // verus!
