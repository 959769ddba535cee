//! The end of a fragment: it is full, or the program halts in it.
use vstd::prelude::*;

use crate::executor::Action;
use crate::felt::{Felt, felt};
use crate::fragment::is_table;
use crate::generator::{CoreTraceFragmentGenerator, GeneratorView};
use crate::layout::{
    CORE_TRACE_WIDTH, DECODER_TRACE_OFFSET, NUM_ROWS_PER_CORE_FRAGMENT, OP_BITS_OFFSET,
};
use crate::operation::{FlowOperation, NUM_OP_BITS};
use crate::processor::{holds_opcode, opcode_bit, with_opcode};

verus! {

impl GeneratorView {
    /// Whether the fragment has all its columns and rows, those that are not built yet included.
    pub open spec fn has_table(self) -> bool {
        is_table(self.columns, CORE_TRACE_WIDTH as int, NUM_ROWS_PER_CORE_FRAGMENT as int)
    }

    /// Whether the fragment is finished: it is full or, if it is short, nothing is left to execute
    /// and its last row holds HALT.
    pub open spec fn finished(self) -> bool {
        &&& self.has_table()
        &&& self.rows_built() >= 0
        &&& self.rows_built() < NUM_ROWS_PER_CORE_FRAGMENT ==> {
            &&& self.tasks.len() == 0
            &&& self.rows_built() > 0
            &&& holds_opcode(self.columns, FlowOperation::Halt.code(), self.rows_built() - 1)
        }
    }

    /// Whether the program can halt: nothing is left to execute, and there is room for a row.
    pub open spec fn can_halt(self) -> bool {
        &&& self.has_table()
        &&& 0 <= self.rows_built() < NUM_ROWS_PER_CORE_FRAGMENT
        &&& self.tasks.len() == 0
    }

    /// Halting the program: the next row holds HALT, and is to be completed.
    pub open spec fn halted(self) -> (GeneratorView, Action) {
        let opcode = FlowOperation::Halt.code();
        (
            GeneratorView {
                columns: with_opcode(self.columns, opcode, self.rows_built()),
                ..self
            },
            Action::HaltRow { opcode },
        )
    }
}

impl CoreTraceFragmentGenerator {
    fn table_is_whole(&self) -> (r: bool)
        ensures
            r == self@.has_table(),
    {
        if !self.fragment.is_valid() {
            assert(!self@.has_table());
            return false;
        }
        self.fragment.row_count() == NUM_ROWS_PER_CORE_FRAGMENT
    }

    /// Whether a row that has been built holds HALT.
    fn row_holds_halt(&self, row: usize) -> (r: bool)
        requires
            self@.has_table(),
            row < NUM_ROWS_PER_CORE_FRAGMENT,
        ensures
            r == holds_opcode(self@.columns, FlowOperation::Halt.code(), row as int),
    {
        let first: usize = DECODER_TRACE_OFFSET + OP_BITS_OFFSET;
        let opcode: u8 = FlowOperation::Halt.op_code();
        for i in 0..NUM_OP_BITS
            invariant
                self@.has_table(),
                row < NUM_ROWS_PER_CORE_FRAGMENT,
                first == DECODER_TRACE_OFFSET + OP_BITS_OFFSET,
                opcode == FlowOperation::Halt.code(),
                forall|k: int|
                    0 <= k < i ==> (#[trigger] self@.columns[DECODER_TRACE_OFFSET + OP_BITS_OFFSET
                        + k])[row as int] == felt(
                        opcode_bit(opcode, k),
                    ),
        {
            assert(self@.columns[first + i] == self.fragment.columns@[first + i]@);
            let bit: u8 = (opcode >> i) & 1;
            if self.fragment.columns[first + i][row] != Felt::new(bit as u64) {
                return false;
            }
        }
        true
    }

    /// Whether the fragment is finished: it is full, or the program has halted in it.
    pub fn is_finished(&self) -> (r: bool)
        ensures
            r == self@.finished(),
    {
        if self.state.system.clk < self.fragment_start_clk || !self.table_is_whole() {
            return false;
        }
        if self.done_generating() {
            return true;
        }
        let built: usize = self.num_rows_built();
        self.tasks.len() == 0 && built > 0 && self.row_holds_halt(built - 1)
    }

    /// Whether the program can halt: nothing is left to execute, and there is room for a row.
    pub fn is_halting(&self) -> (r: bool)
        ensures
            r == self@.can_halt(),
    {
        self.state.system.clk >= self.fragment_start_clk && self.table_is_whole()
            && !self.done_generating() && self.tasks.len() == 0
    }

    /// Halts the program: writes HALT to the next row, and returns the row, which is to be completed
    /// and handed back like any other.
    pub fn halt(&mut self) -> (r: Action)
        requires
            old(self)@.can_halt(),
        ensures
            (final(self)@, r) == old(self)@.halted(),
    {
        let row: usize = self.num_rows_built();
        let opcode: u8 = FlowOperation::Halt.op_code();
        assert(self.fragment.wf());
        self.append_opcode(opcode, row);
        Action::HaltRow { opcode }
    }
}

/// A fragment in which the program halts is finished once its HALT row has been completed without
/// changing the opcode, whether or not that row fills the fragment.
pub proof fn law_halting_finishes_a_fragment(generator: GeneratorView, completed: GeneratorView)
    requires
        generator.can_halt(),
        completed.has_table(),
        completed.tasks.len() == 0,
        completed.rows_built() == generator.rows_built() + 1,
        forall|c: int|
            0 <= c < CORE_TRACE_WIDTH && DECODER_TRACE_OFFSET + OP_BITS_OFFSET <= c
                < DECODER_TRACE_OFFSET + OP_BITS_OFFSET + NUM_OP_BITS ==> (
            #[trigger] completed.columns[c])[generator.rows_built()]
                == generator.halted().0.columns[c][generator.rows_built()],
    ensures
        generator.halted().0.has_table(),
        holds_opcode(
            completed.columns,
            FlowOperation::Halt.code(),
            completed.rows_built() - 1,
        ),
        completed.finished(),
        completed.after_row(completed.flow()).finished(),
{
    let row = generator.rows_built();
    let halted = generator.halted().0.columns;
    assert forall|c: int| 0 <= c < CORE_TRACE_WIDTH implies (#[trigger] halted[c]).len()
        == NUM_ROWS_PER_CORE_FRAGMENT by {
        assert(generator.columns[c].len() == NUM_ROWS_PER_CORE_FRAGMENT);
    }
    assert forall|i: int| 0 <= i < NUM_OP_BITS implies (
    #[trigger] completed.columns[DECODER_TRACE_OFFSET + OP_BITS_OFFSET + i])[row]
        == felt(opcode_bit(FlowOperation::Halt.code(), i)) by {
        let c = DECODER_TRACE_OFFSET + OP_BITS_OFFSET + i;
        assert(generator.columns[c].len() == NUM_ROWS_PER_CORE_FRAGMENT);
        assert(completed.columns[c][row] == halted[c][row]);
    }
}

} // verus!
