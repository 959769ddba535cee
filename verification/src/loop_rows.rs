//! Trace rows of loops.
use vstd::prelude::*;

use crate::block_stack::BlockInfo;
use crate::checkpoints::CoreTraceStateView;
use crate::felt::{Felt, Word, felt};
use crate::generator::{CoreTraceFragmentGenerator, GeneratorView};
use crate::layout::{CORE_TRACE_WIDTH, DECODER_TRACE_OFFSET, HASHER_STATE_OFFSET};
use crate::mast::{LoopNode, MastForest};
use crate::operation::FlowOperation;

verus! {

/// Whether a trace row starts or ends a code block.
#[derive(Debug, Clone, Copy, PartialEq, Eq, Structural)]
pub enum TraceRowType {
    Start,
    End,
}

/// What a trace row that starts or ends a code block is built from.
#[derive(Debug, Clone, Copy, PartialEq, Eq)]
pub struct OperationTraceConfig {
    /// Opcode of the operation that starts the block.
    pub start_opcode: u8,
    /// Hasher state of the row that starts the block.
    pub start_hasher_state: (Word, Word),
    /// Digest of the node, for the row that ends the block.
    pub end_node_digest: Word,
    /// Block address of the row.
    pub addr: Felt,
    /// The block that ends.
    pub block_info: Option<BlockInfo>,
}

/// A trace row that starts or ends a code block.
#[derive(Debug, Clone, Copy, PartialEq, Eq)]
pub struct ControlFlowRow {
    pub config: OperationTraceConfig,
    pub row_type: TraceRowType,
}

/// Four decoder hasher columns of a row, from the given one on.
pub open spec fn hasher_word(columns: Seq<Seq<Felt>>, first: int, row: int) -> Word {
    let from = DECODER_TRACE_OFFSET + HASHER_STATE_OFFSET + first;
    [columns[from][row], columns[from + 1][row], columns[from + 2][row], columns[from + 3][row]]
}

/// The word of zeros.
pub open spec fn zero_word() -> Word {
    [felt(0), felt(0), felt(0), felt(0)]
}

impl GeneratorView {
    /// What a row of a loop is built from. The hasher state of a row that repeats the loop is that
    /// of the row before; otherwise it consists of the digest of the loop's body and of zeros,
    /// since a loop has one child.
    pub open spec fn loop_config(
        self,
        loop_node: &LoopNode,
        program: &MastForest,
        is_repeat: bool,
        addr: Felt,
        block_info: Option<BlockInfo>,
    ) -> OperationTraceConfig {
        let last = self.rows_built() - 1;
        OperationTraceConfig {
            start_opcode: if is_repeat {
                FlowOperation::Repeat.code()
            } else {
                FlowOperation::Loop.code()
            },
            start_hasher_state: if is_repeat {
                (hasher_word(self.columns, 0, last), hasher_word(self.columns, 4, last))
            } else {
                (program.node(loop_node.body).digest_of(), zero_word())
            },
            end_node_digest: loop_node.digest,
            addr,
            block_info,
        }
    }

    /// Whether the fragment holds the row before the next one.
    pub open spec fn has_previous_row(self) -> bool {
        &&& self.rows_built() >= 1
        &&& self.columns.len() == CORE_TRACE_WIDTH
        &&& forall|c: int|
            0 <= c < CORE_TRACE_WIDTH ==> self.rows_built() <= (#[trigger] self.columns[c]).len()
    }

    pub open spec fn with_block_stack(self, block_stack: Seq<BlockInfo>) -> GeneratorView {
        GeneratorView { state: CoreTraceStateView { block_stack, ..self.state }, ..self }
    }
}

impl CoreTraceFragmentGenerator {
    /// The trace row for a LOOP or REPEAT operation, or for the end of a loop.
    pub fn add_loop_trace_row(
        &self,
        loop_node: &LoopNode,
        program: &MastForest,
        trace_type: TraceRowType,
        is_repeat: bool,
        addr: Felt,
        block_info: Option<BlockInfo>,
    ) -> (r: ControlFlowRow)
        requires
            is_repeat ==> self@.has_previous_row(),
            !is_repeat ==> program.has(loop_node.body),
        ensures
            r.config == self@.loop_config(loop_node, program, is_repeat, addr, block_info),
            r.row_type == trace_type,
    {
        let config = if is_repeat {
            let last: usize = self.num_rows_built() - 1;
            let from: usize = DECODER_TRACE_OFFSET + HASHER_STATE_OFFSET;
            let columns = &self.fragment.columns;
            assert forall|c: int| 0 <= c < CORE_TRACE_WIDTH implies columns@[c]@
                == #[trigger] self@.columns[c] by {}
            let first_hasher_word: Word = [
                columns[from][last],
                columns[from + 1][last],
                columns[from + 2][last],
                columns[from + 3][last],
            ];
            let second_hasher_word: Word = [
                columns[from + 4][last],
                columns[from + 5][last],
                columns[from + 6][last],
                columns[from + 7][last],
            ];
            OperationTraceConfig {
                start_opcode: FlowOperation::Repeat.op_code(),
                start_hasher_state: (first_hasher_word, second_hasher_word),
                end_node_digest: loop_node.digest,
                addr,
                block_info,
            }
        } else {
            let body = program.get_node_by_id(loop_node.body).unwrap();
            let zero = Felt::zero();
            let zero_hash: Word = [zero, zero, zero, zero];
            OperationTraceConfig {
                start_opcode: FlowOperation::Loop.op_code(),
                start_hasher_state: (body.digest(), zero_hash),
                end_node_digest: loop_node.digest,
                addr,
                block_info,
            }
        };
        ControlFlowRow { config, row_type: trace_type }
    }

    /// The trace row for the start of a loop.
    pub fn add_loop_start_trace_row(
        &self,
        loop_node: &LoopNode,
        program: &MastForest,
        parent_addr: Felt,
    ) -> (r: ControlFlowRow)
        requires
            program.has(loop_node.body),
        ensures
            r == self@.loop_start_row(loop_node, program, parent_addr),
    {
        self.add_loop_trace_row(loop_node, program, TraceRowType::Start, false, parent_addr, None)
    }

    /// The trace row for repeating a loop.
    pub fn add_loop_repeat_trace_row(
        &self,
        loop_node: &LoopNode,
        program: &MastForest,
        parent_addr: Felt,
    ) -> (r: ControlFlowRow)
        requires
            self@.has_previous_row(),
        ensures
            r == self@.loop_repeat_row(loop_node, program, parent_addr),
    {
        self.add_loop_trace_row(loop_node, program, TraceRowType::Start, true, parent_addr, None)
    }

    /// The trace row for the end of a loop. The loop's block leaves the block stack.
    pub fn add_loop_end_trace_row(&mut self, loop_node: &LoopNode, program: &MastForest) -> (r:
        ControlFlowRow)
        requires
            program.has(loop_node.body),
            old(self)@.state.block_stack.len() > 0,
        ensures
            r == old(self)@.loop_end_row(loop_node, program),
            final(self)@ == old(self)@.with_block_stack(old(self)@.state.block_stack.drop_last()),
    {
        let block_info = self.state.block_stack.pop();
        let block_addr = block_info.addr;
        self.add_loop_trace_row(
            loop_node,
            program,
            TraceRowType::End,
            false,
            block_addr,
            Some(block_info),
        )
    }
}

impl GeneratorView {
    /// The row that starts a loop.
    pub open spec fn loop_start_row(
        self,
        loop_node: &LoopNode,
        program: &MastForest,
        parent_addr: Felt,
    ) -> ControlFlowRow {
        ControlFlowRow {
            config: self.loop_config(loop_node, program, false, parent_addr, None),
            row_type: TraceRowType::Start,
        }
    }

    /// The row that repeats a loop.
    pub open spec fn loop_repeat_row(
        self,
        loop_node: &LoopNode,
        program: &MastForest,
        parent_addr: Felt,
    ) -> ControlFlowRow {
        ControlFlowRow {
            config: self.loop_config(loop_node, program, true, parent_addr, None),
            row_type: TraceRowType::Start,
        }
    }

    /// The row that ends a loop, whose block is the innermost one.
    pub open spec fn loop_end_row(
        self,
        loop_node: &LoopNode,
        program: &MastForest,
    ) -> ControlFlowRow {
        let block_info = self.state.block_stack.last();
        ControlFlowRow {
            config: self.loop_config(
                loop_node,
                program,
                false,
                block_info.addr,
                Some(block_info),
            ),
            row_type: TraceRowType::End,
        }
    }
}

} // verus!
