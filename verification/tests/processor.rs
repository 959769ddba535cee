use std::ops::ControlFlow;
use std::sync::Arc;

use core_trace::block_stack::{BlockStack, BlockType, ContextId};
use core_trace::checkpoints::{
    AdviceReplay, CoreTraceState, ExternalNodeReplay, HasherReplay, MemoryReplay,
    NodeExecutionPhase, StackState, SystemState,
};
use core_trace::continuation_stack::ContinuationStack;
use core_trace::dispatch::{OpCall, has_helpers, is_flow_control};
use core_trace::felt::{Felt, MODULUS, Word};
use core_trace::generator::CoreTraceFragmentGenerator;
use core_trace::layout::NUM_ROWS_PER_CORE_FRAGMENT;
use core_trace::loop_rows::TraceRowType;
use core_trace::mast::{BasicBlockNode, LoopNode, MastForest, MastNode, MastNodeId};
use core_trace::operation::{FlowOperation, Operation};
use core_trace::overflow::OverflowTable;
use core_trace::span::SpanContext;

fn felt(value: u64) -> Felt {
    Felt::new(value)
}

fn word(value: u64) -> Word {
    [felt(value), felt(value + 1), felt(value + 2), felt(value + 3)]
}

fn generator_at(clk: u32) -> CoreTraceFragmentGenerator {
    // the element at position `i` from the top is `i`
    let mut stack_top = [Felt::zero(); 16];
    for (i, element) in stack_top.iter_mut().enumerate() {
        *element = felt(15 - i as u64);
    }
    CoreTraceFragmentGenerator::new(CoreTraceState {
        system: SystemState {
            clk,
            ctx: ContextId(3),
            fmp: felt(1 << 30),
            in_syscall: true,
            fn_hash: word(40),
        },
        stack: StackState::new(stack_top, OverflowTable::default()),
        block_stack: BlockStack::default(),
        traversal: ContinuationStack { stack: Vec::new() },
        memory: MemoryReplay::new(),
        advice: AdviceReplay::new(),
        hasher: HasherReplay::new(),
        external_node_replay: ExternalNodeReplay::new(),
        exec_phase: NodeExecutionPhase::Start(MastNodeId(0)),
        initial_mast_forest: Arc::new(MastForest { nodes: Vec::new() }),
    })
}

fn generator() -> CoreTraceFragmentGenerator {
    generator_at(0)
}

/// The stack from the top on.
fn stack(generator: &CoreTraceFragmentGenerator) -> Vec<u64> {
    (0..16).map(|i| generator.stack_get(i).as_int()).collect()
}

#[test]
fn system_state_is_accessible() {
    let mut generator = generator_at(7);
    assert_eq!(generator.clk(), 7);
    assert_eq!(generator.caller_hash(), word(40));
    assert!(generator.in_syscall());
    assert_eq!(generator.fmp(), felt(1 << 30));
    generator.set_fmp(felt(5));
    assert_eq!(generator.fmp(), felt(5));
}

#[test]
fn positions_count_from_the_top() {
    let mut generator = generator();
    assert_eq!(stack(&generator), (0..16).collect::<Vec<u64>>());
    assert_eq!(generator.stack_top()[15], felt(0));
    *generator.stack_get_mut(2) = felt(100);
    generator.stack_write(15, felt(200));
    assert_eq!(generator.stack_get(2), felt(100));
    assert_eq!(generator.stack_top()[0], felt(200));
    generator.stack_swap(0, 15);
    assert_eq!(generator.stack_get(0), felt(200));
    assert_eq!(generator.stack_get(15), felt(0));
}

#[test]
fn words_hold_the_deepest_element_first() {
    let mut generator = generator();
    assert_eq!(generator.stack_get_word(0), [felt(3), felt(2), felt(1), felt(0)]);
    assert_eq!(generator.stack_get_word(11), [felt(14), felt(13), felt(12), felt(11)]);
    generator.stack_write_word(4, &word(50));
    assert_eq!(generator.stack_get_word(4), word(50));
    assert_eq!(stack(&generator)[..9], [0, 1, 2, 3, 53, 52, 51, 50, 8]);
}

#[test]
fn words_are_swapped() {
    let mut generator = generator();
    generator.swapw_nth(2);
    assert_eq!(stack(&generator)[..12], [8, 9, 10, 11, 4, 5, 6, 7, 0, 1, 2, 3]);
    generator.swapw_nth(2);
    assert_eq!(stack(&generator), (0..16).collect::<Vec<u64>>());
    generator.swapw_nth(3);
    assert_eq!(stack(&generator)[12..], [0, 1, 2, 3]);
}

#[test]
fn rotations_move_one_element() {
    let mut generator = generator();
    generator.rotate_left(4);
    assert_eq!(stack(&generator)[..6], [3, 0, 1, 2, 4, 5]);
    generator.rotate_right(4);
    assert_eq!(stack(&generator), (0..16).collect::<Vec<u64>>());
    generator.rotate_right(3);
    assert_eq!(stack(&generator)[..4], [1, 2, 0, 3]);
}

#[test]
fn growing_and_shrinking_use_the_overflow() {
    let mut generator = generator();
    assert_eq!(generator.stack_depth(), 16);
    generator.increment_stack_size();
    assert_eq!(generator.stack_depth(), 17);
    assert_eq!(generator.stack_get(0), felt(MODULUS - 1));
    assert_eq!(stack(&generator)[1..], (0..15).collect::<Vec<u64>>()[..]);
    generator.decrement_stack_size();
    assert_eq!(stack(&generator), (0..16).collect::<Vec<u64>>());
    assert_eq!(generator.stack_depth(), 16);
    // a minimal stack is filled with zeros
    generator.decrement_stack_size();
    assert_eq!(generator.stack_depth(), 16);
    assert_eq!(generator.stack_get(0), felt(1));
    assert_eq!(generator.stack_get(15), Felt::zero());
}

#[test]
fn opcodes_are_written_bit_by_bit() {
    let mut generator = generator();
    // HALT is 0b1111100
    generator.append_opcode(FlowOperation::Halt.op_code(), 3);
    let bits: Vec<u64> = (0..7).map(|i| generator.fragment.columns[9 + i][3].as_int()).collect();
    assert_eq!(bits, vec![0, 0, 1, 1, 1, 1, 1]);
    assert_eq!(generator.fragment.columns[30][3], Felt::zero());
    assert_eq!(generator.fragment.columns[31][3], Felt::one());
    // LOOP is 0b1010101
    generator.append_opcode(FlowOperation::Loop.op_code(), 4);
    assert_eq!(generator.fragment.columns[30][4], Felt::one());
    assert_eq!(generator.fragment.columns[31][4], Felt::zero());
    assert_eq!(generator.fragment.columns[9][4], Felt::one());
    // other rows are left alone
    assert_eq!(generator.fragment.columns[14][5], Felt::zero());
}

#[test]
fn starting_a_group_consumes_it() {
    let mut generator = generator();
    generator.span_context =
        Some(SpanContext { group_ops_left: Felt::zero(), num_groups_left: felt(3) });
    generator.start_op_group(felt(55));
    assert_eq!(
        generator.span_context,
        Some(SpanContext { group_ops_left: felt(55), num_groups_left: felt(2) })
    );
}

#[test]
fn fragments_are_truncated_to_what_was_built() {
    let mut generator = generator_at(10);
    assert_eq!(generator.num_rows_built(), 0);
    for _ in 0..5 {
        assert_eq!(generator.increment_clk(), ControlFlow::Continue(()));
    }
    assert_eq!(generator.num_rows_built(), 5);
    assert!(!generator.done_generating());
    generator.halt();
    assert_eq!(generator.increment_clk(), ControlFlow::Continue(()));
    let (fragment, stack_row, system_row) = generator.generate_fragment();
    assert_eq!(fragment.row_count(), 6);
    assert!(fragment.columns.iter().all(|column| column.len() == 6));
    assert_eq!(stack_row, [Felt::zero(); 19]);
    assert_eq!(system_row, [Felt::zero(); 8]);
}

#[test]
fn full_fragments_break() {
    let mut generator = generator_at(2048);
    for _ in 1..NUM_ROWS_PER_CORE_FRAGMENT {
        assert_eq!(generator.increment_clk(), ControlFlow::Continue(()));
    }
    assert_eq!(generator.increment_clk(), ControlFlow::Break(()));
    assert!(generator.done_generating());
    // a row too many is cut off
    assert_eq!(generator.increment_clk(), ControlFlow::Break(()));
    generator.stack_rows = Some([felt(4); 19]);
    generator.system_rows = Some([felt(5); 8]);
    let (fragment, stack_row, system_row) = generator.generate_fragment();
    assert_eq!(fragment.row_count(), NUM_ROWS_PER_CORE_FRAGMENT);
    assert_eq!(stack_row, [felt(4); 19]);
    assert_eq!(system_row, [felt(5); 8]);
}

#[test]
fn stack_operations_are_performed_at_once() {
    let mut generator = generator();
    assert_eq!(generator.dispatch_operation(&Operation::Noop), None);
    assert_eq!(generator.dispatch_operation(&Operation::Emit(4)), None);
    assert_eq!(generator.dispatch_operation(&Operation::EvalCircuit), None);
    assert_eq!(stack(&generator), (0..16).collect::<Vec<u64>>());
    assert_eq!(generator.dispatch_operation(&Operation::MovUp8), None);
    assert_eq!(stack(&generator)[..3], [8, 0, 1]);
    assert_eq!(generator.dispatch_operation(&Operation::MovDn8), None);
    assert_eq!(stack(&generator), (0..16).collect::<Vec<u64>>());
    assert_eq!(generator.dispatch_operation(&Operation::SwapW3), None);
    assert_eq!(stack(&generator)[..4], [12, 13, 14, 15]);
    assert_eq!(generator.dispatch_operation(&Operation::Drop), None);
    assert_eq!(stack(&generator)[..4], [13, 14, 15, 4]);
}

#[test]
fn other_operations_are_handed_out() {
    let mut generator = generator();
    let calls = [
        (Operation::Dup0, OpCall::DupNth { n: 0 }),
        (Operation::Dup15, OpCall::DupNth { n: 15 }),
        (Operation::Push(felt(6)), OpCall::Push { value: felt(6) }),
        (Operation::U32sub, OpCall::U32Sub { op_idx: 0 }),
        (Operation::U32assert2(felt(8)), OpCall::U32Assert2 { err_code: felt(8) }),
        (Operation::Assert(felt(1)), OpCall::Assert),
        (Operation::Eqz, OpCall::Eqz),
        (Operation::SwapDW, OpCall::SwapDoubleWord),
        (Operation::FriE2F4, OpCall::FriExt2Fold4),
        (Operation::MpVerify(felt(2)), OpCall::MpVerify),
    ];
    for (op, call) in calls {
        assert_eq!(generator.dispatch_operation(&op), Some(call));
    }
    assert_eq!(stack(&generator), (0..16).collect::<Vec<u64>>());
}

#[test]
fn helpers_come_with_some_operations() {
    for op in [
        Operation::Eq,
        Operation::Eqz,
        Operation::HPerm,
        Operation::MpVerify(felt(0)),
        Operation::MrUpdate,
        Operation::FriE2F4,
        Operation::HornerBase,
        Operation::HornerExt,
    ] {
        assert!(has_helpers(&op));
    }
    assert!(!has_helpers(&Operation::Add));
    assert!(!has_helpers(&Operation::EvalCircuit));
}

#[test]
fn flow_control_is_told_apart() {
    assert!(is_flow_control(&Operation::Span));
    assert!(is_flow_control(&Operation::Halt));
    assert!(is_flow_control(&Operation::Dyncall));
    assert!(!is_flow_control(&Operation::Noop));
}

fn loop_program() -> (LoopNode, MastForest) {
    let body = BasicBlockNode { op_batches: Vec::new(), digest: word(70) };
    let forest = MastForest { nodes: vec![MastNode::Block(body)] };
    (LoopNode { body: MastNodeId(0), digest: word(80) }, forest)
}

#[test]
fn loops_start_with_the_digest_of_their_body() {
    let (node, forest) = loop_program();
    let row = generator().add_loop_start_trace_row(&node, &forest, felt(9));
    assert_eq!(row.row_type, TraceRowType::Start);
    assert_eq!(row.config.start_opcode, FlowOperation::Loop.op_code());
    assert_eq!(row.config.start_hasher_state, (word(70), [Felt::zero(); 4]));
    assert_eq!(row.config.end_node_digest, word(80));
    assert_eq!(row.config.addr, felt(9));
    assert_eq!(row.config.block_info, None);
}

#[test]
fn loops_repeat_with_the_hasher_state_of_the_previous_row() {
    let (node, forest) = loop_program();
    let mut generator = generator();
    for column in 0..8 {
        generator.fragment.set(16 + column, 1, felt(column as u64 + 1));
    }
    let _ = generator.increment_clk();
    let _ = generator.increment_clk();
    let row = generator.add_loop_repeat_trace_row(&node, &forest, felt(9));
    assert_eq!(row.row_type, TraceRowType::Start);
    assert_eq!(row.config.start_opcode, FlowOperation::Repeat.op_code());
    assert_eq!(row.config.start_hasher_state, (word(1), word(5)));
}

#[test]
fn loops_end_by_leaving_their_block() {
    let (node, forest) = loop_program();
    let mut generator = generator();
    generator.state.block_stack.push(felt(33), BlockType::Loop(true), None);
    let block = *generator.state.block_stack.peek();
    let row = generator.add_loop_end_trace_row(&node, &forest);
    assert_eq!(row.row_type, TraceRowType::End);
    assert_eq!(row.config.addr, felt(33));
    assert_eq!(row.config.block_info, Some(block));
    assert_eq!(row.config.end_node_digest, word(80));
    assert_eq!(generator.state.block_stack.blocks.len(), 0);
}
