use std::sync::Arc;

use core_trace::block_stack::{BlockStack, BlockType, ContextId};
use core_trace::checkpoints::{
    AdviceReplay, ExternalNodeReplay, HasherReplay, MemoryReplay, NodeExecutionPhase, StackState,
    SystemState,
};
use core_trace::continuation_stack::{Continuation, ContinuationStack};
use core_trace::felt::{Felt, Word};
use core_trace::mast::{BasicBlockNode, MastForest, MastNodeId};
use core_trace::op_batch::OpBatch;
use core_trace::operation::Operation;
use core_trace::overflow::OverflowTable;
use core_trace::trace::initial_stack_top;
use core_trace::trace_state_builder::{CoreTraceStateBuilder, HasherChipletShim, MerklePath};

fn felt(value: u64) -> Felt {
    Felt::new(value)
}

fn word(value: u64) -> Word {
    [felt(value), felt(value + 1), felt(value + 2), felt(value + 3)]
}

/// The numbers 0 to 15; 15 is on top of the stack.
fn numbers() -> [Felt; 16] {
    let mut top = [Felt::zero(); 16];
    for (i, element) in top.iter_mut().enumerate() {
        *element = felt(i as u64);
    }
    top
}

fn forest() -> Arc<MastForest> {
    Arc::new(MastForest { nodes: Vec::new() })
}

#[test]
fn overflow_table_is_last_in_first_out() {
    let mut table = OverflowTable::default();
    assert_eq!(table.pop(), None);
    assert_eq!(table.last_update_clk_in_current_ctx(), Felt::zero());
    table.advance_clock();
    table.push(felt(10));
    table.advance_clock();
    table.push(felt(20));
    assert_eq!(table.num_elements_in_current_ctx(), 2);
    assert_eq!(table.last_update_clk_in_current_ctx(), felt(2));
    assert_eq!(table.pop(), Some(felt(20)));
    assert_eq!(table.last_update_clk_in_current_ctx(), felt(1));
    assert_eq!(table.pop(), Some(felt(10)));
    assert_eq!(table.pop(), None);
}

#[test]
fn stack_helpers_follow_the_overflow_table() {
    let mut stack = StackState::new(numbers(), OverflowTable::default());
    assert_eq!(stack.stack_depth(), felt(16));
    assert_eq!(stack.overflow_helper(), Felt::zero());
    assert_eq!(stack.overflow_addr(), Felt::zero());
    stack.advance_clock();
    stack.push_overflow(felt(99));
    assert_eq!(stack.stack_depth(), felt(17));
    assert_eq!(stack.overflow_helper(), felt(1));
    assert_eq!(stack.overflow_addr(), felt(1));
    assert_eq!(stack.num_overflow_elements_in_current_ctx(), 1);
    assert_eq!(stack.pop_overflow(), Some(felt(99)));
    assert_eq!(stack.pop_overflow(), None);
    assert_eq!(*stack.stack_top(), numbers());
}

#[test]
fn stack_top_can_be_modified() {
    let mut stack = StackState::new(numbers(), OverflowTable::default());
    stack.stack_top_mut()[3] = felt(77);
    assert_eq!(stack.stack_top()[3], felt(77));
    assert_eq!(stack.stack_top()[4], felt(4));
}

#[test]
fn starting_a_context_hides_the_overflow() {
    let mut stack = StackState::new(numbers(), OverflowTable::default());
    stack.advance_clock();
    stack.advance_clock();
    stack.push_overflow(felt(5));
    assert_eq!(stack.start_context(), (17, felt(2)));
    assert_eq!(stack.stack_depth(), felt(16));
    assert_eq!(stack.overflow_addr(), Felt::zero());
    assert_eq!(stack.pop_overflow(), None);
    assert_eq!(*stack.stack_top(), numbers());
}

#[test]
fn shifting_left_fills_the_deepest_position_from_the_overflow() {
    let mut stack = StackState::new(numbers(), OverflowTable::default());
    stack.push_overflow(felt(500));
    stack.push_overflow(felt(600));
    assert_eq!(stack.shift_left_and_start_context(), (18, Felt::zero()));
    // 15, which was on top, is gone
    assert_eq!(stack.stack_top()[15], felt(14));
    assert_eq!(stack.stack_top()[1], felt(0));
    assert_eq!(stack.stack_top()[0], felt(600));
    assert_eq!(stack.stack_depth(), felt(16));
}

#[test]
fn shifting_left_a_minimal_stack_shifts_in_zero() {
    let one_to_sixteen: Vec<Felt> = (1..17).map(felt).collect();
    let mut stack =
        StackState::new(one_to_sixteen.try_into().unwrap(), OverflowTable::default());
    assert_eq!(stack.shift_left_and_start_context(), (16, Felt::zero()));
    assert_eq!(stack.stack_top().to_vec(), (0..16).map(felt).collect::<Vec<Felt>>());
}

#[test]
fn resolutions_are_replayed_in_order() {
    let first = forest();
    let second = forest();
    let mut replay = ExternalNodeReplay::new();
    replay.record_resolution(MastNodeId(3), first.clone());
    replay.record_resolution(MastNodeId(4), second.clone());
    let (id, resolved) = replay.replay_resolution();
    assert!(id == MastNodeId(3) && Arc::ptr_eq(&resolved, &first));
    let (id, resolved) = replay.replay_resolution();
    assert!(id == MastNodeId(4) && Arc::ptr_eq(&resolved, &second));
}

#[test]
fn memory_reads_are_replayed_in_order() {
    let mut replay = MemoryReplay::new();
    replay.record_element(felt(1), felt(100));
    replay.record_word(word(7), felt(200));
    replay.record_element(felt(2), felt(104));
    assert_eq!(replay.replay_read_element(felt(100)), felt(1));
    assert_eq!(replay.replay_read_element(felt(104)), felt(2));
    assert_eq!(replay.replay_read_word(felt(200)), word(7));
}

#[test]
fn advice_is_replayed_in_order() {
    let mut replay = AdviceReplay::new();
    replay.record_pop_stack(felt(1));
    replay.record_pop_stack_word(word(10));
    replay.record_pop_stack_dword([word(20), word(30)]);
    replay.record_pop_stack(felt(2));
    assert_eq!(replay.replay_pop_stack_dword(), [word(20), word(30)]);
    assert_eq!(replay.replay_pop_stack_word(), word(10));
    assert_eq!(replay.replay_pop_stack(), felt(1));
    assert_eq!(replay.replay_pop_stack(), felt(2));
}

#[test]
fn hasher_results_are_replayed_in_order() {
    let state = [felt(6); 12];
    let mut replay = HasherReplay::new();
    replay.record_block_address(felt(1));
    replay.record_block_address(felt(9));
    replay.record_permute(felt(17), state);
    replay.record_build_merkle_root(felt(25), word(1));
    replay.record_update_merkle_root(felt(33), word(2), word(3));
    assert_eq!(replay.replay_block_address(), felt(1));
    assert_eq!(replay.replay_block_address(), felt(9));
    assert_eq!(replay.replay_permute(), (felt(17), state));
    assert_eq!(replay.replay_build_merkle_root(), (felt(25), word(1)));
    assert_eq!(replay.replay_update_merkle_root(), (felt(33), word(2), word(3)));
}

#[test]
fn blocks_know_the_block_around_them() {
    let mut blocks = BlockStack::default();
    assert_eq!(blocks.push(felt(1), BlockType::Join(false), None), Felt::zero());
    assert_eq!(blocks.push(felt(9), BlockType::Span, None), felt(1));
    assert_eq!(blocks.peek().addr, felt(9));
    assert_eq!(blocks.pop().parent_addr, felt(1));
    let outer = blocks.pop();
    assert_eq!(outer.block_type, BlockType::Join(false));
    assert_eq!(outer.parent_addr, Felt::zero());
}

#[test]
fn continuations_are_last_in_first_out() {
    let mut left = ContinuationStack { stack: Vec::new() };
    assert!(left.pop_continuation().is_none());
    left.push_enter_forest(forest());
    left.push_start_node(MastNodeId(8));
    assert!(matches!(left.pop_continuation(), Some(Continuation::StartNode(MastNodeId(8)))));
    assert!(matches!(left.pop_continuation(), Some(Continuation::EnterForest(_))));
    assert!(left.pop_continuation().is_none());
}

fn block_of_batches(n: usize) -> BasicBlockNode {
    let mut op_batches = Vec::new();
    for _ in 0..n {
        op_batches.push(OpBatch {
            ops: vec![Operation::Add],
            groups: [Felt::zero(); 8],
            op_counts: [1, 0, 0, 0, 0, 0, 0, 0],
            num_groups: 1,
        });
    }
    BasicBlockNode { op_batches, digest: word(0) }
}

#[test]
fn hasher_addresses_count_rows() {
    let path = MerklePath { nodes: vec![word(1), word(2), word(3)] };
    assert_eq!(path.depth(), 3);
    let mut hasher = HasherChipletShim::new();
    assert_eq!(hasher.record_hash_control_block(), felt(1));
    assert_eq!(hasher.record_hash_basic_block(&block_of_batches(3)), felt(9));
    hasher.record_permute([Felt::zero(); 12]);
    hasher.record_build_merkle_root(&path, word(5));
    hasher.record_update_merkle_root(&path, word(6), word(7));
    // 1 + 8 + 3 * 8 + 8 + 3 * 8 + 2 * 3 * 8
    assert_eq!(hasher.record_hash_control_block(), felt(113));
    let mut replay = hasher.extract_replay();
    assert_eq!(replay.replay_block_address(), felt(1));
    assert_eq!(replay.replay_block_address(), felt(9));
    assert_eq!(replay.replay_block_address(), felt(113));
    assert_eq!(replay.replay_permute(), (felt(33), [Felt::zero(); 12]));
    assert_eq!(replay.replay_build_merkle_root(), (felt(41), word(5)));
    assert_eq!(replay.replay_update_merkle_root(), (felt(65), word(6), word(7)));
    // addresses go on after the replay has been taken
    assert_eq!(hasher.record_hash_control_block(), felt(121));
    assert_eq!(hasher.extract_replay().block_addresses.len(), 1);
}

fn system(clk: u32) -> SystemState {
    SystemState {
        clk,
        ctx: ContextId(0),
        fmp: felt(1 << 30),
        in_syscall: false,
        fn_hash: [Felt::zero(); 4],
    }
}

#[test]
fn states_hold_what_was_recorded_since_they_started() {
    let program = forest();
    let mut builder = CoreTraceStateBuilder::default();
    // without a started fragment, nothing is extracted
    builder.advice.record_pop_stack(felt(1));
    builder.extract_new_state(
        system(0),
        numbers(),
        ContinuationStack { stack: Vec::new() },
        NodeExecutionPhase::Start(MastNodeId(0)),
        program.clone(),
    );
    builder.memory.record_element(felt(2), felt(200));
    builder.hasher.record_hash_control_block();
    builder.overflow.push(felt(55));
    builder.block_stack.push(felt(1), BlockType::Split, None);
    builder.extract_new_state(
        system(1024),
        numbers(),
        ContinuationStack { stack: vec![Continuation::FinishSplit(MastNodeId(0))] },
        NodeExecutionPhase::End(MastNodeId(1)),
        program,
    );
    builder.external.record_resolution(MastNodeId(6), forest());
    builder.hasher.record_hash_control_block();

    // ending the last fragment adds one state
    assert_eq!(builder.core_trace_states.len(), 1);
    let mut states = builder.into_core_trace_states();
    assert_eq!(states.len(), 2);
    assert_eq!(initial_stack_top(&states), numbers().to_vec());
    let second = states.pop().unwrap();
    let mut first = states.pop().unwrap();

    assert_eq!(first.system.clk, 0);
    assert_eq!(first.exec_phase, NodeExecutionPhase::Start(MastNodeId(0)));
    assert_eq!(first.advice.replay_pop_stack(), felt(1));
    assert_eq!(first.memory.replay_read_element(felt(200)), felt(2));
    assert_eq!(first.hasher.replay_block_address(), felt(1));
    assert_eq!(first.stack.num_overflow_elements_in_current_ctx(), 0);
    assert_eq!(first.block_stack.blocks.len(), 0);
    assert_eq!(first.external_node_replay.external_node_resolutions.len(), 0);

    // the overflow table and the block stack are carried over, the replays are not
    assert_eq!(second.system.clk, 1024);
    assert_eq!(second.stack.num_overflow_elements_in_current_ctx(), 1);
    assert_eq!(second.block_stack.blocks.len(), 1);
    assert_eq!(second.traversal.stack.len(), 1);
    assert_eq!(second.hasher.block_addresses.len(), 1);
    assert_eq!(second.hasher.block_addresses[0], felt(9));
    assert_eq!(second.memory.elements_read.len(), 0);
    assert_eq!(second.external_node_replay.external_node_resolutions.len(), 1);
}

#[test]
fn each_start_yields_its_state() {
    let mut builder = CoreTraceStateBuilder::default();
    for i in 0..5u32 {
        builder.overflow.push(felt(1000 + i as u64));
        builder.extract_new_state(
            system(i * 1024),
            numbers(),
            ContinuationStack { stack: Vec::new() },
            NodeExecutionPhase::End(MastNodeId(i)),
            forest(),
        );
        builder.advice.record_pop_stack(felt(10 * i as u64));
        builder.advice.record_pop_stack(felt(10 * i as u64 + 1));
    }
    builder.finish_current_snapshot();
    assert_eq!(builder.core_trace_states.len(), 5);
    // nothing is left to end
    builder.finish_current_snapshot();
    let states = builder.into_core_trace_states();
    assert_eq!(states.len(), 5);
    for (i, mut state) in states.into_iter().enumerate() {
        assert_eq!(state.system.clk, i as u32 * 1024);
        assert_eq!(state.exec_phase, NodeExecutionPhase::End(MastNodeId(i as u32)));
        assert_eq!(state.stack.num_overflow_elements_in_current_ctx(), i + 1);
        assert_eq!(state.advice.replay_pop_stack(), felt(10 * i as u64));
        assert_eq!(state.advice.replay_pop_stack(), felt(10 * i as u64 + 1));
        assert_eq!(state.advice.stack_pops.len(), 0);
    }
}

#[test]
fn nothing_started_leaves_no_states() {
    assert_eq!(CoreTraceStateBuilder::default().into_core_trace_states().len(), 0);
}
