use core_trace::felt::Felt;
use core_trace::mast::BasicBlockNode;
use core_trace::op_batch::{BatchStep, OpBatch, decompose_op_idx_in_batch, execute_op_batch};
use core_trace::operation::Operation;
use core_trace::span::{SpanContext, count_groups_consumed, initialize_span_context};
use miden_core::Operation as Op;

fn felt(value: u64) -> Felt {
    Felt::new(value)
}

/// Converts the operations that the tests use.
fn operation(op: &Op) -> Operation {
    match op {
        Op::Noop => Operation::Noop,
        Op::Add => Operation::Add,
        Op::Mul => Operation::Mul,
        Op::Push(value) => Operation::Push(felt(value.as_int())),
        Op::Emit(event_id) => Operation::Emit(*event_id),
        _ => panic!("operation not used"),
    }
}

/// Batches as the machine builds them.
fn block(ops: Vec<Op>) -> BasicBlockNode {
    let node = miden_core::mast::BasicBlockNode::new(ops, None).unwrap();
    let op_batches: Vec<OpBatch> = node
        .op_batches()
        .iter()
        .map(|batch| OpBatch {
            ops: batch.ops().iter().map(operation).collect(),
            groups: batch.groups().map(|group| felt(group.as_int())),
            op_counts: *batch.op_counts(),
            num_groups: batch.num_groups(),
        })
        .collect();
    let block = BasicBlockNode { op_batches, digest: [Felt::zero(); 4] };
    assert!(block.is_valid());
    assert_eq!(block.num_op_groups(), node.num_op_groups());
    assert_eq!(block.num_op_batches(), node.num_op_batches());
    block
}

fn push(value: u64) -> Op {
    Op::Push(miden_core::Felt::new(value))
}

fn run(op: Operation, op_idx_in_group: usize) -> BatchStep {
    BatchStep::ExecuteOp { op, op_idx_in_group }
}

fn count_ops(steps: &[BatchStep]) -> usize {
    steps.iter().filter(|step| matches!(step, BatchStep::ExecuteOp { .. })).count()
}

#[test]
fn one_operation_fills_one_group() {
    let block = block(vec![Op::Add]);
    assert_eq!(execute_op_batch(&block.op_batches[0], None), vec![run(Operation::Add, 0)]);
    assert_eq!(block.op_batches[0].num_runtime_ops(), 1);
    assert_eq!(block.num_op_groups(), 1);
}

#[test]
fn noops_follow_immediates_at_the_end_of_groups() {
    // one group with a PUSH, its immediate value, nothing to pad
    let block = block(vec![push(7)]);
    assert_eq!(
        execute_op_batch(&block.op_batches[0], None),
        vec![run(Operation::Push(felt(7)), 0), run(Operation::Noop, 1)]
    );
    assert_eq!(block.op_batches[0].num_runtime_ops(), 2);
    assert_eq!(decompose_op_idx_in_batch(&block.op_batches[0], 0), (0, 0));
    assert_eq!(decompose_op_idx_in_batch(&block.op_batches[0], 1), (0, 1));
}

#[test]
fn groups_are_padded_to_a_power_of_two() {
    // groups: [PUSH PUSH], 1, 2, and one group of padding
    let block = block(vec![push(1), push(2)]);
    assert_eq!(block.num_op_groups(), 4);
    assert_eq!(
        execute_op_batch(&block.op_batches[0], None),
        vec![
            run(Operation::Push(felt(1)), 0),
            run(Operation::Push(felt(2)), 1),
            run(Operation::Noop, 2),
            BatchStep::StartGroup { group: Felt::zero() },
            run(Operation::Noop, 0),
        ]
    );
    assert_eq!(block.op_batches[0].num_runtime_ops(), 4);
    assert_eq!(decompose_op_idx_in_batch(&block.op_batches[0], 3), (3, 0));
}

#[test]
fn full_groups_start_the_next_one() {
    let block = block(vec![Op::Add; 10]);
    let steps = execute_op_batch(&block.op_batches[0], None);
    assert_eq!(count_ops(&steps), 10);
    assert_eq!(steps[8], run(Operation::Add, 8));
    assert_eq!(steps[9], BatchStep::StartGroup { group: block.op_batches[0].groups[1] });
    assert_eq!(steps[10], run(Operation::Add, 0));
    assert_eq!(decompose_op_idx_in_batch(&block.op_batches[0], 8), (0, 8));
    assert_eq!(decompose_op_idx_in_batch(&block.op_batches[0], 9), (1, 0));
}

#[test]
fn resuming_runs_what_is_left() {
    let mut ops = vec![Op::Add, push(3), Op::Mul, push(4)];
    ops.extend(vec![Op::Add; 9]);
    ops.extend(vec![push(5), push(6), Op::Emit(9)]);
    let block = block(ops);
    let batch = &block.op_batches[0];
    let whole = execute_op_batch(batch, None);
    assert_eq!(execute_op_batch(batch, Some(0)), whole);
    assert_eq!(count_ops(&whole), batch.num_runtime_ops());
    for start in 0..=batch.num_runtime_ops() {
        let rest = execute_op_batch(batch, Some(start));
        assert_eq!(rest[..], whole[whole.len() - rest.len()..]);
        assert_eq!(count_ops(&rest), batch.num_runtime_ops() - start);
    }
}

#[test]
fn resuming_at_an_inserted_noop_runs_it_once() {
    let block = block(vec![push(1), push(2)]);
    let batch = &block.op_batches[0];
    // runtime operations: PUSH, PUSH, NOOP (inserted), NOOP (padding)
    assert_eq!(
        execute_op_batch(batch, Some(2)),
        vec![
            run(Operation::Noop, 2),
            BatchStep::StartGroup { group: Felt::zero() },
            run(Operation::Noop, 0),
        ]
    );
    assert_eq!(execute_op_batch(batch, Some(3)), vec![run(Operation::Noop, 0)]);
    assert_eq!(execute_op_batch(batch, Some(4)), vec![]);
}

#[test]
fn positions_follow_the_schedule() {
    let mut ops = vec![Op::Add; 8];
    ops.extend(vec![push(4), Op::Mul, push(5)]);
    let block = block(ops);
    let batch = &block.op_batches[0];
    let mut runtime_idx = 0;
    for step in execute_op_batch(batch, None) {
        if let BatchStep::ExecuteOp { op_idx_in_group, .. } = step {
            let (_, position) = decompose_op_idx_in_batch(batch, runtime_idx);
            assert_eq!(position, op_idx_in_group);
            runtime_idx += 1;
        }
    }
    assert_eq!(runtime_idx, batch.num_runtime_ops());
}

#[test]
fn large_blocks_span_batches() {
    let block = block(vec![Op::Add; 80]);
    assert_eq!(block.num_op_batches(), 2);
    assert_eq!(block.num_op_groups(), 9);
    assert_eq!(block.op_batches[0].num_runtime_ops(), 72);
    assert_eq!(block.op_batches[1].num_runtime_ops(), 8);
}

#[test]
fn span_context_at_the_start_of_a_block() {
    let block = block(vec![Op::Add, Op::Mul, push(3)]);
    // groups: [ADD MUL PUSH], 3
    assert_eq!(block.num_op_groups(), 2);
    assert_eq!(
        initialize_span_context(&block, 0, 0),
        SpanContext { group_ops_left: block.op_batches[0].groups[0], num_groups_left: felt(1) }
    );
}

#[test]
fn span_context_shifts_out_executed_operations() {
    let block = block(vec![Op::Add, Op::Mul, push(3)]);
    let group = block.op_batches[0].groups[0].as_int();
    let context = initialize_span_context(&block, 0, 2);
    assert_eq!(context.group_ops_left.as_int(), group >> 14);
    assert_eq!(context.group_ops_left.as_int(), miden_core::OPCODE_PUSH as u64);
    assert_eq!(context.num_groups_left, felt(1));
}

#[test]
fn span_context_counts_consumed_immediates() {
    let block = block(vec![push(1), Op::Add, Op::Mul]);
    // groups: [PUSH ADD MUL], 1
    assert_eq!(initialize_span_context(&block, 0, 0).num_groups_left, felt(1));
    assert_eq!(initialize_span_context(&block, 0, 1).num_groups_left, felt(0));
    assert_eq!(count_groups_consumed(&block, 0, 0), 1);
    assert_eq!(count_groups_consumed(&block, 0, 1), 2);
}

#[test]
fn span_context_counts_earlier_batches() {
    let block = block(vec![Op::Add; 80]);
    // the first batch has eight groups, and the SPAN operation consumes one group
    assert_eq!(initialize_span_context(&block, 1, 0).num_groups_left, felt(0));
    assert_eq!(count_groups_consumed(&block, 1, 0), 9);
    assert_eq!(count_groups_consumed(&block, 0, 9), 2);
}

#[test]
fn padding_groups_hold_noops() {
    let block = block(vec![push(1), push(2)]);
    let context = initialize_span_context(&block, 0, 3);
    assert_eq!(context, SpanContext { group_ops_left: Felt::zero(), num_groups_left: felt(0) });
}

#[test]
fn nothing_is_left_at_a_noop_after_the_last_immediate() {
    let block = block(vec![push(7)]);
    // PUSH is done and its immediate value consumed
    assert_eq!(
        initialize_span_context(&block, 0, 1),
        SpanContext { group_ops_left: Felt::zero(), num_groups_left: Felt::zero() }
    );
}

#[test]
fn decoder_steps_through_groups() {
    let mut ops = vec![push(1), Op::Add, Op::Emit(9), Op::Mul, push(2), Op::Add, Op::Add];
    ops.extend(vec![Op::Mul, push(3), Op::Add, push(4)]);
    let block = block(ops);
    let batch = &block.op_batches[0];
    let schedule = execute_op_batch(batch, None);
    let ran: Vec<Operation> = schedule
        .iter()
        .filter_map(|step| match step {
            BatchStep::ExecuteOp { op, .. } => Some(*op),
            BatchStep::StartGroup { .. } => None,
        })
        .collect();
    let mut steps = 0;
    for k in 0..batch.num_runtime_ops() - 1 {
        let now = initialize_span_context(&block, 0, k);
        let next = initialize_span_context(&block, 0, k + 1);
        let (group, idx) = decompose_op_idx_in_batch(batch, k);
        if idx == 0 {
            assert_eq!(now.group_ops_left, batch.groups[group]);
        }
        if decompose_op_idx_in_batch(batch, k + 1) == (group, idx + 1) {
            assert_eq!(next.group_ops_left.as_int(), now.group_ops_left.as_int() >> 7);
            let consumed = if ran[k].imm_value().is_some() { 1 } else { 0 };
            assert_eq!(next.num_groups_left, now.num_groups_left.sub(felt(consumed)));
            steps += 1;
        }
    }
    assert_eq!(steps, 10);
}

#[test]
fn invalid_batches_are_told_apart() {
    let zeros = [Felt::zero(); 8];
    let too_many_groups =
        OpBatch { ops: Vec::new(), groups: zeros, op_counts: [0; 8], num_groups: 9 };
    assert!(!too_many_groups.is_valid());
    let no_room = OpBatch {
        ops: vec![Operation::Add],
        groups: zeros,
        op_counts: [0; 8],
        num_groups: 1,
    };
    assert!(!no_room.is_valid());
    let crowded = OpBatch {
        ops: vec![Operation::Add],
        groups: zeros,
        op_counts: [10, 0, 0, 0, 0, 0, 0, 0],
        num_groups: 1,
    };
    assert!(!crowded.is_valid());
    // no room for the NOOP after the immediate value
    let mut ops = vec![Operation::Add; 8];
    ops.push(Operation::Push(felt(1)));
    let late_push = OpBatch {
        ops,
        groups: zeros,
        op_counts: [9, 0, 0, 0, 0, 0, 0, 0],
        num_groups: 2,
    };
    assert!(!late_push.is_valid());
    let empty = BasicBlockNode { op_batches: Vec::new(), digest: [Felt::zero(); 4] };
    assert!(!empty.is_valid());
}
