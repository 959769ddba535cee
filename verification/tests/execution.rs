use std::ops::ControlFlow;
use std::sync::Arc;

use core_trace::block_stack::{BlockStack, BlockType, ContextId};
use core_trace::checkpoints::{
    AdviceReplay, CoreTraceState, ExternalNodeReplay, HasherReplay, MemoryReplay,
    NodeExecutionPhase, StackState, SystemState,
};
use core_trace::continuation_stack::{Continuation, ContinuationStack};
use core_trace::dispatch::OpCall;
use core_trace::executor::{Action, FMP_MIN, Progress, SYSCALL_FMP_MIN};
use core_trace::felt::{Felt, Word};
use core_trace::generator::CoreTraceFragmentGenerator;
use core_trace::loop_rows::TraceRowType;
use core_trace::mast::{
    BasicBlockNode, CallNode, DynNode, ExternalNode, JoinNode, LoopNode, MastForest, MastNode,
    MastNodeId, SplitNode,
};
use core_trace::op_batch::OpBatch;
use core_trace::operation::{FlowOperation, Operation};
use core_trace::overflow::OverflowTable;
use core_trace::span::SpanContext;
use core_trace::task::Task;
use miden_core::Operation as Op;

fn felt(value: u64) -> Felt {
    Felt::new(value)
}

fn zero_word() -> Word {
    [Felt::zero(); 4]
}

fn block(ops: Vec<Op>) -> MastNode {
    let node = miden_core::mast::BasicBlockNode::new(ops, None).unwrap();
    let op_batches = node
        .op_batches()
        .iter()
        .map(|batch| OpBatch {
            ops: batch
                .ops()
                .iter()
                .map(|op| match op {
                    Op::Noop => Operation::Noop,
                    Op::Drop => Operation::Drop,
                    Op::Pad => Operation::Pad,
                    Op::Eqz => Operation::Eqz,
                    Op::Incr => Operation::Incr,
                    Op::Push(value) => Operation::Push(felt(value.as_int())),
                    _ => panic!("operation not used"),
                })
                .collect(),
            groups: batch.groups().map(|group| felt(group.as_int())),
            op_counts: *batch.op_counts(),
            num_groups: batch.num_groups(),
        })
        .collect();
    MastNode::Block(BasicBlockNode { op_batches, digest: zero_word() })
}

fn push(value: u64) -> Op {
    Op::Push(miden_core::Felt::new(value))
}

fn id(n: u32) -> MastNodeId {
    MastNodeId(n)
}

fn state(nodes: Vec<MastNode>, phase: NodeExecutionPhase, num_blocks: u64) -> CoreTraceState {
    let mut hasher = HasherReplay::new();
    for i in 0..num_blocks {
        hasher.record_block_address(felt(1 + 8 * i));
    }
    CoreTraceState {
        system: SystemState {
            clk: 0,
            ctx: ContextId(0),
            fmp: felt(FMP_MIN),
            in_syscall: false,
            fn_hash: zero_word(),
        },
        stack: StackState::new([Felt::zero(); 16], OverflowTable::default()),
        block_stack: BlockStack::default(),
        traversal: ContinuationStack { stack: Vec::new() },
        memory: MemoryReplay::new(),
        advice: AdviceReplay::new(),
        hasher,
        external_node_replay: ExternalNodeReplay::new(),
        exec_phase: phase,
        initial_mast_forest: Arc::new(MastForest { nodes }),
    }
}

fn started(state: CoreTraceState) -> CoreTraceFragmentGenerator {
    let mut generator = CoreTraceFragmentGenerator::new(state);
    assert!(generator.can_start(generator.state.exec_phase));
    generator.start_generation();
    generator
}

/// Does what the actions ask for, and moves on to the next row after each row.
fn act(generator: &mut CoreTraceFragmentGenerator, action: Action) {
    match action {
        Action::Perform { call } => {
            let mut helpers = None;
            match call {
                OpCall::Push { value } => {
                    generator.increment_stack_size();
                    generator.stack_write(0, value);
                },
                OpCall::Pad => {
                    generator.increment_stack_size();
                    generator.stack_write(0, Felt::zero());
                },
                OpCall::Eqz => {
                    let is_zero = generator.stack_get(0) == Felt::zero();
                    generator.stack_write(0, if is_zero { Felt::one() } else { Felt::zero() });
                    helpers = Some([felt(7); 6]);
                },
                OpCall::Incr => {
                    let value = generator.stack_get(0).as_int();
                    generator.stack_write(0, felt(value + 1));
                },
                _ => panic!("operation not used"),
            }
            generator.operation_performed(helpers);
            return;
        },
        Action::OperationRow { op, .. } => {
            let ctx = generator.span_context.as_mut().unwrap();
            ctx.group_ops_left = felt(ctx.group_ops_left.as_int() >> 7);
            if op.imm_value().is_some() {
                ctx.num_groups_left = ctx.num_groups_left.sub(Felt::one());
            }
        },
        Action::Respan { node_id, batch_index } => {
            let forest = generator.forest.clone();
            if let Some(MastNode::Block(node)) = forest.get_node_by_id(node_id) {
                let ctx = generator.span_context.as_mut().unwrap();
                ctx.group_ops_left = node.op_batches[batch_index].groups[0];
                ctx.num_groups_left = ctx.num_groups_left.sub(Felt::one());
            }
        },
        Action::SpanEnd { .. }
        | Action::JoinEnd { .. }
        | Action::SplitEnd { .. }
        | Action::CallEnd { .. }
        | Action::DynEnd { .. } => {
            generator.state.block_stack.pop();
        },
        _ => {},
    }
    let _ = generator.increment_clk();
    generator.row_added();
}

/// Runs to the end, and returns what was to be done.
fn run(generator: &mut CoreTraceFragmentGenerator) -> Vec<Action> {
    let mut actions = Vec::new();
    loop {
        assert!(generator.is_ready());
        match generator.execute_next() {
            Progress::Done => return actions,
            Progress::Working => {},
            Progress::Act(action) => {
                actions.push(action);
                act(generator, action);
            },
        }
    }
}

fn rows_of(op: Operation, actions: &[Action]) -> usize {
    actions
        .iter()
        .filter(|action| matches!(action, Action::OperationRow { op: o, .. } if *o == op))
        .count()
}

#[test]
fn basic_blocks_run_from_span_to_end() {
    let mut generator =
        started(state(vec![block(vec![push(5), Op::Drop])], NodeExecutionPhase::Start(id(0)), 1));
    let actions = run(&mut generator);
    assert_eq!(
        actions,
        vec![
            Action::SpanStart {
                node_id: id(0),
                num_groups_left: felt(2),
                parent_addr: Felt::zero(),
            },
            Action::Perform { call: OpCall::Push { value: felt(5) } },
            Action::OperationRow {
                op: Operation::Push(felt(5)),
                op_idx_in_group: 0,
                user_op_helpers: None,
            },
            Action::OperationRow { op: Operation::Drop, op_idx_in_group: 1, user_op_helpers: None },
            Action::SpanEnd { node_id: id(0) },
        ]
    );
    assert_eq!(generator.num_rows_built(), 4);
    assert_eq!(generator.state.block_stack.blocks.len(), 0);
    // all groups have been consumed
    assert_eq!(
        generator.span_context,
        Some(SpanContext { group_ops_left: Felt::zero(), num_groups_left: Felt::zero() })
    );
}

#[test]
fn batches_are_separated_by_respan() {
    let mut ops = vec![push(1); 1];
    ops.extend(vec![Op::Incr; 80]);
    let mut generator = started(state(vec![block(ops)], NodeExecutionPhase::Start(id(0)), 1));
    let actions = run(&mut generator);
    let respans: Vec<&Action> =
        actions.iter().filter(|action| matches!(action, Action::Respan { .. })).collect();
    assert_eq!(respans, vec![&Action::Respan { node_id: id(0), batch_index: 1 }]);
    assert_eq!(rows_of(Operation::Incr, &actions), 80);
    assert_eq!(generator.stack_get(0), felt(81));
}

#[test]
fn helpers_reach_the_row_of_their_operation() {
    let ops = vec![Op::Eqz, Op::Incr];
    let mut generator = started(state(vec![block(ops)], NodeExecutionPhase::Start(id(0)), 1));
    let actions = run(&mut generator);
    assert!(actions.contains(&Action::OperationRow {
        op: Operation::Eqz,
        op_idx_in_group: 0,
        user_op_helpers: Some([felt(7); 6]),
    }));
    assert!(actions.contains(&Action::OperationRow {
        op: Operation::Incr,
        op_idx_in_group: 1,
        user_op_helpers: None,
    }));
}

#[test]
fn helpers_are_not_carried_over() {
    let ops = vec![Op::Eqz];
    let mut generator = started(state(vec![block(ops)], NodeExecutionPhase::Start(id(0)), 1));
    generator.operation_performed(Some([felt(1); 6]));
    for _ in 0..4 {
        if generator.execute_next() == Progress::Act(Action::Perform { call: OpCall::Eqz }) {
            assert_eq!(generator.user_op_helpers, None);
            return;
        }
    }
    panic!("expected the operation to be handed out");
}

#[test]
fn joins_run_their_children_in_order() {
    let nodes = vec![
        block(vec![push(1)]),
        block(vec![Op::Incr]),
        MastNode::Join(JoinNode { first: id(0), second: id(1), digest: zero_word() }),
    ];
    let mut generator = started(state(nodes, NodeExecutionPhase::Start(id(2)), 3));
    let actions = run(&mut generator);
    let starts: Vec<&Action> = actions
        .iter()
        .filter(|a| {
            matches!(
                a,
                Action::JoinStart { .. }
                    | Action::SpanStart { .. }
                    | Action::SpanEnd { .. }
                    | Action::JoinEnd { .. }
            )
        })
        .collect();
    assert_eq!(
        starts,
        vec![
            &Action::JoinStart { node_id: id(2), parent_addr: Felt::zero() },
            &Action::SpanStart { node_id: id(0), num_groups_left: felt(2), parent_addr: felt(1) },
            &Action::SpanEnd { node_id: id(0) },
            &Action::SpanStart { node_id: id(1), num_groups_left: felt(1), parent_addr: felt(1) },
            &Action::SpanEnd { node_id: id(1) },
            &Action::JoinEnd { node_id: id(2) },
        ]
    );
    assert_eq!(generator.stack_get(0), felt(2));
    assert_eq!(generator.state.hasher.block_addresses.len(), 0);
}

#[test]
fn splits_take_the_branch_on_top_of_the_stack() {
    for (condition, taken) in [(1, 0), (0, 1), (5, 1)] {
        let nodes = vec![
            block(vec![Op::Incr]),
            block(vec![Op::Noop]),
            MastNode::Split(SplitNode { on_true: id(0), on_false: id(1), digest: zero_word() }),
        ];
        let mut state = state(nodes, NodeExecutionPhase::Start(id(2)), 2);
        state.stack.stack_top_mut()[15] = felt(condition);
        let actions = run(&mut started(state));
        assert_eq!(
            actions[0],
            Action::SplitStart { node_id: id(2), parent_addr: Felt::zero() }
        );
        assert!(matches!(
            actions[1],
            Action::SpanStart { node_id, .. } if node_id == id(taken)
        ));
        assert_eq!(*actions.last().unwrap(), Action::SplitEnd { node_id: id(2) });
    }
}

fn loop_nodes() -> Vec<MastNode> {
    vec![
        block(vec![Op::Drop]),
        MastNode::Loop(LoopNode { body: id(0), digest: zero_word() }),
    ]
}

fn loop_rows(actions: &[Action]) -> Vec<(u8, TraceRowType)> {
    actions
        .iter()
        .filter_map(|action| match action {
            Action::LoopRow { row } => Some((row.config.start_opcode, row.row_type)),
            _ => None,
        })
        .collect()
}

#[test]
fn loops_repeat_while_the_condition_is_one() {
    // the body removes a marker, the loop removes the condition: 1 (m 1) (m 1) (m 0)
    let mut state = state(loop_nodes(), NodeExecutionPhase::Start(id(1)), 4);
    let from_top = [1, 9, 1, 9, 1, 9, 0, 77];
    for (i, value) in from_top.iter().enumerate() {
        state.stack.stack_top_mut()[15 - i] = felt(*value);
    }
    let mut generator = started(state);
    let actions = run(&mut generator);
    let (start, repeat) = (FlowOperation::Loop.op_code(), FlowOperation::Repeat.op_code());
    assert_eq!(
        loop_rows(&actions),
        vec![
            (start, TraceRowType::Start),
            (repeat, TraceRowType::Start),
            (repeat, TraceRowType::Start),
            (start, TraceRowType::End),
        ]
    );
    assert_eq!(generator.stack_get(0), felt(77));
    assert_eq!(generator.state.block_stack.blocks.len(), 0);
}

#[test]
fn fragments_may_start_by_repeating_a_loop() {
    // the condition of the repetition, the body's marker, and the condition after it
    let mut state = state(loop_nodes(), NodeExecutionPhase::LoopRepeat(id(1)), 1);
    for (i, value) in [1, 9, 0, 77].iter().enumerate() {
        state.stack.stack_top_mut()[15 - i] = felt(*value);
    }
    state.block_stack.push(felt(33), BlockType::Loop(true), None);
    let mut generator = started(state);
    let actions = run(&mut generator);
    assert_eq!(
        actions[0],
        Action::FirstRepeatRow {
            node_id: id(1),
            opcode: FlowOperation::Repeat.op_code(),
            addr: felt(33),
        }
    );
    assert!(matches!(actions[1], Action::SpanStart { node_id, .. } if node_id == id(0)));
    assert_eq!(
        loop_rows(&actions),
        vec![(FlowOperation::Loop.op_code(), TraceRowType::End)]
    );
    assert_eq!(generator.stack_get(0), felt(77));
    assert_eq!(generator.state.block_stack.blocks.len(), 0);
}

#[test]
fn repeating_is_passing_the_test() {
    let prepared = |phase| {
        let mut state = state(loop_nodes(), phase, 2);
        state.stack.stack_top_mut()[15] = Felt::one();
        state.block_stack.push(felt(33), BlockType::Loop(true), None);
        CoreTraceFragmentGenerator::new(state)
    };
    let mut testing = prepared(NodeExecutionPhase::LoopRepeat(id(1)));
    let _ = testing.increment_clk();
    testing.tasks.push(Task::TestLoop(id(1)));
    let row = match testing.execute_next() {
        Progress::Act(Action::LoopRow { row }) => row,
        _ => panic!("expected a row of the loop"),
    };
    let mut repeating = prepared(NodeExecutionPhase::LoopRepeat(id(1)));
    repeating.tasks.push(Task::RepeatLoop(id(1)));
    assert_eq!(
        repeating.execute_next(),
        Progress::Act(Action::FirstRepeatRow {
            node_id: id(1),
            opcode: row.config.start_opcode,
            addr: row.config.addr,
        })
    );
    assert_eq!(repeating.tasks, testing.tasks);
    assert_eq!(repeating.stack_top(), testing.stack_top());
}

#[test]
fn loops_may_be_skipped() {
    let mut generator = started(state(loop_nodes(), NodeExecutionPhase::Start(id(1)), 1));
    let actions = run(&mut generator);
    assert_eq!(actions.len(), 2);
    match &actions[1] {
        Action::LoopRow { row } => {
            assert_eq!(row.config.block_info.unwrap().block_type, BlockType::Loop(false));
        },
        _ => panic!("expected the end of the loop"),
    }
}

#[test]
fn calls_run_in_a_context_of_their_own() {
    let callee_hash = [felt(61), felt(62), felt(63), felt(64)];
    let callee = match block(vec![Op::Noop]) {
        MastNode::Block(node) => {
            MastNode::Block(BasicBlockNode { digest: callee_hash, ..node })
        },
        _ => panic!("expected a block"),
    };
    let nodes = vec![
        callee,
        MastNode::Call(CallNode { callee: id(0), is_syscall: false, digest: zero_word() }),
    ];
    let mut state = state(nodes, NodeExecutionPhase::Start(id(1)), 2);
    state.system.clk = 40;
    state.system.ctx = ContextId(12);
    state.system.fmp = felt(555);
    state.system.fn_hash = [felt(4); 4];
    let mut generator = started(state);
    assert!(matches!(
        generator.execute_next(),
        Progress::Act(Action::CallStart { node_id, .. }) if node_id == id(1)
    ));
    let call = *generator.state.block_stack.peek();
    assert_eq!(call.block_type, BlockType::Call);
    let suspended = call.ctx_info.unwrap();
    assert_eq!(suspended.parent_ctx, ContextId(12));
    assert_eq!(suspended.parent_fmp, felt(555));
    assert_eq!(suspended.parent_stack_depth, 16);
    act(&mut generator, Action::CallStart { node_id: id(1), parent_addr: Felt::zero() });
    assert_eq!(generator.execute_next(), Progress::Working);
    assert_eq!(generator.state.system.ctx, ContextId(41));
    assert_eq!(generator.state.system.fmp, felt(FMP_MIN));
    assert_eq!(generator.caller_hash(), callee_hash);
    run(&mut generator);
    assert_eq!(generator.state.system.ctx, ContextId(12));
    assert_eq!(generator.state.system.fmp, felt(555));
    assert_eq!(generator.caller_hash(), [felt(4); 4]);
    assert!(!generator.state.system.in_syscall);
}

#[test]
fn system_calls_run_in_the_root_context() {
    let nodes = vec![
        block(vec![Op::Noop]),
        MastNode::Call(CallNode { callee: id(0), is_syscall: true, digest: zero_word() }),
    ];
    let mut state = state(nodes, NodeExecutionPhase::Start(id(1)), 2);
    state.system.ctx = ContextId(12);
    state.system.fn_hash = [felt(4); 4];
    let mut generator = started(state);
    let action = match generator.execute_next() {
        Progress::Act(action) => action,
        _ => panic!("expected an action"),
    };
    assert_eq!(generator.state.block_stack.peek().block_type, BlockType::SysCall);
    act(&mut generator, action);
    assert_eq!(generator.execute_next(), Progress::Working);
    assert_eq!(generator.state.system.ctx, ContextId(0));
    assert_eq!(generator.state.system.fmp, felt(SYSCALL_FMP_MIN as u64));
    assert!(generator.state.system.in_syscall);
    assert_eq!(generator.caller_hash(), [felt(4); 4]);
    run(&mut generator);
    assert_eq!(generator.state.system.ctx, ContextId(12));
    assert!(!generator.state.system.in_syscall);
}

#[test]
fn dynamic_nodes_end_right_away() {
    for is_dyncall in [false, true] {
        let nodes = vec![MastNode::Dyn(DynNode { is_dyncall, digest: zero_word() })];
        let mut generator = started(state(nodes, NodeExecutionPhase::Start(id(0)), 1));
        let first = generator.execute_next();
        let action = Action::DynStart { node_id: id(0), parent_addr: Felt::zero() };
        assert_eq!(first, Progress::Act(action));
        let info = generator.state.block_stack.peek();
        assert_eq!(info.block_type == BlockType::Dyncall, is_dyncall);
        assert_eq!(info.ctx_info.is_some(), is_dyncall);
        act(&mut generator, action);
        assert_eq!(run(&mut generator), vec![Action::DynEnd { node_id: id(0) }]);
    }
}

#[test]
fn resumed_blocks_do_what_is_left() {
    let mut ops = vec![push(1), push(2)];
    ops.extend(vec![Op::Incr; 90]);
    let whole = run(&mut started(state(vec![block(ops.clone())], NodeExecutionPhase::Start(id(0)), 1)));
    for op_idx_in_batch in [0usize, 1, 2, 9, 10, 30] {
        let phase = NodeExecutionPhase::BasicBlock {
            node_id: id(0),
            batch_index: 0,
            op_idx_in_batch,
            needs_respan: false,
        };
        let mut state = state(vec![block(ops.clone())], phase, 0);
        state.block_stack.push(felt(1), BlockType::Span, None);
        let rest = run(&mut started(state));
        assert_eq!(rest[..], whole[whole.len() - rest.len()..]);
        let rows = |actions: &[Action]| {
            actions.iter().filter(|a| matches!(a, Action::OperationRow { .. })).count()
        };
        assert_eq!(rows(&rest) + op_idx_in_batch, rows(&whole));
    }
}

#[test]
fn entering_a_block_is_resuming_it_at_the_start() {
    let ops = vec![push(1), Op::Incr, push(2)];
    let mut entered =
        started(state(vec![block(ops.clone())], NodeExecutionPhase::Start(id(0)), 1));
    assert!(matches!(entered.execute_next(), Progress::Act(Action::SpanStart { .. })));
    assert_eq!(entered.execute_next(), Progress::Working);
    let phase = NodeExecutionPhase::BasicBlock {
        node_id: id(0),
        batch_index: 0,
        op_idx_in_batch: 0,
        needs_respan: false,
    };
    let resumed = started(state(vec![block(ops)], phase, 0));
    assert!(entered.span_context.is_some());
    assert_eq!(entered.span_context, resumed.span_context);
}

#[test]
fn respan_comes_first_where_it_is_needed() {
    let phase = NodeExecutionPhase::BasicBlock {
        node_id: id(0),
        batch_index: 1,
        op_idx_in_batch: 0,
        needs_respan: true,
    };
    let ops = vec![Op::Incr; 80];
    let mut resumed = state(vec![block(ops.clone())], phase, 0);
    resumed.block_stack.push(felt(1), BlockType::Span, None);
    let actions = run(&mut started(resumed));
    assert_eq!(actions[0], Action::Respan { node_id: id(0), batch_index: 1 });
    assert_eq!(rows_of(Operation::Incr, &actions), 8);
    // this is what the whole block ends with
    let whole = run(&mut started(state(vec![block(ops)], NodeExecutionPhase::Start(id(0)), 1)));
    assert_eq!(actions[..], whole[whole.len() - actions.len()..]);
}

#[test]
fn continuations_are_followed_after_the_current_node() {
    let nodes = vec![
        block(vec![Op::Incr]),
        block(vec![Op::Noop]),
        MastNode::Join(JoinNode { first: id(0), second: id(1), digest: zero_word() }),
    ];
    let mut state = state(nodes, NodeExecutionPhase::End(id(0)), 1);
    state.block_stack.push(felt(100), BlockType::Join(false), None);
    state.block_stack.push(felt(108), BlockType::Span, None);
    state.traversal =
        ContinuationStack { stack: vec![Continuation::FinishJoin(id(2))] };
    let mut generator = started(state);
    assert_eq!(
        run(&mut generator),
        vec![Action::SpanEnd { node_id: id(0) }, Action::JoinEnd { node_id: id(2) }]
    );
}

#[test]
fn a_started_node_completes_the_traversal() {
    let nodes = vec![block(vec![Op::Incr]), block(vec![Op::Noop])];
    let mut state = state(nodes, NodeExecutionPhase::End(id(0)), 1);
    state.block_stack.push(felt(100), BlockType::Span, None);
    state.traversal = ContinuationStack {
        stack: vec![Continuation::FinishJoin(id(0)), Continuation::StartNode(id(1))],
    };
    let mut generator = started(state);
    let actions = run(&mut generator);
    assert_eq!(*actions.last().unwrap(), Action::SpanEnd { node_id: id(1) });
    assert_eq!(generator.state.traversal.stack.len(), 1);
}

#[test]
fn external_nodes_are_replayed() {
    let library = Arc::new(MastForest { nodes: vec![block(vec![Op::Incr])] });
    let nodes = vec![
        block(vec![Op::Noop]),
        MastNode::External(ExternalNode { digest: zero_word() }),
    ];
    let mut state = state(nodes, NodeExecutionPhase::End(id(0)), 1);
    state.block_stack.push(felt(100), BlockType::Span, None);
    state.traversal = ContinuationStack { stack: vec![Continuation::StartNode(id(1))] };
    state.external_node_replay.record_resolution(id(0), library.clone());
    let program = state.initial_mast_forest.clone();
    let mut generator = started(state);
    let actions = run(&mut generator);
    assert_eq!(rows_of(Operation::Incr, &actions), 1);
    assert!(Arc::ptr_eq(&generator.forest, &library));
    // the program's forest is left to go back to
    match generator.state.traversal.stack.last() {
        Some(Continuation::EnterForest(forest)) => assert!(Arc::ptr_eq(forest, &program)),
        _ => panic!("expected a forest"),
    }
}

#[test]
fn forests_are_gone_back_to() {
    let outer = Arc::new(MastForest {
        nodes: vec![MastNode::Split(SplitNode {
            on_true: id(0),
            on_false: id(0),
            digest: zero_word(),
        })],
    });
    let mut state = state(vec![block(vec![Op::Noop])], NodeExecutionPhase::End(id(0)), 0);
    state.block_stack.push(felt(100), BlockType::Split, None);
    state.block_stack.push(felt(108), BlockType::Span, None);
    state.traversal = ContinuationStack {
        stack: vec![Continuation::FinishSplit(id(0)), Continuation::EnterForest(outer)],
    };
    assert_eq!(
        run(&mut started(state)),
        vec![Action::SpanEnd { node_id: id(0) }, Action::SplitEnd { node_id: id(0) }]
    );
}

#[test]
fn full_fragments_stop_execution() {
    let ops = vec![Op::Incr; 2000];
    let mut generator = started(state(vec![block(ops)], NodeExecutionPhase::Start(id(0)), 1));
    run(&mut generator);
    assert_eq!(generator.num_rows_built(), 1024);
    assert_eq!(generator.tasks.len(), 0);
    assert!(generator.is_finished());
    assert_eq!(generator.execute_next(), Progress::Done);
    assert_eq!(generator.generate_fragment().0.row_count(), 1024);
}

#[test]
fn rows_that_fill_the_fragment_drop_what_is_left() {
    let mut generator =
        started(state(vec![block(vec![Op::Incr])], NodeExecutionPhase::Start(id(0)), 1));
    for _ in 1..1024 {
        assert_eq!(generator.increment_clk(), ControlFlow::Continue(()));
        generator.row_added();
        assert_eq!(generator.tasks, vec![Task::ExecuteNode(id(0))]);
    }
    assert_eq!(generator.increment_clk(), ControlFlow::Break(()));
    generator.row_added();
    assert_eq!(generator.tasks, vec![]);
}

#[test]
fn short_fragments_end_with_halt() {
    let mut generator =
        started(state(vec![block(vec![Op::Incr])], NodeExecutionPhase::Start(id(0)), 1));
    assert!(!generator.is_halting());
    run(&mut generator);
    assert_eq!(generator.num_rows_built(), 3);
    // nothing is left, but the program has not halted
    assert!(!generator.is_finished());
    assert!(generator.is_halting());
    let row = generator.halt();
    assert_eq!(row, Action::HaltRow { opcode: FlowOperation::Halt.op_code() });
    assert!(!generator.is_finished());
    act(&mut generator, row);
    assert!(generator.is_finished());
    let fragment = generator.generate_fragment().0;
    assert_eq!(fragment.row_count(), 4);
    // HALT is 0b1111100
    let bits: Vec<u64> = (9..16).map(|c| fragment.columns[c][3].as_int()).collect();
    assert_eq!(bits, vec![0, 0, 1, 1, 1, 1, 1]);
}

#[test]
fn missing_helpers_are_noticed() {
    for (helpers, ready) in [(None, false), (Some([felt(1); 6]), true)] {
        let nodes = vec![block(vec![Op::Eqz])];
        let mut generator = started(state(nodes, NodeExecutionPhase::Start(id(0)), 1));
        while generator.execute_next() != Progress::Act(Action::Perform { call: OpCall::Eqz }) {}
        generator.operation_performed(helpers);
        assert_eq!(generator.is_ready(), ready);
    }
}

#[test]
fn tasks_below_wait() {
    let nodes = vec![block(vec![Op::Incr]), block(vec![Op::Noop])];
    let mut alone = started(state(vec![block(vec![Op::Incr])], NodeExecutionPhase::Start(id(0)), 1));
    let inner = run(&mut alone);
    let mut generator = started(state(nodes, NodeExecutionPhase::Start(id(0)), 2));
    generator.tasks.insert(0, Task::ExecuteNode(id(1)));
    let both = run(&mut generator);
    assert_eq!(both[..inner.len()], inner[..]);
    assert!(both.len() > inner.len());
}

#[test]
fn what_is_missing_is_noticed() {
    // no block address has been recorded
    let generator =
        started(state(vec![block(vec![Op::Incr])], NodeExecutionPhase::Start(id(0)), 0));
    assert!(!generator.is_ready());
    // there is no such node
    let generator = started(state(Vec::new(), NodeExecutionPhase::Start(id(0)), 1));
    assert!(!generator.is_ready());
    // external nodes do not end
    let external = vec![MastNode::External(ExternalNode { digest: zero_word() })];
    let generator = started(state(external, NodeExecutionPhase::End(id(0)), 0));
    assert!(!generator.is_ready());
    // nothing left is nothing missing
    let generator =
        CoreTraceFragmentGenerator::new(state(Vec::new(), NodeExecutionPhase::End(id(0)), 0));
    assert!(generator.is_ready());
    assert!(generator.is_halting());
    // a call needs its callee
    let call = MastNode::Call(CallNode { callee: id(7), is_syscall: false, digest: zero_word() });
    let mut generator = started(state(vec![call], NodeExecutionPhase::Start(id(0)), 1));
    assert!(generator.is_ready());
    generator.execute_next();
    assert!(!generator.is_ready());
    // a loop that is repeated has a block
    let generator = started(state(loop_nodes(), NodeExecutionPhase::LoopRepeat(id(1)), 1));
    assert!(!generator.is_ready());
    assert!(!generator.is_finished());
}

#[test]
fn phases_within_blocks_are_tested() {
    let phase = |batch_index, op_idx_in_batch, needs_respan| NodeExecutionPhase::BasicBlock {
        node_id: id(0),
        batch_index,
        op_idx_in_batch,
        needs_respan,
    };
    let state = state(vec![block(vec![Op::Incr; 80])], phase(0, 0, false), 0);
    let generator = CoreTraceFragmentGenerator::new(state);
    assert!(generator.can_start(phase(0, 0, false)));
    assert!(generator.can_start(phase(0, 71, false)));
    assert!(!generator.can_start(phase(0, 72, false)));
    assert!(generator.can_start(phase(1, 0, true)));
    assert!(!generator.can_start(phase(1, 1, true)));
    assert!(!generator.can_start(phase(2, 0, false)));
}
