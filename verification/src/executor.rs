//! Re-execution of a part of a program, which determines the rows of a trace fragment.
//!
//! The generator decides what happens next; operations beyond stack reordering are performed, and
//! trace rows written, by whoever drives it. [`CoreTraceFragmentGenerator::execute_next`] hands out
//! what is to be done, and the outcome is handed back before it is called again.
use core::ops::ControlFlow;

use vstd::prelude::*;

use crate::block_stack::{BlockType, ContextId, ExecutionContextInfo, block_within, innermost_addr};
use crate::checkpoints::{CoreTraceStateView, HasherReplayView, NodeExecutionPhase, SystemState};
use crate::continuation_stack::Continuation;
use crate::dispatch::{OpCall, handling, has_helpers, pending_call, yields_helpers};
use crate::felt::{Felt, felt, lemma_felt_view};
use crate::generator::{CoreTraceFragmentGenerator, GeneratorView};
use crate::loop_rows::ControlFlowRow;
use crate::mast::{BasicBlockNode, MastNode, MastNodeId};
use crate::op_batch::{BatchStep, execute_op_batch, skip_ops};
use crate::operation::{FlowOperation, Operation};
use crate::span::{SpanContext, groups_consumed, initialize_span_context, span_context_at};
use crate::task::Task;

verus! {

/// Initial value of the free memory pointer.
pub const FMP_MIN: u64 = 0x4000_0000;

/// Initial value of the free memory pointer in a system call.
pub const SYSCALL_FMP_MIN: u32 = 0x8000_0000;

/// Something that is to be done outside of the generator.
#[derive(Clone, Copy, Debug, PartialEq, Eq)]
pub enum Action {
    /// Add the row that starts a basic block.
    SpanStart { node_id: MastNodeId, num_groups_left: Felt, parent_addr: Felt },
    /// Add the row between two batches of a basic block, and move the decoder to the latter.
    Respan { node_id: MastNodeId, batch_index: usize },
    /// Add the row that ends a basic block.
    SpanEnd { node_id: MastNodeId },
    JoinStart { node_id: MastNodeId, parent_addr: Felt },
    JoinEnd { node_id: MastNodeId },
    SplitStart { node_id: MastNodeId, parent_addr: Felt },
    SplitEnd { node_id: MastNodeId },
    CallStart { node_id: MastNodeId, parent_addr: Felt },
    CallEnd { node_id: MastNodeId },
    DynStart { node_id: MastNodeId, parent_addr: Felt },
    DynEnd { node_id: MastNodeId },
    /// Add a row of a loop.
    LoopRow { row: ControlFlowRow },
    /// Add the row that repeats a loop where this is the first row of a fragment. The hasher state
    /// of the row is that of the row before, which the previous fragment holds.
    FirstRepeatRow { node_id: MastNodeId, opcode: u8, addr: Felt },
    /// Perform an operation.
    Perform { call: OpCall },
    /// Add the row in which the program halts. Its opcode has been written.
    HaltRow { opcode: u8 },
    /// Add the row of an operation that has been performed.
    OperationRow { op: Operation, op_idx_in_group: usize, user_op_helpers: Option<[Felt; 6]> },
}

/// What came of executing the next task.
#[derive(Clone, Copy, Debug, PartialEq, Eq)]
pub enum Progress {
    /// The task is done; there may be more.
    Working,
    /// The action is to be done.
    Act(Action),
    /// Nothing is left to execute.
    Done,
}

// MODEL
// ================================================================================================

/// Steps of a batch as tasks: the first step is the next task.
pub open spec fn step_tasks(steps: Seq<BatchStep>) -> Seq<Task> {
    Seq::new(steps.len(), |k: int| Task::Step(steps[steps.len() - 1 - k]))
}

impl GeneratorView {
    /// The generator with more tasks, the last of which is the next one.
    pub open spec fn then_tasks(self, tasks: Seq<Task>) -> GeneratorView {
        GeneratorView { tasks: self.tasks + tasks, ..self }
    }

    /// Whether the forest has a basic block with this identifier.
    pub open spec fn has_block(self, id: MastNodeId) -> bool {
        self.forest.has(id) && self.forest.node(id) is Block
    }

    pub open spec fn block(self, id: MastNodeId) -> BasicBlockNode {
        self.forest.node(id)->Block_0
    }

    /// The generator after the next recorded block address has been replayed.
    pub open spec fn address_replayed(self) -> GeneratorView {
        let hasher = HasherReplayView {
            block_addresses: self.state.hasher.block_addresses.skip(1),
            ..self.state.hasher
        };
        GeneratorView { state: CoreTraceStateView { hasher, ..self.state }, ..self }
    }

    /// The generator after a block, at the next recorded address, has been started.
    pub open spec fn block_started(
        self,
        block_type: BlockType,
        ctx_info: Option<ExecutionContextInfo>,
    ) -> GeneratorView {
        let blocks = self.state.block_stack;
        let addr = self.state.hasher.block_addresses[0];
        self.address_replayed().with_block_stack(
            blocks.push(block_within(blocks, addr, block_type, ctx_info)),
        )
    }

    /// State of the current context, for a block that suspends it.
    pub open spec fn context_info(self) -> ExecutionContextInfo {
        ExecutionContextInfo {
            parent_ctx: self.state.system.ctx,
            parent_fn_hash: self.state.system.fn_hash,
            parent_fmp: self.state.system.fmp,
            parent_stack_depth: self.state.stack.depth() as usize as u32,
            parent_next_overflow_addr: self.state.stack.overflow.top_address(),
        }
    }

    /// Whether the top of the stack is 1.
    pub open spec fn condition(self) -> bool {
        self.state.stack.at(0) == felt(1)
    }

    /// What a node that is about to be executed needs.
    pub open spec fn can_execute_node(self, id: MastNodeId) -> bool {
        &&& self.forest.has(id)
        &&& self.state.hasher.block_addresses.len() > 0
        &&& match self.forest.node(id) {
            MastNode::Block(node) => node.wf(),
            MastNode::Join(_) => true,
            MastNode::Split(_) => true,
            MastNode::Loop(node) => self.forest.has(node.body),
            MastNode::Call(_) => self.state.stack.fits(),
            MastNode::Dyn(node) => node.is_dyncall ==> self.state.stack.fits(),
            MastNode::External(_) => false,
        }
    }

    /// Starting to execute a node: the row to add, and the tasks after it.
    pub open spec fn execute_node(self, id: MastNodeId) -> (GeneratorView, Action) {
        let parent_addr = innermost_addr(self.state.block_stack);
        match self.forest.node(id) {
            MastNode::Block(node) => (
                self.block_started(BlockType::Span, None).then_tasks(seq![Task::EnterSpan(id)]),
                Action::SpanStart {
                    node_id: id,
                    num_groups_left: felt(node.op_group_count() as usize as u32 as int),
                    parent_addr,
                },
            ),
            MastNode::Join(node) => (
                self.block_started(BlockType::Join(false), None).then_tasks(
                    seq![
                        Task::EndNode(id),
                        Task::ExecuteNode(node.second),
                        Task::ExecuteNode(node.first),
                    ],
                ),
                Action::JoinStart { node_id: id, parent_addr },
            ),
            MastNode::Split(_) => (
                self.block_started(BlockType::Split, None).then_tasks(
                    seq![Task::EndNode(id), Task::TakeBranch(id)],
                ),
                Action::SplitStart { node_id: id, parent_addr },
            ),
            MastNode::Loop(node) => (
                self.block_started(BlockType::Loop(self.condition()), None).with_stack(
                    self.state.stack.shrink(),
                ).then_tasks(
                    if self.condition() {
                        seq![Task::TestLoop(id), Task::ExecuteNode(node.body)]
                    } else {
                        seq![Task::EndNode(id)]
                    },
                ),
                Action::LoopRow { row: self.loop_start_row(&node, &*self.forest, parent_addr) },
            ),
            MastNode::Call(node) => (
                self.block_started(
                    if node.is_syscall {
                        BlockType::SysCall
                    } else {
                        BlockType::Call
                    },
                    Some(self.context_info()),
                ).with_stack(self.state.stack.start_context()).then_tasks(
                    seq![Task::EnterCall(id)],
                ),
                Action::CallStart { node_id: id, parent_addr },
            ),
            MastNode::Dyn(node) => (
                if node.is_dyncall {
                    self.block_started(
                        BlockType::Dyncall,
                        Some(self.context_info()),
                    ).with_stack(self.state.stack.shift_left_and_start_context())
                } else {
                    self.block_started(BlockType::Dyn, None)
                }.then_tasks(seq![Task::EndNode(id)]),
                Action::DynStart { node_id: id, parent_addr },
            ),
            MastNode::External(_) => arbitrary(),
        }
    }

    /// What a node that is about to end needs.
    pub open spec fn can_end_node(self, id: MastNodeId) -> bool {
        &&& self.forest.has(id)
        &&& match self.forest.node(id) {
            MastNode::Loop(node) => self.forest.has(node.body) && self.state.block_stack.len() > 0,
            MastNode::External(_) => false,
            _ => true,
        }
    }

    /// Ending a node: the row to add.
    pub open spec fn end_node(self, id: MastNodeId) -> (GeneratorView, Action) {
        match self.forest.node(id) {
            MastNode::Block(_) => (self, Action::SpanEnd { node_id: id }),
            MastNode::Join(_) => (self, Action::JoinEnd { node_id: id }),
            MastNode::Split(_) => (self, Action::SplitEnd { node_id: id }),
            MastNode::Loop(node) => (
                self.with_block_stack(self.state.block_stack.drop_last()),
                Action::LoopRow { row: self.loop_end_row(&node, &*self.forest) },
            ),
            MastNode::Call(_) => (self, Action::CallEnd { node_id: id }),
            MastNode::Dyn(_) => (self, Action::DynEnd { node_id: id }),
            MastNode::External(_) => arbitrary(),
        }
    }

    /// Setting up the decoder for a basic block. The SPAN operation, which has been executed,
    /// consumes the first group.
    pub open spec fn span_entered(self, id: MastNodeId) -> GeneratorView {
        let node = self.block(id);
        GeneratorView {
            span_context: Some(
                SpanContext {
                    group_ops_left: node.op_batches@[0].groups@[0],
                    num_groups_left: felt(
                        felt(node.op_group_count() as usize as u32 as int)@ - 1,
                    ),
                },
            ),
            ..self
        }.then_tasks(
            seq![
                Task::EndNode(id),
                Task::RunBatchesFrom { node_id: id, batch_index: 1 },
                Task::RunBatch { node_id: id, batch_index: 0, start_op_idx: 0 },
            ],
        )
    }

    /// Switching to the context of a call. A system call runs in the root context and keeps the
    /// function hash; any other call runs in a new context, which is numbered by the clock cycle
    /// and has the hash of the callee.
    pub open spec fn call_entered(self, id: MastNodeId) -> GeneratorView {
        let node = self.forest.node(id)->Call_0;
        let system = self.state.system;
        self.with_system(
            if node.is_syscall {
                SystemState {
                    ctx: ContextId(0),
                    fmp: felt(SYSCALL_FMP_MIN as int),
                    in_syscall: true,
                    ..system
                }
            } else {
                SystemState {
                    ctx: ContextId(system.clk),
                    fmp: felt(FMP_MIN as int),
                    fn_hash: self.forest.node(node.callee).digest_of(),
                    ..system
                }
            },
        ).then_tasks(
            seq![
                Task::EndNode(id),
                Task::RestoreContext {
                    ctx: system.ctx,
                    fmp: system.fmp,
                    in_syscall: system.in_syscall,
                    fn_hash: system.fn_hash,
                },
                Task::ExecuteNode(node.callee),
            ],
        )
    }

    /// What continuing with the recorded continuations needs.
    pub open spec fn can_follow_continuations(self) -> bool {
        self.state.traversal.len() > 0 ==> match self.state.traversal.last() {
            Continuation::StartNode(id) => self.forest.has(id) && (self.forest.node(id) is External
                ==> self.state.external_node_replay.len() > 0),
            Continuation::FinishJoin(id) => self.forest.has(id) && self.forest.node(id) is Join,
            Continuation::FinishSplit(id) => self.forest.has(id) && self.forest.node(id) is Split,
            Continuation::FinishLoop(id) => self.forest.has(id) && self.forest.node(id) is Loop,
            Continuation::FinishCall(id) => self.forest.has(id) && self.forest.node(id) is Call,
            Continuation::FinishDyn(id) => self.forest.has(id) && self.forest.node(id) is Dyn,
            Continuation::EnterForest(_) => true,
        }
    }

    pub open spec fn with_traversal(self, traversal: Seq<Continuation>) -> GeneratorView {
        GeneratorView { state: CoreTraceStateView { traversal, ..self.state }, ..self }
    }

    /// Continuing with the next recorded continuation. Executing a node executes all that is left
    /// of the program, so no continuation is followed after it.
    pub open spec fn continuation_followed(self) -> GeneratorView {
        if self.state.traversal.len() == 0 {
            self
        } else {
            let popped = self.with_traversal(self.state.traversal.drop_last());
            match self.state.traversal.last() {
                Continuation::StartNode(id) => if self.forest.node(id) is External {
                    let (resolved_id, resolved_forest) = self.state.external_node_replay[0];
                    let left = self.state.external_node_replay.skip(1);
                    GeneratorView {
                        forest: resolved_forest,
                        state: CoreTraceStateView {
                            external_node_replay: left,
                            traversal: popped.state.traversal.push(
                                Continuation::EnterForest(self.forest),
                            ).push(Continuation::StartNode(resolved_id)),
                            ..popped.state
                        },
                        ..popped
                    }.then_tasks(seq![Task::FollowContinuations])
                } else {
                    popped.then_tasks(seq![Task::ExecuteNode(id)])
                },
                Continuation::FinishJoin(id) => popped.then_tasks(
                    seq![Task::FollowContinuations, Task::EndNode(id)],
                ),
                Continuation::FinishSplit(id) => popped.then_tasks(
                    seq![Task::FollowContinuations, Task::EndNode(id)],
                ),
                Continuation::FinishLoop(id) => popped.then_tasks(
                    seq![Task::FollowContinuations, Task::EndNode(id)],
                ),
                Continuation::FinishCall(id) => popped.then_tasks(
                    seq![Task::FollowContinuations, Task::EndNode(id)],
                ),
                Continuation::FinishDyn(id) => popped.then_tasks(
                    seq![Task::FollowContinuations, Task::EndNode(id)],
                ),
                Continuation::EnterForest(forest) => GeneratorView { forest, ..popped }.then_tasks(
                    seq![Task::FollowContinuations],
                ),
            }
        }
    }

    /// What a task needs.
    pub open spec fn can_do(self, task: Task) -> bool {
        match task {
            Task::ExecuteNode(id) => self.can_execute_node(id),
            Task::EnterSpan(id) => self.has_block(id) && self.block(id).wf(),
            Task::RunBatchesFrom { node_id, .. } => self.has_block(node_id),
            Task::Respan { node_id, batch_index } => self.has_block(node_id) && batch_index
                < self.block(node_id).op_batches@.len(),
            Task::RunBatch { node_id, batch_index, .. } => self.has_block(node_id) && batch_index
                < self.block(node_id).op_batches@.len() && self.block(
                node_id,
            ).op_batches@[batch_index as int].wf(),
            Task::Step(BatchStep::ExecuteOp { op, .. }) => !(handling(op) is FlowControl),
            Task::Step(BatchStep::StartGroup { .. }) => self.span_context is Some
                && self.span_context->0.group_ops_left == felt(0),
            Task::AddOperationRow { op, .. } => yields_helpers(op) ==> self.user_op_helpers is Some,
            Task::TakeBranch(id) => self.forest.has(id) && self.forest.node(id) is Split,
            Task::TestLoop(id) => self.forest.has(id) && self.forest.node(id) is Loop && (
            self.condition() ==> self.state.block_stack.len() > 0 && self.has_previous_row()),
            Task::RepeatLoop(id) => self.forest.has(id) && self.forest.node(id) is Loop
                && self.state.block_stack.len() > 0,
            Task::EnterCall(id) => self.forest.has(id) && self.forest.node(id) is Call
                && self.forest.has(self.forest.node(id)->Call_0.callee),
            Task::RestoreContext { .. } => true,
            Task::EndNode(id) => self.can_end_node(id),
            Task::FollowContinuations => self.can_follow_continuations(),
        }
    }

    /// Doing a task, which is no longer among the tasks of the generator.
    pub open spec fn do_task(self, task: Task) -> (GeneratorView, Progress) {
        match task {
            Task::ExecuteNode(id) => {
                let (after, action) = self.execute_node(id);
                (after, Progress::Act(action))
            },
            Task::EnterSpan(id) => (self.span_entered(id), Progress::Working),
            Task::RunBatchesFrom { node_id, batch_index } => if batch_index < self.block(
                node_id,
            ).op_batches@.len() {
                (
                    self.then_tasks(
                        seq![
                            Task::RunBatchesFrom {
                                node_id,
                                batch_index: (batch_index + 1) as usize,
                            },
                            Task::RunBatch { node_id, batch_index, start_op_idx: 0 },
                            Task::Respan { node_id, batch_index },
                        ],
                    ),
                    Progress::Working,
                )
            } else {
                (self, Progress::Working)
            },
            Task::Respan { node_id, batch_index } => (
                self,
                Progress::Act(Action::Respan { node_id, batch_index }),
            ),
            Task::RunBatch { node_id, batch_index, start_op_idx } => (
                self.then_tasks(
                    step_tasks(
                        skip_ops(
                            self.block(node_id).op_batches@[batch_index as int].schedule(),
                            start_op_idx as int,
                        ),
                    ),
                ),
                Progress::Working,
            ),
            Task::Step(BatchStep::ExecuteOp { op, op_idx_in_group }) => match pending_call(op) {
                None => (
                    self.after_dispatch(op),
                    Progress::Act(
                        Action::OperationRow { op, op_idx_in_group, user_op_helpers: None },
                    ),
                ),
                Some(call) => (
                    GeneratorView { user_op_helpers: None, ..self }.then_tasks(
                        seq![Task::AddOperationRow { op, op_idx_in_group }],
                    ),
                    Progress::Act(Action::Perform { call }),
                ),
            },
            Task::Step(BatchStep::StartGroup { group }) => (
                self.group_started(group),
                Progress::Working,
            ),
            Task::AddOperationRow { op, op_idx_in_group } => (
                self,
                Progress::Act(
                    Action::OperationRow {
                        op,
                        op_idx_in_group,
                        user_op_helpers: if yields_helpers(op) {
                            self.user_op_helpers
                        } else {
                            None
                        },
                    },
                ),
            ),
            Task::TakeBranch(id) => {
                let node = self.forest.node(id)->Split_0;
                (
                    self.then_tasks(
                        seq![
                            Task::ExecuteNode(
                                if self.condition() {
                                    node.on_true
                                } else {
                                    node.on_false
                                },
                            ),
                        ],
                    ),
                    Progress::Working,
                )
            },
            Task::TestLoop(id) => {
                let node = self.forest.node(id)->Loop_0;
                let shrunk = self.with_stack(self.state.stack.shrink());
                if self.condition() {
                    (
                        shrunk.then_tasks(seq![Task::TestLoop(id), Task::ExecuteNode(node.body)]),
                        Progress::Act(
                            Action::LoopRow {
                                row: self.loop_repeat_row(
                                    &node,
                                    &*self.forest,
                                    self.state.block_stack.last().addr,
                                ),
                            },
                        ),
                    )
                } else {
                    (shrunk.then_tasks(seq![Task::EndNode(id)]), Progress::Working)
                }
            },
            Task::RepeatLoop(id) => {
                let node = self.forest.node(id)->Loop_0;
                (
                    self.with_stack(self.state.stack.shrink()).then_tasks(
                        seq![Task::TestLoop(id), Task::ExecuteNode(node.body)],
                    ),
                    Progress::Act(
                        Action::FirstRepeatRow {
                            node_id: id,
                            opcode: FlowOperation::Repeat.code(),
                            addr: self.state.block_stack.last().addr,
                        },
                    ),
                )
            },
            Task::EnterCall(id) => (self.call_entered(id), Progress::Working),
            Task::RestoreContext { ctx, fmp, in_syscall, fn_hash } => (
                self.with_system(SystemState { ctx, fmp, in_syscall, fn_hash, ..self.state.system }),
                Progress::Working,
            ),
            Task::EndNode(id) => {
                let (after, action) = self.end_node(id);
                (after, Progress::Act(action))
            },
            Task::FollowContinuations => (self.continuation_followed(), Progress::Working),
        }
    }

    /// The generator after a row has been added, which may have filled the fragment.
    pub open spec fn after_row(self, flow: ControlFlow<()>) -> GeneratorView {
        match flow {
            ControlFlow::Continue(_) => self,
            ControlFlow::Break(_) => GeneratorView { tasks: Seq::empty(), ..self },
        }
    }

    /// The generator without its next task.
    pub open spec fn without_next_task(self) -> GeneratorView {
        GeneratorView { tasks: self.tasks.drop_last(), ..self }
    }

    /// What executing the next task needs.
    pub open spec fn ready(self) -> bool {
        self.tasks.len() > 0 ==> self.can_do(self.tasks.last())
    }

    /// Executing the next task.
    pub open spec fn next(self) -> (GeneratorView, Progress) {
        if self.tasks.len() == 0 {
            (self, Progress::Done)
        } else {
            self.without_next_task().do_task(self.tasks.last())
        }
    }
}

// EXECUTION
// ================================================================================================

impl CoreTraceFragmentGenerator {
    /// Starts to execute a node: returns the row to add before anything else.
    pub fn execute_mast_node(&mut self, node_id: MastNodeId) -> (r: Action)
        requires
            old(self)@.can_execute_node(node_id),
        ensures
            (final(self)@, r) == old(self)@.execute_node(node_id),
    {
        let ghost before = self@;
        let forest = self.forest.clone();
        let addr = self.state.hasher.replay_block_address();
        match forest.get_node_by_id(node_id).unwrap() {
            MastNode::Block(node) => {
                let parent_addr = self.state.block_stack.push(addr, BlockType::Span, None);
                let num_groups_left = Felt::new(node.num_op_groups() as u32 as u64);
                self.tasks.push(Task::EnterSpan(node_id));
                assert(self@ =~= before.execute_node(node_id).0);
                Action::SpanStart { node_id, num_groups_left, parent_addr }
            },
            MastNode::Join(node) => {
                let parent_addr = self.state.block_stack.push(addr, BlockType::Join(false), None);
                self.tasks.push(Task::EndNode(node_id));
                self.tasks.push(Task::ExecuteNode(node.second));
                self.tasks.push(Task::ExecuteNode(node.first));
                assert(self@ =~= before.execute_node(node_id).0);
                Action::JoinStart { node_id, parent_addr }
            },
            MastNode::Split(_) => {
                let parent_addr = self.state.block_stack.push(addr, BlockType::Split, None);
                self.tasks.push(Task::EndNode(node_id));
                self.tasks.push(Task::TakeBranch(node_id));
                assert(self@ =~= before.execute_node(node_id).0);
                Action::SplitStart { node_id, parent_addr }
            },
            MastNode::Loop(node) => {
                // The condition leaves the stack as part of the LOOP operation, before its row.
                let enter_loop = self.stack_get(0) == Felt::one();
                let parent_addr = self.state.block_stack.push(
                    addr,
                    BlockType::Loop(enter_loop),
                    None,
                );
                self.decrement_stack_size();
                let row = self.add_loop_start_trace_row(node, &*forest, parent_addr);
                if enter_loop {
                    self.tasks.push(Task::TestLoop(node_id));
                    self.tasks.push(Task::ExecuteNode(node.body));
                } else {
                    self.tasks.push(Task::EndNode(node_id));
                }
                assert(self@ =~= before.execute_node(node_id).0);
                Action::LoopRow { row }
            },
            MastNode::Call(node) => {
                let (stack_depth, next_overflow_addr) = self.state.stack.start_context();
                let ctx_info = ExecutionContextInfo {
                    parent_ctx: self.state.system.ctx,
                    parent_fn_hash: self.state.system.fn_hash,
                    parent_fmp: self.state.system.fmp,
                    parent_stack_depth: stack_depth as u32,
                    parent_next_overflow_addr: next_overflow_addr,
                };
                let block_type = if node.is_syscall {
                    BlockType::SysCall
                } else {
                    BlockType::Call
                };
                let parent_addr = self.state.block_stack.push(addr, block_type, Some(ctx_info));
                self.tasks.push(Task::EnterCall(node_id));
                assert(self@ =~= before.execute_node(node_id).0);
                Action::CallStart { node_id, parent_addr }
            },
            MastNode::Dyn(node) => {
                let parent_addr = if node.is_dyncall {
                    let (stack_depth, next_overflow_addr) =
                        self.state.stack.shift_left_and_start_context();
                    let ctx_info = ExecutionContextInfo {
                        parent_ctx: self.state.system.ctx,
                        parent_fn_hash: self.state.system.fn_hash,
                        parent_fmp: self.state.system.fmp,
                        parent_stack_depth: stack_depth as u32,
                        parent_next_overflow_addr: next_overflow_addr,
                    };
                    self.state.block_stack.push(addr, BlockType::Dyncall, Some(ctx_info))
                } else {
                    self.state.block_stack.push(addr, BlockType::Dyn, None)
                };
                // The target of a dynamic node is not known here; the node ends right away.
                self.tasks.push(Task::EndNode(node_id));
                assert(self@ =~= before.execute_node(node_id).0);
                Action::DynStart { node_id, parent_addr }
            },
            MastNode::External(_) => {
                assert(false);
                Action::SpanEnd { node_id }
            },
        }
    }

    /// Ends a node: returns the row to add.
    pub fn end_mast_node(&mut self, node_id: MastNodeId) -> (r: Action)
        requires
            old(self)@.can_end_node(node_id),
        ensures
            (final(self)@, r) == old(self)@.end_node(node_id),
    {
        let forest = self.forest.clone();
        match forest.get_node_by_id(node_id).unwrap() {
            MastNode::Block(_) => Action::SpanEnd { node_id },
            MastNode::Join(_) => Action::JoinEnd { node_id },
            MastNode::Split(_) => Action::SplitEnd { node_id },
            MastNode::Loop(node) => {
                let row = self.add_loop_end_trace_row(node, &*forest);
                Action::LoopRow { row }
            },
            MastNode::Call(_) => Action::CallEnd { node_id },
            MastNode::Dyn(_) => Action::DynEnd { node_id },
            MastNode::External(_) => {
                assert(false);
                Action::SpanEnd { node_id }
            },
        }
    }
}

impl CoreTraceFragmentGenerator {
    /// Sets up the decoder for a basic block whose SPAN row has been added.
    fn enter_span(&mut self, node_id: MastNodeId)
        requires
            old(self)@.has_block(node_id),
            old(self)@.block(node_id).wf(),
        ensures
            final(self)@ == old(self)@.span_entered(node_id),
    {
        let ghost before = self@;
        let forest = self.forest.clone();
        if let MastNode::Block(node) = forest.get_node_by_id(node_id).unwrap() {
            let num_groups_left_in_block = Felt::new(node.num_op_groups() as u32 as u64);
            self.span_context = Some(
                SpanContext {
                    group_ops_left: node.op_batches[0].groups[0],
                    num_groups_left: num_groups_left_in_block.sub(Felt::one()),
                },
            );
            self.tasks.push(Task::EndNode(node_id));
            self.tasks.push(Task::RunBatchesFrom { node_id, batch_index: 1 });
            self.tasks.push(Task::RunBatch { node_id, batch_index: 0, start_op_idx: 0 });
            proof {
                lemma_felt_view(1);
            }
            assert(self@ =~= before.span_entered(node_id));
        }
    }

    /// Puts the batches of a basic block, from the given one on, in front of all other work.
    fn run_batches_from(&mut self, node_id: MastNodeId, batch_index: usize)
        requires
            old(self)@.has_block(node_id),
        ensures
            final(self)@ == old(self)@.do_task(Task::RunBatchesFrom { node_id, batch_index }).0,
    {
        let ghost before = self@;
        let forest = self.forest.clone();
        if let MastNode::Block(node) = forest.get_node_by_id(node_id).unwrap() {
            if batch_index < node.num_op_batches() {
                self.tasks.push(Task::RunBatchesFrom { node_id, batch_index: batch_index + 1 });
                self.tasks.push(Task::RunBatch { node_id, batch_index, start_op_idx: 0 });
                self.tasks.push(Task::Respan { node_id, batch_index });
                assert(self@ =~= before.do_task(Task::RunBatchesFrom { node_id, batch_index }).0);
            }
        }
    }

    /// Puts the steps of a batch, from the given operation on, in front of all other work.
    fn run_batch(&mut self, node_id: MastNodeId, batch_index: usize, start_op_idx: usize)
        requires
            old(self)@.can_do((Task::RunBatch { node_id, batch_index, start_op_idx })),
        ensures
            final(self)@ == old(self)@.do_task(
                (Task::RunBatch { node_id, batch_index, start_op_idx }),
            ).0,
    {
        let ghost before = self@;
        let forest = self.forest.clone();
        if let MastNode::Block(node) = forest.get_node_by_id(node_id).unwrap() {
            let steps = execute_op_batch(&node.op_batches[batch_index], Some(start_op_idx));
            let ghost all = step_tasks(steps@);
            let n: usize = steps.len();
            let mut left: usize = n;
            while left > 0
                invariant
                    left <= n,
                    n == steps@.len(),
                    all == step_tasks(steps@),
                    self@ == before.then_tasks(all.take(n - left)),
                decreases left,
            {
                left = left - 1;
                self.tasks.push(Task::Step(steps[left]));
                assert(all.take(n - left) =~= all.take(n - left - 1).push(all[n - left - 1]));
                assert(self@ =~= before.then_tasks(all.take(n - left)));
            }
            assert(all.take(n as int) =~= all);
        }
    }

    /// Performs an operation, or returns the call that performs it, followed by the operation's
    /// trace row.
    pub fn execute_op(&mut self, op: Operation, op_idx_in_group: usize) -> (r: Action)
        requires
            !(handling(op) is FlowControl),
        ensures
            (final(self)@, Progress::Act(r)) == old(self)@.do_task(
                Task::Step(BatchStep::ExecuteOp { op, op_idx_in_group }),
            ),
    {
        let ghost before = self@;
        match self.dispatch_operation(&op) {
            None => Action::OperationRow { op, op_idx_in_group, user_op_helpers: None },
            Some(call) => {
                self.user_op_helpers = None;
                self.tasks.push(Task::AddOperationRow { op, op_idx_in_group });
                assert(self@ =~= (GeneratorView { user_op_helpers: None, ..before }).then_tasks(
                    seq![Task::AddOperationRow { op, op_idx_in_group }],
                ));
                Action::Perform { call }
            },
        }
    }

    /// Puts the child of a split node that the top of the stack selects in front of all other work.
    fn take_branch(&mut self, node_id: MastNodeId)
        requires
            old(self)@.can_do(Task::TakeBranch(node_id)),
        ensures
            final(self)@ == old(self)@.do_task(Task::TakeBranch(node_id)).0,
    {
        let ghost before = self@;
        let forest = self.forest.clone();
        if let MastNode::Split(node) = forest.get_node_by_id(node_id).unwrap() {
            if self.stack_get(0) == Felt::one() {
                self.tasks.push(Task::ExecuteNode(node.on_true));
            } else {
                self.tasks.push(Task::ExecuteNode(node.on_false));
            }
            assert(self@ =~= before.do_task(Task::TakeBranch(node_id)).0);
        }
    }

    /// Repeats the body of a loop if the top of the stack, which is removed, is 1. Otherwise ends
    /// the loop.
    fn test_loop(&mut self, node_id: MastNodeId) -> (r: Progress)
        requires
            old(self)@.can_do(Task::TestLoop(node_id)),
        ensures
            (final(self)@, r) == old(self)@.do_task(Task::TestLoop(node_id)),
    {
        let ghost before = self@;
        let forest = self.forest.clone();
        if let MastNode::Loop(node) = forest.get_node_by_id(node_id).unwrap() {
            let condition = self.stack_get(0) == Felt::one();
            self.decrement_stack_size();
            if condition {
                let addr = self.state.block_stack.peek().addr;
                let row = self.add_loop_repeat_trace_row(node, &*forest, addr);
                self.tasks.push(Task::TestLoop(node_id));
                self.tasks.push(Task::ExecuteNode(node.body));
                assert(self@ =~= before.do_task(Task::TestLoop(node_id)).0);
                return Progress::Act(Action::LoopRow { row });
            }
            self.tasks.push(Task::EndNode(node_id));
            assert(self@ =~= before.do_task(Task::TestLoop(node_id)).0);
        }
        Progress::Working
    }

    /// Repeats the body of a loop at the start of a fragment. The condition, which has been found to
    /// hold, leaves the stack as part of the REPEAT operation, before its row.
    fn repeat_loop(&mut self, node_id: MastNodeId) -> (r: Progress)
        requires
            old(self)@.can_do(Task::RepeatLoop(node_id)),
        ensures
            (final(self)@, r) == old(self)@.do_task(Task::RepeatLoop(node_id)),
    {
        let ghost before = self@;
        let forest = self.forest.clone();
        let addr = self.state.block_stack.peek().addr;
        if let MastNode::Loop(node) = forest.get_node_by_id(node_id).unwrap() {
            self.decrement_stack_size();
            self.tasks.push(Task::TestLoop(node_id));
            self.tasks.push(Task::ExecuteNode(node.body));
            assert(self@ =~= before.do_task(Task::RepeatLoop(node_id)).0);
        }
        Progress::Act(
            Action::FirstRepeatRow { node_id, opcode: FlowOperation::Repeat.op_code(), addr },
        )
    }

    /// Switches to the context of a call whose row has been added.
    fn enter_call(&mut self, node_id: MastNodeId)
        requires
            old(self)@.can_do(Task::EnterCall(node_id)),
        ensures
            final(self)@ == old(self)@.call_entered(node_id),
    {
        let ghost before = self@;
        let forest = self.forest.clone();
        if let MastNode::Call(node) = forest.get_node_by_id(node_id).unwrap() {
            let saved = self.state.system;
            if node.is_syscall {
                self.state.system.ctx = ContextId(0);
                self.state.system.fmp = Felt::new(SYSCALL_FMP_MIN as u64);
                self.state.system.in_syscall = true;
            } else {
                self.state.system.ctx = ContextId(self.state.system.clk);
                self.state.system.fmp = Felt::new(FMP_MIN);
                self.state.system.fn_hash = forest.get_node_by_id(node.callee).unwrap().digest();
            }
            self.tasks.push(Task::EndNode(node_id));
            self.tasks.push(
                Task::RestoreContext {
                    ctx: saved.ctx,
                    fmp: saved.fmp,
                    in_syscall: saved.in_syscall,
                    fn_hash: saved.fn_hash,
                },
            );
            self.tasks.push(Task::ExecuteNode(node.callee));
            assert(self@ =~= before.call_entered(node_id));
        }
    }

    /// Continues with the next recorded continuation.
    fn follow_continuation(&mut self)
        requires
            old(self)@.can_follow_continuations(),
        ensures
            final(self)@ == old(self)@.continuation_followed(),
    {
        let ghost before = self@;
        let forest = self.forest.clone();
        let next = self.state.traversal.pop_continuation();
        match next {
            None => {},
            Some(Continuation::StartNode(node_id)) => {
                if let MastNode::External(_) = forest.get_node_by_id(node_id).unwrap() {
                    let (resolved_node_id, resolved_forest) =
                        self.state.external_node_replay.replay_resolution();
                    // The current forest is gone back to when the resolved node is done.
                    self.state.traversal.push_enter_forest(forest);
                    self.forest = resolved_forest;
                    self.state.traversal.push_start_node(resolved_node_id);
                    self.tasks.push(Task::FollowContinuations);
                } else {
                    self.tasks.push(Task::ExecuteNode(node_id));
                }
                assert(self@ =~= before.continuation_followed());
            },
            Some(Continuation::FinishJoin(node_id))
            | Some(Continuation::FinishSplit(node_id))
            | Some(Continuation::FinishLoop(node_id))
            | Some(Continuation::FinishCall(node_id))
            | Some(Continuation::FinishDyn(node_id)) => {
                self.tasks.push(Task::FollowContinuations);
                self.tasks.push(Task::EndNode(node_id));
                assert(self@ =~= before.continuation_followed());
            },
            Some(Continuation::EnterForest(previous_forest)) => {
                self.forest = previous_forest;
                self.tasks.push(Task::FollowContinuations);
                assert(self@ =~= before.continuation_followed());
            },
        }
    }

    /// Executes the next task. If it leads to an action, the action is to be done, and its outcome
    /// to be handed back, before the next call.
    pub fn execute_next(&mut self) -> (r: Progress)
        requires
            old(self)@.ready(),
        ensures
            (final(self)@, r) == old(self)@.next(),
    {
        let ghost before = self@;
        match self.tasks.pop() {
            None => Progress::Done,
            Some(task) => {
                assert(self@ =~= before.without_next_task());
                match task {
                    Task::ExecuteNode(node_id) => Progress::Act(self.execute_mast_node(node_id)),
                    Task::EnterSpan(node_id) => {
                        self.enter_span(node_id);
                        Progress::Working
                    },
                    Task::RunBatchesFrom { node_id, batch_index } => {
                        self.run_batches_from(node_id, batch_index);
                        Progress::Working
                    },
                    Task::Respan { node_id, batch_index } => Progress::Act(
                        Action::Respan { node_id, batch_index },
                    ),
                    Task::RunBatch { node_id, batch_index, start_op_idx } => {
                        self.run_batch(node_id, batch_index, start_op_idx);
                        Progress::Working
                    },
                    Task::Step(BatchStep::ExecuteOp { op, op_idx_in_group }) => Progress::Act(
                        self.execute_op(op, op_idx_in_group),
                    ),
                    Task::Step(BatchStep::StartGroup { group }) => {
                        self.start_op_group(group);
                        Progress::Working
                    },
                    Task::AddOperationRow { op, op_idx_in_group } => {
                        let user_op_helpers = if has_helpers(&op) {
                            self.user_op_helpers
                        } else {
                            None
                        };
                        Progress::Act(Action::OperationRow { op, op_idx_in_group, user_op_helpers })
                    },
                    Task::TakeBranch(node_id) => {
                        self.take_branch(node_id);
                        Progress::Working
                    },
                    Task::TestLoop(node_id) => self.test_loop(node_id),
                    Task::RepeatLoop(node_id) => self.repeat_loop(node_id),
                    Task::EnterCall(node_id) => {
                        self.enter_call(node_id);
                        Progress::Working
                    },
                    Task::RestoreContext { ctx, fmp, in_syscall, fn_hash } => {
                        self.state.system.ctx = ctx;
                        self.state.system.fmp = fmp;
                        self.state.system.in_syscall = in_syscall;
                        self.state.system.fn_hash = fn_hash;
                        Progress::Working
                    },
                    Task::EndNode(node_id) => Progress::Act(self.end_mast_node(node_id)),
                    Task::FollowContinuations => {
                        self.follow_continuation();
                        Progress::Working
                    },
                }
            },
        }
    }

    /// Hands back that a row has been added. If no more rows fit, nothing is left to execute.
    pub fn row_added(&mut self)
        requires
            old(self)@.rows_built() >= 0,
        ensures
            final(self)@ == old(self)@.after_row(old(self)@.flow()),
    {
        if self.done_generating() {
            self.tasks.clear();
        }
    }

    /// Hands back that an operation has been performed, with its helper values. Its row needs them
    /// exactly if the operation yields some.
    pub fn operation_performed(&mut self, user_op_helpers: Option<[Felt; 6]>)
        ensures
            final(self)@ == (GeneratorView { user_op_helpers, ..old(self)@ }),
    {
        self.user_op_helpers = user_op_helpers;
    }

    /// Starts generating the fragment: execution goes on from where the state says that it stands.
    pub fn start_generation(&mut self)
        requires
            old(self)@.can_start_from(old(self)@.state.exec_phase),
        ensures
            final(self)@ == old(self)@.started_from(old(self)@.state.exec_phase),
    {
        let execution_phase = self.state.exec_phase;
        self.execute_fragment_generation(execution_phase);
    }

    /// Starts executing from the given phase on: completes the node that is being executed, and
    /// continues with what was left to execute. A node that is started executes all of this itself.
    pub fn execute_fragment_generation(&mut self, execution_phase: NodeExecutionPhase)
        requires
            old(self)@.can_start_from(execution_phase),
        ensures
            final(self)@ == old(self)@.started_from(execution_phase),
    {
        let ghost before = self@;
        let forest = self.state.initial_mast_forest.clone();
        match execution_phase {
            NodeExecutionPhase::BasicBlock {
                node_id,
                batch_index,
                op_idx_in_batch,
                needs_respan,
            } => {
                if let MastNode::Block(node) = forest.get_node_by_id(node_id).unwrap() {
                    self.span_context = Some(
                        initialize_span_context(node, batch_index, op_idx_in_batch),
                    );
                    self.tasks.push(Task::FollowContinuations);
                    self.tasks.push(Task::EndNode(node_id));
                    self.tasks.push(Task::RunBatchesFrom { node_id, batch_index: batch_index + 1 });
                    self.tasks.push(
                        Task::RunBatch { node_id, batch_index, start_op_idx: op_idx_in_batch },
                    );
                    if needs_respan {
                        self.tasks.push(Task::Respan { node_id, batch_index });
                    }
                }
                self.forest = forest;
            },
            NodeExecutionPhase::Start(node_id) => {
                self.forest = forest;
                self.tasks.push(Task::ExecuteNode(node_id));
            },
            NodeExecutionPhase::LoopRepeat(node_id) => {
                self.forest = forest;
                self.tasks.push(Task::FollowContinuations);
                self.tasks.push(Task::RepeatLoop(node_id));
            },
            NodeExecutionPhase::End(node_id) => {
                self.forest = forest;
                self.tasks.push(Task::FollowContinuations);
                self.tasks.push(Task::EndNode(node_id));
            },
        }
        assert(self@ =~= before.started_from(execution_phase));
    }
}

impl GeneratorView {
    /// What starting from a phase needs.
    pub open spec fn can_start_from(self, phase: NodeExecutionPhase) -> bool {
        let forest = self.state.initial_mast_forest;
        match phase {
            NodeExecutionPhase::BasicBlock {
                node_id,
                batch_index,
                op_idx_in_batch,
                needs_respan,
            } => {
                let node = forest.node(node_id)->Block_0;
                &&& forest.has(node_id)
                &&& forest.node(node_id) is Block
                &&& node.wf()
                &&& batch_index < node.op_batches@.len()
                &&& op_idx_in_batch < node.op_batches@[batch_index as int].runtime_positions().len()
                &&& groups_consumed(&node, batch_index as int, op_idx_in_batch as int)
                    <= node.op_group_count()
                &&& needs_respan ==> op_idx_in_batch == 0
            },
            NodeExecutionPhase::Start(_) => true,
            NodeExecutionPhase::LoopRepeat(_) => true,
            NodeExecutionPhase::End(_) => true,
        }
    }

    /// The generator with the tasks of completing a phase.
    pub open spec fn started_from(self, phase: NodeExecutionPhase) -> GeneratorView {
        let forest = self.state.initial_mast_forest;
        let within = GeneratorView { forest, ..self };
        match phase {
            NodeExecutionPhase::BasicBlock {
                node_id,
                batch_index,
                op_idx_in_batch,
                needs_respan,
            } => {
                let node = forest.node(node_id)->Block_0;
                let rest = seq![
                    Task::FollowContinuations,
                    Task::EndNode(node_id),
                    Task::RunBatchesFrom { node_id, batch_index: (batch_index + 1) as usize },
                    Task::RunBatch { node_id, batch_index, start_op_idx: op_idx_in_batch },
                ];
                GeneratorView {
                    span_context: Some(
                        span_context_at(&node, batch_index as int, op_idx_in_batch as int),
                    ),
                    ..within
                }.then_tasks(
                    if needs_respan {
                        rest.push(Task::Respan { node_id, batch_index })
                    } else {
                        rest
                    },
                )
            },
            NodeExecutionPhase::Start(node_id) => within.then_tasks(
                seq![Task::ExecuteNode(node_id)],
            ),
            NodeExecutionPhase::LoopRepeat(node_id) => within.then_tasks(
                seq![Task::FollowContinuations, Task::RepeatLoop(node_id)],
            ),
            NodeExecutionPhase::End(node_id) => within.then_tasks(
                seq![Task::FollowContinuations, Task::EndNode(node_id)],
            ),
        }
    }
}

} // verus!
