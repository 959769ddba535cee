//! Laws of executing nodes: how each kind of node starts and ends, and what it leads to.
use vstd::prelude::*;

use crate::block_stack::{BlockInfo, BlockType, ContextId, ExecutionContextInfo};
use crate::checkpoints::{CoreTraceStateView, NodeExecutionPhase, StackView, SystemState};
use crate::continuation_stack::Continuation;
use crate::executor::{Action, Progress};
use crate::felt::{Felt, Word, felt};
use crate::generator::GeneratorView;
use crate::loop_rows::TraceRowType;
use crate::mast::{
    BasicBlockNode, CallNode, DynNode, JoinNode, LoopNode, MastForest, MastNode, MastNodeId,
    SplitNode,
};
use crate::span::{SpanContext, span_context_at};
use crate::task::Task;

verus! {

/// Whether the forest of a generator holds this node under this identifier.
pub open spec fn holds_node(generator: GeneratorView, id: MastNodeId, node: MastNode) -> bool {
    id.0 < generator.forest.nodes@.len() && generator.forest.nodes@[id.0 as int] == node
}

/// Whether nothing but the stack, the block stack, the recorded block addresses and the tasks has
/// changed.
pub open spec fn only_blocks_changed(before: GeneratorView, after: GeneratorView) -> bool {
    &&& after.fragment_start_clk == before.fragment_start_clk
    &&& after.columns == before.columns
    &&& after.span_context == before.span_context
    &&& after.stack_rows == before.stack_rows
    &&& after.system_rows == before.system_rows
    &&& after.forest == before.forest
    &&& after.user_op_helpers == before.user_op_helpers
    &&& after.state.system == before.state.system
    &&& after.state.traversal == before.state.traversal
    &&& after.state.memory == before.state.memory
    &&& after.state.advice == before.state.advice
    &&& after.state.hasher.permutation_operations == before.state.hasher.permutation_operations
    &&& after.state.hasher.build_merkle_root_operations
        == before.state.hasher.build_merkle_root_operations
    &&& after.state.hasher.mrupdate_operations == before.state.hasher.mrupdate_operations
    &&& after.state.external_node_replay == before.state.external_node_replay
    &&& after.state.exec_phase == before.state.exec_phase
    &&& after.state.initial_mast_forest == before.state.initial_mast_forest
}

/// Whether a block has been started: it is the innermost one, it has the address that was recorded
/// for it, which is used up, and its parent is the block that was innermost before.
pub open spec fn has_started_block(
    before: GeneratorView,
    after: GeneratorView,
    block_type: BlockType,
    ctx_info: Option<ExecutionContextInfo>,
) -> bool {
    let old_blocks = before.state.block_stack;
    let blocks = after.state.block_stack;
    let addresses = before.state.hasher.block_addresses;
    &&& blocks.len() == old_blocks.len() + 1
    &&& forall|i: int| 0 <= i < old_blocks.len() ==> #[trigger] blocks[i] == old_blocks[i]
    &&& blocks[old_blocks.len() as int].addr == addresses[0]
    &&& blocks[old_blocks.len() as int].block_type == block_type
    &&& blocks[old_blocks.len() as int].parent_addr == parent_address(before)
    &&& blocks[old_blocks.len() as int].ctx_info == ctx_info
    &&& after.state.hasher.block_addresses == addresses.drop_first()
}

/// Address of the innermost block, or zero.
pub open spec fn parent_address(generator: GeneratorView) -> Felt {
    let blocks = generator.state.block_stack;
    if blocks.len() == 0 {
        felt(0)
    } else {
        blocks[blocks.len() - 1].addr
    }
}

/// Replacing the stack, the system state, the block stack or the continuations replaces nothing
/// else.
pub proof fn law_parts_of_the_state_are_replaced_alone(
    generator: GeneratorView,
    stack: StackView,
    system: SystemState,
    block_stack: Seq<BlockInfo>,
    traversal: Seq<Continuation>,
)
    ensures
        generator.with_stack(stack) == (GeneratorView {
            state: CoreTraceStateView { stack, ..generator.state },
            ..generator
        }),
        generator.with_system(system) == (GeneratorView {
            state: CoreTraceStateView { system, ..generator.state },
            ..generator
        }),
        generator.with_block_stack(block_stack) == (GeneratorView {
            state: CoreTraceStateView { block_stack, ..generator.state },
            ..generator
        }),
        generator.with_traversal(traversal) == (GeneratorView {
            state: CoreTraceStateView { traversal, ..generator.state },
            ..generator
        }),
{
}

/// A basic block starts with a SPAN row that tells the number of its groups. Then it is entered.
pub proof fn law_basic_blocks_start(
    generator: GeneratorView,
    id: MastNodeId,
    node: BasicBlockNode,
)
    requires
        holds_node(generator, id, MastNode::Block(node)),
        node.wf(),
        node.op_group_count() <= u32::MAX,
        generator.state.hasher.block_addresses.len() > 0,
    ensures
        generator.can_execute_node(id),
        ({
            let (after, action) = generator.execute_node(id);
            &&& has_started_block(generator, after, BlockType::Span, None)
            &&& only_blocks_changed(generator, after)
            &&& after.state.stack == generator.state.stack
            &&& after.tasks == generator.tasks.push(Task::EnterSpan(id))
            &&& action == (Action::SpanStart {
                node_id: id,
                num_groups_left: felt(node.op_group_count()),
                parent_addr: parent_address(generator),
            })
        }),
{
    crate::power::lemma_next_power_small(node.op_batches@.last().num_groups as nat);
    assert(node.op_batches@.last().wf());
    let after = generator.execute_node(id).0;
    assert(after.tasks =~= generator.tasks.push(Task::EnterSpan(id)));
    assert(after.state.hasher.block_addresses
        =~= generator.state.hasher.block_addresses.drop_first());
}

/// A join starts with its row. Then its first child is executed, its second child, and it ends.
pub proof fn law_joins_start(generator: GeneratorView, id: MastNodeId, node: JoinNode)
    requires
        holds_node(generator, id, MastNode::Join(node)),
        generator.state.hasher.block_addresses.len() > 0,
    ensures
        generator.can_execute_node(id),
        ({
            let (after, action) = generator.execute_node(id);
            &&& has_started_block(generator, after, BlockType::Join(false), None)
            &&& only_blocks_changed(generator, after)
            &&& after.state.stack == generator.state.stack
            &&& after.tasks == generator.tasks.push(Task::EndNode(id)).push(
                Task::ExecuteNode(node.second),
            ).push(Task::ExecuteNode(node.first))
            &&& action == (Action::JoinStart {
                node_id: id,
                parent_addr: parent_address(generator),
            })
        }),
{
    let after = generator.execute_node(id).0;
    assert(after.tasks =~= generator.tasks.push(Task::EndNode(id)).push(
        Task::ExecuteNode(node.second),
    ).push(Task::ExecuteNode(node.first)));
    assert(after.state.hasher.block_addresses
        =~= generator.state.hasher.block_addresses.drop_first());
}

/// A split starts with its row. Then a branch is taken, and the split ends.
pub proof fn law_splits_start(generator: GeneratorView, id: MastNodeId, node: SplitNode)
    requires
        holds_node(generator, id, MastNode::Split(node)),
        generator.state.hasher.block_addresses.len() > 0,
    ensures
        generator.can_execute_node(id),
        ({
            let (after, action) = generator.execute_node(id);
            &&& has_started_block(generator, after, BlockType::Split, None)
            &&& only_blocks_changed(generator, after)
            &&& after.state.stack == generator.state.stack
            &&& after.tasks == generator.tasks.push(Task::EndNode(id)).push(Task::TakeBranch(id))
            &&& action == (Action::SplitStart {
                node_id: id,
                parent_addr: parent_address(generator),
            })
        }),
{
    let after = generator.execute_node(id).0;
    assert(after.tasks =~= generator.tasks.push(Task::EndNode(id)).push(Task::TakeBranch(id)));
    assert(after.state.hasher.block_addresses
        =~= generator.state.hasher.block_addresses.drop_first());
}

/// The branch of a split that is executed is the first one exactly if the top of the stack is 1.
/// The stack stays as it is.
pub proof fn law_splits_branch_on_the_top_of_the_stack(
    generator: GeneratorView,
    id: MastNodeId,
    node: SplitNode,
)
    requires
        holds_node(generator, id, MastNode::Split(node)),
        generator.state.stack.top.len() == 16,
    ensures
        generator.can_do(Task::TakeBranch(id)),
        ({
            let (after, progress) = generator.do_task(Task::TakeBranch(id));
            let branch = if generator.state.stack.top[15] == felt(1) {
                node.on_true
            } else {
                node.on_false
            };
            &&& progress is Working
            &&& after == (GeneratorView {
                tasks: generator.tasks.push(Task::ExecuteNode(branch)),
                ..generator
            })
        }),
{
    let after = generator.do_task(Task::TakeBranch(id)).0;
    let branch = if generator.state.stack.top[15] == felt(1) {
        node.on_true
    } else {
        node.on_false
    };
    assert(after.tasks =~= generator.tasks.push(Task::ExecuteNode(branch)));
}

/// A loop removes its condition from the stack, and starts with a row that has the opcode of LOOP
/// and the digest of the body. If the condition is 1, the body is executed and the loop is tested;
/// otherwise it ends.
pub proof fn law_loops_start(generator: GeneratorView, id: MastNodeId, node: LoopNode, body: MastNode)
    requires
        holds_node(generator, id, MastNode::Loop(node)),
        holds_node(generator, node.body, body),
        generator.state.hasher.block_addresses.len() > 0,
        generator.state.stack.top.len() == 16,
    ensures
        generator.can_execute_node(id),
        ({
            let (after, action) = generator.execute_node(id);
            let enters = generator.state.stack.top[15] == felt(1);
            &&& has_started_block(generator, after, BlockType::Loop(enters), None)
            &&& only_blocks_changed(generator, after)
            &&& after.state.stack == generator.state.stack.shrink()
            &&& enters ==> after.tasks == generator.tasks.push(Task::TestLoop(id)).push(
                Task::ExecuteNode(node.body),
            )
            &&& !enters ==> after.tasks == generator.tasks.push(Task::EndNode(id))
            &&& action matches Action::LoopRow { row } && {
                &&& row.row_type == TraceRowType::Start
                &&& row.config.start_opcode == 0x55
                &&& row.config.start_hasher_state.0 == digest(body)
                &&& row.config.start_hasher_state.1@ == seq![felt(0), felt(0), felt(0), felt(0)]
                &&& row.config.end_node_digest == node.digest
                &&& row.config.addr == parent_address(generator)
                &&& row.config.block_info is None
            }
        }),
{
    let after = generator.execute_node(id).0;
    if generator.state.stack.top[15] == felt(1) {
        assert(after.tasks =~= generator.tasks.push(Task::TestLoop(id)).push(
            Task::ExecuteNode(node.body),
        ));
    } else {
        assert(after.tasks =~= generator.tasks.push(Task::EndNode(id)));
    }
    assert(after.state.hasher.block_addresses
        =~= generator.state.hasher.block_addresses.drop_first());
    assert(generator.execute_node(id).1->row.config.start_hasher_state.1@ =~= seq![
        felt(0),
        felt(0),
        felt(0),
        felt(0),
    ]);
}

/// The digest that a node holds.
pub open spec fn digest(node: MastNode) -> Word {
    match node {
        MastNode::Block(node) => node.digest,
        MastNode::Join(node) => node.digest,
        MastNode::Split(node) => node.digest,
        MastNode::Loop(node) => node.digest,
        MastNode::Call(node) => node.digest,
        MastNode::Dyn(node) => node.digest,
        MastNode::External(node) => node.digest,
    }
}

/// A forest finds its nodes by their index, and each node knows the digest that it holds.
pub proof fn law_nodes_are_found_by_index(forest: MastForest, id: MastNodeId)
    ensures
        forest.has(id) <==> id.0 < forest.nodes@.len(),
        forest.has(id) ==> forest.node(id) == forest.nodes@[id.0 as int],
        forest.has(id) ==> forest.node(id).digest_of() == digest(forest.nodes@[id.0 as int]),
{
}

/// After its body, a loop removes its condition from the stack. If the condition is 1, a REPEAT row
/// follows, which carries on the hasher state of the previous row and has the address of the loop;
/// then the body is executed and the loop is tested again. Otherwise the loop ends.
pub proof fn law_loops_repeat(generator: GeneratorView, id: MastNodeId, node: LoopNode)
    requires
        holds_node(generator, id, MastNode::Loop(node)),
        generator.state.stack.top.len() == 16,
        generator.state.stack.top[15] == felt(1),
        generator.state.block_stack.len() > 0,
        generator.has_previous_row(),
    ensures
        generator.can_do(Task::TestLoop(id)),
        ({
            let (after, progress) = generator.do_task(Task::TestLoop(id));
            let last = generator.state.system.clk - generator.fragment_start_clk - 1;
            &&& after == (GeneratorView {
                tasks: generator.tasks.push(Task::TestLoop(id)).push(Task::ExecuteNode(node.body)),
                ..generator.with_stack(generator.state.stack.shrink())
            })
            &&& progress matches Progress::Act(Action::LoopRow { row }) && {
                &&& row.row_type == TraceRowType::Start
                &&& row.config.start_opcode == 0x74
                &&& forall|i: int|
                    0 <= i < 4 ==> #[trigger] row.config.start_hasher_state.0@[i]
                        == generator.columns[16 + i][last]
                &&& forall|i: int|
                    0 <= i < 4 ==> #[trigger] row.config.start_hasher_state.1@[i]
                        == generator.columns[20 + i][last]
                &&& row.config.end_node_digest == node.digest
                &&& row.config.addr == parent_address(generator)
                &&& row.config.block_info is None
            }
        }),
{
    let after = generator.do_task(Task::TestLoop(id)).0;
    assert(after.tasks =~= generator.tasks.push(Task::TestLoop(id)).push(
        Task::ExecuteNode(node.body),
    ));
}

/// A loop whose condition is not 1 removes it from the stack and ends.
pub proof fn law_loops_are_left(generator: GeneratorView, id: MastNodeId, node: LoopNode)
    requires
        holds_node(generator, id, MastNode::Loop(node)),
        generator.state.stack.top.len() == 16,
        generator.state.stack.top[15] != felt(1),
    ensures
        generator.can_do(Task::TestLoop(id)),
        generator.do_task(Task::TestLoop(id)) == (
            GeneratorView {
                tasks: generator.tasks.push(Task::EndNode(id)),
                ..generator.with_stack(generator.state.stack.shrink())
            },
            Progress::Working,
        ),
{
    let after = generator.do_task(Task::TestLoop(id)).0;
    assert(after.tasks =~= generator.tasks.push(Task::EndNode(id)));
}

/// A call starts a stack context: the callee sees the top of the stack, and no overflow of the
/// caller. Its block keeps the state of the caller: context, function hash, free memory pointer,
/// stack depth and the address of the top of the overflow table. Then the call is entered.
pub proof fn law_calls_start(generator: GeneratorView, id: MastNodeId, node: CallNode)
    requires
        holds_node(generator, id, MastNode::Call(node)),
        generator.state.hasher.block_addresses.len() > 0,
        generator.state.stack.fits(),
        generator.state.stack.overflow.current.len() + 16 <= u32::MAX,
    ensures
        generator.can_execute_node(id),
        ({
            let (after, action) = generator.execute_node(id);
            let caller = generator.state.stack;
            let callee = after.state.stack;
            let block_type = if node.is_syscall {
                BlockType::SysCall
            } else {
                BlockType::Call
            };
            &&& has_started_block(generator, after, block_type, suspended_context(generator))
            &&& only_blocks_changed(generator, after)
            &&& callee.depth() == 16
            &&& callee.top == caller.top
            &&& callee.overflow.current.len() == 0
            &&& callee.overflow.suspended == caller.overflow.suspended.push(caller.overflow.current)
            &&& callee.overflow.clk == caller.overflow.clk
            &&& after.tasks == generator.tasks.push(Task::EnterCall(id))
            &&& action == (Action::CallStart {
                node_id: id,
                parent_addr: parent_address(generator),
            })
        }),
{
    let after = generator.execute_node(id).0;
    assert(after.tasks =~= generator.tasks.push(Task::EnterCall(id)));
    assert(after.state.hasher.block_addresses
        =~= generator.state.hasher.block_addresses.drop_first());
}

/// The state of the current context, as a block that suspends it keeps it.
pub open spec fn suspended_context(generator: GeneratorView) -> Option<ExecutionContextInfo> {
    let system = generator.state.system;
    let table = generator.state.stack.overflow.current;
    Some(
        ExecutionContextInfo {
            parent_ctx: system.ctx,
            parent_fn_hash: system.fn_hash,
            parent_fmp: system.fmp,
            parent_stack_depth: (16 + table.len()) as u32,
            parent_next_overflow_addr: if table.len() == 0 {
                felt(0)
            } else {
                felt(table[table.len() - 1].clk as int)
            },
        },
    )
}

/// Entering a call that is no system call switches to a context that is numbered by the clock cycle,
/// with the free memory pointer at 2^30 and the hash of the callee. Then the callee is executed, the
/// context restored, and the call ends.
pub proof fn law_calls_are_entered(
    generator: GeneratorView,
    id: MastNodeId,
    node: CallNode,
    callee: MastNode,
)
    requires
        holds_node(generator, id, MastNode::Call(node)),
        holds_node(generator, node.callee, callee),
    ensures
        generator.can_do(Task::EnterCall(id)),
        ({
            let (after, progress) = generator.do_task(Task::EnterCall(id));
            let old_system = generator.state.system;
            let system = after.state.system;
            &&& progress is Working
            &&& system.clk == old_system.clk
            &&& !node.is_syscall ==> {
                &&& system.ctx == ContextId(old_system.clk)
                &&& system.fmp == felt(0x4000_0000)
                &&& system.fn_hash == digest(callee)
                &&& system.in_syscall == old_system.in_syscall
            }
            &&& node.is_syscall ==> {
                &&& system.ctx == ContextId(0)
                &&& system.fmp == felt(0x8000_0000)
                &&& system.fn_hash == old_system.fn_hash
                &&& system.in_syscall
            }
            &&& after == (GeneratorView {
                tasks: generator.tasks.push(Task::EndNode(id)).push(
                    Task::RestoreContext {
                        ctx: old_system.ctx,
                        fmp: old_system.fmp,
                        in_syscall: old_system.in_syscall,
                        fn_hash: old_system.fn_hash,
                    },
                ).push(Task::ExecuteNode(node.callee)),
                ..generator.with_system(system)
            })
        }),
{
    let after = generator.do_task(Task::EnterCall(id)).0;
    let old_system = generator.state.system;
    assert(after.tasks =~= generator.tasks.push(Task::EndNode(id)).push(
        Task::RestoreContext {
            ctx: old_system.ctx,
            fmp: old_system.fmp,
            in_syscall: old_system.in_syscall,
            fn_hash: old_system.fn_hash,
        },
    ).push(Task::ExecuteNode(node.callee)));
}

/// Restoring a context sets what makes it up and changes nothing else.
pub proof fn law_contexts_are_restored(
    generator: GeneratorView,
    ctx: ContextId,
    fmp: Felt,
    in_syscall: bool,
    fn_hash: Word,
)
    ensures
        ({
            let task = Task::RestoreContext { ctx, fmp, in_syscall, fn_hash };
            let (after, progress) = generator.do_task(task);
            let system = after.state.system;
            &&& generator.can_do(task)
            &&& progress is Working
            &&& system.ctx == ctx
            &&& system.fmp == fmp
            &&& system.in_syscall == in_syscall
            &&& system.fn_hash == fn_hash
            &&& system.clk == generator.state.system.clk
            &&& after == generator.with_system(system)
        }),
{
}

/// A dynamic node starts with its row and ends right after. A dynamic call removes the top of the
/// stack, which names its target, and starts a stack context, as a call does; its block keeps the
/// state of the caller.
pub proof fn law_dynamic_nodes_start(generator: GeneratorView, id: MastNodeId, node: DynNode)
    requires
        holds_node(generator, id, MastNode::Dyn(node)),
        generator.state.hasher.block_addresses.len() > 0,
        generator.state.stack.fits(),
        generator.state.stack.overflow.current.len() + 16 <= u32::MAX,
        generator.state.stack.top.len() == 16,
    ensures
        generator.can_execute_node(id),
        ({
            let (after, action) = generator.execute_node(id);
            let caller = generator.state.stack;
            let callee = after.state.stack;
            &&& only_blocks_changed(generator, after)
            &&& !node.is_dyncall ==> {
                &&& has_started_block(generator, after, BlockType::Dyn, None)
                &&& callee == caller
            }
            &&& node.is_dyncall ==> {
                &&& has_started_block(
                    generator,
                    after,
                    BlockType::Dyncall,
                    suspended_context(generator),
                )
                &&& callee == caller.shift_left_and_start_context()
                &&& callee.depth() == 16
                &&& forall|k: int| 0 <= k < 15 ==> callee.top[k + 1] == #[trigger] caller.top[k]
                &&& callee.overflow.current.len() == 0
                &&& callee.overflow.suspended.len() == caller.overflow.suspended.len() + 1
            }
            &&& after.tasks == generator.tasks.push(Task::EndNode(id))
            &&& action == (Action::DynStart {
                node_id: id,
                parent_addr: parent_address(generator),
            })
        }),
{
    let after = generator.execute_node(id).0;
    assert(after.tasks =~= generator.tasks.push(Task::EndNode(id)));
    assert(after.state.hasher.block_addresses
        =~= generator.state.hasher.block_addresses.drop_first());
}

/// Each node ends with the row of its own kind. A loop's row has the address of the innermost block,
/// which leaves the block stack, and the digest of the loop; the other rows change nothing.
pub proof fn law_nodes_end_with_their_own_row(
    generator: GeneratorView,
    id: MastNodeId,
    node: MastNode,
)
    requires
        holds_node(generator, id, node),
        !(node is External),
        node matches MastNode::Loop(inner) ==> generator.state.block_stack.len() > 0
            && generator.forest.has(inner.body),
    ensures
        generator.can_do(Task::EndNode(id)),
        ({
            let (after, progress) = generator.do_task(Task::EndNode(id));
            let blocks = generator.state.block_stack;
            &&& node is Block ==> after == generator && progress == Progress::Act(
                Action::SpanEnd { node_id: id },
            )
            &&& node is Join ==> after == generator && progress == Progress::Act(
                Action::JoinEnd { node_id: id },
            )
            &&& node is Split ==> after == generator && progress == Progress::Act(
                Action::SplitEnd { node_id: id },
            )
            &&& node is Call ==> after == generator && progress == Progress::Act(
                Action::CallEnd { node_id: id },
            )
            &&& node is Dyn ==> after == generator && progress == Progress::Act(
                Action::DynEnd { node_id: id },
            )
            &&& node is Loop ==> {
                &&& after == generator.with_block_stack(blocks.take(blocks.len() - 1))
                &&& progress matches Progress::Act(Action::LoopRow { row }) && {
                    &&& row.row_type == TraceRowType::End
                    &&& row.config.addr == blocks[blocks.len() - 1].addr
                    &&& row.config.block_info == Some(blocks[blocks.len() - 1])
                    &&& row.config.end_node_digest == digest(node)
                    &&& row.config.start_opcode == 0x55
                    &&& row.config.start_hasher_state.0 == digest(
                        generator.forest.nodes@[node->Loop_0.body.0 as int],
                    )
                    &&& row.config.start_hasher_state.1@ == seq![felt(0), felt(0), felt(0), felt(0)]
                }
            }
        }),
{
    let blocks = generator.state.block_stack;
    if blocks.len() > 0 {
        assert(blocks.drop_last() =~= blocks.take(blocks.len() - 1));
    }
    assert([felt(0), felt(0), felt(0), felt(0)]@ =~= seq![felt(0), felt(0), felt(0), felt(0)]);
}

/// Entering a basic block gives the decoder the first group, and one group less than the block has,
/// since SPAN consumes one. Then the batches run, the first one without RESPAN, and the block ends.
pub proof fn law_basic_blocks_are_entered(
    generator: GeneratorView,
    id: MastNodeId,
    node: BasicBlockNode,
)
    requires
        holds_node(generator, id, MastNode::Block(node)),
        node.wf(),
        node.op_group_count() <= u32::MAX,
    ensures
        generator.can_do(Task::EnterSpan(id)),
        ({
            let (after, progress) = generator.do_task(Task::EnterSpan(id));
            &&& progress is Working
            &&& after == (GeneratorView {
                span_context: Some(
                    SpanContext {
                        group_ops_left: node.op_batches@[0].groups@[0],
                        num_groups_left: felt(node.op_group_count() - 1),
                    },
                ),
                tasks: generator.tasks.push(Task::EndNode(id)).push(
                    Task::RunBatchesFrom { node_id: id, batch_index: 1 },
                ).push(Task::RunBatch { node_id: id, batch_index: 0, start_op_idx: 0 }),
                ..generator
            })
        }),
{
    assert(node.op_batches@.last().wf());
    crate::power::lemma_next_power_small(node.op_batches@.last().num_groups as nat);
    crate::felt::lemma_felt_view(node.op_group_count());
    let after = generator.do_task(Task::EnterSpan(id)).0;
    assert(after.tasks =~= generator.tasks.push(Task::EndNode(id)).push(
        Task::RunBatchesFrom { node_id: id, batch_index: 1 },
    ).push(Task::RunBatch { node_id: id, batch_index: 0, start_op_idx: 0 }));
}

/// Every further batch of a basic block has a RESPAN row before it; after the last one nothing of
/// the batches is left.
pub proof fn law_batches_follow_each_other(
    generator: GeneratorView,
    id: MastNodeId,
    node: BasicBlockNode,
    batch_index: usize,
)
    requires
        holds_node(generator, id, MastNode::Block(node)),
    ensures
        ({
            let task = Task::RunBatchesFrom { node_id: id, batch_index };
            let (after, progress) = generator.do_task(task);
            &&& generator.can_do(task)
            &&& progress is Working
            &&& batch_index >= node.op_batches@.len() ==> after == generator
            &&& batch_index < node.op_batches@.len() ==> after == (GeneratorView {
                tasks: generator.tasks.push(
                    Task::RunBatchesFrom { node_id: id, batch_index: (batch_index + 1) as usize },
                ).push(Task::RunBatch { node_id: id, batch_index, start_op_idx: 0 }).push(
                    Task::Respan { node_id: id, batch_index },
                ),
                ..generator
            })
        }),
        batch_index < node.op_batches@.len() ==> generator.do_task(
            (Task::Respan { node_id: id, batch_index }),
        ) == (generator, Progress::Act(Action::Respan { node_id: id, batch_index })),
{
    if batch_index < node.op_batches@.len() {
        let after = generator.do_task((Task::RunBatchesFrom { node_id: id, batch_index })).0;
        assert(after.tasks =~= generator.tasks.push(
            Task::RunBatchesFrom { node_id: id, batch_index: (batch_index + 1) as usize },
        ).push(Task::RunBatch { node_id: id, batch_index, start_op_idx: 0 }).push(
            Task::Respan { node_id: id, batch_index },
        ));
    }
}

/// What is done next is the last task, and it is taken off first.
pub proof fn law_the_last_task_is_next(generator: GeneratorView, task: Task)
    ensures
        (GeneratorView { tasks: generator.tasks.push(task), ..generator }).ready()
            <==> generator.can_do(task),
        (GeneratorView { tasks: generator.tasks.push(task), ..generator }).next()
            == generator.do_task(task),
        generator.tasks.len() == 0 ==> generator.next() == (generator, Progress::Done),
{
    let whole = GeneratorView { tasks: generator.tasks.push(task), ..generator };
    assert(whole.without_next_task() =~= generator);
    lemma_readiness_ignores_tasks(generator, whole, task);
}

proof fn lemma_readiness_ignores_tasks(a: GeneratorView, b: GeneratorView, task: Task)
    requires
        b == (GeneratorView { tasks: b.tasks, ..a }),
    ensures
        a.can_do(task) == b.can_do(task),
{
}

// CONTINUATIONS
// ================================================================================================

/// A continuation that finishes a node leads to the row that ends this node, and then to the next
/// continuation. Nothing else changes.
pub proof fn law_continuations_finish_their_nodes(
    generator: GeneratorView,
    left: Seq<Continuation>,
    continuation: Continuation,
    id: MastNodeId,
    node: MastNode,
)
    requires
        holds_node(generator, id, node),
        generator.state.traversal == left.push(continuation),
        match continuation {
            Continuation::FinishJoin(n) => n == id && node is Join,
            Continuation::FinishSplit(n) => n == id && node is Split,
            Continuation::FinishLoop(n) => n == id && node is Loop,
            Continuation::FinishCall(n) => n == id && node is Call,
            Continuation::FinishDyn(n) => n == id && node is Dyn,
            _ => false,
        },
    ensures
        generator.can_do(Task::FollowContinuations),
        generator.do_task(Task::FollowContinuations) == (
            GeneratorView {
                tasks: generator.tasks.push(Task::FollowContinuations).push(Task::EndNode(id)),
                ..generator.with_traversal(left)
            },
            Progress::Working,
        ),
{
    let after = generator.do_task(Task::FollowContinuations).0;
    assert(left.push(continuation).drop_last() =~= left);
    assert(after.tasks =~= generator.tasks.push(Task::FollowContinuations).push(
        Task::EndNode(id),
    ));
}

/// After a continuation that finishes a node has been followed, the next thing that is done is to add
/// the row that ends this node. Then the next continuation is followed.
pub proof fn law_finishing_adds_the_row_that_ends_the_node(
    generator: GeneratorView,
    left: Seq<Continuation>,
    id: MastNodeId,
    node: MastNode,
)
    requires
        holds_node(generator, id, node),
        match node {
            MastNode::Join(_) => generator.state.traversal == left.push(
                Continuation::FinishJoin(id),
            ),
            MastNode::Split(_) => generator.state.traversal == left.push(
                Continuation::FinishSplit(id),
            ),
            MastNode::Loop(inner) => generator.state.traversal == left.push(
                Continuation::FinishLoop(id),
            ) && generator.state.block_stack.len() > 0 && generator.forest.has(inner.body),
            MastNode::Call(_) => generator.state.traversal == left.push(
                Continuation::FinishCall(id),
            ),
            MastNode::Dyn(_) => generator.state.traversal == left.push(Continuation::FinishDyn(id)),
            _ => false,
        },
    ensures
        ({
            let followed = generator.do_task(Task::FollowContinuations).0;
            let (ending, progress) = followed.next();
            let blocks = generator.state.block_stack;
            &&& followed.ready()
            &&& ending.tasks == generator.tasks.push(Task::FollowContinuations)
            &&& ending.state.traversal == left
            &&& node is Join ==> progress == Progress::Act(Action::JoinEnd { node_id: id })
            &&& node is Split ==> progress == Progress::Act(Action::SplitEnd { node_id: id })
            &&& node is Call ==> progress == Progress::Act(Action::CallEnd { node_id: id })
            &&& node is Dyn ==> progress == Progress::Act(Action::DynEnd { node_id: id })
            &&& node is Loop ==> {
                &&& progress matches Progress::Act(Action::LoopRow { row }) && row.row_type
                    == TraceRowType::End && row.config.addr == blocks[blocks.len() - 1].addr
                    && row.config.end_node_digest == digest(node)
            }
        }),
{
    let continuation = match node {
        MastNode::Join(_) => Continuation::FinishJoin(id),
        MastNode::Split(_) => Continuation::FinishSplit(id),
        MastNode::Loop(_) => Continuation::FinishLoop(id),
        MastNode::Call(_) => Continuation::FinishCall(id),
        _ => Continuation::FinishDyn(id),
    };
    law_continuations_finish_their_nodes(generator, left, continuation, id, node);
    let waiting = GeneratorView {
        tasks: generator.tasks.push(Task::FollowContinuations),
        ..generator.with_traversal(left)
    };
    law_the_last_task_is_next(waiting, Task::EndNode(id));
    law_nodes_end_with_their_own_row(waiting, id, node);
}

/// A continuation that starts a node leads to executing it, and no continuation is followed after
/// that. An external node is replaced by its recorded resolution, which is used up: the forest is
/// that of the resolution, and the current forest is gone back to after the resolved node.
pub proof fn law_continuations_start_their_nodes(
    generator: GeneratorView,
    left: Seq<Continuation>,
    id: MastNodeId,
    node: MastNode,
)
    requires
        holds_node(generator, id, node),
        generator.state.traversal == left.push(Continuation::StartNode(id)),
        node is External ==> generator.state.external_node_replay.len() > 0,
    ensures
        generator.can_do(Task::FollowContinuations),
        ({
            let (after, progress) = generator.do_task(Task::FollowContinuations);
            let resolution = generator.state.external_node_replay[0];
            &&& progress is Working
            &&& !(node is External) ==> after == (GeneratorView {
                tasks: generator.tasks.push(Task::ExecuteNode(id)),
                ..generator.with_traversal(left)
            })
            &&& node is External ==> after == (GeneratorView {
                forest: resolution.1,
                tasks: generator.tasks.push(Task::FollowContinuations),
                state: CoreTraceStateView {
                    traversal: left.push(Continuation::EnterForest(generator.forest)).push(
                        Continuation::StartNode(resolution.0),
                    ),
                    external_node_replay: generator.state.external_node_replay.drop_first(),
                    ..generator.state
                },
                ..generator
            })
        }),
{
    let after = generator.do_task(Task::FollowContinuations).0;
    assert(left.push(Continuation::StartNode(id)).drop_last() =~= left);
    if node is External {
        assert(after.tasks =~= generator.tasks.push(Task::FollowContinuations));
        assert(after.state.external_node_replay
            =~= generator.state.external_node_replay.drop_first());
    } else {
        assert(after.tasks =~= generator.tasks.push(Task::ExecuteNode(id)));
    }
}

/// A continuation that enters a forest does so, and the next continuation is followed. When there is
/// none left, nothing is done.
pub proof fn law_continuations_enter_forests(
    generator: GeneratorView,
    left: Seq<Continuation>,
    forest: std::sync::Arc<MastForest>,
)
    ensures
        generator.state.traversal == left.push(Continuation::EnterForest(forest)) ==> {
            &&& generator.can_do(Task::FollowContinuations)
            &&& generator.do_task(Task::FollowContinuations) == (
                GeneratorView {
                    forest,
                    tasks: generator.tasks.push(Task::FollowContinuations),
                    ..generator.with_traversal(left)
                },
                Progress::Working,
            )
        },
        generator.state.traversal.len() == 0 ==> {
            &&& generator.can_do(Task::FollowContinuations)
            &&& generator.do_task(Task::FollowContinuations) == (generator, Progress::Working)
        },
{
    if generator.state.traversal == left.push(Continuation::EnterForest(forest)) {
        let after = generator.do_task(Task::FollowContinuations).0;
        assert(left.push(Continuation::EnterForest(forest)).drop_last() =~= left);
        assert(after.tasks =~= generator.tasks.push(Task::FollowContinuations));
    }
}

/// A fragment that starts within a basic block sets up the decoder for the operation that it starts
/// with. Then the rest of the batch runs, with RESPAN before it if needed, the batches after it, the
/// block ends, and the continuations are followed.
pub proof fn law_fragments_start_within_blocks(
    generator: GeneratorView,
    id: MastNodeId,
    node: BasicBlockNode,
    batch_index: usize,
    op_idx_in_batch: usize,
    needs_respan: bool,
)
    requires
        generator.tasks.len() == 0,
        id.0 < generator.state.initial_mast_forest.nodes@.len(),
        generator.state.initial_mast_forest.nodes@[id.0 as int] == MastNode::Block(node),
        batch_index < usize::MAX,
    ensures
        ({
            let rest = Task::RunBatchesFrom { node_id: id, batch_index: (batch_index + 1) as usize };
            let run = Task::RunBatch { node_id: id, batch_index, start_op_idx: op_idx_in_batch };
            let respan = Task::Respan { node_id: id, batch_index };
            generator.started_from(
                (NodeExecutionPhase::BasicBlock {
                    node_id: id,
                    batch_index,
                    op_idx_in_batch,
                    needs_respan,
                }),
            ) == (GeneratorView {
                forest: generator.state.initial_mast_forest,
                span_context: Some(
                    span_context_at(&node, batch_index as int, op_idx_in_batch as int),
                ),
                tasks: if needs_respan {
                    seq![Task::FollowContinuations, Task::EndNode(id), rest, run, respan]
                } else {
                    seq![Task::FollowContinuations, Task::EndNode(id), rest, run]
                },
                ..generator
            })
        }),
{
    let rest = Task::RunBatchesFrom { node_id: id, batch_index: (batch_index + 1) as usize };
    let run = Task::RunBatch { node_id: id, batch_index, start_op_idx: op_idx_in_batch };
    let respan = Task::Respan { node_id: id, batch_index };
    let started = generator.started_from(
        (NodeExecutionPhase::BasicBlock {
            node_id: id,
            batch_index,
            op_idx_in_batch,
            needs_respan,
        }),
    );
    if needs_respan {
        assert(started.tasks =~= seq![
            Task::FollowContinuations,
            Task::EndNode(id),
            rest,
            run,
            respan,
        ]);
    } else {
        assert(started.tasks =~= seq![Task::FollowContinuations, Task::EndNode(id), rest, run]);
    }
}

/// A fragment that starts with a node executes it. One that starts with the end of a node, or with
/// the repetition of a loop, does that and then follows the continuations. All this is done in the
/// forest of the state.
pub proof fn law_fragments_start_with_their_phase(generator: GeneratorView, id: MastNodeId)
    requires
        generator.tasks.len() == 0,
    ensures
        ({
            let within = GeneratorView {
                forest: generator.state.initial_mast_forest,
                ..generator
            };
            &&& generator.can_start_from(NodeExecutionPhase::Start(id))
            &&& generator.started_from(NodeExecutionPhase::Start(id)) == (GeneratorView {
                tasks: seq![Task::ExecuteNode(id)],
                ..within
            })
            &&& generator.can_start_from(NodeExecutionPhase::End(id))
            &&& generator.started_from(NodeExecutionPhase::End(id)) == (GeneratorView {
                tasks: seq![Task::FollowContinuations, Task::EndNode(id)],
                ..within
            })
            &&& generator.can_start_from(NodeExecutionPhase::LoopRepeat(id))
            &&& generator.started_from(NodeExecutionPhase::LoopRepeat(id)) == (GeneratorView {
                tasks: seq![Task::FollowContinuations, Task::RepeatLoop(id)],
                ..within
            })
        }),
{
    assert(generator.started_from(NodeExecutionPhase::Start(id)).tasks =~= seq![
        Task::ExecuteNode(id),
    ]);
    assert(generator.started_from(NodeExecutionPhase::End(id)).tasks =~= seq![
        Task::FollowContinuations,
        Task::EndNode(id),
    ]);
    assert(generator.started_from(NodeExecutionPhase::LoopRepeat(id)).tasks =~= seq![
        Task::FollowContinuations,
        Task::RepeatLoop(id),
    ]);
}

} // verus!
