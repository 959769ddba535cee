//! Laws of what tasks, nodes and phases need: no more, and no less.
use vstd::prelude::*;

use crate::checkpoints::NodeExecutionPhase;
use crate::continuation_stack::Continuation;
use crate::felt::{Felt, felt};
use crate::generator::GeneratorView;
use crate::mast::{MastNode, MastNodeId};
use crate::op_batch::BatchStep;
use crate::operation::Operation;
use crate::span::groups_consumed;
use crate::task::Task;

verus! {

/// A node can be executed exactly if the forest has it, the address of its block was recorded, and
/// what its kind needs is there: valid batches, the body of a loop, or a stack depth that can be
/// represented. External nodes are not executed.
pub proof fn law_nodes_that_can_be_executed(generator: GeneratorView, id: MastNodeId)
    ensures
        generator.can_do(Task::ExecuteNode(id)) <==> {
            let nodes = generator.forest.nodes@;
            let depth = 16 + generator.state.stack.overflow.current.len();
            let fits = depth < 0xffff_ffff_0000_0001 && depth <= usize::MAX;
            &&& id.0 < nodes.len()
            &&& generator.state.hasher.block_addresses.len() > 0
            &&& !(nodes[id.0 as int] is External)
            &&& nodes[id.0 as int] matches MastNode::Block(node) ==> node.wf()
            &&& nodes[id.0 as int] matches MastNode::Loop(node) ==> node.body.0 < nodes.len()
            &&& nodes[id.0 as int] is Call ==> fits
            &&& nodes[id.0 as int] matches MastNode::Dyn(node) ==> (node.is_dyncall ==> fits)
        },
{
}

/// A node can end exactly if the forest has it and it is no external node. The end of a loop also
/// needs the body of the loop and a block that ends.
pub proof fn law_nodes_that_can_end(generator: GeneratorView, id: MastNodeId)
    ensures
        generator.can_do(Task::EndNode(id)) <==> {
            let nodes = generator.forest.nodes@;
            &&& id.0 < nodes.len()
            &&& !(nodes[id.0 as int] is External)
            &&& nodes[id.0 as int] matches MastNode::Loop(node) ==> node.body.0 < nodes.len()
                && generator.state.block_stack.len() > 0
        },
{
}

/// Continuations can be followed exactly if there are none, or if the next one enters a forest, or
/// names a node of the kind that it finishes, or starts a node, for which a resolution is recorded if
/// it is external.
pub proof fn law_continuations_that_can_be_followed(generator: GeneratorView)
    ensures
        generator.can_do(Task::FollowContinuations) <==> {
            let nodes = generator.forest.nodes@;
            let left = generator.state.traversal;
            let next = left[left.len() - 1];
            ||| left.len() == 0
            ||| next is EnterForest
            ||| next matches Continuation::FinishJoin(id) && id.0 < nodes.len()
                && nodes[id.0 as int] is Join
            ||| next matches Continuation::FinishSplit(id) && id.0 < nodes.len()
                && nodes[id.0 as int] is Split
            ||| next matches Continuation::FinishLoop(id) && id.0 < nodes.len()
                && nodes[id.0 as int] is Loop
            ||| next matches Continuation::FinishCall(id) && id.0 < nodes.len()
                && nodes[id.0 as int] is Call
            ||| next matches Continuation::FinishDyn(id) && id.0 < nodes.len()
                && nodes[id.0 as int] is Dyn
            ||| next matches Continuation::StartNode(id) && id.0 < nodes.len() && (nodes[id.0 as int]
                is External ==> generator.state.external_node_replay.len() > 0)
        },
{
}

/// Tasks of a basic block need the block, with the batch that they are about.
pub proof fn law_tasks_of_blocks_need_the_block(
    generator: GeneratorView,
    id: MastNodeId,
    batch_index: usize,
    start_op_idx: usize,
)
    ensures
        ({
            let nodes = generator.forest.nodes@;
            let node = nodes[id.0 as int];
            let has_block = id.0 < nodes.len() && node is Block;
            let batches = node->Block_0.op_batches@;
            let run = Task::RunBatch { node_id: id, batch_index, start_op_idx };
            &&& generator.can_do(Task::EnterSpan(id)) <==> has_block && node->Block_0.wf()
            &&& generator.can_do((Task::RunBatchesFrom { node_id: id, batch_index })) <==> has_block
            &&& generator.can_do((Task::Respan { node_id: id, batch_index })) <==> has_block
                && batch_index < batches.len()
            &&& generator.can_do(run) <==> has_block && batch_index < batches.len()
                && batches[batch_index as int].wf()
        }),
{
}

/// Tasks of splits, loops and calls need a node of that kind. A loop that is repeated needs a block
/// that it is executed in and the row before; a call needs its callee.
pub proof fn law_tasks_of_nodes_need_the_node(generator: GeneratorView, id: MastNodeId)
    requires
        generator.state.stack.top.len() == 16,
    ensures
        ({
            let nodes = generator.forest.nodes@;
            let node = nodes[id.0 as int];
            let has = id.0 < nodes.len();
            let within_block = generator.state.block_stack.len() > 0;
            let built = generator.state.system.clk - generator.fragment_start_clk;
            let has_row = built >= 1 && generator.columns.len() == 51 && forall|c: int|
                0 <= c < 51 ==> built <= (#[trigger] generator.columns[c]).len();
            &&& generator.can_do(Task::TakeBranch(id)) <==> has && node is Split
            &&& generator.can_do(Task::TestLoop(id)) <==> has && node is Loop && (
            generator.state.stack.top[15] == felt(1) ==> within_block && has_row)
            &&& generator.can_do(Task::RepeatLoop(id)) <==> has && node is Loop && within_block
            &&& generator.can_do(Task::EnterCall(id)) <==> has && node is Call
                && node->Call_0.callee.0 < nodes.len()
        }),
{
}

/// An operation can be run exactly if it is no mark of a code block, a group can be started exactly
/// if the one before is used up, and the row of an operation can be added exactly if its helper
/// values have been handed back where it yields some.
pub proof fn law_steps_that_can_be_done(
    generator: GeneratorView,
    op: Operation,
    op_idx_in_group: usize,
    group: Felt,
)
    ensures
        generator.can_do(Task::Step(BatchStep::ExecuteOp { op, op_idx_in_group })) <==> !(op is Join
            || op is Split || op is Loop || op is Call || op is SysCall || op is Dyn
            || op is Dyncall || op is Span || op is Repeat || op is Respan || op is End
            || op is Halt),
        generator.can_do(Task::Step(BatchStep::StartGroup { group })) <==> (
        generator.span_context matches Some(context) && context.group_ops_left == felt(0)),
        generator.can_do((Task::AddOperationRow { op, op_idx_in_group })) <==> (
        generator.user_op_helpers is Some || !(op is Eq || op is Eqz || op is HPerm || op is MpVerify
            || op is MrUpdate || op is FriE2F4 || op is HornerBase || op is HornerExt)),
{
}

/// A fragment can start within a basic block exactly if the forest of the state has the block, the
/// operation is one of those that run in the batch, no more groups are consumed there than the block
/// has, and RESPAN comes before the first operation only.
pub proof fn law_blocks_that_can_be_resumed(
    generator: GeneratorView,
    node_id: MastNodeId,
    batch_index: usize,
    op_idx_in_batch: usize,
    needs_respan: bool,
)
    ensures
        generator.can_start_from(
            (NodeExecutionPhase::BasicBlock {
                node_id,
                batch_index,
                op_idx_in_batch,
                needs_respan,
            }),
        ) <==> {
            let nodes = generator.state.initial_mast_forest.nodes@;
            &&& node_id.0 < nodes.len()
            &&& nodes[node_id.0 as int] matches MastNode::Block(node) && {
                &&& node.wf()
                &&& batch_index < node.op_batches@.len()
                &&& op_idx_in_batch < node.op_batches@[batch_index as int].runtime_positions().len()
                &&& groups_consumed(&node, batch_index as int, op_idx_in_batch as int)
                    <= node.op_group_count()
                &&& !needs_respan || op_idx_in_batch == 0
            }
        },
{
}

} // verus!
