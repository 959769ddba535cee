//! Laws of the tasks that run operations.
use vstd::prelude::*;

use crate::dispatch::pending_call;
use crate::executor::{Action, Progress};
use crate::felt::{Felt, felt};
use crate::generator::GeneratorView;
use crate::mast::{BasicBlockNode, LoopNode, MastNode, MastNodeId};
use crate::node_laws::holds_node;
use crate::op_batch::{BatchStep, skip_ops};
use crate::operation::Operation;
use crate::span::SpanContext;
use crate::task::Task;

verus! {

/// Running a batch from an operation on does its steps from this operation on, in order, before
/// anything else: the first step is the next task. Nothing else changes.
pub proof fn law_batches_run_step_by_step(
    generator: GeneratorView,
    id: MastNodeId,
    node: BasicBlockNode,
    batch_index: usize,
    start_op_idx: usize,
    k: int,
)
    requires
        holds_node(generator, id, MastNode::Block(node)),
        batch_index < node.op_batches@.len(),
        node.op_batches@[batch_index as int].wf(),
    ensures
        ({
            let task = Task::RunBatch { node_id: id, batch_index, start_op_idx };
            let steps = skip_ops(
                node.op_batches@[batch_index as int].schedule(),
                start_op_idx as int,
            );
            let (after, progress) = generator.do_task(task);
            &&& generator.can_do(task)
            &&& progress is Working
            &&& after == (GeneratorView { tasks: after.tasks, ..generator })
            &&& after.tasks.len() == generator.tasks.len() + steps.len()
            &&& generator.tasks.is_prefix_of(after.tasks)
            &&& 0 <= k < steps.len() ==> after.tasks[after.tasks.len() - 1 - k] == Task::Step(
                steps[k],
            )
        }),
{
    let after = generator.do_task((Task::RunBatch { node_id: id, batch_index, start_op_idx })).0;
    assert(after.tasks.take(generator.tasks.len() as int) =~= generator.tasks);
}

/// An operation that the instruction set performs is handed out first, and its row is added next. No
/// helper values of an earlier operation are kept.
pub proof fn law_operations_are_performed_before_their_row(
    generator: GeneratorView,
    op: Operation,
    op_idx_in_group: usize,
)
    requires
        pending_call(op) is Some,
    ensures
        ({
            let task = Task::Step(BatchStep::ExecuteOp { op, op_idx_in_group });
            &&& generator.can_do(task)
            &&& generator.do_task(task) == (
                GeneratorView {
                    user_op_helpers: None,
                    tasks: generator.tasks.push(Task::AddOperationRow { op, op_idx_in_group }),
                    ..generator
                },
                Progress::Act(Action::Perform { call: pending_call(op)->0 }),
            )
        }),
{
    let after = generator.do_task(Task::Step(BatchStep::ExecuteOp { op, op_idx_in_group })).0;
    assert(after.tasks =~= generator.tasks.push(Task::AddOperationRow { op, op_idx_in_group }));
}

/// An operation that needs no call, and is no mark of a code block, is performed at once, and its
/// row, without helper values, is to be added.
pub proof fn law_stack_moves_are_performed_at_once(
    generator: GeneratorView,
    op: Operation,
    op_idx_in_group: usize,
)
    requires
        pending_call(op) is None,
        !(op is Join || op is Split || op is Loop || op is Call || op is SysCall || op is Dyn
            || op is Dyncall || op is Span || op is Repeat || op is Respan || op is End
            || op is Halt),
    ensures
        ({
            let task = Task::Step(BatchStep::ExecuteOp { op, op_idx_in_group });
            &&& generator.can_do(task)
            &&& generator.do_task(task) == (
                generator.after_dispatch(op),
                Progress::Act(Action::OperationRow { op, op_idx_in_group, user_op_helpers: None }),
            )
        }),
{
}

/// The row of an operation carries the helper values that were handed back for it, if the operation
/// yields some, and none otherwise.
pub proof fn law_rows_carry_what_was_handed_back(
    generator: GeneratorView,
    op: Operation,
    op_idx_in_group: usize,
    helpers: [Felt; 6],
)
    requires
        generator.user_op_helpers == Some(helpers),
    ensures
        ({
            let task = Task::AddOperationRow { op, op_idx_in_group };
            let yields = op is Eq || op is Eqz || op is HPerm || op is MpVerify || op is MrUpdate
                || op is FriE2F4 || op is HornerBase || op is HornerExt;
            &&& generator.can_do(task)
            &&& generator.do_task(task) == (
                generator,
                Progress::Act(
                    Action::OperationRow {
                        op,
                        op_idx_in_group,
                        user_op_helpers: if yields {
                            Some(helpers)
                        } else {
                            None
                        },
                    },
                ),
            )
        }),
{
}

/// Starting a group, once the one before is used up, gives it to the decoder whole, and leaves one
/// group less.
pub proof fn law_groups_start_one_by_one(
    generator: GeneratorView,
    group: Felt,
    num_groups_left: Felt,
)
    requires
        generator.span_context == Some(SpanContext { group_ops_left: felt(0), num_groups_left }),
    ensures
        ({
            let task = Task::Step(BatchStep::StartGroup { group });
            &&& generator.can_do(task)
            &&& generator.do_task(task) == (
                GeneratorView {
                    span_context: Some(
                        SpanContext {
                            group_ops_left: group,
                            num_groups_left: felt(num_groups_left@ - 1),
                        },
                    ),
                    ..generator
                },
                Progress::Working,
            )
        }),
{
}

/// A fragment that starts by repeating a loop removes the condition from the stack, adds a row with
/// the opcode of REPEAT and the address of the loop, executes the body and tests the loop again.
pub proof fn law_loops_are_repeated_at_the_start_of_a_fragment(
    generator: GeneratorView,
    id: MastNodeId,
    node: LoopNode,
)
    requires
        holds_node(generator, id, MastNode::Loop(node)),
        generator.state.block_stack.len() > 0,
    ensures
        ({
            let blocks = generator.state.block_stack;
            &&& generator.can_do(Task::RepeatLoop(id))
            &&& generator.do_task(Task::RepeatLoop(id)) == (
                GeneratorView {
                    tasks: generator.tasks.push(Task::TestLoop(id)).push(
                        Task::ExecuteNode(node.body),
                    ),
                    ..generator.with_stack(generator.state.stack.shrink())
                },
                Progress::Act(
                    Action::FirstRepeatRow {
                        node_id: id,
                        opcode: 0x74,
                        addr: blocks[blocks.len() - 1].addr,
                    },
                ),
            )
        }),
{
    let after = generator.do_task(Task::RepeatLoop(id)).0;
    assert(after.tasks =~= generator.tasks.push(Task::TestLoop(id)).push(
        Task::ExecuteNode(node.body),
    ));
}

} // verus!
