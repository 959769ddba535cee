//! Laws of execution, which span several tasks.
use vstd::prelude::*;

use crate::block_stack::ContextId;
use crate::checkpoints::NodeExecutionPhase;
use crate::dispatch::yields_helpers;
use crate::executor::{Action, Progress, step_tasks};
use crate::felt::{MODULUS, lemma_felt_of_view, lemma_felt_view};
use crate::generator::GeneratorView;
use crate::layout::NUM_ROWS_PER_CORE_FRAGMENT;
use crate::mast::MastNodeId;
use crate::op_batch::{
    BatchStep, OpBatch, count_ops, law_batch_runs_its_operations, law_resuming_completes_a_batch,
    law_resuming_composes, skip_ops,
};
use crate::operation::FlowOperation;
use crate::power::lemma_next_power_small;
use crate::span::{groups_before, span_context_at};
use crate::task::Task;

verus! {

impl GeneratorView {
    /// The generator with more to do after everything else.
    pub open spec fn above(self, base: Seq<Task>) -> GeneratorView {
        GeneratorView { tasks: base + self.tasks, ..self }
    }
}

proof fn lemma_execute_node_above(generator: GeneratorView, base: Seq<Task>, id: MastNodeId)
    requires
        generator.can_execute_node(id),
    ensures
        generator.above(base).execute_node(id) == (
            generator.execute_node(id).0.above(base),
            generator.execute_node(id).1,
        ),
{
    let outer = generator.above(base).execute_node(id).0;
    let inner = generator.execute_node(id).0.above(base);
    assert(outer.tasks =~= inner.tasks);
}

proof fn lemma_continuation_above(generator: GeneratorView, base: Seq<Task>)
    ensures
        generator.above(base).continuation_followed() == generator.continuation_followed().above(
            base,
        ),
{
    let outer = generator.above(base).continuation_followed();
    let inner = generator.continuation_followed().above(base);
    assert(outer.tasks =~= inner.tasks);
}

proof fn lemma_do_task_above(generator: GeneratorView, base: Seq<Task>, task: Task)
    requires
        generator.can_do(task),
        !(task is ExecuteNode),
        !(task is FollowContinuations),
    ensures
        generator.above(base).do_task(task) == (
            generator.do_task(task).0.above(base),
            generator.do_task(task).1,
        ),
{
    let outer = generator.above(base).do_task(task).0;
    let inner = generator.do_task(task).0.above(base);
    assert(outer.tasks =~= inner.tasks);
}

/// A task does not depend on what is to be done after it, and does not change it: executed above
/// other tasks, it has the same outcome, again above those tasks. So all that a task leads to is
/// executed before the tasks below it.
pub proof fn law_tasks_below_are_untouched(generator: GeneratorView, base: Seq<Task>)
    requires
        generator.ready(),
        generator.tasks.len() > 0,
    ensures
        generator.above(base).ready(),
        generator.above(base).next() == (generator.next().0.above(base), generator.next().1),
{
    let task = generator.tasks.last();
    let rest = generator.without_next_task();
    assert(generator.above(base).tasks.last() == task);
    assert(generator.above(base).without_next_task() =~= rest.above(base));
    match task {
        Task::ExecuteNode(id) => lemma_execute_node_above(rest, base, id),
        Task::FollowContinuations => lemma_continuation_above(rest, base),
        _ => lemma_do_task_above(rest, base, task),
    }
}

impl GeneratorView {
    /// The generator after a number of tasks, where `perform` tells what doing an action leads to.
    pub open spec fn run(
        self,
        perform: spec_fn(GeneratorView, Action) -> GeneratorView,
        n: nat,
    ) -> GeneratorView
        decreases n,
    {
        if n == 0 {
            self
        } else {
            let before = self.run(perform, (n - 1) as nat);
            match before.next() {
                (after, Progress::Act(action)) => perform(after, action),
                (after, _) => after,
            }
        }
    }
}

/// Nested work is executed as it would be on its own: if doing actions neither depends on nor
/// changes the tasks that are left, then tasks lead to the same states above other tasks as they do
/// alone, for as long as they last.
pub proof fn law_execution_nests(
    generator: GeneratorView,
    base: Seq<Task>,
    perform: spec_fn(GeneratorView, Action) -> GeneratorView,
    n: nat,
)
    requires
        forall|g: GeneratorView, action: Action|
            #![trigger perform(g.above(base), action)]
            perform(g.above(base), action) == perform(g, action).above(base),
        forall|k: nat|
            k < n ==> (#[trigger] generator.run(perform, k)).ready() && generator.run(
                perform,
                k,
            ).tasks.len() > 0,
    ensures
        generator.above(base).run(perform, n) == generator.run(perform, n).above(base),
    decreases n,
{
    if n > 0 {
        law_execution_nests(generator, base, perform, (n - 1) as nat);
        let before = generator.run(perform, (n - 1) as nat);
        law_tasks_below_are_untouched(before, base);
        match before.next() {
            (after, Progress::Act(action)) => {
                assert(perform(after.above(base), action) == perform(after, action).above(base));
            },
            _ => {},
        }
    }
}

proof fn lemma_done_stays_done(
    generator: GeneratorView,
    perform: spec_fn(GeneratorView, Action) -> GeneratorView,
    m: nat,
    n: nat,
)
    requires
        m <= n,
        generator.run(perform, m).tasks.len() == 0,
    ensures
        generator.run(perform, n) == generator.run(perform, m),
    decreases n - m,
{
    if m < n {
        lemma_done_stays_done(generator, perform, m, (n - 1) as nat);
    }
}

/// Generation is determined by the state that it starts from and by what doing actions leads to:
/// whenever nothing is left to execute, the outcome is the same, however many steps were taken.
pub proof fn law_generation_is_determined(
    generator: GeneratorView,
    perform: spec_fn(GeneratorView, Action) -> GeneratorView,
    m: nat,
    n: nat,
)
    requires
        generator.run(perform, m).tasks.len() == 0,
        generator.run(perform, n).tasks.len() == 0,
    ensures
        generator.run(perform, m) == generator.run(perform, n),
{
    if m <= n {
        lemma_done_stays_done(generator, perform, m, n);
    } else {
        lemma_done_stays_done(generator, perform, n, m);
    }
}

proof fn lemma_tasks_build_no_rows(generator: GeneratorView)
    requires
        generator.ready(),
    ensures
        generator.next().0.state.system.clk == generator.state.system.clk,
        generator.next().0.fragment_start_clk == generator.fragment_start_clk,
{
    if generator.tasks.len() > 0 {
        let rest = generator.without_next_task();
        match generator.tasks.last() {
            Task::ExecuteNode(id) => {
                let after = rest.execute_node(id).0;
                assert(after.state.system.clk == rest.state.system.clk);
                assert(after.fragment_start_clk == rest.fragment_start_clk);
            },
            Task::FollowContinuations => {
                let after = rest.continuation_followed();
                assert(after.state.system.clk == rest.state.system.clk);
                assert(after.fragment_start_clk == rest.fragment_start_clk);
            },
            task => {
                let after = rest.do_task(task).0;
                assert(after.state.system.clk == rest.state.system.clk);
                assert(after.fragment_start_clk == rest.fragment_start_clk);
            },
        }
    }
}

impl GeneratorView {
    /// Whether one more row can be built: the fragment is not full, and the clock can go on.
    pub open spec fn has_room(self) -> bool {
        self.rows_built() < NUM_ROWS_PER_CORE_FRAGMENT && self.state.system.clk < u32::MAX
    }
}

/// Whether, as long as there is room for a row, performing operations leaves rows and tasks alone,
/// and each row is written, moved on from and handed back: with `write`, one row more is built, and
/// [`GeneratorView::after_row`] follows.
pub open spec fn hands_back_each_row(
    perform: spec_fn(GeneratorView, Action) -> GeneratorView,
    write: spec_fn(GeneratorView, Action) -> GeneratorView,
) -> bool {
    forall|g: GeneratorView, action: Action|
        g.has_room() ==> {
            let after = #[trigger] perform(g, action);
            let written = write(g, action);
            if action is Perform {
                after.tasks == g.tasks && after.rows_built() == g.rows_built()
            } else {
                &&& written.tasks == g.tasks
                &&& written.rows_built() == g.rows_built() + 1
                &&& after == written.after_row(written.flow())
            }
        }
}

/// Generation stops exactly when the fragment is full: no more rows are built than the fragment has,
/// once it is full nothing is left to execute, and as long as it is not full no task is dropped.
pub proof fn law_generation_stops_when_the_fragment_is_full(
    generator: GeneratorView,
    perform: spec_fn(GeneratorView, Action) -> GeneratorView,
    write: spec_fn(GeneratorView, Action) -> GeneratorView,
    n: nat,
)
    requires
        hands_back_each_row(perform, write),
        generator.rows_built() < NUM_ROWS_PER_CORE_FRAGMENT,
        forall|k: nat|
            k <= n ==> (#[trigger] generator.run(perform, k)).ready() && generator.run(
                perform,
                k,
            ).state.system.clk < u32::MAX,
    ensures
        ({
            let now = generator.run(perform, n);
            let next = generator.run(perform, n + 1);
            &&& generator.rows_built() <= now.rows_built() <= NUM_ROWS_PER_CORE_FRAGMENT
            &&& now.rows_built() == NUM_ROWS_PER_CORE_FRAGMENT ==> {
                &&& now.tasks.len() == 0
                &&& next == now
            }
            &&& next.rows_built() < NUM_ROWS_PER_CORE_FRAGMENT ==> next.tasks == now.next().0.tasks
        }),
    decreases n,
{
    let now = generator.run(perform, n);
    if n > 0 {
        law_generation_stops_when_the_fragment_is_full(
            generator,
            perform,
            write,
            (n - 1) as nat,
        );
        let before = generator.run(perform, (n - 1) as nat);
        lemma_tasks_build_no_rows(before);
        match before.next() {
            (after, Progress::Act(action)) => {
                assert(now == perform(after, action));
            },
            _ => {},
        }
    }
    lemma_tasks_build_no_rows(now);
    match now.next() {
        (after, Progress::Act(action)) => {
            assert(generator.run(perform, n + 1) == perform(after, action));
        },
        _ => {},
    }
}

/// The row of an operation carries helper values exactly if the operation yields some.
pub proof fn law_rows_carry_the_helpers_of_their_operation(generator: GeneratorView)
    requires
        generator.ready(),
    ensures
        generator.next().1 matches Progress::Act(
            Action::OperationRow { op, user_op_helpers, .. },
        ) ==> (user_op_helpers is Some <==> yields_helpers(op)),
{
}

/// A callee runs in its own context, with its own hash, unless it is that of a system call. When it
/// has been executed, the context, the free memory pointer, the system call flag and the function
/// hash are what they were before the call, whatever the callee did.
pub proof fn law_calls_restore_their_context(
    caller: GeneratorView,
    id: MastNodeId,
    returned: GeneratorView,
)
    requires
        caller.can_do(Task::EnterCall(id)),
        returned.tasks == caller.call_entered(id).tasks.drop_last(),
    ensures
        caller.call_entered(id).tasks.last() == Task::ExecuteNode(
            caller.forest.node(id)->Call_0.callee,
        ),
        ({
            let node = caller.forest.node(id)->Call_0;
            let callee = caller.call_entered(id).state.system;
            if node.is_syscall {
                callee.ctx == ContextId(0) && callee.in_syscall && callee.fn_hash
                    == caller.state.system.fn_hash
            } else {
                callee.ctx == ContextId(caller.state.system.clk) && callee.fn_hash
                    == caller.forest.node(node.callee).digest_of()
            }
        }),
        returned.ready(),
        returned.next().0.state.system.ctx == caller.state.system.ctx,
        returned.next().0.state.system.fmp == caller.state.system.fmp,
        returned.next().0.state.system.in_syscall == caller.state.system.in_syscall,
        returned.next().0.state.system.fn_hash == caller.state.system.fn_hash,
        returned.next().0.tasks == caller.tasks.push(Task::EndNode(id)),
{
    assert(returned.next().0.tasks =~= caller.tasks.push(Task::EndNode(id)));
}

/// Ending a loop takes its block off the block stack: it is then what it was before the loop.
pub proof fn law_loops_leave_the_block_stack_unchanged(
    before: GeneratorView,
    id: MastNodeId,
    after_body: GeneratorView,
)
    requires
        before.can_execute_node(id),
        before.forest.node(id) is Loop,
        after_body.forest == before.forest,
        after_body.state.block_stack == before.execute_node(id).0.state.block_stack,
    ensures
        after_body.can_end_node(id),
        after_body.end_node(id).0.state.block_stack == before.state.block_stack,
{
    assert(after_body.end_node(id).0.state.block_stack =~= before.state.block_stack);
}

/// A loop runs its body for as long as the top of the stack, which it removes, is 1. When it is
/// not, the loop ends.
pub proof fn law_loops_run_while_their_condition_holds(generator: GeneratorView, id: MastNodeId)
    requires
        generator.can_do(Task::TestLoop(id)),
    ensures
        ({
            let body = Task::ExecuteNode(generator.forest.node(id)->Loop_0.body);
            let (after, progress) = generator.do_task(Task::TestLoop(id));
            &&& after.state.stack == generator.state.stack.shrink()
            &&& generator.condition() ==> progress is Act && after.tasks == generator.tasks.push(
                Task::TestLoop(id),
            ).push(body)
            &&& !generator.condition() ==> progress is Working && after.tasks
                == generator.tasks.push(Task::EndNode(id))
        }),
{
    let body = Task::ExecuteNode(generator.forest.node(id)->Loop_0.body);
    let after = generator.do_task(Task::TestLoop(id)).0;
    if generator.condition() {
        assert(after.tasks =~= generator.tasks.push(Task::TestLoop(id)).push(body));
    } else {
        assert(after.tasks =~= generator.tasks.push(Task::EndNode(id)));
    }
}

/// A fragment that starts by repeating a loop goes on as the fragment before would have: after the
/// body, with the condition, which is 1, on top of the stack, testing the loop leads to the same
/// state and to a row with the same opcode and address.
pub proof fn law_repeating_is_passing_the_test(generator: GeneratorView, id: MastNodeId)
    requires
        generator.can_do(Task::TestLoop(id)),
        generator.condition(),
    ensures
        generator.can_do(Task::RepeatLoop(id)),
        ({
            let (tested, row) = generator.do_task(Task::TestLoop(id));
            let (repeated, first_row) = generator.do_task(Task::RepeatLoop(id));
            &&& repeated == tested
            &&& row matches Progress::Act(Action::LoopRow { row }) && first_row
                == Progress::Act(
                Action::FirstRepeatRow {
                    node_id: id,
                    opcode: row.config.start_opcode,
                    addr: row.config.addr,
                },
            )
        }),
{
}

/// A fragment that starts with the REPEAT phase of a loop adds one REPEAT row, executes the body,
/// tests the loop, and goes on with what was left to execute.
pub proof fn law_repeat_phases_repeat_the_loop(generator: GeneratorView, id: MastNodeId)
    requires
        generator.tasks.len() == 0,
        generator.state.initial_mast_forest.has(id),
        generator.state.initial_mast_forest.node(id) is Loop,
        generator.state.block_stack.len() > 0,
    ensures
        generator.can_start_from(NodeExecutionPhase::LoopRepeat(id)),
        ({
            let node = generator.state.initial_mast_forest.node(id)->Loop_0;
            let started = generator.started_from(NodeExecutionPhase::LoopRepeat(id));
            let (repeating, row) = started.next();
            &&& started.ready()
            &&& row == Progress::Act(
                Action::FirstRepeatRow {
                    node_id: id,
                    opcode: FlowOperation::Repeat.code(),
                    addr: generator.state.block_stack.last().addr,
                },
            )
            &&& repeating.state.stack == generator.state.stack.shrink()
            &&& repeating.tasks == seq![
                Task::FollowContinuations,
                Task::TestLoop(id),
                Task::ExecuteNode(node.body),
            ]
        }),
{
    let node = generator.state.initial_mast_forest.node(id)->Loop_0;
    let started = generator.started_from(NodeExecutionPhase::LoopRepeat(id));
    assert(started.tasks =~= seq![Task::FollowContinuations, Task::RepeatLoop(id)]);
    assert(started.next().0.tasks =~= seq![
        Task::FollowContinuations,
        Task::TestLoop(id),
        Task::ExecuteNode(node.body),
    ]);
}

/// Nothing is executed any more once a row has filled the fragment: moving on to the next row
/// breaks, and after that nothing is left to do, the fragment is finished, and the state stays as
/// it is.
pub proof fn law_full_fragments_stop_execution(generator: GeneratorView)
    requires
        generator.rows_built() + 1 >= NUM_ROWS_PER_CORE_FRAGMENT,
        generator.state.system.clk < u32::MAX,
    ensures
        ({
            let moved_on = generator.next_cycle();
            let stopped = moved_on.after_row(moved_on.flow());
            &&& moved_on.flow() is Break
            &&& stopped.state == moved_on.state && stopped.columns == moved_on.columns
            &&& stopped.ready()
            &&& generator.has_table() ==> stopped.finished()
            &&& stopped.next() == (stopped, Progress::Done)
        }),
{
}

proof fn lemma_skipped_is_suffix(steps: Seq<BatchStep>, n: int)
    ensures
        skip_ops(steps, n).len() <= steps.len(),
        skip_ops(steps, n) == steps.skip(steps.len() - skip_ops(steps, n).len()),
    decreases steps.len(),
{
    if steps.len() > 0 && !(steps[0] is ExecuteOp && n <= 0) {
        let m = if steps[0] is ExecuteOp {
            n - 1
        } else {
            n
        };
        lemma_skipped_is_suffix(steps.drop_first(), m);
    }
    assert(skip_ops(steps, n) =~= steps.skip(steps.len() - skip_ops(steps, n).len()));
}

/// Entering a basic block sets up the decoder as resuming the block at its first operation does,
/// for blocks whose number of groups fits into 32 bits.
pub proof fn law_entering_is_resuming_at_the_start(generator: GeneratorView, id: MastNodeId)
    requires
        generator.can_do(Task::EnterSpan(id)),
        generator.block(id).op_batches@[0].runtime_positions().len() > 0,
        generator.block(id).op_group_count() <= u32::MAX,
        generator.block(id).op_batches@[0].groups@[0]@ < MODULUS,
    ensures
        generator.span_entered(id).span_context == Some(span_context_at(&generator.block(id), 0, 0)),
{
    let block = generator.block(id);
    let batch = block.op_batches@[0];
    batch.lemma_first_position();
    assert(groups_before(block.op_batches@, 0) == 0);
    lemma_felt_of_view(batch.groups@[0]);
    let group = batch.groups@[0]@ as u64;
    assert(group >> 0usize == group) by (bit_vector);
    assert(block.op_batches@.last().wf());
    lemma_next_power_small(block.op_batches@.last().num_groups as nat);
    let count = block.op_group_count();
    assert(1 <= count <= u32::MAX);
    lemma_felt_view(count);
}

/// Executing a batch from an operation on does what is left of executing the whole batch, and then
/// goes on in the same way.
pub proof fn law_batches_are_resumed_where_they_were_left(
    generator: GeneratorView,
    node_id: MastNodeId,
    batch_index: usize,
    start_op_idx: usize,
)
    requires
        generator.can_do((Task::RunBatch { node_id, batch_index, start_op_idx: 0 })),
    ensures
        generator.can_do((Task::RunBatch { node_id, batch_index, start_op_idx })),
        ({
            let whole = generator.do_task(
                (Task::RunBatch { node_id, batch_index, start_op_idx: 0 }),
            ).0;
            let rest = generator.do_task((Task::RunBatch { node_id, batch_index, start_op_idx })).0;
            rest.tasks.is_prefix_of(whole.tasks) && rest == (GeneratorView {
                tasks: rest.tasks,
                ..whole
            })
        }),
{
    let schedule = generator.block(node_id).op_batches@[batch_index as int].schedule();
    let steps = skip_ops(schedule, 0);
    law_resuming_composes(schedule, 0, start_op_idx as int);
    lemma_skipped_is_suffix(steps, start_op_idx as int);
    let all = step_tasks(steps);
    let left = step_tasks(skip_ops(steps, start_op_idx as int));
    assert(left =~= all.take(left.len() as int));
    assert((generator.tasks + all).take((generator.tasks.len() + left.len()) as int)
        =~= generator.tasks + left);
}

proof fn lemma_step_tasks_concat(a: Seq<BatchStep>, b: Seq<BatchStep>)
    ensures
        step_tasks(a + b) == step_tasks(b) + step_tasks(a),
{
    assert(step_tasks(a + b) =~= step_tasks(b) + step_tasks(a));
}

/// Tasks after a batch has been broken up into its steps.
proof fn lemma_batch_broken_up(
    generator: GeneratorView,
    below: Seq<Task>,
    node_id: MastNodeId,
    batch_index: usize,
    start_op_idx: usize,
)
    requires
        generator.tasks == below.push(Task::RunBatch { node_id, batch_index, start_op_idx }),
    ensures
        generator.next().0.tasks == below + step_tasks(
            skip_ops(
                generator.block(node_id).op_batches@[batch_index as int].schedule(),
                start_op_idx as int,
            ),
        ),
{
    assert(generator.without_next_task().tasks =~= below);
}

/// Tasks of running a basic block from a batch on.
proof fn lemma_batches_broken_up(
    generator: GeneratorView,
    below: Seq<Task>,
    node_id: MastNodeId,
    batch_index: usize,
)
    requires
        generator.tasks.len() == 0,
        batch_index < generator.block(node_id).op_batches@.len(),
    ensures
        generator.then_tasks(below).do_task(
            (Task::RunBatchesFrom { node_id, batch_index }),
        ).0.tasks == below.push(
            Task::RunBatchesFrom { node_id, batch_index: (batch_index + 1) as usize },
        ).push(Task::RunBatch { node_id, batch_index, start_op_idx: 0 }).push(
            Task::Respan { node_id, batch_index },
        ),
{
    let rest = Task::RunBatchesFrom { node_id, batch_index: (batch_index + 1) as usize };
    let run = Task::RunBatch { node_id, batch_index, start_op_idx: 0 };
    let respan = Task::Respan { node_id, batch_index };
    assert(generator.then_tasks(below).do_task(
        (Task::RunBatchesFrom { node_id, batch_index }),
    ).0.tasks =~= below.push(rest).push(run).push(respan));
}

/// Tasks of a fragment that starts within a basic block.
proof fn lemma_block_resumed(
    generator: GeneratorView,
    node_id: MastNodeId,
    batch_index: usize,
    op_idx_in_batch: usize,
    needs_respan: bool,
)
    requires
        generator.tasks.len() == 0,
    ensures
        ({
            let resumed = generator.started_from(
                (NodeExecutionPhase::BasicBlock {
                    node_id,
                    batch_index,
                    op_idx_in_batch,
                    needs_respan,
                }),
            );
            let run = seq![Task::FollowContinuations, Task::EndNode(node_id)].push(
                Task::RunBatchesFrom { node_id, batch_index: (batch_index + 1) as usize },
            ).push(Task::RunBatch { node_id, batch_index, start_op_idx: op_idx_in_batch });
            resumed.tasks == if needs_respan {
                run.push(Task::Respan { node_id, batch_index })
            } else {
                run
            }
        }),
{
    let resumed = generator.started_from(
        (NodeExecutionPhase::BasicBlock { node_id, batch_index, op_idx_in_batch, needs_respan }),
    );
    let run = seq![Task::FollowContinuations, Task::EndNode(node_id)].push(
        Task::RunBatchesFrom { node_id, batch_index: (batch_index + 1) as usize },
    ).push(Task::RunBatch { node_id, batch_index, start_op_idx: op_idx_in_batch });
    if needs_respan {
        assert(resumed.tasks =~= run.push(Task::Respan { node_id, batch_index }));
    } else {
        assert(resumed.tasks =~= run);
    }
}

/// A fragment that starts within a basic block does what is left of the block, and then what was
/// left to execute after it.
///
/// `whole` is a generator that is about to run the block from the given batch on. Where a fragment
/// starts with the RESPAN before the batch, all of that is left to do. Where it starts within the
/// batch, RESPAN and the operations before have been done. The first batch has no RESPAN before it,
/// and a generator that enters the block runs it just so.
#[verifier::spinoff_prover]
#[verifier::rlimit(40)]
pub proof fn law_resumed_blocks_do_what_is_left(
    generator: GeneratorView,
    node_id: MastNodeId,
    batch_index: usize,
    op_idx_in_batch: usize,
    needs_respan: bool,
)
    requires
        generator.tasks.len() == 0,
        generator.forest == generator.state.initial_mast_forest,
        generator.can_start_from(
            (NodeExecutionPhase::BasicBlock {
                node_id,
                batch_index,
                op_idx_in_batch,
                needs_respan,
            }),
        ),
    ensures
        ({
            let phase = NodeExecutionPhase::BasicBlock {
                node_id,
                batch_index,
                op_idx_in_batch,
                needs_respan,
            };
            let schedule = generator.block(node_id).op_batches@[batch_index as int].schedule();
            let after_block = seq![Task::FollowContinuations, Task::EndNode(node_id)];
            let whole = generator.then_tasks(after_block).do_task(
                (Task::RunBatchesFrom { node_id, batch_index }),
            ).0;
            let after_respan = whole.without_next_task();
            let resumed = generator.started_from(phase);
            let done = schedule.take(
                schedule.len() - skip_ops(schedule, op_idx_in_batch as int).len(),
            );
            &&& whole.tasks.last() == (Task::Respan { node_id, batch_index })
            &&& resumed.ready()
            &&& needs_respan ==> resumed.tasks == whole.tasks
            &&& !needs_respan ==> {
                &&& count_ops(done) == op_idx_in_batch
                &&& after_respan.next().0.tasks == resumed.next().0.tasks + step_tasks(done)
            }
            &&& batch_index == 0 ==> after_respan.next().0.tasks == seq![Task::FollowContinuations]
                + generator.span_entered(node_id).next().0.tasks
        }),
{
    let phase = NodeExecutionPhase::BasicBlock {
        node_id,
        batch_index,
        op_idx_in_batch,
        needs_respan,
    };
    let batch = generator.block(node_id).op_batches@[batch_index as int];
    let schedule = batch.schedule();
    let after_block = seq![Task::FollowContinuations, Task::EndNode(node_id)];
    let rest = Task::RunBatchesFrom { node_id, batch_index: (batch_index + 1) as usize };
    let run = Task::RunBatch { node_id, batch_index, start_op_idx: 0 };
    let respan = Task::Respan { node_id, batch_index };
    let below = after_block.push(rest);
    let whole = generator.then_tasks(after_block).do_task(
        (Task::RunBatchesFrom { node_id, batch_index }),
    ).0;
    let after_respan = whole.without_next_task();
    let resumed = generator.started_from(phase);
    lemma_batches_broken_up(generator, after_block, node_id, batch_index);
    lemma_block_resumed(generator, node_id, batch_index, op_idx_in_batch, needs_respan);
    assert(after_respan.tasks =~= below.push(run));
    lemma_batch_broken_up(after_respan, below, node_id, batch_index, 0);
    lemma_schedule_starts_with_an_operation(&batch);
    if !needs_respan {
        let left = skip_ops(schedule, op_idx_in_batch as int);
        let done = schedule.take(schedule.len() - left.len());
        law_batch_runs_its_operations(&batch);
        law_resuming_completes_a_batch(&batch, op_idx_in_batch as int);
        lemma_step_tasks_concat(done, left);
        lemma_batch_broken_up(resumed, below, node_id, batch_index, op_idx_in_batch);
        assert(below + (step_tasks(left) + step_tasks(done)) =~= below + step_tasks(left)
            + step_tasks(done));
    }
    if batch_index == 0 {
        lemma_block_entered(generator, node_id);
        assert(seq![Task::FollowContinuations] + (seq![Task::EndNode(node_id), rest] + step_tasks(
            schedule,
        )) =~= below + step_tasks(schedule));
    }
}

/// Tasks of a generator that has entered a basic block.
proof fn lemma_block_entered(generator: GeneratorView, node_id: MastNodeId)
    requires
        generator.tasks.len() == 0,
    ensures
        generator.span_entered(node_id).next().0.tasks == seq![
            Task::EndNode(node_id),
            Task::RunBatchesFrom { node_id, batch_index: 1 },
        ] + step_tasks(skip_ops(generator.block(node_id).op_batches@[0].schedule(), 0)),
{
    let entered = generator.span_entered(node_id);
    let below = seq![
        Task::EndNode(node_id),
        Task::RunBatchesFrom { node_id, batch_index: 1 },
    ];
    assert(entered.tasks =~= below.push(
        Task::RunBatch { node_id, batch_index: 0, start_op_idx: 0 },
    ));
    lemma_batch_broken_up(entered, below, node_id, 0, 0);
}

proof fn lemma_schedule_starts_with_an_operation(batch: &OpBatch)
    ensures
        skip_ops(batch.schedule(), 0) == batch.schedule(),
{
    let n = batch.ops@.len() as int;
    if n > 0 {
        lemma_steps_start_with_an_operation(batch, n);
    } else {
        lemma_padding_starts_with_an_operation(
            batch,
            batch.cursor(n).group,
            batch.rounded_groups(),
        );
    }
}

proof fn lemma_steps_start_with_an_operation(batch: &OpBatch, n: int)
    requires
        0 < n,
    ensures
        batch.steps_before(n).len() > 0,
        batch.steps_before(n)[0] is ExecuteOp,
    decreases n,
{
    if n > 1 {
        lemma_steps_start_with_an_operation(batch, n - 1);
    } else {
        assert(batch.steps_before(0).len() == 0);
        assert(batch.steps_before(1) =~= batch.op_steps(0));
    }
}

proof fn lemma_padding_starts_with_an_operation(batch: &OpBatch, first: int, g: int)
    ensures
        g > first ==> batch.padding_before(first, g).len() > 0 && batch.padding_before(
            first,
            g,
        )[0] is ExecuteOp,
    decreases g - first,
{
    if g > first {
        lemma_padding_starts_with_an_operation(batch, first, g - 1);
    }
}

} // verus!
