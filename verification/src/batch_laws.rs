//! Laws of running operation batches: where operations stand, and which steps run them.
use vstd::prelude::*;

use crate::felt::felt;
use crate::mast::BasicBlockNode;
use crate::op_batch::{BatchStep, OpBatch, count_ops, lemma_op_positions_stand_in_batch, skip_ops};
use crate::operation::Operation;

verus! {

/// Whether an operation carries an immediate value, which takes a group of its own.
pub open spec fn takes_a_group(op: Operation) -> bool {
    op is Push || op is Emit
}

/// Operations fill the groups one after the other. An operation stands right behind the one before
/// it, unless that is the last one of its group; then it stands at the start of the next group that
/// is free. Every immediate value makes one more group unavailable.
pub proof fn law_operations_fill_groups_in_order(batch: &OpBatch, i: int)
    requires
        0 <= i < batch.ops@.len(),
    ensures
        batch.cursor(0).group == 0 && batch.cursor(0).next_group == 1 && batch.cursor(
            0,
        ).op_in_group == 0,
        ({
            let at = batch.cursor(i);
            let next = batch.cursor(i + 1);
            let free = at.next_group + if takes_a_group(batch.ops@[i]) {
                1int
            } else {
                0
            };
            if at.op_in_group + 1 == batch.op_counts@[at.group] {
                next.group == free && next.op_in_group == 0 && next.next_group == free + 1
            } else {
                next.group == at.group && next.op_in_group == at.op_in_group + 1
                    && next.next_group == free
            }
        }),
{
}

/// A batch runs in 1, 2, 4 or 8 groups, the least of these that is not below its number of groups.
pub proof fn law_batches_are_rounded_up(batch: &OpBatch)
    requires
        batch.num_groups <= 8,
    ensures
        batch.num_groups <= 1 ==> batch.rounded_groups() == 1,
        batch.num_groups == 2 ==> batch.rounded_groups() == 2,
        3 <= batch.num_groups <= 4 ==> batch.rounded_groups() == 4,
        5 <= batch.num_groups ==> batch.rounded_groups() == 8,
{
    reveal_with_fuel(crate::power::next_power, 5);
}

/// A batch is valid exactly if it has up to eight groups of up to nine operations, each of its
/// operations falls into one of the eight groups, which is not one of an immediate value, and there
/// is room for the NOOP after an immediate value at the end of a group.
pub proof fn law_valid_batches(batch: &OpBatch)
    ensures
        batch.wf() <==> {
            &&& batch.num_groups <= 8
            &&& forall|g: int| 0 <= g < 8 ==> #[trigger] batch.op_counts@[g] <= 9
            &&& forall|i: int|
                0 <= i < batch.ops@.len() ==> {
                    let at = #[trigger] batch.cursor(i);
                    &&& 0 <= at.group < 8
                    &&& batch.op_counts@[at.group] >= 1
                    &&& takes_a_group(batch.ops@[i]) && at.op_in_group + 1
                        == batch.op_counts@[at.group] ==> at.op_in_group < 8
                }
        },
{
}

/// A basic block is valid exactly if it has a batch, its batches are valid, and they are not more
/// than fit into memory.
pub proof fn law_valid_blocks(block: &BasicBlockNode)
    ensures
        block.wf() <==> {
            &&& block.op_batches@.len() >= 1
            &&& 16 * block.op_batches@.len() <= usize::MAX
            &&& forall|b: int|
                0 <= b < block.op_batches@.len() ==> (#[trigger] block.op_batches@[b]).wf()
        },
{
}

proof fn lemma_steps_grow(batch: &OpBatch, i: int, j: int)
    requires
        0 <= i <= j,
    ensures
        batch.steps_before(i).is_prefix_of(batch.steps_before(j)),
    decreases j,
{
    if i < j {
        lemma_steps_grow(batch, i, j - 1);
    }
}

proof fn lemma_op_steps_stand_in_schedule(batch: &OpBatch, i: int)
    requires
        0 <= i < batch.ops@.len(),
    ensures
        ({
            let from = batch.steps_before(i).len() as int;
            let here = batch.op_steps(i);
            &&& batch.steps_before(i + 1).len() == from + here.len()
            &&& from + here.len() <= batch.schedule().len()
            &&& forall|k: int|
                0 <= k < here.len() ==> batch.schedule()[from + k] == #[trigger] here[k]
        }),
{
    let from = batch.steps_before(i).len() as int;
    let here = batch.op_steps(i);
    lemma_steps_grow(batch, i + 1, batch.ops@.len() as int);
    assert(batch.steps_before(i + 1) == batch.steps_before(i) + here);
    assert forall|k: int| 0 <= k < here.len() implies batch.schedule()[from + k]
        == #[trigger] here[k] by {
        assert(batch.steps_before(i + 1)[from + k] == here[k]);
    }
}

/// Each operation of a batch runs after the steps of those before it, with its index within its
/// group. If it is the last one of its group, a NOOP with the next index follows where it carries an
/// immediate value, and then the group starts in which the next operation stands, unless the batch
/// is at its end. Nothing else is run for it.
pub proof fn law_operations_run_by_these_steps(batch: &OpBatch, i: int)
    requires
        batch.num_groups <= 8,
        0 <= i < batch.ops@.len(),
        0 <= batch.cursor(i).op_in_group < 9,
    ensures
        ({
            let schedule = batch.schedule();
            let op = batch.ops@[i];
            let at = batch.cursor(i);
            let next = batch.cursor(i + 1).group;
            let from = batch.steps_before(i).len() as int;
            let closes = at.op_in_group + 1 == batch.op_counts@[at.group];
            let noops: int = if closes && takes_a_group(op) {
                1
            } else {
                0
            };
            let starts: int = if closes && next < batch.rounded_groups() {
                1
            } else {
                0
            };
            &&& batch.steps_before(0).len() == 0
            &&& batch.steps_before(i + 1).len() == from + 1 + noops + starts
            &&& from + 1 + noops + starts <= schedule.len()
            &&& schedule[from] == (BatchStep::ExecuteOp {
                op,
                op_idx_in_group: at.op_in_group as usize,
            })
            &&& noops == 1 ==> schedule[from + 1] == (BatchStep::ExecuteOp {
                op: Operation::Noop,
                op_idx_in_group: (at.op_in_group + 1) as usize,
            })
            &&& starts == 1 ==> schedule[from + 1 + noops] == (BatchStep::StartGroup {
                group: batch.groups@[next],
            })
        }),
{
    lemma_op_steps_stand_in_schedule(batch, i);
    let from = batch.steps_before(i).len() as int;
    let here = batch.op_steps(i);
    assert(batch.schedule()[from] == here[0]);
    if here.len() > 1 {
        assert(batch.schedule()[from + 1] == here[1]);
    }
    if here.len() > 2 {
        assert(batch.schedule()[from + 2] == here[2]);
    }
}

proof fn lemma_padding_steps(batch: &OpBatch, first: int, g: int)
    requires
        0 <= first <= g <= batch.rounded_groups(),
    ensures
        ({
            let padding = batch.padding_before(first, g);
            &&& padding.len() == 2 * (g - first) - (if g > first && g == batch.rounded_groups() {
                1int
            } else {
                0
            })
            &&& forall|j: int|
                first <= j < g ==> #[trigger] padding[2 * (j - first)] == (BatchStep::ExecuteOp {
                    op: Operation::Noop,
                    op_idx_in_group: 0,
                })
            &&& forall|j: int|
                first <= j < g && j < batch.rounded_groups() - 1 ==> #[trigger] padding[2 * (j
                    - first) + 1] == (BatchStep::StartGroup { group: felt(0) })
        }),
    decreases g - first,
{
    if g > first {
        lemma_padding_steps(batch, first, g - 1);
    }
}

/// When the operations of a batch have run, one NOOP runs in each group that is left to run. A group
/// of zeros starts before each of them but the first, whose group has been started.
pub proof fn law_padding_groups_run_one_noop(batch: &OpBatch, j: int)
    requires
        batch.num_groups <= 8,
        0 <= batch.cursor(batch.ops@.len() as int).group,
        0 <= j,
    ensures
        ({
            let n = batch.ops@.len() as int;
            let schedule = batch.schedule();
            let from = batch.steps_before(n).len() as int;
            let left = batch.rounded_groups() - batch.cursor(n).group;
            &&& left <= 0 ==> schedule.len() == from
            &&& left > 0 ==> schedule.len() == from + 2 * left - 1
            &&& j < left ==> schedule[from + 2 * j] == (BatchStep::ExecuteOp {
                op: Operation::Noop,
                op_idx_in_group: 0,
            })
            &&& j < left - 1 ==> schedule[from + 2 * j + 1] == (BatchStep::StartGroup {
                group: felt(0),
            })
        }),
{
    let n = batch.ops@.len() as int;
    let first = batch.cursor(n).group;
    let rounded = batch.rounded_groups();
    let padding = batch.padding_before(first, rounded);
    if first < rounded {
        lemma_padding_steps(batch, first, rounded);
        if j < rounded - first {
            assert(padding[2 * ((first + j) - first)] == (BatchStep::ExecuteOp {
                op: Operation::Noop,
                op_idx_in_group: 0,
            }));
        }
        if j < rounded - first - 1 {
            assert(padding[2 * ((first + j) - first) + 1] == (BatchStep::StartGroup {
                group: felt(0),
            }));
        }
    }
}

/// Whatever runs for an operation stands in the group of the operation: the operation itself and, if
/// it carries an immediate value and is the last one of the group, the NOOP right behind it.
pub proof fn law_operations_stand_in_their_groups(batch: &OpBatch, i: int)
    requires
        0 <= i < batch.ops@.len(),
    ensures
        ({
            let positions = batch.runtime_positions();
            let at = batch.cursor(i);
            let k = batch.positions_before(i).len() as int;
            let closes = at.op_in_group + 1 == batch.op_counts@[at.group];
            let noops: int = if closes && takes_a_group(batch.ops@[i]) {
                1
            } else {
                0
            };
            &&& batch.positions_before(0).len() == 0
            &&& batch.positions_before(i + 1).len() == k + 1 + noops
            &&& k + 1 + noops <= positions.len()
            &&& positions[k] == (at.group, at.op_in_group)
            &&& noops == 1 ==> positions[k + 1] == (at.group, at.op_in_group + 1)
        }),
{
    lemma_op_positions_stand_in_batch(batch, i);
    let k = batch.positions_before(i).len() as int;
    let here = batch.op_positions(i);
    assert(batch.runtime_positions()[k] == here[0]);
    if here.len() > 1 {
        assert(batch.runtime_positions()[k + 1] == here[1]);
    }
}

/// The padding NOOPs of a batch stand at the start of the groups that are left to run, one in each.
pub proof fn law_padding_stands_in_the_groups_left(batch: &OpBatch, j: int)
    requires
        0 <= j,
    ensures
        ({
            let n = batch.ops@.len() as int;
            let positions = batch.runtime_positions();
            let k = batch.positions_before(n).len() as int;
            let left = batch.rounded_groups() - batch.cursor(n).group;
            &&& left <= 0 ==> positions.len() == k
            &&& left > 0 ==> positions.len() == k + left
            &&& j < left ==> positions[k + j] == (batch.cursor(n).group + j, 0int)
        }),
{
}

/// What is left of a batch starts with an operation, and nothing is left once all operations have
/// run.
pub proof fn law_what_is_left_starts_with_an_operation(steps: Seq<BatchStep>, n: int)
    requires
        0 <= n,
    ensures
        n < count_ops(steps) ==> skip_ops(steps, n).len() > 0 && skip_ops(steps, n)[0] is ExecuteOp,
        n >= count_ops(steps) ==> skip_ops(steps, n).len() == 0,
    decreases steps.len(),
{
    if steps.len() > 0 {
        if steps[0] is ExecuteOp {
            if n > 0 {
                law_what_is_left_starts_with_an_operation(steps.drop_first(), n - 1);
            }
        } else {
            law_what_is_left_starts_with_an_operation(steps.drop_first(), n);
        }
    }
}

} // verus!
