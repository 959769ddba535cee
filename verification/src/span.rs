//! Decoder state while a basic block runs.
use vstd::prelude::*;

use crate::felt::{Felt, MODULUS, felt, lemma_felt_of_view, lemma_felt_view};
use crate::mast::BasicBlockNode;
use crate::op_batch::{
    BATCH_SIZE, OpBatch, decompose_op_idx_in_batch, law_batch_runs_its_operations,
    lemma_op_positions_stand_in_batch, run_ops,
};
use crate::operation::{NUM_OP_BITS, OPCODE_EMIT, OPCODE_PUSH};
use crate::power::lemma_next_power_small;

verus! {

/// Decoder state while a basic block runs.
#[derive(Clone, Copy, Debug, PartialEq, Eq, Structural)]
pub struct SpanContext {
    /// Operations of the current group that are left to run, encoded.
    pub group_ops_left: Felt,
    /// Number of operation groups of the block that are left to run.
    pub num_groups_left: Felt,
}

/// Whether an operation with this opcode carries an immediate value.
pub open spec fn carries_immediate(opcode: u8) -> bool {
    opcode == OPCODE_PUSH || opcode == OPCODE_EMIT
}

/// Opcode of the `k`-th operation of an encoded group.
pub open spec fn opcode_at(group: u64, k: nat) -> u8
    decreases k,
{
    if k == 0 {
        (group & 0b1111111) as u8
    } else {
        opcode_at(group >> 7usize, (k - 1) as nat)
    }
}

/// Number of operations that carry an immediate value among the first `k` of an encoded group.
pub open spec fn immediates_before(group: u64, k: nat) -> nat
    decreases k,
{
    if k == 0 {
        0
    } else {
        (if carries_immediate((group & 0b1111111) as u8) {
            1nat
        } else {
            0nat
        }) + immediates_before(group >> 7usize, (k - 1) as nat)
    }
}

/// Number of groups in the first `n` batches.
pub open spec fn groups_before(batches: Seq<OpBatch>, n: int) -> nat
    decreases n,
{
    if n <= 0 {
        0
    } else {
        groups_before(batches, n - 1) + batches[n - 1].num_groups as nat
    }
}

/// Number of groups of a block that are consumed when an operation is about to run: the first
/// group, which the SPAN operation consumes, those of the batches before, those before the group
/// of the operation, and the immediate values of the operations before it in its group.
pub open spec fn groups_consumed(
    block: &BasicBlockNode,
    batch_index: int,
    op_idx_in_batch: int,
) -> int {
    let batch = block.op_batches@[batch_index];
    let (group, op_in_group) = batch.runtime_positions()[op_idx_in_batch];
    1 + groups_before(block.op_batches@, batch_index) + immediates_before(
        batch.groups@[group]@ as u64,
        op_in_group as nat,
    ) + group
}

/// Decoder state at an operation of a basic block.
pub open spec fn span_context_at(
    block: &BasicBlockNode,
    batch_index: int,
    op_idx_in_batch: int,
) -> SpanContext {
    let batch = block.op_batches@[batch_index];
    let (group, op_in_group) = batch.runtime_positions()[op_idx_in_batch];
    let left = block.op_group_count() - groups_consumed(block, batch_index, op_idx_in_batch);
    SpanContext {
        group_ops_left: felt(
            ((batch.groups@[group]@ as u64) >> ((NUM_OP_BITS * op_in_group) as usize)) as int,
        ),
        num_groups_left: felt((left as usize as u32) as int),
    }
}

proof fn lemma_immediates_bound(group: u64, k: nat)
    ensures
        immediates_before(group, k) <= k,
    decreases k,
{
    if k > 0 {
        lemma_immediates_bound(group >> 7usize, (k - 1) as nat);
    }
}

/// Number of groups of a block that are consumed when an operation is about to run.
pub fn count_groups_consumed(
    basic_block_node: &BasicBlockNode,
    batch_index: usize,
    op_idx_in_batch: usize,
) -> (r: usize)
    requires
        basic_block_node.wf(),
        batch_index < basic_block_node.op_batches@.len(),
        op_idx_in_batch < basic_block_node.op_batches@[batch_index as int].runtime_positions().len(),
    ensures
        r == groups_consumed(basic_block_node, batch_index as int, op_idx_in_batch as int),
{
    let batch = &basic_block_node.op_batches[batch_index];
    proof {
        batch.lemma_positions_in_range(op_idx_in_batch as int);
    }
    let (current_op_group_idx, op_idx_in_group) = decompose_op_idx_in_batch(batch, op_idx_in_batch);
    let group: u64 = batch.groups[current_op_group_idx].as_int();
    proof {
        lemma_immediates_bound(group, op_idx_in_group as nat);
    }

    let mut groups_consumed: usize = 1;
    for i in 0..batch_index
        invariant
            basic_block_node.wf(),
            batch_index < basic_block_node.op_batches@.len(),
            groups_consumed == 1 + groups_before(basic_block_node.op_batches@, i as int),
            groups_consumed <= 1 + i * BATCH_SIZE,
    {
        assert(basic_block_node.op_batches@[i as int].wf());
        groups_consumed = groups_consumed + basic_block_node.op_batches[i].num_groups;
    }
    let ghost in_batches = groups_consumed;

    let mut current_op_group: u64 = group;
    for k in 0..op_idx_in_group
        invariant
            in_batches + immediates_before(group, op_idx_in_group as nat) == groups_consumed
                + immediates_before(current_op_group, (op_idx_in_group - k) as nat),
            in_batches + immediates_before(group, op_idx_in_group as nat) <= usize::MAX,
    {
        let current_op: u8 = (current_op_group & 0b1111111) as u8;
        if current_op == OPCODE_PUSH || current_op == OPCODE_EMIT {
            groups_consumed = groups_consumed + 1;
        }
        current_op_group = current_op_group >> NUM_OP_BITS;
    }
    groups_consumed + current_op_group_idx
}

/// Decoder state for a basic block that is resumed at an operation of one of its batches.
pub fn initialize_span_context(
    basic_block_node: &BasicBlockNode,
    batch_index: usize,
    op_idx_in_batch: usize,
) -> (r: SpanContext)
    requires
        basic_block_node.wf(),
        batch_index < basic_block_node.op_batches@.len(),
        op_idx_in_batch < basic_block_node.op_batches@[batch_index as int].runtime_positions().len(),
        groups_consumed(basic_block_node, batch_index as int, op_idx_in_batch as int)
            <= basic_block_node.op_group_count(),
    ensures
        r == span_context_at(basic_block_node, batch_index as int, op_idx_in_batch as int),
{
    let batch = &basic_block_node.op_batches[batch_index];
    proof {
        batch.lemma_positions_in_range(op_idx_in_batch as int);
    }
    let (current_op_group_idx, op_idx_in_group) = decompose_op_idx_in_batch(batch, op_idx_in_batch);

    // The operation itself is shifted out right before its row is written.
    let current_op_group: u64 = batch.groups[current_op_group_idx].as_int();
    let group_ops_left = Felt::new(current_op_group >> (NUM_OP_BITS * op_idx_in_group));

    let total_groups: usize = basic_block_node.num_op_groups();
    let consumed: usize = count_groups_consumed(basic_block_node, batch_index, op_idx_in_batch);
    let num_groups_left = Felt::new((total_groups - consumed) as u32 as u64);

    SpanContext { group_ops_left, num_groups_left }
}

// LAWS
// ================================================================================================

/// Whether the encoded groups of a batch hold its operations, as far as immediate values go.
pub open spec fn encodes_operations(batch: &OpBatch) -> bool {
    forall|i: int|
        0 <= i < batch.ops@.len() ==> {
            let at = #[trigger] batch.cursor(i);
            carries_immediate(opcode_at(batch.groups@[at.group]@ as u64, at.op_in_group as nat))
                == (batch.ops@[i].immediate() is Some)
        }
}

/// Whether the operations of a batch fill their groups, and the batch has no other groups.
pub open spec fn fills_groups(batch: &OpBatch) -> bool {
    let end = batch.cursor(batch.ops@.len() as int);
    &&& batch.ops@.len() > 0
    &&& end.op_in_group == 0
    &&& end.group == batch.num_groups
}

pub proof fn lemma_immediates_step(group: u64, k: nat)
    ensures
        immediates_before(group, k + 1) == immediates_before(group, k) + (if carries_immediate(
            opcode_at(group, k),
        ) {
            1nat
        } else {
            0nat
        }),
    decreases k,
{
    reveal_with_fuel(immediates_before, 2);
    if k > 0 {
        lemma_immediates_step(group >> 7usize, (k - 1) as nat);
    }
}

pub proof fn lemma_immediates_at_cursor(batch: &OpBatch, i: int)
    requires
        batch.wf(),
        encodes_operations(batch),
        0 <= i <= batch.ops@.len(),
    ensures
        batch.cursor(i).op_in_group >= 0,
        0 <= batch.cursor(i).group,
        immediates_before(
            batch.groups@[batch.cursor(i).group]@ as u64,
            batch.cursor(i).op_in_group as nat,
        ) == batch.cursor(i).next_group - batch.cursor(i).group - 1,
    decreases i,
{
    if i > 0 {
        lemma_immediates_at_cursor(batch, i - 1);
        let before = batch.cursor(i - 1);
        assert(batch.cursor(i) == batch.advance(before, batch.ops@[i - 1]));
        lemma_immediates_step(batch.groups@[before.group]@ as u64, before.op_in_group as nat);
    }
}

proof fn lemma_next_group_grows(batch: &OpBatch, i: int, j: int)
    requires
        0 <= i <= j,
    ensures
        batch.cursor(i).next_group <= batch.cursor(j).next_group,
    decreases j,
{
    if i < j {
        lemma_next_group_grows(batch, i, j - 1);
        assert(batch.cursor(j) == batch.advance(batch.cursor(j - 1), batch.ops@[j - 1]));
    }
}

/// Whether what runs as the `k`-th operation of a batch is its `i`-th operation, or the NOOP that is
/// inserted after it.
spec fn runs_for(batch: &OpBatch, i: int, k: int) -> bool {
    let first = batch.positions_before(i).len();
    k == first || (k == first + 1 && batch.inserts_noop(i))
}

proof fn lemma_position_of_operation(batch: &OpBatch, n: int, k: int) -> (i: int)
    requires
        0 <= n <= batch.ops@.len(),
        0 <= k < batch.positions_before(n).len(),
    ensures
        0 <= i < n,
        runs_for(batch, i, k),
        batch.positions_before(n)[k] == (
            batch.cursor(i).group,
            batch.cursor(i).op_in_group + k - batch.positions_before(i).len(),
        ),
    decreases n,
{
    if k < batch.positions_before(n - 1).len() {
        lemma_position_of_operation(batch, n - 1, k)
    } else {
        n - 1
    }
}

proof fn lemma_groups_before_bound(batches: Seq<OpBatch>, n: int)
    requires
        0 <= n <= batches.len(),
        forall|i: int| 0 <= i < batches.len() ==> (#[trigger] batches[i]).wf(),
    ensures
        groups_before(batches, n) <= n * BATCH_SIZE,
    decreases n,
{
    if n > 0 {
        lemma_groups_before_bound(batches, n - 1);
    }
}

/// No more groups are consumed at an operation of a basic block than the block has, provided that
/// the batch encodes its operations and is filled by them: a block can be resumed anywhere.
pub proof fn law_blocks_can_be_resumed(
    block: &BasicBlockNode,
    batch_index: int,
    op_idx_in_batch: int,
)
    requires
        block.wf(),
        0 <= batch_index < block.op_batches@.len(),
        encodes_operations(&block.op_batches@[batch_index]),
        fills_groups(&block.op_batches@[batch_index]),
        0 <= op_idx_in_batch < block.op_batches@[batch_index].runtime_positions().len(),
    ensures
        groups_consumed(block, batch_index, op_idx_in_batch) <= block.op_group_count(),
{
    let batch = block.op_batches@[batch_index];
    let n = batch.ops@.len() as int;
    let (group, op_in_group) = batch.runtime_positions()[op_idx_in_batch];
    let in_group = immediates_before(batch.groups@[group]@ as u64, op_in_group as nat);
    let rounded = batch.rounded_groups();
    lemma_next_power_small(batch.num_groups as nat);
    lemma_groups_before_bound(block.op_batches@, batch_index);
    if op_idx_in_batch < batch.positions_before(n).len() {
        let i = lemma_position_of_operation(&batch, n, op_idx_in_batch);
        let at = batch.cursor(i);
        lemma_immediates_at_cursor(&batch, i);
        lemma_immediates_at_cursor(&batch, n - 1);
        lemma_immediates_step(batch.groups@[at.group]@ as u64, at.op_in_group as nat);
        lemma_next_group_grows(&batch, i + 1, n);
        lemma_next_group_grows(&batch, i, n - 1);
        assert(batch.cursor(i + 1) == batch.advance(at, batch.ops@[i]));
        assert(batch.cursor(n) == batch.advance(batch.cursor(n - 1), batch.ops@[n - 1]));
        assert(batch.cursor(n).next_group == batch.num_groups + 1);
        assert(1 + in_group + group <= batch.num_groups);
    } else {
        assert(in_group == 0);
    }
    assert(1 + in_group + group <= rounded);
    if batch_index < block.op_batches@.len() - 1 {
        lemma_next_power_small(block.op_batches@.last().num_groups as nat);
    }
}

/// An operation that is followed by one in the same group is an operation of the batch, rather than
/// a NOOP that was inserted or pads the batch.
proof fn lemma_followed_in_group(batch: &OpBatch, k: int) -> (i: int)
    requires
        batch.wf(),
        0 <= k,
        k + 1 < batch.runtime_positions().len(),
        batch.runtime_positions()[k + 1].0 == batch.runtime_positions()[k].0,
    ensures
        0 <= i < batch.ops@.len(),
        k == batch.positions_before(i).len(),
        batch.runtime_positions()[k] == (batch.cursor(i).group, batch.cursor(i).op_in_group),
{
    let n = batch.ops@.len() as int;
    assert(k < batch.positions_before(n).len());
    let i = lemma_position_of_operation(batch, n, k);
    let at = batch.cursor(i);
    if k > batch.positions_before(i).len() {
        assert(batch.positions_before(i + 1) == batch.positions_before(i) + batch.op_positions(i));
        assert(batch.cursor(i + 1) == batch.advance(at, batch.ops@[i]));
        lemma_next_group_is_free(batch, i);
        assert(batch.cursor(i + 1).group != at.group);
        if i + 1 < n {
            lemma_op_positions_stand_in_batch(batch, i + 1);
            assert(batch.op_positions(i + 1)[0].0 == batch.cursor(i + 1).group);
        }
        assert(false);
    }
    i
}

proof fn lemma_next_group_is_free(batch: &OpBatch, i: int)
    requires
        0 <= i,
    ensures
        batch.cursor(i).group < batch.cursor(i).next_group,
    decreases i,
{
    if i > 0 {
        lemma_next_group_is_free(batch, i - 1);
    }
}

/// The decoder steps through a group as its operations run: from one operation to the next of the
/// group, the operation is shifted out of the group, and a group is consumed if the operation
/// carries an immediate value. This is stated of blocks whose number of groups fits into 32 bits.
pub proof fn law_decoder_steps_through_groups(
    block: &BasicBlockNode,
    batch_index: int,
    op_idx_in_batch: int,
)
    requires
        block.wf(),
        0 <= batch_index < block.op_batches@.len(),
        encodes_operations(&block.op_batches@[batch_index]),
        ({
            let batch = block.op_batches@[batch_index];
            let positions = batch.runtime_positions();
            &&& 0 <= op_idx_in_batch
            &&& op_idx_in_batch + 1 < positions.len()
            &&& positions[op_idx_in_batch + 1] == (
                positions[op_idx_in_batch].0,
                positions[op_idx_in_batch].1 + 1,
            )
            &&& batch.groups@[positions[op_idx_in_batch].0]@ < MODULUS
        }),
        groups_consumed(block, batch_index, op_idx_in_batch + 1) <= block.op_group_count(),
        block.op_group_count() <= u32::MAX,
    ensures
        ({
            let op = run_ops(block.op_batches@[batch_index].schedule())[op_idx_in_batch];
            let now = span_context_at(block, batch_index, op_idx_in_batch);
            let next = span_context_at(block, batch_index, op_idx_in_batch + 1);
            &&& next.group_ops_left@ == (now.group_ops_left@ as u64) >> 7usize
            &&& next.num_groups_left == felt(
                now.num_groups_left@ - if op.immediate() is Some {
                    1int
                } else {
                    0int
                },
            )
        }),
{
    let batch = block.op_batches@[batch_index];
    let i = lemma_followed_in_group(&batch, op_idx_in_batch);
    let at = batch.cursor(i);
    batch.lemma_positions_in_range(op_idx_in_batch);
    batch.lemma_positions_in_range(op_idx_in_batch + 1);
    law_batch_runs_its_operations(&batch);
    assert(run_ops(batch.schedule())[batch.positions_before(i).len() as int] == batch.ops@[i]);

    lemma_felt_of_view(batch.groups@[at.group]);
    let group = batch.groups@[at.group]@ as u64;
    lemma_immediates_step(group, at.op_in_group as nat);

    let shift = (NUM_OP_BITS * at.op_in_group) as usize;
    assert(shift <= 49);
    assert((group >> shift) >> 7usize == group >> ((shift + 7) as usize)) by (bit_vector)
        requires
            shift <= 49,
    ;
    assert(group >> shift <= group) by (bit_vector)
        requires
            shift <= 49,
    ;
    let next_shift = (shift + 7) as usize;
    assert(group >> next_shift <= group) by (bit_vector)
        requires
            next_shift <= 56,
    ;
    lemma_felt_view((group >> shift) as int);
    lemma_felt_view((group >> next_shift) as int);
    let left = block.op_group_count() - groups_consumed(block, batch_index, op_idx_in_batch);
    lemma_felt_view(left);
}

/// At the first operation of a group, the decoder holds the whole group.
pub proof fn law_groups_start_whole(block: &BasicBlockNode, batch_index: int, op_idx_in_batch: int)
    requires
        block.wf(),
        0 <= batch_index < block.op_batches@.len(),
        ({
            let batch = block.op_batches@[batch_index];
            let positions = batch.runtime_positions();
            &&& 0 <= op_idx_in_batch < positions.len()
            &&& positions[op_idx_in_batch].1 == 0
            &&& batch.groups@[positions[op_idx_in_batch].0]@ < MODULUS
        }),
    ensures
        ({
            let batch = block.op_batches@[batch_index];
            span_context_at(block, batch_index, op_idx_in_batch).group_ops_left
                == batch.groups@[batch.runtime_positions()[op_idx_in_batch].0]
        }),
{
    let batch = block.op_batches@[batch_index];
    let group = batch.groups@[batch.runtime_positions()[op_idx_in_batch].0];
    lemma_felt_of_view(group);
    let value = group@ as u64;
    assert(value >> 0usize == value) by (bit_vector);
}

} // verus!
