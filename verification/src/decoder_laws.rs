//! Laws of the decoder state within basic blocks.
use vstd::arithmetic::power2::{lemma_pow2_pos, pow2};
use vstd::prelude::*;

use crate::felt::{MODULUS, felt, lemma_felt_view};
use crate::mast::BasicBlockNode;
use crate::op_batch::{OpBatch, lemma_op_positions_stand_in_batch};
use crate::operation::Operation;
use crate::power::{lemma_next_power_is_least, lemma_next_power_small};
use crate::span::{
    carries_immediate, encodes_operations, fills_groups, groups_before, groups_consumed,
    immediates_before, lemma_immediates_at_cursor, lemma_immediates_step, opcode_at,
    span_context_at,
};

verus! {

/// Exactly PUSH and EMIT carry an immediate value, and these are their opcodes.
pub proof fn law_immediates_belong_to_push_and_emit(op: Operation, opcode: u8)
    ensures
        op.immediate() is Some <==> op is Push || op is Emit,
        op matches Operation::Push(value) ==> op.immediate() == Some(value),
        op matches Operation::Emit(event_id) ==> op.immediate() == Some(felt(event_id as int)),
        carries_immediate(opcode) <==> opcode == 91 || opcode == 90,
{
}

/// The opcodes of a group are its digits to the base 128, the first operation least significant.
pub proof fn law_groups_are_read_digit_by_digit(group: u64, k: nat)
    ensures
        opcode_at(group, 0) == group % 128,
        opcode_at(group, k + 1) == opcode_at(group / 128, k),
        immediates_before(group, 0) == 0,
        immediates_before(group, k + 1) == immediates_before(group, k) + (if opcode_at(group, k)
            == 91 || opcode_at(group, k) == 90 {
            1nat
        } else {
            0nat
        }),
{
    assert((group & 0b1111111) as u8 == group % 128) by (bit_vector);
    assert(group >> 7usize == group / 128) by (bit_vector);
    lemma_immediates_step(group, k);
}

proof fn lemma_batches_start_with_the_first_group(batch: &OpBatch)
    ensures
        batch.runtime_positions().len() > 0,
        batch.runtime_positions()[0] == (0int, 0int),
{
    lemma_next_power_is_least(batch.num_groups as nat);
    if batch.ops@.len() > 0 {
        lemma_op_positions_stand_in_batch(batch, 0);
    } else {
        assert(batch.rounded_groups() >= 1) by {
            reveal_with_fuel(crate::power::next_power, 2);
        }
    }
    batch.lemma_first_position();
}

/// The first operation of each batch comes after all groups of the batches before it: from one
/// batch to the next, as many groups are consumed as the former has.
pub proof fn law_batches_consume_their_groups(block: &BasicBlockNode, b: int)
    requires
        0 <= b,
        b + 1 < block.op_batches@.len(),
    ensures
        groups_consumed(block, b + 1, 0) == groups_consumed(block, b, 0)
            + block.op_batches@[b].num_groups,
{
    lemma_batches_start_with_the_first_group(&block.op_batches@[b]);
    lemma_batches_start_with_the_first_group(&block.op_batches@[b + 1]);
}

/// At the first operation of a block, one group is consumed: the one that SPAN consumes.
pub proof fn law_span_consumes_the_first_group(block: &BasicBlockNode)
    requires
        block.op_batches@.len() > 0,
    ensures
        groups_consumed(block, 0, 0) == 1,
{
    lemma_batches_start_with_the_first_group(&block.op_batches@[0]);
}

/// Full batches have eight groups: at the start of a batch that only full ones precede, eight groups
/// are consumed for each of these, and the one that SPAN consumes.
pub proof fn law_full_batches_consume_eight_groups(block: &BasicBlockNode, b: int)
    requires
        0 <= b < block.op_batches@.len(),
        forall|j: int| 0 <= j < b ==> (#[trigger] block.op_batches@[j]).num_groups == 8,
    ensures
        groups_before(block.op_batches@, b) == 8 * b,
        groups_consumed(block, b, 0) == 1 + 8 * b,
{
    lemma_batches_start_with_the_first_group(&block.op_batches@[b]);
    lemma_full_batches(block.op_batches@, b);
}

proof fn lemma_full_batches(batches: Seq<OpBatch>, b: int)
    requires
        0 <= b,
        forall|j: int| 0 <= j < b ==> (#[trigger] batches[j]).num_groups == 8,
    ensures
        groups_before(batches, b) == 8 * b,
    decreases b,
{
    if b > 0 {
        lemma_full_batches(batches, b - 1);
        assert(batches[b - 1].num_groups == 8);
    }
}

/// Within a batch, the groups before that of an operation are consumed, and the immediate values of
/// the operations before it in its group.
pub proof fn law_operations_consume_what_precedes_them(
    block: &BasicBlockNode,
    b: int,
    k: int,
)
    requires
        0 <= b < block.op_batches@.len(),
        0 <= k < block.op_batches@[b].runtime_positions().len(),
    ensures
        ({
            let batch = block.op_batches@[b];
            let (group, op_in_group) = batch.runtime_positions()[k];
            groups_consumed(block, b, k) == groups_consumed(block, b, 0) + group
                + immediates_before(batch.groups@[group]@ as u64, op_in_group as nat)
        }),
{
    block.op_batches@[b].lemma_first_position();
}

/// Number of groups of a block: eight for each batch but the last one, whose number of groups is
/// rounded up to 1, 2, 4 or 8.
pub proof fn law_blocks_count_their_groups(block: &BasicBlockNode)
    requires
        block.wf(),
    ensures
        ({
            let n = block.op_batches@.len();
            let last = block.op_batches@[n - 1].num_groups;
            block.op_group_count() == 8 * (n - 1) + (if last <= 1 {
                1int
            } else if last == 2 {
                2
            } else if last <= 4 {
                4
            } else {
                8
            })
        }),
{
    assert(block.op_batches@.last().wf());
    reveal_with_fuel(crate::power::next_power, 5);
}

proof fn lemma_last_operation_consumes_the_batch(batch: &OpBatch)
    requires
        batch.wf(),
        encodes_operations(batch),
        fills_groups(batch),
    ensures
        ({
            let positions = batch.runtime_positions();
            let (group, op_in_group) = positions[positions.len() - 1];
            &&& positions.len() > 0
            &&& 1 + group + immediates_before(
                batch.groups@[group]@ as u64,
                op_in_group as nat,
            ) == batch.rounded_groups()
        }),
{
    let n = batch.ops@.len() as int;
    let end = batch.cursor(n);
    let positions = batch.runtime_positions();
    lemma_next_power_small(batch.num_groups as nat);
    lemma_op_positions_stand_in_batch(batch, n - 1);
    if end.group < batch.rounded_groups() {
        assert(positions[positions.len() - 1] == (batch.rounded_groups() - 1, 0int));
    } else {
        let at = batch.cursor(n - 1);
        lemma_immediates_at_cursor(batch, n - 1);
        lemma_immediates_step(batch.groups@[at.group]@ as u64, at.op_in_group as nat);
        assert(end == batch.advance(at, batch.ops@[n - 1]));
        let here = batch.op_positions(n - 1);
        assert(positions[positions.len() - 1] == here[here.len() - 1]);
        assert(batch.cursor(n - 1).next_group + (if batch.ops@[n - 1].immediate() is Some {
            1int
        } else {
            0
        }) == batch.num_groups);
    }
}

/// When the last operation of a block has run, no group of the block is left, provided that all
/// batches but the last one are full, and that the last one encodes its operations and is filled by
/// them. Before the last operation, that is so already, since an immediate value at the end of a
/// group is followed by a NOOP.
pub proof fn law_blocks_end_with_no_group_left(block: &BasicBlockNode)
    requires
        block.wf(),
        forall|j: int|
            0 <= j < block.op_batches@.len() - 1 ==> (#[trigger] block.op_batches@[j]).num_groups
                == 8,
        encodes_operations(&block.op_batches@.last()),
        fills_groups(&block.op_batches@.last()),
    ensures
        ({
            let b = block.op_batches@.len() - 1;
            let k = block.op_batches@[b].runtime_positions().len() - 1;
            &&& k >= 0
            &&& groups_consumed(block, b, k) == block.op_group_count()
            &&& span_context_at(block, b, k).num_groups_left == felt(0)
        }),
{
    let b = block.op_batches@.len() - 1;
    let batch = block.op_batches@[b];
    assert(batch.wf());
    lemma_last_operation_consumes_the_batch(&batch);
    lemma_full_batches(block.op_batches@, b);
}

proof fn lemma_shift_is_division(group: u64, shift: usize)
    requires
        shift < 64,
    ensures
        (group >> shift) as int == group as int / pow2(shift as nat) as int,
{
    vstd::bits::lemma_u64_shr_is_div(group, shift as u64);
    assert(group >> shift == group >> (shift as u64)) by (bit_vector)
        requires
            shift < 64,
    ;
}

/// The decoder at an operation: the operations before it have been shifted out of its group, seven
/// bits each, and the number of groups left is what has not been consumed.
pub proof fn law_decoder_holds_what_is_left(block: &BasicBlockNode, b: int, k: int)
    requires
        block.wf(),
        0 <= b < block.op_batches@.len(),
        0 <= k < block.op_batches@[b].runtime_positions().len(),
        groups_consumed(block, b, k) <= block.op_group_count() <= u32::MAX,
        0 <= block.op_batches@[b].groups@[block.op_batches@[b].runtime_positions()[k].0]@ < MODULUS,
    ensures
        ({
            let batch = block.op_batches@[b];
            let (group, op_in_group) = batch.runtime_positions()[k];
            let context = span_context_at(block, b, k);
            &&& context.group_ops_left@ == batch.groups@[group]@ / (pow2(
                (7 * op_in_group) as nat,
            ) as int)
            &&& context.num_groups_left@ == block.op_group_count() - groups_consumed(block, b, k)
        }),
{
    let batch = block.op_batches@[b];
    let (group, op_in_group) = batch.runtime_positions()[k];
    batch.lemma_positions_in_range(k);
    let value = batch.groups@[group]@ as u64;
    let shift = (7 * op_in_group) as usize;
    lemma_shift_is_division(value, shift);
    lemma_pow2_pos(shift as nat);
    assert(value >> shift <= value) by (bit_vector)
        requires
            shift < 64,
    ;
    lemma_felt_view((value >> shift) as int);
    let left = block.op_group_count() - groups_consumed(block, b, k);
    assert(groups_consumed(block, b, k) >= 0);
    lemma_felt_view(left);
}

} // verus!
