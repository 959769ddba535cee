//! Laws of what is recorded while a program is executed.
use std::sync::Arc;

use vstd::prelude::*;

use crate::checkpoints::{NodeExecutionPhase, SystemState};
use crate::continuation_stack::Continuation;
use crate::felt::{Felt, Word, felt};
use crate::mast::MastForest;
use crate::trace_state_builder::{BuilderView, HasherOp, HasherShimView};

verus! {

/// Rows of the hasher chiplet: eight for a control block, eight for each batch of a basic block,
/// eight for a permutation, eight for each level of a Merkle path, and twice as many where a root is
/// updated. Operations follow each other without a gap.
pub proof fn law_hasher_operations_take_their_rows(
    shim: HasherShimView,
    num_op_batches: usize,
    hashed_state: [Felt; 12],
    depth: u8,
    root: Word,
    new_root: Word,
)
    requires
        num_op_batches <= u32::MAX,
    ensures
        ({
            let control = HasherOp::HashControlBlock;
            let basic = HasherOp::HashBasicBlock { num_op_batches };
            let permute = HasherOp::Permute { hashed_state };
            let build = HasherOp::BuildMerkleRoot { depth, computed_root: root };
            let update = HasherOp::UpdateMerkleRoot { depth, old_root: root, new_root };
            &&& shim.addr + 8 <= 0xffff_ffff ==> shim.perform(control).addr == shim.addr + 8
            &&& shim.addr + 8 * num_op_batches <= 0xffff_ffff ==> shim.perform(basic).addr == shim.addr + 8 * num_op_batches
            &&& shim.addr + 8 <= 0xffff_ffff ==> shim.perform(permute).addr == shim.addr + 8
            &&& shim.addr + 8 * depth <= 0xffff_ffff ==> shim.perform(build).addr == shim.addr + 8 * depth
            &&& shim.addr + 16 * depth <= 0xffff_ffff ==> shim.perform(update).addr == shim.addr + 16 * depth
        }),
{
}

/// There is room for a hasher operation exactly if the address after it fits into 32 bits.
pub proof fn law_room_for_hasher_operations(
    shim: HasherShimView,
    num_op_batches: usize,
    hashed_state: [Felt; 12],
    depth: u8,
    root: Word,
    new_root: Word,
)
    requires
        num_op_batches <= u32::MAX,
    ensures
        ({
            let control = HasherOp::HashControlBlock;
            let basic = HasherOp::HashBasicBlock { num_op_batches };
            let permute = HasherOp::Permute { hashed_state };
            let build = HasherOp::BuildMerkleRoot { depth, computed_root: root };
            let update = HasherOp::UpdateMerkleRoot { depth, old_root: root, new_root };
            &&& shim.has_room_for(control) <==> shim.addr + 8 <= 0xffff_ffff
            &&& shim.has_room_for(basic) <==> shim.addr + 8 * num_op_batches <= 0xffff_ffff
            &&& shim.has_room_for(permute) <==> shim.addr + 8 <= 0xffff_ffff
            &&& shim.has_room_for(build) <==> shim.addr + 8 * depth <= 0xffff_ffff
            &&& shim.has_room_for(update) <==> shim.addr + 16 * depth <= 0xffff_ffff
        }),
{
}

/// Each hasher operation is recorded, after the earlier ones of its kind, with its address and its
/// result. Recordings of other kinds stay as they are.
pub proof fn law_hasher_results_are_recorded_by_kind(
    shim: HasherShimView,
    num_op_batches: usize,
    hashed_state: [Felt; 12],
    depth: u8,
    root: Word,
    new_root: Word,
)
    ensures
        ({
            let addr = felt(shim.addr as int);
            let before = shim.replay;
            let control = shim.perform(HasherOp::HashControlBlock).replay;
            let basic = shim.perform((HasherOp::HashBasicBlock { num_op_batches })).replay;
            let permute = shim.perform((HasherOp::Permute { hashed_state })).replay;
            let build = shim.perform(
                (HasherOp::BuildMerkleRoot { depth, computed_root: root }),
            ).replay;
            let update = shim.perform(
                (HasherOp::UpdateMerkleRoot { depth, old_root: root, new_root }),
            ).replay;
            &&& control.block_addresses == before.block_addresses.push(addr)
            &&& control.permutation_operations == before.permutation_operations
            &&& control.build_merkle_root_operations == before.build_merkle_root_operations
            &&& control.mrupdate_operations == before.mrupdate_operations
            &&& basic == control
            &&& permute.permutation_operations == before.permutation_operations.push(
                (addr, hashed_state),
            )
            &&& permute.block_addresses == before.block_addresses
            &&& permute.build_merkle_root_operations == before.build_merkle_root_operations
            &&& permute.mrupdate_operations == before.mrupdate_operations
            &&& build.build_merkle_root_operations == before.build_merkle_root_operations.push(
                (addr, root),
            )
            &&& build.block_addresses == before.block_addresses
            &&& build.permutation_operations == before.permutation_operations
            &&& build.mrupdate_operations == before.mrupdate_operations
            &&& update.mrupdate_operations == before.mrupdate_operations.push(
                (addr, root, new_root),
            )
            &&& update.block_addresses == before.block_addresses
            &&& update.permutation_operations == before.permutation_operations
            &&& update.build_merkle_root_operations == before.build_merkle_root_operations
        }),
{
}

/// Starting a fragment ends the one before it and remembers the start. The overflow table, the block
/// stack and the hasher address go on; recording starts afresh if a fragment was being executed.
pub proof fn law_starting_goes_on_from_the_end(
    builder: BuilderView,
    system: SystemState,
    stack_top: Seq<Felt>,
    continuation_stack: Seq<Continuation>,
    exec_phase: NodeExecutionPhase,
    forest: Arc<MastForest>,
)
    ensures
        ({
            let started = builder.start(system, stack_top, continuation_stack, exec_phase, forest);
            let ended = builder.finish();
            &&& started.overflow == builder.overflow
            &&& started.block_stack == builder.block_stack
            &&& started.hasher.addr == builder.hasher.addr
            &&& started.hasher == ended.hasher
            &&& started.memory == ended.memory
            &&& started.advice == ended.advice
            &&& started.external == ended.external
            &&& started.states == ended.states
            &&& started.snapshot matches Some(snapshot) && {
                &&& snapshot.system == system
                &&& snapshot.stack.top == stack_top
                &&& snapshot.stack.overflow == builder.overflow
                &&& snapshot.continuation_stack == continuation_stack
                &&& snapshot.exec_phase == exec_phase
                &&& snapshot.initial_mast_forest == forest
                &&& snapshot.block_stack == builder.block_stack
            }
            &&& builder.snapshot is Some ==> {
                &&& started.states.len() == builder.states.len() + 1
                &&& started.hasher.replay.block_addresses.len() == 0
                &&& started.hasher.replay.permutation_operations.len() == 0
                &&& started.hasher.replay.build_merkle_root_operations.len() == 0
                &&& started.hasher.replay.mrupdate_operations.len() == 0
                &&& started.memory.elements_read.len() == 0
                &&& started.memory.words_read.len() == 0
                &&& started.advice.stack_pops.len() == 0
                &&& started.advice.stack_word_pops.len() == 0
                &&& started.advice.stack_dword_pops.len() == 0
                &&& started.external.len() == 0
            }
        }),
{
}

/// A new builder has recorded nothing: no block is being executed, no stack element has overflowed,
/// no fragment has started or ended, and the first hasher operation has address 1.
pub proof fn law_new_builders_have_recorded_nothing()
    ensures
        ({
            let builder = BuilderView::initial();
            &&& builder.overflow.current.len() == 0
            &&& builder.overflow.suspended.len() == 0
            &&& builder.overflow.clk == 0
            &&& builder.block_stack.len() == 0
            &&& builder.hasher.addr == 1
            &&& builder.hasher.replay.block_addresses.len() == 0
            &&& builder.hasher.replay.permutation_operations.len() == 0
            &&& builder.hasher.replay.build_merkle_root_operations.len() == 0
            &&& builder.hasher.replay.mrupdate_operations.len() == 0
            &&& builder.memory.elements_read.len() == 0
            &&& builder.memory.words_read.len() == 0
            &&& builder.advice.stack_pops.len() == 0
            &&& builder.advice.stack_word_pops.len() == 0
            &&& builder.advice.stack_dword_pops.len() == 0
            &&& builder.external.len() == 0
            &&& builder.snapshot is None
            &&& builder.states.len() == 0
        }),
{
}

} // verus!
