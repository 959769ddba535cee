//! Work that is left to do while a fragment is generated.
use vstd::prelude::*;

use crate::block_stack::ContextId;
use crate::felt::{Felt, Word};
use crate::mast::MastNodeId;
use crate::op_batch::BatchStep;
use crate::operation::Operation;

verus! {

/// A piece of work.
#[derive(Clone, Copy, Debug, PartialEq, Eq)]
pub enum Task {
    /// Execute a node.
    ExecuteNode(MastNodeId),
    /// Set up the decoder for a basic block that has been started, and run its batches.
    EnterSpan(MastNodeId),
    /// Run the batches of a basic block from the given one on, each with a RESPAN before it.
    RunBatchesFrom { node_id: MastNodeId, batch_index: usize },
    /// Add a RESPAN row before a batch.
    Respan { node_id: MastNodeId, batch_index: usize },
    /// Run a batch from the given operation on.
    RunBatch { node_id: MastNodeId, batch_index: usize, start_op_idx: usize },
    /// Do a step of a batch.
    Step(BatchStep),
    /// Add the row of an operation that has been performed.
    AddOperationRow { op: Operation, op_idx_in_group: usize },
    /// Execute the child of a split node that the top of the stack selects.
    TakeBranch(MastNodeId),
    /// Repeat the body of a loop node if the top of the stack says so.
    TestLoop(MastNodeId),
    /// Repeat the body of a loop node at the start of a fragment.
    RepeatLoop(MastNodeId),
    /// Set up the context of a call node and execute the callee.
    EnterCall(MastNodeId),
    /// Go back to a calling context.
    RestoreContext { ctx: ContextId, fmp: Felt, in_syscall: bool, fn_hash: Word },
    /// Add the row that ends a node.
    EndNode(MastNodeId),
    /// Continue with what was left to execute at the start of the fragment.
    FollowContinuations,
}

} // verus!
