//! Programs as forests of code blocks.
use vstd::prelude::*;

use crate::felt::Word;
use crate::op_batch::{BATCH_SIZE, OpBatch};
use crate::power::{lemma_next_power_small, next_power_of_two};

verus! {

/// Identifies a node within its forest.
#[derive(Clone, Copy, Debug, PartialEq, Eq, Structural)]
pub struct MastNodeId(pub u32);

/// A linear sequence of operations, broken up into batches.
#[derive(Debug)]
pub struct BasicBlockNode {
    pub op_batches: Vec<OpBatch>,
    pub digest: Word,
}

/// Runs two children, one after the other.
#[derive(Debug)]
pub struct JoinNode {
    pub first: MastNodeId,
    pub second: MastNodeId,
    pub digest: Word,
}

/// Runs one of two children, depending on the top of the stack.
#[derive(Debug)]
pub struct SplitNode {
    pub on_true: MastNodeId,
    pub on_false: MastNodeId,
    pub digest: Word,
}

/// Runs its body for as long as the top of the stack says so.
#[derive(Debug)]
pub struct LoopNode {
    pub body: MastNodeId,
    pub digest: Word,
}

/// Runs its callee in a context of its own, or, for a system call, in the root context.
#[derive(Debug)]
pub struct CallNode {
    pub callee: MastNodeId,
    pub is_syscall: bool,
    pub digest: Word,
}

/// Runs a target that the stack specifies; a dynamic call runs it in a context of its own.
#[derive(Debug)]
pub struct DynNode {
    pub is_dyncall: bool,
    pub digest: Word,
}

/// Stands for a node of another forest.
#[derive(Debug)]
pub struct ExternalNode {
    pub digest: Word,
}

/// A code block.
#[derive(Debug)]
pub enum MastNode {
    Block(BasicBlockNode),
    Join(JoinNode),
    Split(SplitNode),
    Loop(LoopNode),
    Call(CallNode),
    Dyn(DynNode),
    External(ExternalNode),
}

/// Code blocks that refer to each other by their index.
#[derive(Debug)]
pub struct MastForest {
    pub nodes: Vec<MastNode>,
}

impl BasicBlockNode {
    /// Validity of a basic block: it has a batch, its batches are valid, and they are not more than
    /// fit into memory.
    pub open spec fn wf(&self) -> bool {
        &&& 1 <= self.op_batches@.len() <= usize::MAX / 16
        &&& forall|i: int| 0 <= i < self.op_batches@.len() ==> (#[trigger] self.op_batches@[i]).wf()
    }

    /// Number of operation groups in the block: eight for every batch but the last, whose number
    /// of groups is rounded up to a power of two.
    pub open spec fn op_group_count(&self) -> int {
        (self.op_batches@.len() - 1) * BATCH_SIZE + self.op_batches@.last().rounded_groups()
    }

    /// Whether the block has a batch, and its batches are valid.
    pub fn is_valid(&self) -> (r: bool)
        ensures
            r == self.wf(),
    {
        let n: usize = self.op_batches.len();
        if n < 1 || n > usize::MAX / 16 {
            return false;
        }
        for i in 0..n
            invariant
                n == self.op_batches@.len(),
                forall|k: int| 0 <= k < i ==> (#[trigger] self.op_batches@[k]).wf(),
        {
            if !self.op_batches[i].is_valid() {
                return false;
            }
        }
        true
    }

    /// Number of operation groups in the block.
    pub fn num_op_groups(&self) -> (r: usize)
        requires
            self.wf(),
        ensures
            r == self.op_group_count(),
            1 <= r <= self.op_batches@.len() * BATCH_SIZE,
    {
        let n: usize = self.op_batches.len();
        let last = &self.op_batches[n - 1];
        proof {
            lemma_next_power_small(last.num_groups as nat);
        }
        (n - 1) * BATCH_SIZE + next_power_of_two(last.num_groups)
    }

    /// Number of operation batches in the block.
    pub fn num_op_batches(&self) -> (r: usize)
        ensures
            r == self.op_batches@.len(),
    {
        self.op_batches.len()
    }
}

impl MastNode {
    /// Digest of the node.
    pub open spec fn digest_of(&self) -> Word {
        match self {
            MastNode::Block(node) => node.digest,
            MastNode::Join(node) => node.digest,
            MastNode::Split(node) => node.digest,
            MastNode::Loop(node) => node.digest,
            MastNode::Call(node) => node.digest,
            MastNode::Dyn(node) => node.digest,
            MastNode::External(node) => node.digest,
        }
    }

    /// Digest of the node.
    pub fn digest(&self) -> (r: Word)
        ensures
            r == self.digest_of(),
    {
        match self {
            MastNode::Block(node) => node.digest,
            MastNode::Join(node) => node.digest,
            MastNode::Split(node) => node.digest,
            MastNode::Loop(node) => node.digest,
            MastNode::Call(node) => node.digest,
            MastNode::Dyn(node) => node.digest,
            MastNode::External(node) => node.digest,
        }
    }
}

impl MastForest {
    /// Whether the forest has a node with this identifier.
    pub open spec fn has(&self, id: MastNodeId) -> bool {
        id.0 < self.nodes@.len()
    }

    /// The node with this identifier.
    pub open spec fn node(&self, id: MastNodeId) -> MastNode {
        self.nodes@[id.0 as int]
    }

    /// The node with this identifier, if the forest has it.
    pub fn get_node_by_id(&self, id: MastNodeId) -> (r: Option<&MastNode>)
        ensures
            r is Some <==> self.has(id),
            r is Some ==> *r->0 == self.node(id),
    {
        let index: usize = id.0 as usize;
        if index < self.nodes.len() {
            Some(&self.nodes[index])
        } else {
            None
        }
    }
}

} // verus!
