//! Code blocks that are being executed.
use vstd::prelude::*;

use crate::felt::{Felt, Word, felt};

verus! {

/// Identifies an execution context; the root context has number zero.
#[derive(Clone, Copy, Debug, PartialEq, Eq, Structural)]
pub struct ContextId(pub u32);

/// Kinds of code blocks.
#[derive(Clone, Copy, Debug, PartialEq, Eq, Structural)]
pub enum BlockType {
    /// Holds whether the first child has been executed.
    Join(bool),
    Split,
    /// Holds whether the loop has been entered.
    Loop(bool),
    Call,
    Dyn,
    Dyncall,
    SysCall,
    Span,
}

/// State of the calling context that a call suspends.
#[derive(Clone, Copy, Debug, PartialEq, Eq)]
pub struct ExecutionContextInfo {
    pub parent_ctx: ContextId,
    pub parent_fn_hash: Word,
    pub parent_fmp: Felt,
    pub parent_stack_depth: u32,
    pub parent_next_overflow_addr: Felt,
}

/// A code block that is being executed.
#[derive(Clone, Copy, Debug, PartialEq, Eq)]
pub struct BlockInfo {
    /// Address of the block in the hasher chiplet.
    pub addr: Felt,
    pub block_type: BlockType,
    /// Address of the block that this block is executed in, or zero.
    pub parent_addr: Felt,
    /// State of the calling context, for blocks that run in a context of their own.
    pub ctx_info: Option<ExecutionContextInfo>,
}

/// Code blocks that are being executed, the innermost one last.
#[derive(Debug)]
pub struct BlockStack {
    pub blocks: Vec<BlockInfo>,
}

impl View for BlockStack {
    type V = Seq<BlockInfo>;

    open spec fn view(&self) -> Seq<BlockInfo> {
        self.blocks@
    }
}

/// Address of the innermost of the blocks, or zero.
pub open spec fn innermost_addr(blocks: Seq<BlockInfo>) -> Felt {
    if blocks.len() == 0 {
        felt(0)
    } else {
        blocks.last().addr
    }
}

/// The block that results from starting to execute a block within others.
pub open spec fn block_within(
    blocks: Seq<BlockInfo>,
    addr: Felt,
    block_type: BlockType,
    ctx_info: Option<ExecutionContextInfo>,
) -> BlockInfo {
    BlockInfo { addr, block_type, parent_addr: innermost_addr(blocks), ctx_info }
}

impl Clone for BlockStack {
    fn clone(&self) -> (r: Self)
        ensures
            r@ == self@,
    {
        let mut blocks: Vec<BlockInfo> = Vec::new();
        for i in 0..self.blocks.len()
            invariant
                blocks@ == self.blocks@.take(i as int),
        {
            blocks.push(self.blocks[i]);
            assert(blocks@ =~= self.blocks@.take(i + 1));
        }
        assert(self.blocks@.take(self.blocks@.len() as int) =~= self.blocks@);
        BlockStack { blocks }
    }
}

impl Default for BlockStack {
    fn default() -> (r: Self)
        ensures
            r@ == Seq::<BlockInfo>::empty(),
    {
        BlockStack { blocks: Vec::new() }
    }
}

impl BlockStack {
    /// Starts a block and returns the address of the block that it is executed in, or zero.
    pub fn push(
        &mut self,
        addr: Felt,
        block_type: BlockType,
        ctx_info: Option<ExecutionContextInfo>,
    ) -> (r: Felt)
        ensures
            r == innermost_addr(old(self)@),
            final(self)@ == old(self)@.push(block_within(old(self)@, addr, block_type, ctx_info)),
    {
        let n: usize = self.blocks.len();
        let parent_addr = if n == 0 {
            Felt::zero()
        } else {
            self.blocks[n - 1].addr
        };
        self.blocks.push(BlockInfo { addr, block_type, parent_addr, ctx_info });
        parent_addr
    }

    /// Ends the innermost block.
    pub fn pop(&mut self) -> (r: BlockInfo)
        requires
            old(self)@.len() > 0,
        ensures
            r == old(self)@.last(),
            final(self)@ == old(self)@.drop_last(),
    {
        self.blocks.pop().unwrap()
    }

    /// The innermost block.
    pub fn peek(&self) -> (r: &BlockInfo)
        requires
            self@.len() > 0,
        ensures
            *r == self@.last(),
    {
        &self.blocks[self.blocks.len() - 1]
    }
}

} // verus!
