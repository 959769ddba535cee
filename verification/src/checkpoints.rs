//! State at the start of a trace fragment, and recordings of what is needed to generate it.
use std::collections::VecDeque;
use std::sync::Arc;

use vstd::prelude::*;

use crate::block_stack::{BlockInfo, BlockStack, ContextId};
use crate::continuation_stack::{Continuation, ContinuationStack};
use crate::felt::{Felt, MODULUS, Word, felt};
use crate::layout::MIN_STACK_DEPTH;
use crate::mast::{MastForest, MastNodeId};
use crate::overflow::{OverflowTable, OverflowView};

verus! {

// NODE EXECUTION PHASE
// ================================================================================================

/// Specifies where execution stands when the generation of a fragment starts.
#[derive(Debug, Clone, Copy, PartialEq, Eq, Structural)]
pub enum NodeExecutionPhase {
    /// Resume execution within a basic block at an operation of one of its batches.
    BasicBlock {
        /// Basic block that is being executed.
        node_id: MastNodeId,
        /// Index of the operation batch within the basic block.
        batch_index: usize,
        /// Index of the operation within the batch.
        op_idx_in_batch: usize,
        /// Whether a RESPAN operation is to be added before this batch is executed. If so,
        /// `batch_index` refers to the batch after the RESPAN, and `op_idx_in_batch` must be 0.
        needs_respan: bool,
    },
    /// Begin executing a node.
    Start(MastNodeId),
    /// Execute the REPEAT phase of a loop.
    LoopRepeat(MastNodeId),
    /// Complete the execution of a node.
    End(MastNodeId),
}

// SYSTEM STATE
// ================================================================================================

/// The information needed to build one row of the system trace.
#[derive(Debug, Clone, Copy, PartialEq, Eq)]
pub struct SystemState {
    /// Current clock cycle, which is a row index in the trace.
    pub clk: u32,
    /// Execution context; it starts as the root context and changes with calls.
    pub ctx: ContextId,
    /// Free memory pointer, used for offsets into local memory.
    pub fmp: Felt,
    /// Whether a system call is being executed.
    pub in_syscall: bool,
    /// Hash of the function that initiated the current execution context: zeros in the root
    /// context, the hash of the called function in the context of a call, and the caller's in a
    /// system call.
    pub fn_hash: Word,
}

// STACK STATE
// ================================================================================================

/// The information needed to build one row of the stack trace.
#[derive(Debug)]
pub struct StackState {
    /// The top of the stack, in reverse order.
    stack_top: [Felt; 16],
    /// Stack elements below the top.
    overflow: OverflowTable,
}

/// Contents of the stack.
#[verifier::ext_equal]
pub struct StackView {
    /// The top of the stack, in reverse order: the last element is the topmost one.
    pub top: Seq<Felt>,
    /// Stack elements below the top.
    pub overflow: OverflowView,
}

impl StackView {
    /// Number of elements on the stack.
    pub open spec fn depth(self) -> int {
        MIN_STACK_DEPTH + self.overflow.current.len()
    }

    /// Whether the depth of the stack is within what the machine can hold and the field represent.
    pub open spec fn fits(self) -> bool {
        self.depth() < MODULUS && self.depth() <= usize::MAX
    }

    pub open spec fn start_context(self) -> StackView {
        StackView { overflow: self.overflow.start_context(), ..self }
    }

    /// The state after the top element has been removed and a context has started.
    pub open spec fn shift_left_and_start_context(self) -> StackView {
        self.shrink().start_context()
    }
}

impl View for StackState {
    type V = StackView;

    closed spec fn view(&self) -> StackView {
        StackView { top: self.stack_top@, overflow: self.overflow@ }
    }
}

impl StackState {
    /// Creates a state from the top of the stack and the overflow table.
    ///
    /// `stack_top` holds the top 16 elements of the stack in reverse order: `stack_top[15]` is the
    /// topmost element, and `stack_top[0]` the bottommost one.
    pub fn new(stack_top: [Felt; 16], overflow: OverflowTable) -> (r: Self)
        ensures
            r@ == (StackView { top: stack_top@, overflow: overflow@ }),
    {
        StackState { stack_top, overflow }
    }

    /// The top of the stack, in reverse order.
    pub fn stack_top(&self) -> (r: &[Felt; 16])
        ensures
            r@ == self@.top,
    {
        &self.stack_top
    }

    /// The top of the stack, in reverse order, for modification.
    pub fn stack_top_mut(&mut self) -> (r: &mut [Felt; 16])
        ensures
            r@ == old(self)@.top,
            final(self)@ == (StackView { top: final(r)@, ..old(self)@ }),
    {
        &mut self.stack_top
    }

    /// Depth of the stack, for the first helper column.
    pub fn stack_depth(&self) -> (r: Felt)
        requires
            self@.fits(),
        ensures
            r == felt(self@.depth()),
            r@ == self@.depth(),
    {
        Felt::new((MIN_STACK_DEPTH + self.overflow.num_elements_in_current_ctx()) as u64)
    }

    /// Address of the top of the overflow table, for the second helper column.
    pub fn overflow_addr(&self) -> (r: Felt)
        ensures
            r == self@.overflow.top_address(),
    {
        self.overflow.last_update_clk_in_current_ctx()
    }

    /// Number of stack elements of the current context in the overflow table.
    pub fn num_overflow_elements_in_current_ctx(&self) -> (r: usize)
        ensures
            r == self@.overflow.current.len(),
    {
        self.overflow.num_elements_in_current_ctx()
    }

    /// Moves on to the next clock cycle.
    pub fn advance_clock(&mut self)
        requires
            old(self)@.overflow.clk < u32::MAX,
        ensures
            final(self)@ == (StackView {
                overflow: OverflowView {
                    clk: (old(self)@.overflow.clk + 1) as u32,
                    ..old(self)@.overflow
                },
                ..old(self)@
            }),
    {
        self.overflow.advance_clock();
    }

    /// Moves an element to the overflow table.
    pub fn push_overflow(&mut self, element: Felt)
        ensures
            final(self)@ == (StackView {
                overflow: old(self)@.overflow.push(element),
                ..old(self)@
            }),
    {
        self.overflow.push(element);
    }

    /// Takes the top element of the overflow table, if there is one.
    pub fn pop_overflow(&mut self) -> (r: Option<Felt>)
        ensures
            r == old(self)@.overflow.top(),
            final(self)@ == (StackView { overflow: old(self)@.overflow.pop(), ..old(self)@ }),
    {
        self.overflow.pop()
    }

    /// What the stack depth exceeds its minimum by, for the third helper column. The trace holds
    /// the inverse of this value, which is computed for the whole column at once.
    pub fn overflow_helper(&self) -> (r: Felt)
        requires
            self@.fits(),
        ensures
            r == felt(self@.depth() - MIN_STACK_DEPTH),
    {
        let stack_depth = self.stack_depth();
        let depth_value: usize = stack_depth.as_int() as usize;
        if depth_value > MIN_STACK_DEPTH {
            Felt::new((depth_value - MIN_STACK_DEPTH) as u64)
        } else {
            Felt::zero()
        }
    }

    /// Starts an execution context. Returns the stack depth and the address of the top of the
    /// overflow table in the context that is left.
    pub fn start_context(&mut self) -> (r: (usize, Felt))
        requires
            old(self)@.fits(),
        ensures
            r.0 == old(self)@.depth(),
            r.1 == old(self)@.overflow.top_address(),
            final(self)@ == old(self)@.start_context(),
    {
        let current_depth: usize = self.stack_depth().as_int() as usize;
        let current_overflow_addr = self.overflow_addr();
        self.overflow.start_context();
        (current_depth, current_overflow_addr)
    }

    /// Removes the top element, which shifts all others up by one position, and starts an execution
    /// context. The deepest position is filled from the overflow table or, at the minimum depth,
    /// with zero. Returns the stack depth and the address of the top of the overflow table before
    /// all this.
    pub fn shift_left_and_start_context(&mut self) -> (r: (usize, Felt))
        requires
            old(self)@.fits(),
        ensures
            r.0 == old(self)@.depth(),
            r.1 == old(self)@.overflow.top_address(),
            final(self)@ == old(self)@.shift_left_and_start_context(),
    {
        let current_depth: usize = self.stack_depth().as_int() as usize;
        let current_overflow_addr = self.overflow_addr();

        let ghost before = self.stack_top@;
        let ghost table = self.overflow;
        let mut i: usize = MIN_STACK_DEPTH - 1;
        while i > 0
            invariant
                i <= 15,
                before.len() == 16,
                self.overflow == table,
                forall|k: int| i < k < 16 ==> self.stack_top@[k] == before[k - 1],
                forall|k: int| 0 <= k <= i ==> self.stack_top@[k] == before[k],
            decreases i,
        {
            self.stack_top[i] = self.stack_top[i - 1];
            i = i - 1;
        }

        // The depth of the stack does not go below its minimum: zeros are shifted in.
        let incoming = if current_depth > MIN_STACK_DEPTH {
            self.overflow.pop().unwrap()
        } else {
            Felt::zero()
        };
        self.stack_top[0] = incoming;
        assert(self@.top =~= seq![incoming] + before.drop_last());

        self.overflow.start_context();
        (current_depth, current_overflow_addr)
    }
}

// EXTERNAL NODE REPLAY
// ================================================================================================

/// Resolutions of external nodes, in the order in which they were recorded.
#[derive(Debug)]
pub struct ExternalNodeReplay {
    pub external_node_resolutions: VecDeque<(MastNodeId, Arc<MastForest>)>,
}

impl View for ExternalNodeReplay {
    type V = Seq<(MastNodeId, Arc<MastForest>)>;

    open spec fn view(&self) -> Self::V {
        self.external_node_resolutions@
    }
}

impl Default for ExternalNodeReplay {
    fn default() -> (r: Self)
        ensures
            r@ == Seq::<(MastNodeId, Arc<MastForest>)>::empty(),
    {
        Self::new()
    }
}

impl ExternalNodeReplay {
    /// Creates a replay without resolutions.
    pub fn new() -> (r: Self)
        ensures
            r@ == Seq::<(MastNodeId, Arc<MastForest>)>::empty(),
    {
        ExternalNodeReplay { external_node_resolutions: VecDeque::new() }
    }

    /// Records the node, and its forest, that an external node was resolved to.
    pub fn record_resolution(&mut self, node_id: MastNodeId, forest: Arc<MastForest>)
        ensures
            final(self)@ == old(self)@.push((node_id, forest)),
    {
        self.external_node_resolutions.push_back((node_id, forest));
    }

    /// Replays the next recorded resolution.
    pub fn replay_resolution(&mut self) -> (r: (MastNodeId, Arc<MastForest>))
        requires
            old(self)@.len() > 0,
        ensures
            r == old(self)@[0],
            final(self)@ == old(self)@.skip(1),
    {
        self.external_node_resolutions.pop_front().unwrap()
    }
}

// MEMORY REPLAY
// ================================================================================================

/// Elements and words that were read from memory, each with the address that it was read from, in
/// the order in which they were recorded. Replays are asked for with the recorded addresses.
#[derive(Debug)]
pub struct MemoryReplay {
    pub elements_read: VecDeque<(Felt, Felt)>,
    pub words_read: VecDeque<(Felt, Word)>,
}

/// Contents of a memory replay.
#[verifier::ext_equal]
pub struct MemoryReplayView {
    pub elements_read: Seq<(Felt, Felt)>,
    pub words_read: Seq<(Felt, Word)>,
}

impl MemoryReplayView {
    pub open spec fn empty() -> MemoryReplayView {
        MemoryReplayView { elements_read: Seq::empty(), words_read: Seq::empty() }
    }
}

impl View for MemoryReplay {
    type V = MemoryReplayView;

    open spec fn view(&self) -> MemoryReplayView {
        MemoryReplayView { elements_read: self.elements_read@, words_read: self.words_read@ }
    }
}

impl Default for MemoryReplay {
    fn default() -> (r: Self)
        ensures
            r@ == MemoryReplayView::empty(),
    {
        Self::new()
    }
}

impl MemoryReplay {
    /// Creates a replay without reads.
    pub fn new() -> (r: Self)
        ensures
            r@ == MemoryReplayView::empty(),
    {
        MemoryReplay { elements_read: VecDeque::new(), words_read: VecDeque::new() }
    }

    /// Records an element that was read from memory.
    pub fn record_element(&mut self, element: Felt, addr: Felt)
        ensures
            final(self)@ == (MemoryReplayView {
                elements_read: old(self)@.elements_read.push((addr, element)),
                ..old(self)@
            }),
    {
        self.elements_read.push_back((addr, element));
    }

    /// Records a word that was read from memory.
    pub fn record_word(&mut self, word: Word, addr: Felt)
        ensures
            final(self)@ == (MemoryReplayView {
                words_read: old(self)@.words_read.push((addr, word)),
                ..old(self)@
            }),
    {
        self.words_read.push_back((addr, word));
    }

    /// Replays the next element that was read, which was read from `addr`.
    pub fn replay_read_element(&mut self, addr: Felt) -> (r: Felt)
        requires
            old(self)@.elements_read.len() > 0,
            old(self)@.elements_read[0].0 == addr,
        ensures
            r == old(self)@.elements_read[0].1,
            final(self)@ == (MemoryReplayView {
                elements_read: old(self)@.elements_read.skip(1),
                ..old(self)@
            }),
    {
        let (_stored_addr, element) = self.elements_read.pop_front().unwrap();
        element
    }

    /// Replays the next word that was read, which was read from `addr`.
    pub fn replay_read_word(&mut self, addr: Felt) -> (r: Word)
        requires
            old(self)@.words_read.len() > 0,
            old(self)@.words_read[0].0 == addr,
        ensures
            r == old(self)@.words_read[0].1,
            final(self)@ == (MemoryReplayView {
                words_read: old(self)@.words_read.skip(1),
                ..old(self)@
            }),
    {
        let (_stored_addr, word) = self.words_read.pop_front().unwrap();
        word
    }
}

// ADVICE REPLAY
// ================================================================================================

/// Values that the advice provider returned, in the order in which they were recorded.
#[derive(Debug)]
pub struct AdviceReplay {
    pub stack_pops: VecDeque<Felt>,
    pub stack_word_pops: VecDeque<Word>,
    pub stack_dword_pops: VecDeque<[Word; 2]>,
}

/// Contents of an advice replay.
#[verifier::ext_equal]
pub struct AdviceReplayView {
    pub stack_pops: Seq<Felt>,
    pub stack_word_pops: Seq<Word>,
    pub stack_dword_pops: Seq<[Word; 2]>,
}

impl AdviceReplayView {
    pub open spec fn empty() -> AdviceReplayView {
        AdviceReplayView {
            stack_pops: Seq::empty(),
            stack_word_pops: Seq::empty(),
            stack_dword_pops: Seq::empty(),
        }
    }
}

impl View for AdviceReplay {
    type V = AdviceReplayView;

    open spec fn view(&self) -> AdviceReplayView {
        AdviceReplayView {
            stack_pops: self.stack_pops@,
            stack_word_pops: self.stack_word_pops@,
            stack_dword_pops: self.stack_dword_pops@,
        }
    }
}

impl Default for AdviceReplay {
    fn default() -> (r: Self)
        ensures
            r@ == AdviceReplayView::empty(),
    {
        Self::new()
    }
}

impl AdviceReplay {
    /// Creates a replay without values.
    pub fn new() -> (r: Self)
        ensures
            r@ == AdviceReplayView::empty(),
    {
        AdviceReplay {
            stack_pops: VecDeque::new(),
            stack_word_pops: VecDeque::new(),
            stack_dword_pops: VecDeque::new(),
        }
    }

    /// Records an element that was popped from the advice stack.
    pub fn record_pop_stack(&mut self, value: Felt)
        ensures
            final(self)@ == (AdviceReplayView {
                stack_pops: old(self)@.stack_pops.push(value),
                ..old(self)@
            }),
    {
        self.stack_pops.push_back(value);
    }

    /// Records a word that was popped from the advice stack.
    pub fn record_pop_stack_word(&mut self, word: Word)
        ensures
            final(self)@ == (AdviceReplayView {
                stack_word_pops: old(self)@.stack_word_pops.push(word),
                ..old(self)@
            }),
    {
        self.stack_word_pops.push_back(word);
    }

    /// Records two words that were popped from the advice stack at once.
    pub fn record_pop_stack_dword(&mut self, dword: [Word; 2])
        ensures
            final(self)@ == (AdviceReplayView {
                stack_dword_pops: old(self)@.stack_dword_pops.push(dword),
                ..old(self)@
            }),
    {
        self.stack_dword_pops.push_back(dword);
    }

    /// Replays popping an element from the advice stack.
    pub fn replay_pop_stack(&mut self) -> (r: Felt)
        requires
            old(self)@.stack_pops.len() > 0,
        ensures
            r == old(self)@.stack_pops[0],
            final(self)@ == (AdviceReplayView {
                stack_pops: old(self)@.stack_pops.skip(1),
                ..old(self)@
            }),
    {
        self.stack_pops.pop_front().unwrap()
    }

    /// Replays popping a word from the advice stack.
    pub fn replay_pop_stack_word(&mut self) -> (r: Word)
        requires
            old(self)@.stack_word_pops.len() > 0,
        ensures
            r == old(self)@.stack_word_pops[0],
            final(self)@ == (AdviceReplayView {
                stack_word_pops: old(self)@.stack_word_pops.skip(1),
                ..old(self)@
            }),
    {
        self.stack_word_pops.pop_front().unwrap()
    }

    /// Replays popping two words at once from the advice stack.
    pub fn replay_pop_stack_dword(&mut self) -> (r: [Word; 2])
        requires
            old(self)@.stack_dword_pops.len() > 0,
        ensures
            r == old(self)@.stack_dword_pops[0],
            final(self)@ == (AdviceReplayView {
                stack_dword_pops: old(self)@.stack_dword_pops.skip(1),
                ..old(self)@
            }),
    {
        self.stack_dword_pops.pop_front().unwrap()
    }
}

// HASHER REPLAY
// ================================================================================================

/// Results of hasher operations, in the order in which they were recorded.
#[derive(Debug)]
pub struct HasherReplay {
    /// Addresses of blocks whose hashes were computed.
    pub block_addresses: VecDeque<Felt>,
    /// Permutations, each with its address and the permuted state.
    pub permutation_operations: VecDeque<(Felt, [Felt; 12])>,
    /// Merkle path verifications, each with its address and the computed root.
    pub build_merkle_root_operations: VecDeque<(Felt, Word)>,
    /// Merkle root updates, each with its address, the old root and the new root.
    pub mrupdate_operations: VecDeque<(Felt, Word, Word)>,
}

/// Contents of a hasher replay.
#[verifier::ext_equal]
pub struct HasherReplayView {
    pub block_addresses: Seq<Felt>,
    pub permutation_operations: Seq<(Felt, [Felt; 12])>,
    pub build_merkle_root_operations: Seq<(Felt, Word)>,
    pub mrupdate_operations: Seq<(Felt, Word, Word)>,
}

impl HasherReplayView {
    pub open spec fn empty() -> HasherReplayView {
        HasherReplayView {
            block_addresses: Seq::empty(),
            permutation_operations: Seq::empty(),
            build_merkle_root_operations: Seq::empty(),
            mrupdate_operations: Seq::empty(),
        }
    }
}

impl View for HasherReplay {
    type V = HasherReplayView;

    open spec fn view(&self) -> HasherReplayView {
        HasherReplayView {
            block_addresses: self.block_addresses@,
            permutation_operations: self.permutation_operations@,
            build_merkle_root_operations: self.build_merkle_root_operations@,
            mrupdate_operations: self.mrupdate_operations@,
        }
    }
}

impl Default for HasherReplay {
    fn default() -> (r: Self)
        ensures
            r@ == HasherReplayView::empty(),
    {
        Self::new()
    }
}

impl HasherReplay {
    /// Creates a replay without operations.
    pub fn new() -> (r: Self)
        ensures
            r@ == HasherReplayView::empty(),
    {
        HasherReplay {
            block_addresses: VecDeque::new(),
            permutation_operations: VecDeque::new(),
            build_merkle_root_operations: VecDeque::new(),
            mrupdate_operations: VecDeque::new(),
        }
    }

    /// Records the address of a block whose hash was computed.
    pub fn record_block_address(&mut self, addr: Felt)
        ensures
            final(self)@ == (HasherReplayView {
                block_addresses: old(self)@.block_addresses.push(addr),
                ..old(self)@
            }),
    {
        self.block_addresses.push_back(addr);
    }

    /// Records a permutation with its address and the permuted state.
    pub fn record_permute(&mut self, addr: Felt, hashed_state: [Felt; 12])
        ensures
            final(self)@ == (HasherReplayView {
                permutation_operations: old(self)@.permutation_operations.push(
                    (addr, hashed_state),
                ),
                ..old(self)@
            }),
    {
        self.permutation_operations.push_back((addr, hashed_state));
    }

    /// Records a Merkle path verification with its address and the computed root.
    pub fn record_build_merkle_root(&mut self, addr: Felt, computed_root: Word)
        ensures
            final(self)@ == (HasherReplayView {
                build_merkle_root_operations: old(self)@.build_merkle_root_operations.push(
                    (addr, computed_root),
                ),
                ..old(self)@
            }),
    {
        self.build_merkle_root_operations.push_back((addr, computed_root));
    }

    /// Records a Merkle root update with its address, the old root and the new root.
    pub fn record_update_merkle_root(&mut self, addr: Felt, old_root: Word, new_root: Word)
        ensures
            final(self)@ == (HasherReplayView {
                mrupdate_operations: old(self)@.mrupdate_operations.push(
                    (addr, old_root, new_root),
                ),
                ..old(self)@
            }),
    {
        self.mrupdate_operations.push_back((addr, old_root, new_root));
    }

    /// Replays the address of a block whose hash was computed.
    pub fn replay_block_address(&mut self) -> (r: Felt)
        requires
            old(self)@.block_addresses.len() > 0,
        ensures
            r == old(self)@.block_addresses[0],
            final(self)@ == (HasherReplayView {
                block_addresses: old(self)@.block_addresses.skip(1),
                ..old(self)@
            }),
    {
        self.block_addresses.pop_front().unwrap()
    }

    /// Replays a permutation: its address and the permuted state.
    pub fn replay_permute(&mut self) -> (r: (Felt, [Felt; 12]))
        requires
            old(self)@.permutation_operations.len() > 0,
        ensures
            r == old(self)@.permutation_operations[0],
            final(self)@ == (HasherReplayView {
                permutation_operations: old(self)@.permutation_operations.skip(1),
                ..old(self)@
            }),
    {
        self.permutation_operations.pop_front().unwrap()
    }

    /// Replays a Merkle path verification: its address and the computed root.
    pub fn replay_build_merkle_root(&mut self) -> (r: (Felt, Word))
        requires
            old(self)@.build_merkle_root_operations.len() > 0,
        ensures
            r == old(self)@.build_merkle_root_operations[0],
            final(self)@ == (HasherReplayView {
                build_merkle_root_operations: old(self)@.build_merkle_root_operations.skip(1),
                ..old(self)@
            }),
    {
        self.build_merkle_root_operations.pop_front().unwrap()
    }

    /// Replays a Merkle root update: its address, the old root and the new root.
    pub fn replay_update_merkle_root(&mut self) -> (r: (Felt, Word, Word))
        requires
            old(self)@.mrupdate_operations.len() > 0,
        ensures
            r == old(self)@.mrupdate_operations[0],
            final(self)@ == (HasherReplayView {
                mrupdate_operations: old(self)@.mrupdate_operations.skip(1),
                ..old(self)@
            }),
    {
        self.mrupdate_operations.pop_front().unwrap()
    }
}

// CORE TRACE STATE
// ================================================================================================

/// Everything that is needed to generate a fragment of the core trace.
#[derive(Debug)]
pub struct CoreTraceState {
    pub system: SystemState,
    pub stack: StackState,
    pub block_stack: BlockStack,
    pub traversal: ContinuationStack,
    pub memory: MemoryReplay,
    pub advice: AdviceReplay,
    pub hasher: HasherReplay,
    pub external_node_replay: ExternalNodeReplay,
    pub exec_phase: NodeExecutionPhase,
    pub initial_mast_forest: Arc<MastForest>,
}

/// Contents of a core trace state.
#[verifier::ext_equal]
pub struct CoreTraceStateView {
    pub system: SystemState,
    pub stack: StackView,
    pub block_stack: Seq<BlockInfo>,
    pub traversal: Seq<Continuation>,
    pub memory: MemoryReplayView,
    pub advice: AdviceReplayView,
    pub hasher: HasherReplayView,
    pub external_node_replay: Seq<(MastNodeId, Arc<MastForest>)>,
    pub exec_phase: NodeExecutionPhase,
    pub initial_mast_forest: Arc<MastForest>,
}

impl View for CoreTraceState {
    type V = CoreTraceStateView;

    open spec fn view(&self) -> CoreTraceStateView {
        CoreTraceStateView {
            system: self.system,
            stack: self.stack@,
            block_stack: self.block_stack@,
            traversal: self.traversal@,
            memory: self.memory@,
            advice: self.advice@,
            hasher: self.hasher@,
            external_node_replay: self.external_node_replay@,
            exec_phase: self.exec_phase,
            initial_mast_forest: self.initial_mast_forest,
        }
    }
}

// LAWS
// ================================================================================================

/// A queue after recording values into it, one by one.
pub open spec fn after_recording<A>(queue: Seq<A>, values: Seq<A>) -> Seq<A>
    decreases values.len(),
{
    if values.len() == 0 {
        queue
    } else {
        after_recording(queue, values.drop_last()).push(values.last())
    }
}

/// A queue after replaying from it a number of times.
pub open spec fn after_replaying<A>(queue: Seq<A>, times: nat) -> Seq<A>
    decreases times,
{
    if times == 0 {
        queue
    } else {
        after_replaying(queue, (times - 1) as nat).skip(1)
    }
}

proof fn lemma_after_recording<A>(queue: Seq<A>, values: Seq<A>)
    ensures
        after_recording(queue, values) == queue + values,
    decreases values.len(),
{
    if values.len() > 0 {
        lemma_after_recording(queue, values.drop_last());
        assert(after_recording(queue, values) =~= queue + values);
    } else {
        assert(queue + values =~= queue);
    }
}

proof fn lemma_after_replaying<A>(queue: Seq<A>, times: nat)
    requires
        times <= queue.len(),
    ensures
        after_replaying(queue, times) == queue.skip(times as int),
    decreases times,
{
    if times > 0 {
        lemma_after_replaying(queue, (times - 1) as nat);
        assert(after_replaying(queue, times) =~= queue.skip(times as int));
    } else {
        assert(queue.skip(0) =~= queue);
    }
}

/// What is recorded is replayed, in the same order: after `values` have been recorded into an empty
/// replay and `k` of them replayed, the next one replayed is the `k`-th that was recorded, and the
/// replay is empty when all have been replayed. Recording while replaying does not disturb this.
pub proof fn law_replays_in_recording_order<A>(values: Seq<A>, later: Seq<A>, k: nat)
    requires
        k < values.len(),
    ensures
        after_replaying(after_recording(Seq::empty(), values), k)[0] == values[k as int],
        after_recording(
            after_replaying(after_recording(Seq::empty(), values), k),
            later,
        )[0] == values[k as int],
        after_replaying(after_recording(Seq::empty(), values), values.len()) == Seq::<A>::empty(),
{
    let recorded = after_recording(Seq::empty(), values);
    lemma_after_recording(Seq::empty(), values);
    assert(recorded =~= values);
    lemma_after_replaying(recorded, k);
    lemma_after_replaying(recorded, values.len());
    lemma_after_recording(after_replaying(recorded, k), later);
    assert(values.skip(values.len() as int) =~= Seq::<A>::empty());
}

} // verus!
