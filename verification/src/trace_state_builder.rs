//! Recording of the states from which trace fragments are generated.
use std::sync::Arc;

use vstd::prelude::*;

use crate::block_stack::{BlockInfo, BlockStack};
use crate::checkpoints::{
    AdviceReplay, AdviceReplayView, CoreTraceState, CoreTraceStateView, ExternalNodeReplay,
    HasherReplay, HasherReplayView, MemoryReplay, MemoryReplayView, NodeExecutionPhase, StackState,
    StackView, SystemState,
};
use crate::continuation_stack::{Continuation, ContinuationStack};
use crate::felt::{Felt, Word, felt};
use crate::mast::{BasicBlockNode, MastForest, MastNodeId};
use crate::overflow::{OverflowTable, OverflowView};

verus! {

// HASHER CHIPLET SHIM
// ================================================================================================

/// Number of rows that the hasher chiplet takes per permutation.
pub const NUM_HASHER_ROWS_PER_PERMUTATION: u32 = 8;

/// A path from a node of a Merkle tree to the root: the siblings of the nodes on the way.
#[derive(Debug)]
pub struct MerklePath {
    pub nodes: Vec<Word>,
}

impl MerklePath {
    /// Depth of the node that the path starts from.
    pub fn depth(&self) -> (r: u8)
        ensures
            r == self.nodes@.len() as u8,
            self.nodes@.len() <= u8::MAX ==> r == self.nodes@.len(),
    {
        self.nodes.len() as u8
    }
}

/// Stands in for the hasher chiplet: assigns addresses to hasher operations and records them.
#[derive(Debug)]
pub struct HasherChipletShim {
    addr: u32,
    replay: HasherReplay,
}

/// A hasher operation, with its result where it has one that is recorded.
pub enum HasherOp {
    HashControlBlock,
    HashBasicBlock { num_op_batches: usize },
    Permute { hashed_state: [Felt; 12] },
    BuildMerkleRoot { depth: u8, computed_root: Word },
    UpdateMerkleRoot { depth: u8, old_root: Word, new_root: Word },
}

impl HasherOp {
    /// Number of permutations that the operation takes. A Merkle root update verifies its path
    /// twice: once for the old root and once for the new root.
    pub open spec fn permutations(self) -> int {
        match self {
            HasherOp::HashControlBlock => 1,
            HasherOp::HashBasicBlock { num_op_batches } => num_op_batches as u32 as int,
            HasherOp::Permute { .. } => 1,
            HasherOp::BuildMerkleRoot { depth, .. } => depth as int,
            HasherOp::UpdateMerkleRoot { depth, .. } => 2 * depth as int,
        }
    }

    /// Number of rows that the operation takes in the hasher chiplet.
    pub open spec fn rows(self) -> int {
        NUM_HASHER_ROWS_PER_PERMUTATION * self.permutations()
    }
}

impl HasherReplayView {
    /// The replay after an operation that has the given address has been recorded.
    pub open spec fn record(self, addr: Felt, op: HasherOp) -> HasherReplayView {
        match op {
            HasherOp::HashControlBlock | HasherOp::HashBasicBlock { .. } => HasherReplayView {
                block_addresses: self.block_addresses.push(addr),
                ..self
            },
            HasherOp::Permute { hashed_state } => HasherReplayView {
                permutation_operations: self.permutation_operations.push((addr, hashed_state)),
                ..self
            },
            HasherOp::BuildMerkleRoot { computed_root, .. } => HasherReplayView {
                build_merkle_root_operations: self.build_merkle_root_operations.push(
                    (addr, computed_root),
                ),
                ..self
            },
            HasherOp::UpdateMerkleRoot { old_root, new_root, .. } => HasherReplayView {
                mrupdate_operations: self.mrupdate_operations.push((addr, old_root, new_root)),
                ..self
            },
        }
    }
}

/// Contents of a hasher shim.
#[verifier::ext_equal]
pub struct HasherShimView {
    /// Address of the next operation.
    pub addr: u32,
    /// What has been recorded since the replay was last extracted.
    pub replay: HasherReplayView,
}

impl HasherShimView {
    pub open spec fn initial() -> HasherShimView {
        HasherShimView { addr: 1, replay: HasherReplayView::empty() }
    }

    /// Whether the address after an operation is representable.
    pub open spec fn has_room_for(self, op: HasherOp) -> bool {
        self.addr + op.rows() <= u32::MAX
    }

    /// The shim after an operation.
    pub open spec fn perform(self, op: HasherOp) -> HasherShimView {
        HasherShimView {
            addr: (self.addr + op.rows()) as u32,
            replay: self.replay.record(felt(self.addr as int), op),
        }
    }
}

impl View for HasherChipletShim {
    type V = HasherShimView;

    closed spec fn view(&self) -> HasherShimView {
        HasherShimView { addr: self.addr, replay: self.replay@ }
    }
}

impl Default for HasherChipletShim {
    fn default() -> (r: Self)
        ensures
            r@ == HasherShimView::initial(),
    {
        Self::new()
    }
}

impl HasherChipletShim {
    /// Creates a shim that has recorded nothing; the first operation has address 1.
    pub fn new() -> (r: Self)
        ensures
            r@ == HasherShimView::initial(),
    {
        HasherChipletShim { addr: 1, replay: HasherReplay::default() }
    }

    /// Records hashing a control block. Returns the address of the operation.
    pub fn record_hash_control_block(&mut self) -> (r: Felt)
        requires
            old(self)@.has_room_for(HasherOp::HashControlBlock),
        ensures
            r == felt(old(self)@.addr as int),
            final(self)@ == old(self)@.perform(HasherOp::HashControlBlock),
    {
        let block_addr = Felt::new(self.addr as u64);
        self.replay.record_block_address(block_addr);
        self.addr = self.addr + NUM_HASHER_ROWS_PER_PERMUTATION;
        block_addr
    }

    /// Records hashing a basic block. Returns the address of the operation.
    pub fn record_hash_basic_block(&mut self, basic_block_node: &BasicBlockNode) -> (r: Felt)
        requires
            old(self)@.has_room_for(
                (HasherOp::HashBasicBlock {
                    num_op_batches: basic_block_node.op_batches@.len() as usize,
                }),
            ),
        ensures
            r == felt(old(self)@.addr as int),
            final(self)@ == old(self)@.perform(
                (HasherOp::HashBasicBlock {
                    num_op_batches: basic_block_node.op_batches@.len() as usize,
                }),
            ),
    {
        let block_addr = Felt::new(self.addr as u64);
        self.replay.record_block_address(block_addr);
        self.addr = self.addr + NUM_HASHER_ROWS_PER_PERMUTATION
            * (basic_block_node.num_op_batches() as u32);
        block_addr
    }

    /// Records a permutation with the permuted state.
    pub fn record_permute(&mut self, hashed_state: [Felt; 12])
        requires
            old(self)@.has_room_for((HasherOp::Permute { hashed_state })),
        ensures
            final(self)@ == old(self)@.perform((HasherOp::Permute { hashed_state })),
    {
        self.replay.record_permute(Felt::new(self.addr as u64), hashed_state);
        self.addr = self.addr + NUM_HASHER_ROWS_PER_PERMUTATION;
    }

    /// Records a Merkle path verification with the computed root.
    pub fn record_build_merkle_root(&mut self, path: &MerklePath, computed_root: Word)
        requires
            old(self)@.has_room_for(
                (HasherOp::BuildMerkleRoot { depth: path.nodes@.len() as u8, computed_root }),
            ),
        ensures
            final(self)@ == old(self)@.perform(
                (HasherOp::BuildMerkleRoot { depth: path.nodes@.len() as u8, computed_root }),
            ),
    {
        self.replay.record_build_merkle_root(Felt::new(self.addr as u64), computed_root);
        self.addr = self.addr + NUM_HASHER_ROWS_PER_PERMUTATION * (path.depth() as u32);
    }

    /// Records a Merkle root update with the old root and the new root.
    pub fn record_update_merkle_root(&mut self, path: &MerklePath, old_root: Word, new_root: Word)
        requires
            old(self)@.has_room_for(
                (HasherOp::UpdateMerkleRoot { depth: path.nodes@.len() as u8, old_root, new_root }),
            ),
        ensures
            final(self)@ == old(self)@.perform(
                (HasherOp::UpdateMerkleRoot { depth: path.nodes@.len() as u8, old_root, new_root }),
            ),
    {
        self.replay.record_update_merkle_root(Felt::new(self.addr as u64), old_root, new_root);
        self.addr = self.addr + 2 * NUM_HASHER_ROWS_PER_PERMUTATION * (path.depth() as u32);
    }

    /// Takes what has been recorded so far. Addresses continue where they are.
    pub fn extract_replay(&mut self) -> (r: HasherReplay)
        ensures
            r@ == old(self)@.replay,
            final(self)@ == (HasherShimView { replay: HasherReplayView::empty(), ..old(self)@ }),
    {
        let mut replay = HasherReplay::default();
        core::mem::swap(&mut replay, &mut self.replay);
        replay
    }
}

// CORE TRACE STATE BUILDER
// ================================================================================================

/// What is stored when a trace fragment starts.
#[derive(Debug)]
pub struct SnapshotStart {
    pub system: SystemState,
    pub stack: StackState,
    pub continuation_stack: ContinuationStack,
    pub exec_phase: NodeExecutionPhase,
    pub initial_mast_forest: Arc<MastForest>,
    pub block_stack: BlockStack,
}

/// Contents of what is stored when a trace fragment starts.
#[verifier::ext_equal]
pub struct SnapshotView {
    pub system: SystemState,
    pub stack: StackView,
    pub continuation_stack: Seq<Continuation>,
    pub exec_phase: NodeExecutionPhase,
    pub initial_mast_forest: Arc<MastForest>,
    pub block_stack: Seq<BlockInfo>,
}

impl View for SnapshotStart {
    type V = SnapshotView;

    open spec fn view(&self) -> SnapshotView {
        SnapshotView {
            system: self.system,
            stack: self.stack@,
            continuation_stack: self.continuation_stack@,
            exec_phase: self.exec_phase,
            initial_mast_forest: self.initial_mast_forest,
            block_stack: self.block_stack@,
        }
    }
}

/// Records the states from which the fragments of the core trace are generated.
#[derive(Debug)]
pub struct CoreTraceStateBuilder {
    // Stored when a trace fragment starts.
    pub overflow: OverflowTable,
    pub block_stack: BlockStack,
    // Recorded while a trace fragment is executed.
    pub hasher: HasherChipletShim,
    pub memory: MemoryReplay,
    pub advice: AdviceReplay,
    pub external: ExternalNodeReplay,
    // The start of the fragment that is being executed.
    pub snapshot_start: Option<SnapshotStart>,
    // States of the fragments that have been executed.
    pub core_trace_states: Vec<CoreTraceState>,
}

/// Contents of a builder.
#[verifier::ext_equal]
pub struct BuilderView {
    pub overflow: OverflowView,
    pub block_stack: Seq<BlockInfo>,
    pub hasher: HasherShimView,
    pub memory: MemoryReplayView,
    pub advice: AdviceReplayView,
    pub external: Seq<(MastNodeId, Arc<MastForest>)>,
    /// The start of the fragment that is being executed.
    pub snapshot: Option<SnapshotView>,
    /// States of the fragments that have been executed.
    pub states: Seq<CoreTraceStateView>,
}

impl BuilderView {
    pub open spec fn initial() -> BuilderView {
        BuilderView {
            overflow: OverflowView::empty(),
            block_stack: Seq::empty(),
            hasher: HasherShimView::initial(),
            memory: MemoryReplayView::empty(),
            advice: AdviceReplayView::empty(),
            external: Seq::empty(),
            snapshot: None,
            states: Seq::empty(),
        }
    }

    /// The state of a fragment that started with `snapshot` and ends now.
    pub open spec fn state_since(self, snapshot: SnapshotView) -> CoreTraceStateView {
        CoreTraceStateView {
            system: snapshot.system,
            stack: snapshot.stack,
            block_stack: snapshot.block_stack,
            traversal: snapshot.continuation_stack,
            memory: self.memory,
            advice: self.advice,
            hasher: self.hasher.replay,
            external_node_replay: self.external,
            exec_phase: snapshot.exec_phase,
            initial_mast_forest: snapshot.initial_mast_forest,
        }
    }

    /// The builder after the fragment that is being executed, if any, has ended. Replays start
    /// afresh; the overflow table, the block stack and the hasher addresses go on.
    pub open spec fn finish(self) -> BuilderView {
        match self.snapshot {
            None => self,
            Some(snapshot) => BuilderView {
                hasher: HasherShimView { replay: HasherReplayView::empty(), ..self.hasher },
                memory: MemoryReplayView::empty(),
                advice: AdviceReplayView::empty(),
                external: Seq::empty(),
                snapshot: None,
                states: self.states.push(self.state_since(snapshot)),
                ..self
            },
        }
    }

    /// The builder after a fragment has started.
    pub open spec fn start(
        self,
        system: SystemState,
        stack_top: Seq<Felt>,
        continuation_stack: Seq<Continuation>,
        exec_phase: NodeExecutionPhase,
        initial_mast_forest: Arc<MastForest>,
    ) -> BuilderView {
        BuilderView {
            snapshot: Some(
                SnapshotView {
                    system,
                    stack: StackView { top: stack_top, overflow: self.overflow },
                    continuation_stack,
                    exec_phase,
                    initial_mast_forest,
                    block_stack: self.block_stack,
                },
            ),
            ..self.finish()
        }
    }
}

impl View for CoreTraceStateBuilder {
    type V = BuilderView;

    open spec fn view(&self) -> BuilderView {
        BuilderView {
            overflow: self.overflow@,
            block_stack: self.block_stack@,
            hasher: self.hasher@,
            memory: self.memory@,
            advice: self.advice@,
            external: self.external@,
            snapshot: match self.snapshot_start {
                Some(snapshot) => Some(snapshot@),
                None => None,
            },
            states: self.core_trace_states@.map_values(|state: CoreTraceState| state@),
        }
    }
}

impl Default for CoreTraceStateBuilder {
    fn default() -> (r: Self)
        ensures
            r@ == BuilderView::initial(),
    {
        let builder = CoreTraceStateBuilder {
            overflow: OverflowTable::default(),
            block_stack: BlockStack::default(),
            hasher: HasherChipletShim::default(),
            memory: MemoryReplay::default(),
            advice: AdviceReplay::default(),
            external: ExternalNodeReplay::default(),
            snapshot_start: None,
            core_trace_states: Vec::new(),
        };
        assert(builder@ =~= BuilderView::initial());
        builder
    }
}

impl CoreTraceStateBuilder {
    /// Ends the fragment that is being executed, if any, and starts the next one from the provided
    /// state.
    ///
    /// The replays are empty at the start of a fragment. The overflow table and the block stack are
    /// not cleared, since they track the state of the computation since the beginning.
    pub fn extract_new_state(
        &mut self,
        system_state: SystemState,
        stack_top: [Felt; 16],
        continuation_stack: ContinuationStack,
        exec_phase: NodeExecutionPhase,
        initial_mast_forest: Arc<MastForest>,
    )
        ensures
            final(self)@ == old(self)@.start(
                system_state,
                stack_top@,
                continuation_stack@,
                exec_phase,
                initial_mast_forest,
            ),
    {
        self.finish_current_snapshot();
        self.snapshot_start = Some(
            SnapshotStart {
                system: system_state,
                stack: StackState::new(stack_top, self.overflow.clone()),
                continuation_stack,
                exec_phase,
                initial_mast_forest,
                block_stack: self.block_stack.clone(),
            },
        );
    }

    /// Ends the fragment that is being executed, if any, and returns the states of all fragments.
    pub fn into_core_trace_states(self) -> (r: Vec<CoreTraceState>)
        ensures
            r@.map_values(|state: CoreTraceState| state@) == self@.finish().states,
    {
        let mut builder = self;
        builder.finish_current_snapshot();
        builder.core_trace_states
    }

    /// Ends the fragment that is being executed, if any.
    pub fn finish_current_snapshot(&mut self)
        ensures
            final(self)@ == old(self)@.finish(),
    {
        if let Some(snapshot) = self.snapshot_start.take() {
            let hasher_replay = self.hasher.extract_replay();
            let mut memory_replay = MemoryReplay::default();
            core::mem::swap(&mut memory_replay, &mut self.memory);
            let mut advice_replay = AdviceReplay::default();
            core::mem::swap(&mut advice_replay, &mut self.advice);
            let mut external_replay = ExternalNodeReplay::default();
            core::mem::swap(&mut external_replay, &mut self.external);

            let trace_state = CoreTraceState {
                system: snapshot.system,
                stack: snapshot.stack,
                block_stack: snapshot.block_stack,
                traversal: snapshot.continuation_stack,
                hasher: hasher_replay,
                memory: memory_replay,
                advice: advice_replay,
                external_node_replay: external_replay,
                exec_phase: snapshot.exec_phase,
                initial_mast_forest: snapshot.initial_mast_forest,
            };
            self.core_trace_states.push(trace_state);
            assert(self@.states =~= old(self)@.finish().states);
        }
    }
}

// LAWS
// ================================================================================================

impl HasherShimView {
    /// The shim after a sequence of operations.
    pub open spec fn perform_all(self, ops: Seq<HasherOp>) -> HasherShimView
        decreases ops.len(),
    {
        if ops.len() == 0 {
            self
        } else {
            self.perform_all(ops.drop_last()).perform(ops.last())
        }
    }

    /// Whether there is room for a sequence of operations.
    pub open spec fn has_room_for_all(self, ops: Seq<HasherOp>) -> bool {
        forall|k: int|
            0 <= k < ops.len() ==> (#[trigger] self.perform_all(ops.take(k))).has_room_for(ops[k])
    }
}

/// Number of rows that a sequence of operations takes in the hasher chiplet.
pub open spec fn rows_of(ops: Seq<HasherOp>) -> int
    decreases ops.len(),
{
    if ops.len() == 0 {
        0
    } else {
        rows_of(ops.drop_last()) + ops.last().rows()
    }
}

/// The address of a hasher operation is one more than the number of rows that the operations before
/// it take, so every operation has rows of its own.
pub proof fn law_hasher_addresses_count_rows(ops: Seq<HasherOp>)
    requires
        HasherShimView::initial().has_room_for_all(ops),
    ensures
        HasherShimView::initial().perform_all(ops).addr == 1 + rows_of(ops),
    decreases ops.len(),
{
    if ops.len() > 0 {
        let before = ops.drop_last();
        assert(before =~= ops.take(ops.len() - 1));
        assert forall|k: int| 0 <= k < before.len() implies (
        #[trigger] HasherShimView::initial().perform_all(before.take(k))).has_room_for(
            before[k],
        ) by {
            assert(before.take(k) =~= ops.take(k));
        }
        law_hasher_addresses_count_rows(before);
        assert(HasherShimView::initial().perform_all(ops.take(ops.len() - 1)).has_room_for(
            ops.last(),
        ));
    }
}

/// Recordings of all kinds.
#[verifier::ext_equal]
pub struct Recordings {
    pub hasher: HasherReplayView,
    pub memory: MemoryReplayView,
    pub advice: AdviceReplayView,
    pub external: Seq<(MastNodeId, Arc<MastForest>)>,
}

impl Recordings {
    pub open spec fn none() -> Recordings {
        Recordings {
            hasher: HasherReplayView::empty(),
            memory: MemoryReplayView::empty(),
            advice: AdviceReplayView::empty(),
            external: Seq::empty(),
        }
    }

    /// These recordings, followed by others.
    pub open spec fn then_those_of(self, later: Recordings) -> Recordings {
        Recordings {
            hasher: HasherReplayView {
                block_addresses: self.hasher.block_addresses + later.hasher.block_addresses,
                permutation_operations: self.hasher.permutation_operations
                    + later.hasher.permutation_operations,
                build_merkle_root_operations: self.hasher.build_merkle_root_operations
                    + later.hasher.build_merkle_root_operations,
                mrupdate_operations: self.hasher.mrupdate_operations
                    + later.hasher.mrupdate_operations,
            },
            memory: MemoryReplayView {
                elements_read: self.memory.elements_read + later.memory.elements_read,
                words_read: self.memory.words_read + later.memory.words_read,
            },
            advice: AdviceReplayView {
                stack_pops: self.advice.stack_pops + later.advice.stack_pops,
                stack_word_pops: self.advice.stack_word_pops + later.advice.stack_word_pops,
                stack_dword_pops: self.advice.stack_dword_pops + later.advice.stack_dword_pops,
            },
            external: self.external + later.external,
        }
    }

    /// Recordings that the states of fragments hold, in order.
    pub open spec fn of_states(states: Seq<CoreTraceStateView>) -> Recordings
        decreases states.len(),
    {
        if states.len() == 0 {
            Recordings::none()
        } else {
            let last = states.last();
            Recordings::of_states(states.drop_last()).then_those_of(
                Recordings {
                    hasher: last.hasher,
                    memory: last.memory,
                    advice: last.advice,
                    external: last.external_node_replay,
                },
            )
        }
    }
}

impl BuilderView {
    /// Everything that has been recorded: what the states of ended fragments hold, and what has
    /// been recorded since.
    pub open spec fn recordings(self) -> Recordings {
        Recordings::of_states(self.states).then_those_of(
            Recordings {
                hasher: self.hasher.replay,
                memory: self.memory,
                advice: self.advice,
                external: self.external,
            },
        )
    }
}

/// Splitting an execution into fragments loses no recording, repeats none and keeps their order:
/// ending a fragment, and starting the next one, leave everything that has been recorded as it is.
/// At the end, the states of the fragments hold all of it, provided that a fragment was started.
pub proof fn law_fragments_partition_recordings(
    builder: BuilderView,
    system: SystemState,
    stack_top: Seq<Felt>,
    continuation_stack: Seq<Continuation>,
    exec_phase: NodeExecutionPhase,
    forest: Arc<MastForest>,
)
    ensures
        builder.finish().recordings() == builder.recordings(),
        builder.start(
            system,
            stack_top,
            continuation_stack,
            exec_phase,
            forest,
        ).recordings() == builder.recordings(),
        builder.snapshot is Some ==> Recordings::of_states(builder.finish().states)
            == builder.recordings(),
{
    match builder.snapshot {
        None => {},
        Some(snapshot) => {
            let states = builder.finish().states;
            assert(states.drop_last() =~= builder.states);
            assert(states.last() == builder.state_since(snapshot));
            assert(Recordings::of_states(states) == builder.recordings());
            assert(builder.recordings().then_those_of(Recordings::none())
                =~= builder.recordings());
        },
    }
    assert(builder.start(
        system,
        stack_top,
        continuation_stack,
        exec_phase,
        forest,
    ).recordings() =~= builder.finish().recordings());
}

/// Each start of a fragment yields one state, which holds the start as it was provided and the
/// overflow table and the block stack as they stood then, whatever happens to them later.
pub proof fn law_states_keep_their_start(
    builder: BuilderView,
    later: BuilderView,
    system: SystemState,
    stack_top: Seq<Felt>,
    continuation_stack: Seq<Continuation>,
    exec_phase: NodeExecutionPhase,
    forest: Arc<MastForest>,
)
    requires
        ({
            let started = builder.start(system, stack_top, continuation_stack, exec_phase, forest);
            later.snapshot == started.snapshot && later.states == started.states
        }),
    ensures
        later.finish().states.len() == builder.finish().states.len() + 1,
        later.finish().states.drop_last() == builder.finish().states,
        ({
            let state = later.finish().states.last();
            &&& state.system == system
            &&& state.stack == (StackView { top: stack_top, overflow: builder.overflow })
            &&& state.block_stack == builder.block_stack
            &&& state.traversal == continuation_stack
            &&& state.exec_phase == exec_phase
            &&& state.initial_mast_forest == forest
            &&& state.hasher == later.hasher.replay
            &&& state.memory == later.memory
            &&& state.advice == later.advice
            &&& state.external_node_replay == later.external
        }),
{
    assert(later.finish().states.drop_last() =~= builder.finish().states);
}

/// Ending a fragment leaves nothing to end: doing so twice is doing so once. Without a fragment that
/// is being executed, nothing changes. With one, exactly one state is added to the earlier ones, all
/// replays are empty, and the overflow table, the block stack and the hasher address stay.
pub proof fn law_finishing_twice_is_finishing_once(builder: BuilderView)
    ensures
        builder.finish().finish() == builder.finish(),
        builder.snapshot is None ==> builder.finish() == builder,
        builder.snapshot matches Some(snapshot) ==> {
            let finished = builder.finish();
            &&& finished.states == builder.states.push(builder.state_since(snapshot))
            &&& finished.snapshot is None
            &&& finished.hasher == (HasherShimView {
                replay: HasherReplayView::empty(),
                ..builder.hasher
            })
            &&& finished.memory == MemoryReplayView::empty()
            &&& finished.advice == AdviceReplayView::empty()
            &&& finished.external.len() == 0
            &&& finished.overflow == builder.overflow
            &&& finished.block_stack == builder.block_stack
        },
{
}

/// What is provided when a fragment starts.
pub struct FragmentStart {
    pub system: SystemState,
    pub stack_top: Seq<Felt>,
    pub continuation_stack: Seq<Continuation>,
    pub exec_phase: NodeExecutionPhase,
    pub forest: Arc<MastForest>,
}

impl BuilderView {
    pub open spec fn started_with(self, start: FragmentStart) -> BuilderView {
        self.start(
            start.system,
            start.stack_top,
            start.continuation_stack,
            start.exec_phase,
            start.forest,
        )
    }

    /// What has been recorded since a fragment last ended.
    pub open spec fn current_recordings(self) -> Recordings {
        Recordings {
            hasher: self.hasher.replay,
            memory: self.memory,
            advice: self.advice,
            external: self.external,
        }
    }

    /// Whether this builder is `earlier` after no more than these recordings and changes of the
    /// overflow table and the block stack.
    pub open spec fn has_recorded(self, earlier: BuilderView, recorded: Recordings) -> bool {
        &&& self.snapshot == earlier.snapshot
        &&& self.states == earlier.states
        &&& self.current_recordings() == earlier.current_recordings().then_those_of(recorded)
    }

    /// The state of a fragment that starts from this builder and has the given recordings.
    pub open spec fn state_of(
        self,
        start: FragmentStart,
        recorded: Recordings,
    ) -> CoreTraceStateView {
        CoreTraceStateView {
            system: start.system,
            stack: StackView { top: start.stack_top, overflow: self.overflow },
            block_stack: self.block_stack,
            traversal: start.continuation_stack,
            memory: recorded.memory,
            advice: recorded.advice,
            hasher: recorded.hasher,
            external_node_replay: recorded.external,
            exec_phase: start.exec_phase,
            initial_mast_forest: start.forest,
        }
    }
}

/// Whether `builders` are the stages of recording an execution: the first one is new, and each of
/// the others is the one before it after a fragment has started and something has been recorded.
pub open spec fn is_recording(
    builders: Seq<BuilderView>,
    starts: Seq<FragmentStart>,
    recorded: Seq<Recordings>,
) -> bool {
    &&& builders.len() == starts.len() + 1
    &&& recorded.len() == starts.len()
    &&& builders[0].snapshot is None
    &&& builders[0].states.len() == 0
    &&& builders[0].current_recordings() == Recordings::none()
    &&& forall|i: int|
        0 <= i < starts.len() ==> (#[trigger] builders[i + 1]).has_recorded(
            builders[i].started_with(starts[i]),
            recorded[i],
        )
}

proof fn lemma_stage_of_recording(
    builders: Seq<BuilderView>,
    starts: Seq<FragmentStart>,
    recorded: Seq<Recordings>,
    i: int,
)
    requires
        is_recording(builders, starts, recorded),
        0 <= i <= starts.len(),
    ensures
        builders[i].finish().states == Seq::new(
            i as nat,
            |k: int| builders[k].state_of(starts[k], recorded[k]),
        ),
        builders[i].finish().snapshot is None,
        builders[i].finish().current_recordings() == Recordings::none(),
    decreases i,
{
    if i == 0 {
        assert(builders[0].finish().states =~= Seq::new(
            0,
            |k: int| builders[k].state_of(starts[k], recorded[k]),
        ));
    } else {
        lemma_stage_of_recording(builders, starts, recorded, i - 1);
        let before = builders[i - 1];
        let now = builders[i];
        assert(builders[(i - 1) + 1].has_recorded(
            before.started_with(starts[i - 1]),
            recorded[i - 1],
        ));
        assert(Recordings::none().then_those_of(recorded[i - 1]) =~= recorded[i - 1]);
        assert(now.current_recordings() == recorded[i - 1]);
        assert(now.finish().states.last() == before.state_of(starts[i - 1], recorded[i - 1]));
        assert(now.finish().states =~= Seq::new(
            i as nat,
            |k: int| builders[k].state_of(starts[k], recorded[k]),
        ));
        assert(now.finish().current_recordings() =~= Recordings::none());
    }
}

/// An execution with `n` starts of fragments yields `n` states. Each holds its own start, the
/// overflow table and the block stack as they stood then, and exactly what was recorded from then on
/// until the next start or the end, in order.
pub proof fn law_each_start_yields_its_state(
    builders: Seq<BuilderView>,
    starts: Seq<FragmentStart>,
    recorded: Seq<Recordings>,
)
    requires
        is_recording(builders, starts, recorded),
    ensures
        builders.last().finish().states == Seq::new(
            starts.len(),
            |i: int| builders[i].state_of(starts[i], recorded[i]),
        ),
{
    lemma_stage_of_recording(builders, starts, recorded, starts.len() as int);
}

} // verus!
