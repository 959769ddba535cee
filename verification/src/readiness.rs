//! Tests of what executing a part of a program needs.
use vstd::prelude::*;

use crate::checkpoints::NodeExecutionPhase;
use crate::continuation_stack::Continuation;
use crate::dispatch::{has_helpers, is_flow_control};
use crate::felt::{Felt, MODULUS};
use crate::generator::CoreTraceFragmentGenerator;
use crate::layout::{CORE_TRACE_WIDTH, MIN_STACK_DEPTH};
use crate::mast::{MastNode, MastNodeId};
use crate::op_batch::BatchStep;
use crate::span::count_groups_consumed;
use crate::task::Task;

verus! {

impl CoreTraceFragmentGenerator {
    /// Whether the stack depth is within what the machine can hold and the field represent.
    fn stack_fits(&self) -> (r: bool)
        ensures
            r == self@.state.stack.fits(),
    {
        let n: usize = self.state.stack.num_overflow_elements_in_current_ctx();
        n <= usize::MAX - MIN_STACK_DEPTH && (n as u64) < MODULUS - 16
    }

    /// Whether the fragment holds the row before the next one.
    fn holds_previous_row(&self) -> (r: bool)
        ensures
            r == self@.has_previous_row(),
    {
        if self.state.system.clk <= self.fragment_start_clk {
            return false;
        }
        if self.fragment.columns.len() != CORE_TRACE_WIDTH {
            return false;
        }
        let built: usize = self.num_rows_built();
        for c in 0..CORE_TRACE_WIDTH
            invariant
                built == self@.rows_built(),
                self@.columns.len() == CORE_TRACE_WIDTH,
                forall|k: int| 0 <= k < c ==> built <= (#[trigger] self@.columns[k]).len(),
        {
            assert(self@.columns[c as int] == self.fragment.columns@[c as int]@);
            if built > self.fragment.columns[c].len() {
                return false;
            }
        }
        true
    }

    fn node_can_start(&self, node_id: MastNodeId) -> (r: bool)
        ensures
            r == self@.can_execute_node(node_id),
    {
        if self.state.hasher.block_addresses.len() == 0 {
            return false;
        }
        match self.forest.get_node_by_id(node_id) {
            None => false,
            Some(MastNode::Block(node)) => node.is_valid(),
            Some(MastNode::Join(_)) => true,
            Some(MastNode::Split(_)) => true,
            Some(MastNode::Loop(node)) => self.forest.get_node_by_id(node.body).is_some(),
            Some(MastNode::Call(_)) => self.stack_fits(),
            Some(MastNode::Dyn(node)) => !node.is_dyncall || self.stack_fits(),
            Some(MastNode::External(_)) => false,
        }
    }

    fn node_can_end(&self, node_id: MastNodeId) -> (r: bool)
        ensures
            r == self@.can_end_node(node_id),
    {
        match self.forest.get_node_by_id(node_id) {
            None => false,
            Some(MastNode::Loop(node)) => self.forest.get_node_by_id(node.body).is_some()
                && self.state.block_stack.blocks.len() > 0,
            Some(MastNode::External(_)) => false,
            Some(_) => true,
        }
    }

    fn batch_can_run(&self, node_id: MastNodeId, batch_index: usize) -> (r: bool)
        ensures
            r == (self@.has_block(node_id) && batch_index < self@.block(node_id).op_batches@.len()
                && self@.block(node_id).op_batches@[batch_index as int].wf()),
    {
        match self.forest.get_node_by_id(node_id) {
            Some(MastNode::Block(node)) => batch_index < node.op_batches.len()
                && node.op_batches[batch_index].is_valid(),
            _ => false,
        }
    }

    fn continuations_can_follow(&self) -> (r: bool)
        ensures
            r == self@.can_follow_continuations(),
    {
        let n: usize = self.state.traversal.stack.len();
        if n == 0 {
            return true;
        }
        match &self.state.traversal.stack[n - 1] {
            Continuation::StartNode(id) => match self.forest.get_node_by_id(*id) {
                None => false,
                Some(MastNode::External(_)) =>
                    self.state.external_node_replay.external_node_resolutions.len() > 0,
                Some(_) => true,
            },
            Continuation::FinishJoin(id) => match self.forest.get_node_by_id(*id) {
                Some(MastNode::Join(_)) => true,
                _ => false,
            },
            Continuation::FinishSplit(id) => match self.forest.get_node_by_id(*id) {
                Some(MastNode::Split(_)) => true,
                _ => false,
            },
            Continuation::FinishLoop(id) => match self.forest.get_node_by_id(*id) {
                Some(MastNode::Loop(_)) => true,
                _ => false,
            },
            Continuation::FinishCall(id) => match self.forest.get_node_by_id(*id) {
                Some(MastNode::Call(_)) => true,
                _ => false,
            },
            Continuation::FinishDyn(id) => match self.forest.get_node_by_id(*id) {
                Some(MastNode::Dyn(_)) => true,
                _ => false,
            },
            Continuation::EnterForest(_) => true,
        }
    }

    /// Whether the next task can be executed.
    pub fn is_ready(&self) -> (r: bool)
        ensures
            r == self@.ready(),
    {
        let n: usize = self.tasks.len();
        if n == 0 {
            return true;
        }
        match self.tasks[n - 1] {
            Task::ExecuteNode(id) => self.node_can_start(id),
            Task::EnterSpan(id) => match self.forest.get_node_by_id(id) {
                Some(MastNode::Block(node)) => node.is_valid(),
                _ => false,
            },
            Task::RunBatchesFrom { node_id, .. } => match self.forest.get_node_by_id(node_id) {
                Some(MastNode::Block(_)) => true,
                _ => false,
            },
            Task::Respan { node_id, batch_index } => match self.forest.get_node_by_id(node_id) {
                Some(MastNode::Block(node)) => batch_index < node.op_batches.len(),
                _ => false,
            },
            Task::RunBatch { node_id, batch_index, .. } => self.batch_can_run(node_id, batch_index),
            Task::Step(BatchStep::ExecuteOp { op, .. }) => !is_flow_control(&op),
            Task::Step(BatchStep::StartGroup { .. }) => match self.span_context {
                Some(ctx) => ctx.group_ops_left == Felt::zero(),
                None => false,
            },
            Task::AddOperationRow { op, .. } => !has_helpers(&op) || self.user_op_helpers.is_some(),
            Task::TakeBranch(id) => match self.forest.get_node_by_id(id) {
                Some(MastNode::Split(_)) => true,
                _ => false,
            },
            Task::TestLoop(id) => match self.forest.get_node_by_id(id) {
                Some(MastNode::Loop(_)) => self.stack_get(0) != Felt::one() || (
                self.state.block_stack.blocks.len() > 0 && self.holds_previous_row()),
                _ => false,
            },
            Task::RepeatLoop(id) => match self.forest.get_node_by_id(id) {
                Some(MastNode::Loop(_)) => self.state.block_stack.blocks.len() > 0,
                _ => false,
            },
            Task::EnterCall(id) => match self.forest.get_node_by_id(id) {
                Some(MastNode::Call(node)) => self.forest.get_node_by_id(node.callee).is_some(),
                _ => false,
            },
            Task::RestoreContext { .. } => true,
            Task::EndNode(id) => self.node_can_end(id),
            Task::FollowContinuations => self.continuations_can_follow(),
        }
    }

    /// Whether execution can start from a phase.
    pub fn can_start(&self, execution_phase: NodeExecutionPhase) -> (r: bool)
        ensures
            r == self@.can_start_from(execution_phase),
    {
        match execution_phase {
            NodeExecutionPhase::BasicBlock {
                node_id,
                batch_index,
                op_idx_in_batch,
                needs_respan,
            } => match self.state.initial_mast_forest.get_node_by_id(node_id) {
                Some(MastNode::Block(node)) => node.is_valid() && batch_index
                    < node.op_batches.len() && op_idx_in_batch
                    < node.op_batches[batch_index].num_runtime_ops() && count_groups_consumed(
                    node,
                    batch_index,
                    op_idx_in_batch,
                ) <= node.num_op_groups() && (!needs_respan || op_idx_in_batch == 0),
                _ => false,
            },
            NodeExecutionPhase::Start(_) => true,
            NodeExecutionPhase::LoopRepeat(_) => true,
            NodeExecutionPhase::End(_) => true,
        }
    }
}

} // verus!
