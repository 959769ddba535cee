//! What is left to execute of a program.
use std::sync::Arc;

use vstd::prelude::*;

use crate::mast::{MastForest, MastNodeId};

verus! {

/// A piece of work that is left to do.
#[derive(Debug)]
pub enum Continuation {
    StartNode(MastNodeId),
    FinishJoin(MastNodeId),
    FinishSplit(MastNodeId),
    FinishLoop(MastNodeId),
    FinishCall(MastNodeId),
    FinishDyn(MastNodeId),
    /// Go back to a forest.
    EnterForest(Arc<MastForest>),
}

/// What is left to do, the next piece of work last.
#[derive(Debug)]
pub struct ContinuationStack {
    pub stack: Vec<Continuation>,
}

impl View for ContinuationStack {
    type V = Seq<Continuation>;

    open spec fn view(&self) -> Seq<Continuation> {
        self.stack@
    }
}

impl Default for ContinuationStack {
    fn default() -> (r: Self)
        ensures
            r@ == Seq::<Continuation>::empty(),
    {
        ContinuationStack { stack: Vec::new() }
    }
}

impl ContinuationStack {
    /// Takes the next piece of work, if there is one.
    pub fn pop_continuation(&mut self) -> (r: Option<Continuation>)
        ensures
            r == (if old(self)@.len() == 0 {
                None
            } else {
                Some(old(self)@.last())
            }),
            final(self)@ == (if old(self)@.len() == 0 {
                old(self)@
            } else {
                old(self)@.drop_last()
            }),
    {
        self.stack.pop()
    }

    /// Puts starting a node in front of all other work.
    pub fn push_start_node(&mut self, node_id: MastNodeId)
        ensures
            final(self)@ == old(self)@.push(Continuation::StartNode(node_id)),
    {
        self.stack.push(Continuation::StartNode(node_id));
    }

    /// Puts going back to a forest in front of all other work.
    pub fn push_enter_forest(&mut self, forest: Arc<MastForest>)
        ensures
            final(self)@ == old(self)@.push(Continuation::EnterForest(forest)),
    {
        self.stack.push(Continuation::EnterForest(forest));
    }
}

} // verus!
