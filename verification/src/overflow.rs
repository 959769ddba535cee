//! Stack elements beyond those that operations can reach directly.
use vstd::prelude::*;

use crate::felt::{Felt, felt};

verus! {

/// An element that was moved to the overflow table, and the clock cycle at which this happened.
#[derive(Clone, Copy, Debug, PartialEq, Eq, Structural)]
pub struct OverflowEntry {
    pub value: Felt,
    pub clk: u32,
}

/// Holds the overflowed stack elements of the current execution context and of the contexts that
/// are suspended while it runs.
#[derive(Debug)]
pub struct OverflowTable {
    current: Vec<OverflowEntry>,
    suspended: Vec<Vec<OverflowEntry>>,
    clk: u32,
}

/// Contents of an overflow table.
#[verifier::ext_equal]
pub struct OverflowView {
    /// Entries of the current context, the latest one last.
    pub current: Seq<OverflowEntry>,
    /// Entries of the suspended contexts, the latest context last.
    pub suspended: Seq<Seq<OverflowEntry>>,
    /// Current clock cycle.
    pub clk: u32,
}

impl OverflowView {
    /// The table of a program that has not started.
    pub open spec fn empty() -> OverflowView {
        OverflowView { current: Seq::empty(), suspended: Seq::empty(), clk: 0 }
    }

    pub open spec fn push(self, value: Felt) -> OverflowView {
        OverflowView { current: self.current.push(OverflowEntry { value, clk: self.clk }), ..self }
    }

    pub open spec fn pop(self) -> OverflowView {
        if self.current.len() == 0 {
            self
        } else {
            OverflowView { current: self.current.drop_last(), ..self }
        }
    }

    /// The element that was moved to the table last.
    pub open spec fn top(self) -> Option<Felt> {
        if self.current.len() == 0 {
            None
        } else {
            Some(self.current.last().value)
        }
    }

    /// Address of the top entry: the clock cycle at which it was added, or zero.
    pub open spec fn top_address(self) -> Felt {
        if self.current.len() == 0 {
            felt(0)
        } else {
            felt(self.current.last().clk as int)
        }
    }

    pub open spec fn start_context(self) -> OverflowView {
        OverflowView {
            current: Seq::empty(),
            suspended: self.suspended.push(self.current),
            ..self
        }
    }
}

impl View for OverflowTable {
    type V = OverflowView;

    closed spec fn view(&self) -> OverflowView {
        OverflowView {
            current: self.current@,
            suspended: self.suspended@.map_values(|entries: Vec<OverflowEntry>| entries@),
            clk: self.clk,
        }
    }
}

fn copy_entries(entries: &Vec<OverflowEntry>) -> (r: Vec<OverflowEntry>)
    ensures
        r@ == entries@,
{
    let mut copy: Vec<OverflowEntry> = Vec::new();
    for i in 0..entries.len()
        invariant
            copy@ == entries@.take(i as int),
    {
        copy.push(entries[i]);
        assert(copy@ =~= entries@.take(i + 1));
    }
    assert(entries@.take(entries@.len() as int) =~= entries@);
    copy
}

impl Clone for OverflowTable {
    fn clone(&self) -> (r: Self)
        ensures
            r@ == self@,
    {
        let mut suspended: Vec<Vec<OverflowEntry>> = Vec::new();
        for i in 0..self.suspended.len()
            invariant
                suspended@.len() == i,
                forall|k: int| 0 <= k < i ==> (#[trigger] suspended@[k])@ == self.suspended@[k]@,
        {
            suspended.push(copy_entries(&self.suspended[i]));
        }
        let table = OverflowTable { current: copy_entries(&self.current), suspended, clk: self.clk };
        assert(table@ =~= self@);
        table
    }
}

impl Default for OverflowTable {
    fn default() -> (r: Self)
        ensures
            r@ == OverflowView::empty(),
    {
        let table = OverflowTable { current: Vec::new(), suspended: Vec::new(), clk: 0 };
        assert(table@ =~= OverflowView::empty());
        table
    }
}

impl OverflowTable {
    /// Number of elements of the current context in the table.
    pub fn num_elements_in_current_ctx(&self) -> (r: usize)
        ensures
            r == self@.current.len(),
    {
        self.current.len()
    }

    /// Clock cycle at which the top element of the current context was added, or zero.
    pub fn last_update_clk_in_current_ctx(&self) -> (r: Felt)
        ensures
            r == self@.top_address(),
    {
        let n: usize = self.current.len();
        if n == 0 {
            Felt::zero()
        } else {
            Felt::new(self.current[n - 1].clk as u64)
        }
    }

    /// Moves on to the next clock cycle.
    pub fn advance_clock(&mut self)
        requires
            old(self)@.clk < u32::MAX,
        ensures
            final(self)@ == (OverflowView { clk: (old(self)@.clk + 1) as u32, ..old(self)@ }),
    {
        self.clk = self.clk + 1;
    }

    /// Adds an element to the current context.
    pub fn push(&mut self, value: Felt)
        ensures
            final(self)@ == old(self)@.push(value),
    {
        self.current.push(OverflowEntry { value, clk: self.clk });
    }

    /// Removes the element that was added last to the current context, if there is one.
    pub fn pop(&mut self) -> (r: Option<Felt>)
        ensures
            final(self)@ == old(self)@.pop(),
            r == old(self)@.top(),
    {
        match self.current.pop() {
            Some(entry) => Some(entry.value),
            None => None,
        }
    }

    /// Suspends the current context and starts one that has no elements.
    pub fn start_context(&mut self)
        ensures
            final(self)@ == old(self)@.start_context(),
    {
        let mut entries: Vec<OverflowEntry> = Vec::new();
        core::mem::swap(&mut entries, &mut self.current);
        self.suspended.push(entries);
        assert(self@.suspended =~= old(self)@.suspended.push(old(self)@.current));
    }
}

} // verus!
