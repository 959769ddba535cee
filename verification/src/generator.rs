//! Generation of a fragment of the core trace: its state, and access to it.
use core::ops::ControlFlow;
use std::sync::Arc;

use vstd::prelude::*;

use crate::checkpoints::{CoreTraceState, CoreTraceStateView, StackView, SystemState};
use crate::felt::{Felt, MODULUS, felt};
use crate::fragment::CoreTraceFragment;
use crate::layout::{CORE_TRACE_WIDTH, MIN_STACK_DEPTH, NUM_ROWS_PER_CORE_FRAGMENT};
use crate::mast::MastForest;
use crate::operation::FlowOperation;
use crate::overflow::OverflowView;
use crate::processor::holds_opcode;
use crate::span::SpanContext;
use crate::task::Task;

verus! {

/// Generates a fragment of the core trace from the state at its start.
#[derive(Debug)]
pub struct CoreTraceFragmentGenerator {
    pub fragment_start_clk: u32,
    pub fragment: CoreTraceFragment,
    pub state: CoreTraceState,
    pub span_context: Option<SpanContext>,
    /// Stack columns of the row after the last one of the fragment.
    pub stack_rows: Option<[Felt; 19]>,
    /// System columns of the row after the last one of the fragment.
    pub system_rows: Option<[Felt; 8]>,
    /// Forest that holds the nodes that are executed.
    pub forest: Arc<MastForest>,
    /// What is left to execute, the next task last.
    pub tasks: Vec<Task>,
    /// Helper values of the operation that was performed last.
    pub user_op_helpers: Option<[Felt; 6]>,
}

/// Contents of a generator.
#[verifier::ext_equal]
pub struct GeneratorView {
    pub fragment_start_clk: u32,
    pub columns: Seq<Seq<Felt>>,
    pub state: CoreTraceStateView,
    pub span_context: Option<SpanContext>,
    pub stack_rows: Option<[Felt; 19]>,
    pub system_rows: Option<[Felt; 8]>,
    pub forest: Arc<MastForest>,
    pub tasks: Seq<Task>,
    pub user_op_helpers: Option<[Felt; 6]>,
}

/// Contents of a generated fragment, and the stack and system columns of the row after it.
#[verifier::ext_equal]
pub struct FragmentView {
    pub columns: Seq<Seq<Felt>>,
    pub stack_row: Seq<Felt>,
    pub system_row: Seq<Felt>,
}

impl View for CoreTraceFragmentGenerator {
    type V = GeneratorView;

    open spec fn view(&self) -> GeneratorView {
        GeneratorView {
            fragment_start_clk: self.fragment_start_clk,
            columns: self.fragment@,
            state: self.state@,
            span_context: self.span_context,
            stack_rows: self.stack_rows,
            system_rows: self.system_rows,
            forest: self.forest,
            tasks: self.tasks@,
            user_op_helpers: self.user_op_helpers,
        }
    }
}

impl GeneratorView {
    /// The generator of the fragment that starts with a state: nothing has been built or is about
    /// to be executed.
    pub open spec fn initial(state: CoreTraceStateView) -> GeneratorView {
        GeneratorView {
            fragment_start_clk: state.system.clk,
            columns: Seq::new(
                CORE_TRACE_WIDTH as nat,
                |c: int| Seq::new(NUM_ROWS_PER_CORE_FRAGMENT as nat, |row: int| felt(0)),
            ),
            state,
            span_context: None,
            stack_rows: None,
            system_rows: None,
            forest: state.initial_mast_forest,
            tasks: Seq::empty(),
            user_op_helpers: None,
        }
    }

    pub open spec fn with_stack(self, stack: StackView) -> GeneratorView {
        GeneratorView { state: CoreTraceStateView { stack, ..self.state }, ..self }
    }

    pub open spec fn with_system(self, system: SystemState) -> GeneratorView {
        GeneratorView { state: CoreTraceStateView { system, ..self.state }, ..self }
    }

    /// Number of rows built so far.
    pub open spec fn rows_built(self) -> int {
        self.state.system.clk - self.fragment_start_clk
    }
}

impl StackView {
    /// The element at a position, counted from the top of the stack.
    pub open spec fn at(self, idx: int) -> Felt {
        self.top[MIN_STACK_DEPTH - idx - 1]
    }

    /// Four elements, the first of which, in storage order, stands deepest.
    pub open spec fn word_at(self, start_idx: int) -> Seq<Felt> {
        self.top.subrange(MIN_STACK_DEPTH - start_idx - 4, MIN_STACK_DEPTH - start_idx)
    }

    pub open spec fn write(self, idx: int, element: Felt) -> StackView {
        StackView { top: self.top.update(MIN_STACK_DEPTH - idx - 1, element), ..self }
    }

    pub open spec fn write_word(self, start_idx: int, word: Seq<Felt>) -> StackView {
        let from = MIN_STACK_DEPTH - start_idx - 4;
        StackView {
            top: Seq::new(
                16,
                |k: int|
                    if from <= k < from + 4 {
                        word[k - from]
                    } else {
                        self.top[k]
                    },
            ),
            ..self
        }
    }

    pub open spec fn swap(self, idx1: int, idx2: int) -> StackView {
        self.write(idx1, self.at(idx2)).write(idx2, self.at(idx1))
    }

    /// The `n`-th word from the top trades places with the top word.
    pub open spec fn swap_words(self, n: int) -> StackView {
        StackView {
            top: Seq::new(
                16,
                |k: int|
                    if k >= 12 {
                        self.top[k - 4 * n]
                    } else if 12 - 4 * n <= k < 16 - 4 * n {
                        self.top[k + 4 * n]
                    } else {
                        self.top[k]
                    },
            ),
            ..self
        }
    }

    /// The deepest of the top `n` elements moves to the top.
    pub open spec fn rotate_left(self, n: int) -> StackView {
        let bottom = MIN_STACK_DEPTH - n;
        StackView {
            top: Seq::new(
                16,
                |k: int|
                    if k < bottom {
                        self.top[k]
                    } else if k < 15 {
                        self.top[k + 1]
                    } else {
                        self.top[bottom]
                    },
            ),
            ..self
        }
    }

    /// The top element moves below the other elements among the top `n`.
    pub open spec fn rotate_right(self, n: int) -> StackView {
        let bottom = MIN_STACK_DEPTH - n;
        StackView {
            top: Seq::new(
                16,
                |k: int|
                    if k < bottom {
                        self.top[k]
                    } else if k == bottom {
                        self.top[15]
                    } else {
                        self.top[k - 1]
                    },
            ),
            ..self
        }
    }

    /// All elements move down by one position; the deepest one moves to the overflow table.
    pub open spec fn grow(self, top: Felt) -> StackView {
        StackView {
            top: self.top.drop_first().push(top),
            overflow: self.overflow.push(self.top[0]),
        }
    }

    /// The top element is removed; the deepest position is filled from the overflow table or with
    /// zero.
    pub open spec fn shrink(self) -> StackView {
        let incoming = match self.overflow.top() {
            Some(element) => element,
            None => felt(0),
        };
        StackView { top: seq![incoming] + self.top.drop_last(), overflow: self.overflow.pop() }
    }
}

/// Value that stands on top of the stack after it has grown, until it is overwritten.
pub open spec fn sentinel() -> Felt {
    felt(MODULUS - 1)
}

// CONSTRUCTION AND COMPLETION
// ================================================================================================

impl CoreTraceFragmentGenerator {
    /// Creates a generator for the fragment that starts with the provided state.
    pub fn new(state: CoreTraceState) -> (r: Self)
        ensures
            r@ == GeneratorView::initial(state@),
            r.fragment.wf(),
            r.fragment.rows() == NUM_ROWS_PER_CORE_FRAGMENT,
    {
        let forest = state.initial_mast_forest.clone();
        let ghost provided = state@;
        let generator = CoreTraceFragmentGenerator {
            fragment_start_clk: state.system.clk,
            fragment: CoreTraceFragment::new_uninit(NUM_ROWS_PER_CORE_FRAGMENT),
            state,
            span_context: None,
            stack_rows: None,
            system_rows: None,
            forest,
            tasks: Vec::new(),
            user_op_helpers: None,
        };
        proof {
            let columns = GeneratorView::initial(provided).columns;
            assert forall|c: int| 0 <= c < CORE_TRACE_WIDTH implies generator.fragment@[c]
                =~= #[trigger] columns[c] by {}
            assert(generator.fragment@ =~= columns);
        }
        generator
    }

    /// The fragment that has been built, together with the stack and system columns of the row
    /// after it, which are zero if there is no such row. Only a fragment that ends with HALT is
    /// shorter than the others.
    pub fn generate_fragment(self) -> (r: (CoreTraceFragment, [Felt; 19], [Felt; 8]))
        requires
            self@.finished(),
        ensures
            (FragmentView { columns: r.0@, stack_row: r.1@, system_row: r.2@ })
                == self@.fragment_view(),
            r.0.wf(),
            r.0.rows() == self@.final_rows(),
            r.0.rows() < NUM_ROWS_PER_CORE_FRAGMENT ==> r.0.rows() > 0 && holds_opcode(
                r.0@,
                FlowOperation::Halt.code(),
                r.0.rows() - 1,
            ),
    {
        let zero = Felt::zero();
        let final_stack_rows = match self.stack_rows {
            Some(row) => row,
            None => [zero;19],
        };
        let final_system_rows = match self.system_rows {
            Some(row) => row,
            None => [zero;8],
        };
        assert(self.stack_rows is None ==> final_stack_rows@ =~= Seq::new(19, |i: int| felt(0)));
        assert(self.system_rows is None ==> final_system_rows@ =~= Seq::new(8, |i: int| felt(0)));
        let ghost built = self@;
        let fragment = self.finalize_fragment();
        proof {
            assert(self.fragment.wf());
            assert forall|c: int| 0 <= c < CORE_TRACE_WIDTH implies #[trigger] fragment@[c]
                =~= built.columns[c].take(built.final_rows()) by {
                assert(built.columns[c].len() == NUM_ROWS_PER_CORE_FRAGMENT);
            }
        }
        (fragment, final_stack_rows, final_system_rows)
    }

    /// The fragment without the rows that were not built.
    fn finalize_fragment(self) -> (r: CoreTraceFragment)
        requires
            self@.rows_built() >= 0,
        ensures
            r@ == self@.truncated_columns(),
            self.fragment.wf() ==> r.wf(),
    {
        let built: usize = self.num_rows_built();
        let num_rows: usize = if built < NUM_ROWS_PER_CORE_FRAGMENT {
            built
        } else {
            NUM_ROWS_PER_CORE_FRAGMENT
        };
        let ghost rows = self@.final_rows();
        let ghost all = self.fragment@;
        let mut fragment = self.fragment;
        let width: usize = fragment.columns.len();
        for c in 0..width
            invariant
                width == all.len(),
                fragment@.len() == all.len(),
                num_rows == rows,
                forall|k: int|
                    0 <= k < c ==> #[trigger] fragment@[k] == (if all[k].len() <= rows {
                        all[k]
                    } else {
                        all[k].take(rows)
                    }),
                forall|k: int| c <= k < all.len() ==> #[trigger] fragment@[k] == all[k],
        {
            let ghost before = fragment@;
            fragment.columns[c].truncate(num_rows);
            assert(fragment@ =~= before.update(c as int, fragment@[c as int]));
            proof {
                assert(before[c as int] == all[c as int]);
                if all[c as int].len() <= rows {
                    assert(fragment@[c as int] =~= all[c as int]);
                } else {
                    assert(fragment@[c as int] =~= all[c as int].take(rows));
                }
            }
        }
        assert(fragment@ =~= self@.truncated_columns());
        assert(self.fragment.wf() ==> fragment.wf()) by {
            if self.fragment.wf() {
                assert forall|c: int| 0 <= c < CORE_TRACE_WIDTH implies (
                #[trigger] fragment@[c]).len() == fragment@[0].len() by {
                    assert(all[c].len() == all[0].len());
                }
            }
        }
        fragment
    }

    /// Whether all rows of the fragment have been built.
    pub fn done_generating(&self) -> (r: bool)
        requires
            self@.rows_built() >= 0,
        ensures
            r == (self@.rows_built() >= NUM_ROWS_PER_CORE_FRAGMENT),
    {
        self.num_rows_built() >= NUM_ROWS_PER_CORE_FRAGMENT
    }

    /// Number of rows built so far in the fragment.
    pub fn num_rows_built(&self) -> (r: usize)
        requires
            self@.rows_built() >= 0,
        ensures
            r == self@.rows_built(),
    {
        (self.state.system.clk - self.fragment_start_clk) as usize
    }

    /// Moves on to the next row. Breaks if all rows of the fragment have been built.
    pub fn increment_clk(&mut self) -> (r: ControlFlow<()>)
        requires
            old(self)@.rows_built() >= 0,
            old(self)@.state.system.clk < u32::MAX,
            old(self)@.state.stack.overflow.clk < u32::MAX,
        ensures
            final(self)@ == old(self)@.next_cycle(),
            r == final(self)@.flow(),
    {
        self.state.system.clk = self.state.system.clk + 1;
        self.state.stack.advance_clock();
        if self.done_generating() {
            ControlFlow::Break(())
        } else {
            ControlFlow::Continue(())
        }
    }
}

impl GeneratorView {
    /// How generation goes on after a row: it breaks once the fragment is full.
    pub open spec fn flow(self) -> ControlFlow<()> {
        if self.rows_built() >= NUM_ROWS_PER_CORE_FRAGMENT {
            ControlFlow::<()>::Break(())
        } else {
            ControlFlow::<()>::Continue(())
        }
    }

    /// Number of rows of the finished fragment.
    pub open spec fn final_rows(self) -> int {
        if self.rows_built() < NUM_ROWS_PER_CORE_FRAGMENT {
            self.rows_built()
        } else {
            NUM_ROWS_PER_CORE_FRAGMENT as int
        }
    }

    /// Columns of the finished fragment.
    pub open spec fn truncated_columns(self) -> Seq<Seq<Felt>> {
        self.columns.map_values(
            |column: Seq<Felt>|
                if column.len() <= self.final_rows() {
                    column
                } else {
                    column.take(self.final_rows())
                },
        )
    }

    /// What generation gives: the fragment without the rows that were not built, and the stack and
    /// system columns of the row after it, which are zero if there is no such row.
    pub open spec fn fragment_view(self) -> FragmentView {
        FragmentView {
            columns: self.truncated_columns(),
            stack_row: match self.stack_rows {
                Some(row) => row@,
                None => Seq::new(19, |i: int| felt(0)),
            },
            system_row: match self.system_rows {
                Some(row) => row@,
                None => Seq::new(8, |i: int| felt(0)),
            },
        }
    }

    pub open spec fn next_cycle(self) -> GeneratorView {
        let system = self.state.system;
        let stack = self.state.stack;
        self.with_system(SystemState { clk: (system.clk + 1) as u32, ..system }).with_stack(
            StackView {
                overflow: OverflowView {
                    clk: (stack.overflow.clk + 1) as u32,
                    ..stack.overflow
                },
                ..stack
            },
        )
    }
}

} // verus!
