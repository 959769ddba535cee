//! Access to the state of a generator, as operations need it.
use vstd::prelude::*;

use crate::checkpoints::{StackView, SystemState};
use crate::felt::{Felt, MODULUS, WORD_SIZE, Word, felt, lemma_felt_view};
use crate::generator::{CoreTraceFragmentGenerator, GeneratorView, sentinel};
use crate::layout::{
    CORE_TRACE_WIDTH, DECODER_TRACE_OFFSET, MIN_STACK_DEPTH, OP_BITS_EXTRA_COLS_OFFSET,
    OP_BITS_OFFSET,
};
use crate::operation::NUM_OP_BITS;
use crate::span::SpanContext;

verus! {

impl CoreTraceFragmentGenerator {
    /// Hash of the function that initiated the current execution context.
    pub fn caller_hash(&self) -> (r: Word)
        ensures
            r == self@.state.system.fn_hash,
    {
        self.state.system.fn_hash
    }

    /// Whether a system call is being executed.
    pub fn in_syscall(&self) -> (r: bool)
        ensures
            r == self@.state.system.in_syscall,
    {
        self.state.system.in_syscall
    }

    /// Current clock cycle.
    pub fn clk(&self) -> (r: u32)
        ensures
            r == self@.state.system.clk,
    {
        self.state.system.clk
    }

    /// Free memory pointer.
    pub fn fmp(&self) -> (r: Felt)
        ensures
            r == self@.state.system.fmp,
    {
        self.state.system.fmp
    }

    /// Sets the free memory pointer.
    pub fn set_fmp(&mut self, new_fmp: Felt)
        ensures
            final(self)@ == old(self)@.with_system(
                (SystemState { fmp: new_fmp, ..old(self)@.state.system }),
            ),
    {
        self.state.system.fmp = new_fmp;
    }

    /// The top of the stack, in reverse order.
    pub fn stack_top(&self) -> (r: &[Felt; 16])
        ensures
            r@ == self@.state.stack.top,
    {
        self.state.stack.stack_top()
    }

    /// The element at a position, counted from the top of the stack.
    pub fn stack_get(&self, idx: usize) -> (r: Felt)
        requires
            idx < MIN_STACK_DEPTH,
        ensures
            r == self@.state.stack.at(idx as int),
    {
        self.state.stack.stack_top()[MIN_STACK_DEPTH - idx - 1]
    }

    /// The element at a position, counted from the top of the stack, for modification.
    pub fn stack_get_mut(&mut self, idx: usize) -> (r: &mut Felt)
        requires
            idx < MIN_STACK_DEPTH,
        ensures
            *r == old(self)@.state.stack.at(idx as int),
            final(self)@ == old(self)@.with_stack(
                old(self)@.state.stack.write(idx as int, *final(r)),
            ),
    {
        &mut self.state.stack.stack_top_mut()[MIN_STACK_DEPTH - idx - 1]
    }

    /// Four elements, in storage order, the topmost of which stands at the given position.
    pub fn stack_get_word(&self, start_idx: usize) -> (r: Word)
        requires
            start_idx < MIN_STACK_DEPTH - WORD_SIZE,
        ensures
            r@ == self@.state.stack.word_at(start_idx as int),
    {
        let from: usize = MIN_STACK_DEPTH - start_idx - 4;
        let top = self.state.stack.stack_top();
        let word = [top[from], top[from + 1], top[from + 2], top[from + 3]];
        assert(word@ =~= self@.state.stack.word_at(start_idx as int));
        word
    }

    /// Depth of the stack.
    pub fn stack_depth(&self) -> (r: u32)
        requires
            self@.state.stack.depth() <= usize::MAX,
        ensures
            r == self@.state.stack.depth() as usize as u32,
            self@.state.stack.depth() <= u32::MAX ==> r == self@.state.stack.depth(),
    {
        (MIN_STACK_DEPTH + self.state.stack.num_overflow_elements_in_current_ctx()) as u32
    }

    /// Overwrites the element at a position, counted from the top of the stack.
    pub fn stack_write(&mut self, idx: usize, element: Felt)
        requires
            idx < MIN_STACK_DEPTH,
        ensures
            final(self)@ == old(self)@.with_stack(
                old(self)@.state.stack.write(idx as int, element),
            ),
    {
        *self.stack_get_mut(idx) = element;
    }

    /// Overwrites four elements, in storage order, the topmost of which stands at the given
    /// position.
    pub fn stack_write_word(&mut self, start_idx: usize, word: &Word)
        requires
            start_idx < MIN_STACK_DEPTH - WORD_SIZE,
        ensures
            final(self)@ == old(self)@.with_stack(
                old(self)@.state.stack.write_word(start_idx as int, word@),
            ),
    {
        let from: usize = MIN_STACK_DEPTH - start_idx - 4;
        let top = self.state.stack.stack_top_mut();
        top[from] = word[0];
        top[from + 1] = word[1];
        top[from + 2] = word[2];
        top[from + 3] = word[3];
        assert(self@.state.stack =~= old(self)@.state.stack.write_word(start_idx as int, word@));
    }

    /// Swaps the elements at two positions, counted from the top of the stack.
    pub fn stack_swap(&mut self, idx1: usize, idx2: usize)
        requires
            idx1 < MIN_STACK_DEPTH,
            idx2 < MIN_STACK_DEPTH,
        ensures
            final(self)@ == old(self)@.with_stack(
                old(self)@.state.stack.swap(idx1 as int, idx2 as int),
            ),
    {
        let a = self.stack_get(idx1);
        let b = self.stack_get(idx2);
        self.stack_write(idx1, b);
        self.stack_write(idx2, a);
    }

    /// Swaps the `n`-th word from the top of the stack with the top word.
    pub fn swapw_nth(&mut self, n: usize)
        requires
            1 <= n <= 3,
        ensures
            final(self)@ == old(self)@.with_stack(old(self)@.state.stack.swap_words(n as int)),
    {
        let ghost before = self@.state.stack.top;
        let top = self.state.stack.stack_top_mut();
        assert(before.len() == 16);
        let from: usize = MIN_STACK_DEPTH - WORD_SIZE - n * WORD_SIZE;
        let mut i: usize = 0;
        while i < WORD_SIZE
            invariant
                1 <= n <= 3,
                from == 12 - 4 * n,
                i <= 4,
                before.len() == 16,
                forall|k: int| 12 <= k < 12 + i ==> top@[k] == before[k - 4 * n],
                forall|k: int| from <= k < from + i ==> top@[k] == before[k + 4 * n],
                forall|k: int|
                    0 <= k < 16 && !(12 <= k < 12 + i) && !(from <= k < from + i) ==> top@[k]
                        == before[k],
            decreases 4 - i,
        {
            let a = top[from + i];
            let b = top[MIN_STACK_DEPTH - WORD_SIZE + i];
            top[from + i] = b;
            top[MIN_STACK_DEPTH - WORD_SIZE + i] = a;
            i = i + 1;
        }
        assert(top@ =~= old(self)@.state.stack.swap_words(n as int).top);
    }

    /// Moves the deepest of the top `n` elements of the stack to the top.
    pub fn rotate_left(&mut self, n: usize)
        requires
            1 <= n <= MIN_STACK_DEPTH,
        ensures
            final(self)@ == old(self)@.with_stack(old(self)@.state.stack.rotate_left(n as int)),
    {
        let rotation_bot_index: usize = MIN_STACK_DEPTH - n;
        let ghost before = self@.state.stack.top;
        let top = self.state.stack.stack_top_mut();
        assert(before.len() == 16);
        let new_stack_top_element = top[rotation_bot_index];
        for i in 0..n - 1
            invariant
                1 <= n <= 16,
                rotation_bot_index == 16 - n,
                before.len() == 16,
                forall|k: int|
                    rotation_bot_index <= k < rotation_bot_index + i ==> top@[k] == before[k + 1],
                forall|k: int|
                    0 <= k < 16 && !(rotation_bot_index <= k < rotation_bot_index + i) ==> top@[k]
                        == before[k],
        {
            top[rotation_bot_index + i] = top[rotation_bot_index + i + 1];
        }
        top[MIN_STACK_DEPTH - 1] = new_stack_top_element;
        assert(top@ =~= old(self)@.state.stack.rotate_left(n as int).top);
    }

    /// Moves the top element of the stack below the other elements among the top `n`.
    pub fn rotate_right(&mut self, n: usize)
        requires
            1 <= n <= MIN_STACK_DEPTH,
        ensures
            final(self)@ == old(self)@.with_stack(old(self)@.state.stack.rotate_right(n as int)),
    {
        let rotation_bot_index: usize = MIN_STACK_DEPTH - n;
        let ghost before = self@.state.stack.top;
        let top = self.state.stack.stack_top_mut();
        assert(before.len() == 16);
        let new_stack_bot_element = top[MIN_STACK_DEPTH - 1];
        for i in 1..n
            invariant
                1 <= n <= 16,
                before.len() == 16,
                forall|k: int| 16 - i < k < 16 ==> top@[k] == before[k - 1],
                forall|k: int| 0 <= k <= 16 - i && k < 16 ==> top@[k] == before[k],
        {
            top[MIN_STACK_DEPTH - i] = top[MIN_STACK_DEPTH - i - 1];
        }
        top[rotation_bot_index] = new_stack_bot_element;
        assert(top@ =~= old(self)@.state.stack.rotate_right(n as int).top);
    }

    /// Moves all elements of the stack down by one position; the deepest one moves to the overflow
    /// table. The top element is to be overwritten by the caller.
    pub fn increment_stack_size(&mut self)
        ensures
            final(self)@ == old(self)@.with_stack(old(self)@.state.stack.grow(sentinel())),
    {
        let last_element = self.stack_get(MIN_STACK_DEPTH - 1);
        self.state.stack.push_overflow(last_element);

        let ghost before = self@.state.stack.top;
        let top = self.state.stack.stack_top_mut();
        assert(before.len() == 16);
        for k in 0..MIN_STACK_DEPTH - 1
            invariant
                before.len() == 16,
                forall|j: int| 0 <= j < k ==> top@[j] == before[j + 1],
                forall|j: int| k <= j < 16 ==> top@[j] == before[j],
        {
            top[k] = top[k + 1];
        }
        top[MIN_STACK_DEPTH - 1] = Felt::new(MODULUS - 1);
        assert(top@ =~= old(self)@.state.stack.grow(sentinel()).top);
    }

    /// Removes the top element of the stack. The deepest position is filled from the overflow table
    /// or, if the latter is empty, with zero.
    pub fn decrement_stack_size(&mut self)
        ensures
            final(self)@ == old(self)@.with_stack(old(self)@.state.stack.shrink()),
    {
        let incoming = match self.state.stack.pop_overflow() {
            Some(element) => element,
            None => Felt::zero(),
        };
        let ghost before = self@.state.stack.top;
        let top = self.state.stack.stack_top_mut();
        assert(before.len() == 16);
        let mut k: usize = MIN_STACK_DEPTH - 1;
        while k > 0
            invariant
                k <= 15,
                before.len() == 16,
                forall|j: int| k < j < 16 ==> top@[j] == before[j - 1],
                forall|j: int| 0 <= j <= k ==> top@[j] == before[j],
            decreases k,
        {
            top[k] = top[k - 1];
            k = k - 1;
        }
        top[0] = incoming;
        assert(top@ =~= old(self)@.state.stack.shrink().top);
    }
}

// DECODER STATE
// ================================================================================================

/// The `i`-th bit of an opcode, the least significant one first.
pub open spec fn opcode_bit(opcode: u8, i: int) -> int {
    ((opcode >> (i as usize)) & 1) as int
}

/// Columns after an opcode has been written to a row: its bits, and two products of bits that keep
/// down the degree of constraints.
pub open spec fn with_opcode(columns: Seq<Seq<Felt>>, opcode: u8, row: int) -> Seq<Seq<Felt>> {
    let bits = DECODER_TRACE_OFFSET + OP_BITS_OFFSET;
    let products = DECODER_TRACE_OFFSET + OP_BITS_EXTRA_COLS_OFFSET;
    Seq::new(
        columns.len(),
        |c: int|
            if bits <= c < bits + NUM_OP_BITS {
                columns[c].update(row, felt(opcode_bit(opcode, c - bits)))
            } else if c == products {
                columns[c].update(
                    row,
                    felt(
                        opcode_bit(opcode, 6) * (1 - opcode_bit(opcode, 5)) * opcode_bit(opcode, 4),
                    ),
                )
            } else if c == products + 1 {
                columns[c].update(row, felt(opcode_bit(opcode, 6) * opcode_bit(opcode, 5)))
            } else {
                columns[c]
            },
    )
}

/// Whether a row holds an opcode, bit by bit.
pub open spec fn holds_opcode(columns: Seq<Seq<Felt>>, opcode: u8, row: int) -> bool {
    forall|i: int|
        0 <= i < NUM_OP_BITS ==> (#[trigger] columns[DECODER_TRACE_OFFSET + OP_BITS_OFFSET
            + i])[row] == felt(opcode_bit(opcode, i))
}

impl CoreTraceFragmentGenerator {
    /// Writes an opcode to a row of the fragment.
    pub fn append_opcode(&mut self, opcode: u8, row_idx: usize)
        requires
            old(self).fragment.wf(),
            row_idx < old(self).fragment.rows(),
        ensures
            final(self)@ == (GeneratorView {
                columns: with_opcode(old(self)@.columns, opcode, row_idx as int),
                ..old(self)@
            }),
            final(self).fragment.wf(),
    {
        let ghost before = self.fragment@;
        let ghost first = DECODER_TRACE_OFFSET + OP_BITS_OFFSET;
        let mut bits: [Felt; 7] = [Felt::zero();7];
        for i in 0..NUM_OP_BITS
            invariant
                first == 9,
                row_idx < before[0].len(),
                before.len() == CORE_TRACE_WIDTH,
                forall|c: int| 0 <= c < 51 ==> (#[trigger] before[c]).len() == before[0].len(),
                forall|k: int| 0 <= k < i ==> #[trigger] bits@[k] == felt(opcode_bit(opcode, k)),
                self@ == (GeneratorView { columns: self.fragment@, ..old(self)@ }),
                self.fragment@.len() == before.len(),
                forall|c: int|
                    0 <= c < 51 && !(first <= c < first + i) ==> #[trigger] self.fragment@[c]
                        == before[c],
                forall|c: int|
                    first <= c < first + i ==> #[trigger] self.fragment@[c] == before[c].update(
                        row_idx as int,
                        felt(opcode_bit(opcode, c - first)),
                    ),
        {
            let bit: u8 = (opcode >> i) & 1;
            bits[i] = Felt::new(bit as u64);
            self.fragment.set(DECODER_TRACE_OFFSET + OP_BITS_OFFSET + i, row_idx, bits[i]);
        }

        let product = bits[6].mul(Felt::one().sub(bits[5])).mul(bits[4]);
        self.fragment.set(DECODER_TRACE_OFFSET + OP_BITS_EXTRA_COLS_OFFSET, row_idx, product);
        let product_of_two = bits[6].mul(bits[5]);
        self.fragment.set(
            DECODER_TRACE_OFFSET + OP_BITS_EXTRA_COLS_OFFSET + 1,
            row_idx,
            product_of_two,
        );
        proof {
            lemma_bit_products(opcode);
        }
        assert(self.fragment@ =~= with_opcode(before, opcode, row_idx as int));
    }

    /// Starts decoding a group of operations, once all operations of the current group have been
    /// executed.
    pub fn start_op_group(&mut self, op_group: Felt)
        requires
            old(self).span_context is Some,
            old(self).span_context->0.group_ops_left == felt(0),
        ensures
            final(self)@ == old(self)@.group_started(op_group),
    {
        if let Some(ctx) = self.span_context {
            self.span_context = Some(
                SpanContext {
                    group_ops_left: op_group,
                    num_groups_left: ctx.num_groups_left.sub(Felt::one()),
                },
            );
        }
        proof {
            lemma_felt_view(1);
        }
    }
}

impl GeneratorView {
    /// The generator after decoding of a group has started: one group less is left.
    pub open spec fn group_started(self, op_group: Felt) -> GeneratorView {
        GeneratorView {
            span_context: Some(
                SpanContext {
                    group_ops_left: op_group,
                    num_groups_left: felt(self.span_context->0.num_groups_left@ - 1),
                },
            ),
            ..self
        }
    }
}

proof fn lemma_opcode_bit(opcode: u8, i: int)
    requires
        0 <= i < 8,
    ensures
        opcode_bit(opcode, i) == 0 || opcode_bit(opcode, i) == 1,
{
    let shifted = opcode >> (i as usize);
    assert(shifted & 1 == 0 || shifted & 1 == 1) by (bit_vector);
}

proof fn lemma_bit_products(opcode: u8)
    ensures
        ({
            let b4 = opcode_bit(opcode, 4);
            let b5 = opcode_bit(opcode, 5);
            let b6 = opcode_bit(opcode, 6);
            &&& felt(felt(felt(b6)@ * felt(felt(1)@ - felt(b5)@)@)@ * felt(b4)@) == felt(
                b6 * (1 - b5) * b4,
            )
            &&& felt(felt(b6)@ * felt(b5)@) == felt(b6 * b5)
        }),
{
    lemma_opcode_bit(opcode, 4);
    lemma_opcode_bit(opcode, 5);
    lemma_opcode_bit(opcode, 6);
    lemma_felt_view(0);
    lemma_felt_view(1);
}

// LAWS
// ================================================================================================

/// The bits of an opcode determine it.
pub proof fn law_opcode_is_sum_of_bits(opcode: u8)
    requires
        opcode < 128,
    ensures
        opcode == opcode_bit(opcode, 0) + 2 * opcode_bit(opcode, 1) + 4 * opcode_bit(opcode, 2) + 8
            * opcode_bit(opcode, 3) + 16 * opcode_bit(opcode, 4) + 32 * opcode_bit(opcode, 5) + 64
            * opcode_bit(opcode, 6),
{
    assert(opcode < 128 ==> opcode == ((opcode >> 0usize) & 1) + 2 * ((opcode >> 1usize) & 1) + 4 * (
    (opcode >> 2usize) & 1) + 8 * ((opcode >> 3usize) & 1) + 16 * ((opcode >> 4usize) & 1) + 32 * ((
    opcode >> 5usize) & 1) + 64 * ((opcode >> 6usize) & 1)) by (bit_vector);
}

/// Moving the deepest of the top `n` elements up and moving the top element back down undo each
/// other, in either order.
pub proof fn law_rotations_undo_each_other(stack: StackView, n: int)
    requires
        stack.top.len() == 16,
        1 <= n <= 16,
    ensures
        stack.rotate_left(n).rotate_right(n) == stack,
        stack.rotate_right(n).rotate_left(n) == stack,
{
    assert(stack.rotate_left(n).rotate_right(n).top =~= stack.top);
    assert(stack.rotate_right(n).rotate_left(n).top =~= stack.top);
}

/// Swapping twice changes nothing, for elements as for words.
pub proof fn law_swaps_undo_themselves(stack: StackView, n: int, idx1: int, idx2: int)
    requires
        stack.top.len() == 16,
        1 <= n <= 3,
        0 <= idx1 < 16,
        0 <= idx2 < 16,
    ensures
        stack.swap_words(n).swap_words(n) == stack,
        stack.swap(idx1, idx2).swap(idx1, idx2) == stack,
{
    assert(stack.swap_words(n).swap_words(n).top =~= stack.top);
    assert(stack.swap(idx1, idx2).swap(idx1, idx2).top =~= stack.top);
}

/// What is pushed onto the stack is on top of it, everything else moves down by one position, and
/// removing the top element brings the stack back, whatever was pushed.
pub proof fn law_shrinking_undoes_growing(stack: StackView, top: Felt)
    requires
        stack.top.len() == 16,
    ensures
        stack.grow(top).at(0) == top,
        forall|idx: int| 0 <= idx < 15 ==> stack.grow(top).at(idx + 1) == #[trigger] stack.at(idx),
        stack.grow(top).depth() == stack.depth() + 1,
        stack.grow(top).shrink() == stack,
        forall|element: Felt| #[trigger]
            stack.grow(top).write(0, element) == stack.grow(element),
{
    assert(stack.grow(top).shrink().top =~= stack.top);
    assert(stack.grow(top).shrink().overflow.current =~= stack.overflow.current);
    assert forall|element: Felt| #[trigger]
        stack.grow(top).write(0, element) == stack.grow(element) by {
        assert(stack.grow(top).write(0, element).top =~= stack.grow(element).top);
    }
}

/// A word that is written to the stack is read back, and all other positions keep their elements.
pub proof fn law_written_word_is_read_back(stack: StackView, start_idx: int, word: Seq<Felt>)
    requires
        stack.top.len() == 16,
        0 <= start_idx < 12,
        word.len() == 4,
    ensures
        stack.write_word(start_idx, word).word_at(start_idx) == word,
        forall|idx: int|
            0 <= idx < 16 && !(start_idx <= idx < start_idx + 4) ==> #[trigger] stack.write_word(
                start_idx,
                word,
            ).at(idx) == stack.at(idx),
{
    assert(stack.write_word(start_idx, word).word_at(start_idx) =~= word);
}

/// The depth of the stack never goes below its minimum, and shrinking takes one element off any
/// deeper stack.
pub proof fn law_depth_has_a_minimum(stack: StackView)
    ensures
        stack.shrink().depth() >= MIN_STACK_DEPTH,
        stack.depth() > MIN_STACK_DEPTH ==> stack.shrink().depth() == stack.depth() - 1,
        stack.depth() == MIN_STACK_DEPTH ==> stack.shrink().depth() == stack.depth(),
{
}

} // verus!
