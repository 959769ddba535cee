//! Laws of the stack and its overflow table, stated of the stored elements: position `i` from the top
//! of the stack is index `15 - i`.
use vstd::prelude::*;

use crate::checkpoints::{StackState, StackView};
use crate::felt::{Felt, felt, lemma_felt_view};
use crate::generator::sentinel;
use crate::overflow::{OverflowEntry, OverflowView};

verus! {

/// Positions count from the top of the stack, which is stored last, and a word holds its deepest
/// element first.
pub proof fn law_positions_count_from_the_top(stack: StackView, idx: int, i: int)
    requires
        stack.top.len() == 16,
        0 <= idx < 16,
        0 <= i < 4,
    ensures
        stack.at(idx) == stack.top[15 - idx],
        idx <= 12 ==> stack.word_at(idx).len() == 4,
        idx <= 12 ==> stack.word_at(idx)[i] == stack.top[12 - idx + i],
{
}

/// Writing an element changes the element at its position and nothing else.
pub proof fn law_writing_changes_one_element(stack: StackView, idx: int, element: Felt)
    requires
        stack.top.len() == 16,
        0 <= idx < 16,
    ensures
        ({
            let after = stack.write(idx, element);
            &&& after.top.len() == 16
            &&& after.top[15 - idx] == element
            &&& forall|k: int|
                0 <= k < 16 && k != 15 - idx ==> after.top[k] == #[trigger] stack.top[k]
            &&& after.overflow == stack.overflow
        }),
{
}

/// Writing a word changes the four elements at its position and nothing else.
pub proof fn law_writing_a_word_changes_four_elements(
    stack: StackView,
    start_idx: int,
    word: Seq<Felt>,
)
    requires
        stack.top.len() == 16,
        0 <= start_idx <= 12,
        word.len() == 4,
    ensures
        ({
            let after = stack.write_word(start_idx, word);
            &&& after.top.len() == 16
            &&& after.top[12 - start_idx] == word[0]
            &&& after.top[13 - start_idx] == word[1]
            &&& after.top[14 - start_idx] == word[2]
            &&& after.top[15 - start_idx] == word[3]
            &&& forall|k: int|
                0 <= k < 16 && !(12 - start_idx <= k < 16 - start_idx) ==> after.top[k]
                    == #[trigger] stack.top[k]
            &&& after.overflow == stack.overflow
        }),
{
}

/// Swapping exchanges two elements and changes nothing else.
pub proof fn law_swapping_exchanges_two_elements(stack: StackView, a: int, b: int)
    requires
        stack.top.len() == 16,
        0 <= a < 16,
        0 <= b < 16,
    ensures
        ({
            let after = stack.swap(a, b);
            &&& after.top.len() == 16
            &&& after.top[15 - a] == stack.top[15 - b]
            &&& after.top[15 - b] == stack.top[15 - a]
            &&& forall|k: int|
                0 <= k < 16 && k != 15 - a && k != 15 - b ==> after.top[k] == #[trigger] stack.top[k]
            &&& after.overflow == stack.overflow
        }),
{
}

/// Swapping words exchanges the top word with the `n`-th word below it and changes nothing else.
pub proof fn law_swapping_words_exchanges_two_words(stack: StackView, n: int)
    requires
        stack.top.len() == 16,
        1 <= n <= 3,
    ensures
        ({
            let after = stack.swap_words(n);
            &&& after.top.len() == 16
            &&& forall|i: int| 0 <= i < 4 ==> #[trigger] after.top[12 + i] == stack.top[12 - 4 * n + i]
            &&& forall|i: int| 0 <= i < 4 ==> after.top[12 - 4 * n + i] == #[trigger] stack.top[12 + i]
            &&& forall|k: int|
                0 <= k < 12 && !(12 - 4 * n <= k < 16 - 4 * n) ==> after.top[k]
                    == #[trigger] stack.top[k]
            &&& after.overflow == stack.overflow
        }),
{
}

/// Rotating to the left moves the deepest of the top `n` elements to the top, and the others among
/// them down by one; rotating to the right moves the top element below the others, which move up by
/// one. Nothing else changes.
pub proof fn law_rotating_moves_one_element_past_the_others(stack: StackView, n: int)
    requires
        stack.top.len() == 16,
        1 <= n <= 16,
    ensures
        ({
            let left = stack.rotate_left(n);
            let right = stack.rotate_right(n);
            &&& left.top.len() == 16 && right.top.len() == 16
            &&& left.top[15] == stack.top[16 - n]
            &&& forall|k: int| 16 - n <= k < 15 ==> #[trigger] left.top[k] == stack.top[k + 1]
            &&& forall|k: int| 0 <= k < 16 - n ==> #[trigger] left.top[k] == stack.top[k]
            &&& right.top[16 - n] == stack.top[15]
            &&& forall|k: int| 16 - n < k < 16 ==> #[trigger] right.top[k] == stack.top[k - 1]
            &&& forall|k: int| 0 <= k < 16 - n ==> #[trigger] right.top[k] == stack.top[k]
            &&& left.overflow == stack.overflow && right.overflow == stack.overflow
        }),
{
}

/// Growing moves the deepest element to the overflow table, with the current clock cycle, and all
/// others down by one.
pub proof fn law_growing_overflows_the_deepest_element(stack: StackView, element: Felt)
    requires
        stack.top.len() == 16,
    ensures
        ({
            let after = stack.grow(element);
            &&& after.top.len() == 16
            &&& after.top[15] == element
            &&& forall|k: int| 0 <= k < 15 ==> #[trigger] after.top[k] == stack.top[k + 1]
            &&& after.overflow.current == stack.overflow.current.push(
                OverflowEntry { value: stack.top[0], clk: stack.overflow.clk },
            )
            &&& after.overflow.suspended == stack.overflow.suspended
            &&& after.overflow.clk == stack.overflow.clk
        }),
{
}

/// Until it is overwritten, the top of a stack that has grown holds the greatest element of the
/// field.
pub proof fn law_grown_stacks_await_their_top()
    ensures
        sentinel()@ == 0xffff_ffff_0000_0000,
{
    lemma_felt_view(0xffff_ffff_0000_0000);
}

/// Shrinking removes the top element and moves all others up by one. The deepest position takes the
/// element that was moved to the overflow table last, or zero if there is none.
pub proof fn law_shrinking_takes_the_latest_overflow(stack: StackView)
    requires
        stack.top.len() == 16,
    ensures
        ({
            let after = stack.shrink();
            let table = stack.overflow.current;
            &&& after.top.len() == 16
            &&& forall|k: int| 0 <= k < 15 ==> after.top[k + 1] == #[trigger] stack.top[k]
            &&& table.len() == 0 ==> after.top[0] == felt(0) && after.overflow == stack.overflow
            &&& table.len() > 0 ==> {
                &&& after.top[0] == table[table.len() - 1].value
                &&& after.overflow.current.push(table[table.len() - 1]) == table
                &&& after.overflow.suspended == stack.overflow.suspended
                &&& after.overflow.clk == stack.overflow.clk
            }
        }),
{
    let table = stack.overflow.current;
    if table.len() > 0 {
        assert(table.drop_last().push(table[table.len() - 1]) =~= table);
    }
}

/// Starting a context hides the overflow of the calling context, which is kept: the depth is 16, and
/// the elements on top stay.
pub proof fn law_contexts_start_without_overflow(stack: StackView)
    ensures
        ({
            let after = stack.start_context();
            &&& after.depth() == 16
            &&& after.top == stack.top
            &&& after.overflow.current.len() == 0
            &&& after.overflow.suspended == stack.overflow.suspended.push(stack.overflow.current)
            &&& after.overflow.clk == stack.overflow.clk
        }),
{
}

/// A dynamic call removes the top element, which names its target, from the stack of the calling
/// context, and then starts a context.
pub proof fn law_dynamic_calls_remove_their_target(stack: StackView)
    requires
        stack.top.len() == 16,
    ensures
        ({
            let after = stack.shift_left_and_start_context();
            let table = stack.overflow.current;
            &&& after.depth() == 16
            &&& after.top.len() == 16
            &&& forall|k: int| 0 <= k < 15 ==> after.top[k + 1] == #[trigger] stack.top[k]
            &&& table.len() == 0 ==> {
                &&& after.top[0] == felt(0)
                &&& after.overflow.suspended == stack.overflow.suspended.push(table)
            }
            &&& table.len() > 0 ==> {
                &&& after.top[0] == table[table.len() - 1].value
                &&& after.overflow.suspended == stack.overflow.suspended.push(
                    table.take(table.len() - 1),
                )
            }
            &&& after.overflow.current.len() == 0
            &&& after.overflow.clk == stack.overflow.clk
        }),
{
    let table = stack.overflow.current;
    if table.len() > 0 {
        assert(table.drop_last() =~= table.take(table.len() - 1));
    }
}

/// The depth of the stack is 16 plus the number of overflowed elements of the current context.
pub proof fn law_depth_counts_overflow(stack: StackView)
    ensures
        stack.depth() == 16 + stack.overflow.current.len(),
{
}

/// The helper columns of the stack describe its overflow: the first one holds the depth, which is 16
/// plus the number of overflowed elements, the second one the clock cycle of the latest of these, or
/// zero, and the third one is made from their number.
pub proof fn law_helper_columns_describe_the_overflow(
    stack: StackState,
    depth: Felt,
    addr: Felt,
    helper: Felt,
)
    requires
        call_ensures(StackState::stack_depth, (&stack,), depth),
        call_ensures(StackState::overflow_addr, (&stack,), addr),
        call_ensures(StackState::overflow_helper, (&stack,), helper),
    ensures
        ({
            let table = stack@.overflow.current;
            &&& depth == felt((16 + table.len()) as int)
            &&& table.len() == 0 ==> addr == felt(0)
            &&& table.len() > 0 ==> addr == felt(table[table.len() - 1].clk as int)
            &&& helper == felt(table.len() as int)
        }),
{
}

/// The overflow table gives back what was added last, addresses it by the clock cycle at which it
/// was added, and does not touch suspended contexts.
pub proof fn law_overflow_is_last_in_first_out(table: OverflowView, value: Felt)
    ensures
        table.push(value).top() == Some(value),
        table.push(value).top_address() == felt(table.clk as int),
        table.push(value).pop() == table,
        table.push(value).current.len() == table.current.len() + 1,
        table.push(value).suspended == table.suspended,
        table.push(value).clk == table.clk,
        table.current.len() == 0 ==> {
            &&& table.top() is None
            &&& table.top_address() == felt(0)
            &&& table.pop() == table
        },
        table.current.len() > 0 ==> {
            let last = table.current[table.current.len() - 1];
            &&& table.top() == Some(last.value)
            &&& table.top_address() == felt(last.clk as int)
            &&& table.pop().current.push(last) == table.current
            &&& table.pop().suspended == table.suspended
            &&& table.pop().clk == table.clk
        },
{
    assert(table.push(value).pop() =~= table);
    if table.current.len() > 0 {
        let last = table.current[table.current.len() - 1];
        assert(table.pop().current.push(last) =~= table.current);
    }
}

} // verus!
