//! Laws of what operations do, operation by operation.
use vstd::prelude::*;

use crate::dispatch::{OpCall, handling, pending_call, yields_helpers};
use crate::felt::{Felt, felt};
use crate::generator::GeneratorView;
use crate::operation::Operation;

verus! {

/// Each operation that the instruction set performs is handed out as the call of its own name, with
/// its own argument; all others are not handed out.
pub proof fn law_operations_are_performed_by_their_own_calls(value: Felt, event_id: u32)
    ensures
        pending_call(Operation::FmpAdd) == Some(OpCall::FmpAdd),
        pending_call(Operation::FmpUpdate) == Some(OpCall::FmpUpdate),
        pending_call(Operation::SDepth) == Some(OpCall::SDepth),
        pending_call(Operation::Caller) == Some(OpCall::Caller),
        pending_call(Operation::Clk) == Some(OpCall::Clk),
        pending_call(Operation::Add) == Some(OpCall::Add),
        pending_call(Operation::Neg) == Some(OpCall::Neg),
        pending_call(Operation::Mul) == Some(OpCall::Mul),
        pending_call(Operation::Inv) == Some(OpCall::Inv),
        pending_call(Operation::Incr) == Some(OpCall::Incr),
        pending_call(Operation::And) == Some(OpCall::And),
        pending_call(Operation::Or) == Some(OpCall::Or),
        pending_call(Operation::Not) == Some(OpCall::Not),
        pending_call(Operation::Eq) == Some(OpCall::Eq),
        pending_call(Operation::Eqz) == Some(OpCall::Eqz),
        pending_call(Operation::Expacc) == Some(OpCall::Expacc),
        pending_call(Operation::Ext2Mul) == Some(OpCall::Ext2Mul),
        pending_call(Operation::Pad) == Some(OpCall::Pad),
        pending_call(Operation::Swap) == Some(OpCall::Swap),
        pending_call(Operation::CSwap) == Some(OpCall::CSwap),
        pending_call(Operation::CSwapW) == Some(OpCall::CSwapW),
        pending_call(Operation::AdvPop) == Some(OpCall::AdvPop),
        pending_call(Operation::AdvPopW) == Some(OpCall::AdvPopW),
        pending_call(Operation::MLoadW) == Some(OpCall::MLoadW),
        pending_call(Operation::MStoreW) == Some(OpCall::MStoreW),
        pending_call(Operation::MLoad) == Some(OpCall::MLoad),
        pending_call(Operation::MStore) == Some(OpCall::MStore),
        pending_call(Operation::MStream) == Some(OpCall::MStream),
        pending_call(Operation::Pipe) == Some(OpCall::Pipe),
        pending_call(Operation::HPerm) == Some(OpCall::HPerm),
        pending_call(Operation::MrUpdate) == Some(OpCall::MrUpdate),
        pending_call(Operation::U32split) == Some(OpCall::U32Split),
        pending_call(Operation::U32add) == Some(OpCall::U32Add),
        pending_call(Operation::U32add3) == Some(OpCall::U32Add3),
        pending_call(Operation::U32sub) == Some((OpCall::U32Sub { op_idx: 0 })),
        pending_call(Operation::U32mul) == Some(OpCall::U32Mul),
        pending_call(Operation::U32madd) == Some(OpCall::U32Madd),
        pending_call(Operation::U32div) == Some(OpCall::U32Div),
        pending_call(Operation::U32and) == Some(OpCall::U32And),
        pending_call(Operation::U32xor) == Some(OpCall::U32Xor),
        pending_call(Operation::U32assert2(value)) == Some((OpCall::U32Assert2 { err_code: value })),
        pending_call(Operation::SwapDW) == Some(OpCall::SwapDoubleWord),
        pending_call(Operation::Assert(value)) == Some(OpCall::Assert),
        pending_call(Operation::Push(value)) == Some((OpCall::Push { value })),
        pending_call(Operation::MpVerify(value)) == Some(OpCall::MpVerify),
        pending_call(Operation::FriE2F4) == Some(OpCall::FriExt2Fold4),
        pending_call(Operation::HornerBase) == Some(OpCall::HornerEvalBase),
        pending_call(Operation::HornerExt) == Some(OpCall::HornerEvalExt),
        pending_call(Operation::Dup0) == Some((OpCall::DupNth { n: 0 })),
        pending_call(Operation::Dup1) == Some((OpCall::DupNth { n: 1 })),
        pending_call(Operation::Dup2) == Some((OpCall::DupNth { n: 2 })),
        pending_call(Operation::Dup3) == Some((OpCall::DupNth { n: 3 })),
        pending_call(Operation::Dup4) == Some((OpCall::DupNth { n: 4 })),
        pending_call(Operation::Dup5) == Some((OpCall::DupNth { n: 5 })),
        pending_call(Operation::Dup6) == Some((OpCall::DupNth { n: 6 })),
        pending_call(Operation::Dup7) == Some((OpCall::DupNth { n: 7 })),
        pending_call(Operation::Dup9) == Some((OpCall::DupNth { n: 9 })),
        pending_call(Operation::Dup11) == Some((OpCall::DupNth { n: 11 })),
        pending_call(Operation::Dup13) == Some((OpCall::DupNth { n: 13 })),
        pending_call(Operation::Dup15) == Some((OpCall::DupNth { n: 15 })),
        pending_call(Operation::Noop) is None,
        pending_call(Operation::Emit(event_id)) is None,
        pending_call(Operation::EvalCircuit) is None,
        pending_call(Operation::Drop) is None,
        pending_call(Operation::SwapW) is None,
        pending_call(Operation::SwapW2) is None,
        pending_call(Operation::SwapW3) is None,
        pending_call(Operation::MovUp2) is None,
        pending_call(Operation::MovUp3) is None,
        pending_call(Operation::MovUp4) is None,
        pending_call(Operation::MovUp5) is None,
        pending_call(Operation::MovUp6) is None,
        pending_call(Operation::MovUp7) is None,
        pending_call(Operation::MovUp8) is None,
        pending_call(Operation::MovDn2) is None,
        pending_call(Operation::MovDn3) is None,
        pending_call(Operation::MovDn4) is None,
        pending_call(Operation::MovDn5) is None,
        pending_call(Operation::MovDn6) is None,
        pending_call(Operation::MovDn7) is None,
        pending_call(Operation::MovDn8) is None,
{
}

/// The operation that a call performs, without its error code.
spec fn operation_of(call: OpCall) -> Operation {
    match call {
        OpCall::FmpAdd => Operation::FmpAdd,
        OpCall::FmpUpdate => Operation::FmpUpdate,
        OpCall::SDepth => Operation::SDepth,
        OpCall::Caller => Operation::Caller,
        OpCall::Clk => Operation::Clk,
        OpCall::Add => Operation::Add,
        OpCall::Neg => Operation::Neg,
        OpCall::Mul => Operation::Mul,
        OpCall::Inv => Operation::Inv,
        OpCall::Incr => Operation::Incr,
        OpCall::And => Operation::And,
        OpCall::Or => Operation::Or,
        OpCall::Not => Operation::Not,
        OpCall::Eq => Operation::Eq,
        OpCall::Eqz => Operation::Eqz,
        OpCall::Expacc => Operation::Expacc,
        OpCall::Ext2Mul => Operation::Ext2Mul,
        OpCall::Pad => Operation::Pad,
        OpCall::Swap => Operation::Swap,
        OpCall::CSwap => Operation::CSwap,
        OpCall::CSwapW => Operation::CSwapW,
        OpCall::AdvPop => Operation::AdvPop,
        OpCall::AdvPopW => Operation::AdvPopW,
        OpCall::MLoadW => Operation::MLoadW,
        OpCall::MStoreW => Operation::MStoreW,
        OpCall::MLoad => Operation::MLoad,
        OpCall::MStore => Operation::MStore,
        OpCall::MStream => Operation::MStream,
        OpCall::Pipe => Operation::Pipe,
        OpCall::HPerm => Operation::HPerm,
        OpCall::MrUpdate => Operation::MrUpdate,
        OpCall::U32Split => Operation::U32split,
        OpCall::U32Add => Operation::U32add,
        OpCall::U32Add3 => Operation::U32add3,
        OpCall::U32Mul => Operation::U32mul,
        OpCall::U32Madd => Operation::U32madd,
        OpCall::U32Div => Operation::U32div,
        OpCall::U32And => Operation::U32and,
        OpCall::U32Xor => Operation::U32xor,
        OpCall::SwapDoubleWord => Operation::SwapDW,
        OpCall::FriExt2Fold4 => Operation::FriE2F4,
        OpCall::HornerEvalBase => Operation::HornerBase,
        OpCall::HornerEvalExt => Operation::HornerExt,
        OpCall::U32Sub { .. } => Operation::U32sub,
        OpCall::U32Assert2 { err_code } => Operation::U32assert2(err_code),
        OpCall::Assert => Operation::Assert(felt(0)),
        OpCall::Push { value } => Operation::Push(value),
        OpCall::MpVerify => Operation::MpVerify(felt(0)),
        OpCall::DupNth { n } => {
            if n == 0 {
                Operation::Dup0
            } else if n == 1 {
                Operation::Dup1
            } else if n == 2 {
                Operation::Dup2
            } else if n == 3 {
                Operation::Dup3
            } else if n == 4 {
                Operation::Dup4
            } else if n == 5 {
                Operation::Dup5
            } else if n == 6 {
                Operation::Dup6
            } else if n == 7 {
                Operation::Dup7
            } else if n == 9 {
                Operation::Dup9
            } else if n == 11 {
                Operation::Dup11
            } else if n == 13 {
                Operation::Dup13
            } else {
                Operation::Dup15
            }
        },
    }
}

proof fn lemma_calls_name_operations(op: Operation)
    requires
        pending_call(op) is Some,
        !(op is Assert),
        !(op is MpVerify),
    ensures
        operation_of(pending_call(op)->0) == op,
{
}

/// No two operations are handed out as the same call, but for the error codes of ASSERT and
/// MPVERIFY, which do not change what is performed.
pub proof fn law_calls_tell_operations_apart(a: Operation, b: Operation)
    requires
        pending_call(a) is Some,
        pending_call(a) == pending_call(b),
    ensures
        a == b || (a is Assert && b is Assert) || (a is MpVerify && b is MpVerify),
{
    if !(a is Assert) && !(a is MpVerify) && !(b is Assert) && !(b is MpVerify) {
        lemma_calls_name_operations(a);
        lemma_calls_name_operations(b);
    }
}

/// Exactly the operations that mark code blocks are never performed.
pub proof fn law_code_block_marks_are_not_performed(op: Operation)
    ensures
        handling(op) is FlowControl <==> (op is Join || op is Split || op is Loop || op is Call
            || op is SysCall || op is Dyn || op is Dyncall || op is Span || op is Repeat
            || op is Respan || op is End || op is Halt),
        handling(op) is FlowControl ==> pending_call(op) is None,
{
}

/// Exactly eight operations yield helper values.
pub proof fn law_operations_with_helpers(op: Operation)
    ensures
        yields_helpers(op) <==> (op is Eq || op is Eqz || op is HPerm || op is MpVerify
            || op is MrUpdate || op is FriE2F4 || op is HornerBase || op is HornerExt),
{
}

/// An operation that the instruction set performs, and one that does nothing, leave the generator as
/// it is until the call has been made.
pub proof fn law_dispatch_leaves_the_rest_to_calls(generator: GeneratorView, op: Operation)
    requires
        pending_call(op) is Some || op is Noop || op is Emit || op is EvalCircuit,
    ensures
        generator.after_dispatch(op) == generator,
{
}

/// MOVUP moves the element at its position to the top. The elements above it move down by one, all
/// others stay, and nothing but the top of the stack changes.
pub proof fn law_movup_moves_an_element_to_the_top(
    generator: GeneratorView,
    op: Operation,
    position: int,
)
    requires
        generator.state.stack.top.len() == 16,
        (op is MovUp2 && position == 2) || (op is MovUp3 && position == 3) || (op is MovUp4
            && position == 4) || (op is MovUp5 && position == 5) || (op is MovUp6 && position == 6)
            || (op is MovUp7 && position == 7) || (op is MovUp8 && position == 8),
    ensures
        ({
            let before = generator.state.stack.top;
            let after = generator.after_dispatch(op).state.stack.top;
            &&& after.len() == 16
            &&& after[15] == before[15 - position]
            &&& forall|i: int| 1 <= i <= position ==> after[15 - i] == #[trigger] before[16 - i]
            &&& forall|k: int| 0 <= k < 15 - position ==> after[k] == #[trigger] before[k]
        }),
        only_top_changed(generator, generator.after_dispatch(op)),
{
}

/// MOVDN moves the top element to its position. The elements above that position move up by one, all
/// others stay, and nothing but the top of the stack changes.
pub proof fn law_movdn_moves_the_top_element_down(
    generator: GeneratorView,
    op: Operation,
    position: int,
)
    requires
        generator.state.stack.top.len() == 16,
        (op is MovDn2 && position == 2) || (op is MovDn3 && position == 3) || (op is MovDn4
            && position == 4) || (op is MovDn5 && position == 5) || (op is MovDn6 && position == 6)
            || (op is MovDn7 && position == 7) || (op is MovDn8 && position == 8),
    ensures
        ({
            let before = generator.state.stack.top;
            let after = generator.after_dispatch(op).state.stack.top;
            &&& after.len() == 16
            &&& after[15 - position] == before[15]
            &&& forall|i: int| 1 <= i <= position ==> after[16 - i] == #[trigger] before[15 - i]
            &&& forall|k: int| 0 <= k < 15 - position ==> after[k] == #[trigger] before[k]
        }),
        only_top_changed(generator, generator.after_dispatch(op)),
{
}

/// SWAPW exchanges the top word with the word at its position. All other elements stay, and nothing
/// but the top of the stack changes.
pub proof fn law_swapw_exchanges_words(generator: GeneratorView, op: Operation, word: int)
    requires
        generator.state.stack.top.len() == 16,
        (op is SwapW && word == 1) || (op is SwapW2 && word == 2) || (op is SwapW3 && word == 3),
    ensures
        ({
            let before = generator.state.stack.top;
            let after = generator.after_dispatch(op).state.stack.top;
            &&& after.len() == 16
            &&& forall|i: int| 0 <= i < 4 ==> #[trigger] after[12 + i] == before[12 - 4 * word + i]
            &&& forall|i: int| 0 <= i < 4 ==> after[12 - 4 * word + i] == #[trigger] before[12 + i]
            &&& forall|k: int|
                0 <= k < 12 && !(12 - 4 * word <= k < 16 - 4 * word) ==> after[k]
                    == #[trigger] before[k]
        }),
        only_top_changed(generator, generator.after_dispatch(op)),
{
}

/// DROP removes the top element. All others move up by one, and the deepest position takes the
/// element that was moved to the overflow table last, or zero if there is none.
pub proof fn law_drop_removes_the_top_element(generator: GeneratorView)
    requires
        generator.state.stack.top.len() == 16,
    ensures
        ({
            let before = generator.state.stack;
            let after = generator.after_dispatch(Operation::Drop).state.stack;
            let table = before.overflow.current;
            &&& after.top.len() == 16
            &&& forall|k: int| 0 <= k < 15 ==> after.top[k + 1] == #[trigger] before.top[k]
            &&& table.len() == 0 ==> after.top[0] == felt(0) && after.overflow == before.overflow
            &&& table.len() > 0 ==> {
                &&& after.top[0] == table[table.len() - 1].value
                &&& after.overflow.current.push(table[table.len() - 1]) == table
                &&& after.overflow.suspended == before.overflow.suspended
                &&& after.overflow.clk == before.overflow.clk
            }
        }),
        only_stack_changed(generator, generator.after_dispatch(Operation::Drop)),
{
    let table = generator.state.stack.overflow.current;
    if table.len() > 0 {
        assert(table.drop_last().push(table[table.len() - 1]) =~= table);
    }
}

/// Whether two generators differ at most in their stacks.
pub open spec fn only_stack_changed(before: GeneratorView, after: GeneratorView) -> bool {
    &&& after.fragment_start_clk == before.fragment_start_clk
    &&& after.columns == before.columns
    &&& after.span_context == before.span_context
    &&& after.stack_rows == before.stack_rows
    &&& after.system_rows == before.system_rows
    &&& after.forest == before.forest
    &&& after.tasks == before.tasks
    &&& after.user_op_helpers == before.user_op_helpers
    &&& after.state.system == before.state.system
    &&& after.state.block_stack == before.state.block_stack
    &&& after.state.traversal == before.state.traversal
    &&& after.state.memory == before.state.memory
    &&& after.state.advice == before.state.advice
    &&& after.state.hasher == before.state.hasher
    &&& after.state.external_node_replay == before.state.external_node_replay
    &&& after.state.exec_phase == before.state.exec_phase
    &&& after.state.initial_mast_forest == before.state.initial_mast_forest
}

/// Whether two generators differ at most in the top of their stacks.
pub open spec fn only_top_changed(before: GeneratorView, after: GeneratorView) -> bool {
    &&& only_stack_changed(before, after)
    &&& after.state.stack.overflow == before.state.stack.overflow
}

} // verus!
