//! Dispatch of operations to what performs them.
use vstd::prelude::*;

use crate::felt::Felt;
use crate::generator::{CoreTraceFragmentGenerator, GeneratorView};
use crate::operation::Operation;
use crate::processor::{law_rotations_undo_each_other, law_swaps_undo_themselves};

verus! {

/// Performing an operation that works on more than the order of stack elements. An instruction set
/// built on the access to the generator's state provides these.
#[derive(Clone, Copy, Debug, PartialEq, Eq, Structural)]
pub enum OpCall {
    Assert,
    FmpAdd,
    FmpUpdate,
    SDepth,
    Caller,
    Clk,
    Add,
    Neg,
    Mul,
    Inv,
    Incr,
    And,
    Or,
    Not,
    Eq,
    Eqz,
    Expacc,
    Ext2Mul,
    U32Split,
    U32Add,
    U32Add3,
    U32Sub { op_idx: usize },
    U32Mul,
    U32Madd,
    U32Div,
    U32And,
    U32Xor,
    U32Assert2 { err_code: Felt },
    Pad,
    DupNth { n: usize },
    Swap,
    SwapDoubleWord,
    CSwap,
    CSwapW,
    Push { value: Felt },
    AdvPop,
    AdvPopW,
    MLoadW,
    MStoreW,
    MLoad,
    MStore,
    MStream,
    Pipe,
    HPerm,
    MpVerify,
    MrUpdate,
    FriExt2Fold4,
    HornerEvalBase,
    HornerEvalExt,
}

/// How an operation is performed.
pub enum Handling {
    /// The operation leaves the state as it is.
    Nothing,
    /// The top element leaves the stack.
    Shrink,
    /// A word trades places with the top word.
    SwapWords(int),
    /// The deepest of a number of elements moves to the top.
    RotateLeft(int),
    /// The top element moves below a number of others.
    RotateRight(int),
    /// The instruction set performs the operation.
    Call(OpCall),
    /// The operation marks a code block; it is never performed.
    FlowControl,
}

/// How an operation is performed.
pub open spec fn handling(op: Operation) -> Handling {
    match op {
        Operation::Noop => Handling::Nothing,
        Operation::Emit(_) => Handling::Nothing,
        Operation::EvalCircuit => Handling::Nothing,
        Operation::Drop => Handling::Shrink,
        Operation::SwapW => Handling::SwapWords(1),
        Operation::SwapW2 => Handling::SwapWords(2),
        Operation::SwapW3 => Handling::SwapWords(3),
        Operation::MovUp2 => Handling::RotateLeft(3),
        Operation::MovUp3 => Handling::RotateLeft(4),
        Operation::MovUp4 => Handling::RotateLeft(5),
        Operation::MovUp5 => Handling::RotateLeft(6),
        Operation::MovUp6 => Handling::RotateLeft(7),
        Operation::MovUp7 => Handling::RotateLeft(8),
        Operation::MovUp8 => Handling::RotateLeft(9),
        Operation::MovDn2 => Handling::RotateRight(3),
        Operation::MovDn3 => Handling::RotateRight(4),
        Operation::MovDn4 => Handling::RotateRight(5),
        Operation::MovDn5 => Handling::RotateRight(6),
        Operation::MovDn6 => Handling::RotateRight(7),
        Operation::MovDn7 => Handling::RotateRight(8),
        Operation::MovDn8 => Handling::RotateRight(9),
        Operation::Assert(_) => Handling::Call(OpCall::Assert),
        Operation::FmpAdd => Handling::Call(OpCall::FmpAdd),
        Operation::FmpUpdate => Handling::Call(OpCall::FmpUpdate),
        Operation::SDepth => Handling::Call(OpCall::SDepth),
        Operation::Caller => Handling::Call(OpCall::Caller),
        Operation::Clk => Handling::Call(OpCall::Clk),
        Operation::Add => Handling::Call(OpCall::Add),
        Operation::Neg => Handling::Call(OpCall::Neg),
        Operation::Mul => Handling::Call(OpCall::Mul),
        Operation::Inv => Handling::Call(OpCall::Inv),
        Operation::Incr => Handling::Call(OpCall::Incr),
        Operation::And => Handling::Call(OpCall::And),
        Operation::Or => Handling::Call(OpCall::Or),
        Operation::Not => Handling::Call(OpCall::Not),
        Operation::Eq => Handling::Call(OpCall::Eq),
        Operation::Eqz => Handling::Call(OpCall::Eqz),
        Operation::Expacc => Handling::Call(OpCall::Expacc),
        Operation::Ext2Mul => Handling::Call(OpCall::Ext2Mul),
        Operation::U32split => Handling::Call(OpCall::U32Split),
        Operation::U32add => Handling::Call(OpCall::U32Add),
        Operation::U32add3 => Handling::Call(OpCall::U32Add3),
        Operation::U32sub => Handling::Call(OpCall::U32Sub { op_idx: 0 }),
        Operation::U32mul => Handling::Call(OpCall::U32Mul),
        Operation::U32madd => Handling::Call(OpCall::U32Madd),
        Operation::U32div => Handling::Call(OpCall::U32Div),
        Operation::U32and => Handling::Call(OpCall::U32And),
        Operation::U32xor => Handling::Call(OpCall::U32Xor),
        Operation::U32assert2(err_code) => Handling::Call(OpCall::U32Assert2 { err_code }),
        Operation::Pad => Handling::Call(OpCall::Pad),
        Operation::Dup0 => Handling::Call(OpCall::DupNth { n: 0 }),
        Operation::Dup1 => Handling::Call(OpCall::DupNth { n: 1 }),
        Operation::Dup2 => Handling::Call(OpCall::DupNth { n: 2 }),
        Operation::Dup3 => Handling::Call(OpCall::DupNth { n: 3 }),
        Operation::Dup4 => Handling::Call(OpCall::DupNth { n: 4 }),
        Operation::Dup5 => Handling::Call(OpCall::DupNth { n: 5 }),
        Operation::Dup6 => Handling::Call(OpCall::DupNth { n: 6 }),
        Operation::Dup7 => Handling::Call(OpCall::DupNth { n: 7 }),
        Operation::Dup9 => Handling::Call(OpCall::DupNth { n: 9 }),
        Operation::Dup11 => Handling::Call(OpCall::DupNth { n: 11 }),
        Operation::Dup13 => Handling::Call(OpCall::DupNth { n: 13 }),
        Operation::Dup15 => Handling::Call(OpCall::DupNth { n: 15 }),
        Operation::Swap => Handling::Call(OpCall::Swap),
        Operation::SwapDW => Handling::Call(OpCall::SwapDoubleWord),
        Operation::CSwap => Handling::Call(OpCall::CSwap),
        Operation::CSwapW => Handling::Call(OpCall::CSwapW),
        Operation::Push(value) => Handling::Call(OpCall::Push { value }),
        Operation::AdvPop => Handling::Call(OpCall::AdvPop),
        Operation::AdvPopW => Handling::Call(OpCall::AdvPopW),
        Operation::MLoadW => Handling::Call(OpCall::MLoadW),
        Operation::MStoreW => Handling::Call(OpCall::MStoreW),
        Operation::MLoad => Handling::Call(OpCall::MLoad),
        Operation::MStore => Handling::Call(OpCall::MStore),
        Operation::MStream => Handling::Call(OpCall::MStream),
        Operation::Pipe => Handling::Call(OpCall::Pipe),
        Operation::HPerm => Handling::Call(OpCall::HPerm),
        Operation::MpVerify(_) => Handling::Call(OpCall::MpVerify),
        Operation::MrUpdate => Handling::Call(OpCall::MrUpdate),
        Operation::FriE2F4 => Handling::Call(OpCall::FriExt2Fold4),
        Operation::HornerBase => Handling::Call(OpCall::HornerEvalBase),
        Operation::HornerExt => Handling::Call(OpCall::HornerEvalExt),
        Operation::Join
        | Operation::Split
        | Operation::Loop
        | Operation::Call
        | Operation::SysCall
        | Operation::Dyn
        | Operation::Dyncall
        | Operation::Span
        | Operation::Repeat
        | Operation::Respan
        | Operation::End
        | Operation::Halt => Handling::FlowControl,
    }
}

/// Whether performing an operation yields helper values for its trace row.
pub open spec fn yields_helpers(op: Operation) -> bool {
    match op {
        Operation::Eq
        | Operation::Eqz
        | Operation::HPerm
        | Operation::MpVerify(_)
        | Operation::MrUpdate
        | Operation::FriE2F4
        | Operation::HornerBase
        | Operation::HornerExt => true,
        _ => false,
    }
}

/// Whether performing an operation yields helper values for its trace row.
pub fn has_helpers(op: &Operation) -> (r: bool)
    ensures
        r == yields_helpers(*op),
{
    match *op {
        Operation::Eq
        | Operation::Eqz
        | Operation::HPerm
        | Operation::MpVerify(_)
        | Operation::MrUpdate
        | Operation::FriE2F4
        | Operation::HornerBase
        | Operation::HornerExt => true,
        _ => false,
    }
}

/// Whether an operation marks a code block.
pub fn is_flow_control(op: &Operation) -> (r: bool)
    ensures
        r == (handling(*op) is FlowControl),
{
    match *op {
        Operation::Join
        | Operation::Split
        | Operation::Loop
        | Operation::Call
        | Operation::SysCall
        | Operation::Dyn
        | Operation::Dyncall
        | Operation::Span
        | Operation::Repeat
        | Operation::Respan
        | Operation::End
        | Operation::Halt => true,
        _ => false,
    }
}

impl GeneratorView {
    /// The generator after an operation has been performed, as far as the generator performs it.
    pub open spec fn after_dispatch(self, op: Operation) -> GeneratorView {
        let stack = self.state.stack;
        match handling(op) {
            Handling::Shrink => self.with_stack(stack.shrink()),
            Handling::SwapWords(n) => self.with_stack(stack.swap_words(n)),
            Handling::RotateLeft(n) => self.with_stack(stack.rotate_left(n)),
            Handling::RotateRight(n) => self.with_stack(stack.rotate_right(n)),
            _ => self,
        }
    }
}

/// The call that is left to perform an operation, if any.
pub open spec fn pending_call(op: Operation) -> Option<OpCall> {
    match handling(op) {
        Handling::Call(call) => Some(call),
        _ => None,
    }
}

impl CoreTraceFragmentGenerator {
    /// Performs an operation if it only changes the order of stack elements or leaves the state as
    /// it is. Otherwise returns the call that performs it.
    pub fn dispatch_operation(&mut self, op: &Operation) -> (r: Option<OpCall>)
        requires
            !(handling(*op) is FlowControl),
        ensures
            r == pending_call(*op),
            final(self)@ == old(self)@.after_dispatch(*op),
    {
        match *op {
            Operation::Noop => {},
            Operation::Emit(_) => {},
            Operation::EvalCircuit => {},
            Operation::Drop => self.decrement_stack_size(),
            Operation::SwapW => self.swapw_nth(1),
            Operation::SwapW2 => self.swapw_nth(2),
            Operation::SwapW3 => self.swapw_nth(3),
            Operation::MovUp2 => self.rotate_left(3),
            Operation::MovUp3 => self.rotate_left(4),
            Operation::MovUp4 => self.rotate_left(5),
            Operation::MovUp5 => self.rotate_left(6),
            Operation::MovUp6 => self.rotate_left(7),
            Operation::MovUp7 => self.rotate_left(8),
            Operation::MovUp8 => self.rotate_left(9),
            Operation::MovDn2 => self.rotate_right(3),
            Operation::MovDn3 => self.rotate_right(4),
            Operation::MovDn4 => self.rotate_right(5),
            Operation::MovDn5 => self.rotate_right(6),
            Operation::MovDn6 => self.rotate_right(7),
            Operation::MovDn7 => self.rotate_right(8),
            Operation::MovDn8 => self.rotate_right(9),
            Operation::Assert(_) => return Some(OpCall::Assert),
            Operation::FmpAdd => return Some(OpCall::FmpAdd),
            Operation::FmpUpdate => return Some(OpCall::FmpUpdate),
            Operation::SDepth => return Some(OpCall::SDepth),
            Operation::Caller => return Some(OpCall::Caller),
            Operation::Clk => return Some(OpCall::Clk),
            Operation::Add => return Some(OpCall::Add),
            Operation::Neg => return Some(OpCall::Neg),
            Operation::Mul => return Some(OpCall::Mul),
            Operation::Inv => return Some(OpCall::Inv),
            Operation::Incr => return Some(OpCall::Incr),
            Operation::And => return Some(OpCall::And),
            Operation::Or => return Some(OpCall::Or),
            Operation::Not => return Some(OpCall::Not),
            Operation::Eq => return Some(OpCall::Eq),
            Operation::Eqz => return Some(OpCall::Eqz),
            Operation::Expacc => return Some(OpCall::Expacc),
            Operation::Ext2Mul => return Some(OpCall::Ext2Mul),
            Operation::U32split => return Some(OpCall::U32Split),
            Operation::U32add => return Some(OpCall::U32Add),
            Operation::U32add3 => return Some(OpCall::U32Add3),
            Operation::U32sub => return Some(OpCall::U32Sub { op_idx: 0 }),
            Operation::U32mul => return Some(OpCall::U32Mul),
            Operation::U32madd => return Some(OpCall::U32Madd),
            Operation::U32div => return Some(OpCall::U32Div),
            Operation::U32and => return Some(OpCall::U32And),
            Operation::U32xor => return Some(OpCall::U32Xor),
            Operation::U32assert2(err_code) => return Some(OpCall::U32Assert2 { err_code }),
            Operation::Pad => return Some(OpCall::Pad),
            Operation::Dup0 => return Some(OpCall::DupNth { n: 0 }),
            Operation::Dup1 => return Some(OpCall::DupNth { n: 1 }),
            Operation::Dup2 => return Some(OpCall::DupNth { n: 2 }),
            Operation::Dup3 => return Some(OpCall::DupNth { n: 3 }),
            Operation::Dup4 => return Some(OpCall::DupNth { n: 4 }),
            Operation::Dup5 => return Some(OpCall::DupNth { n: 5 }),
            Operation::Dup6 => return Some(OpCall::DupNth { n: 6 }),
            Operation::Dup7 => return Some(OpCall::DupNth { n: 7 }),
            Operation::Dup9 => return Some(OpCall::DupNth { n: 9 }),
            Operation::Dup11 => return Some(OpCall::DupNth { n: 11 }),
            Operation::Dup13 => return Some(OpCall::DupNth { n: 13 }),
            Operation::Dup15 => return Some(OpCall::DupNth { n: 15 }),
            Operation::Swap => return Some(OpCall::Swap),
            Operation::SwapDW => return Some(OpCall::SwapDoubleWord),
            Operation::CSwap => return Some(OpCall::CSwap),
            Operation::CSwapW => return Some(OpCall::CSwapW),
            Operation::Push(value) => return Some(OpCall::Push { value }),
            Operation::AdvPop => return Some(OpCall::AdvPop),
            Operation::AdvPopW => return Some(OpCall::AdvPopW),
            Operation::MLoadW => return Some(OpCall::MLoadW),
            Operation::MStoreW => return Some(OpCall::MStoreW),
            Operation::MLoad => return Some(OpCall::MLoad),
            Operation::MStore => return Some(OpCall::MStore),
            Operation::MStream => return Some(OpCall::MStream),
            Operation::Pipe => return Some(OpCall::Pipe),
            Operation::HPerm => return Some(OpCall::HPerm),
            Operation::MpVerify(_) => return Some(OpCall::MpVerify),
            Operation::MrUpdate => return Some(OpCall::MrUpdate),
            Operation::FriE2F4 => return Some(OpCall::FriExt2Fold4),
            Operation::HornerBase => return Some(OpCall::HornerEvalBase),
            Operation::HornerExt => return Some(OpCall::HornerEvalExt),
            Operation::Join
            | Operation::Split
            | Operation::Loop
            | Operation::Call
            | Operation::SysCall
            | Operation::Dyn
            | Operation::Dyncall
            | Operation::Span
            | Operation::Repeat
            | Operation::Respan
            | Operation::End
            | Operation::Halt => {},
        }
        None
    }
}

// LAWS
// ================================================================================================

/// An operation that yields helper values is performed by the instruction set.
pub proof fn law_helpers_come_from_calls(op: Operation)
    requires
        yields_helpers(op),
    ensures
        pending_call(op) is Some,
{
}

/// Moving an element up and moving it back down are inverse operations, and so are the word swaps
/// to themselves: performing one after the other leaves the generator as it was.
pub proof fn law_stack_moves_are_inverse(generator: GeneratorView, up: Operation, down: Operation)
    requires
        generator.state.stack.top.len() == 16,
        match (handling(up), handling(down)) {
            (Handling::RotateLeft(m), Handling::RotateRight(n)) => m == n,
            (Handling::RotateRight(m), Handling::RotateLeft(n)) => m == n,
            (Handling::SwapWords(m), Handling::SwapWords(n)) => m == n,
            _ => false,
        },
    ensures
        generator.after_dispatch(up).after_dispatch(down) == generator,
{
    match handling(up) {
        Handling::RotateLeft(n) => law_rotations_undo_each_other(generator.state.stack, n),
        Handling::RotateRight(n) => law_rotations_undo_each_other(generator.state.stack, n),
        Handling::SwapWords(n) => law_swaps_undo_themselves(generator.state.stack, n, 0, 0),
        _ => {},
    }
}

} // verus!
