//! Native operations of the virtual machine.
use vstd::prelude::*;

use crate::felt::{Felt, felt};

verus! {

/// Number of bits in an opcode.
pub const NUM_OP_BITS: usize = 7;

/// Opcode of the operation that pushes its immediate value onto the stack.
pub const OPCODE_PUSH: u8 = 0b0101_1011;

/// Opcode of the operation that emits its immediate value to the host.
pub const OPCODE_EMIT: u8 = 0b0101_1010;

/// A native operation; each takes one cycle.
#[derive(Clone, Copy, Debug, PartialEq, Eq, Structural)]
pub enum Operation {
    // system operations
    Noop,
    Assert(Felt),
    FmpAdd,
    FmpUpdate,
    SDepth,
    Caller,
    Clk,
    Emit(u32),
    // flow control operations
    Join,
    Split,
    Loop,
    Call,
    Dyn,
    Dyncall,
    SysCall,
    Span,
    End,
    Repeat,
    Respan,
    Halt,
    // field operations
    Add,
    Neg,
    Mul,
    Inv,
    Incr,
    And,
    Or,
    Not,
    Eq,
    Eqz,
    Expacc,
    // operations in the quadratic extension
    Ext2Mul,
    // u32 operations
    U32split,
    U32add,
    U32assert2(Felt),
    U32add3,
    U32sub,
    U32mul,
    U32madd,
    U32div,
    U32and,
    U32xor,
    // stack manipulation
    Pad,
    Drop,
    Dup0,
    Dup1,
    Dup2,
    Dup3,
    Dup4,
    Dup5,
    Dup6,
    Dup7,
    Dup9,
    Dup11,
    Dup13,
    Dup15,
    Swap,
    SwapW,
    SwapW2,
    SwapW3,
    SwapDW,
    MovUp2,
    MovUp3,
    MovUp4,
    MovUp5,
    MovUp6,
    MovUp7,
    MovUp8,
    MovDn2,
    MovDn3,
    MovDn4,
    MovDn5,
    MovDn6,
    MovDn7,
    MovDn8,
    CSwap,
    CSwapW,
    // input / output
    Push(Felt),
    AdvPop,
    AdvPopW,
    MLoadW,
    MStoreW,
    MLoad,
    MStore,
    MStream,
    Pipe,
    // cryptographic operations
    HPerm,
    MpVerify(Felt),
    MrUpdate,
    FriE2F4,
    HornerBase,
    HornerExt,
    EvalCircuit,
}

impl Operation {
    /// The immediate value that the operation carries, if it carries one.
    pub open spec fn immediate(self) -> Option<Felt> {
        match self {
            Operation::Push(value) => Some(value),
            Operation::Emit(event_id) => Some(felt(event_id as int)),
            _ => None,
        }
    }

    /// The immediate value that the operation carries, if it carries one.
    pub fn imm_value(&self) -> (r: Option<Felt>)
        ensures
            r == self.immediate(),
    {
        match *self {
            Operation::Push(value) => Some(value),
            Operation::Emit(event_id) => Some(Felt::new(event_id as u64)),
            _ => None,
        }
    }
}

/// Flow control operations whose opcodes the trace generator writes.
#[derive(Clone, Copy, Debug, PartialEq, Eq, Structural)]
pub enum FlowOperation {
    Loop,
    Repeat,
    Halt,
}

impl FlowOperation {
    /// Opcode of the operation.
    pub open spec fn code(self) -> u8 {
        match self {
            FlowOperation::Loop => 0b0101_0101,
            FlowOperation::Repeat => 0b0111_0100,
            FlowOperation::Halt => 0b0111_1100,
        }
    }

    /// Opcode of the operation.
    pub fn op_code(&self) -> (r: u8)
        ensures
            r == self.code(),
    {
        flow_op_code(*self)
    }
}

/// Calls `miden_core::Operation::op_code`. Claimed of it: the opcodes of LOOP, REPEAT and HALT.
#[verifier::external_body]
fn flow_op_code(op: FlowOperation) -> (r: u8)
    ensures
        r == op.code(),
{
    match op {
        FlowOperation::Loop => miden_core::Operation::Loop.op_code(),
        FlowOperation::Repeat => miden_core::Operation::Repeat.op_code(),
        FlowOperation::Halt => miden_core::Operation::Halt.op_code(),
    }
}

} // verus!
