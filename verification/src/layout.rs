//! Layout of the execution trace.
//!
//! The core columns of the main trace are those of the system, the decoder and the stack; columns
//! for range checks and for the chiplets follow.
use vstd::prelude::*;

verus! {

/// The minimum length of the execution trace.
pub const MIN_TRACE_LEN: usize = 64;

/// Number of rows at the end of the trace that hold random values.
pub const NUM_RAND_ROWS: usize = 1;

/// Number of rows that a fragment of the core trace covers.
pub const NUM_ROWS_PER_CORE_FRAGMENT: usize = 1024;

// System columns
// ------------------------------------------------------------------------------------------------
pub const SYS_TRACE_WIDTH: usize = 8;

pub const CLK_COL_IDX: usize = 0;

pub const FMP_COL_IDX: usize = 1;

pub const CTX_COL_IDX: usize = 2;

pub const IN_SYSCALL_COL_IDX: usize = 3;

pub const FN_HASH_OFFSET: usize = 4;

// Decoder columns
// ------------------------------------------------------------------------------------------------
pub const DECODER_TRACE_OFFSET: usize = 8;

pub const DECODER_TRACE_WIDTH: usize = 24;

pub const ADDR_COL_IDX: usize = 0;

pub const OP_BITS_OFFSET: usize = 1;

pub const HASHER_STATE_OFFSET: usize = 8;

pub const NUM_HASHER_COLUMNS: usize = 8;

pub const NUM_USER_OP_HELPERS: usize = 6;

pub const IN_SPAN_COL_IDX: usize = 16;

pub const GROUP_COUNT_COL_IDX: usize = 17;

pub const OP_INDEX_COL_IDX: usize = 18;

pub const OP_BATCH_FLAGS_OFFSET: usize = 19;

pub const NUM_OP_BATCH_FLAGS: usize = 3;

pub const OP_BITS_EXTRA_COLS_OFFSET: usize = 22;

// Stack columns
// ------------------------------------------------------------------------------------------------
/// Number of stack elements that operations can reach directly.
pub const MIN_STACK_DEPTH: usize = 16;

pub const STACK_TRACE_OFFSET: usize = 32;

pub const STACK_TRACE_WIDTH: usize = 19;

pub const STACK_TOP_OFFSET: usize = 0;

/// Holds the stack depth.
pub const B0_COL_IDX: usize = 16;

/// Holds the address of the top item of the overflow table.
pub const B1_COL_IDX: usize = 17;

/// Holds the inverse of what the stack depth exceeds its minimum by.
pub const H0_COL_IDX: usize = 18;

// Other columns
// ------------------------------------------------------------------------------------------------
pub const RANGE_CHECK_TRACE_OFFSET: usize = 51;

pub const RANGE_CHECK_TRACE_WIDTH: usize = 2;

pub const CHIPLETS_OFFSET: usize = 53;

pub const CHIPLETS_WIDTH: usize = 20;

// Widths
// ------------------------------------------------------------------------------------------------
/// Number of core columns.
pub const CORE_TRACE_WIDTH: usize = 51;

/// Number of columns of the main trace.
pub const TRACE_WIDTH: usize = 73;

} // verus!
