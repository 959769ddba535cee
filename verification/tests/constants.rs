use core_trace::felt;
use core_trace::layout;
use core_trace::op_batch;
use core_trace::operation::{FlowOperation, NUM_OP_BITS, OPCODE_EMIT, OPCODE_PUSH, Operation};
use core_trace::power::{checked_next_power_of_two, next_power_of_two};
use miden_air::trace;

#[test]
fn field_is_that_of_the_machine() {
    assert_eq!(felt::MODULUS, <miden_core::Felt as miden_core::StarkField>::MODULUS);
    assert_eq!(felt::WORD_SIZE, miden_core::WORD_SIZE);
}

#[test]
fn system_columns_match() {
    assert_eq!(layout::MIN_TRACE_LEN, trace::MIN_TRACE_LEN);
    assert_eq!(layout::SYS_TRACE_WIDTH, trace::SYS_TRACE_WIDTH);
    assert_eq!(layout::CLK_COL_IDX, trace::CLK_COL_IDX);
    assert_eq!(layout::FMP_COL_IDX, trace::FMP_COL_IDX);
    assert_eq!(layout::CTX_COL_IDX, trace::CTX_COL_IDX);
    assert_eq!(layout::IN_SYSCALL_COL_IDX, trace::IN_SYSCALL_COL_IDX);
    assert_eq!(layout::FN_HASH_OFFSET, trace::FN_HASH_OFFSET);
}

#[test]
fn decoder_columns_match() {
    assert_eq!(layout::DECODER_TRACE_OFFSET, trace::DECODER_TRACE_OFFSET);
    assert_eq!(layout::DECODER_TRACE_WIDTH, trace::DECODER_TRACE_WIDTH);
    assert_eq!(layout::ADDR_COL_IDX, trace::decoder::ADDR_COL_IDX);
    assert_eq!(layout::OP_BITS_OFFSET, trace::decoder::OP_BITS_OFFSET);
    assert_eq!(NUM_OP_BITS, trace::decoder::NUM_OP_BITS);
    assert_eq!(layout::HASHER_STATE_OFFSET, trace::decoder::HASHER_STATE_OFFSET);
    assert_eq!(layout::NUM_HASHER_COLUMNS, trace::decoder::NUM_HASHER_COLUMNS);
    assert_eq!(layout::NUM_USER_OP_HELPERS, trace::decoder::NUM_USER_OP_HELPERS);
    assert_eq!(layout::IN_SPAN_COL_IDX, trace::decoder::IN_SPAN_COL_IDX);
    assert_eq!(layout::GROUP_COUNT_COL_IDX, trace::decoder::GROUP_COUNT_COL_IDX);
    assert_eq!(layout::OP_INDEX_COL_IDX, trace::decoder::OP_INDEX_COL_IDX);
    assert_eq!(layout::OP_BATCH_FLAGS_OFFSET, trace::decoder::OP_BATCH_FLAGS_OFFSET);
    assert_eq!(layout::NUM_OP_BATCH_FLAGS, trace::decoder::NUM_OP_BATCH_FLAGS);
    assert_eq!(layout::OP_BITS_EXTRA_COLS_OFFSET, trace::decoder::OP_BITS_EXTRA_COLS_OFFSET);
}

#[test]
fn stack_columns_match() {
    assert_eq!(layout::MIN_STACK_DEPTH, miden_core::stack::MIN_STACK_DEPTH);
    assert_eq!(layout::STACK_TRACE_OFFSET, trace::STACK_TRACE_OFFSET);
    assert_eq!(layout::STACK_TRACE_WIDTH, trace::STACK_TRACE_WIDTH);
    assert_eq!(layout::STACK_TOP_OFFSET, trace::stack::STACK_TOP_OFFSET);
    assert_eq!(layout::B0_COL_IDX, trace::stack::B0_COL_IDX);
    assert_eq!(layout::B1_COL_IDX, trace::stack::B1_COL_IDX);
    assert_eq!(layout::H0_COL_IDX, trace::stack::H0_COL_IDX);
}

#[test]
fn other_columns_match() {
    assert_eq!(layout::RANGE_CHECK_TRACE_OFFSET, trace::RANGE_CHECK_TRACE_OFFSET);
    assert_eq!(layout::RANGE_CHECK_TRACE_WIDTH, trace::RANGE_CHECK_TRACE_WIDTH);
    assert_eq!(layout::CHIPLETS_OFFSET, trace::CHIPLETS_OFFSET);
    assert_eq!(layout::CHIPLETS_WIDTH, trace::CHIPLETS_WIDTH);
    assert_eq!(layout::TRACE_WIDTH, trace::TRACE_WIDTH);
    assert_eq!(
        layout::CORE_TRACE_WIDTH,
        layout::SYS_TRACE_WIDTH + layout::DECODER_TRACE_WIDTH + layout::STACK_TRACE_WIDTH
    );
}

#[test]
fn batch_sizes_match() {
    assert_eq!(op_batch::GROUP_SIZE, miden_core::mast::OP_GROUP_SIZE);
    assert_eq!(op_batch::BATCH_SIZE, miden_core::mast::OP_BATCH_SIZE);
}

#[test]
fn opcodes_match() {
    assert_eq!(FlowOperation::Loop.op_code(), miden_core::Operation::Loop.op_code());
    assert_eq!(FlowOperation::Repeat.op_code(), miden_core::Operation::Repeat.op_code());
    assert_eq!(FlowOperation::Halt.op_code(), miden_core::Operation::Halt.op_code());
    assert_eq!(FlowOperation::Loop.op_code(), 0b0101_0101);
    assert_eq!(FlowOperation::Repeat.op_code(), 0b0111_0100);
    assert_eq!(FlowOperation::Halt.op_code(), 0b0111_1100);
    assert_eq!(OPCODE_PUSH, miden_core::OPCODE_PUSH);
    assert_eq!(OPCODE_EMIT, miden_core::OPCODE_EMIT);
}

#[test]
fn immediates_belong_to_push_and_emit() {
    let value = felt::Felt::new(77);
    assert_eq!(Operation::Push(value).imm_value(), Some(value));
    assert_eq!(Operation::Emit(5).imm_value(), Some(felt::Felt::new(5)));
    assert_eq!(miden_core::Operation::Emit(5).imm_value(), Some(miden_core::Felt::new(5)));
    assert_eq!(Operation::Add.imm_value(), None);
    assert_eq!(Operation::Assert(value).imm_value(), None);
    assert_eq!(miden_core::Operation::Assert(miden_core::ONE).imm_value(), None);
}

#[test]
fn powers_of_two_are_rounded_up_to() {
    let rounded: Vec<usize> = (0..10).map(next_power_of_two).collect();
    assert_eq!(rounded, vec![1, 1, 2, 4, 4, 8, 8, 8, 8, 16]);
    for n in [100usize, 1023, 1024, 1025, 1 << 40, (1 << 40) + 1] {
        assert_eq!(next_power_of_two(n), n.next_power_of_two());
    }
    assert_eq!(checked_next_power_of_two(usize::MAX / 2 + 1), Some(usize::MAX / 2 + 1));
    assert_eq!(checked_next_power_of_two(usize::MAX / 2 + 2), None);
    assert_eq!(checked_next_power_of_two(usize::MAX), None);
}
