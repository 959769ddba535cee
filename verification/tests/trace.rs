use core_trace::executor::FMP_MIN;
use core_trace::felt::{Felt, MODULUS, Word};
use core_trace::first_rows::fixup_stack_and_system_rows;
use core_trace::fragment::{CoreTraceFragment, zero_columns};
use core_trace::main_trace::new_main_trace;
use core_trace::padding::pad_trace_columns;
use core_trace::random_coin::draw_elements;
use core_trace::trace::{
    FragmentResult, assemble_columns, build_trace, can_build, combine_columns, combine_fragments,
    initial_stack_top, inject_random_values,
};
use miden_air::RowIndex;
use miden_air::trace::main_trace::MainTrace;

fn felt(value: u64) -> Felt {
    Felt::new(value)
}

fn hash() -> Word {
    [felt(11), felt(12), felt(13), felt(14)]
}

/// A fragment whose cells tell their column and row.
fn fragment(rows: usize, offset: u64) -> CoreTraceFragment {
    let mut fragment = CoreTraceFragment::new_uninit(rows);
    for column in 0..51 {
        for row in 0..rows {
            fragment.set(column, row, felt(1000 * (column as u64 + 1) + offset + row as u64));
        }
    }
    fragment
}

fn column(trace: &MainTrace, c: usize) -> Vec<u64> {
    trace.get_column(c).iter().map(|value| value.as_int()).collect()
}

#[test]
fn new_fragments_hold_zeros() {
    let fragment = CoreTraceFragment::new_uninit(3);
    assert_eq!(fragment.row_count(), 3);
    assert_eq!(fragment.columns.len(), 51);
    assert!(fragment.columns.iter().all(|column| column == &vec![Felt::zero(); 3]));
}

#[test]
fn first_rows_are_completed() {
    let mut fragments = vec![fragment(2, 0), fragment(3, 2), fragment(0, 5), fragment(1, 5)];
    let stack_rows = vec![[felt(7); 19], [felt(8); 19], [felt(9); 19], [felt(10); 19]];
    let system_rows = vec![[felt(17); 8], [felt(18); 8], [felt(19); 8], [felt(20); 8]];
    let first_stack_top: Vec<Felt> = (0..16).map(felt).collect();
    let first_system_state = [felt(21); 8];
    fixup_stack_and_system_rows(
        &mut fragments,
        &stack_rows,
        &system_rows,
        &first_stack_top,
        &first_system_state,
    );
    // the first fragment starts with the initial state; the top of the stack comes first
    assert_eq!(fragments[0].columns[0], vec![felt(21), felt(1001)]);
    assert_eq!(fragments[0].columns[7][0], felt(21));
    assert_eq!(fragments[0].columns[8][0], felt(9000));
    assert_eq!(fragments[0].columns[32][0], felt(15));
    assert_eq!(fragments[0].columns[47][0], felt(0));
    assert_eq!(fragments[0].columns[48][0], felt(16));
    assert_eq!(fragments[0].columns[49][0], felt(0));
    assert_eq!(fragments[0].columns[50], vec![felt(0), felt(51001)]);
    // the others start with what was handed on
    assert_eq!(fragments[1].columns[3], vec![felt(17), felt(4003), felt(4004)]);
    assert_eq!(fragments[1].columns[31][0], felt(32002));
    assert_eq!(fragments[1].columns[50][0], felt(7));
    assert_eq!(fragments[2].row_count(), 0);
    assert_eq!(fragments[3].columns[0][0], felt(19));
    assert_eq!(fragments[3].columns[32][0], felt(9));
}

#[test]
fn missing_rows_leave_fragments_as_they_are() {
    let mut fragments = vec![fragment(1, 0), fragment(1, 1)];
    let first_stack_top = vec![felt(500), felt(600)];
    fixup_stack_and_system_rows(
        &mut fragments,
        &Vec::new(),
        &Vec::new(),
        &first_stack_top,
        &[felt(1); 8],
    );
    assert_eq!(fragments[0].columns[32][0], felt(600));
    assert_eq!(fragments[0].columns[33][0], felt(500));
    assert_eq!(fragments[0].columns[34][0], felt(35000));
    assert_eq!(fragments[0].columns[48][0], felt(16));
    assert_eq!(fragments[1].columns[32][0], felt(33001));
}

#[test]
fn padding_halts_and_keeps_the_stack() {
    let mut columns = zero_columns(73, 8);
    for (c, column) in columns.iter_mut().enumerate() {
        column[1] = felt(100 + c as u64);
        column[5] = felt(9999);
    }
    pad_trace_columns(&mut columns, 2, 8);
    assert_eq!(columns[0][1], felt(100));
    assert_eq!(columns[0][2..], (2..8).map(felt).collect::<Vec<Felt>>()[..]);
    assert_eq!(columns[1][2..], [felt(101); 6]);
    for c in 2..9 {
        assert_eq!(columns[c][2..], [Felt::zero(); 6]);
    }
    // HALT is 0b1111100
    let bits: Vec<u64> = (9..16).map(|c| columns[c][4].as_int()).collect();
    assert_eq!(bits, vec![0, 0, 1, 1, 1, 1, 1]);
    for c in 16..20 {
        assert_eq!(columns[c][2..], [felt(100 + c as u64); 6]);
    }
    for c in 20..31 {
        assert_eq!(columns[c][2..], [Felt::zero(); 6]);
    }
    assert_eq!(columns[31][2..], [Felt::one(); 6]);
    for c in 32..51 {
        assert_eq!(columns[c][2..], [felt(100 + c as u64); 6]);
    }
    for c in 51..73 {
        assert_eq!(columns[c][2..], [Felt::zero(); 6]);
        assert_eq!(columns[c][1], felt(100 + c as u64));
    }
}

#[test]
fn fragments_are_assembled_one_after_the_other() {
    let columns = assemble_columns(&vec![fragment(2, 0), fragment(3, 2)]);
    assert_eq!(columns.len(), 73);
    assert!(columns.iter().all(|column| column.len() == 64));
    assert_eq!(columns[5][..5], (6000..6005).map(felt).collect::<Vec<Felt>>()[..]);
    assert_eq!(columns[5][5], Felt::zero());
    assert_eq!(columns[40][63], felt(41004));
    assert_eq!(columns[60], vec![Felt::zero(); 64]);
}

#[test]
fn lengths_are_powers_of_two() {
    for (rows, len) in [(1, 64), (63, 64), (64, 128), (127, 128), (128, 256)] {
        assert_eq!(assemble_columns(&vec![fragment(rows, 0)])[0].len(), len);
    }
}

#[test]
fn random_values_fill_the_last_row() {
    let mut columns = zero_columns(73, 4);
    let draws: Vec<Felt> = (0..51).map(|i| felt(i + 1)).collect();
    inject_random_values(&mut columns, &draws);
    assert_eq!(columns[0], vec![felt(0), felt(0), felt(0), felt(1)]);
    assert_eq!(columns[50], vec![felt(0), felt(0), felt(0), felt(51)]);
    assert_eq!(columns[51], vec![Felt::zero(); 4]);
}

#[test]
fn helper_column_is_inverted() {
    let draws: Vec<Felt> = vec![felt(3); 51];
    let columns = combine_columns(&vec![fragment(2, 0)], &draws);
    assert_eq!(columns[50][0].mul(felt(51000)), Felt::one());
    assert_eq!(columns[50][1].mul(felt(51001)), Felt::one());
    // the last value is carried on
    assert_eq!(columns[50][62].mul(felt(51001)), Felt::one());
    assert_eq!(columns[50][63], felt(3));
    assert_eq!(columns[49][1], felt(50001));
}

#[test]
fn main_trace_holds_columns_and_last_row() {
    let columns = vec![vec![felt(1), felt(MODULUS + 2)], vec![felt(3), felt(4)]];
    let trace = new_main_trace(&columns, 1);
    assert_eq!(trace.num_rows(), 2);
    assert_eq!(trace.last_program_row(), RowIndex::from(1u32));
    assert_eq!(column(&trace, 0), vec![1, 2]);
    assert_eq!(column(&trace, 1), vec![3, 4]);
}

#[test]
fn combined_fragments_end_with_random_values() {
    let trace = combine_fragments(vec![fragment(40, 0), fragment(30, 40)], hash());
    assert_eq!(trace.num_rows(), 128);
    assert_eq!(trace.num_cols(), 73);
    assert_eq!(trace.last_program_row(), RowIndex::from(69u32));
    let draws = draw_elements(hash(), 51);
    for c in 0..51 {
        assert_eq!(column(&trace, c)[127], draws[c].as_int());
    }
    assert_eq!(column(&trace, 3)[45], 4045);
    assert_eq!(column(&trace, 0)[126], 126);
    assert_eq!(column(&trace, 72), vec![0; 128]);
}

#[test]
fn traces_start_with_the_initial_state_and_are_continuous() {
    let results: Vec<FragmentResult> = vec![
        (fragment(3, 0), [felt(70); 19], [felt(71); 8]),
        (fragment(2, 3), [felt(80); 19], [felt(81); 8]),
    ];
    let first_stack_top: Vec<Felt> = (1..17).map(felt).collect();
    let trace = build_trace(first_stack_top, results, hash());
    assert_eq!(trace.num_rows(), 64);
    assert_eq!(trace.last_program_row(), RowIndex::from(4u32));
    assert_eq!(column(&trace, 0)[..5], [0, 1001, 1002, 71, 1004]);
    assert_eq!(column(&trace, 1)[0], FMP_MIN);
    assert_eq!(column(&trace, 2)[0], 0);
    assert_eq!(column(&trace, 32)[..5], [16, 33001, 33002, 70, 33004]);
    assert_eq!(column(&trace, 47)[0], 1);
    assert_eq!(column(&trace, 48)[0], 16);
    assert_eq!(column(&trace, 50)[0], 0);
    assert_eq!(felt(column(&trace, 50)[3]).mul(felt(70)), Felt::one());
    assert_eq!(column(&trace, 20)[3], 21003);
}

#[test]
fn equal_fragments_give_equal_traces() {
    let results = || -> Vec<FragmentResult> {
        vec![
            (fragment(3, 0), [felt(70); 19], [felt(71); 8]),
            (fragment(2, 3), [felt(80); 19], [felt(81); 8]),
        ]
    };
    let first_stack_top: Vec<Felt> = (1..17).map(felt).collect();
    let first = build_trace(first_stack_top.clone(), results(), hash());
    let second = build_trace(first_stack_top.clone(), results(), hash());
    assert_eq!(first.last_program_row(), second.last_program_row());
    for c in 0..73 {
        assert_eq!(column(&first, c), column(&second, c));
    }
    let mut swapped = results();
    swapped.reverse();
    let other = build_trace(first_stack_top, swapped, hash());
    assert_ne!(column(&first, 40), column(&other, 40));
}

#[test]
fn fragments_without_rows_cannot_be_combined() {
    let rows = ([Felt::zero(); 19], [Felt::zero(); 8]);
    assert!(!can_build(&Vec::new()));
    assert!(!can_build(&vec![(fragment(0, 0), rows.0, rows.1)]));
    assert!(can_build(&vec![(fragment(0, 0), rows.0, rows.1), (fragment(1, 0), rows.0, rows.1)]));
    let mut ragged = fragment(2, 0);
    ragged.columns[7].pop();
    assert!(!ragged.is_valid());
    assert!(!can_build(&vec![(ragged, rows.0, rows.1)]));
    let narrow = CoreTraceFragment { columns: zero_columns(50, 2) };
    assert!(!can_build(&vec![(narrow, rows.0, rows.1)]));
}

#[test]
fn no_states_give_a_zero_stack() {
    assert_eq!(initial_stack_top(&Vec::new()), vec![Felt::zero(); 16]);
}
