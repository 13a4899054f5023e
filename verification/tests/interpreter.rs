use brainfuck::machine::{run, Machine};
use brainfuck::semantics::{ErrorKind, MAX_DATA_SIZE};

const BUDGET: u64 = 1_000_000;

fn chars(s: &str) -> Vec<char> {
    s.chars().collect()
}

#[test]
fn empty_program_succeeds_with_no_output() {
    let m = run(chars(""), Vec::new(), BUDGET);
    assert_eq!(m.result(), Some(Ok(())));
    assert!(m.output().is_empty());
}

#[test]
fn left_move_at_cell_zero_fails_left_bound() {
    let m = run(chars("<"), Vec::new(), BUDGET);
    assert_eq!(
        m.result(),
        Some(Err(ErrorKind::PointerOutOfBounds { to_left: true }))
    );
    assert!(m.output().is_empty());
    assert_eq!(m.data_ptr(), 0);
    for i in 0..MAX_DATA_SIZE {
        assert_eq!(m.cell(i), 0);
    }
}

#[test]
fn right_moves_fail_exactly_past_last_cell() {
    let m = run(">".repeat(MAX_DATA_SIZE).chars().collect(), Vec::new(), BUDGET);
    assert_eq!(
        m.result(),
        Some(Err(ErrorKind::PointerOutOfBounds { to_left: false }))
    );
    // All moves before the failing one succeeded: the pointer sits on the
    // last valid cell.
    assert_eq!(m.data_ptr(), MAX_DATA_SIZE - 1);
    assert!(m.output().is_empty());
}

#[test]
fn right_moves_up_to_last_cell_succeed() {
    let m = run(">".repeat(MAX_DATA_SIZE - 1).chars().collect(), Vec::new(), BUDGET);
    assert_eq!(m.result(), Some(Ok(())));
    assert_eq!(m.data_ptr(), MAX_DATA_SIZE - 1);
}

#[test]
fn lone_open_bracket_fails_unmatched() {
    let m = run(chars("["), Vec::new(), BUDGET);
    assert_eq!(
        m.result(),
        Some(Err(ErrorKind::UnmatchedBracket { opening: true }))
    );
}

#[test]
fn close_bracket_with_nonzero_cell_fails_unmatched() {
    let m = run(chars("+]"), Vec::new(), BUDGET);
    assert_eq!(
        m.result(),
        Some(Err(ErrorKind::UnmatchedBracket { opening: false }))
    );
}

#[test]
fn close_bracket_with_zero_cell_takes_no_branch() {
    // Bracket matching is lazy: a `]` whose cell is zero does not scan,
    // so its imbalance goes undetected and the run succeeds.
    let m = run(chars("]"), Vec::new(), BUDGET);
    assert_eq!(m.result(), Some(Ok(())));
    assert!(m.output().is_empty());
}

#[test]
fn two_increments_emit_byte_two() {
    let m = run(chars("++."), Vec::new(), BUDGET);
    assert_eq!(m.result(), Some(Ok(())));
    assert_eq!(m.output(), &vec![2u8]);
}

#[test]
fn clear_loop_zeroes_the_cell() {
    let m = run(chars("+[-]"), Vec::new(), BUDGET);
    assert_eq!(m.result(), Some(Ok(())));
    assert_eq!(m.cell(0), 0);
    assert!(m.output().is_empty());
}

#[test]
fn comma_reads_then_dot_echoes() {
    let m = run(chars(",."), vec![65u8], BUDGET);
    assert_eq!(m.result(), Some(Ok(())));
    assert_eq!(m.output(), &vec![65u8]);
    assert_eq!(m.cell(0), 65);
}

#[test]
fn nested_loops_track_depth() {
    // Outer loop runs twice; each pass the inner loop moves 2 twice into
    // the third cell: 2 * 2 * 2 == 8.
    let m = run(chars("++[>++[>++<-]<-]"), Vec::new(), BUDGET);
    assert_eq!(m.result(), Some(Ok(())));
    assert_eq!(m.cell(0), 0);
    assert_eq!(m.cell(1), 0);
    assert_eq!(m.cell(2), 8);
}

#[test]
fn increment_256_times_wraps_to_same_value() {
    let program = format!(",{}.", "+".repeat(256));
    let m = run(program.chars().collect(), vec![200u8], BUDGET);
    assert_eq!(m.result(), Some(Ok(())));
    assert_eq!(m.output(), &vec![200u8]);
    assert_eq!(m.cell(0), 200);
}

#[test]
fn decrement_256_times_wraps_to_same_value() {
    let program = format!(",{}.", "-".repeat(256));
    let m = run(program.chars().collect(), vec![77u8], BUDGET);
    assert_eq!(m.result(), Some(Ok(())));
    assert_eq!(m.output(), &vec![77u8]);
    assert_eq!(m.cell(0), 77);
}

#[test]
fn increment_wraps_255_to_zero() {
    let m = run(format!("{}.", "+".repeat(256)).chars().collect(), Vec::new(), BUDGET);
    assert_eq!(m.result(), Some(Ok(())));
    assert_eq!(m.output(), &vec![0u8]);
}

#[test]
fn decrement_wraps_zero_to_255() {
    let m = run(chars("-."), Vec::new(), BUDGET);
    assert_eq!(m.result(), Some(Ok(())));
    assert_eq!(m.output(), &vec![255u8]);
}

#[test]
fn end_of_input_leaves_cell_unchanged() {
    let m = run(chars("+,."), Vec::new(), BUDGET);
    assert_eq!(m.result(), Some(Ok(())));
    assert_eq!(m.output(), &vec![1u8]);
    assert_eq!(m.cell(0), 1);
}

#[test]
fn input_bytes_are_consumed_in_order() {
    let m = run(chars(",.>,.>,."), vec![10u8, 20u8, 30u8], BUDGET);
    assert_eq!(m.result(), Some(Ok(())));
    assert_eq!(m.output(), &vec![10u8, 20u8, 30u8]);
}

#[test]
fn non_instruction_characters_are_no_ops() {
    let m = run(chars("a + b + . comment"), Vec::new(), BUDGET);
    assert_eq!(m.result(), Some(Ok(())));
    assert_eq!(m.output(), &vec![2u8]);
}

#[test]
fn deeply_nested_unmatched_open_brackets_fail() {
    let m = run(chars("[[[[[["), Vec::new(), BUDGET);
    assert_eq!(
        m.result(),
        Some(Err(ErrorKind::UnmatchedBracket { opening: true }))
    );
}

#[test]
fn interleaved_unmatched_close_brackets_fail() {
    let m = run(chars("+]]]]"), Vec::new(), BUDGET);
    assert_eq!(
        m.result(),
        Some(Err(ErrorKind::UnmatchedBracket { opening: false }))
    );
}

#[test]
fn adversarial_nesting_stays_on_tape() {
    // Unbalanced nesting mixed with pointer moves: the run must end in an
    // error without ever touching anything outside the tape.
    let m = run(chars("+[>+[->["), Vec::new(), BUDGET);
    assert_eq!(
        m.result(),
        Some(Err(ErrorKind::UnmatchedBracket { opening: true }))
    );
    assert!(m.data_ptr() < MAX_DATA_SIZE);
}

#[test]
fn spent_budget_leaves_machine_running() {
    // `+[]` never terminates; a bounded run reports no outcome yet.
    let m = run(chars("+[]"), Vec::new(), 1000);
    assert_eq!(m.result(), None);
}

#[test]
fn stepping_a_halted_machine_changes_nothing() {
    let mut m = Machine::new(chars("+."), Vec::new());
    while m.is_running() {
        m.step();
    }
    assert_eq!(m.result(), Some(Ok(())));
    assert_eq!(m.step(), None);
    assert_eq!(m.result(), Some(Ok(())));
    assert_eq!(m.output(), &vec![1u8]);
}

#[test]
fn interactive_driver_supplies_input_on_demand() {
    let mut m = Machine::new(chars(",.,."), Vec::new());
    let mut supplied: Vec<u8> = vec![33u8, 44u8];
    let mut emitted: Vec<u8> = Vec::new();
    while m.is_running() {
        if m.needs_input() {
            assert!(!supplied.is_empty());
            m.push_input(supplied.remove(0));
        }
        if let Some(b) = m.step() {
            emitted.push(b);
        }
    }
    assert_eq!(m.result(), Some(Ok(())));
    assert!(supplied.is_empty());
    assert_eq!(emitted, vec![33u8, 44u8]);
    assert_eq!(m.output(), &vec![33u8, 44u8]);
}

#[test]
fn step_reports_each_emitted_byte() {
    let mut m = Machine::new(chars("+.+."), Vec::new());
    let mut emitted: Vec<u8> = Vec::new();
    while m.is_running() {
        if let Some(b) = m.step() {
            emitted.push(b);
        }
    }
    assert_eq!(emitted, vec![1u8, 2u8]);
}

#[test]
fn jump_forward_skips_loop_body_when_cell_is_zero() {
    let m = run(chars("[+++.]-."), Vec::new(), BUDGET);
    assert_eq!(m.result(), Some(Ok(())));
    assert_eq!(m.output(), &vec![255u8]);
}

#[test]
fn pointer_moves_read_and_write_distinct_cells() {
    let m = run(chars("+>++>+++<.<."), Vec::new(), BUDGET);
    assert_eq!(m.result(), Some(Ok(())));
    assert_eq!(m.output(), &vec![2u8, 1u8]);
    assert_eq!(m.cell(0), 1);
    assert_eq!(m.cell(1), 2);
    assert_eq!(m.cell(2), 3);
}
