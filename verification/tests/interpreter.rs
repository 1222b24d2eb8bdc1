use brainfuck::interpreter::interpret;
use brainfuck::interpreter::step;
use brainfuck::interpreter::HaltKind;
use brainfuck::interpreter::State;
use brainfuck::interpreter::TAPE_LEN;
use brainfuck::tokenize::tokenize;

fn run(source: &str, input: &str) -> State {
    interpret(tokenize(source.to_string()), input.to_string())
}

#[test]
fn empty_program_halts_normally() {
    let state = run("", "");
    assert_eq!(state.exit, None);
    assert_eq!(state.output, Vec::<char>::new());
    assert_eq!(state.code_loc, 0);
    assert_eq!(state.data_loc, 0);
    assert_eq!(state.input_loc, 0);
    assert_eq!(state.loop_loc, Vec::<usize>::new());
    assert_eq!(state.memory.len(), TAPE_LEN);
    assert!(state.memory.iter().all(|&b| b == 0));
}

#[test]
fn sixty_five_increments_print_a() {
    // 65 `+` characters bring the cell to byte value 65, which prints as `A`.
    let source = format!("{}.", "+".repeat(65));
    let state = run(&source, "");
    assert_eq!(state.exit, None);
    assert_eq!(state.output.iter().collect::<String>(), "A");
}

#[test]
fn read_then_print_echoes_one_byte() {
    let state = run(",.", "Z");
    assert_eq!(state.exit, None);
    assert_eq!(state.output.iter().collect::<String>(), "Z");
    assert_eq!(state.input_loc, 1);
}

#[test]
fn clear_loop_zeroes_a_nonzero_cell() {
    // The `+` prefix pre-sets the cell to a non-zero value; `[-]` then
    // drains it to zero and exits the loop normally.
    let state = run("+++[-]", "");
    assert_eq!(state.exit, None);
    assert_eq!(state.memory[0], 0);
}

#[test]
fn unmatched_open_bracket_on_zero_cell() {
    // The cell is zero, so `[` scans forward for its match, runs off the
    // end of the program, and halts with the unterminated-loop fault.
    let state = run("[", "");
    assert_eq!(state.exit, Some(HaltKind::UnterminatedLoop));
}

#[test]
fn unmatched_open_bracket_on_nonzero_cell() {
    // With a non-zero cell `[` does not scan at all: it pushes its position
    // and falls through, and the run then halts via the normal
    // end-of-program path, with no halt descriptor.
    let state = run("+[", "");
    assert_eq!(state.exit, None);
    assert_eq!(state.code_loc, 2);
}

#[test]
fn pointer_runs_off_the_right_end() {
    // The pointer starts at index 0, so the 29999 first `>` succeed and the
    // next one (at instruction index 29999) finds the pointer on the tape's
    // last cell and halts.
    let source = ">".repeat(TAPE_LEN);
    let state = run(&source, "");
    assert_eq!(state.exit, Some(HaltKind::BoundsOverflow));
    assert_eq!(state.data_loc, TAPE_LEN - 1);
    assert_eq!(state.code_loc, TAPE_LEN - 1);
}

#[test]
fn pointer_runs_off_the_left_end() {
    let state = run("<", "");
    assert_eq!(state.exit, Some(HaltKind::BoundsUnderflow));
    assert_eq!(state.data_loc, 0);
    assert_eq!(state.code_loc, 0);
}

#[test]
fn nested_loops_match_their_own_brackets() {
    // With a zero cell the outer `[` must jump past its own `]` (the last
    // character), not the inner one; landing anywhere else would run `-`
    // on a zero cell and fault.
    let state = run("[[-]-]", "");
    assert_eq!(state.exit, None);
    assert_eq!(state.code_loc, 6);
}

#[test]
fn nested_loops_execute() {
    // Two turns of the outer loop, each entering and draining an inner
    // loop one cell to the right; both cells end at zero with no fault.
    let state = run("++[>+[-]<-]", "");
    assert_eq!(state.exit, None);
    assert_eq!(state.memory[0], 0);
    assert_eq!(state.memory[1], 0);
}

#[test]
fn cell_overflow_halts() {
    // 255 increments reach the top of the 8-bit range; the 256th would
    // overflow and halts instead, leaving the cell untouched and the
    // instruction pointer at the violating operator.
    let source = "+".repeat(256);
    let state = run(&source, "");
    assert_eq!(state.exit, Some(HaltKind::ArithmeticOverflow));
    assert_eq!(state.memory[0], 255);
    assert_eq!(state.code_loc, 255);
}

#[test]
fn cell_underflow_halts() {
    let state = run("-", "");
    assert_eq!(state.exit, Some(HaltKind::ArithmeticUnderflow));
    assert_eq!(state.memory[0], 0);
    assert_eq!(state.code_loc, 0);
}

#[test]
fn exhausted_input_reads_zero() {
    // Reading past the end of the input writes a zero byte, does not move
    // the input cursor, and is not a fault.
    let state = run("+,", "");
    assert_eq!(state.exit, None);
    assert_eq!(state.memory[0], 0);
    assert_eq!(state.input_loc, 0);
}

#[test]
fn reads_consume_input_in_order() {
    let state = run(",,.", "AB");
    assert_eq!(state.exit, None);
    assert_eq!(state.output.iter().collect::<String>(), "B");
    assert_eq!(state.input_loc, 2);
}

#[test]
fn loop_close_on_zero_cell_with_empty_stack() {
    // `]` with a zero cell discards the top of the stack; an empty stack is
    // no fault, the machine just falls through.
    let state = run("]", "");
    assert_eq!(state.exit, None);
    assert_eq!(state.code_loc, 1);
}

#[test]
fn loop_close_on_nonzero_cell_with_empty_stack() {
    // `]` with a non-zero cell and nothing to return to advances by one
    // instead of jumping.
    let state = run("+]", "");
    assert_eq!(state.exit, None);
    assert_eq!(state.code_loc, 2);
}

#[test]
fn back_jump_leaves_the_header_on_the_stack() {
    // `]` on a non-zero cell re-enters the loop header without popping, and
    // the header pushes itself again; the final exit pops one entry, so one
    // copy of the header's position remains.
    let state = run("++[-]", "");
    assert_eq!(state.exit, None);
    assert_eq!(state.memory[0], 0);
    assert_eq!(state.loop_loc, vec![2]);
}

#[test]
fn halt_messages() {
    assert_eq!(HaltKind::ArithmeticOverflow.message(), "Integer Overflow");
    assert_eq!(HaltKind::ArithmeticUnderflow.message(), "Integer Underflow");
    assert_eq!(HaltKind::BoundsOverflow.message(), "Out of bounds (overflow)");
    assert_eq!(HaltKind::BoundsUnderflow.message(), "Out of bounds (underflow)");
    assert_eq!(HaltKind::UnterminatedLoop.message(), "Unterminated Loop");
}

#[test]
fn single_steps_reach_the_same_state() {
    let tokens = tokenize("+>+.".to_string());
    let input: Vec<u8> = Vec::new();
    let mut state = State::new();
    let mut fuel = 0;
    while state.exit.is_none() && state.code_loc < tokens.len() {
        step(&mut state, &tokens, &input);
        fuel += 1;
        assert!(fuel <= 4);
    }
    assert_eq!(state.exit, None);
    assert_eq!(state.memory[0], 1);
    assert_eq!(state.memory[1], 1);
    assert_eq!(state.output, vec!['\u{1}']);
}

#[test]
fn step_after_halt_changes_nothing() {
    let tokens = tokenize("<".to_string());
    let input: Vec<u8> = Vec::new();
    let mut state = State::new();
    step(&mut state, &tokens, &input);
    assert_eq!(state.exit, Some(HaltKind::BoundsUnderflow));
    let code_loc = state.code_loc;
    step(&mut state, &tokens, &input);
    assert_eq!(state.exit, Some(HaltKind::BoundsUnderflow));
    assert_eq!(state.code_loc, code_loc);
}

#[test]
fn fresh_state_is_zeroed() {
    let state = State::new();
    assert_eq!(state.memory.len(), TAPE_LEN);
    assert!(state.memory.iter().all(|&b| b == 0));
    assert_eq!(state.code_loc, 0);
    assert_eq!(state.data_loc, 0);
    assert_eq!(state.input_loc, 0);
    assert!(state.loop_loc.is_empty());
    assert!(state.output.is_empty());
    assert_eq!(state.exit, None);
}
