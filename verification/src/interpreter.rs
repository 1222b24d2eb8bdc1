use vstd::prelude::*;
use vstd::utf8::encode_utf8;

use crate::tokenize::Operator;

verus! {

/// Number of cells on the memory tape.
pub const TAPE_LEN: usize = 30000;

/// Why a run stopped before reaching the end of the program.
#[derive(Clone, Copy, PartialEq, Eq, Structural, Debug)]
pub enum HaltKind {
    ArithmeticOverflow,
    ArithmeticUnderflow,
    BoundsOverflow,
    BoundsUnderflow,
    UnterminatedLoop,
}

/// The human-readable message belonging to a halt kind.
pub open spec fn halt_message(k: HaltKind) -> Seq<char> {
    match k {
        HaltKind::ArithmeticOverflow => "Integer Overflow"@,
        HaltKind::ArithmeticUnderflow => "Integer Underflow"@,
        HaltKind::BoundsOverflow => "Out of bounds (overflow)"@,
        HaltKind::BoundsUnderflow => "Out of bounds (underflow)"@,
        HaltKind::UnterminatedLoop => "Unterminated Loop"@,
    }
}

impl HaltKind {
    /// The human-readable message belonging to this halt kind.
    pub fn message(&self) -> (m: &'static str)
        ensures
            m@ == halt_message(*self),
    {
        match *self {
            HaltKind::ArithmeticOverflow => "Integer Overflow",
            HaltKind::ArithmeticUnderflow => "Integer Underflow",
            HaltKind::BoundsOverflow => "Out of bounds (overflow)",
            HaltKind::BoundsUnderflow => "Out of bounds (underflow)",
            HaltKind::UnterminatedLoop => "Unterminated Loop",
        }
    }
}

/// The mathematical shadow of an execution state: what the machine's
/// transition relation is stated over.
#[verifier::ext_equal]
pub ghost struct StateModel {
    pub memory: Seq<u8>,
    pub code_loc: nat,
    pub data_loc: nat,
    pub input_loc: nat,
    pub loop_loc: Seq<nat>,
    pub output: Seq<char>,
    pub exit: Option<HaltKind>,
}

/// One virtual machine execution state: the memory tape, the instruction,
/// data and input cursors, the loop-return stack, the accumulated output,
/// and the halt descriptor (absent while the machine may still run).
pub struct State {
    pub memory: Vec<u8>,
    pub code_loc: usize,
    pub data_loc: usize,
    pub input_loc: usize,
    pub loop_loc: Vec<usize>,
    pub output: Vec<char>,
    pub exit: Option<HaltKind>,
}

impl View for State {
    type V = StateModel;

    open spec fn view(&self) -> StateModel {
        StateModel {
            memory: self.memory@,
            code_loc: self.code_loc as nat,
            data_loc: self.data_loc as nat,
            input_loc: self.input_loc as nat,
            loop_loc: self.loop_loc@.map_values(|j: usize| j as nat),
            output: self.output@,
            exit: self.exit,
        }
    }
}

/// The state a run starts from: a zeroed tape, every cursor at zero,
/// an empty loop-return stack, no output, no halt.
pub open spec fn init_model() -> StateModel {
    StateModel {
        memory: Seq::new(TAPE_LEN as nat, |i: int| 0u8),
        code_loc: 0,
        data_loc: 0,
        input_loc: 0,
        loop_loc: Seq::empty(),
        output: Seq::empty(),
        exit: None,
    }
}

/// The machine may take another step: no halt is recorded and the
/// instruction pointer is still inside the program.
pub open spec fn running(prog: Seq<Operator>, m: StateModel) -> bool {
    m.exit is None && m.code_loc < prog.len()
}

/// The cell the data pointer selects.
pub open spec fn cur_cell(m: StateModel) -> u8 {
    m.memory[m.data_loc as int]
}

/// The index of the matching `Loop` instruction at or after position `j`,
/// for a scan that still has `depth` open inner loops to close; `None` when
/// the scan runs past the end of the program.
pub open spec fn find_close(prog: Seq<Operator>, j: int, depth: nat) -> Option<int>
    decreases prog.len() - j,
{
    if j < 0 || j >= prog.len() {
        None
    } else {
        match prog[j] {
            Operator::Loop => if depth == 0 {
                Some(j)
            } else {
                find_close(prog, j + 1, (depth - 1) as nat)
            },
            Operator::JumpZero => find_close(prog, j + 1, depth + 1),
            _ => find_close(prog, j + 1, depth),
        }
    }
}

/// Transition for `IncCell`: one more in the current cell, or an
/// arithmetic-overflow halt when the cell already holds the largest value.
pub open spec fn step_inc_cell(m: StateModel) -> StateModel {
    if cur_cell(m) == 255 {
        StateModel { exit: Some(HaltKind::ArithmeticOverflow), ..m }
    } else {
        StateModel {
            memory: m.memory.update(m.data_loc as int, (cur_cell(m) + 1) as u8),
            code_loc: m.code_loc + 1,
            ..m
        }
    }
}

/// Transition for `DecCell`: one less in the current cell, or an
/// arithmetic-underflow halt when the cell is already zero.
pub open spec fn step_dec_cell(m: StateModel) -> StateModel {
    if cur_cell(m) == 0 {
        StateModel { exit: Some(HaltKind::ArithmeticUnderflow), ..m }
    } else {
        StateModel {
            memory: m.memory.update(m.data_loc as int, (cur_cell(m) - 1) as u8),
            code_loc: m.code_loc + 1,
            ..m
        }
    }
}

/// Transition for `IncPtr`: move the data pointer right, or a
/// bounds-overflow halt at the tape's last cell.
pub open spec fn step_inc_ptr(m: StateModel) -> StateModel {
    if m.data_loc + 1 == m.memory.len() {
        StateModel { exit: Some(HaltKind::BoundsOverflow), ..m }
    } else {
        StateModel { data_loc: m.data_loc + 1, code_loc: m.code_loc + 1, ..m }
    }
}

/// Transition for `DecPtr`: move the data pointer left, or a
/// bounds-underflow halt at the tape's first cell.
pub open spec fn step_dec_ptr(m: StateModel) -> StateModel {
    if m.data_loc == 0 {
        StateModel { exit: Some(HaltKind::BoundsUnderflow), ..m }
    } else {
        StateModel { data_loc: (m.data_loc - 1) as nat, code_loc: m.code_loc + 1, ..m }
    }
}

/// Transition for `Print`: append the current cell, read as a character,
/// to the output. Every 8-bit value is a valid code point, so printing
/// never fails.
pub open spec fn step_print(m: StateModel) -> StateModel {
    StateModel { output: m.output.push(cur_cell(m) as char), code_loc: m.code_loc + 1, ..m }
}

/// Transition for `Read`: copy the next input byte into the current cell
/// and advance the input cursor; an exhausted input writes a zero byte
/// instead and is not a fault.
pub open spec fn step_read(input: Seq<u8>, m: StateModel) -> StateModel {
    if m.input_loc < input.len() {
        StateModel {
            memory: m.memory.update(m.data_loc as int, input[m.input_loc as int]),
            input_loc: m.input_loc + 1,
            code_loc: m.code_loc + 1,
            ..m
        }
    } else {
        StateModel {
            memory: m.memory.update(m.data_loc as int, 0u8),
            code_loc: m.code_loc + 1,
            ..m
        }
    }
}

/// Transition for `JumpZero`: on a zero cell, jump just past the matching
/// `Loop` instruction, or halt with an unterminated-loop fault when no
/// match exists; on a non-zero cell, push this position onto the
/// loop-return stack and fall through.
pub open spec fn step_jump_zero(prog: Seq<Operator>, m: StateModel) -> StateModel {
    if cur_cell(m) == 0 {
        match find_close(prog, m.code_loc + 1int, 0) {
            Some(j) => StateModel { code_loc: (j + 1) as nat, ..m },
            None => StateModel { exit: Some(HaltKind::UnterminatedLoop), ..m },
        }
    } else {
        StateModel { loop_loc: m.loop_loc.push(m.code_loc), code_loc: m.code_loc + 1, ..m }
    }
}

/// Transition for `Loop`: on a zero cell, discard the top of the
/// loop-return stack (if any) and fall through; on a non-zero cell, jump
/// back to the loop header on top of the stack without popping it, or fall
/// through when the stack is empty.
pub open spec fn step_loop(m: StateModel) -> StateModel {
    if cur_cell(m) == 0 {
        StateModel {
            loop_loc: if m.loop_loc.len() > 0 {
                m.loop_loc.drop_last()
            } else {
                m.loop_loc
            },
            code_loc: m.code_loc + 1,
            ..m
        }
    } else {
        if m.loop_loc.len() > 0 {
            StateModel { code_loc: m.loop_loc.last(), ..m }
        } else {
            StateModel { code_loc: m.code_loc + 1, ..m }
        }
    }
}

/// One fetch-decode-execute step of the machine; a state that is not
/// running is left unchanged.
pub open spec fn step_model(prog: Seq<Operator>, input: Seq<u8>, m: StateModel) -> StateModel {
    if !running(prog, m) {
        m
    } else {
        match prog[m.code_loc as int] {
            Operator::IncCell => step_inc_cell(m),
            Operator::DecCell => step_dec_cell(m),
            Operator::IncPtr => step_inc_ptr(m),
            Operator::DecPtr => step_dec_ptr(m),
            Operator::Print => step_print(m),
            Operator::Read => step_read(input, m),
            Operator::JumpZero => step_jump_zero(prog, m),
            Operator::Loop => step_loop(m),
        }
    }
}

/// The state after `n` steps from the start state.
pub open spec fn steps_model(prog: Seq<Operator>, input: Seq<u8>, n: nat) -> StateModel
    decreases n,
{
    if n == 0 {
        init_model()
    } else {
        step_model(prog, input, steps_model(prog, input, (n - 1) as nat))
    }
}

/// The run has come to rest within `n` steps.
pub open spec fn halted_within(prog: Seq<Operator>, input: Seq<u8>, n: nat) -> bool {
    !running(prog, steps_model(prog, input, n))
}

/// The run comes to rest after finitely many steps. Programs with an
/// endless loop fail this; the fetch-decode-execute loop then never ends.
pub open spec fn halts(prog: Seq<Operator>, input: Seq<u8>) -> bool {
    exists|n: nat| halted_within(prog, input, n)
}

/// The number of steps after which the run first comes to rest; meaningful
/// only when the run halts at all.
pub open spec fn least_halt(prog: Seq<Operator>, input: Seq<u8>) -> nat {
    choose|n: nat|
        halted_within(prog, input, n) && (forall|m: nat|
            m < n ==> !halted_within(prog, input, m))
}

/// A run that comes to rest within `n` steps has a first step at which it
/// does so, and runs before that step.
pub proof fn lemma_least_halt(prog: Seq<Operator>, input: Seq<u8>, n: nat)
    requires
        halted_within(prog, input, n),
    ensures
        halted_within(prog, input, least_halt(prog, input)),
        forall|m: nat| m < least_halt(prog, input) ==> !halted_within(prog, input, m),
    decreases n,
{
    if forall|m: nat| m < n ==> !#[trigger] halted_within(prog, input, m) {
        assert(exists|k: nat|
            halted_within(prog, input, k) && (forall|m: nat|
                m < k ==> !halted_within(prog, input, m)));
    } else {
        let m = choose|m: nat| m < n && #[trigger] halted_within(prog, input, m);
        lemma_least_halt(prog, input, m);
    }
}

impl State {
    /// A fresh execution state: the state a run starts from.
    pub fn new() -> (s: State)
        ensures
            s@ == init_model(),
    {
        let mut memory: Vec<u8> = Vec::new();
        while memory.len() < TAPE_LEN
            invariant
                memory@.len() <= TAPE_LEN,
                forall|i: int| 0 <= i < memory@.len() ==> memory@[i] == 0u8,
            decreases TAPE_LEN - memory@.len(),
        {
            memory.push(0);
        }
        let s = State {
            memory,
            code_loc: 0,
            data_loc: 0,
            input_loc: 0,
            loop_loc: Vec::new(),
            output: Vec::new(),
            exit: None,
        };
        proof {
            assert(s@ =~~= init_model());
        }
        s
    }
}

fn inc_cell(state: &mut State)
    requires
        old(state).data_loc < old(state).memory.len(),
        old(state).code_loc < usize::MAX,
    ensures
        final(state)@ == step_inc_cell(old(state)@),
{
    let x = state.memory[state.data_loc].checked_add(1);
    match x {
        Some(val) => {
            state.memory[state.data_loc] = val;
            state.code_loc = state.code_loc + 1;
        },
        None => {
            state.exit = Some(HaltKind::ArithmeticOverflow);
        },
    }
    proof {
        assert(state@ =~~= step_inc_cell(old(state)@));
    }
}

fn dec_cell(state: &mut State)
    requires
        old(state).data_loc < old(state).memory.len(),
        old(state).code_loc < usize::MAX,
    ensures
        final(state)@ == step_dec_cell(old(state)@),
{
    let x = state.memory[state.data_loc].checked_sub(1);
    match x {
        Some(val) => {
            state.memory[state.data_loc] = val;
            state.code_loc = state.code_loc + 1;
        },
        None => {
            state.exit = Some(HaltKind::ArithmeticUnderflow);
        },
    }
    proof {
        assert(state@ =~~= step_dec_cell(old(state)@));
    }
}

fn inc_ptr(state: &mut State)
    requires
        old(state).data_loc < old(state).memory.len(),
        old(state).code_loc < usize::MAX,
    ensures
        final(state)@ == step_inc_ptr(old(state)@),
{
    if state.data_loc == state.memory.len() - 1 {
        state.exit = Some(HaltKind::BoundsOverflow);
    } else {
        state.data_loc = state.data_loc + 1;
        state.code_loc = state.code_loc + 1;
    }
    proof {
        assert(state@ =~~= step_inc_ptr(old(state)@));
    }
}

fn dec_ptr(state: &mut State)
    requires
        old(state).code_loc < usize::MAX,
    ensures
        final(state)@ == step_dec_ptr(old(state)@),
{
    if state.data_loc == 0 {
        state.exit = Some(HaltKind::BoundsUnderflow);
    } else {
        state.data_loc = state.data_loc - 1;
        state.code_loc = state.code_loc + 1;
    }
    proof {
        assert(state@ =~~= step_dec_ptr(old(state)@));
    }
}

fn print_cell(state: &mut State)
    requires
        old(state).data_loc < old(state).memory.len(),
        old(state).code_loc < usize::MAX,
    ensures
        final(state)@ == step_print(old(state)@),
{
    let b = state.memory[state.data_loc];
    state.output.push(b as char);
    state.code_loc = state.code_loc + 1;
    proof {
        assert(state@ =~~= step_print(old(state)@));
    }
}

fn read_input(state: &mut State, input_bytes: &[u8])
    requires
        old(state).data_loc < old(state).memory.len(),
        old(state).code_loc < usize::MAX,
    ensures
        final(state)@ == step_read(input_bytes@, old(state)@),
{
    if state.input_loc < input_bytes.len() {
        state.memory[state.data_loc] = input_bytes[state.input_loc];
        state.input_loc = state.input_loc + 1;
    } else {
        state.memory[state.data_loc] = 0;
    }
    state.code_loc = state.code_loc + 1;
    proof {
        assert(state@ =~~= step_read(input_bytes@, old(state)@));
    }
}

/// The forward bracket-matching scan: the position of the `Loop`
/// instruction that closes the loop a scan from `start` (at nesting depth
/// zero) is inside of, or `None` when the program ends first.
fn scan_close(tokens: &Vec<Operator>, start: usize) -> (r: Option<usize>)
    ensures
        match r {
            Some(j) => find_close(tokens@, start as int, 0) == Some(j as int) && j
                < tokens@.len(),
            None => find_close(tokens@, start as int, 0) is None,
        },
{
    let n = tokens.len();
    let mut j = start;
    let mut depth: usize = 0;
    while j < n
        invariant
            j <= n || j == start,
            n == tokens@.len(),
            depth <= j,
            find_close(tokens@, start as int, 0) == find_close(tokens@, j as int, depth as nat),
        decreases n - j,
    {
        match tokens[j] {
            Operator::Loop => {
                if depth == 0 {
                    return Some(j);
                } else {
                    depth = depth - 1;
                }
            },
            Operator::JumpZero => {
                depth = depth + 1;
            },
            _ => {},
        }
        j = j + 1;
    }
    None
}

fn jump_zero(state: &mut State, tokens: &Vec<Operator>)
    requires
        old(state).data_loc < old(state).memory.len(),
        old(state).code_loc < tokens@.len(),
    ensures
        final(state)@ == step_jump_zero(tokens@, old(state)@),
{
    proof {
        assert(tokens.len() == tokens@.len());
    }
    let memory_value = state.memory[state.data_loc];
    if memory_value == 0 {
        match scan_close(tokens, state.code_loc + 1) {
            Some(j) => {
                state.code_loc = j + 1;
            },
            None => {
                state.exit = Some(HaltKind::UnterminatedLoop);
            },
        }
    } else {
        state.loop_loc.push(state.code_loc);
        state.code_loc = state.code_loc + 1;
    }
    proof {
        assert(state@.loop_loc =~= step_jump_zero(tokens@, old(state)@).loop_loc);
        assert(state@ =~~= step_jump_zero(tokens@, old(state)@));
    }
}

fn loop_jump(state: &mut State)
    requires
        old(state).data_loc < old(state).memory.len(),
        old(state).code_loc < usize::MAX,
    ensures
        final(state)@ == step_loop(old(state)@),
{
    if state.memory[state.data_loc] == 0 {
        if state.loop_loc.len() > 0 {
            state.loop_loc.pop();
        }
        state.code_loc = state.code_loc + 1;
    } else {
        if state.loop_loc.len() > 0 {
            state.code_loc = state.loop_loc[state.loop_loc.len() - 1];
        } else {
            state.code_loc = state.code_loc + 1;
        }
    }
    proof {
        assert(state@.loop_loc =~= step_loop(old(state)@).loop_loc);
        assert(state@ =~~= step_loop(old(state)@));
    }
}

/// A state the machine can actually be in while running `prog` on `input`:
/// the tape keeps its fixed length, the data pointer stays on the tape, the
/// instruction pointer stays within the program (one past its end at most),
/// the input cursor never passes the end of the input, and the loop-return
/// stack holds only positions of `JumpZero` instructions.
pub open spec fn wf_state(prog: Seq<Operator>, input: Seq<u8>, m: StateModel) -> bool {
    &&& m.memory.len() == TAPE_LEN
    &&& m.data_loc < m.memory.len()
    &&& m.code_loc <= prog.len()
    &&& m.input_loc <= input.len()
    &&& forall|i: int|
        0 <= i < m.loop_loc.len() ==> (#[trigger] m.loop_loc[i]) < prog.len() && prog[m.loop_loc[i] as int] is JumpZero
}

/// A successful forward scan stops on a `Loop` instruction inside the
/// program, at or after where it started.
pub proof fn lemma_find_close_in_range(prog: Seq<Operator>, j: int, depth: nat)
    ensures
        match find_close(prog, j, depth) {
            Some(r) => j <= r < prog.len() && prog[r] is Loop,
            None => true,
        },
    decreases prog.len() - j,
{
    if j < 0 || j >= prog.len() {
    } else {
        match prog[j] {
            Operator::Loop => if depth == 0 {
            } else {
                lemma_find_close_in_range(prog, j + 1, (depth - 1) as nat);
            },
            Operator::JumpZero => lemma_find_close_in_range(prog, j + 1, depth + 1),
            _ => lemma_find_close_in_range(prog, j + 1, depth),
        }
    }
}

/// Taking one step preserves well-formedness: no operator moves a pointer
/// or a cursor outside its range, and nothing but a taken `JumpZero` enters
/// the loop-return stack.
pub proof fn lemma_step_preserves_wf(prog: Seq<Operator>, input: Seq<u8>, m: StateModel)
    requires
        wf_state(prog, input, m),
    ensures
        wf_state(prog, input, step_model(prog, input, m)),
{
    if running(prog, m) {
        match prog[m.code_loc as int] {
            Operator::JumpZero => {
                lemma_find_close_in_range(prog, m.code_loc + 1int, 0);
            },
            _ => {},
        }
    }
}

/// Every reachable state is well-formed: the range invariants of the data
/// model hold throughout any run.
pub proof fn lemma_steps_wf(prog: Seq<Operator>, input: Seq<u8>, n: nat)
    ensures
        wf_state(prog, input, steps_model(prog, input, n)),
    decreases n,
{
    if n > 0 {
        lemma_steps_wf(prog, input, (n - 1) as nat);
        lemma_step_preserves_wf(prog, input, steps_model(prog, input, (n - 1) as nat));
    }
}

/// The input cursor never moves backwards: a step leaves it where it is or
/// advances it by one.
pub proof fn lemma_input_cursor_monotone(prog: Seq<Operator>, input: Seq<u8>, m: StateModel)
    ensures
        m.input_loc <= step_model(prog, input, m).input_loc <= m.input_loc + 1,
{
}

/// Once the halt descriptor is set, a step changes nothing: tape, pointers
/// and output stay exactly as they were when the halt was recorded.
pub proof fn lemma_halted_state_is_final(prog: Seq<Operator>, input: Seq<u8>, m: StateModel)
    requires
        m.exit is Some,
    ensures
        step_model(prog, input, m) == m,
{
}

/// A run that has come to rest stays at rest: every later state equals the
/// state at the first step the machine stopped running.
pub proof fn lemma_halted_run_stalls(prog: Seq<Operator>, input: Seq<u8>, n: nat, m: nat)
    requires
        !running(prog, steps_model(prog, input, n)),
        n <= m,
    ensures
        steps_model(prog, input, m) == steps_model(prog, input, n),
    decreases m - n,
{
    if n < m {
        lemma_halted_run_stalls(prog, input, n, (m - 1) as nat);
    }
}

/// One fetch-decode-execute step: decodes the operator under the
/// instruction pointer and applies its transition; does nothing when the
/// machine is no longer running.
pub fn step(state: &mut State, tokens: &Vec<Operator>, input_bytes: &[u8])
    requires
        old(state).data_loc < old(state).memory.len(),
    ensures
        final(state)@ == step_model(tokens@, input_bytes@, old(state)@),
{
    if state.exit.is_none() && state.code_loc < tokens.len() {
        let operator = tokens[state.code_loc];
        match operator {
            Operator::IncCell => inc_cell(state),
            Operator::DecCell => dec_cell(state),
            Operator::IncPtr => inc_ptr(state),
            Operator::DecPtr => dec_ptr(state),
            Operator::Print => print_cell(state),
            Operator::Read => read_input(state, input_bytes),
            Operator::JumpZero => jump_zero(state, tokens),
            Operator::Loop => loop_jump(state),
        }
    }
}

/// Runs the program on the given input until the machine comes to rest,
/// and returns the final state: the run either ends normally, with the
/// instruction pointer past the end of the program and no halt descriptor,
/// or abnormally, with the descriptor naming the fault. A program that
/// never comes to rest on this input keeps the fetch-decode-execute loop
/// going forever, so a finite run is asked of the caller.
pub fn interpret(tokens: Vec<Operator>, input: String) -> (state: State)
    requires
        halts(tokens@, encode_utf8(input@)),
    ensures
        !running(tokens@, state@),
        state@ == steps_model(
            tokens@,
            encode_utf8(input@),
            least_halt(tokens@, encode_utf8(input@)),
        ),
        wf_state(tokens@, encode_utf8(input@), state@),
{
    let input_bytes: &[u8] = input.as_str().as_bytes();
    let ghost prog = tokens@;
    let ghost ibytes = input_bytes@;
    let mut state = State::new();
    let ghost mut k: nat = 0;
    proof {
        assert(ibytes == encode_utf8(input@));
        let h = choose|n: nat| halted_within(prog, ibytes, n);
        lemma_least_halt(prog, ibytes, h);
        lemma_steps_wf(prog, ibytes, 0);
    }
    let instructions = tokens.len();
    while (state.code_loc < instructions) && state.exit.is_none()
        invariant
            instructions == tokens@.len(),
            tokens@ == prog,
            input_bytes@ == ibytes,
            ibytes == encode_utf8(input@),
            halted_within(prog, ibytes, least_halt(prog, ibytes)),
            forall|m: nat| m < least_halt(prog, ibytes) ==> !halted_within(prog, ibytes, m),
            state@ == steps_model(prog, ibytes, k),
            k <= least_halt(prog, ibytes),
            wf_state(prog, ibytes, state@),
        decreases least_halt(prog, ibytes) - k,
    {
        proof {
            assert(running(prog, state@));
            assert(!halted_within(prog, ibytes, k));
            assert(k < least_halt(prog, ibytes));
        }
        step(&mut state, &tokens, input_bytes);
        proof {
            lemma_step_preserves_wf(prog, ibytes, steps_model(prog, ibytes, k));
            k = k + 1;
            assert(state@ == steps_model(prog, ibytes, k));
        }
    }
    proof {
        assert(halted_within(prog, ibytes, k));
        assert(k == least_halt(prog, ibytes));
    }
    state
}

} // verus!
