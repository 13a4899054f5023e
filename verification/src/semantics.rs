//! The mathematical model of the interpreter: the machine state, the
//! meaning of each instruction, and the small-step transition function.
//!
//! Eight characters are instructions (`>`, `<`, `+`, `-`, `.`, `,`, `[`,
//! `]`); every other character is a no-op.  Bracket matching is a lazy
//! nesting-depth scan performed when a `[` or `]` takes its branch, so an
//! imbalance is only detected when such a scan runs off the end (or the
//! start) of the program.

use vstd::prelude::*;

verus! {

/// Number of byte cells on the tape.  The data pointer always stays in
/// `[0, MAX_DATA_SIZE)`.
pub const MAX_DATA_SIZE: usize = 32768;

/// A fatal condition that ends a run immediately.
#[derive(Clone, Copy, Debug, PartialEq, Eq, Structural)]
pub enum ErrorKind {
    /// The data pointer would have left the tape.  `to_left` tells the
    /// left-bound case (a `<` at cell 0) from the right-bound case (a `>`
    /// at the last cell).
    PointerOutOfBounds { to_left: bool },
    /// A bracket-matching scan exhausted the program before reaching
    /// balance.  `opening` tells an unmatched `[` (forward scan) from an
    /// unmatched `]` (backward scan).
    UnmatchedBracket { opening: bool },
}

/// Whether a machine is still running, has halted normally, or has
/// stopped with a fatal error.
#[derive(Clone, Copy, Debug, PartialEq, Eq, Structural)]
pub enum Status {
    Running,
    Halted,
    Failed(ErrorKind),
}

/// The complete state of one execution: the immutable program, the
/// instruction pointer, the tape with its data pointer, the input bytes
/// not yet consumed, the output bytes produced so far, and the status.
#[verifier::ext_equal]
pub struct State {
    pub code: Seq<char>,
    pub ip: nat,
    pub tape: Seq<u8>,
    pub dp: nat,
    pub input: Seq<u8>,
    pub output: Seq<u8>,
    pub status: Status,
}

/// Well-formedness: the tape has its fixed length, the data pointer is on
/// the tape, and the instruction pointer is within `[0, code.len()]`.
pub open spec fn wf(s: State) -> bool {
    &&& s.tape.len() == MAX_DATA_SIZE
    &&& s.dp < MAX_DATA_SIZE
    &&& s.ip <= s.code.len()
}

/// The state a fresh run starts from: all cells zero, both pointers at
/// zero, no output yet.
pub open spec fn init_state(code: Seq<char>, input: Seq<u8>) -> State {
    State {
        code,
        ip: 0,
        tape: Seq::new(MAX_DATA_SIZE as nat, |i: int| 0u8),
        dp: 0,
        input,
        output: Seq::empty(),
        status: Status::Running,
    }
}

/// A cell incremented by `+`: wraparound modulo 256, so `255 + 1 == 0`.
pub open spec fn inc_cell(v: u8) -> u8 {
    if v == 255 { 0 } else { (v + 1) as u8 }
}

/// A cell decremented by `-`: wraparound modulo 256, so `0 - 1 == 255`.
pub open spec fn dec_cell(v: u8) -> u8 {
    if v == 0 { 255 } else { (v - 1) as u8 }
}

/// Forward bracket scan.  Starting at position `j` with `depth` open
/// brackets outstanding, the position of the `]` that brings the balance
/// to zero, or `None` if the scan reaches the end of the program first.
pub open spec fn find_close(code: Seq<char>, j: int, depth: int) -> Option<int>
    decreases code.len() - j,
{
    if j >= code.len() {
        None
    } else if code[j] == ']' {
        if depth == 1 {
            Some(j)
        } else {
            find_close(code, j + 1, depth - 1)
        }
    } else if code[j] == '[' {
        find_close(code, j + 1, depth + 1)
    } else {
        find_close(code, j + 1, depth)
    }
}

/// Backward bracket scan.  Starting at position `j` with `depth` close
/// brackets outstanding, the position of the `[` that brings the balance
/// to zero, or `None` if the scan passes the start of the program first.
pub open spec fn find_open(code: Seq<char>, j: int, depth: int) -> Option<int>
    decreases j + 1,
{
    if j < 0 {
        None
    } else if code[j] == '[' {
        if depth == 1 {
            Some(j)
        } else {
            find_open(code, j - 1, depth - 1)
        }
    } else if code[j] == ']' {
        find_open(code, j - 1, depth + 1)
    } else {
        find_open(code, j - 1, depth)
    }
}

/// One step of execution.  A machine that is not running is left as it
/// is; a machine whose instruction pointer has reached the end of the
/// program halts; otherwise the instruction under the pointer executes.
/// Bounds are checked before the data pointer moves, so a failing step
/// changes nothing but the status.
pub open spec fn step(s: State) -> State {
    if !(s.status is Running) {
        s
    } else if s.ip >= s.code.len() {
        State { status: Status::Halted, ..s }
    } else {
        let c = s.code[s.ip as int];
        if c == '>' {
            if s.dp + 1 < s.tape.len() {
                State { dp: s.dp + 1, ip: s.ip + 1, ..s }
            } else {
                State {
                    status: Status::Failed(ErrorKind::PointerOutOfBounds { to_left: false }),
                    ..s
                }
            }
        } else if c == '<' {
            if s.dp == 0 {
                State {
                    status: Status::Failed(ErrorKind::PointerOutOfBounds { to_left: true }),
                    ..s
                }
            } else {
                State { dp: (s.dp - 1) as nat, ip: s.ip + 1, ..s }
            }
        } else if c == '+' {
            State {
                tape: s.tape.update(s.dp as int, inc_cell(s.tape[s.dp as int])),
                ip: s.ip + 1,
                ..s
            }
        } else if c == '-' {
            State {
                tape: s.tape.update(s.dp as int, dec_cell(s.tape[s.dp as int])),
                ip: s.ip + 1,
                ..s
            }
        } else if c == '.' {
            State { output: s.output.push(s.tape[s.dp as int]), ip: s.ip + 1, ..s }
        } else if c == ',' {
            if s.input.len() > 0 {
                State {
                    tape: s.tape.update(s.dp as int, s.input[0]),
                    input: s.input.drop_first(),
                    ip: s.ip + 1,
                    ..s
                }
            } else {
                // End of input: the cell is left unchanged and execution
                // continues.
                State { ip: s.ip + 1, ..s }
            }
        } else if c == '[' {
            if s.tape[s.dp as int] == 0 {
                match find_close(s.code, s.ip as int + 1, 1) {
                    Some(j) => State { ip: (j + 1) as nat, ..s },
                    None => State {
                        status: Status::Failed(ErrorKind::UnmatchedBracket { opening: true }),
                        ..s
                    },
                }
            } else {
                State { ip: s.ip + 1, ..s }
            }
        } else if c == ']' {
            if s.tape[s.dp as int] != 0 {
                match find_open(s.code, s.ip - 1, 1) {
                    Some(j) => State { ip: (j + 1) as nat, ..s },
                    None => State {
                        status: Status::Failed(ErrorKind::UnmatchedBracket { opening: false }),
                        ..s
                    },
                }
            } else {
                State { ip: s.ip + 1, ..s }
            }
        } else {
            State { ip: s.ip + 1, ..s }
        }
    }
}

/// The state after `n` steps.
pub open spec fn steps(s: State, n: nat) -> State
    decreases n,
{
    if n == 0 {
        s
    } else {
        step(steps(s, (n - 1) as nat))
    }
}

/// The byte a step emits: the current cell when the instruction under the
/// pointer is `.`, and nothing otherwise.
pub open spec fn emitted(s: State) -> Option<u8> {
    if s.status is Running && s.ip < s.code.len() && s.code[s.ip as int] == '.' {
        Some(s.tape[s.dp as int])
    } else {
        None
    }
}

/// Whether the next step would consume an input byte that the machine
/// does not have: the instruction under the pointer is `,` and the input
/// buffer is empty.
pub open spec fn wants_input(s: State) -> bool {
    &&& s.status is Running
    &&& s.ip < s.code.len()
    &&& s.code[s.ip as int] == ','
    &&& s.input.len() == 0
}

/// The outcome of a finished run: `Ok` after a normal halt, the error
/// after a failure, and nothing while the machine is still running.
pub open spec fn result_of(s: State) -> Option<Result<(), ErrorKind>> {
    match s.status {
        Status::Running => None,
        Status::Halted => Some(Ok(())),
        Status::Failed(e) => Some(Err(e)),
    }
}

} // verus!
