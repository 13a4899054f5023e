//! The executable engine.  A `Machine` owns one execution: the program,
//! the tape, both pointers, the unread input bytes and the output bytes
//! produced so far.  Every operation is proved to follow the transition
//! function of `semantics` exactly.

use crate::laws::lemma_step_preserves_wf;
use crate::semantics;
use crate::semantics::{
    find_close, find_open, init_state, result_of, steps, wants_input, wf, ErrorKind, State, Status,
    MAX_DATA_SIZE,
};
use vstd::prelude::*;

verus! {

/// One execution of one program.  Created fresh for each run; nothing
/// persists across runs.
pub struct Machine {
    code: Vec<char>,
    ip: usize,
    tape: Vec<u8>,
    dp: usize,
    input: Vec<u8>,
    output: Vec<u8>,
    status: Status,
}

impl View for Machine {
    type V = State;

    closed spec fn view(&self) -> State {
        State {
            code: self.code@,
            ip: self.ip as nat,
            tape: self.tape@,
            dp: self.dp as nat,
            input: self.input@,
            output: self.output@,
            status: self.status,
        }
    }
}

/// Forward scan for the `]` matching a `[`: a linear walk from `start`
/// that keeps a nesting depth, starting at one outstanding `[`.
fn scan_forward(code: &Vec<char>, start: usize) -> (r: Option<usize>)
    requires
        1 <= start <= code@.len(),
    ensures
        match r {
            Some(k) => find_close(code@, start as int, 1) == Some(k as int)
                && start <= k < code@.len(),
            None => find_close(code@, start as int, 1) is None,
        },
{
    let mut j: usize = start;
    let mut depth: usize = 1;
    while j < code.len()
        invariant
            1 <= start,
            start <= j <= code@.len(),
            1 <= depth,
            depth <= j - start + 1,
            find_close(code@, j as int, depth as int) == find_close(code@, start as int, 1),
        decreases code@.len() - j,
    {
        let c: char = code[j];
        if c == ']' {
            if depth == 1 {
                return Some(j);
            }
            depth = depth - 1;
        } else if c == '[' {
            depth = depth + 1;
        }
        j = j + 1;
    }
    None
}

/// Backward scan for the `[` matching the `]` at position `from`: a
/// linear walk toward the start of the program, starting at one
/// outstanding `]`.
fn scan_backward(code: &Vec<char>, from: usize) -> (r: Option<usize>)
    requires
        from < code@.len(),
    ensures
        match r {
            Some(k) => find_open(code@, from as int - 1, 1) == Some(k as int) && k < from,
            None => find_open(code@, from as int - 1, 1) is None,
        },
{
    if from == 0 {
        return None;
    }
    let n: usize = code.len();
    let mut j: usize = from - 1;
    let mut depth: usize = 1;
    loop
        invariant
            n == code@.len(),
            j as int <= from as int - 1,
            from < n,
            1 <= depth,
            depth as int <= from as int - j as int,
            find_open(code@, j as int, depth as int) == find_open(code@, from as int - 1, 1),
        decreases j,
    {
        let c: char = code[j];
        if c == '[' {
            if depth == 1 {
                return Some(j);
            }
            depth = depth - 1;
        } else if c == ']' {
            depth = depth + 1;
        }
        if j == 0 {
            proof {
                assert(find_open(code@, -1, depth as int) is None);
            }
            return None;
        }
        j = j - 1;
    }
}

impl Machine {
    /// A fresh machine for one run of `code` with `input` waiting to be
    /// read: all cells zero, both pointers at zero, no output.
    pub fn new(code: Vec<char>, input: Vec<u8>) -> (m: Machine)
        ensures
            m@ == init_state(code@, input@),
            wf(m@),
    {
        let ghost code0 = code@;
        let ghost input0 = input@;
        let mut tape: Vec<u8> = Vec::new();
        let mut i: usize = 0;
        while i < MAX_DATA_SIZE
            invariant
                i <= MAX_DATA_SIZE,
                tape@.len() == i,
                forall|k: int| 0 <= k < i ==> tape@[k] == 0u8,
            decreases MAX_DATA_SIZE - i,
        {
            tape.push(0);
            i = i + 1;
        }
        let m = Machine {
            code,
            ip: 0,
            tape,
            dp: 0,
            input,
            output: Vec::new(),
            status: Status::Running,
        };
        proof {
            assert(m@.tape =~= init_state(code0, input0).tape);
            assert(m@ =~= init_state(code0, input0));
        }
        m
    }

    /// Whether the machine has neither halted nor failed.
    pub fn is_running(&self) -> (r: bool)
        ensures
            r == (self@.status is Running),
    {
        matches!(self.status, Status::Running)
    }

    /// Whether the next step would consume an input byte the machine does
    /// not have.  A caller that wires in an interactive input source asks
    /// this before each step and pushes a byte when it holds; stepping
    /// anyway reads end of input, which leaves the cell unchanged.
    pub fn needs_input(&self) -> (r: bool)
        ensures
            r == wants_input(self@),
    {
        matches!(self.status, Status::Running) && self.ip < self.code.len()
            && self.code[self.ip] == ',' && self.input.len() == 0
    }

    /// Appends one byte to the input the machine has yet to read.
    pub fn push_input(&mut self, b: u8)
        ensures
            final(self)@ == (State { input: old(self)@.input.push(b), ..old(self)@ }),
    {
        self.input.push(b);
    }

    /// The output bytes emitted so far by `.` instructions.
    pub fn output(&self) -> (out: &Vec<u8>)
        ensures
            out@ == self@.output,
    {
        &self.output
    }

    /// The value of tape cell `i`.
    pub fn cell(&self, i: usize) -> (v: u8)
        requires
            i < self@.tape.len(),
        ensures
            v == self@.tape[i as int],
    {
        self.tape[i]
    }

    /// The current position of the data pointer.
    pub fn data_ptr(&self) -> (p: usize)
        ensures
            p == self@.dp,
    {
        self.dp
    }

    /// The outcome of the run: `Ok` after a normal halt, the fatal error
    /// after a failure, and nothing while the machine is still running.
    pub fn result(&self) -> (r: Option<Result<(), ErrorKind>>)
        ensures
            r == result_of(self@),
    {
        match self.status {
            Status::Running => None,
            Status::Halted => Some(Ok(())),
            Status::Failed(e) => Some(Err(e)),
        }
    }

    /// Executes one step: exactly one instruction, or the halt when the
    /// instruction pointer has reached the end of the program.  A machine
    /// that has already stopped is left unchanged.  Returns the byte this
    /// step emitted, if the instruction was `.`.
    pub fn step(&mut self) -> (emitted: Option<u8>)
        requires
            wf(old(self)@),
        ensures
            final(self)@ == semantics::step(old(self)@),
            wf(final(self)@),
            emitted == semantics::emitted(old(self)@),
    {
        proof {
            lemma_step_preserves_wf(old(self)@);
        }
        match self.status {
            Status::Running => {},
            _ => {
                return None;
            },
        }
        if self.ip >= self.code.len() {
            self.status = Status::Halted;
            return None;
        }
        let c: char = self.code[self.ip];
        match c {
            '>' => {
                if self.dp + 1 < self.tape.len() {
                    self.dp = self.dp + 1;
                    self.ip = self.ip + 1;
                } else {
                    self.status = Status::Failed(ErrorKind::PointerOutOfBounds { to_left: false });
                }
                None
            },
            '<' => {
                if self.dp == 0 {
                    self.status = Status::Failed(ErrorKind::PointerOutOfBounds { to_left: true });
                } else {
                    self.dp = self.dp - 1;
                    self.ip = self.ip + 1;
                }
                None
            },
            '+' => {
                let v: u8 = self.tape[self.dp];
                let w: u8 = if v == 255 { 0 } else { v + 1 };
                self.tape.set(self.dp, w);
                self.ip = self.ip + 1;
                None
            },
            '-' => {
                let v: u8 = self.tape[self.dp];
                let w: u8 = if v == 0 { 255 } else { v - 1 };
                self.tape.set(self.dp, w);
                self.ip = self.ip + 1;
                None
            },
            '.' => {
                let b: u8 = self.tape[self.dp];
                self.output.push(b);
                self.ip = self.ip + 1;
                Some(b)
            },
            ',' => {
                if self.input.len() > 0 {
                    let b: u8 = self.input.remove(0);
                    self.tape.set(self.dp, b);
                    proof {
                        assert(self@.input =~= old(self)@.input.drop_first());
                    }
                }
                self.ip = self.ip + 1;
                None
            },
            '[' => {
                if self.tape[self.dp] == 0 {
                    match scan_forward(&self.code, self.ip + 1) {
                        Some(k) => {
                            self.ip = k + 1;
                        },
                        None => {
                            self.status = Status::Failed(
                                ErrorKind::UnmatchedBracket { opening: true },
                            );
                        },
                    }
                } else {
                    self.ip = self.ip + 1;
                }
                None
            },
            ']' => {
                if self.tape[self.dp] != 0 {
                    match scan_backward(&self.code, self.ip) {
                        Some(k) => {
                            self.ip = k + 1;
                        },
                        None => {
                            self.status = Status::Failed(
                                ErrorKind::UnmatchedBracket { opening: false },
                            );
                        },
                    }
                } else {
                    self.ip = self.ip + 1;
                }
                None
            },
            _ => {
                self.ip = self.ip + 1;
                None
            },
        }
    }
}

/// Runs `code` on a fresh machine that will read from `input`, for at
/// most `max_steps` steps.  The returned machine is some number of steps
/// of the transition function from the fresh state, and it is still
/// running only if the whole budget was spent.  A caller that must run a
/// program to its end drives `step` itself.
pub fn run(code: Vec<char>, input: Vec<u8>, max_steps: u64) -> (m: Machine)
    ensures
        wf(m@),
        (exists|n: nat|
            {
                &&& n <= max_steps
                &&& m@ == steps(init_state(code@, input@), n)
                &&& (m@.status is Running ==> n == max_steps)
            }),
{
    let ghost init = init_state(code@, input@);
    let mut m = Machine::new(code, input);
    let mut remaining: u64 = max_steps;
    let ghost mut n: nat = 0;
    while remaining > 0 && m.is_running()
        invariant
            wf(m@),
            m@ == steps(init, n),
            n + remaining == max_steps,
        decreases remaining,
    {
        m.step();
        remaining = remaining - 1;
        proof {
            n = n + 1;
        }
    }
    proof {
        assert(n <= max_steps && m@ == steps(init, n) && (m@.status is Running ==> n
            == max_steps));
    }
    m
}

} // verus!
