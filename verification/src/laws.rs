//! Proved laws of the semantics: wraparound arithmetic closes on itself,
//! execution never leaves the tape, and a run's outcome is unique.

use crate::semantics::{
    dec_cell, find_close, find_open, inc_cell, step, steps, wf, State,
};
use vstd::prelude::*;

verus! {

/// A cell incremented `n` times by `+`.
pub open spec fn iter_inc(v: u8, n: nat) -> u8
    decreases n,
{
    if n == 0 {
        v
    } else {
        inc_cell(iter_inc(v, (n - 1) as nat))
    }
}

/// A cell decremented `n` times by `-`.
pub open spec fn iter_dec(v: u8, n: nat) -> u8
    decreases n,
{
    if n == 0 {
        v
    } else {
        dec_cell(iter_dec(v, (n - 1) as nat))
    }
}

/// As long as the count stays below a full cycle and a bit, `n`
/// increments amount to adding `n` modulo 256.
proof fn lemma_iter_inc_value(v: u8, n: nat)
    requires
        v + n <= 511,
    ensures
        iter_inc(v, n) == (if v + n < 256 { v + n } else { v + n - 256 }),
    decreases n,
{
    if n > 0 {
        lemma_iter_inc_value(v, (n - 1) as nat);
    }
}

/// As long as the count stays within one cycle, `n` decrements amount to
/// subtracting `n` modulo 256.
proof fn lemma_iter_dec_value(v: u8, n: nat)
    requires
        n <= 256,
    ensures
        iter_dec(v, n) == (if v - n >= 0 { v - n } else { v - n + 256 }),
    decreases n,
{
    if n > 0 {
        lemma_iter_dec_value(v, (n - 1) as nat);
    }
}

/// Wraparound closure under `+`: incrementing any byte value 256 times
/// returns it to itself.
pub proof fn lemma_increment_cycle(v: u8)
    ensures
        iter_inc(v, 256) == v,
{
    lemma_iter_inc_value(v, 256);
}

/// Wraparound closure under `-`: decrementing any byte value 256 times
/// returns it to itself.
pub proof fn lemma_decrement_cycle(v: u8)
    ensures
        iter_dec(v, 256) == v,
{
    lemma_iter_dec_value(v, 256);
}

/// A successful forward scan stops on a `]` inside the program, at or
/// after where it started.
pub proof fn lemma_find_close_bounds(code: Seq<char>, j: int, depth: int)
    requires
        0 <= j,
    ensures
        find_close(code, j, depth) matches Some(k) ==> j <= k < code.len() && code[k] == ']',
    decreases code.len() - j,
{
    if j >= code.len() {
    } else if code[j] == ']' {
        if depth != 1 {
            lemma_find_close_bounds(code, j + 1, depth - 1);
        }
    } else if code[j] == '[' {
        lemma_find_close_bounds(code, j + 1, depth + 1);
    } else {
        lemma_find_close_bounds(code, j + 1, depth);
    }
}

/// A successful backward scan stops on a `[` at or before where it
/// started.
pub proof fn lemma_find_open_bounds(code: Seq<char>, j: int, depth: int)
    ensures
        find_open(code, j, depth) matches Some(k) ==> 0 <= k <= j && code[k] == '[',
    decreases j + 1,
{
    if j < 0 {
    } else if code[j] == '[' {
        if depth != 1 {
            lemma_find_open_bounds(code, j - 1, depth - 1);
        }
    } else if code[j] == ']' {
        lemma_find_open_bounds(code, j - 1, depth + 1);
    } else {
        lemma_find_open_bounds(code, j - 1, depth);
    }
}

/// One step keeps the machine well formed: the program and the tape
/// length never change, and the data pointer stays on the tape.  Bounds
/// are checked before the pointer moves, so even a failing step reads and
/// writes nothing outside the tape.
pub proof fn lemma_step_preserves_wf(s: State)
    requires
        wf(s),
    ensures
        wf(step(s)),
        step(s).code == s.code,
        step(s).tape.len() == s.tape.len(),
{
    if s.status is Running && s.ip < s.code.len() {
        let c = s.code[s.ip as int];
        if c == '[' {
            lemma_find_close_bounds(s.code, s.ip as int + 1, 1);
        } else if c == ']' {
            lemma_find_open_bounds(s.code, s.ip - 1, 1);
        }
    }
}

/// Any number of steps keeps the machine well formed: nothing outside the
/// tape is ever written or read, whatever the instruction sequence.
pub proof fn lemma_execution_stays_on_tape(s: State, n: nat)
    requires
        wf(s),
    ensures
        wf(steps(s, n)),
        steps(s, n).code == s.code,
        steps(s, n).tape.len() == s.tape.len(),
    decreases n,
{
    if n > 0 {
        lemma_execution_stays_on_tape(s, (n - 1) as nat);
        lemma_step_preserves_wf(steps(s, (n - 1) as nat));
    }
}

/// Stepping a machine that has halted or failed changes nothing.
pub proof fn lemma_stopped_absorbs(s: State, n: nat)
    requires
        !(s.status is Running),
    ensures
        steps(s, n) == s,
    decreases n,
{
    if n > 0 {
        lemma_stopped_absorbs(s, (n - 1) as nat);
    }
}

/// Steps compose: `a + b` steps are `a` steps followed by `b` steps.
pub proof fn lemma_steps_split(s: State, a: nat, b: nat)
    ensures
        steps(s, a + b) == steps(steps(s, a), b),
    decreases b,
{
    if b > 0 {
        lemma_steps_split(s, a, (b - 1) as nat);
    }
}

/// The outcome of a run is unique: execution is deterministic and a
/// stopped machine stays stopped, so if two step counts both reach a
/// stopped state, they reach the same state.
pub proof fn lemma_outcome_unique(s: State, n1: nat, n2: nat)
    requires
        !(steps(s, n1).status is Running),
        !(steps(s, n2).status is Running),
    ensures
        steps(s, n1) == steps(s, n2),
{
    if n1 <= n2 {
        lemma_steps_split(s, n1, (n2 - n1) as nat);
        lemma_stopped_absorbs(steps(s, n1), (n2 - n1) as nat);
    } else {
        lemma_steps_split(s, n2, (n1 - n2) as nat);
        lemma_stopped_absorbs(steps(s, n2), (n1 - n2) as nat);
    }
}

} // verus!
