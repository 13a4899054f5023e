//! A verified interpreter for the Brainfuck language.
//!
//! The interpreter executes a program, given as a sequence of characters,
//! on a fixed-length tape of byte cells with a single data pointer.
//! Its behaviour is specified by a small-step transition function over a
//! mathematical model of the machine state; the executable engine is
//! proved to follow that transition function exactly.

pub mod laws;
pub mod machine;
pub mod semantics;
