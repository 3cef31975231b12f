//! Verified core of a small JIT execution harness.
//!
//! The harness loads a precompiled bitcode module, compiles it just in
//! time and runs one exported function on numbers that the user enters.
//! Symbols that the module refers to but does not define are supplied
//! from a small table of native functions.
//!
//! This crate holds what the harness decides; it calls no engine and
//! touches no terminal. The program around it makes those calls and hands
//! over what came of them as plain values.
//!
//! - [`names`]: the canonical form of a linker-decorated symbol name.
//! - [`resolver`]: from a canonical name to the address of a native
//!   fallback.
//! - [`bridge`]: the definitions that answer a batch of undefined symbols.
//! - [`host`]: the order in which the JIT host is set up and used.
//! - [`launch`]: the command line, and whether the module could be loaded.
//! - [`runner`]: the dialogue with the user, as a state machine.
//! - [`decimal`]: the decimal text of the numbers in that dialogue.
//! - [`fatal`]: the conditions that end a run, and the exit code.
//! - [`prime_factors`]: prime factorisation by trial division, a function
//!   of the kind that a module for the harness exports.

pub mod bridge;
pub mod decimal;
pub mod fatal;
pub mod host;
pub mod launch;
pub mod names;
pub mod prime_factors;
pub mod resolver;
pub mod runner;
