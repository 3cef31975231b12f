//! The conditions that end a run. None of them is retried: the harness
//! reports the condition and the process exits.

use vstd::prelude::*;

verus! {

/// Why a run ended before the user asked for it.
#[derive(Clone, Copy, Debug, PartialEq, Eq, Structural)]
pub enum Fatal {
    /// The required argument, the bitcode file, is missing.
    UsageError,
    /// The bitcode file cannot be read.
    IOError,
    /// The file's content is no well-formed module.
    ParseDiagnostic,
    /// The compilation engine signalled an error where none is expected:
    /// a rejected module, a failed registration, a failed lookup.
    EngineInvariantViolation,
    /// The user entered an operand that is no number.
    InputFormatError,
}

/// Exit code of a run that the user ended.
pub const EXIT_SUCCESS: i32 = 0;

/// Exit code of a run that a fatal condition ended.
pub const EXIT_FAILURE: i32 = 1;

/// The exit code that reports `outcome`.
pub open spec fn exit_code_of(outcome: Result<(), Fatal>) -> i32 {
    match outcome {
        Ok(_) => EXIT_SUCCESS,
        Err(_) => EXIT_FAILURE,
    }
}

/// The process exit code for the way a run ended: zero when the user ended
/// it, non-zero for every fatal condition.
pub fn exit_code(outcome: Result<(), Fatal>) -> (code: i32)
    ensures
        code == exit_code_of(outcome),
        code == 0 <==> outcome is Ok,
{
    match outcome {
        Ok(_) => EXIT_SUCCESS,
        Err(_) => EXIT_FAILURE,
    }
}

} // verus!
