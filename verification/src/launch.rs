//! What the harness decides before the engine runs: which file to load,
//! and whether it could be loaded.

use crate::fatal::Fatal;
use vstd::prelude::*;
use vstd::string::StringExecFns;

verus! {

/// The message that reports a missing argument.
pub open spec fn usage_text() -> Seq<char> {
    "Usage: %s sum.bc [ llvm-flags ]\n"@
}

/// The message that reports a missing argument.
pub fn usage() -> (text: &'static str)
    ensures
        text@ == usage_text(),
{
    "Usage: %s sum.bc [ llvm-flags ]\n"
}

/// Picks the bitcode file from the command line `args`, whose first entry
/// is the program's own name. The file is the first argument after it;
/// what follows is for the engine's option parser and is not looked at.
/// Without a file the command line is a usage error.
pub fn bitcode_path(args: &Vec<String>) -> (path: Result<String, Fatal>)
    ensures
        args.len() < 2 ==> path == Err::<String, Fatal>(Fatal::UsageError),
        args.len() >= 2 ==> path == Ok::<String, Fatal>(args[1]),
{
    if args.len() < 2 {
        Err(Fatal::UsageError)
    } else {
        Ok(args[1].clone())
    }
}

/// How loading a module ended, given what the engine reported: a file that
/// could not be read is an I/O error, a parse that did not return zero is
/// a parse diagnostic.
pub open spec fn load_result(file_read: bool, parse_code: i32) -> Result<(), Fatal> {
    if !file_read {
        Err(Fatal::IOError)
    } else if parse_code != 0 {
        Err(Fatal::ParseDiagnostic)
    } else {
        Ok(())
    }
}

/// Judges the loading of a module. `file_read` says whether the file's
/// content reached memory; `parse_code` is what the parser returned and
/// counts only where the file was read.
pub fn load_outcome(file_read: bool, parse_code: i32) -> (loaded: Result<(), Fatal>)
    ensures
        loaded == load_result(file_read, parse_code),
{
    if !file_read {
        Err(Fatal::IOError)
    } else if parse_code != 0 {
        Err(Fatal::ParseDiagnostic)
    } else {
        Ok(())
    }
}

/// The text in front of a parse diagnostic's description.
pub open spec fn diagnostic_prefix() -> Seq<char> {
    "Error in bitcode parser: "@
}

/// The line that reports a parse diagnostic with the given description.
pub fn diagnostic_message(description: &str) -> (message: String)
    ensures
        message@ == diagnostic_prefix() + description@,
{
    let mut message = String::from_str("Error in bitcode parser: ");
    message.append(description);
    message
}

} // verus!
