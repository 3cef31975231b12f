use jit_harness::fatal::{exit_code, Fatal, EXIT_FAILURE, EXIT_SUCCESS};
use jit_harness::launch::{bitcode_path, diagnostic_message, load_outcome, usage};

fn command_line(args: &[&str]) -> Vec<String> {
    args.iter().map(|arg| arg.to_string()).collect()
}

#[test]
fn missing_file_is_a_usage_error() {
    assert_eq!(bitcode_path(&command_line(&["harness"])), Err(Fatal::UsageError));
    assert_eq!(bitcode_path(&command_line(&[])), Err(Fatal::UsageError));
}

#[test]
fn file_is_the_first_argument() {
    assert_eq!(bitcode_path(&command_line(&["harness", "sum.bc"])), Ok("sum.bc".to_string()));
}

#[test]
fn engine_flags_do_not_change_the_file() {
    let args = command_line(&["harness", "dir/sum.bc", "-O2", "--debug-pass=Structure"]);
    assert_eq!(bitcode_path(&args), Ok("dir/sum.bc".to_string()));
    assert_eq!(args, command_line(&["harness", "dir/sum.bc", "-O2", "--debug-pass=Structure"]));
}

#[test]
fn file_name_is_taken_as_it_is() {
    assert_eq!(bitcode_path(&command_line(&["harness", ""])), Ok(String::new()));
    assert_eq!(bitcode_path(&command_line(&["harness", "-x"])), Ok("-x".to_string()));
}

#[test]
fn usage_names_the_arguments() {
    assert_eq!(usage(), "Usage: %s sum.bc [ llvm-flags ]\n");
}

#[test]
fn unreadable_file_is_an_io_error() {
    assert_eq!(load_outcome(false, 0), Err(Fatal::IOError));
    assert_eq!(load_outcome(false, 1), Err(Fatal::IOError));
}

#[test]
fn failed_parse_is_a_parse_diagnostic() {
    assert_eq!(load_outcome(true, 1), Err(Fatal::ParseDiagnostic));
    assert_eq!(load_outcome(true, -1), Err(Fatal::ParseDiagnostic));
    assert_eq!(load_outcome(true, i32::MIN), Err(Fatal::ParseDiagnostic));
}

#[test]
fn parsed_module_is_loaded() {
    assert_eq!(load_outcome(true, 0), Ok(()));
}

#[test]
fn diagnostic_is_reported_with_its_description() {
    assert_eq!(
        diagnostic_message("Invalid bitcode signature"),
        "Error in bitcode parser: Invalid bitcode signature"
    );
    assert_eq!(diagnostic_message(""), "Error in bitcode parser: ");
}

#[test]
fn user_requested_end_exits_with_zero() {
    assert_eq!(EXIT_SUCCESS, 0);
    assert_eq!(exit_code(Ok(())), 0);
}

#[test]
fn every_fatal_condition_exits_with_one() {
    assert_eq!(EXIT_FAILURE, 1);
    let conditions = [
        Fatal::UsageError,
        Fatal::IOError,
        Fatal::ParseDiagnostic,
        Fatal::EngineInvariantViolation,
        Fatal::InputFormatError,
    ];
    for condition in conditions {
        assert_eq!(exit_code(Err(condition)), 1);
    }
}
