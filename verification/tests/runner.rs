use jit_harness::fatal::Fatal;
use jit_harness::runner::{start, step, Event, Request, RunnerState, Step, DECLINE};

fn line(text: &str) -> Event {
    Event::Line(text.to_string())
}

/// Drives the runner as a terminal would: feeds the lines and keys in
/// order, answers each call with the sum of the operands, and collects
/// what is written.
fn drive(lines: &[&str], keys: &[char]) -> (String, RunnerState) {
    let mut lines = lines.iter();
    let mut keys = keys.iter();
    let Step { mut state, mut output } = start();
    let mut written = String::new();
    loop {
        written.push_str(&output);
        let event = match state.request() {
            Request::ReadLine => match lines.next() {
                Some(text) => line(text),
                None => break,
            },
            Request::Invoke { a, b } => Event::Sum(a.wrapping_add(b)),
            Request::ReadKey => match keys.next() {
                Some(key) => Event::Key(*key),
                None => break,
            },
            Request::Exit => break,
            Request::Abort(_) => break,
        };
        let taken = step(state, event);
        state = taken.state;
        output = taken.output;
    }
    (written, state)
}

#[test]
fn dialogue_begins_with_the_prompt_for_a() {
    let first = start();
    assert_eq!(first.state, RunnerState::AwaitingA);
    assert_eq!(first.output, "a = ");
    assert_eq!(first.state.request(), Request::ReadLine);
}

#[test]
fn first_operand_leads_to_the_prompt_for_b() {
    let taken = step(RunnerState::AwaitingA, line("5"));
    assert_eq!(taken.state, RunnerState::AwaitingB { a: 5 });
    assert_eq!(taken.output, "b = ");
    assert_eq!(taken.state.request(), Request::ReadLine);
}

#[test]
fn second_operand_leads_to_the_call() {
    let taken = step(RunnerState::AwaitingB { a: 5 }, line("-7"));
    assert_eq!(taken.state, RunnerState::AwaitingSum { a: 5, b: -7 });
    assert_eq!(taken.output, "\n");
    assert_eq!(taken.state.request(), Request::Invoke { a: 5, b: -7 });
}

#[test]
fn result_is_shown_with_the_operands() {
    let taken = step(RunnerState::AwaitingSum { a: 3, b: 4 }, Event::Sum(7));
    assert_eq!(taken.state, RunnerState::AwaitingAnswer);
    assert_eq!(taken.output, "\nsum(3, 4) = 7\n\nAgain? (Y/n) ");
    assert_eq!(taken.state.request(), Request::ReadKey);
}

#[test]
fn negative_numbers_are_shown_with_their_sign() {
    let taken = step(RunnerState::AwaitingSum { a: -3, b: i32::MIN }, Event::Sum(i32::MAX));
    assert_eq!(taken.output, "\nsum(-3, -2147483648) = 2147483647\n\nAgain? (Y/n) ");
}

#[test]
fn result_is_shown_as_the_call_returned_it() {
    let taken = step(RunnerState::AwaitingSum { a: 1, b: 1 }, Event::Sum(-40));
    assert_eq!(taken.output, "\nsum(1, 1) = -40\n\nAgain? (Y/n) ");
}

#[test]
fn answer_n_ends_the_dialogue() {
    assert_eq!(DECLINE, 'n');
    let taken = step(RunnerState::AwaitingAnswer, Event::Key('n'));
    assert_eq!(taken.state, RunnerState::Finished);
    assert_eq!(taken.output, "");
    assert_eq!(taken.state.request(), Request::Exit);
}

#[test]
fn any_other_answer_begins_the_next_round() {
    for key in ['Y', 'y', 'N', '\n', ' ', 'x', '0', '\u{e9}'] {
        let taken = step(RunnerState::AwaitingAnswer, Event::Key(key));
        assert_eq!(taken.state, RunnerState::AwaitingA);
        assert_eq!(taken.output, "\n\na = ");
        assert_eq!(taken.state.request(), Request::ReadLine);
    }
}

#[test]
fn operand_that_is_no_number_ends_the_run() {
    for text in ["", "five", "5 ", " 5", "1.5", "2147483648", "-"] {
        let taken = step(RunnerState::AwaitingA, line(text));
        assert_eq!(taken.state, RunnerState::Failed);
        assert_eq!(taken.output, "");
        assert_eq!(taken.state.request(), Request::Abort(Fatal::InputFormatError));
        let taken = step(RunnerState::AwaitingB { a: 1 }, line(text));
        assert_eq!(taken.state, RunnerState::Failed);
        assert_eq!(taken.output, "");
    }
}

#[test]
fn event_that_was_not_asked_for_is_passed_over() {
    let states = [
        RunnerState::AwaitingA,
        RunnerState::AwaitingB { a: 2 },
        RunnerState::AwaitingSum { a: 2, b: 3 },
        RunnerState::AwaitingAnswer,
        RunnerState::Finished,
        RunnerState::Failed,
    ];
    for state in states {
        let mut events = Vec::new();
        if state.request() != Request::ReadLine {
            events.push(line("5"));
        }
        if state.request() != (Request::Invoke { a: 2, b: 3 }) {
            events.push(Event::Sum(5));
        }
        if state.request() != Request::ReadKey {
            events.push(Event::Key('n'));
        }
        for event in events {
            let taken = step(state, event);
            assert_eq!(taken.state, state);
            assert_eq!(taken.output, "");
        }
    }
}

#[test]
fn five_plus_five_then_n_shows_ten_and_ends() {
    let (written, state) = drive(&["5", "5"], &['n']);
    assert_eq!(written, "a = b = \n\nsum(5, 5) = 10\n\nAgain? (Y/n) ");
    assert!(written.contains("sum(5, 5) = 10"));
    assert_eq!(state, RunnerState::Finished);
    assert_eq!(state.request(), Request::Exit);
}

#[test]
fn five_plus_five_then_y_begins_a_second_round() {
    let (written, state) = drive(&["5", "5"], &['Y']);
    assert_eq!(written, "a = b = \n\nsum(5, 5) = 10\n\nAgain? (Y/n) \n\na = ");
    assert_eq!(state, RunnerState::AwaitingA);
    assert_eq!(state.request(), Request::ReadLine);
}

#[test]
fn rounds_repeat_until_declined() {
    let (written, state) = drive(&["1", "2", "-3", "+4", "0", "0"], &['Y', '\n', 'n']);
    let expected = "a = b = \n\nsum(1, 2) = 3\n\nAgain? (Y/n) \n\n\
                    a = b = \n\nsum(-3, 4) = 1\n\nAgain? (Y/n) \n\n\
                    a = b = \n\nsum(0, 0) = 0\n\nAgain? (Y/n) ";
    assert_eq!(written, expected);
    assert_eq!(state, RunnerState::Finished);
}

#[test]
fn bad_second_operand_ends_the_run_before_the_call() {
    let (written, state) = drive(&["5", "b"], &['n']);
    assert_eq!(written, "a = b = ");
    assert_eq!(state, RunnerState::Failed);
    assert_eq!(state.request(), Request::Abort(Fatal::InputFormatError));
}
