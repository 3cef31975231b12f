//! The interactive runner, as a state machine.
//!
//! The runner asks for two operands, has the compiled function called on
//! them, shows the result and asks whether to go again. It does no input
//! or output itself. Its driver writes the text of each step to the
//! terminal, carries out the request of the state reached, and hands back
//! what came of it as the next event.

use crate::decimal::{decimal_text, format_i32, parse_decimal, parse_i32, parse_inverts_text};
use crate::fatal::Fatal;
use vstd::prelude::*;
use vstd::string::StringExecFns;

verus! {

/// Where the dialogue stands.
#[derive(Clone, Copy, Debug, PartialEq, Eq, Structural)]
pub enum RunnerState {
    /// The first operand has been asked for.
    AwaitingA,
    /// The second operand has been asked for.
    AwaitingB { a: i32 },
    /// The compiled function is to be called on the operands.
    AwaitingSum { a: i32, b: i32 },
    /// The user has been asked whether to go again.
    AwaitingAnswer,
    /// The user declined to go again.
    Finished,
    /// An operand was no number.
    Failed,
}

/// What the driver is to do for the runner.
#[derive(Clone, Copy, Debug, PartialEq, Eq, Structural)]
pub enum Request {
    /// Read one line from the terminal, without its line end.
    ReadLine,
    /// Call the compiled function on `a` and `b`.
    Invoke { a: i32, b: i32 },
    /// Read one character from the terminal.
    ReadKey,
    /// End the run: the user asked for it.
    Exit,
    /// End the run with a fatal condition.
    Abort(Fatal),
}

/// What the driver hands back.
#[derive(Debug, PartialEq, Eq)]
pub enum Event {
    /// The line that was read.
    Line(String),
    /// What the compiled function returned.
    Sum(i32),
    /// The character that was read.
    Key(char),
}

/// An event, with a line as the sequence of its characters.
pub enum EventView {
    /// The line that was read.
    Line(Seq<char>),
    /// What the compiled function returned.
    Sum(i32),
    /// The character that was read.
    Key(char),
}

impl View for Event {
    type V = EventView;

    open spec fn view(&self) -> EventView {
        match self {
            Event::Line(line) => EventView::Line(line@),
            Event::Sum(sum) => EventView::Sum(*sum),
            Event::Key(key) => EventView::Key(*key),
        }
    }
}

/// One step of the dialogue: the state reached and the text to write
/// before its request is carried out.
#[derive(Debug, PartialEq, Eq)]
pub struct Step {
    /// The state that the dialogue is in now.
    pub state: RunnerState,
    /// What the driver writes to the terminal before anything else.
    pub output: String,
}

/// The answer that ends the dialogue.
pub const DECLINE: char = 'n';

/// The prompt for the first operand.
pub open spec fn prompt_a() -> Seq<char> {
    "a = "@
}

/// The prompt for the second operand.
pub open spec fn prompt_b() -> Seq<char> {
    "b = "@
}

/// What is written once both operands are in, before the call.
pub open spec fn before_call() -> Seq<char> {
    "\n"@
}

/// The lines that show the result of a call.
pub open spec fn sum_report(a: i32, b: i32, sum: i32) -> Seq<char> {
    "\nsum("@ + decimal_text(a as int) + ", "@ + decimal_text(b as int) + ") = "@ + decimal_text(
        sum as int,
    ) + "\n\n"@
}

/// The question whether to go again.
pub open spec fn prompt_again() -> Seq<char> {
    "Again? (Y/n) "@
}

/// What is written before another round begins.
pub open spec fn before_round() -> Seq<char> {
    "\n\n"@
}

/// What is outstanding in `state`.
pub open spec fn request_in(state: RunnerState) -> Request {
    match state {
        RunnerState::AwaitingA => Request::ReadLine,
        RunnerState::AwaitingB { a } => Request::ReadLine,
        RunnerState::AwaitingSum { a, b } => Request::Invoke { a, b },
        RunnerState::AwaitingAnswer => Request::ReadKey,
        RunnerState::Finished => Request::Exit,
        RunnerState::Failed => Request::Abort(Fatal::InputFormatError),
    }
}

/// Whether `event` answers what is outstanding in `state`.
pub open spec fn answers(state: RunnerState, event: EventView) -> bool {
    match (request_in(state), event) {
        (Request::ReadLine, EventView::Line(_)) => true,
        (Request::Invoke { a, b }, EventView::Sum(_)) => true,
        (Request::ReadKey, EventView::Key(_)) => true,
        _ => false,
    }
}

/// The state that follows `state` on `event`. An event that does not
/// answer what is outstanding changes nothing.
pub open spec fn next_state(state: RunnerState, event: EventView) -> RunnerState {
    match (state, event) {
        (RunnerState::AwaitingA, EventView::Line(line)) => match parse_decimal(line) {
            Some(a) => RunnerState::AwaitingB { a },
            None => RunnerState::Failed,
        },
        (RunnerState::AwaitingB { a }, EventView::Line(line)) => match parse_decimal(line) {
            Some(b) => RunnerState::AwaitingSum { a, b },
            None => RunnerState::Failed,
        },
        (RunnerState::AwaitingSum { a, b }, EventView::Sum(_)) => RunnerState::AwaitingAnswer,
        (RunnerState::AwaitingAnswer, EventView::Key(key)) => if key == DECLINE {
            RunnerState::Finished
        } else {
            RunnerState::AwaitingA
        },
        _ => state,
    }
}

/// The text that is written on `event` in `state`.
pub open spec fn output_on(state: RunnerState, event: EventView) -> Seq<char> {
    match (state, event) {
        (RunnerState::AwaitingA, EventView::Line(line)) => if parse_decimal(line) is Some {
            prompt_b()
        } else {
            Seq::empty()
        },
        (RunnerState::AwaitingB { a }, EventView::Line(line)) => if parse_decimal(line) is Some {
            before_call()
        } else {
            Seq::empty()
        },
        (RunnerState::AwaitingSum { a, b }, EventView::Sum(sum)) => sum_report(a, b, sum)
            + prompt_again(),
        (RunnerState::AwaitingAnswer, EventView::Key(key)) => if key == DECLINE {
            Seq::empty()
        } else {
            before_round() + prompt_a()
        },
        _ => Seq::empty(),
    }
}

impl RunnerState {
    /// What the driver is to do in this state.
    pub fn request(&self) -> (request: Request)
        ensures
            request == request_in(*self),
    {
        match self {
            RunnerState::AwaitingA => Request::ReadLine,
            RunnerState::AwaitingB { a } => Request::ReadLine,
            RunnerState::AwaitingSum { a, b } => Request::Invoke { a: *a, b: *b },
            RunnerState::AwaitingAnswer => Request::ReadKey,
            RunnerState::Finished => Request::Exit,
            RunnerState::Failed => Request::Abort(Fatal::InputFormatError),
        }
    }
}

/// Begins the dialogue: the prompt for the first operand is to be
/// written, and a line to be read.
pub fn start() -> (step: Step)
    ensures
        step.state == RunnerState::AwaitingA,
        step.output@ == prompt_a(),
{
    Step { state: RunnerState::AwaitingA, output: String::from_str("a = ") }
}

/// Takes the dialogue one step further.
///
/// A line is read as an operand: a 32-bit signed integer in decimal. One
/// that is no such number ends the run. The result of the call is shown
/// and the user asked whether to go again. The answer `n` ends the
/// dialogue, any other character begins the next round.
pub fn step(state: RunnerState, event: Event) -> (taken: Step)
    ensures
        taken.state == next_state(state, event@),
        taken.output@ == output_on(state, event@),
{
    match (state, event) {
        (RunnerState::AwaitingA, Event::Line(line)) => match parse_i32(line.as_str()) {
            Some(a) => Step {
                state: RunnerState::AwaitingB { a },
                output: String::from_str("b = "),
            },
            None => Step { state: RunnerState::Failed, output: String::new() },
        },
        (RunnerState::AwaitingB { a }, Event::Line(line)) => match parse_i32(line.as_str()) {
            Some(b) => Step {
                state: RunnerState::AwaitingSum { a, b },
                output: String::from_str("\n"),
            },
            None => Step { state: RunnerState::Failed, output: String::new() },
        },
        (RunnerState::AwaitingSum { a, b }, Event::Sum(sum)) => {
            let mut output = String::from_str("\nsum(");
            output.append(format_i32(a).as_str());
            output.append(", ");
            output.append(format_i32(b).as_str());
            output.append(") = ");
            output.append(format_i32(sum).as_str());
            output.append("\n\n");
            output.append("Again? (Y/n) ");
            Step { state: RunnerState::AwaitingAnswer, output }
        },
        (RunnerState::AwaitingAnswer, Event::Key(key)) => {
            if key == DECLINE {
                Step { state: RunnerState::Finished, output: String::new() }
            } else {
                let mut output = String::from_str("\n\n");
                output.append("a = ");
                Step { state: RunnerState::AwaitingA, output }
            }
        },
        (state, _) => Step { state, output: String::new() },
    }
}

/// The dialogue ends on the answer `n` to the question whether to go
/// again, and on nothing else.
pub proof fn only_decline_finishes(state: RunnerState, event: EventView)
    ensures
        next_state(state, event) == RunnerState::Finished <==> state == RunnerState::Finished || (
        state == RunnerState::AwaitingAnswer && event == EventView::Key(DECLINE)),
{
}

/// The run fails on a line that is asked for as an operand and is no
/// number, and on nothing else.
pub proof fn only_bad_operand_fails(state: RunnerState, event: EventView)
    ensures
        next_state(state, event) == RunnerState::Failed <==> state == RunnerState::Failed || (
        request_in(state) == Request::ReadLine && event is Line && parse_decimal(event->Line_0)
            is None),
{
}

/// An event that does not answer what is outstanding is passed over: the
/// state stays and nothing is written.
pub proof fn unexpected_event_is_passed_over(state: RunnerState, event: EventView)
    requires
        !answers(state, event),
    ensures
        next_state(state, event) == state,
        output_on(state, event) == Seq::<char>::empty(),
{
}

/// One round of the dialogue. Operands entered in decimal are taken as
/// they are and handed to the call; its result is shown with the
/// operands, followed by the question whether to go again; the answer `n`
/// ends the dialogue, any other begins the next round with the prompt for
/// the first operand.
pub proof fn round_shows_the_sum(a: i32, b: i32, sum: i32, key: char)
    ensures
        ({
            let first = next_state(
                RunnerState::AwaitingA,
                EventView::Line(decimal_text(a as int)),
            );
            let second = next_state(first, EventView::Line(decimal_text(b as int)));
            let third = next_state(second, EventView::Sum(sum));
            let fourth = next_state(third, EventView::Key(key));
            &&& first == RunnerState::AwaitingB { a }
            &&& second == RunnerState::AwaitingSum { a, b }
            &&& request_in(second) == Request::Invoke { a, b }
            &&& third == RunnerState::AwaitingAnswer
            &&& output_on(second, EventView::Sum(sum)) == sum_report(a, b, sum) + prompt_again()
            &&& key == DECLINE ==> fourth == RunnerState::Finished && output_on(
                third,
                EventView::Key(key),
            ) == Seq::<char>::empty()
            &&& key != DECLINE ==> fourth == RunnerState::AwaitingA && output_on(
                third,
                EventView::Key(key),
            ) == before_round() + prompt_a()
        }),
{
    parse_inverts_text(a);
    parse_inverts_text(b);
}

} // verus!
