use crate::parser_types::{CILexerError, CIParserError};
use vstd::prelude::*;

verus! {

/// `std::io::Error`: the error of a read that failed. The library carries
/// it through and never looks inside.
#[verifier::external_type_specification]
#[verifier::external_body]
pub struct ExIoError(std::io::Error);

/// What can go wrong in one round of a session.
#[derive(Debug)]
pub enum CIReplError {
    IOError(std::io::Error),
    LexerError(CILexerError),
    ParserError(CIParserError),
}

/// What reading a line came to.
#[derive(Debug)]
pub enum ReadSignal<InputType> {
    Input(InputType),
    Nothing,
    Quit,
}

/// What a line editor hands back: a line, or the key that ended the session.
#[derive(Debug)]
pub enum LineSignal {
    Success(String),
    CtrlC,
    CtrlD,
}

/// What a session does after it has tried to read a line.
#[derive(Debug)]
pub enum ReplAction<InputType> {
    /// Evaluate the input and print what it gives.
    Evaluate(InputType),
    /// Read the next line.
    Skip,
    /// Report the error and read the next line.
    Report(CIReplError),
    /// End the session.
    Quit,
}

/// How one round of a session ended.
#[derive(Debug)]
pub enum RoundOutcome {
    /// The round is over; the session goes on.
    Done,
    /// The round failed with an error to report; the session goes on.
    Failed(CIReplError),
    /// The value could not be printed.
    PrintFailed(CIReplError),
    /// The session is over.
    Quit,
}

pub open spec fn read_signal_spec(signal: LineSignal) -> ReadSignal<String> {
    match signal {
        LineSignal::Success(line) => if line@.len() == 0 {
            ReadSignal::Nothing
        } else {
            ReadSignal::Input(line)
        },
        LineSignal::CtrlC => ReadSignal::Quit,
        LineSignal::CtrlD => ReadSignal::Quit,
    }
}

/// An empty line is nothing to evaluate, any other line is input, and
/// either interrupt ends the session.
pub fn read_signal(signal: LineSignal) -> (r: ReadSignal<String>)
    ensures
        r == read_signal_spec(signal),
{
    match signal {
        LineSignal::Success(line) => if line.as_str().is_empty() {
            ReadSignal::Nothing
        } else {
            ReadSignal::Input(line)
        },
        LineSignal::CtrlC => ReadSignal::Quit,
        LineSignal::CtrlD => ReadSignal::Quit,
    }
}

pub open spec fn next_action_spec<InputType>(
    read: Result<ReadSignal<InputType>, CIReplError>,
) -> ReplAction<InputType> {
    match read {
        Ok(ReadSignal::Input(input)) => ReplAction::Evaluate(input),
        Ok(ReadSignal::Quit) => ReplAction::Quit,
        Ok(ReadSignal::Nothing) => ReplAction::Skip,
        Err(e) => ReplAction::Report(e),
    }
}

/// What a session does with what reading a line came to. An error of the
/// reading is reported and does not end the session.
pub fn next_action<InputType>(read: Result<ReadSignal<InputType>, CIReplError>) -> (r: ReplAction<
    InputType,
>)
    ensures
        r == next_action_spec(read),
{
    match read {
        Ok(ReadSignal::Input(input)) => ReplAction::Evaluate(input),
        Ok(ReadSignal::Quit) => ReplAction::Quit,
        Ok(ReadSignal::Nothing) => ReplAction::Skip,
        Err(e) => ReplAction::Report(e),
    }
}

/// How a round ends after its value was printed, or was not.
pub open spec fn after_print(printed: Result<(), CIReplError>) -> RoundOutcome {
    match printed {
        Ok(_) => RoundOutcome::Done,
        Err(e) => RoundOutcome::PrintFailed(e),
    }
}

/// A session that reads, evaluates and prints, round after round.
pub trait Repl {
    type Input;

    type Output;

    fn read(&self) -> Result<ReadSignal<Self::Input>, CIReplError>;

    fn evaluate(&self, input: Self::Input) -> Result<Self::Output, CIReplError>;

    fn print(&self, output: Self::Output) -> Result<(), CIReplError>;

    /// One round. The round reads once; it evaluates what was read, where
    /// a line was read, and prints the value where there is one; and it
    /// ends as these three decide. An error of the reading or of the
    /// evaluation is a failure that the session goes on after; an empty
    /// line is a round in which nothing is done; an interrupt ends the
    /// session.
    fn round(&self) -> (r: RoundOutcome)
        ensures
            exists|read: Result<ReadSignal<Self::Input>, CIReplError>| #[trigger]
                call_ensures(Self::read, (self,), read) && match next_action_spec(read) {
                    ReplAction::Evaluate(input) => exists|
                        value: Result<Self::Output, CIReplError>,
                    | #[trigger]
                        call_ensures(Self::evaluate, (self, input), value) && match value {
                            Ok(output) => exists|printed: Result<(), CIReplError>| #[trigger]
                                call_ensures(Self::print, (self, output), printed) && r
                                    == after_print(printed),
                            Err(e) => r == RoundOutcome::Failed(e),
                        },
                    ReplAction::Skip => r == RoundOutcome::Done,
                    ReplAction::Report(e) => r == RoundOutcome::Failed(e),
                    ReplAction::Quit => r == RoundOutcome::Quit,
                },
    {
        let read = self.read();
        let ghost was_read = read;
        match next_action(read) {
            ReplAction::Evaluate(input) => {
                let ghost asked = input;
                let value = self.evaluate(input);
                let ghost was_value = value;
                match value {
                    Ok(output) => {
                        let ghost shown = output;
                        let printed = self.print(output);
                        assert(call_ensures(Self::print, (self, shown), printed));
                        assert(call_ensures(Self::evaluate, (self, asked), was_value));
                        assert(call_ensures(Self::read, (self,), was_read));
                        after_printing(printed)
                    },
                    Err(e) => {
                        assert(call_ensures(Self::evaluate, (self, asked), was_value));
                        assert(call_ensures(Self::read, (self,), was_read));
                        RoundOutcome::Failed(e)
                    },
                }
            },
            ReplAction::Skip => RoundOutcome::Done,
            ReplAction::Report(e) => RoundOutcome::Failed(e),
            ReplAction::Quit => RoundOutcome::Quit,
        }
    }
}

/// How a round ends after its value was printed, or was not: a value that
/// could not be printed is told apart from the other failures.
pub fn after_printing(printed: Result<(), CIReplError>) -> (r: RoundOutcome)
    ensures
        r == after_print(printed),
{
    match printed {
        Ok(_) => RoundOutcome::Done,
        Err(e) => RoundOutcome::PrintFailed(e),
    }
}

} // verus!
