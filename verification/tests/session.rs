use std::cell::RefCell;

use ci_lisp::parser_types::{CILexerError, CIParserError};
use ci_lisp::repl::{next_action, CIReplError, ReadSignal, Repl, ReplAction, RoundOutcome};
use ci_lisp::CIError;

struct Script {
    reads: RefCell<Vec<Result<ReadSignal<i32>, CIReplError>>>,
    printed: RefCell<Vec<i32>>,
}

impl Script {
    fn new(mut reads: Vec<Result<ReadSignal<i32>, CIReplError>>) -> Self {
        reads.reverse();
        Script {
            reads: RefCell::new(reads),
            printed: RefCell::new(Vec::new()),
        }
    }
}

impl Repl for Script {
    type Input = i32;
    type Output = i32;

    fn read(&self) -> Result<ReadSignal<i32>, CIReplError> {
        self.reads.borrow_mut().pop().unwrap_or(Ok(ReadSignal::Quit))
    }

    fn evaluate(&self, input: i32) -> Result<i32, CIReplError> {
        if input < 0 {
            Err(CIReplError::ParserError(CIParserError::ParsingUnfinished))
        } else {
            Ok(input * 2)
        }
    }

    fn print(&self, output: i32) -> Result<(), CIReplError> {
        if output > 100 {
            return Err(CIReplError::LexerError(CILexerError::UnmatchedQuotes));
        }
        self.printed.borrow_mut().push(output);
        Ok(())
    }
}

#[test]
fn a_round_reads_evaluates_and_prints() {
    let script = Script::new(vec![Ok(ReadSignal::Input(4)), Ok(ReadSignal::Input(5))]);
    assert!(matches!(script.round(), RoundOutcome::Done));
    assert!(matches!(script.round(), RoundOutcome::Done));
    assert_eq!(*script.printed.borrow(), vec![8, 10]);
}

#[test]
fn a_round_without_input_prints_nothing() {
    let script = Script::new(vec![Ok(ReadSignal::Nothing)]);
    assert!(matches!(script.round(), RoundOutcome::Done));
    assert!(script.printed.borrow().is_empty());
}

#[test]
fn a_failed_round_does_not_end_the_session() {
    let script = Script::new(vec![
        Ok(ReadSignal::Input(-1)),
        Err(CIReplError::IOError(std::io::Error::other("gone"))),
        Ok(ReadSignal::Input(1)),
    ]);
    assert!(matches!(
        script.round(),
        RoundOutcome::Failed(CIReplError::ParserError(CIParserError::ParsingUnfinished))
    ));
    assert!(matches!(
        script.round(),
        RoundOutcome::Failed(CIReplError::IOError(_))
    ));
    assert!(matches!(script.round(), RoundOutcome::Done));
    assert_eq!(*script.printed.borrow(), vec![2]);
}

#[test]
fn a_value_that_cannot_be_printed_is_told_apart() {
    let script = Script::new(vec![Ok(ReadSignal::Input(60))]);
    assert!(matches!(
        script.round(),
        RoundOutcome::PrintFailed(CIReplError::LexerError(CILexerError::UnmatchedQuotes))
    ));
}

#[test]
fn quit_ends_the_session() {
    let script = Script::new(vec![Ok(ReadSignal::Quit), Ok(ReadSignal::Input(1))]);
    assert!(matches!(script.round(), RoundOutcome::Quit));
}

#[test]
fn an_error_of_reading_is_reported() {
    let action = next_action::<i32>(Err(CIReplError::IOError(std::io::Error::other("x"))));
    assert!(matches!(action, ReplAction::Report(CIReplError::IOError(_))));
}

#[test]
fn an_error_of_a_session_is_an_error_of_the_interpreter() {
    let e = CIError::ReplError(CIReplError::LexerError(CILexerError::UnmatchedQuotes));
    assert!(matches!(
        e,
        CIError::ReplError(CIReplError::LexerError(CILexerError::UnmatchedQuotes))
    ));
}
