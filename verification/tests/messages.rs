use ci_lisp::ast::{AstNode, IntermediateToken, Token, Value};
use ci_lisp::parser_types::{CIEvalError, CILexerError, CIParserError};
use ci_lisp::repl::{next_action, read_signal, CIReplError, LineSignal, ReadSignal, ReplAction};

#[test]
fn parser_errors_have_their_messages() {
    assert_eq!(
        CIParserError::MissingOpenParen(-1).to_text(),
        "Missing Opening Parenthesis (level: -1)"
    );
    assert_eq!(
        CIParserError::MissingCloseParen(2).to_text(),
        "Missing Closing Parenthesis (level: 2)"
    );
    assert_eq!(
        CIParserError::UnexpectedToken(Box::new(IntermediateToken::RParen(3))).to_text(),
        "UnexpectedToken: RParen(3)"
    );
    assert_eq!(
        CIParserError::UnexpectedToken(Box::new(IntermediateToken::EOF)).to_text(),
        "UnexpectedToken: EOF"
    );
    assert_eq!(
        CIParserError::UnexpectedToken(Box::new(IntermediateToken::Value(Value::String(
            "s".to_string()
        ))))
        .to_text(),
        "UnexpectedToken: Value(\"s\")"
    );
    assert_eq!(
        CIParserError::NodeFull(vec![
            AstNode::integer(1),
            AstNode::string("two".to_string()),
            AstNode::pair(AstNode::symbol("f"), AstNode::string("x".to_string())),
        ])
        .to_text(),
        "Too many parameters in Node: [1, \"two\", (f x)]"
    );
    assert_eq!(
        CIParserError::NodeFull(Vec::new()).to_text(),
        "Too many parameters in Node: []"
    );
    assert_eq!(
        CIParserError::ParsingUnfinished.to_text(),
        "[Internal] parsing not done"
    );
    assert_eq!(
        CIParserError::LexerError(CILexerError::UnmatchedQuotes).to_text(),
        "LexerError: Unmatched quotes"
    );
}

#[test]
fn eval_errors_have_their_messages() {
    assert_eq!(
        CIEvalError::UnknownSymbol("cons".to_string()).to_text(),
        "Unknown symbol: cons"
    );
    assert_eq!(
        CIEvalError::NonCallable(Box::new(AstNode::integer(5))).to_text(),
        "Non-callable value: 5"
    );
    assert_eq!(
        CIEvalError::UnexpectedValue(Box::new(AstNode::string("a".to_string()))).to_text(),
        "Unexpected Value: \"a\""
    );
    assert_eq!(
        CIEvalError::NoSuchFile("lib.ci".to_string()).to_text(),
        "File does not exist: lib.ci"
    );
    assert_eq!(
        CIEvalError::FileParseError(Box::new(CIParserError::EvalError(
            CIEvalError::UnknownSymbol("x".to_string())
        )))
        .to_text(),
        "Error while parsing file: EvalError: Unknown symbol: x"
    );
    assert_eq!(CILexerError::UnmatchedQuotes.to_text(), "Unmatched quotes");
}

#[test]
fn the_missing_source_is_found_under_loaded_sources() {
    let direct = CIEvalError::NoSuchFile("a".to_string());
    assert_eq!(direct.missing_source(), Some("a".to_string()));
    let nested = CIEvalError::FileParseError(Box::new(CIParserError::EvalError(
        CIEvalError::FileParseError(Box::new(CIParserError::EvalError(
            CIEvalError::NoSuchFile("deep".to_string()),
        ))),
    )));
    assert_eq!(nested.missing_source(), Some("deep".to_string()));
    let other = CIEvalError::FileParseError(Box::new(CIParserError::MissingCloseParen(1)));
    assert_eq!(other.missing_source(), None);
    assert_eq!(CIEvalError::DepthExceeded.missing_source(), None);
}

#[test]
fn tokens_show_as_they_are_written() {
    assert_eq!(Token::LParen.to_text(), "(");
    assert_eq!(Token::RBracket.to_text(), "]");
    assert_eq!(Token::Hash.to_text(), "#");
    assert_eq!(Token::EOF.to_text(), "");
    assert_eq!(Token::Value(Value::Ident("a".to_string())).to_text(), "'a");
    assert_eq!(Value::String("q".to_string()).to_debug_text(), "\"q\"");
    assert_eq!(Value::Int(3).to_debug_text(), "3");
    assert_eq!(
        IntermediateToken::AstNode(AstNode::nil()).to_debug_text(),
        "AstNode(nil)"
    );
    assert_eq!(IntermediateToken::Hash.to_debug_text(), "Hash");
    assert_eq!(IntermediateToken::LCurly(12).to_debug_text(), "LCurly(12)");
}

#[test]
fn a_read_line_becomes_a_signal() {
    assert!(matches!(
        read_signal(LineSignal::Success(String::new())),
        ReadSignal::Nothing
    ));
    assert!(matches!(
        read_signal(LineSignal::Success("(f)".to_string())),
        ReadSignal::Input(s) if s == "(f)"
    ));
    assert!(matches!(read_signal(LineSignal::CtrlC), ReadSignal::Quit));
    assert!(matches!(read_signal(LineSignal::CtrlD), ReadSignal::Quit));
}

#[test]
fn a_signal_decides_the_round() {
    assert!(matches!(
        next_action(Ok(ReadSignal::Input(7))),
        ReplAction::Evaluate(7)
    ));
    assert!(matches!(
        next_action::<i32>(Ok(ReadSignal::Nothing)),
        ReplAction::Skip
    ));
    assert!(matches!(
        next_action::<i32>(Ok(ReadSignal::Quit)),
        ReplAction::Quit
    ));
    assert!(matches!(
        next_action::<i32>(Err(CIReplError::LexerError(CILexerError::UnmatchedQuotes))),
        ReplAction::Report(CIReplError::LexerError(CILexerError::UnmatchedQuotes))
    ));
}
