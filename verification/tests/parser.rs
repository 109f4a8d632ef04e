use ci_lisp::ast::{AstNode, IntermediateToken, Value};
use ci_lisp::parser_types::CIParserError;
use ci_lisp::parsers::{CIFullFileParser, CIFullReplParser, CINewReplParser};

fn parse(source: &str) -> Result<AstNode, CIParserError> {
    CIFullReplParser::new(false).parse(source)
}

fn parse_infix_line(source: &str) -> Result<AstNode, CIParserError> {
    CIFullReplParser::new(true).parse(source)
}

fn text(source: &str) -> String {
    parse(source).unwrap().to_text()
}

#[test]
fn a_literal_alone_is_itself() {
    assert!(matches!(parse("5"), Ok(AstNode::Value(Value::Int(5)))));
    assert!(matches!(parse("-12"), Ok(AstNode::Value(Value::Int(-12)))));
    assert!(matches!(parse("\"abc\""), Ok(AstNode::Value(Value::String(s))) if s == "abc"));
    assert!(matches!(parse("t"), Ok(AstNode::Value(Value::True))));
    assert!(matches!(parse("nil"), Ok(AstNode::Value(Value::Nil))));
    assert!(matches!(parse("'q"), Ok(AstNode::Value(Value::Ident(s))) if s == "q"));
    assert!(matches!(parse("x"), Ok(AstNode::Value(Value::Symbol(s))) if s == "x"));
}

#[test]
fn paren_form_by_number_of_children() {
    assert!(matches!(parse("()"), Ok(AstNode::Value(Value::Nil))));
    assert!(matches!(parse("(7)"), Ok(AstNode::Value(Value::Int(7)))));
    assert!(matches!(parse("((7))"), Ok(AstNode::Value(Value::Int(7)))));
    match parse("(f 1)").unwrap() {
        AstNode::Par { car, cdr } => {
            assert!(matches!(*car, AstNode::Value(Value::Symbol(s)) if s == "f"));
            assert!(matches!(*cdr, AstNode::Value(Value::Int(1))));
        }
        other => panic!("{}", other.to_text()),
    }
}

#[test]
fn three_children_without_fn_are_too_many() {
    match parse("(1 2 3)") {
        Err(CIParserError::NodeFull(items)) => {
            assert_eq!(items.len(), 3);
            assert!(matches!(items[0], AstNode::Value(Value::Int(1))));
            assert!(matches!(items[2], AstNode::Value(Value::Int(3))));
        }
        _ => panic!(),
    }
    assert!(matches!(parse("(def 'x 5)"), Err(CIParserError::NodeFull(_))));
}

#[test]
fn four_or_more_children_are_too_many() {
    assert!(matches!(parse("(1 2 3 4)"), Err(CIParserError::NodeFull(v)) if v.len() == 4));
    assert!(matches!(parse("(fn 'x 1 2)"), Err(CIParserError::NodeFull(v)) if v.len() == 4));
    assert!(matches!(parse("(a b c d e)"), Err(CIParserError::NodeFull(v)) if v.len() == 5));
}

#[test]
fn fn_with_a_quoted_name_is_a_lambda() {
    match parse("(fn 'y (f y))").unwrap() {
        AstNode::Lambda { varname, body } => {
            assert_eq!(varname, "y");
            assert_eq!(body.to_text(), "(f y)");
        }
        other => panic!("{}", other.to_text()),
    }
}

#[test]
fn fn_without_a_quoted_name_is_an_unexpected_token() {
    match parse("(fn y 1)") {
        Err(CIParserError::UnexpectedToken(t)) => {
            assert!(
                matches!(*t, IntermediateToken::AstNode(AstNode::Value(Value::Symbol(s))) if s == "y")
            );
        }
        _ => panic!(),
    }
}

#[test]
fn curly_form_by_number_of_children() {
    assert!(matches!(parse("{}"), Ok(AstNode::Value(Value::Nil))));
    assert!(matches!(parse("{4}"), Ok(AstNode::Value(Value::Int(4)))));
    assert_eq!(text("{5 lt 3}"), "((lt 3) 5)");
    assert!(matches!(parse("{1 2}"), Err(CIParserError::NodeFull(v)) if v.len() == 2));
    assert!(matches!(parse("{1 2 3 4}"), Err(CIParserError::NodeFull(v)) if v.len() == 4));
}

#[test]
fn bracket_form_folds_from_the_right() {
    assert!(matches!(parse("[]"), Ok(AstNode::Value(Value::Nil))));
    assert_eq!(text("[1]"), "((cons nil) 1)");
    assert_eq!(text("[1 2]"), "((cons ((cons nil) 2)) 1)");
    assert_eq!(text("[1 2 3]"), "((cons ((cons ((cons nil) 3)) 2)) 1)");
}

#[test]
fn numeral_sugar_is_a_church_numeral() {
    assert_eq!(text("#0"), "zero");
    assert_eq!(text("#1"), "(succ zero)");
    assert_eq!(text("#3"), "(succ (succ (succ zero)))");
    assert_eq!(text("(f #2)"), "(f (succ (succ zero)))");
}

#[test]
fn numeral_sugar_needs_a_natural_number() {
    assert!(matches!(
        parse("#-1"),
        Err(CIParserError::UnexpectedToken(t)) if matches!(*t, IntermediateToken::Value(Value::Int(-1)))
    ));
    assert!(matches!(
        parse("#x"),
        Err(CIParserError::UnexpectedToken(t)) if matches!(&*t, IntermediateToken::Value(Value::Symbol(s)) if s == "x")
    ));
    assert!(matches!(
        parse("#"),
        Err(CIParserError::UnexpectedToken(t)) if matches!(*t, IntermediateToken::EOF)
    ));
    assert!(matches!(
        parse("(#)"),
        Err(CIParserError::UnexpectedToken(t)) if matches!(*t, IntermediateToken::RParen(1))
    ));
}

#[test]
fn sugars_nest_in_any_position() {
    assert_eq!(text("({1 add 2} [3])"), "(((add 2) 1) ((cons nil) 3))");
    assert_eq!(text("[(f 1) {a b c}]"), "((cons ((cons nil) ((b c) a))) (f 1))");
    assert_eq!(text("{#1 f (g)}"), "((f g) (succ zero))");
}

#[test]
fn one_form_per_line() {
    assert!(matches!(
        parse("(a) (b)"),
        Err(CIParserError::UnexpectedToken(t)) if matches!(*t, IntermediateToken::LParen(1))
    ));
    assert!(matches!(
        parse("1 2"),
        Err(CIParserError::UnexpectedToken(t)) if matches!(*t, IntermediateToken::Value(Value::Int(2)))
    ));
}

#[test]
fn an_empty_line_is_an_unexpected_end() {
    assert!(matches!(
        parse(""),
        Err(CIParserError::UnexpectedToken(t)) if matches!(*t, IntermediateToken::EOF)
    ));
    assert!(matches!(
        CINewReplParser::new(false).parse(Vec::new()),
        Err(CIParserError::UnexpectedToken(t)) if matches!(*t, IntermediateToken::EOF)
    ));
}

#[test]
fn bracket_errors_come_before_parsing() {
    assert!(matches!(parse("(a"), Err(CIParserError::MissingCloseParen(1))));
    assert!(matches!(parse("a)"), Err(CIParserError::MissingOpenParen(-1))));
}

#[test]
fn a_closer_of_another_kind_is_unexpected() {
    assert!(matches!(
        parse("(a]"),
        Err(CIParserError::UnexpectedToken(t)) if matches!(*t, IntermediateToken::RBracket(1))
    ));
}

#[test]
fn infix_line_wraps_the_whole_line() {
    assert_eq!(parse_infix_line("5 lt 3").unwrap().to_text(), "((lt 3) 5)");
    assert_eq!(parse_infix_line("'x def 5").unwrap().to_text(), "((def 5) 'x)");
    assert!(matches!(parse_infix_line(""), Ok(AstNode::Value(Value::Nil))));
    assert!(matches!(parse_infix_line("9"), Ok(AstNode::Value(Value::Int(9)))));
    assert!(matches!(parse_infix_line("1 2"), Err(CIParserError::NodeFull(v)) if v.len() == 2));
}

#[test]
fn a_file_holds_any_number_of_forms() {
    let forms = CIFullFileParser::default()
        .parse("(f 1)\n{a b c}\n[1]\n7 #1")
        .unwrap();
    let texts: Vec<String> = forms.iter().map(|f| f.to_text()).collect();
    assert_eq!(
        texts,
        vec!["(f 1)", "((b c) a)", "((cons nil) 1)", "7", "(succ zero)"]
    );
    assert_eq!(CIFullFileParser::default().parse("").unwrap().len(), 0);
}

#[test]
fn a_file_with_a_bad_form_fails_whole() {
    assert!(matches!(
        CIFullFileParser::default().parse("(f 1) (1 2 3)"),
        Err(CIParserError::NodeFull(_))
    ));
}

#[test]
fn checked_parsers_accept_ordinary_text() {
    assert!(matches!(
        CIFullReplParser::new(false).parse_checked("(f 1)"),
        Some(Ok(AstNode::Par { .. }))
    ));
    assert_eq!(
        CIFullFileParser::default()
            .parse_checked("1 2")
            .unwrap()
            .unwrap()
            .len(),
        2
    );
}
