use ci_lisp::ast::{IntermediateToken, Token, Value};
use ci_lisp::parser_types::CIParserError;
use ci_lisp::parsers::{CIIntermediateTokenizer, CILexer};

fn annotate(source: &str) -> Result<Vec<IntermediateToken>, CIParserError> {
    let tokens = CILexer::default().tokenize(source).unwrap();
    CIIntermediateTokenizer::default().parse(tokens)
}

fn depths(tokens: &[IntermediateToken]) -> Vec<i32> {
    let mut out = Vec::new();
    for t in tokens {
        match t {
            IntermediateToken::LParen(l)
            | IntermediateToken::RParen(l)
            | IntermediateToken::LCurly(l)
            | IntermediateToken::RCurly(l)
            | IntermediateToken::LBracket(l)
            | IntermediateToken::RBracket(l) => out.push(*l),
            _ => {}
        }
    }
    out
}

#[test]
fn brackets_carry_their_depth() {
    let tagged = annotate("(a (b) c)").unwrap();
    assert_eq!(depths(&tagged), vec![1, 2, 2, 1]);
    assert!(matches!(tagged[0], IntermediateToken::LParen(1)));
    assert!(matches!(tagged[2], IntermediateToken::LParen(2)));
    assert!(matches!(tagged[4], IntermediateToken::RParen(2)));
    assert!(matches!(tagged[6], IntermediateToken::RParen(1)));
    assert!(matches!(tagged[7], IntermediateToken::EOF));
}

#[test]
fn one_counter_for_all_three_kinds() {
    let tagged = annotate("({[]})").unwrap();
    assert_eq!(depths(&tagged), vec![1, 2, 3, 3, 2, 1]);
    assert!(matches!(tagged[1], IntermediateToken::LCurly(2)));
    assert!(matches!(tagged[2], IntermediateToken::LBracket(3)));
    assert!(matches!(tagged[3], IntermediateToken::RBracket(3)));
    assert!(matches!(tagged[4], IntermediateToken::RCurly(2)));
}

#[test]
fn other_tokens_pass_through() {
    let tagged = annotate("#3 x").unwrap();
    assert_eq!(tagged.len(), 4);
    assert!(matches!(tagged[0], IntermediateToken::Hash));
    assert!(matches!(tagged[1], IntermediateToken::Value(Value::Int(3))));
    assert!(matches!(&tagged[2], IntermediateToken::Value(Value::Symbol(s)) if s == "x"));
    assert!(matches!(tagged[3], IntermediateToken::EOF));
}

#[test]
fn missing_closer_is_reported_with_the_open_depth() {
    assert!(matches!(
        annotate("((a)"),
        Err(CIParserError::MissingCloseParen(1))
    ));
    assert!(matches!(
        annotate("([{"),
        Err(CIParserError::MissingCloseParen(3))
    ));
}

#[test]
fn missing_opener_is_reported_where_it_happens() {
    assert!(matches!(
        annotate("a)"),
        Err(CIParserError::MissingOpenParen(-1))
    ));
    assert!(matches!(
        annotate(")("),
        Err(CIParserError::MissingOpenParen(-1))
    ));
    assert!(matches!(
        annotate("(a))(b"),
        Err(CIParserError::MissingOpenParen(-1))
    ));
}

#[test]
fn tokens_without_an_end_are_not_checked_for_balance() {
    let tagged = CIIntermediateTokenizer::default()
        .parse(vec![Token::LParen, Token::LParen])
        .unwrap();
    assert_eq!(depths(&tagged), vec![1, 2]);
}
