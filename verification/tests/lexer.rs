use ci_lisp::ast::{Token, Value};
use ci_lisp::parser_types::{CILexerError, CIParserError};
use ci_lisp::parsers::{CILexer, CIStreamingLexer};

fn lex(source: &str) -> Vec<Token> {
    CILexer::default().tokenize(source).unwrap()
}

fn symbol(name: &str) -> Token {
    Token::Value(Value::Symbol(name.to_string()))
}

#[test]
fn words_and_markers_become_tokens() {
    let tokens = lex("(add 2 \"a b\")");
    assert_eq!(
        tokens,
        vec![
            Token::LParen,
            symbol("add"),
            Token::Value(Value::Int(2)),
            Token::Value(Value::String("a b".to_string())),
            Token::RParen,
            Token::EOF,
        ]
    );
}

#[test]
fn unterminated_string_is_unmatched_quotes() {
    let r = CILexer::default().tokenize("\"abc");
    assert_eq!(r.unwrap_err(), CILexerError::UnmatchedQuotes);
}

#[test]
fn unterminated_string_through_parse_is_a_lexer_error() {
    let r = CILexer::default().parse("\"abc".to_string());
    assert!(matches!(
        r,
        Err(CIParserError::LexerError(CILexerError::UnmatchedQuotes))
    ));
}

#[test]
fn empty_text_is_only_the_end() {
    assert_eq!(lex(""), vec![Token::EOF]);
    assert_eq!(lex(" \n\t "), vec![Token::EOF]);
}

#[test]
fn pending_word_is_flushed_at_the_end() {
    assert_eq!(lex("x"), vec![symbol("x"), Token::EOF]);
    assert_eq!(lex("12"), vec![Token::Value(Value::Int(12)), Token::EOF]);
}

#[test]
fn space_tab_and_newline_separate_words() {
    assert_eq!(
        lex("a b\tc\nd"),
        vec![symbol("a"), symbol("b"), symbol("c"), symbol("d"), Token::EOF]
    );
}

#[test]
fn every_marker_stands_alone() {
    assert_eq!(
        lex("(){}[]#"),
        vec![
            Token::LParen,
            Token::RParen,
            Token::LCurly,
            Token::RCurly,
            Token::LBracket,
            Token::RBracket,
            Token::Hash,
            Token::EOF,
        ]
    );
}

#[test]
fn a_marker_flushes_the_word_before_it() {
    assert_eq!(
        lex("ab(cd"),
        vec![symbol("ab"), Token::LParen, symbol("cd"), Token::EOF]
    );
    assert_eq!(
        lex("#7"),
        vec![Token::Hash, Token::Value(Value::Int(7)), Token::EOF]
    );
}

#[test]
fn a_string_keeps_brackets_and_whitespace() {
    assert_eq!(
        lex("\"( a\t#\n]\""),
        vec![Token::Value(Value::String("( a\t#\n]".to_string())), Token::EOF]
    );
}

#[test]
fn a_quote_ends_the_word_before_it() {
    assert_eq!(
        lex("ab\"cd\"ef"),
        vec![
            symbol("ab"),
            Token::Value(Value::String("cd".to_string())),
            symbol("ef"),
            Token::EOF,
        ]
    );
}

#[test]
fn the_empty_string_is_a_string() {
    assert_eq!(
        lex("\"\""),
        vec![Token::Value(Value::String(String::new())), Token::EOF]
    );
}

#[test]
fn guess_value_reads_integers() {
    assert_eq!(Token::guess_value("0"), Token::Value(Value::Int(0)));
    assert_eq!(Token::guess_value("-17"), Token::Value(Value::Int(-17)));
    assert_eq!(Token::guess_value("+8"), Token::Value(Value::Int(8)));
    assert_eq!(Token::guess_value("007"), Token::Value(Value::Int(7)));
    assert_eq!(
        Token::guess_value("2147483647"),
        Token::Value(Value::Int(i32::MAX))
    );
    assert_eq!(
        Token::guess_value("-2147483648"),
        Token::Value(Value::Int(i32::MIN))
    );
}

#[test]
fn guess_value_trims_before_reading_an_integer() {
    assert_eq!(Token::guess_value("5\r"), Token::Value(Value::Int(5)));
    assert_eq!(Token::guess_value("\u{a0}-3\u{2003}"), Token::Value(Value::Int(-3)));
}

#[test]
fn guess_value_leaves_what_is_no_integer_a_symbol() {
    assert_eq!(Token::guess_value("2147483648"), symbol("2147483648"));
    assert_eq!(Token::guess_value("-2147483649"), symbol("-2147483649"));
    assert_eq!(Token::guess_value("99999999999999999999"), symbol("99999999999999999999"));
    assert_eq!(Token::guess_value("-"), symbol("-"));
    assert_eq!(Token::guess_value("+"), symbol("+"));
    assert_eq!(Token::guess_value("1a"), symbol("1a"));
    assert_eq!(Token::guess_value("--1"), symbol("--1"));
    assert_eq!(Token::guess_value("x\r"), symbol("x\r"));
}

#[test]
fn guess_value_reads_the_other_literals() {
    assert_eq!(
        Token::guess_value("\"hi\""),
        Token::Value(Value::String("hi".to_string()))
    );
    assert_eq!(
        Token::guess_value("'x"),
        Token::Value(Value::Ident("x".to_string()))
    );
    assert_eq!(Token::guess_value("t"), Token::Value(Value::True));
    assert_eq!(Token::guess_value("nil"), Token::Value(Value::Nil));
    assert_eq!(Token::guess_value("tt"), symbol("tt"));
    assert_eq!(Token::guess_value("nil2"), symbol("nil2"));
}

#[test]
fn guess_value_on_the_shortest_words() {
    assert_eq!(Token::guess_value(""), symbol(""));
    assert_eq!(
        Token::guess_value("\""),
        Token::Value(Value::String(String::new()))
    );
    assert_eq!(
        Token::guess_value("'"),
        Token::Value(Value::Ident(String::new()))
    );
}

#[test]
fn streaming_lexer_closes_an_open_string() {
    let tokens = CIStreamingLexer::default()
        .parse("(a \"bc".to_string())
        .unwrap();
    assert_eq!(
        tokens,
        vec![
            Token::LParen,
            symbol("a"),
            Token::Value(Value::String("bc".to_string())),
            Token::EOF,
        ]
    );
}

#[test]
fn streaming_lexer_agrees_on_complete_text() {
    let source = "{'x def [1 #2 \"s\"]}";
    assert_eq!(
        CIStreamingLexer::default().parse(source.to_string()).unwrap(),
        lex(source)
    );
}
