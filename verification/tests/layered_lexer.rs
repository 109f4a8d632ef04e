use ci_lisp::ast::{Token, Value};
use ci_lisp::lexer::{
    tokenize, CIBaseLexer, CIBaseLexerState, CICoreLexer, CICoreLexerState, CILexerError,
    CISugarLexer, CISugarLexerState, Lexer, LexerState, SuperLexerState,
};
use ci_lisp::parsers::CILexer;

fn symbol(name: &str) -> Token {
    Token::Value(Value::Symbol(name.to_string()))
}

#[test]
fn the_base_lexer_takes_a_text_for_one_word() {
    assert_eq!(
        tokenize::<CIBaseLexer>("(a b)").unwrap(),
        vec![symbol("(a b)"), Token::EOF]
    );
    assert_eq!(tokenize::<CIBaseLexer>("").unwrap(), vec![Token::EOF]);
    assert_eq!(
        tokenize::<CIBaseLexer>("42").unwrap(),
        vec![Token::Value(Value::Int(42)), Token::EOF]
    );
}

#[test]
fn the_core_lexer_knows_strings_and_parentheses() {
    assert_eq!(
        tokenize::<CICoreLexer>("(f \"a b\" {x})").unwrap(),
        vec![
            Token::LParen,
            symbol("f"),
            Token::Value(Value::String("a b".to_string())),
            symbol("{x}"),
            Token::RParen,
            Token::EOF,
        ]
    );
    assert_eq!(
        tokenize::<CICoreLexer>("#1 [2]").unwrap(),
        vec![symbol("#1"), symbol("[2]"), Token::EOF]
    );
    assert_eq!(
        tokenize::<CICoreLexer>("\"open").unwrap_err(),
        CILexerError::UnmatchedQuotes
    );
}

#[test]
fn the_sugar_lexer_agrees_with_the_lexer() {
    for source in [
        "",
        "x",
        "(add 2 \"a b\")",
        "{'x def [1 #2 \"s{}\"]}",
        "a\tb\nc  d",
        "ab\"cd\"ef(gh)ij",
        "(){}[]#",
    ] {
        assert_eq!(
            tokenize::<CISugarLexer>(source).unwrap(),
            CILexer::default().tokenize(source).unwrap(),
            "{}",
            source
        );
    }
    assert_eq!(
        tokenize::<CISugarLexer>("{\"a").unwrap_err(),
        CILexerError::UnmatchedQuotes
    );
}

#[test]
fn the_base_state_collects_words() {
    let mut state = CIBaseLexerState::default();
    state.push_char('h');
    state.push_char('i');
    state.flush_word();
    state.flush_word();
    state.push_token(Token::Hash);
    state.push_char('x');
    state.clear_cur_word();
    state.flush_word();
    assert_eq!(state.take_tokens(), vec![symbol("hi"), Token::Hash]);
    assert_eq!(state.take_tokens(), Vec::new());
}

#[test]
fn the_core_state_tracks_strings() {
    let mut state = CICoreLexerState::default();
    assert!(!state.is_in_string());
    state.toggle_in_string();
    assert!(state.is_in_string());
    state.toggle_in_string();
    assert!(!state.is_in_string());
}

#[test]
fn a_state_gives_the_state_below() {
    let mut state = CISugarLexerState::default();
    state.sub().toggle_in_string();
    state.sub().sub().push_char('"');
    state.sub().sub().push_char('"');
    state.sub().sub().flush_word();
    assert!(state.sub().is_in_string());
    assert_eq!(
        state.take_tokens(),
        vec![Token::Value(Value::String(String::new()))]
    );
}

#[test]
fn a_lexer_takes_characters_one_by_one() {
    let mut state = CISugarLexer::start();
    for c in "[a]".chars() {
        CISugarLexer::handle_char(c, &mut state).unwrap();
    }
    CISugarLexer::handle_eof(&mut state).unwrap();
    assert_eq!(
        state.take_tokens(),
        vec![Token::LBracket, symbol("a"), Token::RBracket, Token::EOF]
    );
    let mut open = CICoreLexer::start();
    CICoreLexer::handle_char('"', &mut open).unwrap();
    assert_eq!(
        CICoreLexer::handle_eof(&mut open).unwrap_err(),
        CILexerError::UnmatchedQuotes
    );
}
