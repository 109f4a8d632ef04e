use crate::ast::{Token, TokenView};
use crate::lexer::ci_core_lexer::{core_end, core_step, CICoreLexer, CICoreLexerState};
use crate::lexer::{run_spec, tokenize_with_spec, Lexer, LexerState, SuperLexerState};
use crate::parser_types::CILexerError;
use crate::parsers::ci_lexer::{
    flush_word_spec, initial_state, lex_chars, lex_step, tokenize_spec, LexerStateView,
};
use vstd::prelude::*;

verus! {

/// The state of the lexer of the whole surface syntax.
pub struct CISugarLexerState {
    core_state: CICoreLexerState,
}

impl LexerState for CISugarLexerState {
    closed spec fn state_view(&self) -> LexerStateView {
        self.core_state.state_view()
    }

    fn take_tokens(&mut self) -> (r: Vec<Token>) {
        self.core_state.take_tokens()
    }
}

impl Default for CISugarLexerState {
    fn default() -> (r: Self)
        ensures
            r.state_view() == initial_state(),
    {
        CISugarLexerState { core_state: CICoreLexerState::default() }
    }
}

impl SuperLexerState for CISugarLexerState {
    type SubState = CICoreLexerState;

    closed spec fn raised(&self, sub: LexerStateView) -> LexerStateView {
        sub
    }

    fn sub(&mut self) -> (r: &mut CICoreLexerState) {
        &mut self.core_state
    }
}

/// The token of a marker of the sugars: a curly or square bracket, or the
/// numeral marker.
pub open spec fn sugar_of(c: char) -> Option<TokenView> {
    if c == '{' {
        Some(TokenView::LCurly)
    } else if c == '}' {
        Some(TokenView::RCurly)
    } else if c == '[' {
        Some(TokenView::LBracket)
    } else if c == ']' {
        Some(TokenView::RBracket)
    } else if c == '#' {
        Some(TokenView::Hash)
    } else {
        None
    }
}

/// The state after one more character: a marker of the sugars outside a
/// string ends the word and becomes a token; everything else is left to
/// the lexer below.
pub open spec fn sugar_step(s: LexerStateView, c: char) -> LexerStateView {
    match sugar_of(c) {
        Some(t) => if !s.in_string {
            LexerStateView { tokens: flush_word_spec(s).tokens.push(t), ..flush_word_spec(s) }
        } else {
            core_step(s, c)
        },
        None => core_step(s, c),
    }
}

/// The lexer of the whole surface syntax, built on the lexer of strings
/// and parentheses.
#[derive(Default)]
pub struct CISugarLexer {}

impl Lexer for CISugarLexer {
    type State = CISugarLexerState;

    fn start() -> (r: CISugarLexerState) {
        CISugarLexerState::default()
    }

    open spec fn step_spec(s: LexerStateView, ch: char) -> LexerStateView {
        sugar_step(s, ch)
    }

    open spec fn end_spec(s: LexerStateView) -> Result<LexerStateView, CILexerError> {
        core_end(s)
    }

    fn handle_char(ch: char, state: &mut CISugarLexerState) -> (r: Result<(), CILexerError>) {
        let outside = !state.core_state.is_in_string();
        if outside && ch == '{' {
            state.core_state.flush_word();
            state.core_state.push_token(Token::LCurly);
        } else if outside && ch == '}' {
            state.core_state.flush_word();
            state.core_state.push_token(Token::RCurly);
        } else if outside && ch == '[' {
            state.core_state.flush_word();
            state.core_state.push_token(Token::LBracket);
        } else if outside && ch == ']' {
            state.core_state.flush_word();
            state.core_state.push_token(Token::RBracket);
        } else if outside && ch == '#' {
            state.core_state.flush_word();
            state.core_state.push_token(Token::Hash);
        } else {
            let _ = CICoreLexer::handle_char(ch, &mut state.core_state);
        }
        Ok(())
    }

    fn handle_eof(state: &mut CISugarLexerState) -> (r: Result<(), CILexerError>) {
        CICoreLexer::handle_eof(&mut state.core_state)
    }
}

/// The layers together take a character as the one lexer does.
pub proof fn lemma_sugar_step_is_lex_step(s: LexerStateView, c: char)
    ensures
        sugar_step(s, c) == lex_step(s, c),
{
}

/// The layers together make the same tokens of a text as the one lexer.
pub proof fn lemma_layers_agree_with_lexer(source: Seq<char>)
    ensures
        run_spec::<CISugarLexer>(source) == lex_chars(source),
        tokenize_with_spec::<CISugarLexer>(source) == tokenize_spec(source),
    decreases source.len(),
{
    if source.len() > 0 {
        lemma_layers_agree_with_lexer(source.drop_last());
        lemma_sugar_step_is_lex_step(lex_chars(source.drop_last()), source.last());
    }
}

} // verus!
