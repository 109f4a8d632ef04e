use crate::ast::{Token, TokenView};
use crate::lexer::ci_base_lexer::{base_end, CIBaseLexer, CIBaseLexerState};
use crate::lexer::{Lexer, LexerState, SuperLexerState};
use crate::parser_types::CILexerError;
use crate::parsers::ci_lexer::{
    flush_word_spec, initial_state, is_separator, LexerStateView,
};
use vstd::prelude::*;

verus! {

/// The state of the lexer of strings and parentheses.
pub struct CICoreLexerState {
    base_state: CIBaseLexerState,
    in_string: bool,
}

impl LexerState for CICoreLexerState {
    closed spec fn state_view(&self) -> LexerStateView {
        LexerStateView { in_string: self.in_string, ..self.base_state.state_view() }
    }

    fn take_tokens(&mut self) -> (r: Vec<Token>) {
        self.base_state.take_tokens()
    }
}

impl Default for CICoreLexerState {
    fn default() -> (r: Self)
        ensures
            r.state_view() == initial_state(),
    {
        CICoreLexerState { base_state: CIBaseLexerState::default(), in_string: false }
    }
}

impl CICoreLexerState {
    pub fn is_in_string(&self) -> (r: bool)
        ensures
            r == self.state_view().in_string,
    {
        self.in_string
    }

    pub fn toggle_in_string(&mut self)
        ensures
            final(self).state_view() == (LexerStateView {
                in_string: !old(self).state_view().in_string,
                ..old(self).state_view()
            }),
    {
        self.in_string = !self.in_string;
    }

    pub fn push_token(&mut self, token: Token)
        ensures
            final(self).state_view() == (LexerStateView {
                tokens: old(self).state_view().tokens.push(token@),
                ..old(self).state_view()
            }),
    {
        self.base_state.push_token(token);
    }

    pub fn push_char(&mut self, ch: char)
        ensures
            final(self).state_view() == (LexerStateView {
                cur_word: old(self).state_view().cur_word.push(ch),
                ..old(self).state_view()
            }),
    {
        self.base_state.push_char(ch);
    }

    pub fn flush_word(&mut self)
        ensures
            final(self).state_view() == flush_word_spec(old(self).state_view()),
    {
        self.base_state.flush_word();
    }
}

impl SuperLexerState for CICoreLexerState {
    type SubState = CIBaseLexerState;

    closed spec fn raised(&self, sub: LexerStateView) -> LexerStateView {
        LexerStateView { in_string: self.in_string, ..sub }
    }

    fn sub(&mut self) -> (r: &mut CIBaseLexerState) {
        &mut self.base_state
    }
}

/// The token of a parenthesis.
pub open spec fn paren_of(c: char) -> Option<TokenView> {
    if c == '(' {
        Some(TokenView::LParen)
    } else if c == ')' {
        Some(TokenView::RParen)
    } else {
        None
    }
}

/// The state after one more character, for the lexer that knows strings
/// and parentheses and takes every other marker for a part of a word.
pub open spec fn core_step(s: LexerStateView, c: char) -> LexerStateView {
    if c == '"' {
        if !s.in_string {
            let f = flush_word_spec(s);
            LexerStateView { tokens: f.tokens, cur_word: f.cur_word.push('"'), in_string: true }
        } else {
            flush_word_spec(
                LexerStateView {
                    tokens: s.tokens,
                    cur_word: s.cur_word.push('"'),
                    in_string: false,
                },
            )
        }
    } else if s.in_string {
        LexerStateView { cur_word: s.cur_word.push(c), ..s }
    } else if is_separator(c) {
        flush_word_spec(s)
    } else {
        match paren_of(c) {
            Some(t) => LexerStateView {
                tokens: flush_word_spec(s).tokens.push(t),
                ..flush_word_spec(s)
            },
            None => LexerStateView { cur_word: s.cur_word.push(c), ..s },
        }
    }
}

/// The state after the end of the text: an error inside a string.
pub open spec fn core_end(s: LexerStateView) -> Result<LexerStateView, CILexerError> {
    if s.in_string {
        Err(CILexerError::UnmatchedQuotes)
    } else {
        Ok(base_end(s))
    }
}

/// The lexer of strings and parentheses, built on the lexer of words.
#[derive(Default)]
pub struct CICoreLexer {}

impl Lexer for CICoreLexer {
    type State = CICoreLexerState;

    fn start() -> (r: CICoreLexerState) {
        CICoreLexerState::default()
    }

    open spec fn step_spec(s: LexerStateView, ch: char) -> LexerStateView {
        core_step(s, ch)
    }

    open spec fn end_spec(s: LexerStateView) -> Result<LexerStateView, CILexerError> {
        core_end(s)
    }

    fn handle_char(ch: char, state: &mut CICoreLexerState) -> (r: Result<(), CILexerError>) {
        if ch == '"' {
            if !state.is_in_string() {
                state.flush_word();
                state.toggle_in_string();
                state.push_char('"');
            } else {
                state.push_char('"');
                state.toggle_in_string();
                state.flush_word();
            }
        } else if state.is_in_string() {
            state.push_char(ch);
        } else if ch == ' ' || ch == '\n' || ch == '\t' {
            state.flush_word();
        } else if ch == '(' {
            state.flush_word();
            state.push_token(Token::LParen);
        } else if ch == ')' {
            state.flush_word();
            state.push_token(Token::RParen);
        } else {
            let _ = CIBaseLexer::handle_char(ch, &mut state.base_state);
        }
        Ok(())
    }

    fn handle_eof(state: &mut CICoreLexerState) -> (r: Result<(), CILexerError>) {
        if state.is_in_string() {
            return Err(CILexerError::UnmatchedQuotes);
        }
        CIBaseLexer::handle_eof(&mut state.base_state)
    }
}

} // verus!
