use crate::ast::{lemma_tokens_view_push, tokens_view, Token, TokenView};
use crate::lexer::{Lexer, LexerState};
use crate::parser_types::CILexerError;
use crate::parsers::ci_lexer::{flush_word_spec, initial_state, LexerStateView};
use crate::text::string_push;
use vstd::prelude::*;

verus! {

/// The state of the lexer that knows neither strings nor markers.
pub struct CIBaseLexerState {
    tokens: Vec<Token>,
    cur_word: String,
}

impl LexerState for CIBaseLexerState {
    closed spec fn state_view(&self) -> LexerStateView {
        LexerStateView {
            tokens: tokens_view(self.tokens@),
            cur_word: self.cur_word@,
            in_string: false,
        }
    }

    fn take_tokens(&mut self) -> (r: Vec<Token>) {
        let mut taken: Vec<Token> = Vec::new();
        std::mem::swap(&mut self.tokens, &mut taken);
        assert(self.state_view().tokens =~= Seq::empty());
        taken
    }
}

impl Default for CIBaseLexerState {
    fn default() -> (r: Self)
        ensures
            r.state_view() == initial_state(),
    {
        let r = CIBaseLexerState { tokens: Vec::new(), cur_word: String::new() };
        assert(r.state_view().tokens =~= Seq::empty());
        r
    }
}

impl CIBaseLexerState {
    pub fn push_token(&mut self, token: Token)
        ensures
            final(self).state_view() == (LexerStateView {
                tokens: old(self).state_view().tokens.push(token@),
                ..old(self).state_view()
            }),
    {
        proof {
            lemma_tokens_view_push(self.tokens@, token);
        }
        self.tokens.push(token);
    }

    pub fn push_char(&mut self, ch: char)
        ensures
            final(self).state_view() == (LexerStateView {
                cur_word: old(self).state_view().cur_word.push(ch),
                ..old(self).state_view()
            }),
    {
        string_push(&mut self.cur_word, ch);
    }

    pub fn clear_cur_word(&mut self)
        ensures
            final(self).state_view() == (LexerStateView {
                cur_word: Seq::empty(),
                ..old(self).state_view()
            }),
    {
        self.cur_word = String::new();
    }

    pub fn flush_word(&mut self)
        ensures
            final(self).state_view() == flush_word_spec(old(self).state_view()),
    {
        if !self.cur_word.as_str().is_empty() {
            let token = Token::guess_value(self.cur_word.as_str());
            self.push_token(token);
            self.clear_cur_word();
        }
    }
}

/// The state after the end of a text that is outside a string: the
/// pending word becomes a token, and the end of the input follows.
pub open spec fn base_end(s: LexerStateView) -> LexerStateView {
    LexerStateView {
        tokens: flush_word_spec(s).tokens.push(TokenView::EOF),
        ..flush_word_spec(s)
    }
}

/// The lexer that knows neither strings nor markers: a text is one word.
#[derive(Default)]
pub struct CIBaseLexer {}

impl Lexer for CIBaseLexer {
    type State = CIBaseLexerState;

    fn start() -> (r: CIBaseLexerState) {
        CIBaseLexerState::default()
    }

    open spec fn step_spec(s: LexerStateView, ch: char) -> LexerStateView {
        LexerStateView { cur_word: s.cur_word.push(ch), ..s }
    }

    open spec fn end_spec(s: LexerStateView) -> Result<LexerStateView, CILexerError> {
        Ok(base_end(s))
    }

    fn handle_char(ch: char, state: &mut CIBaseLexerState) -> (r: Result<(), CILexerError>) {
        state.push_char(ch);
        Ok(())
    }

    fn handle_eof(state: &mut CIBaseLexerState) -> (r: Result<(), CILexerError>) {
        state.flush_word();
        state.push_token(Token::EOF);
        Ok(())
    }
}

} // verus!
