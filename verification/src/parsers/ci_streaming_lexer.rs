use crate::ast::{lemma_tokens_view_push, tokens_view, Token, TokenView};
use crate::parser_types::{CILexerError, CIParserError};
use crate::parsers::ci_lexer::{
    flush_word_spec, initial_state, lex_chars, lex_step, tokenize_spec, LexerStateView,
};
use crate::text::string_push;
use vstd::prelude::*;

verus! {

/// The tokens of `source`, ending in `EOF`. A string that `source` leaves
/// open is closed where `source` ends.
pub open spec fn streaming_tokenize_spec(source: Seq<char>) -> Seq<TokenView> {
    let s = lex_chars(source);
    let ended = if s.in_string {
        lex_step(s, '"')
    } else {
        flush_word_spec(s)
    };
    ended.tokens.push(TokenView::EOF)
}

pub struct CIStreamingLexerState {
    tokens: Vec<Token>,
    cur_word: String,
    in_string: bool,
}

impl View for CIStreamingLexerState {
    type V = LexerStateView;

    closed spec fn view(&self) -> LexerStateView {
        LexerStateView {
            tokens: tokens_view(self.tokens@),
            cur_word: self.cur_word@,
            in_string: self.in_string,
        }
    }
}

impl Default for CIStreamingLexerState {
    fn default() -> (r: Self)
        ensures
            r@ == initial_state(),
    {
        let r = CIStreamingLexerState {
            tokens: Vec::new(),
            cur_word: String::new(),
            in_string: false,
        };
        assert(r@.tokens =~= Seq::empty());
        r
    }
}

impl CIStreamingLexerState {
    pub fn push_token(&mut self, token: Token)
        ensures
            final(self)@ == (LexerStateView {
                tokens: old(self)@.tokens.push(token@),
                ..old(self)@
            }),
    {
        proof {
            lemma_tokens_view_push(self.tokens@, token);
        }
        self.tokens.push(token);
    }

    pub fn push_char(&mut self, ch: char)
        ensures
            final(self)@ == (LexerStateView {
                cur_word: old(self)@.cur_word.push(ch),
                ..old(self)@
            }),
    {
        string_push(&mut self.cur_word, ch);
    }

    pub fn toggle_in_string(&mut self)
        ensures
            final(self)@ == (LexerStateView { in_string: !old(self)@.in_string, ..old(self)@ }),
    {
        self.in_string = !self.in_string;
    }

    pub fn clear_cur_word(&mut self)
        ensures
            final(self)@ == (LexerStateView { cur_word: Seq::empty(), ..old(self)@ }),
    {
        self.cur_word = String::new();
    }

    pub fn flush_word(&mut self)
        ensures
            final(self)@ == flush_word_spec(old(self)@),
    {
        if !self.cur_word.as_str().is_empty() {
            let token = Token::guess_value(self.cur_word.as_str());
            self.push_token(token);
            self.clear_cur_word();
        }
    }

    pub fn take_tokens(self) -> (r: Vec<Token>)
        ensures
            tokens_view(r@) == self@.tokens,
    {
        self.tokens
    }

    pub fn is_in_string(&self) -> (r: bool)
        ensures
            r == self@.in_string,
    {
        self.in_string
    }
}

/// The lexer for text that is still being typed: it never fails, and
/// closes a string that the text leaves open.
#[derive(Default)]
pub struct CIStreamingLexer {}

impl CIStreamingLexer {
    pub fn handle_char(ch: char, state: &mut CIStreamingLexerState)
        ensures
            final(state)@ == lex_step(old(state)@, ch),
    {
        let outside = !state.is_in_string();
        match ch {
            '"' => {
                if outside {
                    state.flush_word();
                    state.toggle_in_string();
                    state.push_char('"');
                } else {
                    state.push_char('"');
                    state.toggle_in_string();
                    state.flush_word();
                }
            },
            ' ' if outside => {
                state.flush_word();
            },
            '\n' if outside => {
                state.flush_word();
            },
            '\t' if outside => {
                state.flush_word();
            },
            '(' if outside => {
                state.flush_word();
                state.push_token(Token::LParen);
            },
            ')' if outside => {
                state.flush_word();
                state.push_token(Token::RParen);
            },
            '{' if outside => {
                state.flush_word();
                state.push_token(Token::LCurly);
            },
            '}' if outside => {
                state.flush_word();
                state.push_token(Token::RCurly);
            },
            '[' if outside => {
                state.flush_word();
                state.push_token(Token::LBracket);
            },
            ']' if outside => {
                state.flush_word();
                state.push_token(Token::RBracket);
            },
            '#' if outside => {
                state.flush_word();
                state.push_token(Token::Hash);
            },
            a => state.push_char(a),
        }
    }

    /// Splits `tokens`, a source text, into tokens.
    pub fn parse(&self, tokens: String) -> (r: Result<Vec<Token>, CIParserError>)
        ensures
            r is Ok,
            tokens_view(r->Ok_0@) == streaming_tokenize_spec(tokens@),
    {
        let input = tokens.as_str();
        let mut state = CIStreamingLexerState::default();
        assert(input@.subrange(0, 0) =~= Seq::<char>::empty());
        for c in it: input.chars()
            invariant
                it.seq() == input@,
                state@ == lex_chars(input@.subrange(0, it.index() as int)),
        {
            assert(input@.subrange(0, it.index() + 1).drop_last() =~= input@.subrange(
                0,
                it.index() as int,
            ));
            Self::handle_char(c, &mut state);
        }
        assert(input@.subrange(0, input@.len() as int) =~= input@);
        if state.is_in_string() {
            Self::handle_char('"', &mut state);
        } else {
            state.flush_word();
        }
        state.push_token(Token::EOF);
        Ok(state.take_tokens())
    }
}

/// On a text that ends outside a string, the lexer that never fails
/// makes the tokens that the lexer that may fail makes.
pub proof fn lemma_streaming_agrees_on_complete_text(source: Seq<char>)
    requires
        !lex_chars(source).in_string,
    ensures
        tokenize_spec(source) == Ok::<Seq<TokenView>, CILexerError>(
            streaming_tokenize_spec(source),
        ),
{
}

/// On a text that ends inside a string, the lexer that never fails makes
/// the tokens of the text with a closing quote after it.
pub proof fn lemma_streaming_closes_the_string(source: Seq<char>)
    requires
        lex_chars(source).in_string,
    ensures
        tokenize_spec(source) == Err::<Seq<TokenView>, CILexerError>(
            CILexerError::UnmatchedQuotes,
        ),
        tokenize_spec(source.push('"')) == Ok::<Seq<TokenView>, CILexerError>(
            streaming_tokenize_spec(source),
        ),
{
    let closed = source.push('"');
    assert(closed.drop_last() =~= source);
    assert(closed.last() == '"');
    let s = lex_chars(closed);
    assert(s == lex_step(lex_chars(source), '"'));
    assert(flush_word_spec(s) == s);
}

} // verus!
