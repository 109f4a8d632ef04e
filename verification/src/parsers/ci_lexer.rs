use crate::ast::{guess_value_spec, lemma_tokens_view_push, tokens_view, Token, TokenView};
use crate::parser_types::{CILexerError, CIParserError, ParserErrorView};
use crate::text::string_push;
use vstd::prelude::*;

verus! {

/// What a lexer has seen so far: the tokens that are complete, the word
/// that is still growing, and whether the text is inside a string.
pub struct LexerStateView {
    pub tokens: Seq<TokenView>,
    pub cur_word: Seq<char>,
    pub in_string: bool,
}

pub open spec fn initial_state() -> LexerStateView {
    LexerStateView { tokens: Seq::empty(), cur_word: Seq::empty(), in_string: false }
}

/// Turns the pending word, if there is one, into a token.
pub open spec fn flush_word_spec(s: LexerStateView) -> LexerStateView {
    if s.cur_word.len() > 0 {
        LexerStateView {
            tokens: s.tokens.push(guess_value_spec(s.cur_word)),
            cur_word: Seq::empty(),
            in_string: s.in_string,
        }
    } else {
        s
    }
}

/// The characters that separate words outside a string.
pub open spec fn is_separator(c: char) -> bool {
    c == ' ' || c == '\n' || c == '\t'
}

/// The token of a character that stands for itself outside a string.
pub open spec fn marker_of(c: char) -> Option<TokenView> {
    if c == '(' {
        Some(TokenView::LParen)
    } else if c == ')' {
        Some(TokenView::RParen)
    } else if c == '{' {
        Some(TokenView::LCurly)
    } else if c == '}' {
        Some(TokenView::RCurly)
    } else if c == '[' {
        Some(TokenView::LBracket)
    } else if c == ']' {
        Some(TokenView::RBracket)
    } else if c == '#' {
        Some(TokenView::Hash)
    } else {
        None
    }
}

/// The state after one more character. A double quote opens or closes a
/// string and belongs to its word; inside a string every other character
/// joins the word; outside, a separator ends the word, a marker ends it
/// and becomes a token, and anything else joins it.
pub open spec fn lex_step(s: LexerStateView, c: char) -> LexerStateView {
    if c == '"' {
        if !s.in_string {
            let f = flush_word_spec(s);
            LexerStateView { tokens: f.tokens, cur_word: f.cur_word.push('"'), in_string: true }
        } else {
            flush_word_spec(
                LexerStateView {
                    tokens: s.tokens,
                    cur_word: s.cur_word.push('"'),
                    in_string: false,
                },
            )
        }
    } else if s.in_string {
        LexerStateView { tokens: s.tokens, cur_word: s.cur_word.push(c), in_string: true }
    } else if is_separator(c) {
        flush_word_spec(s)
    } else {
        match marker_of(c) {
            Some(t) => {
                let f = flush_word_spec(s);
                LexerStateView { tokens: f.tokens.push(t), cur_word: f.cur_word, in_string: false }
            },
            None => LexerStateView {
                tokens: s.tokens,
                cur_word: s.cur_word.push(c),
                in_string: false,
            },
        }
    }
}

/// The state after all of `source`.
pub open spec fn lex_chars(source: Seq<char>) -> LexerStateView
    decreases source.len(),
{
    if source.len() == 0 {
        initial_state()
    } else {
        lex_step(lex_chars(source.drop_last()), source.last())
    }
}

/// The tokens of `source`, ending in `EOF`; an error where `source` ends
/// inside a string.
pub open spec fn tokenize_spec(source: Seq<char>) -> Result<Seq<TokenView>, CILexerError> {
    let s = lex_chars(source);
    if s.in_string {
        Err(CILexerError::UnmatchedQuotes)
    } else {
        Ok(flush_word_spec(s).tokens.push(TokenView::EOF))
    }
}

/// What a run of the lexer returns, as a contract sees it.
pub open spec fn lexed_view(r: Result<Vec<Token>, CILexerError>) -> Result<
    Seq<TokenView>,
    CILexerError,
> {
    match r {
        Ok(tokens) => Ok(tokens_view(tokens@)),
        Err(e) => Err(e),
    }
}

pub struct CILexerState {
    tokens: Vec<Token>,
    cur_word: String,
    in_string: bool,
}

impl View for CILexerState {
    type V = LexerStateView;

    closed spec fn view(&self) -> LexerStateView {
        LexerStateView {
            tokens: tokens_view(self.tokens@),
            cur_word: self.cur_word@,
            in_string: self.in_string,
        }
    }
}

impl Default for CILexerState {
    fn default() -> (r: Self)
        ensures
            r@ == initial_state(),
    {
        let r = CILexerState { tokens: Vec::new(), cur_word: String::new(), in_string: false };
        assert(r@.tokens =~= Seq::empty());
        r
    }
}

impl CILexerState {
    pub fn push_token(&mut self, token: Token)
        ensures
            final(self)@ == (LexerStateView {
                tokens: old(self)@.tokens.push(token@),
                ..old(self)@
            }),
    {
        proof {
            lemma_tokens_view_push(self.tokens@, token);
        }
        self.tokens.push(token);
    }

    pub fn push_char(&mut self, ch: char)
        ensures
            final(self)@ == (LexerStateView {
                cur_word: old(self)@.cur_word.push(ch),
                ..old(self)@
            }),
    {
        string_push(&mut self.cur_word, ch);
    }

    pub fn toggle_in_string(&mut self)
        ensures
            final(self)@ == (LexerStateView { in_string: !old(self)@.in_string, ..old(self)@ }),
    {
        self.in_string = !self.in_string;
    }

    pub fn clear_cur_word(&mut self)
        ensures
            final(self)@ == (LexerStateView { cur_word: Seq::empty(), ..old(self)@ }),
    {
        self.cur_word = String::new();
    }

    pub fn flush_word(&mut self)
        ensures
            final(self)@ == flush_word_spec(old(self)@),
    {
        if !self.cur_word.as_str().is_empty() {
            let token = Token::guess_value(self.cur_word.as_str());
            self.push_token(token);
            self.clear_cur_word();
        }
    }

    pub fn take_tokens(self) -> (r: Vec<Token>)
        ensures
            tokens_view(r@) == self@.tokens,
    {
        self.tokens
    }

    pub fn is_in_string(&self) -> (r: bool)
        ensures
            r == self@.in_string,
    {
        self.in_string
    }
}

/// The lexer that rejects a text that ends inside a string.
#[derive(Default)]
pub struct CILexer {}

impl CILexer {
    pub fn handle_char(ch: char, state: &mut CILexerState) -> (r: Result<(), CILexerError>)
        ensures
            r is Ok,
            final(state)@ == lex_step(old(state)@, ch),
    {
        if ch == '"' {
            if !state.is_in_string() {
                state.flush_word();
                state.toggle_in_string();
                state.push_char('"');
            } else {
                state.push_char('"');
                state.toggle_in_string();
                state.flush_word();
            }
        } else if state.is_in_string() {
            state.push_char(ch);
        } else if ch == ' ' || ch == '\n' || ch == '\t' {
            state.flush_word();
        } else if ch == '(' {
            state.flush_word();
            state.push_token(Token::LParen);
        } else if ch == ')' {
            state.flush_word();
            state.push_token(Token::RParen);
        } else if ch == '{' {
            state.flush_word();
            state.push_token(Token::LCurly);
        } else if ch == '}' {
            state.flush_word();
            state.push_token(Token::RCurly);
        } else if ch == '[' {
            state.flush_word();
            state.push_token(Token::LBracket);
        } else if ch == ']' {
            state.flush_word();
            state.push_token(Token::RBracket);
        } else if ch == '#' {
            state.flush_word();
            state.push_token(Token::Hash);
        } else {
            state.push_char(ch);
        }
        Ok(())
    }

    pub fn handle_eof(state: &mut CILexerState) -> (r: Result<(), CILexerError>)
        ensures
            old(state)@.in_string ==> r == Err::<(), CILexerError>(CILexerError::UnmatchedQuotes)
                && final(state)@ == old(state)@,
            !old(state)@.in_string ==> r is Ok && final(state)@ == (LexerStateView {
                tokens: flush_word_spec(old(state)@).tokens.push(TokenView::EOF),
                ..flush_word_spec(old(state)@)
            }),
    {
        if state.is_in_string() {
            return Err(CILexerError::UnmatchedQuotes);
        }
        state.flush_word();
        state.push_token(Token::EOF);
        Ok(())
    }

    /// Splits `input` into tokens.
    pub fn tokenize(&self, input: &str) -> (r: Result<Vec<Token>, CILexerError>)
        ensures
            lexed_view(r) == tokenize_spec(input@),
    {
        let mut state = CILexerState::default();
        assert(input@.subrange(0, 0) =~= Seq::<char>::empty());
        for c in it: input.chars()
            invariant
                it.seq() == input@,
                state@ == lex_chars(input@.subrange(0, it.index() as int)),
        {
            assert(input@.subrange(0, it.index() + 1).drop_last() =~= input@.subrange(
                0,
                it.index() as int,
            ));
            let _ = Self::handle_char(c, &mut state);
        }
        assert(input@.subrange(0, input@.len() as int) =~= input@);
        match Self::handle_eof(&mut state) {
            Ok(()) => Ok(state.take_tokens()),
            Err(e) => Err(e),
        }
    }

    /// Splits `tokens`, a source text, into tokens.
    pub fn parse(&self, tokens: String) -> (r: Result<Vec<Token>, CIParserError>)
        ensures
            match r {
                Ok(out) => tokenize_spec(tokens@) == Ok::<Seq<TokenView>, CILexerError>(
                    tokens_view(out@),
                ),
                Err(e) => tokenize_spec(tokens@) is Err && e@ == ParserErrorView::LexerError(
                    tokenize_spec(tokens@)->Err_0,
                ),
            },
    {
        match self.tokenize(tokens.as_str()) {
            Ok(out) => Ok(out),
            Err(e) => Err(CIParserError::LexerError(e)),
        }
    }
}

} // verus!
