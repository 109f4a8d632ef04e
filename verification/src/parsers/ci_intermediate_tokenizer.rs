use crate::ast::{
    itokens_view, lemma_itokens_view_push, tokens_view, IntermediateToken, IntermediateTokenView,
    Token, TokenView,
};
use crate::parser_types::{CIParserError, ParserErrorView};
use vstd::prelude::*;

verus! {

/// What the depth tokenizer has done so far: the tagged tokens, and how
/// many brackets are open.
pub struct TokenizerStateView {
    pub new_tokens: Seq<IntermediateTokenView>,
    pub cur_paren_level: int,
}

pub open spec fn tokenizer_start() -> TokenizerStateView {
    TokenizerStateView { new_tokens: Seq::empty(), cur_paren_level: 0 }
}

/// The state after one more token, and the error that the token brings, if
/// any. An opener is tagged with the depth it opens; a closer with the depth
/// it closes, and is an error where nothing is open; the end of the input
/// is an error where something is still open.
pub open spec fn tokenizer_step(s: TokenizerStateView, t: TokenView) -> (
    TokenizerStateView,
    Option<ParserErrorView>,
) {
    let level = s.cur_paren_level;
    let opened = (level + 1) as i32;
    let closed = level as i32;
    let below = (level - 1) as i32;
    let unmatched = if level - 1 < 0 {
        Some(ParserErrorView::MissingOpenParen(below))
    } else {
        None
    };
    match t {
        TokenView::LParen => (
            TokenizerStateView {
                new_tokens: s.new_tokens.push(IntermediateTokenView::LParen(opened)),
                cur_paren_level: level + 1,
            },
            None,
        ),
        TokenView::LCurly => (
            TokenizerStateView {
                new_tokens: s.new_tokens.push(IntermediateTokenView::LCurly(opened)),
                cur_paren_level: level + 1,
            },
            None,
        ),
        TokenView::LBracket => (
            TokenizerStateView {
                new_tokens: s.new_tokens.push(IntermediateTokenView::LBracket(opened)),
                cur_paren_level: level + 1,
            },
            None,
        ),
        TokenView::Value(v) => (
            TokenizerStateView {
                new_tokens: s.new_tokens.push(IntermediateTokenView::Value(v)),
                cur_paren_level: level,
            },
            None,
        ),
        TokenView::Hash => (
            TokenizerStateView {
                new_tokens: s.new_tokens.push(IntermediateTokenView::Hash),
                cur_paren_level: level,
            },
            None,
        ),
        TokenView::RParen => (
            TokenizerStateView {
                new_tokens: s.new_tokens.push(IntermediateTokenView::RParen(closed)),
                cur_paren_level: level - 1,
            },
            unmatched,
        ),
        TokenView::RCurly => (
            TokenizerStateView {
                new_tokens: s.new_tokens.push(IntermediateTokenView::RCurly(closed)),
                cur_paren_level: level - 1,
            },
            unmatched,
        ),
        TokenView::RBracket => (
            TokenizerStateView {
                new_tokens: s.new_tokens.push(IntermediateTokenView::RBracket(closed)),
                cur_paren_level: level - 1,
            },
            unmatched,
        ),
        TokenView::EOF => (
            TokenizerStateView {
                new_tokens: s.new_tokens.push(IntermediateTokenView::EOF),
                cur_paren_level: level,
            },
            if level < 0 {
                Some(ParserErrorView::MissingOpenParen(closed))
            } else if level > 0 {
                Some(ParserErrorView::MissingCloseParen(closed))
            } else {
                None
            },
        ),
    }
}

/// The tagged tokens of `tokens[from..]`, continuing from the state `s`;
/// the first error on the way, if there is one.
pub open spec fn annotate_from(tokens: Seq<TokenView>, from: int, s: TokenizerStateView) -> Result<
    Seq<IntermediateTokenView>,
    ParserErrorView,
>
    decreases tokens.len() - from,
{
    if from < 0 || from >= tokens.len() {
        Ok(s.new_tokens)
    } else {
        let (next, error) = tokenizer_step(s, tokens[from]);
        match error {
            Some(e) => Err(e),
            None => annotate_from(tokens, from + 1, next),
        }
    }
}

/// The depth-tagged tokens of `tokens`, or the first bracket error.
pub open spec fn annotate_spec(tokens: Seq<TokenView>) -> Result<
    Seq<IntermediateTokenView>,
    ParserErrorView,
> {
    annotate_from(tokens, 0, tokenizer_start())
}

/// What a run of the depth tokenizer returns, as a contract sees it.
pub open spec fn annotated_view(r: Result<Vec<IntermediateToken>, CIParserError>) -> Result<
    Seq<IntermediateTokenView>,
    ParserErrorView,
> {
    match r {
        Ok(tokens) => Ok(itokens_view(tokens@)),
        Err(e) => Err(e@),
    }
}

pub struct CIIntermediateTokenizerState {
    new_tokens: Vec<IntermediateToken>,
    cur_paren_level: i32,
}

impl View for CIIntermediateTokenizerState {
    type V = TokenizerStateView;

    closed spec fn view(&self) -> TokenizerStateView {
        TokenizerStateView {
            new_tokens: itokens_view(self.new_tokens@),
            cur_paren_level: self.cur_paren_level as int,
        }
    }
}

impl Default for CIIntermediateTokenizerState {
    fn default() -> (r: Self)
        ensures
            r@ == tokenizer_start(),
    {
        let r = CIIntermediateTokenizerState { new_tokens: Vec::new(), cur_paren_level: 0 };
        assert(r@.new_tokens =~= Seq::empty());
        r
    }
}

impl CIIntermediateTokenizerState {
    fn push_token(&mut self, token: IntermediateToken)
        ensures
            final(self)@ == (TokenizerStateView {
                new_tokens: old(self)@.new_tokens.push(token@),
                ..old(self)@
            }),
    {
        proof {
            lemma_itokens_view_push(self.new_tokens@, token);
        }
        self.new_tokens.push(token);
    }

    pub fn take_tokens(self) -> (r: Vec<IntermediateToken>)
        ensures
            itokens_view(r@) == self@.new_tokens,
    {
        self.new_tokens
    }
}

/// Tags every bracket with its nesting depth, one counter for the three
/// kinds of bracket.
#[derive(Default)]
pub struct CIIntermediateTokenizer {}

impl CIIntermediateTokenizer {
    pub fn handle_token(token: Token, state: &mut CIIntermediateTokenizerState) -> (r: Result<
        (),
        CIParserError,
    >)
        requires
            i32::MIN < old(state)@.cur_paren_level < i32::MAX,
        ensures
            final(state)@ == tokenizer_step(old(state)@, token@).0,
            match r {
                Ok(_) => tokenizer_step(old(state)@, token@).1 is None,
                Err(e) => tokenizer_step(old(state)@, token@).1 == Some(e@),
            },
    {
        match token {
            Token::LParen => {
                state.cur_paren_level = state.cur_paren_level + 1;
                state.push_token(IntermediateToken::LParen(state.cur_paren_level));
            },
            Token::LCurly => {
                state.cur_paren_level = state.cur_paren_level + 1;
                state.push_token(IntermediateToken::LCurly(state.cur_paren_level));
            },
            Token::LBracket => {
                state.cur_paren_level = state.cur_paren_level + 1;
                state.push_token(IntermediateToken::LBracket(state.cur_paren_level));
            },
            Token::Value(a) => state.push_token(IntermediateToken::Value(a)),
            Token::Hash => state.push_token(IntermediateToken::Hash),
            Token::RParen => {
                state.push_token(IntermediateToken::RParen(state.cur_paren_level));
                state.cur_paren_level = state.cur_paren_level - 1;
                if state.cur_paren_level < 0 {
                    return Err(CIParserError::MissingOpenParen(state.cur_paren_level));
                }
            },
            Token::RCurly => {
                state.push_token(IntermediateToken::RCurly(state.cur_paren_level));
                state.cur_paren_level = state.cur_paren_level - 1;
                if state.cur_paren_level < 0 {
                    return Err(CIParserError::MissingOpenParen(state.cur_paren_level));
                }
            },
            Token::RBracket => {
                state.push_token(IntermediateToken::RBracket(state.cur_paren_level));
                state.cur_paren_level = state.cur_paren_level - 1;
                if state.cur_paren_level < 0 {
                    return Err(CIParserError::MissingOpenParen(state.cur_paren_level));
                }
            },
            Token::EOF => {
                state.push_token(IntermediateToken::EOF);
                if state.cur_paren_level < 0 {
                    return Err(CIParserError::MissingOpenParen(state.cur_paren_level));
                } else if state.cur_paren_level > 0 {
                    return Err(CIParserError::MissingCloseParen(state.cur_paren_level));
                }
            },
        }
        Ok(())
    }

    /// Tags the brackets of `tokens` with their depth.
    pub fn parse(&self, tokens: Vec<Token>) -> (r: Result<Vec<IntermediateToken>, CIParserError>)
        requires
            tokens.len() < i32::MAX,
        ensures
            annotated_view(r) == annotate_spec(tokens_view(tokens@)),
    {
        let mut state = CIIntermediateTokenizerState::default();
        let ghost input = tokens_view(tokens@);
        let mut i: usize = 0;
        while i < tokens.len()
            invariant
                i <= tokens.len() < i32::MAX,
                input == tokens_view(tokens@),
                0 <= state@.cur_paren_level <= i,
                annotate_spec(input) == annotate_from(input, i as int, state@),
            decreases tokens.len() - i,
        {
            match Self::handle_token(tokens[i].clone(), &mut state) {
                Ok(_) => {},
                Err(e) => {
                    return Err(e);
                },
            }
            i += 1;
        }
        Ok(state.take_tokens())
    }
}

} // verus!
