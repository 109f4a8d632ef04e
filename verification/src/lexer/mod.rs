use crate::ast::{tokens_view, TokenView};
use crate::parsers::ci_lexer::{initial_state, lexed_view, LexerStateView};
use vstd::prelude::*;

pub mod ci_base_lexer;
pub mod ci_core_lexer;
pub mod ci_sugar_lexer;

pub use crate::ast::{Token, Value};
pub use crate::parser_types::CILexerError;
pub use ci_base_lexer::{CIBaseLexer, CIBaseLexerState};
pub use ci_core_lexer::{CICoreLexer, CICoreLexerState};
pub use ci_sugar_lexer::{CISugarLexer, CISugarLexerState};

verus! {

/// The state of a lexer: it holds the tokens that are complete.
pub trait LexerState {
    /// What the state is to a contract.
    spec fn state_view(&self) -> LexerStateView;

    /// Hands out the tokens and keeps none.
    fn take_tokens(&mut self) -> (r: Vec<Token>)
        ensures
            tokens_view(r@) == old(self).state_view().tokens,
            final(self).state_view() == (LexerStateView {
                tokens: Seq::empty(),
                ..old(self).state_view()
            }),
    ;
}

/// The state of a lexer that is built on another: it holds the state of
/// the lexer below.
pub trait SuperLexerState: LexerState {
    type SubState: LexerState;

    /// What this state is to a contract when the state below is `sub`.
    spec fn raised(&self, sub: LexerStateView) -> LexerStateView;

    /// The state of the lexer below. What is done to it is done to this state.
    fn sub(&mut self) -> (r: &mut Self::SubState)
        ensures
            old(self).raised(r.state_view()) == old(self).state_view(),
            final(self).state_view() == old(self).raised(final(r).state_view()),
    ;
}

/// A lexer: a rule that takes a text character by character.
pub trait Lexer {
    type State: LexerState;

    /// The state that every text starts in.
    fn start() -> (r: Self::State)
        ensures
            r.state_view() == initial_state(),
    ;

    /// The state after one more character.
    spec fn step_spec(s: LexerStateView, ch: char) -> LexerStateView;

    /// The state after the end of the text, or the error of a text that
    /// cannot end there.
    spec fn end_spec(s: LexerStateView) -> Result<LexerStateView, CILexerError>;

    fn handle_char(ch: char, state: &mut Self::State) -> (r: Result<(), CILexerError>)
        ensures
            r is Ok,
            final(state).state_view() == Self::step_spec(old(state).state_view(), ch),
    ;

    fn handle_eof(state: &mut Self::State) -> (r: Result<(), CILexerError>)
        ensures
            match r {
                Ok(_) => Self::end_spec(old(state).state_view()) == Ok::<
                    LexerStateView,
                    CILexerError,
                >(final(state).state_view()),
                Err(e) => Self::end_spec(old(state).state_view()) == Err::<
                    LexerStateView,
                    CILexerError,
                >(e),
            },
    ;
}

/// The state of the lexer `L` after all of `source`.
pub open spec fn run_spec<L: Lexer>(source: Seq<char>) -> LexerStateView
    decreases source.len(),
{
    if source.len() == 0 {
        initial_state()
    } else {
        L::step_spec(run_spec::<L>(source.drop_last()), source.last())
    }
}

/// The tokens that the lexer `L` makes of `source`.
pub open spec fn tokenize_with_spec<L: Lexer>(source: Seq<char>) -> Result<
    Seq<TokenView>,
    CILexerError,
> {
    match L::end_spec(run_spec::<L>(source)) {
        Ok(s) => Ok(s.tokens),
        Err(e) => Err(e),
    }
}

/// Splits `input` into tokens by the rule of the lexer `L`.
pub fn tokenize<L: Lexer>(input: &str) -> (r: Result<Vec<Token>, CILexerError>)
    ensures
        lexed_view(r) == tokenize_with_spec::<L>(input@),
{
    let mut state = L::start();
    assert(input@.subrange(0, 0) =~= Seq::<char>::empty());
    for c in it: input.chars()
        invariant
            it.seq() == input@,
            state.state_view() == run_spec::<L>(input@.subrange(0, it.index() as int)),
    {
        assert(input@.subrange(0, it.index() + 1).drop_last() =~= input@.subrange(
            0,
            it.index() as int,
        ));
        let _ = L::handle_char(c, &mut state);
    }
    assert(input@.subrange(0, input@.len() as int) =~= input@);
    match L::handle_eof(&mut state) {
        Ok(_) => Ok(state.take_tokens()),
        Err(e) => Err(e),
    }
}

} // verus!
