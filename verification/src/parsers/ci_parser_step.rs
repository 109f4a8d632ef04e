use crate::ast::{
    itokens_view, lemma_itokens_view_push, lemma_nodes_view_push, nodes_view, AstNode,
    IntermediateToken, IntermediateTokenView, NodeView, Value, ValueView,
};
use crate::parser_types::{CIParserError, ParserErrorView};
use crate::parsers::ci_new_parser::{
    build_infix, build_list, build_paren, church, church_numeral, close_form, FormKind,
};
use vstd::prelude::*;

verus! {

/// The depth of a bracket; nothing for a token that is no bracket.
pub open spec fn level_of(t: IntermediateTokenView) -> Option<i32> {
    match t {
        IntermediateTokenView::LParen(l) => Some(l),
        IntermediateTokenView::RParen(l) => Some(l),
        IntermediateTokenView::LCurly(l) => Some(l),
        IntermediateTokenView::RCurly(l) => Some(l),
        IntermediateTokenView::LBracket(l) => Some(l),
        IntermediateTokenView::RBracket(l) => Some(l),
        _ => None,
    }
}

/// The greater of a depth, if there is one, and the depth of `t`, if it has one.
pub open spec fn deeper(best: Option<i32>, t: IntermediateTokenView) -> Option<i32> {
    match (best, level_of(t)) {
        (Some(a), Some(b)) => if a >= b {
            Some(a)
        } else {
            Some(b)
        },
        (None, Some(b)) => Some(b),
        (_, None) => best,
    }
}

/// The greatest depth among the brackets of `tokens`, if it holds a bracket.
pub open spec fn deepest(tokens: Seq<IntermediateTokenView>) -> Option<i32>
    decreases tokens.len(),
{
    if tokens.len() == 0 {
        None
    } else {
        deeper(deepest(tokens.drop_last()), tokens.last())
    }
}

/// The depth that one pass reduces: that of the deepest bracket, or 0
/// where there is none.
pub open spec fn highest_level_spec(tokens: Seq<IntermediateTokenView>) -> i32 {
    match deepest(tokens) {
        Some(l) => l,
        None => 0,
    }
}

/// Where a pass stands: the tokens it has put out, the depth it reduces,
/// the bracket it is in and the children collected there, and whether the
/// last token was the numeral marker.
pub struct StepStateView {
    pub new_tokens: Seq<IntermediateTokenView>,
    pub highest_level: i32,
    pub open: Option<FormKind>,
    pub children: Seq<NodeView>,
    pub after_hash: bool,
}

pub open spec fn step_start(highest_level: i32) -> StepStateView {
    StepStateView {
        new_tokens: Seq::empty(),
        highest_level,
        open: None,
        children: Seq::empty(),
        after_hash: false,
    }
}

/// The state after a form: it joins the children of the bracket that the
/// pass is in, or goes out as a token where the pass is in none.
pub open spec fn take_node(s: StepStateView, node: NodeView) -> StepStateView {
    if s.open is Some {
        StepStateView { children: s.children.push(node), after_hash: false, ..s }
    } else {
        StepStateView {
            new_tokens: s.new_tokens.push(IntermediateTokenView::AstNode(node)),
            after_hash: false,
            ..s
        }
    }
}

/// The state after an opener of `kind` at the depth that the pass reduces.
pub open spec fn open_group(s: StepStateView, kind: FormKind, t: IntermediateTokenView) -> Result<
    StepStateView,
    ParserErrorView,
> {
    if s.open is Some {
        Err(ParserErrorView::UnexpectedToken(t))
    } else {
        Ok(StepStateView { open: Some(kind), children: Seq::empty(), ..s })
    }
}

/// The state after a closer of `kind` at the depth that the pass reduces:
/// the children collected since the opener become one form.
pub open spec fn close_group(s: StepStateView, kind: FormKind, t: IntermediateTokenView) -> Result<
    StepStateView,
    ParserErrorView,
> {
    if s.open == Some(kind) {
        match close_form(kind, s.children) {
            Ok(node) => Ok(
                StepStateView {
                    new_tokens: s.new_tokens.push(IntermediateTokenView::AstNode(node)),
                    open: None,
                    children: Seq::empty(),
                    ..s
                },
            ),
            Err(e) => Err(e),
        }
    } else {
        Err(ParserErrorView::UnexpectedToken(t))
    }
}

/// The state of a pass after one more token. The innermost brackets, those
/// at the depth that the pass reduces, are replaced by the form they
/// stand for; a value becomes a form; the numeral marker and the natural
/// number after it become a Church numeral; the end of the input is
/// dropped; every other token goes out as it came.
pub open spec fn step_token_spec(s: StepStateView, t: IntermediateTokenView) -> Result<
    StepStateView,
    ParserErrorView,
> {
    if s.after_hash {
        match t {
            IntermediateTokenView::Value(ValueView::Int(n)) => if n >= 0 {
                Ok(take_node(s, church_numeral(n as nat)))
            } else {
                Err(ParserErrorView::UnexpectedToken(t))
            },
            _ => Err(ParserErrorView::UnexpectedToken(t)),
        }
    } else {
        match t {
            IntermediateTokenView::Hash => Ok(StepStateView { after_hash: true, ..s }),
            IntermediateTokenView::Value(v) => Ok(take_node(s, NodeView::Value(v))),
            IntermediateTokenView::AstNode(n) => Ok(take_node(s, n)),
            IntermediateTokenView::EOF => Ok(s),
            IntermediateTokenView::LParen(l) => if l == s.highest_level {
                open_group(s, FormKind::Paren, t)
            } else {
                Ok(StepStateView { new_tokens: s.new_tokens.push(t), ..s })
            },
            IntermediateTokenView::LCurly(l) => if l == s.highest_level {
                open_group(s, FormKind::Curly, t)
            } else {
                Ok(StepStateView { new_tokens: s.new_tokens.push(t), ..s })
            },
            IntermediateTokenView::LBracket(l) => if l == s.highest_level {
                open_group(s, FormKind::Bracket, t)
            } else {
                Ok(StepStateView { new_tokens: s.new_tokens.push(t), ..s })
            },
            IntermediateTokenView::RParen(l) => if l == s.highest_level {
                close_group(s, FormKind::Paren, t)
            } else {
                Ok(StepStateView { new_tokens: s.new_tokens.push(t), ..s })
            },
            IntermediateTokenView::RCurly(l) => if l == s.highest_level {
                close_group(s, FormKind::Curly, t)
            } else {
                Ok(StepStateView { new_tokens: s.new_tokens.push(t), ..s })
            },
            IntermediateTokenView::RBracket(l) => if l == s.highest_level {
                close_group(s, FormKind::Bracket, t)
            } else {
                Ok(StepStateView { new_tokens: s.new_tokens.push(t), ..s })
            },
        }
    }
}

/// The state of a pass after `tokens[from..]`, continuing from `s`.
pub open spec fn pass_from(tokens: Seq<IntermediateTokenView>, from: int, s: StepStateView)
    -> Result<StepStateView, ParserErrorView>
    decreases tokens.len() - from,
{
    if from < 0 || from >= tokens.len() {
        Ok(s)
    } else {
        match step_token_spec(s, tokens[from]) {
            Err(e) => Err(e),
            Ok(next) => pass_from(tokens, from + 1, next),
        }
    }
}

/// What a pass makes of the state it ends in: a bracket that is still
/// open, or a numeral marker without its number, is an error.
pub open spec fn finish_pass(s: StepStateView) -> Result<
    Seq<IntermediateTokenView>,
    ParserErrorView,
> {
    if s.after_hash {
        Err(ParserErrorView::UnexpectedToken(IntermediateTokenView::EOF))
    } else if s.open is Some {
        Err(ParserErrorView::MissingCloseParen(s.highest_level))
    } else {
        Ok(s.new_tokens)
    }
}

/// One pass over `tokens`: every innermost bracket is replaced by its form.
pub open spec fn pass_spec(tokens: Seq<IntermediateTokenView>) -> Result<
    Seq<IntermediateTokenView>,
    ParserErrorView,
> {
    match pass_from(tokens, 0, step_start(highest_level_spec(tokens))) {
        Err(e) => Err(e),
        Ok(s) => finish_pass(s),
    }
}

pub struct ParserStepState {
    new_tokens: Vec<IntermediateToken>,
    cur_node: Vec<AstNode>,
    highest_level: i32,
    in_highest_level: bool,
    kind: FormKind,
    after_hash: bool,
}

impl View for ParserStepState {
    type V = StepStateView;

    closed spec fn view(&self) -> StepStateView {
        StepStateView {
            new_tokens: itokens_view(self.new_tokens@),
            highest_level: self.highest_level,
            open: if self.in_highest_level {
                Some(self.kind)
            } else {
                None
            },
            children: nodes_view(self.cur_node@),
            after_hash: self.after_hash,
        }
    }
}

/// What a step of a pass returns, with the state it leaves, as a contract
/// sees it.
pub open spec fn stepped_view(r: Result<(), CIParserError>, s: StepStateView) -> Result<
    StepStateView,
    ParserErrorView,
> {
    match r {
        Ok(_) => Ok(s),
        Err(e) => Err(e@),
    }
}

impl ParserStepState {
    pub fn new(tokens: &Vec<IntermediateToken>) -> (r: Self)
        ensures
            r@ == step_start(highest_level_spec(itokens_view(tokens@))),
    {
        let r = ParserStepState {
            new_tokens: Vec::new(),
            cur_node: Vec::new(),
            highest_level: Self::get_highest_level(tokens),
            in_highest_level: false,
            kind: FormKind::Paren,
            after_hash: false,
        };
        assert(r@.new_tokens =~= Seq::empty());
        assert(r@.children =~= Seq::empty());
        r
    }

    fn push_token(&mut self, token: IntermediateToken)
        ensures
            final(self)@ == (StepStateView {
                new_tokens: old(self)@.new_tokens.push(token@),
                ..old(self)@
            }),
    {
        proof {
            lemma_itokens_view_push(self.new_tokens@, token);
        }
        self.new_tokens.push(token);
    }

    fn push_cur_node(&mut self, a: AstNode)
        ensures
            final(self)@ == (StepStateView {
                children: old(self)@.children.push(a@),
                ..old(self)@
            }),
    {
        proof {
            lemma_nodes_view_push(self.cur_node@, a);
        }
        self.cur_node.push(a);
    }

    fn take_node(&mut self, node: AstNode)
        ensures
            final(self)@ == take_node(old(self)@, node@),
    {
        self.after_hash = false;
        if self.in_highest_level {
            self.push_cur_node(node);
        } else {
            self.push_token(IntermediateToken::AstNode(node));
        }
    }

    fn open_group(&mut self, kind: FormKind, token: IntermediateToken) -> (r: Result<
        (),
        CIParserError,
    >)
        ensures
            stepped_view(r, final(self)@) == open_group(old(self)@, kind, token@),
    {
        if self.in_highest_level {
            return Err(CIParserError::UnexpectedToken(Box::new(token)));
        }
        self.in_highest_level = true;
        self.kind = kind;
        self.cur_node = Vec::new();
        assert(self@.children =~= Seq::empty());
        Ok(())
    }

    /// Replaces the children of the bracket that the pass is in by their form.
    fn flush_cur_node(&mut self, kind: FormKind, token: IntermediateToken) -> (r: Result<
        (),
        CIParserError,
    >)
        ensures
            stepped_view(r, final(self)@) == close_group(old(self)@, kind, token@),
    {
        if !self.in_highest_level || self.kind != kind {
            return Err(CIParserError::UnexpectedToken(Box::new(token)));
        }
        let mut items: Vec<AstNode> = Vec::new();
        std::mem::swap(&mut self.cur_node, &mut items);
        let form = match kind {
            FormKind::Paren => build_paren(items),
            FormKind::Curly => build_infix(items),
            FormKind::Bracket => Ok(build_list(items)),
            FormKind::Line => build_infix(items),
        };
        match form {
            Ok(node) => {
                self.in_highest_level = false;
                self.push_token(IntermediateToken::AstNode(node));
                assert(self@.children =~= Seq::empty());
                Ok(())
            },
            Err(e) => Err(e),
        }
    }

    /// The depth of the deepest bracket of `tokens`, or 0 where there is none.
    pub fn get_highest_level(tokens: &Vec<IntermediateToken>) -> (r: i32)
        ensures
            r == highest_level_spec(itokens_view(tokens@)),
    {
        let ghost all = itokens_view(tokens@);
        let mut best: Option<i32> = None;
        let mut i: usize = 0;
        assert(all.subrange(0, 0) =~= Seq::empty());
        while i < tokens.len()
            invariant
                i <= tokens.len(),
                all == itokens_view(tokens@),
                best == deepest(all.subrange(0, i as int)),
            decreases tokens.len() - i,
        {
            let level = match &tokens[i] {
                IntermediateToken::LParen(l) => Some(*l),
                IntermediateToken::RParen(l) => Some(*l),
                IntermediateToken::LCurly(l) => Some(*l),
                IntermediateToken::RCurly(l) => Some(*l),
                IntermediateToken::LBracket(l) => Some(*l),
                IntermediateToken::RBracket(l) => Some(*l),
                _ => None,
            };
            assert(level == level_of(all[i as int]));
            assert(all.subrange(0, i + 1).drop_last() =~= all.subrange(0, i as int));
            best = match (best, level) {
                (Some(a), Some(b)) => if a >= b {
                    Some(a)
                } else {
                    Some(b)
                },
                (None, Some(b)) => Some(b),
                (b, None) => b,
            };
            i += 1;
        }
        assert(all.subrange(0, i as int) =~= all);
        match best {
            Some(l) => l,
            None => 0,
        }
    }

    pub fn take_tokens(self) -> (r: Vec<IntermediateToken>)
        ensures
            itokens_view(r@) == self@.new_tokens,
    {
        self.new_tokens
    }

    fn is_after_hash(&self) -> (r: bool)
        ensures
            r == self@.after_hash,
    {
        self.after_hash
    }

    fn is_open(&self) -> (r: bool)
        ensures
            r == self@.open is Some,
    {
        self.in_highest_level
    }

    fn level(&self) -> (r: i32)
        ensures
            r == self@.highest_level,
    {
        self.highest_level
    }

    fn expect_number(&mut self)
        ensures
            final(self)@ == (StepStateView { after_hash: true, ..old(self)@ }),
    {
        self.after_hash = true;
    }
}

/// One pass of the parser that works from the inside out: it replaces
/// every innermost bracket by the form it stands for.
#[derive(Default)]
pub struct ParserStep {}

/// What a pass returns, as a contract sees it.
pub open spec fn pass_view(r: Result<Vec<IntermediateToken>, CIParserError>) -> Result<
    Seq<IntermediateTokenView>,
    ParserErrorView,
> {
    match r {
        Ok(tokens) => Ok(itokens_view(tokens@)),
        Err(e) => Err(e@),
    }
}

impl ParserStep {
    pub fn init_state(tokens: &Vec<IntermediateToken>) -> (r: ParserStepState)
        ensures
            r@ == step_start(highest_level_spec(itokens_view(tokens@))),
    {
        ParserStepState::new(tokens)
    }

    pub fn handle_token(token: IntermediateToken, state: &mut ParserStepState) -> (r: Result<
        (),
        CIParserError,
    >)
        ensures
            stepped_view(r, final(state)@) == step_token_spec(old(state)@, token@),
    {
        if state.is_after_hash() {
            return match token {
                IntermediateToken::Value(Value::Int(n)) => {
                    if n >= 0 {
                        state.take_node(church(n));
                        Ok(())
                    } else {
                        Err(
                            CIParserError::UnexpectedToken(
                                Box::new(IntermediateToken::Value(Value::Int(n))),
                            ),
                        )
                    }
                },
                other => Err(CIParserError::UnexpectedToken(Box::new(other))),
            };
        }
        let highest = state.level();
        match token {
            IntermediateToken::Hash => {
                state.expect_number();
                Ok(())
            },
            IntermediateToken::Value(value) => {
                state.take_node(AstNode::Value(value));
                Ok(())
            },
            IntermediateToken::AstNode(ast_node) => {
                state.take_node(ast_node);
                Ok(())
            },
            IntermediateToken::EOF => Ok(()),
            IntermediateToken::LParen(level) => {
                if level == highest {
                    state.open_group(FormKind::Paren, IntermediateToken::LParen(level))
                } else {
                    state.push_token(IntermediateToken::LParen(level));
                    Ok(())
                }
            },
            IntermediateToken::LCurly(level) => {
                if level == highest {
                    state.open_group(FormKind::Curly, IntermediateToken::LCurly(level))
                } else {
                    state.push_token(IntermediateToken::LCurly(level));
                    Ok(())
                }
            },
            IntermediateToken::LBracket(level) => {
                if level == highest {
                    state.open_group(FormKind::Bracket, IntermediateToken::LBracket(level))
                } else {
                    state.push_token(IntermediateToken::LBracket(level));
                    Ok(())
                }
            },
            IntermediateToken::RParen(level) => {
                if level == highest {
                    state.flush_cur_node(FormKind::Paren, IntermediateToken::RParen(level))
                } else {
                    state.push_token(IntermediateToken::RParen(level));
                    Ok(())
                }
            },
            IntermediateToken::RCurly(level) => {
                if level == highest {
                    state.flush_cur_node(FormKind::Curly, IntermediateToken::RCurly(level))
                } else {
                    state.push_token(IntermediateToken::RCurly(level));
                    Ok(())
                }
            },
            IntermediateToken::RBracket(level) => {
                if level == highest {
                    state.flush_cur_node(FormKind::Bracket, IntermediateToken::RBracket(level))
                } else {
                    state.push_token(IntermediateToken::RBracket(level));
                    Ok(())
                }
            },
        }
    }

    /// Makes one pass over `tokens`.
    pub fn parse(&self, tokens: Vec<IntermediateToken>) -> (r: Result<
        Vec<IntermediateToken>,
        CIParserError,
    >)
        ensures
            pass_view(r) == pass_spec(itokens_view(tokens@)),
    {
        let ghost all = itokens_view(tokens@);
        let mut state = Self::init_state(&tokens);
        let mut i: usize = 0;
        while i < tokens.len()
            invariant
                i <= tokens.len(),
                all == itokens_view(tokens@),
                pass_from(all, 0, step_start(highest_level_spec(all))) == pass_from(
                    all,
                    i as int,
                    state@,
                ),
            decreases tokens.len() - i,
        {
            match Self::handle_token(tokens[i].clone(), &mut state) {
                Ok(_) => {},
                Err(e) => {
                    return Err(e);
                },
            }
            i += 1;
        }
        if state.is_after_hash() {
            Err(CIParserError::UnexpectedToken(Box::new(IntermediateToken::EOF)))
        } else if state.is_open() {
            Err(CIParserError::MissingCloseParen(state.level()))
        } else {
            Ok(state.take_tokens())
        }
    }
}

} // verus!
