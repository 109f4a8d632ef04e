use crate::ast::{
    itokens_view, lemma_nodes_view_push, nil_node, nodes_view, pair_node, symbol_node, AstNode,
    IntermediateToken, IntermediateTokenView, NodeView, Value, ValueView,
};
use crate::parser_types::{CIParserError, ParserErrorView};
use crate::text::str_equals;
use vstd::prelude::*;

verus! {

/// The bracket that a run of sibling forms ends at. `Line` stands for the
/// curly pair that is put around a whole line: it ends where the input does.
#[derive(Clone, Copy, PartialEq, Eq, Structural, Debug)]
pub enum FormKind {
    Paren,
    Curly,
    Bracket,
    Line,
}

/// Whether `t` ends a run of siblings that was opened at depth `level`.
pub open spec fn closes(t: IntermediateTokenView, kind: FormKind, level: i32) -> bool {
    match kind {
        FormKind::Paren => t == IntermediateTokenView::RParen(level),
        FormKind::Curly => t == IntermediateTokenView::RCurly(level),
        FormKind::Bracket => t == IntermediateTokenView::RBracket(level),
        FormKind::Line => t == IntermediateTokenView::EOF,
    }
}

/// The Church numeral of `n`: `succ` applied `n` times to `zero`.
pub open spec fn church_numeral(n: nat) -> NodeView
    decreases n,
{
    if n == 0 {
        symbol_node("zero"@)
    } else {
        pair_node(symbol_node("succ"@), church_numeral((n - 1) as nat))
    }
}

/// What the children of a pair of parentheses stand for: nothing is nil,
/// one child is itself, two are an application, and `fn`, a quoted name
/// and a body are a lambda.
pub open spec fn paren_form(items: Seq<NodeView>) -> Result<NodeView, ParserErrorView> {
    if items.len() == 0 {
        Ok(nil_node())
    } else if items.len() == 1 {
        Ok(items[0])
    } else if items.len() == 3 && items[0] == symbol_node("fn"@) {
        match items[1] {
            NodeView::Value(ValueView::Ident(name)) => Ok(
                NodeView::Lambda { varname: name, body: Box::new(items[2]) },
            ),
            _ => Err(ParserErrorView::UnexpectedToken(IntermediateTokenView::AstNode(items[1]))),
        }
    } else if items.len() == 2 {
        Ok(pair_node(items[0], items[1]))
    } else {
        Err(ParserErrorView::NodeFull(items))
    }
}

/// What the children of a pair of curly brackets stand for: nothing is
/// nil, one child is itself, and `a op b` applies `op` to `b` and the
/// result to `a`.
pub open spec fn infix_form(items: Seq<NodeView>) -> Result<NodeView, ParserErrorView> {
    if items.len() == 0 {
        Ok(nil_node())
    } else if items.len() == 1 {
        Ok(items[0])
    } else if items.len() == 3 {
        Ok(pair_node(pair_node(items[1], items[2]), items[0]))
    } else {
        Err(ParserErrorView::NodeFull(items))
    }
}

/// What the children of a pair of square brackets stand for: `cons`
/// applied to the list of the later children and then to the first one,
/// and nil for no children.
pub open spec fn list_form(items: Seq<NodeView>) -> NodeView
    decreases items.len(),
{
    if items.len() == 0 {
        nil_node()
    } else {
        pair_node(pair_node(symbol_node("cons"@), list_form(items.skip(1))), items[0])
    }
}

/// The form that `kind` makes of its children.
pub open spec fn close_form(kind: FormKind, items: Seq<NodeView>) -> Result<
    NodeView,
    ParserErrorView,
> {
    match kind {
        FormKind::Paren => paren_form(items),
        FormKind::Curly => infix_form(items),
        FormKind::Bracket => Ok(list_form(items)),
        FormKind::Line => infix_form(items),
    }
}

/// How many of `tokens` stand at `pos` or after it.
pub open spec fn tokens_left(tokens: Seq<IntermediateTokenView>, pos: nat) -> nat {
    if pos < tokens.len() {
        (tokens.len() - pos) as nat
    } else {
        0
    }
}

/// The form that starts with `token`, which has been taken from `tokens`
/// just before `pos`, and the position after the form.
pub open spec fn parse_token_spec(
    token: IntermediateTokenView,
    tokens: Seq<IntermediateTokenView>,
    pos: nat,
) -> Result<(NodeView, nat), ParserErrorView>
    decreases tokens_left(tokens, pos), 1nat, 0nat,
{
    match token {
        IntermediateTokenView::Value(v) => Ok((NodeView::Value(v), pos)),
        IntermediateTokenView::AstNode(n) => Ok((n, pos)),
        IntermediateTokenView::Hash => if pos < tokens.len() {
            match tokens[pos as int] {
                IntermediateTokenView::Value(ValueView::Int(n)) => if n >= 0 {
                    Ok((church_numeral(n as nat), pos + 1))
                } else {
                    Err(ParserErrorView::UnexpectedToken(tokens[pos as int]))
                },
                other => Err(ParserErrorView::UnexpectedToken(other)),
            }
        } else {
            Err(ParserErrorView::UnexpectedToken(IntermediateTokenView::EOF))
        },
        IntermediateTokenView::LParen(level) => parse_form_spec(tokens, pos, FormKind::Paren, level),
        IntermediateTokenView::LCurly(level) => parse_form_spec(tokens, pos, FormKind::Curly, level),
        IntermediateTokenView::LBracket(level) => parse_form_spec(
            tokens,
            pos,
            FormKind::Bracket,
            level,
        ),
        other => Err(ParserErrorView::UnexpectedToken(other)),
    }
}

/// The form whose children start at `pos` and end at the closer of `kind`
/// at depth `level`, and the position after that closer.
pub open spec fn parse_form_spec(
    tokens: Seq<IntermediateTokenView>,
    pos: nat,
    kind: FormKind,
    level: i32,
) -> Result<(NodeView, nat), ParserErrorView>
    decreases tokens_left(tokens, pos), 0nat, 1nat,
{
    match parse_items_spec(tokens, pos, kind, level) {
        Ok((items, end)) => match close_form(kind, items) {
            Ok(node) => Ok((node, end)),
            Err(e) => Err(e),
        },
        Err(e) => Err(e),
    }
}

/// The sibling forms from `pos` up to the closer of `kind` at depth
/// `level`, or up to the end of `tokens`, and the position after them.
pub open spec fn parse_items_spec(
    tokens: Seq<IntermediateTokenView>,
    pos: nat,
    kind: FormKind,
    level: i32,
) -> Result<(Seq<NodeView>, nat), ParserErrorView>
    decreases tokens_left(tokens, pos), 0nat, 0nat,
{
    if pos >= tokens.len() {
        Ok((Seq::empty(), pos))
    } else if closes(tokens[pos as int], kind, level) {
        Ok((Seq::empty(), pos + 1))
    } else {
        match parse_token_spec(tokens[pos as int], tokens, pos + 1) {
            Err(e) => Err(e),
            Ok((first, next)) => if next > pos {
                match parse_items_spec(tokens, next, kind, level) {
                    Err(e) => Err(e),
                    Ok((rest, end)) => Ok((seq![first] + rest, end)),
                }
            } else {
                Ok((seq![first], next))
            },
        }
    }
}

/// The error of a token that follows the one form of a line.
pub open spec fn trailing_token(tokens: Seq<IntermediateTokenView>, pos: nat) -> Option<
    ParserErrorView,
> {
    if pos >= tokens.len() || tokens[pos as int] == IntermediateTokenView::EOF {
        None
    } else {
        Some(ParserErrorView::UnexpectedToken(tokens[pos as int]))
    }
}

/// The single form of a line. With `infix_repl` the whole line is read as
/// if it stood in curly brackets.
pub open spec fn parse_repl_spec(tokens: Seq<IntermediateTokenView>, infix_repl: bool) -> Result<
    NodeView,
    ParserErrorView,
> {
    let form = if infix_repl {
        parse_form_spec(tokens, 0, FormKind::Line, 0)
    } else if tokens.len() == 0 {
        Err(ParserErrorView::UnexpectedToken(IntermediateTokenView::EOF))
    } else {
        parse_token_spec(tokens[0], tokens, 1)
    };
    match form {
        Err(e) => Err(e),
        Ok((node, end)) => match trailing_token(tokens, end) {
            Some(e) => Err(e),
            None => Ok(node),
        },
    }
}

/// The forms of a file, up to the end of the input.
pub open spec fn parse_file_spec(tokens: Seq<IntermediateTokenView>) -> Result<
    Seq<NodeView>,
    ParserErrorView,
> {
    match parse_items_spec(tokens, 0, FormKind::Line, 0) {
        Err(e) => Err(e),
        Ok((forms, end)) => Ok(forms),
    }
}

/// What parsing one form returns, as a contract sees it.
pub open spec fn parsed_view(r: Result<AstNode, CIParserError>) -> Result<
    NodeView,
    ParserErrorView,
> {
    match r {
        Ok(node) => Ok(node@),
        Err(e) => Err(e@),
    }
}

/// What parsing several forms returns, as a contract sees it.
pub open spec fn parsed_all_view(r: Result<Vec<AstNode>, CIParserError>) -> Result<
    Seq<NodeView>,
    ParserErrorView,
> {
    match r {
        Ok(nodes) => Ok(nodes_view(nodes@)),
        Err(e) => Err(e@),
    }
}

/// What a parsing step returns, with the position it leaves the stream at.
pub open spec fn step_view(r: Result<AstNode, CIParserError>, pos: nat) -> Result<
    (NodeView, nat),
    ParserErrorView,
> {
    match r {
        Ok(node) => Ok((node@, pos)),
        Err(e) => Err(e@),
    }
}

/// The tokens of one input and the place that parsing has come to.
pub struct TokenStream {
    tokens: Vec<IntermediateToken>,
    pos: usize,
}

impl TokenStream {
    pub closed spec fn tokens(&self) -> Seq<IntermediateTokenView> {
        itokens_view(self.tokens@)
    }

    pub closed spec fn pos(&self) -> nat {
        self.pos as nat
    }

    /// How many tokens are left.
    pub open spec fn remaining(&self) -> nat {
        tokens_left(self.tokens(), self.pos())
    }

    pub fn new(tokens: Vec<IntermediateToken>) -> (r: Self)
        ensures
            r.tokens() == itokens_view(tokens@),
            r.pos() == 0,
    {
        TokenStream { tokens, pos: 0 }
    }

    /// Takes the next token, if one is left.
    pub fn next(&mut self) -> (r: Option<IntermediateToken>)
        ensures
            final(self).tokens() == old(self).tokens(),
            old(self).pos() < old(self).tokens().len() ==> r is Some && r->0@ == old(
                self,
            ).tokens()[old(self).pos() as int] && final(self).pos() == old(self).pos() + 1,
            old(self).pos() >= old(self).tokens().len() ==> r is None && final(self).pos() == old(
                self,
            ).pos(),
    {
        if self.pos < self.tokens.len() {
            let token = self.tokens[self.pos].clone();
            self.pos = self.pos + 1;
            Some(token)
        } else {
            None
        }
    }
}

fn is_fn_symbol(node: &AstNode) -> (r: bool)
    ensures
        r == (node@ == symbol_node("fn"@)),
{
    match node {
        AstNode::Value(Value::Symbol(s)) => str_equals(s.as_str(), "fn"),
        _ => false,
    }
}

/// Whether `token` ends a run of siblings of `kind` opened at depth `level`.
pub fn is_closer(token: &IntermediateToken, kind: FormKind, level: i32) -> (r: bool)
    ensures
        r == closes(token@, kind, level),
{
    match kind {
        FormKind::Paren => match token {
            IntermediateToken::RParen(l) => *l == level,
            _ => false,
        },
        FormKind::Curly => match token {
            IntermediateToken::RCurly(l) => *l == level,
            _ => false,
        },
        FormKind::Bracket => match token {
            IntermediateToken::RBracket(l) => *l == level,
            _ => false,
        },
        FormKind::Line => match token {
            IntermediateToken::EOF => true,
            _ => false,
        },
    }
}

/// Builds the Church numeral of `n`.
pub fn church(n: i32) -> (r: AstNode)
    requires
        n >= 0,
    ensures
        r@ == church_numeral(n as nat),
{
    let mut node = AstNode::symbol("zero");
    let mut k: i32 = 0;
    while k < n
        invariant
            0 <= k <= n,
            node@ == church_numeral(k as nat),
        decreases n - k,
    {
        node = AstNode::pair(AstNode::symbol("succ"), node);
        k += 1;
    }
    node
}

/// Makes the form of a pair of parentheses from its children.
pub fn build_paren(items: Vec<AstNode>) -> (r: Result<AstNode, CIParserError>)
    ensures
        parsed_view(r) == paren_form(nodes_view(items@)),
{
    let n = items.len();
    if n == 0 {
        Ok(AstNode::nil())
    } else if n == 1 {
        Ok(items[0].clone())
    } else if n == 3 && is_fn_symbol(&items[0]) {
        match &items[1] {
            AstNode::Value(Value::Ident(name)) => Ok(
                AstNode::Lambda { varname: name.clone(), body: Box::new(items[2].clone()) },
            ),
            _ => Err(
                CIParserError::UnexpectedToken(
                    Box::new(IntermediateToken::AstNode(items[1].clone())),
                ),
            ),
        }
    } else if n == 2 {
        Ok(AstNode::pair(items[0].clone(), items[1].clone()))
    } else {
        Err(CIParserError::NodeFull(items))
    }
}

/// Makes the form of a pair of curly brackets from its children.
pub fn build_infix(items: Vec<AstNode>) -> (r: Result<AstNode, CIParserError>)
    ensures
        parsed_view(r) == infix_form(nodes_view(items@)),
{
    let n = items.len();
    if n == 0 {
        Ok(AstNode::nil())
    } else if n == 1 {
        Ok(items[0].clone())
    } else if n == 3 {
        Ok(AstNode::pair(AstNode::pair(items[1].clone(), items[2].clone()), items[0].clone()))
    } else {
        Err(CIParserError::NodeFull(items))
    }
}

/// Makes the form of a pair of square brackets from its children.
pub fn build_list(items: Vec<AstNode>) -> (r: AstNode)
    ensures
        r@ == list_form(nodes_view(items@)),
{
    let ghost all = nodes_view(items@);
    let mut result = AstNode::nil();
    let mut i: usize = items.len();
    assert(all.subrange(i as int, all.len() as int) =~= Seq::<NodeView>::empty());
    while i > 0
        invariant
            i <= items.len(),
            all == nodes_view(items@),
            result@ == list_form(all.subrange(i as int, all.len() as int)),
        decreases i,
    {
        i -= 1;
        assert(all.subrange(i as int, all.len() as int).skip(1) =~= all.subrange(
            i + 1,
            all.len() as int,
        ));
        result = AstNode::pair(AstNode::pair(AstNode::symbol("cons"), result), items[i].clone());
    }
    assert(all.subrange(0, all.len() as int) =~= all);
    result
}

fn build_form(kind: FormKind, items: Vec<AstNode>) -> (r: Result<AstNode, CIParserError>)
    ensures
        parsed_view(r) == close_form(kind, nodes_view(items@)),
{
    match kind {
        FormKind::Paren => build_paren(items),
        FormKind::Curly => build_infix(items),
        FormKind::Bracket => Ok(build_list(items)),
        FormKind::Line => build_infix(items),
    }
}

/// What collecting siblings returns, with the position it leaves the stream at.
pub open spec fn items_view(r: Result<Vec<AstNode>, CIParserError>, pos: nat) -> Result<
    (Seq<NodeView>, nat),
    ParserErrorView,
> {
    match r {
        Ok(nodes) => Ok((nodes_view(nodes@), pos)),
        Err(e) => Err(e@),
    }
}

/// `r` with `prefix` before its forms.
pub open spec fn after(prefix: Seq<NodeView>, r: Result<(Seq<NodeView>, nat), ParserErrorView>)
    -> Result<(Seq<NodeView>, nat), ParserErrorView> {
    match r {
        Ok((rest, end)) => Ok((prefix + rest, end)),
        Err(e) => Err(e),
    }
}

/// Collects the sibling forms up to the closer of `kind` at depth `level`.
pub fn parse_items(stream: &mut TokenStream, kind: FormKind, level: i32) -> (r: Result<
    Vec<AstNode>,
    CIParserError,
>)
    ensures
        final(stream).tokens() == old(stream).tokens(),
        final(stream).pos() >= old(stream).pos(),
        items_view(r, final(stream).pos()) == parse_items_spec(
            old(stream).tokens(),
            old(stream).pos(),
            kind,
            level,
        ),
    decreases old(stream).remaining(), 0nat, 0nat,
{
    let ghost tokens = stream.tokens();
    let ghost start = stream.pos();
    let mut items: Vec<AstNode> = Vec::new();
    assert(nodes_view(items@) =~= Seq::empty());
    loop
        invariant
            stream.tokens() == tokens,
            tokens == old(stream).tokens(),
            start == old(stream).pos(),
            stream.pos() >= start,
            stream.remaining() <= old(stream).remaining(),
            parse_items_spec(tokens, start, kind, level) == after(
                nodes_view(items@),
                parse_items_spec(tokens, stream.pos(), kind, level),
            ),
        decreases stream.remaining(),
    {
        let ghost here = stream.pos();
        match stream.next() {
            None => {
                assert(nodes_view(items@) + Seq::<NodeView>::empty() =~= nodes_view(items@));
                return Ok(items);
            },
            Some(token) => {
                if is_closer(&token, kind, level) {
                    assert(nodes_view(items@) + Seq::<NodeView>::empty() =~= nodes_view(items@));
                    return Ok(items);
                }
                match parse_token(token, stream) {
                    Err(e) => {
                        return Err(e);
                    },
                    Ok(node) => {
                        proof {
                            lemma_nodes_view_push(items@, node);
                            let rest = parse_items_spec(tokens, stream.pos(), kind, level);
                            match rest {
                                Ok((more, end)) => {
                                    assert(nodes_view(items@) + (seq![node@] + more)
                                        =~= nodes_view(items@).push(node@) + more);
                                },
                                Err(e) => {},
                            }
                        }
                        items.push(node);
                    },
                }
            },
        }
    }
}

/// Parses the children of a pair of parentheses opened at depth `level`.
pub fn parse_paren(stream: &mut TokenStream, level: i32) -> (r: Result<AstNode, CIParserError>)
    ensures
        final(stream).tokens() == old(stream).tokens(),
        final(stream).pos() >= old(stream).pos(),
        step_view(r, final(stream).pos()) == parse_form_spec(
            old(stream).tokens(),
            old(stream).pos(),
            FormKind::Paren,
            level,
        ),
    decreases old(stream).remaining(), 0nat, 1nat,
{
    match parse_items(stream, FormKind::Paren, level) {
        Ok(items) => build_paren(items),
        Err(e) => Err(e),
    }
}

/// Parses the children of a pair of curly brackets opened at depth `level`.
pub fn parse_infix(stream: &mut TokenStream, level: i32) -> (r: Result<AstNode, CIParserError>)
    ensures
        final(stream).tokens() == old(stream).tokens(),
        final(stream).pos() >= old(stream).pos(),
        step_view(r, final(stream).pos()) == parse_form_spec(
            old(stream).tokens(),
            old(stream).pos(),
            FormKind::Curly,
            level,
        ),
    decreases old(stream).remaining(), 0nat, 1nat,
{
    match parse_items(stream, FormKind::Curly, level) {
        Ok(items) => build_infix(items),
        Err(e) => Err(e),
    }
}

/// Parses the children of a pair of square brackets opened at depth `level`.
pub fn parse_list(stream: &mut TokenStream, level: i32) -> (r: Result<AstNode, CIParserError>)
    ensures
        final(stream).tokens() == old(stream).tokens(),
        final(stream).pos() >= old(stream).pos(),
        step_view(r, final(stream).pos()) == parse_form_spec(
            old(stream).tokens(),
            old(stream).pos(),
            FormKind::Bracket,
            level,
        ),
    decreases old(stream).remaining(), 0nat, 1nat,
{
    match parse_items(stream, FormKind::Bracket, level) {
        Ok(items) => Ok(build_list(items)),
        Err(e) => Err(e),
    }
}

/// Parses a whole line as the children of a pair of curly brackets.
pub fn parse_virtual_infix(stream: &mut TokenStream) -> (r: Result<AstNode, CIParserError>)
    ensures
        final(stream).tokens() == old(stream).tokens(),
        final(stream).pos() >= old(stream).pos(),
        step_view(r, final(stream).pos()) == parse_form_spec(
            old(stream).tokens(),
            old(stream).pos(),
            FormKind::Line,
            0,
        ),
{
    match parse_items(stream, FormKind::Line, 0) {
        Ok(items) => build_infix(items),
        Err(e) => Err(e),
    }
}

/// Parses the form that starts with `token`, which was just taken from `stream`.
pub fn parse_token(token: IntermediateToken, stream: &mut TokenStream) -> (r: Result<
    AstNode,
    CIParserError,
>)
    ensures
        final(stream).tokens() == old(stream).tokens(),
        final(stream).pos() >= old(stream).pos(),
        step_view(r, final(stream).pos()) == parse_token_spec(
            token@,
            old(stream).tokens(),
            old(stream).pos(),
        ),
    decreases old(stream).remaining(), 1nat, 0nat,
{
    match token {
        IntermediateToken::Value(v) => Ok(AstNode::Value(v)),
        IntermediateToken::Hash => {
            match stream.next() {
                Some(IntermediateToken::Value(Value::Int(n))) => {
                    if n >= 0 {
                        Ok(church(n))
                    } else {
                        Err(
                            CIParserError::UnexpectedToken(
                                Box::new(IntermediateToken::Value(Value::Int(n))),
                            ),
                        )
                    }
                },
                Some(other) => Err(CIParserError::UnexpectedToken(Box::new(other))),
                None => Err(CIParserError::UnexpectedToken(Box::new(IntermediateToken::EOF))),
            }
        },
        IntermediateToken::AstNode(n) => Ok(n),
        IntermediateToken::LParen(level) => parse_paren(stream, level),
        IntermediateToken::LCurly(level) => parse_infix(stream, level),
        IntermediateToken::LBracket(level) => parse_list(stream, level),
        other => Err(CIParserError::UnexpectedToken(Box::new(other))),
    }
}

/// Fails on a token that follows the one form of a line.
pub fn ensure_stream_ended(stream: &mut TokenStream) -> (r: Result<(), CIParserError>)
    ensures
        final(stream).tokens() == old(stream).tokens(),
        match r {
            Ok(_) => trailing_token(old(stream).tokens(), old(stream).pos()) is None,
            Err(e) => trailing_token(old(stream).tokens(), old(stream).pos()) == Some(e@),
        },
{
    match stream.next() {
        None => Ok(()),
        Some(IntermediateToken::EOF) => Ok(()),
        Some(extra) => Err(CIParserError::UnexpectedToken(Box::new(extra))),
    }
}

/// Parses a line that holds one form.
pub struct CINewReplParser {
    infix_repl: bool,
}

impl Default for CINewReplParser {
    fn default() -> (r: Self)
        ensures
            !r.infix_repl(),
    {
        CINewReplParser { infix_repl: false }
    }
}

impl CINewReplParser {
    /// Whether a whole line is read as if it stood in curly brackets.
    pub closed spec fn infix_repl(&self) -> bool {
        self.infix_repl
    }

    pub fn new(infix_repl: bool) -> (r: Self)
        ensures
            r.infix_repl() == infix_repl,
    {
        Self { infix_repl }
    }

    pub fn parse(&self, tokens: Vec<IntermediateToken>) -> (r: Result<AstNode, CIParserError>)
        ensures
            parsed_view(r) == parse_repl_spec(itokens_view(tokens@), self.infix_repl()),
    {
        let mut stream = TokenStream::new(tokens);
        let form = if self.infix_repl {
            parse_virtual_infix(&mut stream)
        } else {
            match stream.next() {
                Some(token) => parse_token(token, &mut stream),
                None => Err(CIParserError::UnexpectedToken(Box::new(IntermediateToken::EOF))),
            }
        };
        match form {
            Err(e) => Err(e),
            Ok(node) => match ensure_stream_ended(&mut stream) {
                Err(e) => Err(e),
                Ok(_) => Ok(node),
            },
        }
    }
}

/// Parses a file: any number of forms, up to the end of the input.
#[derive(Default)]
pub struct CINewFileParser {}

impl CINewFileParser {
    pub fn parse(&self, tokens: Vec<IntermediateToken>) -> (r: Result<Vec<AstNode>, CIParserError>)
        ensures
            parsed_all_view(r) == parse_file_spec(itokens_view(tokens@)),
    {
        let mut stream = TokenStream::new(tokens);
        parse_items(&mut stream, FormKind::Line, 0)
    }
}

/// Forms that are already parsed, as tokens that stand for themselves.
pub open spec fn node_tokens(items: Seq<NodeView>) -> Seq<IntermediateTokenView> {
    items.map_values(|n: NodeView| IntermediateTokenView::AstNode(n))
}

/// A run of parsed forms before the closer of their bracket is collected
/// whole, whatever stands before the run and after the closer.
pub proof fn lemma_items_of_node_tokens(
    before: Seq<IntermediateTokenView>,
    items: Seq<NodeView>,
    closer: IntermediateTokenView,
    rest: Seq<IntermediateTokenView>,
    kind: FormKind,
    level: i32,
)
    requires
        closes(closer, kind, level),
    ensures
        parse_items_spec(
            before + node_tokens(items) + seq![closer] + rest,
            before.len(),
            kind,
            level,
        ) == Ok::<(Seq<NodeView>, nat), ParserErrorView>(
            (items, (before.len() + items.len() + 1) as nat),
        ),
    decreases items.len(),
{
    let tokens = before + node_tokens(items) + seq![closer] + rest;
    let pos = before.len();
    if items.len() == 0 {
        assert(tokens[pos as int] == closer);
        assert(items =~= Seq::<NodeView>::empty());
    } else {
        let first = IntermediateTokenView::AstNode(items[0]);
        assert(tokens[pos as int] == first);
        assert(!closes(first, kind, level));
        let longer = before.push(first);
        assert(longer + node_tokens(items.skip(1)) + seq![closer] + rest =~= tokens);
        lemma_items_of_node_tokens(longer, items.skip(1), closer, rest, kind, level);
        assert(seq![items[0]] + items.skip(1) =~= items);
        let next = (pos + 1) as nat;
        assert(parse_token_spec(first, tokens, next) == Ok::<(NodeView, nat), ParserErrorView>(
            (items[0], next),
        ));
        assert(longer.len() == next);
        assert(parse_items_spec(tokens, next, kind, level) == Ok::<
            (Seq<NodeView>, nat),
            ParserErrorView,
        >((items.skip(1), (pos + items.len() + 1) as nat)));
    }
}

/// A line that holds one pair of parentheses around `items` parses to what
/// the number of items decides: nil for none, the item itself for one, an
/// application for two, a lambda for `fn`, a quoted name and a body, and an
/// error for any other three and for four or more.
pub proof fn lemma_paren_arity(items: Seq<NodeView>, level: i32)
    ensures
        parse_repl_spec(
            seq![IntermediateTokenView::LParen(level)] + node_tokens(items) + seq![
                IntermediateTokenView::RParen(level),
            ] + seq![IntermediateTokenView::EOF],
            false,
        ) == paren_form(items),
        items.len() == 0 ==> paren_form(items) == Ok::<NodeView, ParserErrorView>(nil_node()),
        items.len() == 1 ==> paren_form(items) == Ok::<NodeView, ParserErrorView>(items[0]),
        items.len() == 2 ==> paren_form(items) == Ok::<NodeView, ParserErrorView>(
            pair_node(items[0], items[1]),
        ),
        items.len() == 3 && items[0] == symbol_node("fn"@) && items[1] is Value
            && items[1]->Value_0 is Ident ==> paren_form(items) == Ok::<
            NodeView,
            ParserErrorView,
        >(NodeView::Lambda { varname: items[1]->Value_0->Ident_0, body: Box::new(items[2]) }),
        items.len() == 3 && items[0] == symbol_node("fn"@) && !(items[1] is Value
            && items[1]->Value_0 is Ident) ==> paren_form(items) == Err::<
            NodeView,
            ParserErrorView,
        >(ParserErrorView::UnexpectedToken(IntermediateTokenView::AstNode(items[1]))),
        items.len() == 3 && items[0] != symbol_node("fn"@) ==> paren_form(items) == Err::<
            NodeView,
            ParserErrorView,
        >(ParserErrorView::NodeFull(items)),
        items.len() >= 4 ==> paren_form(items) == Err::<NodeView, ParserErrorView>(
            ParserErrorView::NodeFull(items),
        ),
{
    let open = seq![IntermediateTokenView::LParen(level)];
    let close = IntermediateTokenView::RParen(level);
    let end = seq![IntermediateTokenView::EOF];
    let tokens = open + node_tokens(items) + seq![close] + end;
    lemma_items_of_node_tokens(open, items, close, end, FormKind::Paren, level);
    assert(tokens[0] == IntermediateTokenView::LParen(level));
    assert(tokens[items.len() as int + 2] == IntermediateTokenView::EOF);
}

/// A line that holds one pair of curly brackets around `items` parses to
/// nil for no item, to the item itself for one, to the application of the
/// second to the third and then to the first for three, and to an error
/// for two and for four or more.
pub proof fn lemma_infix_arity(items: Seq<NodeView>, level: i32)
    ensures
        parse_repl_spec(
            seq![IntermediateTokenView::LCurly(level)] + node_tokens(items) + seq![
                IntermediateTokenView::RCurly(level),
            ] + seq![IntermediateTokenView::EOF],
            false,
        ) == infix_form(items),
        items.len() == 0 ==> infix_form(items) == Ok::<NodeView, ParserErrorView>(nil_node()),
        items.len() == 1 ==> infix_form(items) == Ok::<NodeView, ParserErrorView>(items[0]),
        items.len() == 3 ==> infix_form(items) == Ok::<NodeView, ParserErrorView>(
            pair_node(pair_node(items[1], items[2]), items[0]),
        ),
        items.len() == 2 || items.len() >= 4 ==> infix_form(items) == Err::<
            NodeView,
            ParserErrorView,
        >(ParserErrorView::NodeFull(items)),
{
    let open = seq![IntermediateTokenView::LCurly(level)];
    let close = IntermediateTokenView::RCurly(level);
    let end = seq![IntermediateTokenView::EOF];
    let tokens = open + node_tokens(items) + seq![close] + end;
    lemma_items_of_node_tokens(open, items, close, end, FormKind::Curly, level);
    assert(tokens[0] == IntermediateTokenView::LCurly(level));
    assert(tokens[items.len() as int + 2] == IntermediateTokenView::EOF);
}

/// A line that holds one value and nothing else parses to that value,
/// with and without the curly brackets around the line.
pub proof fn lemma_value_parses_to_itself(v: ValueView, infix_repl: bool)
    ensures
        parse_repl_spec(
            seq![IntermediateTokenView::Value(v), IntermediateTokenView::EOF],
            infix_repl,
        ) == Ok::<NodeView, ParserErrorView>(NodeView::Value(v)),
{
    let tokens = seq![IntermediateTokenView::Value(v), IntermediateTokenView::EOF];
    assert(tokens[0] == IntermediateTokenView::Value(v));
    assert(tokens[1] == IntermediateTokenView::EOF);
    if infix_repl {
        let items = parse_items_spec(tokens, 0, FormKind::Line, 0);
        assert(parse_token_spec(tokens[0], tokens, 1) == Ok::<(NodeView, nat), ParserErrorView>(
            (NodeView::Value(v), 1),
        ));
        assert(parse_items_spec(tokens, 1, FormKind::Line, 0) == Ok::<
            (Seq<NodeView>, nat),
            ParserErrorView,
        >((Seq::empty(), 2)));
        assert(seq![NodeView::Value(v)] + Seq::<NodeView>::empty() =~= seq![NodeView::Value(v)]);
        assert(items == Ok::<(Seq<NodeView>, nat), ParserErrorView>(
            (seq![NodeView::Value(v)], 2),
        ));
    }
}

} // verus!
