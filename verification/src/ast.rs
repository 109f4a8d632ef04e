use crate::env::Environment;
use crate::text::{
    chars_of, int_text, parse_int, parse_trimmed_int, push_int, str_equals, string_from_chars,
    string_push, trim,
};
use vstd::prelude::*;
use vstd::string::StringExecFns;

verus! {

/// An atomic literal of the language.
#[derive(Debug)]
pub enum Value {
    Int(i32),
    String(String),
    /// A bare name, looked up when evaluated.
    Symbol(String),
    /// A quoted name, never looked up.
    Ident(String),
    True,
    Nil,
}

/// A lexical unit.
#[derive(Debug, PartialEq, Eq)]
pub enum Token {
    Value(Value),
    Hash,
    LParen,
    RParen,
    LCurly,
    RCurly,
    LBracket,
    RBracket,
    EOF,
}

/// A token whose brackets carry the nesting depth at which they occur.
#[derive(Debug)]
pub enum IntermediateToken {
    LParen(i32),
    Value(Value),
    Hash,
    RParen(i32),
    LCurly(i32),
    RCurly(i32),
    LBracket(i32),
    RBracket(i32),
    AstNode(AstNode),
    EOF,
}

/// A built-in function that neither reads nor changes the environment,
/// together with the curried arguments it has received so far.
#[derive(Debug)]
pub enum NativeFn {
    /// `if`, waiting for its condition.
    If,
    /// `if` whose condition was nil, waiting for the branch it will drop.
    IfSkip,
    /// `if` whose condition was nil, waiting for the branch it will return.
    IfElse,
    /// `if` whose condition was not nil, waiting for the branch it will return.
    IfTake,
    /// `if` holding the branch it will return, waiting for the one it will drop.
    IfKeep(Box<AstNode>),
    StrConcat,
    /// `str_concat` holding its right-hand text.
    StrConcatWith(Box<AstNode>),
    Log,
    /// `log` holding its message.
    LogWith(Box<AstNode>),
    /// `def`, waiting for the body to bind.
    Def,
    Inc,
    Dec,
    IsInt,
    Eq,
    EqWith(Value),
    Lt,
    /// `lt` holding its right-hand operand.
    LtWith(i32),
    Add,
    AddWith(i32),
    Sub,
    /// `sub` holding its right-hand operand.
    SubWith(i32),
    Mul,
    MulWith(i32),
}

/// A built-in function that receives the environment and may return a new one.
#[derive(Debug)]
pub enum NativeEnvFn {
    InspectEnv,
    /// `def` holding the body, waiting for the name to bind it to.
    DefAs(Box<AstNode>),
    /// Evaluates the forms of a named source in the caller's environment.
    Load,
}

/// A callable value.
#[derive(Debug)]
pub enum Function {
    Native(NativeFn),
    NativeMutEnv(NativeEnvFn),
    /// A lambda closed over the environment in which it was evaluated.
    User { varname: String, body: Box<AstNode>, env: Environment },
}

/// A parsed or evaluated tree.
#[derive(Debug)]
pub enum AstNode {
    Value(Value),
    /// The application of `car` to `cdr`.
    Par { car: Box<AstNode>, cdr: Box<AstNode> },
    Lambda { varname: String, body: Box<AstNode> },
    Function(Function),
}

pub enum ValueView {
    Int(i32),
    String(Seq<char>),
    Symbol(Seq<char>),
    Ident(Seq<char>),
    True,
    Nil,
}

pub enum TokenView {
    Value(ValueView),
    Hash,
    LParen,
    RParen,
    LCurly,
    RCurly,
    LBracket,
    RBracket,
    EOF,
}

pub enum IntermediateTokenView {
    LParen(i32),
    Value(ValueView),
    Hash,
    RParen(i32),
    LCurly(i32),
    RCurly(i32),
    LBracket(i32),
    RBracket(i32),
    AstNode(NodeView),
    EOF,
}

pub enum NativeFnView {
    If,
    IfSkip,
    IfElse,
    IfTake,
    IfKeep(Box<NodeView>),
    StrConcat,
    StrConcatWith(Box<NodeView>),
    Log,
    LogWith(Box<NodeView>),
    Def,
    Inc,
    Dec,
    IsInt,
    Eq,
    EqWith(ValueView),
    Lt,
    LtWith(i32),
    Add,
    AddWith(i32),
    Sub,
    SubWith(i32),
    Mul,
    MulWith(i32),
}

pub enum NativeEnvFnView {
    InspectEnv,
    DefAs(Box<NodeView>),
    Load,
}

pub enum FunctionView {
    Native(NativeFnView),
    NativeMutEnv(NativeEnvFnView),
    User { varname: Seq<char>, body: Box<NodeView>, env: Map<Seq<char>, NodeView> },
}

pub enum NodeView {
    Value(ValueView),
    Par { car: Box<NodeView>, cdr: Box<NodeView> },
    Lambda { varname: Seq<char>, body: Box<NodeView> },
    Function(FunctionView),
}

impl View for Value {
    type V = ValueView;

    open spec fn view(&self) -> ValueView {
        match self {
            Value::Int(i) => ValueView::Int(*i),
            Value::String(s) => ValueView::String(s@),
            Value::Symbol(s) => ValueView::Symbol(s@),
            Value::Ident(s) => ValueView::Ident(s@),
            Value::True => ValueView::True,
            Value::Nil => ValueView::Nil,
        }
    }
}

impl View for Token {
    type V = TokenView;

    open spec fn view(&self) -> TokenView {
        match self {
            Token::Value(v) => TokenView::Value(v@),
            Token::Hash => TokenView::Hash,
            Token::LParen => TokenView::LParen,
            Token::RParen => TokenView::RParen,
            Token::LCurly => TokenView::LCurly,
            Token::RCurly => TokenView::RCurly,
            Token::LBracket => TokenView::LBracket,
            Token::RBracket => TokenView::RBracket,
            Token::EOF => TokenView::EOF,
        }
    }
}

pub open spec fn node_view(n: AstNode) -> NodeView
    decreases n,
{
    match n {
        AstNode::Value(v) => NodeView::Value(v@),
        AstNode::Par { car, cdr } => NodeView::Par {
            car: Box::new(node_view(*car)),
            cdr: Box::new(node_view(*cdr)),
        },
        AstNode::Lambda { varname, body } => NodeView::Lambda {
            varname: varname@,
            body: Box::new(node_view(*body)),
        },
        AstNode::Function(f) => NodeView::Function(function_view(f)),
    }
}

pub open spec fn function_view(f: Function) -> FunctionView
    decreases f,
{
    match f {
        Function::Native(n) => FunctionView::Native(native_view(n)),
        Function::NativeMutEnv(n) => FunctionView::NativeMutEnv(native_env_view(n)),
        Function::User { varname, body, env } => FunctionView::User {
            varname: varname@,
            body: Box::new(node_view(*body)),
            env: env@,
        },
    }
}

pub open spec fn native_view(n: NativeFn) -> NativeFnView
    decreases n,
{
    match n {
        NativeFn::If => NativeFnView::If,
        NativeFn::IfSkip => NativeFnView::IfSkip,
        NativeFn::IfElse => NativeFnView::IfElse,
        NativeFn::IfTake => NativeFnView::IfTake,
        NativeFn::IfKeep(a) => NativeFnView::IfKeep(Box::new(node_view(*a))),
        NativeFn::StrConcat => NativeFnView::StrConcat,
        NativeFn::StrConcatWith(a) => NativeFnView::StrConcatWith(Box::new(node_view(*a))),
        NativeFn::Log => NativeFnView::Log,
        NativeFn::LogWith(a) => NativeFnView::LogWith(Box::new(node_view(*a))),
        NativeFn::Def => NativeFnView::Def,
        NativeFn::Inc => NativeFnView::Inc,
        NativeFn::Dec => NativeFnView::Dec,
        NativeFn::IsInt => NativeFnView::IsInt,
        NativeFn::Eq => NativeFnView::Eq,
        NativeFn::EqWith(v) => NativeFnView::EqWith(v@),
        NativeFn::Lt => NativeFnView::Lt,
        NativeFn::LtWith(b) => NativeFnView::LtWith(b),
        NativeFn::Add => NativeFnView::Add,
        NativeFn::AddWith(a) => NativeFnView::AddWith(a),
        NativeFn::Sub => NativeFnView::Sub,
        NativeFn::SubWith(b) => NativeFnView::SubWith(b),
        NativeFn::Mul => NativeFnView::Mul,
        NativeFn::MulWith(a) => NativeFnView::MulWith(a),
    }
}

pub open spec fn native_env_view(n: NativeEnvFn) -> NativeEnvFnView
    decreases n,
{
    match n {
        NativeEnvFn::InspectEnv => NativeEnvFnView::InspectEnv,
        NativeEnvFn::DefAs(a) => NativeEnvFnView::DefAs(Box::new(node_view(*a))),
        NativeEnvFn::Load => NativeEnvFnView::Load,
    }
}

impl View for AstNode {
    type V = NodeView;

    open spec fn view(&self) -> NodeView {
        node_view(*self)
    }
}

impl View for Function {
    type V = FunctionView;

    open spec fn view(&self) -> FunctionView {
        function_view(*self)
    }
}

impl View for NativeFn {
    type V = NativeFnView;

    open spec fn view(&self) -> NativeFnView {
        native_view(*self)
    }
}

impl View for NativeEnvFn {
    type V = NativeEnvFnView;

    open spec fn view(&self) -> NativeEnvFnView {
        native_env_view(*self)
    }
}

impl View for IntermediateToken {
    type V = IntermediateTokenView;

    open spec fn view(&self) -> IntermediateTokenView {
        match self {
            IntermediateToken::LParen(l) => IntermediateTokenView::LParen(*l),
            IntermediateToken::Value(v) => IntermediateTokenView::Value(v@),
            IntermediateToken::Hash => IntermediateTokenView::Hash,
            IntermediateToken::RParen(l) => IntermediateTokenView::RParen(*l),
            IntermediateToken::LCurly(l) => IntermediateTokenView::LCurly(*l),
            IntermediateToken::RCurly(l) => IntermediateTokenView::RCurly(*l),
            IntermediateToken::LBracket(l) => IntermediateTokenView::LBracket(*l),
            IntermediateToken::RBracket(l) => IntermediateTokenView::RBracket(*l),
            IntermediateToken::AstNode(n) => IntermediateTokenView::AstNode(n@),
            IntermediateToken::EOF => IntermediateTokenView::EOF,
        }
    }
}

/// The views of a sequence of tokens.
pub open spec fn tokens_view(tokens: Seq<Token>) -> Seq<TokenView> {
    tokens.map_values(|t: Token| t@)
}

/// The views of a sequence of depth-tagged tokens.
pub open spec fn itokens_view(tokens: Seq<IntermediateToken>) -> Seq<IntermediateTokenView> {
    tokens.map_values(|t: IntermediateToken| t@)
}

/// The views of a sequence of nodes.
pub open spec fn nodes_view(nodes: Seq<AstNode>) -> Seq<NodeView> {
    nodes.map_values(|n: AstNode| n@)
}

pub proof fn lemma_tokens_view_push(tokens: Seq<Token>, token: Token)
    ensures
        tokens_view(tokens.push(token)) == tokens_view(tokens).push(token@),
{
    assert(tokens_view(tokens.push(token)) =~= tokens_view(tokens).push(token@));
}

pub proof fn lemma_itokens_view_push(tokens: Seq<IntermediateToken>, token: IntermediateToken)
    ensures
        itokens_view(tokens.push(token)) == itokens_view(tokens).push(token@),
{
    assert(itokens_view(tokens.push(token)) =~= itokens_view(tokens).push(token@));
}

pub proof fn lemma_nodes_view_push(nodes: Seq<AstNode>, node: AstNode)
    ensures
        nodes_view(nodes.push(node)) == nodes_view(nodes).push(node@),
{
    assert(nodes_view(nodes.push(node)) =~= nodes_view(nodes).push(node@));
}

fn clone_value(v: &Value) -> (r: Value)
    ensures
        r@ == v@,
{
    match v {
        Value::Int(i) => Value::Int(*i),
        Value::String(s) => Value::String(s.clone()),
        Value::Symbol(s) => Value::Symbol(s.clone()),
        Value::Ident(s) => Value::Ident(s.clone()),
        Value::True => Value::True,
        Value::Nil => Value::Nil,
    }
}

fn clone_node(n: &AstNode) -> (r: AstNode)
    ensures
        r@ == n@,
    decreases n,
{
    match n {
        AstNode::Value(v) => AstNode::Value(clone_value(v)),
        AstNode::Par { car, cdr } => AstNode::Par {
            car: Box::new(clone_node(car)),
            cdr: Box::new(clone_node(cdr)),
        },
        AstNode::Lambda { varname, body } => AstNode::Lambda {
            varname: varname.clone(),
            body: Box::new(clone_node(body)),
        },
        AstNode::Function(f) => AstNode::Function(clone_function(f)),
    }
}

fn clone_function(f: &Function) -> (r: Function)
    ensures
        r@ == f@,
    decreases f,
{
    match f {
        Function::Native(n) => Function::Native(clone_native(n)),
        Function::NativeMutEnv(n) => Function::NativeMutEnv(clone_native_env(n)),
        Function::User { varname, body, env } => Function::User {
            varname: varname.clone(),
            body: Box::new(clone_node(body)),
            env: env.clone(),
        },
    }
}

fn clone_native(n: &NativeFn) -> (r: NativeFn)
    ensures
        r@ == n@,
    decreases n,
{
    match n {
        NativeFn::If => NativeFn::If,
        NativeFn::IfSkip => NativeFn::IfSkip,
        NativeFn::IfElse => NativeFn::IfElse,
        NativeFn::IfTake => NativeFn::IfTake,
        NativeFn::IfKeep(a) => NativeFn::IfKeep(Box::new(clone_node(a))),
        NativeFn::StrConcat => NativeFn::StrConcat,
        NativeFn::StrConcatWith(a) => NativeFn::StrConcatWith(Box::new(clone_node(a))),
        NativeFn::Log => NativeFn::Log,
        NativeFn::LogWith(a) => NativeFn::LogWith(Box::new(clone_node(a))),
        NativeFn::Def => NativeFn::Def,
        NativeFn::Inc => NativeFn::Inc,
        NativeFn::Dec => NativeFn::Dec,
        NativeFn::IsInt => NativeFn::IsInt,
        NativeFn::Eq => NativeFn::Eq,
        NativeFn::EqWith(v) => NativeFn::EqWith(clone_value(v)),
        NativeFn::Lt => NativeFn::Lt,
        NativeFn::LtWith(b) => NativeFn::LtWith(*b),
        NativeFn::Add => NativeFn::Add,
        NativeFn::AddWith(a) => NativeFn::AddWith(*a),
        NativeFn::Sub => NativeFn::Sub,
        NativeFn::SubWith(b) => NativeFn::SubWith(*b),
        NativeFn::Mul => NativeFn::Mul,
        NativeFn::MulWith(a) => NativeFn::MulWith(*a),
    }
}

fn clone_native_env(n: &NativeEnvFn) -> (r: NativeEnvFn)
    ensures
        r@ == n@,
    decreases n,
{
    match n {
        NativeEnvFn::InspectEnv => NativeEnvFn::InspectEnv,
        NativeEnvFn::DefAs(a) => NativeEnvFn::DefAs(Box::new(clone_node(a))),
        NativeEnvFn::Load => NativeEnvFn::Load,
    }
}

impl Clone for Value {
    fn clone(&self) -> (r: Self)
        ensures
            r@ == self@,
    {
        clone_value(self)
    }
}

impl Clone for AstNode {
    fn clone(&self) -> (r: Self)
        ensures
            r@ == self@,
    {
        clone_node(self)
    }
}

impl Clone for Function {
    fn clone(&self) -> (r: Self)
        ensures
            r@ == self@,
    {
        clone_function(self)
    }
}

impl Clone for NativeFn {
    fn clone(&self) -> (r: Self)
        ensures
            r@ == self@,
    {
        clone_native(self)
    }
}

impl Clone for NativeEnvFn {
    fn clone(&self) -> (r: Self)
        ensures
            r@ == self@,
    {
        clone_native_env(self)
    }
}

impl Clone for Token {
    fn clone(&self) -> (r: Self)
        ensures
            r@ == self@,
    {
        match self {
            Token::Value(v) => Token::Value(clone_value(v)),
            Token::Hash => Token::Hash,
            Token::LParen => Token::LParen,
            Token::RParen => Token::RParen,
            Token::LCurly => Token::LCurly,
            Token::RCurly => Token::RCurly,
            Token::LBracket => Token::LBracket,
            Token::RBracket => Token::RBracket,
            Token::EOF => Token::EOF,
        }
    }
}

impl Clone for IntermediateToken {
    fn clone(&self) -> (r: Self)
        ensures
            r@ == self@,
    {
        match self {
            IntermediateToken::LParen(l) => IntermediateToken::LParen(*l),
            IntermediateToken::Value(v) => IntermediateToken::Value(clone_value(v)),
            IntermediateToken::Hash => IntermediateToken::Hash,
            IntermediateToken::RParen(l) => IntermediateToken::RParen(*l),
            IntermediateToken::LCurly(l) => IntermediateToken::LCurly(*l),
            IntermediateToken::RCurly(l) => IntermediateToken::RCurly(*l),
            IntermediateToken::LBracket(l) => IntermediateToken::LBracket(*l),
            IntermediateToken::RBracket(l) => IntermediateToken::RBracket(*l),
            IntermediateToken::AstNode(n) => IntermediateToken::AstNode(clone_node(n)),
            IntermediateToken::EOF => IntermediateToken::EOF,
        }
    }
}

impl PartialEq for Value {
    fn eq(&self, other: &Self) -> (r: bool) {
        match (self, other) {
            (Value::Int(a), Value::Int(b)) => *a == *b,
            (Value::String(a), Value::String(b)) => *a == *b,
            (Value::Symbol(a), Value::Symbol(b)) => *a == *b,
            (Value::Ident(a), Value::Ident(b)) => *a == *b,
            (Value::True, Value::True) => true,
            (Value::Nil, Value::Nil) => true,
            _ => false,
        }
    }
}

impl vstd::std_specs::cmp::PartialEqSpecImpl for Value {
    open spec fn obeys_eq_spec() -> bool {
        true
    }

    open spec fn eq_spec(&self, other: &Self) -> bool {
        self@ == other@
    }
}

impl Eq for Value {

}

impl Default for AstNode {
    fn default() -> (r: Self)
        ensures
            r@ == NodeView::Value(ValueView::Nil),
    {
        AstNode::Value(Value::Nil)
    }
}

/// The token that a word stands for. An integer literal, possibly between
/// whitespace, is an `Int`; a word between double quotes is a `String`
/// without them; a word after a single quote is an `Ident`; `t` and `nil`
/// are themselves; any other word is a `Symbol`.
pub open spec fn guess_value_spec(word: Seq<char>) -> TokenView {
    let n = word.len();
    match parse_int(trim(word)) {
        Some(i) => TokenView::Value(ValueView::Int(i)),
        None => if n > 0 && word[0] == '"' && word.last() == '"' {
            TokenView::Value(ValueView::String(word.subrange(1, if n >= 2 { n - 1 } else { 1 })))
        } else if n > 0 && word[0] == '\'' {
            TokenView::Value(ValueView::Ident(word.skip(1)))
        } else if word == "t"@ {
            TokenView::Value(ValueView::True)
        } else if word == "nil"@ {
            TokenView::Value(ValueView::Nil)
        } else {
            TokenView::Value(ValueView::Symbol(word))
        },
    }
}

impl Token {
    pub fn guess_value(word: &str) -> (r: Self)
        ensures
            r@ == guess_value_spec(word@),
    {
        let chars = chars_of(word);
        let n = chars.len();
        match parse_trimmed_int(&chars) {
            Some(i) => {
                return Token::Value(Value::Int(i));
            },
            None => {},
        }
        if n > 0 && chars[0] == '"' && chars[n - 1] == '"' {
            let end: usize = if n >= 2 { n - 1 } else { 1 };
            Token::Value(Value::String(string_from_chars(&chars, 1, end)))
        } else if n > 0 && chars[0] == '\'' {
            let name = string_from_chars(&chars, 1, n);
            assert(name@ =~= word@.skip(1));
            Token::Value(Value::Ident(name))
        } else if str_equals(word, "t") {
            Token::Value(Value::True)
        } else if str_equals(word, "nil") {
            Token::Value(Value::Nil)
        } else {
            Token::Value(Value::Symbol(word.to_owned()))
        }
    }
}

/// How a literal reads when shown: a string without its quotes, an
/// identifier after its quote.
pub open spec fn value_text(v: ValueView) -> Seq<char> {
    match v {
        ValueView::Int(i) => int_text(i as int),
        ValueView::String(s) => s,
        ValueView::Symbol(s) => s,
        ValueView::Ident(s) => seq!['\''] + s,
        ValueView::True => "t"@,
        ValueView::Nil => "nil"@,
    }
}

pub open spec fn function_text(f: FunctionView) -> Seq<char> {
    match f {
        FunctionView::Native(_) => "<native fn>"@,
        FunctionView::NativeMutEnv(_) => "<native fn>"@,
        FunctionView::User { varname, body, env } => "<user fn "@ + varname + seq!['>'],
    }
}

/// How a node reads when shown.
pub open spec fn node_text(n: NodeView) -> Seq<char>
    decreases n,
{
    match n {
        NodeView::Value(v) => value_text(v),
        NodeView::Par { car, cdr } => seq!['('] + node_text(*car) + seq![' '] + node_text(*cdr)
            + seq![')'],
        NodeView::Lambda { varname, body } => "(fn '"@ + varname + seq![' '] + node_text(*body)
            + seq![')'],
        NodeView::Function(f) => function_text(f),
    }
}

fn push_value_text(v: &Value, out: &mut String)
    ensures
        final(out)@ == old(out)@ + value_text(v@),
{
    match v {
        Value::Int(i) => push_int(*i, out),
        Value::String(s) => out.append(s.as_str()),
        Value::Symbol(s) => out.append(s.as_str()),
        Value::Ident(s) => {
            string_push(out, '\'');
            out.append(s.as_str());
            assert(final(out)@ =~= old(out)@ + (seq!['\''] + s@));
        },
        Value::True => out.append("t"),
        Value::Nil => out.append("nil"),
    }
}

fn push_function_text(f: &Function, out: &mut String)
    ensures
        final(out)@ == old(out)@ + function_text(f@),
{
    match f {
        Function::Native(_) => out.append("<native fn>"),
        Function::NativeMutEnv(_) => out.append("<native fn>"),
        Function::User { varname, body, env } => {
            out.append("<user fn ");
            out.append(varname.as_str());
            string_push(out, '>');
            assert(final(out)@ =~= old(out)@ + ("<user fn "@ + varname@ + seq!['>']));
        },
    }
}

fn push_node_text(n: &AstNode, out: &mut String)
    ensures
        final(out)@ == old(out)@ + node_text(n@),
    decreases n,
{
    match n {
        AstNode::Value(v) => push_value_text(v, out),
        AstNode::Par { car, cdr } => {
            string_push(out, '(');
            push_node_text(car, out);
            string_push(out, ' ');
            push_node_text(cdr, out);
            string_push(out, ')');
            assert(final(out)@ =~= old(out)@ + (seq!['('] + node_text(car@) + seq![' ']
                + node_text(cdr@) + seq![')']));
        },
        AstNode::Lambda { varname, body } => {
            out.append("(fn '");
            out.append(varname.as_str());
            string_push(out, ' ');
            push_node_text(body, out);
            string_push(out, ')');
            assert(final(out)@ =~= old(out)@ + ("(fn '"@ + varname@ + seq![' '] + node_text(body@)
                + seq![')']));
        },
        AstNode::Function(f) => push_function_text(f, out),
    }
}

impl Value {
    /// The text that shows this literal.
    pub fn to_text(&self) -> (r: String)
        ensures
            r@ == value_text(self@),
    {
        let mut out = String::new();
        push_value_text(self, &mut out);
        assert(out@ =~= value_text(self@));
        out
    }
}

impl Function {
    /// The text that shows this function.
    pub fn to_text(&self) -> (r: String)
        ensures
            r@ == function_text(self@),
    {
        let mut out = String::new();
        push_function_text(self, &mut out);
        assert(out@ =~= function_text(self@));
        out
    }
}

impl AstNode {
    /// The text that shows this node.
    pub fn to_text(&self) -> (r: String)
        ensures
            r@ == node_text(self@),
    {
        let mut out = String::new();
        push_node_text(self, &mut out);
        assert(out@ =~= node_text(self@));
        out
    }
}

pub open spec fn nil_node() -> NodeView {
    NodeView::Value(ValueView::Nil)
}

pub open spec fn int_node(i: i32) -> NodeView {
    NodeView::Value(ValueView::Int(i))
}

pub open spec fn string_node(s: Seq<char>) -> NodeView {
    NodeView::Value(ValueView::String(s))
}

pub open spec fn symbol_node(name: Seq<char>) -> NodeView {
    NodeView::Value(ValueView::Symbol(name))
}

/// `True` for true, `Nil` for false.
pub open spec fn truth_node(b: bool) -> NodeView {
    if b {
        NodeView::Value(ValueView::True)
    } else {
        NodeView::Value(ValueView::Nil)
    }
}

pub open spec fn pair_node(car: NodeView, cdr: NodeView) -> NodeView {
    NodeView::Par { car: Box::new(car), cdr: Box::new(cdr) }
}

pub open spec fn native_node(f: NativeFnView) -> NodeView {
    NodeView::Function(FunctionView::Native(f))
}

pub open spec fn native_env_node(f: NativeEnvFnView) -> NodeView {
    NodeView::Function(FunctionView::NativeMutEnv(f))
}

pub open spec fn closure_node(varname: Seq<char>, body: NodeView, env: Map<Seq<char>, NodeView>)
    -> NodeView {
    NodeView::Function(FunctionView::User { varname, body: Box::new(body), env })
}

impl AstNode {
    pub fn nil() -> (r: AstNode)
        ensures
            r@ == nil_node(),
    {
        AstNode::Value(Value::Nil)
    }

    pub fn integer(i: i32) -> (r: AstNode)
        ensures
            r@ == int_node(i),
    {
        AstNode::Value(Value::Int(i))
    }

    pub fn string(s: String) -> (r: AstNode)
        ensures
            r@ == string_node(s@),
    {
        AstNode::Value(Value::String(s))
    }

    pub fn symbol(name: &str) -> (r: AstNode)
        ensures
            r@ == symbol_node(name@),
    {
        AstNode::Value(Value::Symbol(name.to_owned()))
    }

    pub fn truth(b: bool) -> (r: AstNode)
        ensures
            r@ == truth_node(b),
    {
        if b {
            AstNode::Value(Value::True)
        } else {
            AstNode::Value(Value::Nil)
        }
    }

    /// The application of `car` to `cdr`.
    pub fn pair(car: AstNode, cdr: AstNode) -> (r: AstNode)
        ensures
            r@ == pair_node(car@, cdr@),
    {
        AstNode::Par { car: Box::new(car), cdr: Box::new(cdr) }
    }

    pub fn native(f: NativeFn) -> (r: AstNode)
        ensures
            r@ == native_node(f@),
    {
        assert(function_view(Function::Native(f)) == FunctionView::Native(f@));
        AstNode::Function(Function::Native(f))
    }

    pub fn native_env(f: NativeEnvFn) -> (r: AstNode)
        ensures
            r@ == native_env_node(f@),
    {
        assert(function_view(Function::NativeMutEnv(f)) == FunctionView::NativeMutEnv(f@));
        AstNode::Function(Function::NativeMutEnv(f))
    }

    /// The function of `varname` with `body`, closed over `env`.
    pub fn closure(varname: String, body: AstNode, env: Environment) -> (r: AstNode)
        ensures
            r@ == closure_node(varname@, body@, env@),
    {
        let f = Function::User { varname, body: Box::new(body), env };
        assert(function_view(f) == FunctionView::User {
            varname: varname@,
            body: Box::new(body@),
            env: env@,
        });
        AstNode::Function(f)
    }

    pub fn is_nil(&self) -> (r: bool)
        ensures
            r == (self@ == nil_node()),
    {
        match self {
            AstNode::Value(Value::Nil) => true,
            _ => false,
        }
    }
}

/// How a literal reads in a diagnostic: as it is shown, but a string
/// between double quotes.
pub open spec fn value_debug_text(v: ValueView) -> Seq<char> {
    match v {
        ValueView::String(s) => seq!['"'] + s + seq!['"'],
        _ => value_text(v),
    }
}

/// How a node reads in a diagnostic.
pub open spec fn node_debug_text(n: NodeView) -> Seq<char> {
    match n {
        NodeView::Value(v) => value_debug_text(v),
        _ => node_text(n),
    }
}

/// How a run of nodes reads in a diagnostic: between square brackets,
/// with a comma and a space between two nodes.
pub open spec fn nodes_debug_text(nodes: Seq<NodeView>) -> Seq<char> {
    seq!['['] + joined_debug_text(nodes) + seq![']']
}

pub open spec fn joined_debug_text(nodes: Seq<NodeView>) -> Seq<char>
    decreases nodes.len(),
{
    if nodes.len() == 0 {
        Seq::empty()
    } else if nodes.len() == 1 {
        node_debug_text(nodes[0])
    } else {
        joined_debug_text(nodes.drop_last()) + ", "@ + node_debug_text(nodes.last())
    }
}

/// How a bracket reads in a diagnostic: its name and, in parentheses, its depth.
pub open spec fn bracket_debug_text(name: Seq<char>, level: i32) -> Seq<char> {
    name + seq!['('] + int_text(level as int) + seq![')']
}

/// How a depth-tagged token reads in a diagnostic.
pub open spec fn itoken_debug_text(t: IntermediateTokenView) -> Seq<char> {
    match t {
        IntermediateTokenView::LParen(l) => bracket_debug_text("LParen"@, l),
        IntermediateTokenView::RParen(l) => bracket_debug_text("RParen"@, l),
        IntermediateTokenView::LCurly(l) => bracket_debug_text("LCurly"@, l),
        IntermediateTokenView::RCurly(l) => bracket_debug_text("RCurly"@, l),
        IntermediateTokenView::LBracket(l) => bracket_debug_text("LBracket"@, l),
        IntermediateTokenView::RBracket(l) => bracket_debug_text("RBracket"@, l),
        IntermediateTokenView::Value(v) => "Value("@ + value_debug_text(v) + seq![')'],
        IntermediateTokenView::AstNode(n) => "AstNode("@ + node_debug_text(n) + seq![')'],
        IntermediateTokenView::Hash => "Hash"@,
        IntermediateTokenView::EOF => "EOF"@,
    }
}

/// How a token reads when shown: a value as it is shown, a marker as it
/// is written, and nothing for the end of the input.
pub open spec fn token_text(t: TokenView) -> Seq<char> {
    match t {
        TokenView::Value(v) => value_text(v),
        TokenView::Hash => "#"@,
        TokenView::LParen => "("@,
        TokenView::RParen => ")"@,
        TokenView::LCurly => "{"@,
        TokenView::RCurly => "}"@,
        TokenView::LBracket => "["@,
        TokenView::RBracket => "]"@,
        TokenView::EOF => ""@,
    }
}

pub(crate) fn push_value_debug_text(v: &Value, out: &mut String)
    ensures
        final(out)@ == old(out)@ + value_debug_text(v@),
{
    match v {
        Value::String(s) => {
            string_push(out, '"');
            out.append(s.as_str());
            string_push(out, '"');
            assert(final(out)@ =~= old(out)@ + (seq!['"'] + s@ + seq!['"']));
        },
        _ => push_value_text(v, out),
    }
}

pub(crate) fn push_node_debug_text(n: &AstNode, out: &mut String)
    ensures
        final(out)@ == old(out)@ + node_debug_text(n@),
{
    match n {
        AstNode::Value(v) => push_value_debug_text(v, out),
        _ => push_node_text(n, out),
    }
}

pub(crate) fn push_nodes_debug_text(nodes: &Vec<AstNode>, out: &mut String)
    ensures
        final(out)@ == old(out)@ + nodes_debug_text(nodes_view(nodes@)),
{
    let ghost all = nodes_view(nodes@);
    let ghost start = out@;
    string_push(out, '[');
    let mut i: usize = 0;
    assert(all.subrange(0, 0) =~= Seq::<NodeView>::empty());
    assert(out@ =~= start + seq!['['] + joined_debug_text(all.subrange(0, 0)));
    while i < nodes.len()
        invariant
            i <= nodes.len(),
            all == nodes_view(nodes@),
            out@ == start + seq!['['] + joined_debug_text(all.subrange(0, i as int)),
        decreases nodes.len() - i,
    {
        let ghost done = joined_debug_text(all.subrange(0, i as int));
        assert(all.subrange(0, i + 1).drop_last() =~= all.subrange(0, i as int));
        assert(all.subrange(0, i + 1).last() == nodes[i as int]@);
        if i > 0 {
            out.append(", ");
        }
        push_node_debug_text(&nodes[i], out);
        proof {
            let item = node_debug_text(nodes[i as int]@);
            if i > 0 {
                assert(out@ =~= start + seq!['['] + (done + ", "@ + item));
            } else {
                assert(done =~= Seq::<char>::empty());
                assert(out@ =~= start + seq!['['] + item);
            }
        }
        i += 1;
    }
    assert(all.subrange(0, i as int) =~= all);
    string_push(out, ']');
    assert(out@ =~= start + (seq!['['] + joined_debug_text(all) + seq![']']));
}

fn push_bracket_debug_text(name: &str, level: i32, out: &mut String)
    ensures
        final(out)@ == old(out)@ + bracket_debug_text(name@, level),
{
    out.append(name);
    string_push(out, '(');
    push_int(level, out);
    string_push(out, ')');
    assert(final(out)@ =~= old(out)@ + (name@ + seq!['('] + int_text(level as int) + seq![')']));
}

pub(crate) fn push_itoken_debug_text(t: &IntermediateToken, out: &mut String)
    ensures
        final(out)@ == old(out)@ + itoken_debug_text(t@),
{
    match t {
        IntermediateToken::LParen(l) => push_bracket_debug_text("LParen", *l, out),
        IntermediateToken::RParen(l) => push_bracket_debug_text("RParen", *l, out),
        IntermediateToken::LCurly(l) => push_bracket_debug_text("LCurly", *l, out),
        IntermediateToken::RCurly(l) => push_bracket_debug_text("RCurly", *l, out),
        IntermediateToken::LBracket(l) => push_bracket_debug_text("LBracket", *l, out),
        IntermediateToken::RBracket(l) => push_bracket_debug_text("RBracket", *l, out),
        IntermediateToken::Value(v) => {
            out.append("Value(");
            push_value_debug_text(v, out);
            string_push(out, ')');
            assert(final(out)@ =~= old(out)@ + ("Value("@ + value_debug_text(v@) + seq![')']));
        },
        IntermediateToken::AstNode(n) => {
            out.append("AstNode(");
            push_node_debug_text(n, out);
            string_push(out, ')');
            assert(final(out)@ =~= old(out)@ + ("AstNode("@ + node_debug_text(n@) + seq![')']));
        },
        IntermediateToken::Hash => out.append("Hash"),
        IntermediateToken::EOF => out.append("EOF"),
    }
}

impl Value {
    /// The text that shows this literal in a diagnostic.
    pub fn to_debug_text(&self) -> (r: String)
        ensures
            r@ == value_debug_text(self@),
    {
        let mut out = String::new();
        push_value_debug_text(self, &mut out);
        assert(out@ =~= value_debug_text(self@));
        out
    }
}

impl AstNode {
    /// The text that shows this node in a diagnostic.
    pub fn to_debug_text(&self) -> (r: String)
        ensures
            r@ == node_debug_text(self@),
    {
        let mut out = String::new();
        push_node_debug_text(self, &mut out);
        assert(out@ =~= node_debug_text(self@));
        out
    }
}

impl IntermediateToken {
    /// The text that shows this token in a diagnostic.
    pub fn to_debug_text(&self) -> (r: String)
        ensures
            r@ == itoken_debug_text(self@),
    {
        let mut out = String::new();
        push_itoken_debug_text(self, &mut out);
        assert(out@ =~= itoken_debug_text(self@));
        out
    }
}

impl Token {
    /// The text that shows this token.
    pub fn to_text(&self) -> (r: String)
        ensures
            r@ == token_text(self@),
    {
        match self {
            Token::Value(v) => v.to_text(),
            Token::Hash => "#".to_owned(),
            Token::LParen => "(".to_owned(),
            Token::RParen => ")".to_owned(),
            Token::LCurly => "{".to_owned(),
            Token::RCurly => "}".to_owned(),
            Token::LBracket => "[".to_owned(),
            Token::RBracket => "]".to_owned(),
            Token::EOF => "".to_owned(),
        }
    }
}

} // verus!
