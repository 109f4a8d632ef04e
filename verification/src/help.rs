use crate::ast::{AstNode, Function, NodeView, Value, ValueView};
use crate::env::{EnvView, Environment};
use crate::parser_types::{CIEvalError, EvalErrorView};
use vstd::prelude::*;

verus! {

/// One thing that is told about a value.
#[derive(Debug)]
pub enum HelpItem {
    /// The name of the type of a literal.
    Type(String),
    /// The value of a literal.
    Value(Value),
    /// The name under which a closure was found.
    Function(String),
    /// The definition of a closure.
    Definition { varname: String, body: AstNode },
    /// The value is a built-in function.
    Native,
}

pub enum HelpItemView {
    Type(Seq<char>),
    Value(ValueView),
    Function(Seq<char>),
    Definition { varname: Seq<char>, body: NodeView },
    Native,
}

impl View for HelpItem {
    type V = HelpItemView;

    open spec fn view(&self) -> HelpItemView {
        match self {
            HelpItem::Type(name) => HelpItemView::Type(name@),
            HelpItem::Value(v) => HelpItemView::Value(v@),
            HelpItem::Function(name) => HelpItemView::Function(name@),
            HelpItem::Definition { varname, body } => HelpItemView::Definition {
                varname: varname@,
                body: body@,
            },
            HelpItem::Native => HelpItemView::Native,
        }
    }
}

/// The views of a sequence of help items.
pub open spec fn help_view(items: Seq<HelpItem>) -> Seq<HelpItemView> {
    items.map_values(|i: HelpItem| i@)
}

/// What asking for help returns, as a contract sees it.
pub open spec fn helped_view(r: Result<Vec<HelpItem>, CIEvalError>) -> Result<
    Seq<HelpItemView>,
    EvalErrorView,
> {
    match r {
        Ok(items) => Ok(help_view(items@)),
        Err(e) => Err(e@),
    }
}

pub open spec fn is_closure(n: NodeView) -> bool {
    n is Function && n->Function_0 is User
}

/// Whether help can be asked about a node: it is a value, and a quoted
/// name leads to one, through no more than `depth` names.
pub open spec fn can_help_spec(n: NodeView, env: EnvView, depth: nat) -> bool
    decreases depth,
{
    match n {
        NodeView::Value(ValueView::Symbol(_)) => false,
        NodeView::Par { car, cdr } => false,
        NodeView::Lambda { varname, body } => false,
        NodeView::Value(ValueView::Ident(name)) => env.contains_key(name) && depth > 0
            ==> can_help_spec(env[name], env, (depth - 1) as nat),
        _ => true,
    }
}

/// What is told about a value. An integer and a string have a type and a
/// value, `t` and `nil` a value, a closure a definition. A quoted name
/// stands for what it is bound to, and names a closure that it is bound to.
pub open spec fn help_spec(n: NodeView, env: EnvView, depth: nat) -> Result<
    Seq<HelpItemView>,
    EvalErrorView,
>
    decreases depth,
{
    match n {
        NodeView::Value(ValueView::Int(i)) => Ok(
            seq![HelpItemView::Type("Int"@), HelpItemView::Value(ValueView::Int(i))],
        ),
        NodeView::Value(ValueView::String(s)) => Ok(
            seq![HelpItemView::Type("String"@), HelpItemView::Value(ValueView::String(s))],
        ),
        NodeView::Value(ValueView::Ident(name)) => if !env.contains_key(name) {
            Err(EvalErrorView::UnknownSymbol(name))
        } else if depth == 0 {
            Err(EvalErrorView::DepthExceeded)
        } else {
            match help_spec(env[name], env, (depth - 1) as nat) {
                Err(e) => Err(e),
                Ok(items) => if is_closure(env[name]) {
                    Ok(seq![HelpItemView::Function(name)] + items)
                } else {
                    Ok(items)
                },
            }
        },
        NodeView::Value(v) => Ok(seq![HelpItemView::Value(v)]),
        NodeView::Function(crate::ast::FunctionView::User { varname, body, env: captured }) => Ok(
            seq![HelpItemView::Definition { varname, body: *body }],
        ),
        NodeView::Function(_) => Ok(seq![HelpItemView::Native]),
        _ => Ok(Seq::empty()),
    }
}

fn one(item: HelpItem) -> (r: Vec<HelpItem>)
    ensures
        help_view(r@) == seq![item@],
{
    let mut r: Vec<HelpItem> = Vec::new();
    r.push(item);
    assert(help_view(r@) =~= seq![item@]);
    r
}

fn two(first: HelpItem, second: HelpItem) -> (r: Vec<HelpItem>)
    ensures
        help_view(r@) == seq![first@, second@],
{
    let mut r: Vec<HelpItem> = Vec::new();
    r.push(first);
    r.push(second);
    assert(help_view(r@) =~= seq![first@, second@]);
    r
}

impl AstNode {
    /// Whether help can be asked about this node.
    pub fn can_help(&self, env: &Environment, depth: usize) -> (r: bool)
        ensures
            r == can_help_spec(self@, env@, depth as nat),
        decreases depth,
    {
        match self {
            AstNode::Value(Value::Symbol(_)) => false,
            AstNode::Par { car, cdr } => false,
            AstNode::Lambda { varname, body } => false,
            AstNode::Value(Value::Ident(name)) => match env.get(name.as_str()) {
                Some(bound) => depth == 0 || bound.can_help(env, depth - 1),
                None => true,
            },
            _ => true,
        }
    }

    /// Tells about this value.
    pub fn help(&self, env: &Environment, depth: usize) -> (r: Result<Vec<HelpItem>, CIEvalError>)
        requires
            can_help_spec(self@, env@, depth as nat),
        ensures
            helped_view(r) == help_spec(self@, env@, depth as nat),
        decreases depth,
    {
        match self {
            AstNode::Value(Value::Int(i)) => Ok(
                two(HelpItem::Type("Int".to_owned()), HelpItem::Value(Value::Int(*i))),
            ),
            AstNode::Value(Value::String(s)) => Ok(
                two(HelpItem::Type("String".to_owned()), HelpItem::Value(Value::String(s.clone()))),
            ),
            AstNode::Value(Value::Ident(name)) => match env.get(name.as_str()) {
                None => Err(CIEvalError::UnknownSymbol(name.clone())),
                Some(bound) => {
                    if depth == 0 {
                        return Err(CIEvalError::DepthExceeded);
                    }
                    let named = match bound {
                        AstNode::Function(Function::User { varname, body, env: captured }) => true,
                        _ => false,
                    };
                    assert(named == is_closure(bound@)) by {
                        match *bound {
                            AstNode::Function(f) => {
                                assert(bound@ == NodeView::Function(f@));
                            },
                            _ => {},
                        }
                    }
                    match bound.help(env, depth - 1) {
                        Err(e) => Err(e),
                        Ok(items) => {
                            if named {
                                let mut all = one(HelpItem::Function(name.clone()));
                                let mut rest = items;
                                assert(help_view(all@ + rest@) =~= help_view(all@) + help_view(
                                    rest@,
                                ));
                                all.append(&mut rest);
                                Ok(all)
                            } else {
                                Ok(items)
                            }
                        },
                    }
                },
            },
            AstNode::Value(v) => Ok(one(HelpItem::Value(v.clone()))),
            AstNode::Function(Function::User { varname, body, env: captured }) => {
                let item = HelpItem::Definition {
                    varname: varname.clone(),
                    body: (**body).clone(),
                };
                assert(self@ == crate::ast::closure_node(varname@, body@, captured@)) by {
                    assert(crate::ast::function_view(
                        Function::User { varname: *varname, body: *body, env: *captured },
                    ) == crate::ast::FunctionView::User {
                        varname: varname@,
                        body: Box::new(body@),
                        env: captured@,
                    });
                }
                Ok(one(item))
            },
            AstNode::Function(f) => {
                assert(self@ == NodeView::Function(f@));
                Ok(one(HelpItem::Native))
            },
            _ => Ok(Vec::new()),
        }
    }
}

} // verus!
