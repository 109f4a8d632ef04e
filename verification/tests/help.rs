use ci_lisp::ast::{AstNode, NativeFn, Value};
use ci_lisp::env::Environment;
use ci_lisp::help::HelpItem;
use ci_lisp::parser_types::CIEvalError;

fn ident(name: &str) -> AstNode {
    AstNode::Value(Value::Ident(name.to_string()))
}

#[test]
fn literals_have_a_type_and_a_value() {
    let env = Environment::new();
    let items = AstNode::integer(3).help(&env, 4).unwrap();
    assert!(matches!(
        &items[..],
        [HelpItem::Type(t), HelpItem::Value(Value::Int(3))] if t == "Int"
    ));
    let items = AstNode::string("s".to_string()).help(&env, 4).unwrap();
    assert!(matches!(
        &items[..],
        [HelpItem::Type(t), HelpItem::Value(Value::String(s))] if t == "String" && s == "s"
    ));
    let items = AstNode::truth(true).help(&env, 0).unwrap();
    assert!(matches!(&items[..], [HelpItem::Value(Value::True)]));
    let items = AstNode::nil().help(&env, 0).unwrap();
    assert!(matches!(&items[..], [HelpItem::Value(Value::Nil)]));
}

#[test]
fn functions_have_a_definition_or_are_native() {
    let env = Environment::new();
    let closure = AstNode::closure("x".to_string(), AstNode::symbol("x"), env.clone());
    let items = closure.help(&env, 0).unwrap();
    assert!(matches!(
        &items[..],
        [HelpItem::Definition { varname, body }] if varname == "x" && body.to_text() == "x"
    ));
    let items = AstNode::native(NativeFn::Add).help(&env, 0).unwrap();
    assert!(matches!(&items[..], [HelpItem::Native]));
}

#[test]
fn a_quoted_name_stands_for_its_binding() {
    let env = Environment::new()
        .insert("n", AstNode::integer(1))
        .insert(
            "f",
            AstNode::closure("x".to_string(), AstNode::nil(), Environment::new()),
        )
        .insert("g", ident("f"));
    let items = ident("n").help(&env, 4).unwrap();
    assert!(matches!(
        &items[..],
        [HelpItem::Type(_), HelpItem::Value(Value::Int(1))]
    ));
    let items = ident("f").help(&env, 4).unwrap();
    assert!(matches!(
        &items[..],
        [HelpItem::Function(name), HelpItem::Definition { .. }] if name == "f"
    ));
    let items = ident("g").help(&env, 4).unwrap();
    assert!(matches!(
        &items[..],
        [HelpItem::Function(name), HelpItem::Definition { .. }] if name == "f"
    ));
}

#[test]
fn an_unbound_name_is_an_unknown_symbol() {
    let env = Environment::new();
    assert!(ident("nope").can_help(&env, 4));
    assert!(matches!(
        ident("nope").help(&env, 4),
        Err(CIEvalError::UnknownSymbol(s)) if s == "nope"
    ));
}

#[test]
fn names_that_lead_in_a_circle_are_given_up() {
    let env = Environment::new()
        .insert("a", ident("b"))
        .insert("b", ident("a"));
    assert!(ident("a").can_help(&env, 10));
    assert!(matches!(
        ident("a").help(&env, 10),
        Err(CIEvalError::DepthExceeded)
    ));
}

#[test]
fn what_is_not_evaluated_has_no_help() {
    let env = Environment::new().insert("p", AstNode::pair(AstNode::nil(), AstNode::nil()));
    assert!(!AstNode::symbol("x").can_help(&env, 4));
    assert!(!AstNode::pair(AstNode::nil(), AstNode::nil()).can_help(&env, 4));
    assert!(!ident("p").can_help(&env, 4));
    assert!(ident("p").can_help(&env, 0));
    assert!(AstNode::integer(1).can_help(&env, 0));
}
