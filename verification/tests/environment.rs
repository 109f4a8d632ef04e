use ci_lisp::ast::{AstNode, Function, NativeEnvFn, NativeFn, Value};
use ci_lisp::env::math::math_environment;
use ci_lisp::env::prelude::prelude_environment;
use ci_lisp::env::Environment;

#[test]
fn a_new_environment_binds_nothing() {
    let env = Environment::new();
    assert!(env.get("x").is_none());
    assert!(Environment::default().get("if").is_none());
}

#[test]
fn insert_returns_a_new_environment() {
    let empty = Environment::new();
    let one = empty.insert("x", AstNode::integer(1));
    assert!(empty.get("x").is_none());
    assert!(matches!(one.get("x"), Some(AstNode::Value(Value::Int(1)))));
    assert!(one.get("y").is_none());
}

#[test]
fn a_later_insert_shadows() {
    let one = Environment::new().insert("x", AstNode::integer(1));
    let two = one.insert("x", AstNode::integer(2));
    assert!(matches!(one.get("x"), Some(AstNode::Value(Value::Int(1)))));
    assert!(matches!(two.get("x"), Some(AstNode::Value(Value::Int(2)))));
}

#[test]
fn a_clone_is_independent() {
    let one = Environment::new().insert("x", AstNode::integer(1));
    let copy = one.clone();
    let more = one.insert("y", AstNode::integer(2));
    assert!(matches!(copy.get("x"), Some(AstNode::Value(Value::Int(1)))));
    assert!(copy.get("y").is_none());
    assert!(more.get("y").is_some());
}

#[test]
fn prelude_binds_its_names() {
    let env = prelude_environment(Environment::new());
    assert!(matches!(env.get("if"), Some(AstNode::Function(Function::Native(NativeFn::If)))));
    assert!(matches!(env.get("log"), Some(AstNode::Function(Function::Native(NativeFn::Log)))));
    assert!(matches!(env.get("def"), Some(AstNode::Function(Function::Native(NativeFn::Def)))));
    assert!(matches!(
        env.get("str_concat"),
        Some(AstNode::Function(Function::Native(NativeFn::StrConcat)))
    ));
    assert!(matches!(
        env.get("inspect_env"),
        Some(AstNode::Function(Function::NativeMutEnv(NativeEnvFn::InspectEnv)))
    ));
    assert!(matches!(
        env.get("include"),
        Some(AstNode::Function(Function::NativeMutEnv(NativeEnvFn::Load)))
    ));
    assert!(env.get("add").is_none());
}

#[test]
fn math_binds_its_names() {
    let env = math_environment(Environment::new());
    assert!(matches!(env.get("inc"), Some(AstNode::Function(Function::Native(NativeFn::Inc)))));
    assert!(matches!(env.get("dec"), Some(AstNode::Function(Function::Native(NativeFn::Dec)))));
    assert!(matches!(env.get("is_int"), Some(AstNode::Function(Function::Native(NativeFn::IsInt)))));
    assert!(matches!(env.get("eq"), Some(AstNode::Function(Function::Native(NativeFn::Eq)))));
    assert!(matches!(env.get("lt"), Some(AstNode::Function(Function::Native(NativeFn::Lt)))));
    assert!(matches!(env.get("add"), Some(AstNode::Function(Function::Native(NativeFn::Add)))));
    assert!(matches!(env.get("sub"), Some(AstNode::Function(Function::Native(NativeFn::Sub)))));
    assert!(matches!(env.get("mul"), Some(AstNode::Function(Function::Native(NativeFn::Mul)))));
    assert!(env.get("if").is_none());
}

#[test]
fn math_keeps_what_was_bound() {
    let env = math_environment(Environment::new().insert("mine", AstNode::nil()));
    assert!(matches!(env.get("mine"), Some(AstNode::Value(Value::Nil))));
}
