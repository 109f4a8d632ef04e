use crate::ast::{
    native_env_node, native_node, AstNode, NativeEnvFn, NativeEnvFnView, NativeFn, NativeFnView,
};
use crate::env::{EnvView, Environment};
use vstd::prelude::*;

verus! {

/// `env` with the built-in functions of control flow, definition, text and
/// loading bound to their names.
pub open spec fn prelude_spec(env: EnvView) -> EnvView {
    env.insert("if"@, native_node(NativeFnView::If)).insert(
        "inspect_env"@,
        native_env_node(NativeEnvFnView::InspectEnv),
    ).insert("str_concat"@, native_node(NativeFnView::StrConcat)).insert(
        "log"@,
        native_node(NativeFnView::Log),
    ).insert("def"@, native_node(NativeFnView::Def)).insert(
        "include"@,
        native_env_node(NativeEnvFnView::Load),
    )
}

/// Binds the built-in functions that every program starts with.
pub fn prelude_environment(env: Environment) -> (r: Environment)
    ensures
        r@ == prelude_spec(env@),
{
    let env = env.insert("if", AstNode::native(NativeFn::If));
    let env = env.insert("inspect_env", AstNode::native_env(NativeEnvFn::InspectEnv));
    let env = env.insert("str_concat", AstNode::native(NativeFn::StrConcat));
    let env = env.insert("log", AstNode::native(NativeFn::Log));
    let env = env.insert("def", AstNode::native(NativeFn::Def));
    let env = env.insert("include", AstNode::native_env(NativeEnvFn::Load));
    env
}

} // verus!
