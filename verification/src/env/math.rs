use crate::ast::{native_node, AstNode, NativeFn, NativeFnView};
use crate::env::{EnvView, Environment};
use vstd::prelude::*;

verus! {

/// `env` with the built-in functions on integers and the test for
/// equality bound to their names.
pub open spec fn math_spec(env: EnvView) -> EnvView {
    env.insert("inc"@, native_node(NativeFnView::Inc)).insert(
        "dec"@,
        native_node(NativeFnView::Dec),
    ).insert("is_int"@, native_node(NativeFnView::IsInt)).insert(
        "eq"@,
        native_node(NativeFnView::Eq),
    ).insert("lt"@, native_node(NativeFnView::Lt)).insert(
        "add"@,
        native_node(NativeFnView::Add),
    ).insert("mul"@, native_node(NativeFnView::Mul)).insert("sub"@, native_node(NativeFnView::Sub))
}

/// Binds the built-in functions on integers.
pub fn math_environment(env: Environment) -> (r: Environment)
    ensures
        r@ == math_spec(env@),
{
    let env = env.insert("inc", AstNode::native(NativeFn::Inc));
    let env = env.insert("dec", AstNode::native(NativeFn::Dec));
    let env = env.insert("is_int", AstNode::native(NativeFn::IsInt));
    let env = env.insert("eq", AstNode::native(NativeFn::Eq));
    let env = env.insert("lt", AstNode::native(NativeFn::Lt));
    let env = env.insert("add", AstNode::native(NativeFn::Add));
    let env = env.insert("mul", AstNode::native(NativeFn::Mul));
    let env = env.insert("sub", AstNode::native(NativeFn::Sub));
    env
}

} // verus!
