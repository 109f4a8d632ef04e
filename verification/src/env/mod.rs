use crate::ast::{AstNode, NodeView};
use vstd::prelude::*;

pub mod math;
pub mod prelude;

verus! {

/// What an environment is to a contract: a map from names to node views.
pub type EnvView = Map<Seq<char>, NodeView>;

/// The bindings that an environment holds: each bound name with the view of
/// the node it is bound to. The table may keep a clone of a node in place of
/// the node that was inserted; a clone has the view of what it was made from.
pub uninterp spec fn env_bindings(env: Environment) -> Map<Seq<char>, NodeView>;

/// A persistent symbol table. Inserting returns a new table that shares
/// structure with the old one, which stays valid and unchanged.
#[verifier::external_body]
#[derive(Debug)]
pub struct Environment {
    bindings: im::HashMap<String, AstNode>,
}

impl View for Environment {
    type V = Map<Seq<char>, NodeView>;

    open spec fn view(&self) -> Map<Seq<char>, NodeView> {
        env_bindings(*self)
    }
}

impl Environment {
    /// `im::HashMap::new`: a table without bindings.
    #[verifier::external_body]
    pub fn new() -> (r: Environment)
        ensures
            env_bindings(r) == EnvView::empty(),
    {
        Environment { bindings: im::HashMap::new() }
    }

    /// `im::HashMap::update`: a new table that binds `cmd` to `node` and is
    /// otherwise as this one, which it leaves unchanged. An earlier binding
    /// of `cmd` is shadowed.
    #[verifier::external_body]
    pub fn insert(&self, cmd: &str, node: AstNode) -> (r: Environment)
        ensures
            env_bindings(r) == env_bindings(*self).insert(cmd@, node@),
    {
        Environment { bindings: self.bindings.update(cmd.to_string(), node) }
    }

    /// `im::HashMap::get`: the node bound to `key`, if there is one.
    #[verifier::external_body]
    pub fn get(&self, key: &str) -> (r: Option<&AstNode>)
        ensures
            (r is Some) == env_bindings(*self).contains_key(key@),
            r is Some ==> r->0@ == env_bindings(*self)[key@],
    {
        self.bindings.get(key)
    }
}

impl Clone for Environment {
    /// `im::HashMap::clone`: a table with the same bindings, sharing the
    /// structure of this one.
    #[verifier::external_body]
    fn clone(&self) -> (r: Self)
        ensures
            env_bindings(r) == env_bindings(*self),
    {
        Environment { bindings: self.bindings.clone() }
    }
}

impl Default for Environment {
    fn default() -> (r: Self)
        ensures
            r@ == EnvView::empty(),
    {
        Environment::new()
    }
}

} // verus!
