use crate::ast::{
    FunctionView, IntermediateTokenView, NativeEnvFnView, NativeFnView, NodeView, TokenView,
    ValueView,
};
use crate::env::math::math_spec;
use crate::env::prelude::prelude_spec;
use crate::env::EnvView;
use crate::parsers::ci_evaluator::{
    apply_spec, eval_forms_spec, eval_spec, native_spec, source_text, SourceView,
};
use crate::parsers::ci_full_parser::{parse_line_spec, parse_source_spec};
use crate::parsers::ci_intermediate_tokenizer::{
    annotate_from, annotate_spec, tokenizer_start, tokenizer_step, TokenizerStateView,
};
use crate::parsers::ci_lexer::tokenize_spec;
use crate::parsers::ci_new_parser::{
    church_numeral, close_form, list_form, parse_form_spec, parse_items_spec, parse_token_spec,
    tokens_left, FormKind,
};
use vstd::prelude::*;

verus! {

/// Whether a node is written syntax: no function stands in it.
pub open spec fn is_syntax(n: NodeView) -> bool
    decreases n,
{
    match n {
        NodeView::Value(_) => true,
        NodeView::Par { car, cdr } => is_syntax(*car) && is_syntax(*cdr),
        NodeView::Lambda { varname, body } => is_syntax(*body),
        NodeView::Function(_) => false,
    }
}

pub open spec fn all_syntax(nodes: Seq<NodeView>) -> bool {
    forall|i: int| 0 <= i < nodes.len() ==> is_syntax(#[trigger] nodes[i])
}

/// Whether a token brings no function: it is no form, or a form of
/// written syntax.
pub open spec fn is_syntax_token(t: IntermediateTokenView) -> bool {
    match t {
        IntermediateTokenView::AstNode(n) => is_syntax(n),
        _ => true,
    }
}

pub open spec fn all_syntax_tokens(tokens: Seq<IntermediateTokenView>) -> bool {
    forall|i: int| 0 <= i < tokens.len() ==> is_syntax_token(#[trigger] tokens[i])
}

/// A Church numeral is written syntax.
pub proof fn lemma_church_is_syntax(n: nat)
    ensures
        is_syntax(church_numeral(n)),
    decreases n,
{
    reveal_with_fuel(is_syntax, 3);
    if n > 0 {
        lemma_church_is_syntax((n - 1) as nat);
    }
}

/// A list of written syntax is written syntax.
pub proof fn lemma_list_is_syntax(items: Seq<NodeView>)
    requires
        all_syntax(items),
    ensures
        is_syntax(list_form(items)),
    decreases items.len(),
{
    reveal_with_fuel(is_syntax, 3);
    if items.len() > 0 {
        assert(is_syntax(items[0]));
        assert forall|i: int| 0 <= i < items.skip(1).len() implies is_syntax(
            #[trigger] items.skip(1)[i],
        ) by {
            assert(items.skip(1)[i] == items[i + 1]);
        }
        lemma_list_is_syntax(items.skip(1));
    }
}

/// The form that a bracket makes of written syntax is written syntax.
pub proof fn lemma_form_is_syntax(kind: FormKind, items: Seq<NodeView>)
    requires
        all_syntax(items),
    ensures
        close_form(kind, items) is Ok ==> is_syntax(close_form(kind, items)->Ok_0),
{
    reveal_with_fuel(is_syntax, 3);
    if items.len() >= 1 {
        assert(is_syntax(items[0]));
    }
    if items.len() >= 2 {
        assert(is_syntax(items[1]));
    }
    if items.len() >= 3 {
        assert(is_syntax(items[2]));
    }
    lemma_list_is_syntax(items);
}

/// Parsing tokens that bring no function gives written syntax.
pub proof fn lemma_parsed_token_is_syntax(
    token: IntermediateTokenView,
    tokens: Seq<IntermediateTokenView>,
    pos: nat,
)
    requires
        all_syntax_tokens(tokens),
        is_syntax_token(token),
    ensures
        parse_token_spec(token, tokens, pos) is Ok ==> is_syntax(
            parse_token_spec(token, tokens, pos)->Ok_0.0,
        ),
    decreases tokens_left(tokens, pos), 1nat, 0nat,
{
    match token {
        IntermediateTokenView::Hash => {
            if pos < tokens.len() {
                match tokens[pos as int] {
                    IntermediateTokenView::Value(ValueView::Int(n)) => {
                        if n >= 0 {
                            lemma_church_is_syntax(n as nat);
                        }
                    },
                    _ => {},
                }
            }
        },
        IntermediateTokenView::LParen(level) => {
            lemma_parsed_form_is_syntax(tokens, pos, FormKind::Paren, level);
        },
        IntermediateTokenView::LCurly(level) => {
            lemma_parsed_form_is_syntax(tokens, pos, FormKind::Curly, level);
        },
        IntermediateTokenView::LBracket(level) => {
            lemma_parsed_form_is_syntax(tokens, pos, FormKind::Bracket, level);
        },
        _ => {},
    }
}

pub proof fn lemma_parsed_form_is_syntax(
    tokens: Seq<IntermediateTokenView>,
    pos: nat,
    kind: FormKind,
    level: i32,
)
    requires
        all_syntax_tokens(tokens),
    ensures
        parse_form_spec(tokens, pos, kind, level) is Ok ==> is_syntax(
            parse_form_spec(tokens, pos, kind, level)->Ok_0.0,
        ),
    decreases tokens_left(tokens, pos), 0nat, 1nat,
{
    lemma_parsed_items_are_syntax(tokens, pos, kind, level);
    match parse_items_spec(tokens, pos, kind, level) {
        Ok((items, end)) => {
            lemma_form_is_syntax(kind, items);
        },
        Err(_) => {},
    }
}

pub proof fn lemma_parsed_items_are_syntax(
    tokens: Seq<IntermediateTokenView>,
    pos: nat,
    kind: FormKind,
    level: i32,
)
    requires
        all_syntax_tokens(tokens),
    ensures
        parse_items_spec(tokens, pos, kind, level) is Ok ==> all_syntax(
            parse_items_spec(tokens, pos, kind, level)->Ok_0.0,
        ),
    decreases tokens_left(tokens, pos), 0nat, 0nat,
{
    if pos < tokens.len() {
        let token = tokens[pos as int];
        assert(is_syntax_token(token));
        lemma_parsed_token_is_syntax(token, tokens, pos + 1);
        match parse_token_spec(token, tokens, pos + 1) {
            Ok((first, next)) => {
                if next > pos {
                    lemma_parsed_items_are_syntax(tokens, next, kind, level);
                    match parse_items_spec(tokens, next, kind, level) {
                        Ok((rest, end)) => {
                            let all = seq![first] + rest;
                            assert forall|i: int| 0 <= i < all.len() implies is_syntax(
                                #[trigger] all[i],
                            ) by {
                                if i > 0 {
                                    assert(all[i] == rest[i - 1]);
                                }
                            }
                        },
                        Err(_) => {},
                    }
                } else {
                    assert(is_syntax(seq![first][0]));
                }
            },
            Err(_) => {},
        }
    }
}

/// The depth tokenizer puts out no form.
pub proof fn lemma_annotated_tokens_are_syntax(
    tokens: Seq<TokenView>,
    from: int,
    s: TokenizerStateView,
)
    requires
        all_syntax_tokens(s.new_tokens),
    ensures
        annotate_from(tokens, from, s) is Ok ==> all_syntax_tokens(
            annotate_from(tokens, from, s)->Ok_0,
        ),
    decreases tokens.len() - from,
{
    if 0 <= from < tokens.len() {
        let (next, error) = tokenizer_step(s, tokens[from]);
        if error is None {
            assert forall|i: int| 0 <= i < next.new_tokens.len() implies is_syntax_token(
                #[trigger] next.new_tokens[i],
            ) by {
                if i < s.new_tokens.len() {
                    assert(next.new_tokens[i] == s.new_tokens[i]);
                    assert(is_syntax_token(s.new_tokens[i]));
                }
            }
            lemma_annotated_tokens_are_syntax(tokens, from + 1, next);
        }
    }
}

/// The forms of a source text are written syntax.
pub proof fn lemma_source_is_syntax(source: Seq<char>)
    ensures
        parse_source_spec(source) is Ok ==> all_syntax(parse_source_spec(source)->Ok_0),
{
    match tokenize_spec(source) {
        Ok(tokens) => {
            lemma_annotated_tokens_are_syntax(tokens, 0, tokenizer_start());
            match annotate_spec(tokens) {
                Ok(tagged) => {
                    lemma_parsed_items_are_syntax(tagged, 0, FormKind::Line, 0);
                },
                Err(_) => {},
            }
        },
        Err(_) => {},
    }
}

/// Whether a node is the value of an evaluation: a literal, a quoted name
/// or a function, and never a bare symbol, a pair or a lambda.
pub open spec fn is_value(n: NodeView) -> bool {
    match n {
        NodeView::Value(v) => !(v is Symbol),
        NodeView::Function(_) => true,
        _ => false,
    }
}

/// Whether every function inside a node is one that evaluation makes: the
/// branch that an `if` holds is a value, and so on through the arguments
/// that functions hold and the environments that closures have taken.
pub open spec fn is_sound(n: NodeView) -> bool
    decreases n,
{
    match n {
        NodeView::Value(_) => true,
        NodeView::Par { car, cdr } => is_sound(*car) && is_sound(*cdr),
        NodeView::Lambda { varname, body } => is_sound(*body),
        NodeView::Function(FunctionView::Native(NativeFnView::IfKeep(held))) => is_value(*held)
            && is_sound(*held),
        NodeView::Function(FunctionView::Native(NativeFnView::StrConcatWith(held))) => is_sound(
            *held,
        ),
        NodeView::Function(FunctionView::Native(NativeFnView::LogWith(held))) => is_sound(*held),
        NodeView::Function(FunctionView::Native(_)) => true,
        NodeView::Function(FunctionView::NativeMutEnv(NativeEnvFnView::DefAs(held))) => is_sound(
            *held,
        ),
        NodeView::Function(FunctionView::NativeMutEnv(_)) => true,
        NodeView::Function(FunctionView::User { varname, body, env }) => {
            &&& is_sound(*body)
            &&& env.dom().finite()
            &&& forall|k: Seq<char>| env.contains_key(k) ==> is_sound(#[trigger] env[k])
        },
    }
}

/// Whether an environment binds finitely many names, each to a sound node.
pub open spec fn is_sound_env(env: EnvView) -> bool {
    &&& env.dom().finite()
    &&& forall|k: Seq<char>| env.contains_key(k) ==> is_sound(#[trigger] env[k])
}

pub open spec fn all_sound(nodes: Seq<NodeView>) -> bool {
    forall|i: int| 0 <= i < nodes.len() ==> is_sound(#[trigger] nodes[i])
}

pub open spec fn all_values(nodes: Seq<NodeView>) -> bool {
    forall|i: int| 0 <= i < nodes.len() ==> is_value(#[trigger] nodes[i])
}

/// Written syntax is sound.
pub proof fn lemma_syntax_is_sound(n: NodeView)
    requires
        is_syntax(n),
    ensures
        is_sound(n),
    decreases n,
{
    match n {
        NodeView::Par { car, cdr } => {
            lemma_syntax_is_sound(*car);
            lemma_syntax_is_sound(*cdr);
        },
        NodeView::Lambda { varname, body } => {
            lemma_syntax_is_sound(*body);
        },
        _ => {},
    }
}

/// A sound environment stays sound when a sound node is bound in it.
pub proof fn lemma_insert_keeps_sound(env: EnvView, name: Seq<char>, node: NodeView)
    requires
        is_sound_env(env),
        is_sound(node),
    ensures
        is_sound_env(env.insert(name, node)),
{
    broadcast use vstd::map::group_map_axioms, vstd::set::group_set_axioms;

    let later = env.insert(name, node);
    assert forall|k: Seq<char>| later.contains_key(k) implies is_sound(#[trigger] later[k]) by {
        if k != name {
            assert(env.contains_key(k));
            assert(later[k] == env[k]);
        }
    }
}

/// What a pure built-in function gives for a sound value is a sound value.
pub proof fn lemma_native_gives_values(f: NativeFnView, arg: NodeView)
    requires
        is_sound(NodeView::Function(FunctionView::Native(f))),
        is_value(arg),
        is_sound(arg),
    ensures
        native_spec(f, arg).result is Ok ==> is_value(native_spec(f, arg).result->Ok_0)
            && is_sound(native_spec(f, arg).result->Ok_0),
{
    reveal_with_fuel(is_sound, 2);
}

/// The value of an evaluation is a value.
///
/// Where every function in the node and in the environment is one that
/// evaluation makes, the result is a literal, a quoted name or a
/// function: a bare symbol is resolved or is an error. The result and
/// the environment that comes with it are sound again.
pub proof fn lemma_eval_gives_values(
    node: NodeView,
    env: EnvView,
    sources: Seq<SourceView>,
    depth: nat,
)
    requires
        is_sound(node),
        is_sound_env(env),
    ensures
        eval_spec(node, env, sources, depth).result is Ok ==> {
            &&& is_value(eval_spec(node, env, sources, depth).result->Ok_0.0)
            &&& is_sound(eval_spec(node, env, sources, depth).result->Ok_0.0)
            &&& is_sound_env(eval_spec(node, env, sources, depth).result->Ok_0.1)
        },
    decreases depth, 0nat, 0nat,
{
    match node {
        NodeView::Value(ValueView::Symbol(name)) => {
            if env.contains_key(name) && depth > 0 {
                lemma_eval_gives_values(env[name], env, sources, (depth - 1) as nat);
            }
        },
        NodeView::Lambda { varname, body } => {},
        NodeView::Par { car, cdr } => {
            if depth > 0 {
                let inner = (depth - 1) as nat;
                lemma_eval_gives_values(*car, env, sources, inner);
                lemma_eval_gives_values(*cdr, env, sources, inner);
                let callee = eval_spec(*car, env, sources, inner);
                let arg = eval_spec(*cdr, env, sources, inner);
                if callee.result is Ok && arg.result is Ok {
                    lemma_apply_gives_values(
                        callee.result->Ok_0.0,
                        arg.result->Ok_0.0,
                        env,
                        sources,
                        inner,
                    );
                }
            }
        },
        _ => {},
    }
}

/// What a sound callee gives for a sound value in a sound environment is
/// a sound value, and the environment that follows is sound.
pub proof fn lemma_apply_gives_values(
    callee: NodeView,
    arg: NodeView,
    env: EnvView,
    sources: Seq<SourceView>,
    depth: nat,
)
    requires
        is_sound(callee),
        is_value(arg),
        is_sound(arg),
        is_sound_env(env),
    ensures
        apply_spec(callee, arg, env, sources, depth).result is Ok ==> {
            &&& is_value(apply_spec(callee, arg, env, sources, depth).result->Ok_0.0)
            &&& is_sound(apply_spec(callee, arg, env, sources, depth).result->Ok_0.0)
            &&& is_sound_env(apply_spec(callee, arg, env, sources, depth).result->Ok_0.1)
        },
    decreases depth, 2nat, 0nat,
{
    match callee {
        NodeView::Function(FunctionView::Native(f)) => {
            lemma_native_gives_values(f, arg);
        },
        NodeView::Function(FunctionView::NativeMutEnv(NativeEnvFnView::DefAs(body))) => {
            match arg {
                NodeView::Value(ValueView::Ident(name)) => {
                    lemma_insert_keeps_sound(env, name, *body);
                },
                _ => {},
            }
        },
        NodeView::Function(FunctionView::NativeMutEnv(NativeEnvFnView::Load)) => {
            match arg {
                NodeView::Value(ValueView::String(path)) => {
                    match source_text(sources, path, 0) {
                        Some(text) => {
                            lemma_source_is_syntax(text);
                            match parse_source_spec(text) {
                                Ok(forms) => {
                                    assert forall|i: int| 0 <= i < forms.len() implies is_sound(
                                        #[trigger] forms[i],
                                    ) by {
                                        assert(is_syntax(forms[i]));
                                        lemma_syntax_is_sound(forms[i]);
                                    }
                                    lemma_forms_give_values(forms, env, sources, depth);
                                },
                                Err(_) => {},
                            }
                        },
                        None => {},
                    }
                },
                _ => {},
            }
        },
        NodeView::Function(FunctionView::User { varname, body, env: captured }) => {
            lemma_insert_keeps_sound(captured, varname, arg);
            lemma_eval_gives_values(*body, captured.insert(varname, arg), sources, depth);
        },
        _ => {},
    }
}

/// The values of sound forms are sound values, and the environment that
/// the run leaves is sound, whether or not the run succeeds.
pub proof fn lemma_forms_give_values(
    forms: Seq<NodeView>,
    env: EnvView,
    sources: Seq<SourceView>,
    depth: nat,
)
    requires
        all_sound(forms),
        is_sound_env(env),
    ensures
        is_sound_env(eval_forms_spec(forms, env, sources, depth).env),
        eval_forms_spec(forms, env, sources, depth).result is Ok ==> {
            &&& all_values(eval_forms_spec(forms, env, sources, depth).result->Ok_0)
            &&& all_sound(eval_forms_spec(forms, env, sources, depth).result->Ok_0)
        },
    decreases depth, 1nat, forms.len(),
{
    if forms.len() > 0 {
        assert(is_sound(forms[0]));
        lemma_eval_gives_values(forms[0], env, sources, depth);
        let first = eval_spec(forms[0], env, sources, depth);
        match first.result {
            Ok((value, next)) => {
                assert forall|i: int| 0 <= i < forms.skip(1).len() implies is_sound(
                    #[trigger] forms.skip(1)[i],
                ) by {
                    assert(forms.skip(1)[i] == forms[i + 1]);
                }
                lemma_forms_give_values(forms.skip(1), next, sources, depth);
                let rest = eval_forms_spec(forms.skip(1), next, sources, depth);
                match rest.result {
                    Ok(values) => {
                        let all = seq![value] + values;
                        assert forall|i: int| 0 <= i < all.len() implies is_value(
                            #[trigger] all[i],
                        ) && is_sound(all[i]) by {
                            if i > 0 {
                                assert(all[i] == values[i - 1]);
                                assert(is_value(values[i - 1]));
                                assert(is_sound(values[i - 1]));
                            }
                        }
                    },
                    Err(_) => {},
                }
            },
            Err(_) => {},
        }
    }
}

/// The form of a line of source text is written syntax.
pub proof fn lemma_line_is_syntax(source: Seq<char>, infix_repl: bool)
    ensures
        parse_line_spec(source, infix_repl) is Ok ==> is_syntax(
            parse_line_spec(source, infix_repl)->Ok_0,
        ),
{
    match tokenize_spec(source) {
        Ok(tokens) => {
            lemma_annotated_tokens_are_syntax(tokens, 0, tokenizer_start());
            match annotate_spec(tokens) {
                Ok(tagged) => {
                    if infix_repl {
                        lemma_parsed_form_is_syntax(tagged, 0, FormKind::Line, 0);
                    } else if tagged.len() > 0 {
                        assert(is_syntax_token(tagged[0]));
                        lemma_parsed_token_is_syntax(tagged[0], tagged, 1);
                    }
                },
                Err(_) => {},
            }
        },
        Err(_) => {},
    }
}

/// The environment without bindings is sound, and the built-in functions
/// keep an environment sound.
pub proof fn lemma_native_environments_are_sound(env: EnvView)
    requires
        is_sound_env(env),
    ensures
        is_sound_env(EnvView::empty()),
        is_sound_env(prelude_spec(env)),
        is_sound_env(math_spec(env)),
        is_sound_env(math_spec(prelude_spec(env))),
{
    broadcast use vstd::map::group_map_axioms, vstd::set::group_set_axioms;

    lemma_prelude_is_sound(env);
    lemma_math_is_sound(env);
    lemma_math_is_sound(prelude_spec(env));
}

proof fn lemma_prelude_is_sound(env: EnvView)
    requires
        is_sound_env(env),
    ensures
        is_sound_env(prelude_spec(env)),
{
    reveal_with_fuel(is_sound, 2);
    let a = env.insert("if"@, crate::ast::native_node(NativeFnView::If));
    lemma_insert_keeps_sound(env, "if"@, crate::ast::native_node(NativeFnView::If));
    let b = a.insert("inspect_env"@, crate::ast::native_env_node(NativeEnvFnView::InspectEnv));
    lemma_insert_keeps_sound(
        a,
        "inspect_env"@,
        crate::ast::native_env_node(NativeEnvFnView::InspectEnv),
    );
    let c = b.insert("str_concat"@, crate::ast::native_node(NativeFnView::StrConcat));
    lemma_insert_keeps_sound(b, "str_concat"@, crate::ast::native_node(NativeFnView::StrConcat));
    let d = c.insert("log"@, crate::ast::native_node(NativeFnView::Log));
    lemma_insert_keeps_sound(c, "log"@, crate::ast::native_node(NativeFnView::Log));
    let e = d.insert("def"@, crate::ast::native_node(NativeFnView::Def));
    lemma_insert_keeps_sound(d, "def"@, crate::ast::native_node(NativeFnView::Def));
    lemma_insert_keeps_sound(e, "include"@, crate::ast::native_env_node(NativeEnvFnView::Load));
}

proof fn lemma_math_is_sound(env: EnvView)
    requires
        is_sound_env(env),
    ensures
        is_sound_env(math_spec(env)),
{
    reveal_with_fuel(is_sound, 2);
    let a = env.insert("inc"@, crate::ast::native_node(NativeFnView::Inc));
    lemma_insert_keeps_sound(env, "inc"@, crate::ast::native_node(NativeFnView::Inc));
    let b = a.insert("dec"@, crate::ast::native_node(NativeFnView::Dec));
    lemma_insert_keeps_sound(a, "dec"@, crate::ast::native_node(NativeFnView::Dec));
    let c = b.insert("is_int"@, crate::ast::native_node(NativeFnView::IsInt));
    lemma_insert_keeps_sound(b, "is_int"@, crate::ast::native_node(NativeFnView::IsInt));
    let d = c.insert("eq"@, crate::ast::native_node(NativeFnView::Eq));
    lemma_insert_keeps_sound(c, "eq"@, crate::ast::native_node(NativeFnView::Eq));
    let e = d.insert("lt"@, crate::ast::native_node(NativeFnView::Lt));
    lemma_insert_keeps_sound(d, "lt"@, crate::ast::native_node(NativeFnView::Lt));
    let f = e.insert("add"@, crate::ast::native_node(NativeFnView::Add));
    lemma_insert_keeps_sound(e, "add"@, crate::ast::native_node(NativeFnView::Add));
    let g = f.insert("mul"@, crate::ast::native_node(NativeFnView::Mul));
    lemma_insert_keeps_sound(f, "mul"@, crate::ast::native_node(NativeFnView::Mul));
    lemma_insert_keeps_sound(g, "sub"@, crate::ast::native_node(NativeFnView::Sub));
}

/// Whatever a line of source text evaluates to, in an environment that
/// evaluation and the built-in functions have made, is a value: a bare
/// symbol never comes out of an evaluation.
pub proof fn lemma_line_gives_value(
    source: Seq<char>,
    infix_repl: bool,
    env: EnvView,
    sources: Seq<SourceView>,
    depth: nat,
)
    requires
        is_sound_env(env),
        parse_line_spec(source, infix_repl) is Ok,
    ensures
        ({
            let outcome = eval_spec(
                parse_line_spec(source, infix_repl)->Ok_0,
                env,
                sources,
                depth,
            );
            outcome.result is Ok ==> {
                &&& is_value(outcome.result->Ok_0.0)
                &&& !(outcome.result->Ok_0.0 is Value && outcome.result->Ok_0.0->Value_0
                    is Symbol)
                &&& is_sound_env(outcome.result->Ok_0.1)
            }
        }),
{
    let node = parse_line_spec(source, infix_repl)->Ok_0;
    lemma_line_is_syntax(source, infix_repl);
    lemma_syntax_is_sound(node);
    lemma_eval_gives_values(node, env, sources, depth);
}

} // verus!
