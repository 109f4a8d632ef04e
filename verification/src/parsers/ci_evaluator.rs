use crate::ast::{
    closure_node, function_view, int_node, lemma_nodes_view_push, native_env_node, native_node,
    node_text, nodes_view, truth_node, AstNode, Function, FunctionView, NativeEnvFn,
    NativeEnvFnView, NativeFn, NativeFnView, NodeView, Value, ValueView,
};
use crate::env::{EnvView, Environment};
use crate::parser_types::{
    missing_source_spec, CIEvalError, CIParserError, EvalErrorView, ParserErrorView,
};
use crate::parsers::ci_full_parser::{parse_source_spec, CIFullFileParser, MAX_SOURCE_LEN};
use crate::text::str_equals;
use vstd::prelude::*;
use vstd::string::StrSliceExecFns;
use vstd::string::StringExecFns;

verus! {

/// A source text that the evaluator can be asked to load, under its path.
pub struct SourceFile {
    path: String,
    text: String,
}

pub struct SourceView {
    pub path: Seq<char>,
    pub text: Seq<char>,
}

impl View for SourceFile {
    type V = SourceView;

    closed spec fn view(&self) -> SourceView {
        SourceView { path: self.path@, text: self.text@ }
    }
}

impl SourceFile {
    #[verifier::type_invariant]
    spec fn short_enough(&self) -> bool {
        self.text@.len() < MAX_SOURCE_LEN
    }

    /// A source text under a path, unless the text is too long to be parsed.
    pub fn new(path: String, text: String) -> (r: Option<SourceFile>)
        ensures
            r is Some == (text@.len() < MAX_SOURCE_LEN),
            r is Some ==> r->0@ == (SourceView { path: path@, text: text@ }),
    {
        if text.as_str().unicode_len() < MAX_SOURCE_LEN {
            Some(SourceFile { path, text })
        } else {
            None
        }
    }

    pub fn path(&self) -> (r: &str)
        ensures
            r@ == self@.path,
    {
        self.path.as_str()
    }

    pub fn text(&self) -> (r: &str)
        ensures
            r@ == self@.text,
            r@.len() < MAX_SOURCE_LEN,
    {
        proof {
            use_type_invariant(self);
        }
        self.text.as_str()
    }
}

/// The views of a sequence of sources.
pub open spec fn sources_view(sources: Seq<SourceFile>) -> Seq<SourceView> {
    sources.map_values(|s: SourceFile| s@)
}

/// The text of the first source under `path`, searching from `from`.
pub open spec fn source_text(sources: Seq<SourceView>, path: Seq<char>, from: int) -> Option<
    Seq<char>,
>
    decreases sources.len() - from,
{
    if from < 0 || from >= sources.len() {
        None
    } else if sources[from].path == path {
        Some(sources[from].text)
    } else {
        source_text(sources, path, from + 1)
    }
}

/// Something that an evaluation hands out besides its result.
#[derive(Debug)]
pub enum Emitted {
    /// A line written by `log`.
    Log(String),
    /// The environment that `inspect_env` was asked to show.
    EnvDump(Environment),
}

pub enum EmittedView {
    Log(Seq<char>),
    EnvDump(EnvView),
}

impl View for Emitted {
    type V = EmittedView;

    open spec fn view(&self) -> EmittedView {
        match self {
            Emitted::Log(line) => EmittedView::Log(line@),
            Emitted::EnvDump(env) => EmittedView::EnvDump(env@),
        }
    }
}

/// The views of a sequence of emitted items.
pub open spec fn emitted_view(items: Seq<Emitted>) -> Seq<EmittedView> {
    items.map_values(|e: Emitted| e@)
}

pub proof fn lemma_emitted_view_push(items: Seq<Emitted>, item: Emitted)
    ensures
        emitted_view(items.push(item)) == emitted_view(items).push(item@),
{
    assert(emitted_view(items.push(item)) =~= emitted_view(items).push(item@));
}

/// What applying a pure built-in function gives.
pub struct NativeOutcome {
    pub result: Result<NodeView, EvalErrorView>,
    pub emitted: Seq<EmittedView>,
}

/// What evaluating a node gives: the value and the environment after it,
/// or an error, and what was emitted on the way.
pub struct EvalOutcome {
    pub result: Result<(NodeView, EnvView), EvalErrorView>,
    pub emitted: Seq<EmittedView>,
}

/// What evaluating a run of forms gives: their values, or the first
/// error; the environment after the last form that succeeded; and what
/// was emitted on the way.
pub struct FormsOutcome {
    pub result: Result<Seq<NodeView>, EvalErrorView>,
    pub env: EnvView,
    pub emitted: Seq<EmittedView>,
}

pub open spec fn quiet(result: Result<NodeView, EvalErrorView>) -> NativeOutcome {
    NativeOutcome { result, emitted: Seq::empty() }
}

pub open spec fn unexpected(arg: NodeView) -> NativeOutcome {
    quiet(Err(EvalErrorView::UnexpectedValue(arg)))
}

/// The line that `log` writes for a message.
pub open spec fn log_line(msg: NodeView) -> Seq<char> {
    "[log] "@ + node_text(msg)
}

/// What the pure built-in function `f` gives when it is applied to `arg`.
/// A function of several arguments takes them one by one, and gives a
/// function that holds what it has taken until it has them all. The
/// functions of two integers take their right-hand operand first.
pub open spec fn native_spec(f: NativeFnView, arg: NodeView) -> NativeOutcome {
    match f {
        NativeFnView::If => if arg == NodeView::Value(ValueView::Nil) {
            quiet(Ok(native_node(NativeFnView::IfSkip)))
        } else {
            quiet(Ok(native_node(NativeFnView::IfTake)))
        },
        NativeFnView::IfSkip => quiet(Ok(native_node(NativeFnView::IfElse))),
        NativeFnView::IfElse => quiet(Ok(arg)),
        NativeFnView::IfTake => quiet(Ok(native_node(NativeFnView::IfKeep(Box::new(arg))))),
        NativeFnView::IfKeep(on_true) => quiet(Ok(*on_true)),
        NativeFnView::StrConcat => quiet(
            Ok(native_node(NativeFnView::StrConcatWith(Box::new(arg)))),
        ),
        NativeFnView::StrConcatWith(right) => quiet(
            Ok(NodeView::Value(ValueView::String(node_text(arg) + node_text(*right)))),
        ),
        NativeFnView::Log => quiet(Ok(native_node(NativeFnView::LogWith(Box::new(arg))))),
        NativeFnView::LogWith(msg) => NativeOutcome {
            result: Ok(arg),
            emitted: seq![EmittedView::Log(log_line(*msg))],
        },
        NativeFnView::Def => quiet(
            Ok(native_env_node(NativeEnvFnView::DefAs(Box::new(arg)))),
        ),
        NativeFnView::Inc => match arg {
            NodeView::Value(ValueView::Int(a)) => quiet(Ok(int_node(a.wrapping_add(1i32)))),
            _ => unexpected(arg),
        },
        NativeFnView::Dec => match arg {
            NodeView::Value(ValueView::Int(a)) => quiet(Ok(int_node(a.wrapping_sub(1i32)))),
            _ => unexpected(arg),
        },
        NativeFnView::IsInt => quiet(Ok(truth_node(arg is Value && arg->Value_0 is Int))),
        NativeFnView::Eq => match arg {
            NodeView::Value(a) => quiet(Ok(native_node(NativeFnView::EqWith(a)))),
            _ => unexpected(arg),
        },
        NativeFnView::EqWith(a) => match arg {
            NodeView::Value(b) => quiet(Ok(truth_node(a == b))),
            _ => unexpected(arg),
        },
        NativeFnView::Lt => match arg {
            NodeView::Value(ValueView::Int(b)) => quiet(Ok(native_node(NativeFnView::LtWith(b)))),
            _ => unexpected(arg),
        },
        NativeFnView::LtWith(b) => match arg {
            NodeView::Value(ValueView::Int(a)) => quiet(Ok(truth_node(a < b))),
            _ => unexpected(arg),
        },
        NativeFnView::Add => match arg {
            NodeView::Value(ValueView::Int(b)) => quiet(Ok(native_node(NativeFnView::AddWith(b)))),
            _ => unexpected(arg),
        },
        NativeFnView::AddWith(b) => match arg {
            NodeView::Value(ValueView::Int(a)) => quiet(Ok(int_node(a.wrapping_add(b)))),
            _ => unexpected(arg),
        },
        NativeFnView::Sub => match arg {
            NodeView::Value(ValueView::Int(b)) => quiet(Ok(native_node(NativeFnView::SubWith(b)))),
            _ => unexpected(arg),
        },
        NativeFnView::SubWith(b) => match arg {
            NodeView::Value(ValueView::Int(a)) => quiet(Ok(int_node(a.wrapping_sub(b)))),
            _ => unexpected(arg),
        },
        NativeFnView::Mul => match arg {
            NodeView::Value(ValueView::Int(b)) => quiet(Ok(native_node(NativeFnView::MulWith(b)))),
            _ => unexpected(arg),
        },
        NativeFnView::MulWith(b) => match arg {
            NodeView::Value(ValueView::Int(a)) => quiet(Ok(int_node(a.wrapping_mul(b)))),
            _ => unexpected(arg),
        },
    }
}

pub open spec fn done(node: NodeView, env: EnvView) -> EvalOutcome {
    EvalOutcome { result: Ok((node, env)), emitted: Seq::empty() }
}

pub open spec fn failed(e: EvalErrorView) -> EvalOutcome {
    EvalOutcome { result: Err(e), emitted: Seq::empty() }
}

/// The value of `node` in `env`, with no more than `depth` evaluations
/// nested in one another.
///
/// A literal, a quoted name and a function are their own value. A symbol
/// has the value of the node it is bound to, evaluated anew in the same
/// environment. A lambda closes over `env`. A pair applies the value of
/// its `car` to the value of its `cdr`; what either of the two does to
/// the environment is dropped.
pub open spec fn eval_spec(node: NodeView, env: EnvView, sources: Seq<SourceView>, depth: nat)
    -> EvalOutcome
    decreases depth, 0nat, 0nat,
{
    match node {
        NodeView::Value(ValueView::Symbol(name)) => if !env.contains_key(name) {
            failed(EvalErrorView::UnknownSymbol(name))
        } else if depth == 0 {
            failed(EvalErrorView::DepthExceeded)
        } else {
            eval_spec(env[name], env, sources, (depth - 1) as nat)
        },
        NodeView::Lambda { varname, body } => done(
            NodeView::Function(FunctionView::User { varname, body, env }),
            env,
        ),
        NodeView::Par { car, cdr } => if depth == 0 {
            failed(EvalErrorView::DepthExceeded)
        } else {
            let callee = eval_spec(*car, env, sources, (depth - 1) as nat);
            match callee.result {
                Err(e) => callee,
                Ok((f, _)) => {
                    let arg = eval_spec(*cdr, env, sources, (depth - 1) as nat);
                    match arg.result {
                        Err(e) => EvalOutcome {
                            result: Err(e),
                            emitted: callee.emitted + arg.emitted,
                        },
                        Ok((a, _)) => {
                            let applied = apply_spec(f, a, env, sources, (depth - 1) as nat);
                            EvalOutcome {
                                result: applied.result,
                                emitted: callee.emitted + arg.emitted + applied.emitted,
                            }
                        },
                    }
                },
            }
        },
        _ => done(node, env),
    }
}

/// What `callee` gives when it is applied to `arg` in `env`.
///
/// A pure built-in function leaves the environment as it is. One that
/// takes the environment gives the environment that follows. A closure
/// evaluates its body in the environment it closed over, with its
/// parameter bound to `arg`; the environment of the caller stays as it is.
/// Anything else cannot be applied.
pub open spec fn apply_spec(
    callee: NodeView,
    arg: NodeView,
    env: EnvView,
    sources: Seq<SourceView>,
    depth: nat,
) -> EvalOutcome
    decreases depth, 2nat, 0nat,
{
    match callee {
        NodeView::Function(FunctionView::Native(f)) => {
            let applied = native_spec(f, arg);
            EvalOutcome {
                result: match applied.result {
                    Ok(node) => Ok((node, env)),
                    Err(e) => Err(e),
                },
                emitted: applied.emitted,
            }
        },
        NodeView::Function(FunctionView::NativeMutEnv(NativeEnvFnView::InspectEnv)) => EvalOutcome {
            result: Ok((NodeView::Value(ValueView::Nil), env)),
            emitted: seq![EmittedView::EnvDump(env)],
        },
        NodeView::Function(FunctionView::NativeMutEnv(NativeEnvFnView::DefAs(body))) => match arg {
            NodeView::Value(ValueView::Ident(name)) => done(
                NodeView::Value(ValueView::Nil),
                env.insert(name, *body),
            ),
            _ => failed(EvalErrorView::UnexpectedValue(arg)),
        },
        NodeView::Function(FunctionView::NativeMutEnv(NativeEnvFnView::Load)) => match arg {
            NodeView::Value(ValueView::String(path)) => match source_text(sources, path, 0) {
                None => failed(EvalErrorView::NoSuchFile(path)),
                Some(text) => match parse_source_spec(text) {
                    Err(e) => failed(EvalErrorView::FileParseError(Box::new(e))),
                    Ok(forms) => {
                        let loaded = eval_forms_spec(forms, env, sources, depth);
                        EvalOutcome {
                            result: match loaded.result {
                                Ok(_) => Ok((NodeView::Value(ValueView::Nil), loaded.env)),
                                Err(e) => Err(
                                    EvalErrorView::FileParseError(
                                        Box::new(ParserErrorView::EvalError(Box::new(e))),
                                    ),
                                ),
                            },
                            emitted: loaded.emitted,
                        }
                    },
                },
            },
            _ => failed(EvalErrorView::UnexpectedValue(arg)),
        },
        NodeView::Function(FunctionView::User { varname, body, env: captured }) => {
            let inner = eval_spec(*body, captured.insert(varname, arg), sources, depth);
            EvalOutcome {
                result: match inner.result {
                    Ok((value, _)) => Ok((value, env)),
                    Err(e) => Err(e),
                },
                emitted: inner.emitted,
            }
        },
        _ => failed(EvalErrorView::NonCallable(callee)),
    }
}

/// The values of `forms`, evaluated from left to right, each in the
/// environment that the one before it left.
pub open spec fn eval_forms_spec(
    forms: Seq<NodeView>,
    env: EnvView,
    sources: Seq<SourceView>,
    depth: nat,
) -> FormsOutcome
    decreases depth, 1nat, forms.len(),
{
    if forms.len() == 0 {
        FormsOutcome { result: Ok(Seq::empty()), env, emitted: Seq::empty() }
    } else {
        let first = eval_spec(forms[0], env, sources, depth);
        match first.result {
            Err(e) => FormsOutcome { result: Err(e), env, emitted: first.emitted },
            Ok((value, next)) => {
                let rest = eval_forms_spec(forms.skip(1), next, sources, depth);
                FormsOutcome {
                    result: match rest.result {
                        Ok(values) => Ok(seq![value] + values),
                        Err(e) => Err(e),
                    },
                    env: rest.env,
                    emitted: first.emitted + rest.emitted,
                }
            },
        }
    }
}

/// What an evaluation returns, as a contract sees it.
pub open spec fn eval_view(r: Result<(AstNode, Environment), CIEvalError>) -> Result<
    (NodeView, EnvView),
    EvalErrorView,
> {
    match r {
        Ok((node, env)) => Ok((node@, env@)),
        Err(e) => Err(e@),
    }
}

/// What applying a pure built-in function returns, as a contract sees it.
pub open spec fn native_result_view(r: Result<AstNode, CIEvalError>) -> Result<
    NodeView,
    EvalErrorView,
> {
    match r {
        Ok(node) => Ok(node@),
        Err(e) => Err(e@),
    }
}

fn unexpected_value(arg: AstNode) -> (r: Result<AstNode, CIEvalError>)
    ensures
        native_result_view(r) == unexpected(arg@).result,
{
    Err(CIEvalError::UnexpectedValue(Box::new(arg)))
}

/// Applies a pure built-in function to an evaluated argument.
pub fn apply_native(f: NativeFn, arg: AstNode, out: &mut Vec<Emitted>) -> (r: Result<
    AstNode,
    CIEvalError,
>)
    ensures
        native_result_view(r) == native_spec(f@, arg@).result,
        emitted_view(final(out)@) == emitted_view(old(out)@) + native_spec(f@, arg@).emitted,
{
    assert(emitted_view(out@) + Seq::<EmittedView>::empty() =~= emitted_view(out@));
    match f {
        NativeFn::If => if arg.is_nil() {
            Ok(AstNode::native(NativeFn::IfSkip))
        } else {
            Ok(AstNode::native(NativeFn::IfTake))
        },
        NativeFn::IfSkip => Ok(AstNode::native(NativeFn::IfElse)),
        NativeFn::IfElse => Ok(arg),
        NativeFn::IfTake => Ok(AstNode::native(NativeFn::IfKeep(Box::new(arg)))),
        NativeFn::IfKeep(on_true) => Ok(*on_true),
        NativeFn::StrConcat => Ok(AstNode::native(NativeFn::StrConcatWith(Box::new(arg)))),
        NativeFn::StrConcatWith(right) => {
            let mut text = arg.to_text();
            let tail = right.to_text();
            text.append(tail.as_str());
            Ok(AstNode::Value(Value::String(text)))
        },
        NativeFn::Log => Ok(AstNode::native(NativeFn::LogWith(Box::new(arg)))),
        NativeFn::LogWith(msg) => {
            let mut line = "[log] ".to_owned();
            let text = msg.to_text();
            line.append(text.as_str());
            proof {
                lemma_emitted_view_push(out@, Emitted::Log(line));
                assert(emitted_view(out@).push(EmittedView::Log(line@)) =~= emitted_view(out@)
                    + seq![EmittedView::Log(log_line(msg@))]);
            }
            out.push(Emitted::Log(line));
            Ok(arg)
        },
        NativeFn::Def => Ok(AstNode::native_env(NativeEnvFn::DefAs(Box::new(arg)))),
        NativeFn::Inc => match arg {
            AstNode::Value(Value::Int(a)) => Ok(AstNode::integer(a.wrapping_add(1))),
            other => unexpected_value(other),
        },
        NativeFn::Dec => match arg {
            AstNode::Value(Value::Int(a)) => Ok(AstNode::integer(a.wrapping_sub(1))),
            other => unexpected_value(other),
        },
        NativeFn::IsInt => match arg {
            AstNode::Value(Value::Int(_)) => Ok(AstNode::truth(true)),
            _ => Ok(AstNode::truth(false)),
        },
        NativeFn::Eq => match arg {
            AstNode::Value(a) => Ok(AstNode::native(NativeFn::EqWith(a))),
            other => unexpected_value(other),
        },
        NativeFn::EqWith(a) => match arg {
            AstNode::Value(b) => Ok(AstNode::truth(a == b)),
            other => unexpected_value(other),
        },
        NativeFn::Lt => match arg {
            AstNode::Value(Value::Int(b)) => Ok(AstNode::native(NativeFn::LtWith(b))),
            other => unexpected_value(other),
        },
        NativeFn::LtWith(b) => match arg {
            AstNode::Value(Value::Int(a)) => Ok(AstNode::truth(a < b)),
            other => unexpected_value(other),
        },
        NativeFn::Add => match arg {
            AstNode::Value(Value::Int(b)) => Ok(AstNode::native(NativeFn::AddWith(b))),
            other => unexpected_value(other),
        },
        NativeFn::AddWith(b) => match arg {
            AstNode::Value(Value::Int(a)) => Ok(AstNode::integer(a.wrapping_add(b))),
            other => unexpected_value(other),
        },
        NativeFn::Sub => match arg {
            AstNode::Value(Value::Int(b)) => Ok(AstNode::native(NativeFn::SubWith(b))),
            other => unexpected_value(other),
        },
        NativeFn::SubWith(b) => match arg {
            AstNode::Value(Value::Int(a)) => Ok(AstNode::integer(a.wrapping_sub(b))),
            other => unexpected_value(other),
        },
        NativeFn::Mul => match arg {
            AstNode::Value(Value::Int(b)) => Ok(AstNode::native(NativeFn::MulWith(b))),
            other => unexpected_value(other),
        },
        NativeFn::MulWith(b) => match arg {
            AstNode::Value(Value::Int(a)) => Ok(AstNode::integer(a.wrapping_mul(b))),
            other => unexpected_value(other),
        },
    }
}

/// The text of the first source under `path`.
pub fn find_source<'a>(sources: &'a Vec<SourceFile>, path: &str) -> (r: Option<&'a str>)
    ensures
        match r {
            Some(text) => source_text(sources_view(sources@), path@, 0) == Some(text@)
                && text@.len() < MAX_SOURCE_LEN,
            None => source_text(sources_view(sources@), path@, 0) is None,
        },
{
    let ghost all = sources_view(sources@);
    let mut i: usize = 0;
    while i < sources.len()
        invariant
            i <= sources.len(),
            all == sources_view(sources@),
            source_text(all, path@, 0) == source_text(all, path@, i as int),
        decreases sources.len() - i,
    {
        if str_equals(sources[i].path(), path) {
            return Some(sources[i].text());
        }
        i += 1;
    }
    None
}

/// Evaluates `node` in `env`, with no more than `depth` evaluations nested
/// in one another, and appends what it emits to `out`.
pub fn eval(
    node: &AstNode,
    env: Environment,
    sources: &Vec<SourceFile>,
    depth: usize,
    out: &mut Vec<Emitted>,
) -> (r: Result<(AstNode, Environment), CIEvalError>)
    ensures
        eval_view(r) == eval_spec(node@, env@, sources_view(sources@), depth as nat).result,
        emitted_view(final(out)@) == emitted_view(old(out)@) + eval_spec(
            node@,
            env@,
            sources_view(sources@),
            depth as nat,
        ).emitted,
    decreases depth, 0nat, 0nat,
{
    let ghost before = emitted_view(out@);
    let ghost files = sources_view(sources@);
    assert(before + Seq::<EmittedView>::empty() =~= before);
    match node {
        AstNode::Par { car, cdr } => {
            if depth == 0 {
                return Err(CIEvalError::DepthExceeded);
            }
            let ghost callee_spec = eval_spec(car@, env@, files, (depth - 1) as nat);
            let ghost arg_spec = eval_spec(cdr@, env@, files, (depth - 1) as nat);
            let callee = match eval(car, env.clone(), sources, depth - 1, out) {
                Ok((f, _)) => f,
                Err(e) => {
                    return Err(e);
                },
            };
            let arg = match eval(cdr, env.clone(), sources, depth - 1, out) {
                Ok((a, _)) => a,
                Err(e) => {
                    assert(emitted_view(out@) =~= before + (callee_spec.emitted
                        + arg_spec.emitted));
                    return Err(e);
                },
            };
            let ghost applied = apply_spec(callee@, arg@, env@, files, (depth - 1) as nat);
            let r = apply(callee, arg, env, sources, depth - 1, out);
            assert(emitted_view(out@) =~= before + (callee_spec.emitted + arg_spec.emitted
                + applied.emitted));
            r
        },
        AstNode::Lambda { varname, body } => {
            let f = AstNode::closure(varname.clone(), (**body).clone(), env.clone());
            Ok((f, env))
        },
        AstNode::Value(Value::Symbol(s)) => {
            match env.get(s.as_str()) {
                None => Err(CIEvalError::UnknownSymbol(s.clone())),
                Some(bound) => {
                    if depth == 0 {
                        return Err(CIEvalError::DepthExceeded);
                    }
                    eval(bound, env.clone(), sources, depth - 1, out)
                },
            }
        },
        _ => Ok((node.clone(), env)),
    }
}

/// Applies the evaluated `callee` to the evaluated `arg` in `env`.
pub fn apply(
    callee: AstNode,
    arg: AstNode,
    env: Environment,
    sources: &Vec<SourceFile>,
    depth: usize,
    out: &mut Vec<Emitted>,
) -> (r: Result<(AstNode, Environment), CIEvalError>)
    ensures
        eval_view(r) == apply_spec(
            callee@,
            arg@,
            env@,
            sources_view(sources@),
            depth as nat,
        ).result,
        emitted_view(final(out)@) == emitted_view(old(out)@) + apply_spec(
            callee@,
            arg@,
            env@,
            sources_view(sources@),
            depth as nat,
        ).emitted,
    decreases depth, 2nat, 0nat,
{
    let ghost before = emitted_view(out@);
    assert(before + Seq::<EmittedView>::empty() =~= before);
    match callee {
        AstNode::Function(f) => {
            match f {
                Function::Native(n) => {
                    assert(function_view(f) == FunctionView::Native(n@));
                    match apply_native(n, arg, out) {
                        Ok(node) => Ok((node, env)),
                        Err(e) => Err(e),
                    }
                },
                Function::NativeMutEnv(n) => {
                    assert(function_view(f) == FunctionView::NativeMutEnv(n@));
                    match n {
                        NativeEnvFn::InspectEnv => {
                            let shown = Emitted::EnvDump(env.clone());
                            proof {
                                lemma_emitted_view_push(out@, shown);
                                assert(before.push(shown@) =~= before + seq![
                                    EmittedView::EnvDump(env@),
                                ]);
                            }
                            out.push(shown);
                            Ok((AstNode::nil(), env))
                        },
                        NativeEnvFn::DefAs(body) => match arg {
                            AstNode::Value(Value::Ident(name)) => {
                                let bound = env.insert(name.as_str(), *body);
                                Ok((AstNode::nil(), bound))
                            },
                            other => Err(CIEvalError::UnexpectedValue(Box::new(other))),
                        },
                        NativeEnvFn::Load => match arg {
                            AstNode::Value(Value::String(path)) => load(
                                path,
                                env,
                                sources,
                                depth,
                                out,
                            ),
                            other => Err(CIEvalError::UnexpectedValue(Box::new(other))),
                        },
                    }
                },
                Function::User { varname, body, env: captured } => {
                    assert(function_view(f) == FunctionView::User {
                        varname: varname@,
                        body: Box::new(body@),
                        env: captured@,
                    });
                    let inner = captured.insert(varname.as_str(), arg);
                    match eval(&body, inner, sources, depth, out) {
                        Ok((value, _)) => Ok((value, env)),
                        Err(e) => Err(e),
                    }
                },
            }
        },
        other => Err(CIEvalError::NonCallable(Box::new(other))),
    }
}

/// What loading the source under `path` gives in `env`.
pub open spec fn load_spec(path: Seq<char>, env: EnvView, sources: Seq<SourceView>, depth: nat)
    -> EvalOutcome {
    apply_spec(
        NodeView::Function(FunctionView::NativeMutEnv(NativeEnvFnView::Load)),
        NodeView::Value(ValueView::String(path)),
        env,
        sources,
        depth,
    )
}

fn load(
    path: String,
    env: Environment,
    sources: &Vec<SourceFile>,
    depth: usize,
    out: &mut Vec<Emitted>,
) -> (r: Result<(AstNode, Environment), CIEvalError>)
    ensures
        eval_view(r) == load_spec(path@, env@, sources_view(sources@), depth as nat).result,
        emitted_view(final(out)@) == emitted_view(old(out)@) + load_spec(
            path@,
            env@,
            sources_view(sources@),
            depth as nat,
        ).emitted,
    decreases depth, 1nat, usize::MAX as nat + 1,
{
    let ghost before = emitted_view(out@);
    assert(before + Seq::<EmittedView>::empty() =~= before);
    let text = match find_source(sources, path.as_str()) {
        Some(text) => text,
        None => {
            return Err(CIEvalError::NoSuchFile(path));
        },
    };
    let forms = match (CIFullFileParser {}).parse(text) {
        Ok(forms) => forms,
        Err(e) => {
            return Err(CIEvalError::FileParseError(Box::new(e)));
        },
    };
    match eval_forms(&forms, env, sources, depth, out) {
        (Ok(_), last) => Ok((AstNode::nil(), last)),
        (Err(e), _) => Err(CIEvalError::FileParseError(Box::new(CIParserError::EvalError(e)))),
    }
}

/// What evaluating a run of forms returns, as a contract sees it.
pub open spec fn forms_view(r: Result<Vec<AstNode>, CIEvalError>) -> Result<
    Seq<NodeView>,
    EvalErrorView,
> {
    match r {
        Ok(nodes) => Ok(nodes_view(nodes@)),
        Err(e) => Err(e@),
    }
}

/// `rest`, the outcome of the later forms, behind the values and the
/// emitted items of the earlier ones.
pub open spec fn behind(values: Seq<NodeView>, emitted: Seq<EmittedView>, rest: FormsOutcome)
    -> FormsOutcome {
    FormsOutcome {
        result: match rest.result {
            Ok(more) => Ok(values + more),
            Err(e) => Err(e),
        },
        env: rest.env,
        emitted: emitted + rest.emitted,
    }
}

/// Evaluates `forms` from left to right, each in the environment that the
/// one before it left. Returns their values, or the first error, and the
/// environment after the last form that succeeded.
pub fn eval_forms(
    forms: &Vec<AstNode>,
    env: Environment,
    sources: &Vec<SourceFile>,
    depth: usize,
    out: &mut Vec<Emitted>,
) -> (r: (Result<Vec<AstNode>, CIEvalError>, Environment))
    ensures
        forms_view(r.0) == eval_forms_spec(
            nodes_view(forms@),
            env@,
            sources_view(sources@),
            depth as nat,
        ).result,
        r.1@ == eval_forms_spec(
            nodes_view(forms@),
            env@,
            sources_view(sources@),
            depth as nat,
        ).env,
        emitted_view(final(out)@) == emitted_view(old(out)@) + eval_forms_spec(
            nodes_view(forms@),
            env@,
            sources_view(sources@),
            depth as nat,
        ).emitted,
    decreases depth, 1nat, forms.len(),
{
    let ghost before = emitted_view(out@);
    let ghost all = nodes_view(forms@);
    let ghost files = sources_view(sources@);
    let ghost whole = eval_forms_spec(all, env@, files, depth as nat);
    let ghost mut done_emitted: Seq<EmittedView> = Seq::empty();
    let mut values: Vec<AstNode> = Vec::new();
    let mut current = env;
    let mut i: usize = 0;
    assert(all.subrange(0, all.len() as int) =~= all);
    assert(before + Seq::<EmittedView>::empty() =~= before);
    proof {
        let rest = eval_forms_spec(all, env@, files, depth as nat);
        assert(nodes_view(values@) =~= Seq::empty());
        match rest.result {
            Ok(more) => {
                assert(Seq::<NodeView>::empty() + more =~= more);
            },
            Err(e) => {},
        }
        assert(Seq::<EmittedView>::empty() + rest.emitted =~= rest.emitted);
    }
    while i < forms.len()
        invariant
            i <= forms.len(),
            all == nodes_view(forms@),
            files == sources_view(sources@),
            before == emitted_view(old(out)@),
            emitted_view(out@) == before + done_emitted,
            whole == eval_forms_spec(all, env@, files, depth as nat),
            whole == behind(
                nodes_view(values@),
                done_emitted,
                eval_forms_spec(
                    all.subrange(i as int, all.len() as int),
                    current@,
                    files,
                    depth as nat,
                ),
            ),
        decreases forms.len() - i,
    {
        let ghost tail = all.subrange(i as int, all.len() as int);
        let ghost first = eval_spec(tail[0], current@, files, depth as nat);
        assert(tail[0] == forms[i as int]@);
        assert(tail.skip(1) =~= all.subrange(i + 1, all.len() as int));
        match eval(&forms[i], current.clone(), sources, depth, out) {
            Err(e) => {
                assert(emitted_view(out@) =~= before + (done_emitted + first.emitted));
                return (Err(e), current);
            },
            Ok((value, next)) => {
                proof {
                    lemma_nodes_view_push(values@, value);
                    let rest = eval_forms_spec(tail.skip(1), next@, files, depth as nat);
                    match rest.result {
                        Ok(more) => {
                            assert(nodes_view(values@) + (seq![value@] + more) =~= nodes_view(
                                values@,
                            ).push(value@) + more);
                        },
                        Err(e) => {},
                    }
                    assert(done_emitted + (first.emitted + rest.emitted) =~= (done_emitted
                        + first.emitted) + rest.emitted);
                    assert(emitted_view(out@) =~= before + (done_emitted + first.emitted));
                    done_emitted = done_emitted + first.emitted;
                }
                values.push(value);
                current = next;
            },
        }
        i += 1;
    }
    proof {
        assert(all.subrange(i as int, all.len() as int) =~= Seq::<NodeView>::empty());
        assert(nodes_view(values@) + Seq::<NodeView>::empty() =~= nodes_view(values@));
        assert(done_emitted + Seq::<EmittedView>::empty() =~= done_emitted);
    }
    (Ok(values), current)
}

/// The deepest nesting that an evaluator allows unless it is told otherwise.
pub const DEFAULT_MAX_DEPTH: usize = 1024;

/// The forms of a run all have a value where the run succeeds.
pub proof fn lemma_forms_values_len(
    forms: Seq<NodeView>,
    env: EnvView,
    sources: Seq<SourceView>,
    depth: nat,
)
    ensures
        eval_forms_spec(forms, env, sources, depth).result is Ok ==> eval_forms_spec(
            forms,
            env,
            sources,
            depth,
        ).result->Ok_0.len() == forms.len(),
    decreases forms.len(),
{
    if forms.len() > 0 {
        let first = eval_spec(forms[0], env, sources, depth);
        match first.result {
            Ok((value, next)) => {
                lemma_forms_values_len(forms.skip(1), next, sources, depth);
            },
            Err(e) => {},
        }
    }
}

/// What a run of an evaluator returns, as a contract sees it: an error of
/// the evaluation comes wrapped as an error of the whole pipeline.
pub open spec fn run_view(r: Result<Vec<AstNode>, CIParserError>) -> Result<
    Seq<NodeView>,
    EvalErrorView,
> {
    match r {
        Ok(nodes) => Ok(nodes_view(nodes@)),
        Err(CIParserError::EvalError(e)) => Err(e@),
        Err(_) => arbitrary(),
    }
}

/// How an attempt to evaluate ended.
#[derive(Debug)]
pub enum Attempt<T> {
    /// The evaluation ran to its end, well or not.
    Done(Result<T, CIParserError>),
    /// The evaluation needs the source under this path.
    NeedSource(String),
}

/// Evaluates the forms of a file one after the other, and keeps the
/// environment that they leave, the sources that they may load, and what
/// they emit.
pub struct CIFileEvaluator {
    env: Environment,
    sources: Vec<SourceFile>,
    max_depth: usize,
    output: Vec<Emitted>,
}

impl CIFileEvaluator {
    /// The environment that the next form will be evaluated in.
    pub closed spec fn env(&self) -> EnvView {
        self.env@
    }

    /// The sources that a form can load.
    pub closed spec fn sources(&self) -> Seq<SourceView> {
        sources_view(self.sources@)
    }

    /// The deepest nesting that an evaluation may reach.
    pub closed spec fn max_depth(&self) -> nat {
        self.max_depth as nat
    }

    /// What has been emitted and not yet taken.
    pub closed spec fn output(&self) -> Seq<EmittedView> {
        emitted_view(self.output@)
    }

    pub fn new(env: Environment) -> (r: Self)
        ensures
            r.env() == env@,
            r.sources() == Seq::<SourceView>::empty(),
            r.max_depth() == DEFAULT_MAX_DEPTH,
            r.output() == Seq::<EmittedView>::empty(),
    {
        let r = CIFileEvaluator {
            env,
            sources: Vec::new(),
            max_depth: DEFAULT_MAX_DEPTH,
            output: Vec::new(),
        };
        assert(r.sources() =~= Seq::<SourceView>::empty());
        assert(r.output() =~= Seq::<EmittedView>::empty());
        r
    }

    /// Lets the forms load `source`. A source added earlier under the same
    /// path stays the one that is loaded.
    pub fn add_source(&mut self, source: SourceFile)
        ensures
            final(self).sources() == old(self).sources().push(source@),
            final(self).env() == old(self).env(),
            final(self).max_depth() == old(self).max_depth(),
            final(self).output() == old(self).output(),
    {
        assert(sources_view(self.sources@.push(source)) =~= sources_view(self.sources@).push(
            source@,
        ));
        self.sources.push(source);
    }

    /// Sets the deepest nesting that an evaluation may reach.
    pub fn set_max_depth(&mut self, depth: usize)
        ensures
            final(self).max_depth() == depth,
            final(self).env() == old(self).env(),
            final(self).sources() == old(self).sources(),
            final(self).output() == old(self).output(),
    {
        self.max_depth = depth;
    }

    /// The environment that the next form will be evaluated in.
    pub fn current_env(&self) -> (r: Environment)
        ensures
            r@ == self.env(),
    {
        self.env.clone()
    }

    pub fn take_env(self) -> (r: Environment)
        ensures
            r@ == self.env(),
    {
        self.env
    }

    /// Hands out what has been emitted so far.
    pub fn take_output(&mut self) -> (r: Vec<Emitted>)
        ensures
            emitted_view(r@) == old(self).output(),
            final(self).output() == Seq::<EmittedView>::empty(),
            final(self).env() == old(self).env(),
            final(self).sources() == old(self).sources(),
            final(self).max_depth() == old(self).max_depth(),
    {
        let mut taken: Vec<Emitted> = Vec::new();
        std::mem::swap(&mut self.output, &mut taken);
        assert(self.output() =~= Seq::<EmittedView>::empty());
        taken
    }

    /// Evaluates `node` in `env`, which need not be the evaluator's own.
    pub fn eval_node(&mut self, node: &AstNode, env: Environment) -> (r: Result<
        (AstNode, Environment),
        CIEvalError,
    >)
        ensures
            eval_view(r) == eval_spec(
                node@,
                env@,
                old(self).sources(),
                old(self).max_depth(),
            ).result,
            final(self).output() == old(self).output() + eval_spec(
                node@,
                env@,
                old(self).sources(),
                old(self).max_depth(),
            ).emitted,
            final(self).env() == old(self).env(),
            final(self).sources() == old(self).sources(),
            final(self).max_depth() == old(self).max_depth(),
    {
        eval(node, env, &self.sources, self.max_depth, &mut self.output)
    }

    /// Evaluates `ast` as `parse` does, unless the evaluation fails for want
    /// of a source: then it hands out the path, and the evaluator stays as
    /// it was, so that the attempt can be made again once the source has
    /// been added.
    pub fn try_parse(&mut self, ast: &Vec<AstNode>) -> (r: Attempt<Vec<AstNode>>)
        ensures
            final(self).sources() == old(self).sources(),
            final(self).max_depth() == old(self).max_depth(),
            ({
                let whole = eval_forms_spec(
                    nodes_view(ast@),
                    old(self).env(),
                    old(self).sources(),
                    old(self).max_depth(),
                );
                let missing = match whole.result {
                    Ok(_) => None,
                    Err(e) => missing_source_spec(e),
                };
                match r {
                    Attempt::NeedSource(path) => {
                        &&& missing == Some(path@)
                        &&& final(self).env() == old(self).env()
                        &&& final(self).output() == old(self).output()
                    },
                    Attempt::Done(done) => {
                        &&& missing is None
                        &&& done is Err ==> done->Err_0 is EvalError
                        &&& run_view(done) == whole.result
                        &&& final(self).env() == whole.env
                        &&& final(self).output() == old(self).output() + whole.emitted
                    },
                }
            }),
    {
        let mut emitted: Vec<Emitted> = Vec::new();
        assert(emitted_view(emitted@) =~= Seq::<EmittedView>::empty());
        let (result, last) = eval_forms(
            ast,
            self.env.clone(),
            &self.sources,
            self.max_depth,
            &mut emitted,
        );
        let ghost whole = eval_forms_spec(
            nodes_view(ast@),
            self.env(),
            self.sources(),
            self.max_depth(),
        );
        assert(emitted_view(emitted@) =~= whole.emitted);
        match result {
            Ok(values) => {
                self.env = last;
                assert(emitted_view(self.output@ + emitted@) =~= emitted_view(self.output@)
                    + emitted_view(emitted@));
                self.output.append(&mut emitted);
                Attempt::Done(Ok(values))
            },
            Err(e) => match e.missing_source() {
                Some(path) => Attempt::NeedSource(path),
                None => {
                    self.env = last;
                    assert(emitted_view(self.output@ + emitted@) =~= emitted_view(self.output@)
                        + emitted_view(emitted@));
                    self.output.append(&mut emitted);
                    Attempt::Done(Err(CIParserError::EvalError(e)))
                },
            },
        }
    }

    /// Evaluates `ast` from left to right in the evaluator's environment,
    /// which becomes the one that the last form that succeeded left.
    pub fn parse(&mut self, ast: Vec<AstNode>) -> (r: Result<Vec<AstNode>, CIParserError>)
        ensures
            r is Err ==> r->Err_0 is EvalError,
            run_view(r) == eval_forms_spec(
                nodes_view(ast@),
                old(self).env(),
                old(self).sources(),
                old(self).max_depth(),
            ).result,
            final(self).env() == eval_forms_spec(
                nodes_view(ast@),
                old(self).env(),
                old(self).sources(),
                old(self).max_depth(),
            ).env,
            final(self).output() == old(self).output() + eval_forms_spec(
                nodes_view(ast@),
                old(self).env(),
                old(self).sources(),
                old(self).max_depth(),
            ).emitted,
            final(self).sources() == old(self).sources(),
            final(self).max_depth() == old(self).max_depth(),
    {
        let (result, last) = eval_forms(
            &ast,
            self.env.clone(),
            &self.sources,
            self.max_depth,
            &mut self.output,
        );
        self.env = last;
        match result {
            Ok(values) => Ok(values),
            Err(e) => Err(CIParserError::EvalError(e)),
        }
    }
}

/// Whether a value is a literal: anything but a bare symbol.
pub open spec fn is_literal(v: ValueView) -> bool {
    !(v is Symbol)
}

/// A literal evaluates to itself, in every environment and at every
/// depth, and leaves the environment as it was.
pub proof fn lemma_literal_evaluates_to_itself(
    v: ValueView,
    env: EnvView,
    sources: Seq<SourceView>,
    depth: nat,
)
    requires
        is_literal(v),
    ensures
        eval_spec(NodeView::Value(v), env, sources, depth) == done(NodeView::Value(v), env),
{
}

/// A bound symbol is evaluated by evaluating the node it is bound to, in
/// the same environment, every time it is referred to: nothing of an
/// earlier evaluation is kept.
pub proof fn lemma_symbol_evaluates_its_binding(
    name: Seq<char>,
    env: EnvView,
    sources: Seq<SourceView>,
    depth: nat,
)
    requires
        env.contains_key(name),
    ensures
        eval_spec(NodeView::Value(ValueView::Symbol(name)), env, sources, depth + 1) == eval_spec(
            env[name],
            env,
            sources,
            depth,
        ),
{
}

/// Two references to a symbol, one after the other, emit what its binding
/// emits twice over, where the first leaves the environment as it was.
pub proof fn lemma_symbol_emits_on_every_reference(
    name: Seq<char>,
    env: EnvView,
    sources: Seq<SourceView>,
    depth: nat,
)
    requires
        env.contains_key(name),
        eval_spec(env[name], env, sources, depth).result is Ok,
        eval_spec(env[name], env, sources, depth).result->Ok_0.1 == env,
    ensures
        eval_forms_spec(
            seq![
                NodeView::Value(ValueView::Symbol(name)),
                NodeView::Value(ValueView::Symbol(name)),
            ],
            env,
            sources,
            depth + 1,
        ).emitted == eval_spec(env[name], env, sources, depth).emitted + eval_spec(
            env[name],
            env,
            sources,
            depth,
        ).emitted,
{
    let reference = NodeView::Value(ValueView::Symbol(name));
    let forms = seq![reference, reference];
    let once = eval_spec(env[name], env, sources, depth);
    lemma_symbol_evaluates_its_binding(name, env, sources, depth);
    assert(forms.skip(1) =~= seq![reference]);
    assert(forms.skip(1).skip(1) =~= Seq::<NodeView>::empty());
    let last = eval_forms_spec(forms.skip(1).skip(1), env, sources, depth + 1);
    assert(last.emitted =~= Seq::<EmittedView>::empty());
    let second = eval_forms_spec(forms.skip(1), env, sources, depth + 1);
    assert(forms.skip(1)[0] == reference);
    assert(second.emitted =~= once.emitted + last.emitted);
    assert(once.emitted + last.emitted =~= once.emitted);
    assert(forms[0] == reference);
}

/// A lambda evaluates to a closure over the environment it is evaluated in.
pub proof fn lemma_lambda_closes_over_its_environment(
    varname: Seq<char>,
    body: NodeView,
    env: EnvView,
    sources: Seq<SourceView>,
    depth: nat,
)
    ensures
        eval_spec(
            NodeView::Lambda { varname, body: Box::new(body) },
            env,
            sources,
            depth,
        ) == done(closure_node(varname, body, env), env),
{
}

/// What a closure returns and emits depends on the environment it closed
/// over and on its argument, never on the environment of the caller, which
/// the call hands back as it was.
pub proof fn lemma_closure_ignores_callers_environment(
    varname: Seq<char>,
    body: NodeView,
    captured: EnvView,
    arg: NodeView,
    caller: EnvView,
    other_caller: EnvView,
    sources: Seq<SourceView>,
    depth: nat,
)
    ensures
        ({
            let here = apply_spec(
                closure_node(varname, body, captured),
                arg,
                caller,
                sources,
                depth,
            );
            let there = apply_spec(
                closure_node(varname, body, captured),
                arg,
                other_caller,
                sources,
                depth,
            );
            let inner = eval_spec(body, captured.insert(varname, arg), sources, depth);
            &&& here.emitted == inner.emitted
            &&& there.emitted == inner.emitted
            &&& match inner.result {
                Ok((value, _)) => here.result == Ok::<(NodeView, EnvView), EvalErrorView>(
                    (value, caller),
                ) && there.result == Ok::<(NodeView, EnvView), EvalErrorView>(
                    (value, other_caller),
                ),
                Err(e) => here.result == Err::<(NodeView, EnvView), EvalErrorView>(e)
                    && there.result == Err::<(NodeView, EnvView), EvalErrorView>(e),
            }
        }),
{
}

/// Binding a name to a new node leaves every closure that was made before
/// as it was: applied to the same argument it returns and emits the same,
/// whether or not the caller sees the new binding.
pub proof fn lemma_rebinding_leaves_closures_alone(
    varname: Seq<char>,
    body: NodeView,
    captured: EnvView,
    arg: NodeView,
    caller: EnvView,
    name: Seq<char>,
    rebound: NodeView,
    sources: Seq<SourceView>,
    depth: nat,
)
    ensures
        ({
            let before = apply_spec(
                closure_node(varname, body, captured),
                arg,
                caller,
                sources,
                depth,
            );
            let after = apply_spec(
                closure_node(varname, body, captured),
                arg,
                caller.insert(name, rebound),
                sources,
                depth,
            );
            &&& before.emitted == after.emitted
            &&& before.result is Ok <==> after.result is Ok
            &&& before.result is Ok ==> before.result->Ok_0.0 == after.result->Ok_0.0
            &&& before.result is Err ==> before.result->Err_0 == after.result->Err_0
        }),
{
    lemma_closure_ignores_callers_environment(
        varname,
        body,
        captured,
        arg,
        caller,
        caller.insert(name, rebound),
        sources,
        depth,
    );
}

/// The value of an outcome, without the environment that comes with it.
pub open spec fn value_of(o: EvalOutcome) -> Result<NodeView, EvalErrorView> {
    match o.result {
        Ok((value, _)) => Ok(value),
        Err(e) => Err(e),
    }
}

/// Invoking a name that is bound to a closure gives and emits the same
/// after another name has been bound anew: the closure took its
/// environment when it was made, not when it is called.
pub proof fn lemma_invoking_after_rebinding(
    invoked: Seq<char>,
    varname: Seq<char>,
    body: NodeView,
    captured: EnvView,
    arg: ValueView,
    env: EnvView,
    name: Seq<char>,
    rebound: NodeView,
    sources: Seq<SourceView>,
    depth: nat,
)
    requires
        env.contains_key(invoked),
        env[invoked] == closure_node(varname, body, captured),
        name != invoked,
        is_literal(arg),
    ensures
        ({
            let call = NodeView::Par {
                car: Box::new(NodeView::Value(ValueView::Symbol(invoked))),
                cdr: Box::new(NodeView::Value(arg)),
            };
            let before = eval_spec(call, env, sources, depth);
            let after = eval_spec(call, env.insert(name, rebound), sources, depth);
            &&& value_of(before) == value_of(after)
            &&& before.emitted == after.emitted
        }),
{
    let later = env.insert(name, rebound);
    let closure = closure_node(varname, body, captured);
    let reference = NodeView::Value(ValueView::Symbol(invoked));
    let literal = NodeView::Value(arg);
    assert(later.contains_key(invoked) && later[invoked] == closure);
    if depth >= 1 {
        let inner = (depth - 1) as nat;
        if inner >= 1 {
            let innermost = (inner - 1) as nat;
            assert(eval_spec(closure, env, sources, innermost) == done(closure, env));
            assert(eval_spec(closure, later, sources, innermost) == done(closure, later));
            assert(eval_spec(reference, env, sources, inner) == done(closure, env));
            assert(eval_spec(reference, later, sources, inner) == done(closure, later));
            assert(eval_spec(literal, env, sources, inner) == done(literal, env));
            assert(eval_spec(literal, later, sources, inner) == done(literal, later));
            lemma_closure_ignores_callers_environment(
                varname,
                body,
                captured,
                literal,
                env,
                later,
                sources,
                inner,
            );
            let applied = eval_spec(body, captured.insert(varname, literal), sources, inner);
            assert(Seq::<EmittedView>::empty() + Seq::<EmittedView>::empty() + applied.emitted
                =~= applied.emitted);
        } else {
            assert(eval_spec(reference, env, sources, inner) == failed(
                EvalErrorView::DepthExceeded,
            ));
            assert(eval_spec(reference, later, sources, inner) == failed(
                EvalErrorView::DepthExceeded,
            ));
        }
    }
}

} // verus!
