use ci_lisp::ast::{AstNode, Function, NativeFn, Value};
use ci_lisp::env::math::math_environment;
use ci_lisp::env::prelude::prelude_environment;
use ci_lisp::env::Environment;
use ci_lisp::parser_types::{CIEvalError, CILexerError, CIParserError};
use ci_lisp::parsers::ci_evaluator::{eval, Attempt, Emitted, SourceFile};
use ci_lisp::parsers::{CIFileEvaluator, CIFullReplParser, CIReplEvaluator};

fn full_env() -> Environment {
    math_environment(prelude_environment(Environment::new()))
}

fn parse(source: &str) -> AstNode {
    CIFullReplParser::new(false).parse(source).unwrap()
}

fn run_in(env: &Environment, source: &str) -> Result<(AstNode, Environment), CIEvalError> {
    let mut out = Vec::new();
    eval(&parse(source), env.clone(), &Vec::new(), 200, &mut out)
}

fn value_in(env: &Environment, source: &str) -> AstNode {
    run_in(env, source).unwrap().0
}

fn value(source: &str) -> AstNode {
    value_in(&full_env(), source)
}

fn log_lines(out: &[Emitted]) -> Vec<String> {
    let mut lines = Vec::new();
    for e in out {
        if let Emitted::Log(line) = e {
            lines.push(line.clone());
        }
    }
    lines
}

fn source(path: &str, text: &str) -> SourceFile {
    SourceFile::new(path.to_string(), text.to_string()).unwrap()
}

#[test]
fn literals_evaluate_to_themselves() {
    let env = Environment::new();
    assert!(matches!(value_in(&env, "5"), AstNode::Value(Value::Int(5))));
    assert!(matches!(value_in(&env, "\"s\""), AstNode::Value(Value::String(s)) if s == "s"));
    assert!(matches!(value_in(&env, "t"), AstNode::Value(Value::True)));
    assert!(matches!(value_in(&env, "nil"), AstNode::Value(Value::Nil)));
    assert!(matches!(value_in(&env, "'a"), AstNode::Value(Value::Ident(s)) if s == "a"));
    assert!(matches!(value_in(&env, "()"), AstNode::Value(Value::Nil)));
}

#[test]
fn literals_evaluate_even_without_depth() {
    let mut out = Vec::new();
    let r = eval(&parse("5"), Environment::new(), &Vec::new(), 0, &mut out);
    assert!(matches!(r, Ok((AstNode::Value(Value::Int(5)), _))));
    assert!(out.is_empty());
}

#[test]
fn curried_add_gives_five() {
    assert!(matches!(value("((add 2) 3)"), AstNode::Value(Value::Int(5))));
}

#[test]
fn def_then_reference_gives_the_value() {
    let env = full_env();
    let (r, env) = run_in(&env, "((def 5) 'x)").unwrap();
    assert!(matches!(r, AstNode::Value(Value::Nil)));
    assert!(matches!(value_in(&env, "x"), AstNode::Value(Value::Int(5))));
    let (_, env) = run_in(&env, "{'y def 6}").unwrap();
    assert!(matches!(value_in(&env, "y"), AstNode::Value(Value::Int(6))));
    assert!(matches!(value_in(&env, "x"), AstNode::Value(Value::Int(5))));
}

#[test]
fn def_leaves_the_old_environment_alone() {
    let env = full_env();
    let (_, later) = run_in(&env, "{'x def 5}").unwrap();
    assert!(matches!(run_in(&env, "x"), Err(CIEvalError::UnknownSymbol(s)) if s == "x"));
    assert!(matches!(value_in(&later, "x"), AstNode::Value(Value::Int(5))));
}

#[test]
fn def_needs_a_quoted_name() {
    assert!(matches!(
        run_in(&full_env(), "((def 5) 7)"),
        Err(CIEvalError::UnexpectedValue(n)) if matches!(*n, AstNode::Value(Value::Int(7)))
    ));
}

#[test]
fn lt_reads_as_written_in_infix() {
    assert!(matches!(value("{5 lt 3}"), AstNode::Value(Value::Nil)));
    assert!(matches!(value("{3 lt 5}"), AstNode::Value(Value::True)));
    assert!(matches!(value("{3 lt 3}"), AstNode::Value(Value::Nil)));
    assert!(matches!(value("((lt 3) 5)"), AstNode::Value(Value::Nil)));
    assert!(matches!(value("((lt 5) 3)"), AstNode::Value(Value::True)));
}

#[test]
fn list_sugar_needs_cons_at_evaluation() {
    assert!(matches!(
        run_in(&full_env(), "[1 2]"),
        Err(CIEvalError::UnknownSymbol(s)) if s == "cons"
    ));
}

#[test]
fn unknown_symbol_is_reported_by_name() {
    assert!(matches!(
        run_in(&Environment::new(), "nope"),
        Err(CIEvalError::UnknownSymbol(s)) if s == "nope"
    ));
}

#[test]
fn a_value_cannot_be_applied() {
    assert!(matches!(
        run_in(&full_env(), "(5 3)"),
        Err(CIEvalError::NonCallable(n)) if matches!(*n, AstNode::Value(Value::Int(5)))
    ));
    assert!(matches!(
        run_in(&full_env(), "(\"f\" 3)"),
        Err(CIEvalError::NonCallable(n)) if matches!(&*n, AstNode::Value(Value::String(s)) if s == "f")
    ));
}

#[test]
fn arithmetic_formulas() {
    assert!(matches!(value("(inc 41)"), AstNode::Value(Value::Int(42))));
    assert!(matches!(value("(dec 0)"), AstNode::Value(Value::Int(-1))));
    assert!(matches!(value("{7 sub 2}"), AstNode::Value(Value::Int(5))));
    assert!(matches!(value("((sub 2) 7)"), AstNode::Value(Value::Int(5))));
    assert!(matches!(value("{2 sub 7}"), AstNode::Value(Value::Int(-5))));
    assert!(matches!(value("{6 mul 7}"), AstNode::Value(Value::Int(42))));
    assert!(matches!(value("{-4 add 1}"), AstNode::Value(Value::Int(-3))));
    assert!(matches!(value("{{1 add 2} mul {3 add 4}}"), AstNode::Value(Value::Int(21))));
}

#[test]
fn arithmetic_wraps_at_the_bounds() {
    assert!(matches!(value("(inc 2147483647)"), AstNode::Value(Value::Int(i32::MIN))));
    assert!(matches!(value("(dec -2147483648)"), AstNode::Value(Value::Int(i32::MAX))));
    assert!(matches!(value("{2147483647 add 1}"), AstNode::Value(Value::Int(i32::MIN))));
    assert!(matches!(value("{-2147483648 sub 1}"), AstNode::Value(Value::Int(i32::MAX))));
    assert!(matches!(value("{65536 mul 65536}"), AstNode::Value(Value::Int(0))));
}

#[test]
fn arithmetic_rejects_what_is_no_integer() {
    assert!(matches!(
        run_in(&full_env(), "(inc \"a\")"),
        Err(CIEvalError::UnexpectedValue(n)) if matches!(&*n, AstNode::Value(Value::String(s)) if s == "a")
    ));
    assert!(matches!(
        run_in(&full_env(), "(add t)"),
        Err(CIEvalError::UnexpectedValue(n)) if matches!(*n, AstNode::Value(Value::True))
    ));
    assert!(matches!(
        run_in(&full_env(), "((add 1) nil)"),
        Err(CIEvalError::UnexpectedValue(n)) if matches!(*n, AstNode::Value(Value::Nil))
    ));
    assert!(matches!(
        run_in(&full_env(), "(lt inc)"),
        Err(CIEvalError::UnexpectedValue(n)) if matches!(*n, AstNode::Function(Function::Native(NativeFn::Inc)))
    ));
}

#[test]
fn eq_compares_values() {
    assert!(matches!(value("{1 eq 1}"), AstNode::Value(Value::True)));
    assert!(matches!(value("{1 eq 2}"), AstNode::Value(Value::Nil)));
    assert!(matches!(value("{\"a\" eq \"a\"}"), AstNode::Value(Value::True)));
    assert!(matches!(value("{\"a\" eq 'a}"), AstNode::Value(Value::Nil)));
    assert!(matches!(value("{nil eq ()}"), AstNode::Value(Value::True)));
    assert!(matches!(value("{t eq nil}"), AstNode::Value(Value::Nil)));
    assert!(matches!(
        run_in(&full_env(), "(eq inc)"),
        Err(CIEvalError::UnexpectedValue(_))
    ));
    assert!(matches!(
        run_in(&full_env(), "((eq 1) inc)"),
        Err(CIEvalError::UnexpectedValue(_))
    ));
}

#[test]
fn is_int_tells_integers_apart() {
    assert!(matches!(value("(is_int 3)"), AstNode::Value(Value::True)));
    assert!(matches!(value("(is_int \"3\")"), AstNode::Value(Value::Nil)));
    assert!(matches!(value("(is_int inc)"), AstNode::Value(Value::Nil)));
}

#[test]
fn if_selects_a_branch() {
    assert!(matches!(value("(((if t) 1) 2)"), AstNode::Value(Value::Int(1))));
    assert!(matches!(value("(((if nil) 1) 2)"), AstNode::Value(Value::Int(2))));
    assert!(matches!(value("(((if 0) 1) 2)"), AstNode::Value(Value::Int(1))));
    assert!(matches!(value("(((if {1 lt 2}) \"y\") \"n\")"), AstNode::Value(Value::String(s)) if s == "y"));
}

#[test]
fn if_evaluates_both_branches() {
    let mut out = Vec::new();
    let node = parse("(((if t) ((log \"yes\") 1)) ((log \"no\") 2))");
    let r = eval(&node, full_env(), &Vec::new(), 100, &mut out).unwrap();
    assert!(matches!(r.0, AstNode::Value(Value::Int(1))));
    assert_eq!(log_lines(&out), vec!["[log] yes", "[log] no"]);
}

#[test]
fn log_passes_its_body_through() {
    let mut out = Vec::new();
    let r = eval(&parse("((log \"evaluated\") 5)"), full_env(), &Vec::new(), 100, &mut out);
    assert!(matches!(r, Ok((AstNode::Value(Value::Int(5)), _))));
    assert_eq!(log_lines(&out), vec!["[log] evaluated"]);
}

#[test]
fn log_shows_any_message() {
    let mut out = Vec::new();
    eval(&parse("((log 12) 'k)"), full_env(), &Vec::new(), 100, &mut out).unwrap();
    eval(&parse("((log inc) 0)"), full_env(), &Vec::new(), 100, &mut out).unwrap();
    eval(&parse("((log (fn 'v v)) 0)"), full_env(), &Vec::new(), 100, &mut out).unwrap();
    assert_eq!(
        log_lines(&out),
        vec!["[log] 12", "[log] <native fn>", "[log] <user fn v>"]
    );
}

#[test]
fn str_concat_joins_left_then_right() {
    assert!(matches!(value("{\"ab\" str_concat \"cd\"}"), AstNode::Value(Value::String(s)) if s == "abcd"));
    assert!(matches!(value("((str_concat \"cd\") \"ab\")"), AstNode::Value(Value::String(s)) if s == "abcd"));
    assert!(matches!(value("{\"n=\" str_concat -12}"), AstNode::Value(Value::String(s)) if s == "n=-12"));
    assert!(matches!(value("{t str_concat nil}"), AstNode::Value(Value::String(s)) if s == "tnil"));
    assert!(matches!(value("{'a str_concat 0}"), AstNode::Value(Value::String(s)) if s == "'a0"));
}

#[test]
fn a_reference_runs_its_binding_every_time() {
    let env = full_env().insert("x", parse("((log \"evaluated\") 5)"));
    let mut out = Vec::new();
    let first = eval(&parse("x"), env.clone(), &Vec::new(), 100, &mut out).unwrap();
    assert!(matches!(first.0, AstNode::Value(Value::Int(5))));
    assert_eq!(log_lines(&out), vec!["[log] evaluated"]);
    let second = eval(&parse("x"), first.1, &Vec::new(), 100, &mut out).unwrap();
    assert!(matches!(second.0, AstNode::Value(Value::Int(5))));
    assert_eq!(log_lines(&out), vec!["[log] evaluated", "[log] evaluated"]);
}

#[test]
fn def_binds_the_evaluated_body() {
    let mut evaluator = CIFileEvaluator::new(full_env());
    evaluator
        .parse(vec![parse("{'x def ((log \"evaluated\") 5)}")])
        .unwrap();
    assert_eq!(log_lines(&evaluator.take_output()), vec!["[log] evaluated"]);
    let values = evaluator.parse(vec![parse("x"), parse("x")]).unwrap();
    assert!(matches!(values[0], AstNode::Value(Value::Int(5))));
    assert!(matches!(values[1], AstNode::Value(Value::Int(5))));
    assert!(evaluator.take_output().is_empty());
}

#[test]
fn closures_keep_the_environment_they_were_made_in() {
    let mut evaluator = CIFileEvaluator::new(full_env());
    evaluator
        .parse(vec![
            parse("{'x def (fn 'y {y add y})}"),
            parse("{'x2 def x}"),
        ])
        .unwrap();
    let before = evaluator.parse(vec![parse("(x2 4)")]).unwrap();
    assert!(matches!(before[0], AstNode::Value(Value::Int(8))));
    evaluator.parse(vec![parse("{'x def (fn 'y 0)}")]).unwrap();
    let values = evaluator.parse(vec![parse("(x2 4)"), parse("(x 4)")]).unwrap();
    assert!(matches!(values[0], AstNode::Value(Value::Int(8))));
    assert!(matches!(values[1], AstNode::Value(Value::Int(0))));
}

#[test]
fn closures_do_not_see_later_definitions() {
    let mut evaluator = CIFileEvaluator::new(full_env());
    evaluator
        .parse(vec![
            parse("{'k def 1}"),
            parse("{'f def (fn 'y {y add k})}"),
            parse("{'k def 100}"),
        ])
        .unwrap();
    let values = evaluator.parse(vec![parse("(f 1)"), parse("k")]).unwrap();
    assert!(matches!(values[0], AstNode::Value(Value::Int(2))));
    assert!(matches!(values[1], AstNode::Value(Value::Int(100))));
}

#[test]
fn a_lambda_is_a_closure_value() {
    match value("(fn 'y y)") {
        AstNode::Function(Function::User { varname, body, .. }) => {
            assert_eq!(varname, "y");
            assert_eq!(body.to_text(), "y");
        }
        other => panic!("{}", other.to_text()),
    }
    assert!(matches!(value("((fn 'y (inc y)) 1)"), AstNode::Value(Value::Int(2))));
    assert!(matches!(value("(((fn 'a (fn 'b {a sub b})) 10) 3)"), AstNode::Value(Value::Int(7))));
}

#[test]
fn a_definition_inside_a_call_does_not_leak() {
    let env = full_env();
    let (r, after) = run_in(&env, "((fn 'u {'inner def 1}) 0)").unwrap();
    assert!(matches!(r, AstNode::Value(Value::Nil)));
    assert!(matches!(run_in(&after, "inner"), Err(CIEvalError::UnknownSymbol(s)) if s == "inner"));
}

#[test]
fn a_definition_in_an_argument_does_not_leak() {
    let env = full_env();
    let (_, after) = run_in(&env, "(inc ((fn 'u 1) {'z def 1}))").unwrap();
    assert!(matches!(run_in(&after, "z"), Err(CIEvalError::UnknownSymbol(_))));
}

#[test]
fn nesting_beyond_the_depth_is_an_error() {
    let omega = parse("((fn 'x (x x)) (fn 'x (x x)))");
    let mut out = Vec::new();
    let r = eval(&omega, full_env(), &Vec::new(), 64, &mut out);
    assert!(matches!(r, Err(CIEvalError::DepthExceeded)));
    let r = eval(&parse("(inc 1)"), full_env(), &Vec::new(), 0, &mut out);
    assert!(matches!(r, Err(CIEvalError::DepthExceeded)));
    let r = eval(&parse("(inc 1)"), full_env(), &Vec::new(), 2, &mut out);
    assert!(matches!(r, Ok((AstNode::Value(Value::Int(2)), _))));
}

#[test]
fn the_depth_of_an_evaluator_can_be_set() {
    let mut evaluator = CIFileEvaluator::new(full_env());
    evaluator.set_max_depth(50);
    let r = evaluator.parse(vec![parse("((fn 'x (x x)) (fn 'x (x x)))")]);
    assert!(matches!(
        r,
        Err(CIParserError::EvalError(CIEvalError::DepthExceeded))
    ));
}

#[test]
fn inspect_env_hands_out_the_environment() {
    let env = full_env().insert("marker", AstNode::integer(1));
    let mut out = Vec::new();
    let r = eval(&parse("(inspect_env nil)"), env, &Vec::new(), 100, &mut out).unwrap();
    assert!(matches!(r.0, AstNode::Value(Value::Nil)));
    assert_eq!(out.len(), 1);
    match &out[0] {
        Emitted::EnvDump(shown) => {
            assert!(matches!(shown.get("marker"), Some(AstNode::Value(Value::Int(1)))));
            assert!(shown.get("if").is_some());
        }
        _ => panic!(),
    }
    assert!(r.1.get("marker").is_some());
}

#[test]
fn include_evaluates_a_source_in_the_callers_environment() {
    let sources = vec![source("lib.ci", "{'two def 2}\n{'four def {two add two}}")];
    let mut out = Vec::new();
    let (r, env) = eval(&parse("(include \"lib.ci\")"), full_env(), &sources, 100, &mut out).unwrap();
    assert!(matches!(r, AstNode::Value(Value::Nil)));
    assert!(matches!(env.get("four"), Some(AstNode::Value(Value::Int(4)))));
    assert!(matches!(env.get("two"), Some(AstNode::Value(Value::Int(2)))));
}

#[test]
fn include_of_an_unknown_path_is_no_such_file() {
    let sources = vec![source("a", "1")];
    let mut out = Vec::new();
    let r = eval(&parse("(include \"b\")"), full_env(), &sources, 100, &mut out);
    assert!(matches!(r, Err(CIEvalError::NoSuchFile(p)) if p == "b"));
}

#[test]
fn include_needs_a_string() {
    let r = run_in(&full_env(), "(include 5)");
    assert!(matches!(
        r,
        Err(CIEvalError::UnexpectedValue(n)) if matches!(*n, AstNode::Value(Value::Int(5)))
    ));
}

#[test]
fn include_wraps_the_errors_of_the_source() {
    let sources = vec![
        source("lex", "\"open"),
        source("depth", "(a"),
        source("arity", "(1 2 3)"),
        source("eval", "{'a def 1} missing"),
        source("outer", "(include \"nowhere\")"),
    ];
    let run = |path: &str| {
        let mut out = Vec::new();
        let line = format!("(include \"{}\")", path);
        eval(&parse(&line), full_env(), &sources, 100, &mut out)
    };
    assert!(matches!(
        run("lex"),
        Err(CIEvalError::FileParseError(e)) if matches!(*e, CIParserError::LexerError(CILexerError::UnmatchedQuotes))
    ));
    assert!(matches!(
        run("depth"),
        Err(CIEvalError::FileParseError(e)) if matches!(*e, CIParserError::MissingCloseParen(1))
    ));
    assert!(matches!(
        run("arity"),
        Err(CIEvalError::FileParseError(e)) if matches!(*e, CIParserError::NodeFull(_))
    ));
    assert!(matches!(
        run("eval"),
        Err(CIEvalError::FileParseError(e)) if matches!(&*e, CIParserError::EvalError(CIEvalError::UnknownSymbol(s)) if s == "missing")
    ));
    assert!(matches!(
        run("outer"),
        Err(CIEvalError::FileParseError(e)) if matches!(&*e, CIParserError::EvalError(CIEvalError::NoSuchFile(p)) if p == "nowhere")
    ));
}

#[test]
fn the_first_source_under_a_path_is_loaded() {
    let sources = vec![source("p", "{'v def 1}"), source("p", "{'v def 2}")];
    let mut out = Vec::new();
    let (_, env) = eval(&parse("(include \"p\")"), full_env(), &sources, 100, &mut out).unwrap();
    assert!(matches!(env.get("v"), Some(AstNode::Value(Value::Int(1)))));
}

#[test]
fn a_failing_form_keeps_the_definitions_before_it() {
    let mut evaluator = CIFileEvaluator::new(full_env());
    let r = evaluator.parse(vec![parse("{'a def 1}"), parse("missing"), parse("{'b def 2}")]);
    assert!(matches!(
        r,
        Err(CIParserError::EvalError(CIEvalError::UnknownSymbol(s))) if s == "missing"
    ));
    let env = evaluator.take_env();
    assert!(env.get("a").is_some());
    assert!(env.get("b").is_none());
}

#[test]
fn eval_node_leaves_the_evaluators_environment() {
    let mut evaluator = CIFileEvaluator::new(full_env());
    let (_, env) = evaluator.eval_node(&parse("{'a def 1}"), full_env()).unwrap();
    assert!(env.get("a").is_some());
    assert!(evaluator.take_env().get("a").is_none());
}

#[test]
fn repl_evaluator_threads_the_environment() {
    let mut repl = CIReplEvaluator::new(Vec::new(), full_env());
    assert!(matches!(repl.parse(parse("{'x def 5}")), Ok(AstNode::Value(Value::Nil))));
    assert!(matches!(repl.parse(parse("x")), Ok(AstNode::Value(Value::Int(5)))));
    assert!(matches!(
        repl.parse(parse("y")),
        Err(CIParserError::EvalError(CIEvalError::UnknownSymbol(s))) if s == "y"
    ));
    assert!(matches!(repl.parse(parse("(inc x)")), Ok(AstNode::Value(Value::Int(6)))));
}

#[test]
fn repl_evaluator_loads_its_preload_before_every_line() {
    let mut repl = CIReplEvaluator::new(vec!["pre".to_string()], full_env());
    repl.add_source(source("pre", "((log \"loaded\") 0) {'one def 1}"));
    assert!(matches!(repl.parse(parse("(inc one)")), Ok(AstNode::Value(Value::Int(2)))));
    assert!(matches!(repl.parse(parse("one")), Ok(AstNode::Value(Value::Int(1)))));
    assert_eq!(log_lines(&repl.take_output()), vec!["[log] loaded", "[log] loaded"]);
}

#[test]
fn repl_evaluator_fails_on_a_missing_preload() {
    let mut repl = CIReplEvaluator::new(vec!["gone".to_string()], full_env());
    assert!(matches!(
        repl.parse(parse("1")),
        Err(CIParserError::EvalError(CIEvalError::NoSuchFile(p))) if p == "gone"
    ));
}

#[test]
fn a_source_that_is_too_long_is_refused_only_then() {
    assert!(SourceFile::new("p".to_string(), String::new()).is_some());
    let s = source("path", "text");
    assert_eq!(s.path(), "path");
    assert_eq!(s.text(), "text");
}

#[test]
fn an_attempt_asks_for_the_missing_source() {
    let mut repl = CIReplEvaluator::new(vec!["pre".to_string()], full_env());
    assert!(matches!(
        repl.try_line(parse("(inc one)")),
        Attempt::NeedSource(p) if p == "pre"
    ));
    assert!(repl.current_env().get("one").is_none());
    repl.add_source(source("pre", "((log \"in\") 0) (include \"more\")"));
    assert!(matches!(
        repl.try_line(parse("(inc one)")),
        Attempt::NeedSource(p) if p == "more"
    ));
    assert!(repl.take_output().is_empty());
    repl.add_source(source("more", "{'one def 1}"));
    assert!(matches!(
        repl.try_line(parse("(inc one)")),
        Attempt::Done(Ok(AstNode::Value(Value::Int(2))))
    ));
    assert_eq!(log_lines(&repl.take_output()), vec!["[log] in"]);
    assert!(repl.current_env().get("one").is_some());
}

#[test]
fn an_attempt_ends_on_any_other_error() {
    let mut evaluator = CIFileEvaluator::new(full_env());
    let forms = vec![parse("{'a def 1}"), parse("(5 5)")];
    assert!(matches!(
        evaluator.try_parse(&forms),
        Attempt::Done(Err(CIParserError::EvalError(CIEvalError::NonCallable(_))))
    ));
    assert!(evaluator.current_env().get("a").is_some());
}
