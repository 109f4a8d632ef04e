use ci_lisp::ast::{AstNode, Function, NativeFn, Value};
use ci_lisp::env::Environment;
use ci_lisp::text::{chars_of, parse_int_range, str_equals, string_from_chars, trim_bounds};

#[test]
fn values_show_as_they_are_written() {
    assert_eq!(Value::Int(0).to_text(), "0");
    assert_eq!(Value::Int(-45).to_text(), "-45");
    assert_eq!(Value::Int(i32::MAX).to_text(), "2147483647");
    assert_eq!(Value::Int(i32::MIN).to_text(), "-2147483648");
    assert_eq!(Value::String("a b".to_string()).to_text(), "a b");
    assert_eq!(Value::Symbol("sym".to_string()).to_text(), "sym");
    assert_eq!(Value::Ident("id".to_string()).to_text(), "'id");
    assert_eq!(Value::True.to_text(), "t");
    assert_eq!(Value::Nil.to_text(), "nil");
}

#[test]
fn nodes_show_as_forms() {
    let pair = AstNode::pair(AstNode::symbol("f"), AstNode::integer(1));
    assert_eq!(pair.to_text(), "(f 1)");
    let lambda = AstNode::Lambda {
        varname: "x".to_string(),
        body: Box::new(pair.clone()),
    };
    assert_eq!(lambda.to_text(), "(fn 'x (f 1))");
    assert_eq!(AstNode::native(NativeFn::Add).to_text(), "<native fn>");
    let closure = AstNode::closure("v".to_string(), AstNode::nil(), Environment::new());
    assert_eq!(closure.to_text(), "<user fn v>");
    assert_eq!(Function::Native(NativeFn::If).to_text(), "<native fn>");
}

#[test]
fn a_clone_shows_the_same() {
    let node = AstNode::pair(
        AstNode::pair(AstNode::symbol("cons"), AstNode::nil()),
        AstNode::string("s".to_string()),
    );
    assert_eq!(node.clone().to_text(), node.to_text());
    assert_eq!(node.to_text(), "((cons nil) s)");
}

#[test]
fn the_default_node_is_nil() {
    assert!(AstNode::default().is_nil());
    assert!(AstNode::truth(false).is_nil());
    assert!(!AstNode::truth(true).is_nil());
}

#[test]
fn chars_round_trip() {
    let chars = chars_of("héllo");
    assert_eq!(chars, vec!['h', 'é', 'l', 'l', 'o']);
    assert_eq!(string_from_chars(&chars, 1, 4), "éll");
    assert_eq!(string_from_chars(&chars, 2, 2), "");
}

#[test]
fn strings_compare_by_their_characters() {
    assert!(str_equals("fn", "fn"));
    assert!(!str_equals("fn", "fm"));
    assert!(!str_equals("fn", "fnn"));
    assert!(str_equals("", ""));
}

#[test]
fn trimming_finds_the_inner_bounds() {
    assert_eq!(trim_bounds(&chars_of("  ab \t")), (2, 4));
    assert_eq!(trim_bounds(&chars_of("ab")), (0, 2));
    assert_eq!(trim_bounds(&chars_of(" \n ")), (3, 3));
    assert_eq!(trim_bounds(&chars_of("")), (0, 0));
}

#[test]
fn integers_are_read_from_a_range() {
    let chars = chars_of("x-12y");
    assert_eq!(parse_int_range(&chars, 1, 4), Some(-12));
    assert_eq!(parse_int_range(&chars, 2, 4), Some(12));
    assert_eq!(parse_int_range(&chars, 0, 4), None);
    assert_eq!(parse_int_range(&chars, 1, 2), None);
    assert_eq!(parse_int_range(&chars, 3, 3), None);
}
