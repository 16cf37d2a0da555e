use hijekt::block::{prune, ItemRemover};
use hijekt::config::{ConfigError, HijektConfig};
use hijekt::emit::Emission;
use hijekt::function::{
    build_body, decide_function, find_rejected, forward_args, handle_function, ident_answers, inject_at_end, FnDecl,
    Param,
};
use hijekt::tree::{Expr, Shape, Stmt};

fn s(x: &str) -> String {
    x.to_string()
}

fn names(xs: &[&str]) -> Vec<String> {
    xs.iter().map(|x| s(x)).collect()
}

fn config(feat: &str) -> HijektConfig {
    let mut c = HijektConfig::default();
    c.feat = s(feat);
    c
}

fn node(shape: Shape, source: usize, inner: Vec<Stmt>) -> Stmt {
    Stmt { shape, source, inner }
}

fn leaf(shape: Shape, source: usize) -> Stmt {
    node(shape, source, Vec::new())
}

fn call(name: &str) -> Stmt {
    leaf(Shape::Run(Expr::Call { callee: s(name), args: Vec::new(), by_ref: false }), 0)
}

fn call_with(name: &str, args: &[&str]) -> Stmt {
    leaf(Shape::Run(Expr::Call { callee: s(name), args: names(args), by_ref: true }), 0)
}

fn func(params: Vec<Param>, has_return: bool, body: Vec<Stmt>) -> FnDecl {
    FnDecl { source: 7, name: s("f"), params, has_return, body }
}

fn copy(f: &FnDecl) -> FnDecl {
    FnDecl {
        source: f.source,
        name: f.name.clone(),
        params: f.params.clone(),
        has_return: f.has_return,
        body: prune(&f.body, &Vec::new()),
    }
}

fn body_of(e: Emission) -> Vec<Stmt> {
    match e {
        Emission::Function { body, .. } => body,
        other => panic!("no function: {:?}", other),
    }
}

#[test]
fn begin_hooks_run_in_declared_order_before_the_body() {
    let mut c = config("f");
    c.begin = names(&["a", "b"]);
    let f = func(vec![], false, vec![leaf(Shape::Other, 1), leaf(Shape::Other, 2)]);
    let body = body_of(handle_function(c, f).unwrap());
    assert_eq!(body, vec![call("a"), call("b"), leaf(Shape::Other, 1), leaf(Shape::Other, 2)]);
}

#[test]
fn begin_with_hooks_follow_begin_hooks_and_take_references() {
    let mut c = config("f");
    c.begin = names(&["a"]);
    c.begin_with = names(&["w1", "w2"]);
    let params = vec![Param::Receiver, Param::Named(s("x")), Param::Pattern, Param::Named(s("y"))];
    let f = func(params, false, vec![leaf(Shape::Other, 1)]);
    let body = body_of(handle_function(c, f).unwrap());
    assert_eq!(
        body,
        vec![
            call("a"),
            call_with("w1", &["self", "x", "y"]),
            call_with("w2", &["self", "x", "y"]),
            leaf(Shape::Other, 1),
        ]
    );
}

#[test]
fn end_hook_keeps_the_trailing_value() {
    let mut c = config("f");
    c.end = names(&["log"]);
    let f = func(vec![Param::Named(s("x"))], true, vec![leaf(Shape::Tail(Expr::Source), 3)]);
    let body = body_of(handle_function(c, f).unwrap());
    assert_eq!(
        body,
        vec![
            leaf(Shape::Capture(s("__hijekt_result"), Expr::Source), 3),
            call("log"),
            leaf(Shape::Tail(Expr::Name(s("__hijekt_result"))), 0),
        ]
    );
}

#[test]
fn end_hooks_are_appended_where_nothing_is_yielded() {
    let mut c = config("f");
    c.end = names(&["e1", "e2"]);
    let f = func(vec![], false, vec![leaf(Shape::Other, 1)]);
    let body = body_of(handle_function(c, f).unwrap());
    assert_eq!(body, vec![leaf(Shape::Other, 1), call("e1"), call("e2")]);
}

#[test]
fn end_hooks_on_an_empty_body() {
    let mut out = Vec::new();
    inject_at_end(&mut out, &names(&["e"]));
    assert_eq!(out, vec![call("e")]);
}

#[test]
fn inject_at_end_keeps_nested_scopes_of_the_captured_expression() {
    let scope = node(Shape::Scope, 5, vec![leaf(Shape::Other, 6)]);
    let tail = node(Shape::Tail(Expr::Source), 4, vec![scope]);
    let mut out = vec![leaf(Shape::Other, 1), tail];
    inject_at_end(&mut out, &names(&["e"]));
    let scope = node(Shape::Scope, 5, vec![leaf(Shape::Other, 6)]);
    assert_eq!(
        out,
        vec![
            leaf(Shape::Other, 1),
            node(Shape::Capture(s("__hijekt_result"), Expr::Source), 4, vec![scope]),
            call("e"),
            leaf(Shape::Tail(Expr::Name(s("__hijekt_result"))), 0),
        ]
    );
}

#[test]
fn inject_at_end_without_hooks_still_binds_the_value() {
    let mut out = vec![leaf(Shape::Tail(Expr::Source), 2)];
    inject_at_end(&mut out, &Vec::new());
    assert_eq!(
        out,
        vec![
            leaf(Shape::Capture(s("__hijekt_result"), Expr::Source), 2),
            leaf(Shape::Tail(Expr::Name(s("__hijekt_result"))), 0),
        ]
    );
}

#[test]
fn delegation_without_hooks_is_one_call() {
    let mut c = config("f");
    c.replace = Some(s("impl2"));
    let f = func(vec![Param::Named(s("a"))], true, vec![leaf(Shape::Tail(Expr::Source), 1)]);
    let body = body_of(handle_function(c, f).unwrap());
    assert_eq!(
        body,
        vec![leaf(Shape::Tail(Expr::Call { callee: s("impl2"), args: names(&["a"]), by_ref: false }), 0)]
    );
}

#[test]
fn delegation_with_end_hooks_captures_the_result() {
    let mut c = config("f");
    c.replace = Some(s("other"));
    c.begin = names(&["a"]);
    c.begin_with = names(&["w"]);
    c.end = names(&["e1", "e2"]);
    c.rm = names(&["ignored"]);
    let f = func(vec![Param::Receiver, Param::Named(s("n"))], true, vec![leaf(Shape::Other, 1)]);
    let body = body_of(handle_function(c, f).unwrap());
    let delegate = Expr::Call { callee: s("other"), args: names(&["self", "n"]), by_ref: false };
    assert_eq!(
        body,
        vec![
            call("a"),
            call_with("w", &["self", "n"]),
            leaf(Shape::Capture(s("__result"), delegate), 0),
            call("e1"),
            call("e2"),
            leaf(Shape::Tail(Expr::Name(s("__result"))), 0),
        ]
    );
}

#[test]
fn delegation_without_return_value_runs_end_hooks_last() {
    let mut c = config("f");
    c.replace = Some(s("other"));
    c.end = names(&["e"]);
    let f = func(vec![Param::Named(s("n"))], false, Vec::new());
    let body = build_body(&c, &f);
    let delegate = Expr::Call { callee: s("other"), args: names(&["n"]), by_ref: false };
    assert_eq!(body, vec![leaf(Shape::Run(delegate), 0), call("e")]);
}

#[test]
fn removal_reaches_nested_scopes() {
    let inner_scope = node(
        Shape::Scope,
        10,
        vec![leaf(Shape::Binding(s("tmp")), 11), leaf(Shape::Other, 12), leaf(Shape::NestedFn(s("helper")), 13)],
    );
    let body = vec![
        leaf(Shape::Binding(s("tmp")), 1),
        leaf(Shape::Binding(s("keep")), 2),
        node(Shape::Other, 3, vec![inner_scope]),
        node(Shape::NestedFn(s("helper")), 4, vec![node(Shape::Scope, 5, Vec::new())]),
        node(Shape::NestedFn(s("stay")), 6, vec![node(Shape::Scope, 7, vec![leaf(Shape::Binding(s("tmp")), 8)])]),
    ];
    let out = prune(&body, &names(&["tmp", "helper"]));
    assert_eq!(
        out,
        vec![
            leaf(Shape::Binding(s("keep")), 2),
            node(Shape::Other, 3, vec![node(Shape::Scope, 10, vec![leaf(Shape::Other, 12)])]),
            node(Shape::NestedFn(s("stay")), 6, vec![node(Shape::Scope, 7, Vec::new())]),
        ]
    );
}

#[test]
fn remover_changes_the_block_in_place() {
    let mut block = vec![
        leaf(Shape::NestedFn(s("gone")), 1),
        node(Shape::Other, 2, vec![node(Shape::Scope, 0, vec![leaf(Shape::Binding(s("gone")), 3)])]),
    ];
    let remover = ItemRemover { targets: names(&["gone"]) };
    remover.visit_block_mut(&mut block);
    assert_eq!(block, vec![node(Shape::Other, 2, vec![node(Shape::Scope, 0, Vec::new())])]);
}

#[test]
fn removal_without_targets_copies_the_body() {
    let body = vec![leaf(Shape::Binding(s("a")), 1), node(Shape::Other, 2, vec![leaf(Shape::Scope, 3)])];
    assert_eq!(prune(&body, &Vec::new()), body);
}

#[test]
fn mutation_removes_then_injects() {
    let mut c = config("f");
    c.rm = names(&["secret"]);
    c.begin = names(&["a"]);
    c.end = names(&["z"]);
    let f = func(
        vec![],
        true,
        vec![leaf(Shape::Binding(s("secret")), 1), leaf(Shape::Tail(Expr::Source), 2)],
    );
    let body = body_of(handle_function(c, f).unwrap());
    assert_eq!(
        body,
        vec![
            call("a"),
            leaf(Shape::Capture(s("__hijekt_result"), Expr::Source), 2),
            call("z"),
            leaf(Shape::Tail(Expr::Name(s("__hijekt_result"))), 0),
        ]
    );
}

#[test]
fn original_function_is_kept_for_the_inactive_feature() {
    let mut c = config("flag");
    c.begin = names(&["a"]);
    let f = func(vec![Param::Named(s("x"))], true, vec![leaf(Shape::Tail(Expr::Source), 1)]);
    let expected = copy(&f);
    match handle_function(c, f).unwrap() {
        Emission::Function { feature, original, .. } => {
            assert_eq!(feature, "flag");
            assert_eq!(original, expected);
        }
        other => panic!("no function: {:?}", other),
    }
}

#[test]
fn hook_that_is_no_identifier_is_rejected() {
    let mut c = config("f");
    c.begin = names(&["ok", "1abc"]);
    c.end = names(&["also bad"]);
    let f = func(vec![], false, Vec::new());
    assert_eq!(handle_function(c, f).unwrap_err(), ConfigError::BadIdentifier(s("1abc")));
}

#[test]
fn delegate_is_checked_first() {
    let mut c = config("f");
    c.replace = Some(s("a::b"));
    c.begin = names(&["1abc"]);
    let f = func(vec![], false, Vec::new());
    assert_eq!(handle_function(c, f).unwrap_err(), ConfigError::BadIdentifier(s("a::b")));
}

#[test]
fn keyword_is_no_identifier() {
    assert_eq!(ident_answers(&names(&["alpha", "_b2", "fn", "c"])), vec![true, true, false, true]);
    assert_eq!(ident_answers(&names(&["", "a b", "a::b", "r#type"])), vec![false, false, false, true]);
    assert_eq!(ident_answers(&Vec::new()), Vec::<bool>::new());
}

#[test]
fn first_no_among_the_answers() {
    assert_eq!(find_rejected(&vec![true, true, false, false], 4), Some(2));
    assert_eq!(find_rejected(&vec![true, true], 2), None);
    assert_eq!(find_rejected(&vec![true, true], 3), Some(2));
    assert_eq!(find_rejected(&vec![false], 0), None);
    assert_eq!(find_rejected(&Vec::new(), 0), None);
}

#[test]
fn answers_decide_whether_the_function_is_transformed() {
    let mut c = config("f");
    c.replace = Some(s("d"));
    c.begin = names(&["a", "b"]);
    c.end = names(&["z"]);
    let f = || func(vec![], false, Vec::new());
    assert_eq!(
        decide_function(c.clone(), f(), &vec![true, true, false, false]).unwrap_err(),
        ConfigError::BadIdentifier(s("b"))
    );
    assert_eq!(
        decide_function(c.clone(), f(), &vec![false, true, true, true]).unwrap_err(),
        ConfigError::BadIdentifier(s("d"))
    );
    assert_eq!(
        decide_function(c.clone(), f(), &vec![true, true, true]).unwrap_err(),
        ConfigError::BadIdentifier(s("z"))
    );
    let delegate = Expr::Call { callee: s("d"), args: Vec::new(), by_ref: false };
    assert_eq!(
        body_of(decide_function(c, f(), &vec![true, true, true, true]).unwrap()),
        vec![call("a"), call("b"), leaf(Shape::Run(delegate), 0), call("z")]
    );
}

#[test]
fn forwarding_skips_patterns() {
    let params = vec![Param::Pattern, Param::Named(s("a")), Param::Receiver];
    assert_eq!(forward_args(&params), names(&["a", "self"]));
    assert_eq!(forward_args(&Vec::new()), Vec::<String>::new());
}
