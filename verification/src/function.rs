//! The function transformer: a body that delegates to a replacement, or the
//! original body with hooks injected and declarations removed.

use vstd::prelude::*;
use crate::block::{pruned, prune};
use crate::config::{ConfigError, ConfigView, HijektConfig};
use crate::emit::Emission;
use crate::syntax::parses_as_ident;
use crate::text::{accepted, texts, clone_texts, append_texts};
use crate::tree::{Expr, ExprView, Shape, ShapeView, Stmt, StmtView, stmts_view, lemma_inner_view};

verus! {

/// One parameter of a function.
#[derive(Debug, Clone, PartialEq, Eq)]
pub enum Param {
    /// The implicit receiver.
    Receiver,
    /// A parameter bound to a plain name.
    Named(String),
    /// A parameter bound by any other pattern; it is not forwarded.
    Pattern,
}

/// A function declaration.
#[derive(Debug, PartialEq, Eq)]
pub struct FnDecl {
    /// Where the caller keeps the attributes, visibility and signature.
    pub source: usize,
    pub name: String,
    pub params: Vec<Param>,
    /// Whether the function declares a return value.
    pub has_return: bool,
    pub body: Vec<Stmt>,
}

/// The names under which the first `n` parameters are forwarded, in order.
pub open spec fn forwarded_prefix(params: Seq<Param>, n: nat) -> Seq<Seq<char>>
    decreases n,
{
    if n == 0 || n > params.len() {
        Seq::empty()
    } else {
        let rest = forwarded_prefix(params, (n - 1) as nat);
        match params[n - 1] {
            Param::Receiver => rest.push("self"@),
            Param::Named(x) => rest.push(x@),
            Param::Pattern => rest,
        }
    }
}

/// The names under which a function's parameters are forwarded to a hook or
/// a delegate: the receiver as `self`, each plainly named parameter by its
/// name, in declared order.
pub open spec fn forwarded(params: Seq<Param>) -> Seq<Seq<char>> {
    forwarded_prefix(params, params.len())
}

/// A statement that stands for no source statement.
pub open spec fn made(shape: ShapeView) -> StmtView {
    StmtView { shape, source: 0, inner: Seq::empty() }
}

/// One call statement per name, in order, each with the same arguments.
pub open spec fn calls(names: Seq<Seq<char>>, args: Seq<Seq<char>>, by_ref: bool) -> Seq<StmtView> {
    Seq::new(
        names.len(),
        |i: int| made(ShapeView::Run(ExprView::Call { callee: names[i], args, by_ref })),
    )
}

/// The hook calls that open a transformed body: the `begin` hooks without
/// arguments, then the `begin_with` hooks with a reference to every parameter.
pub open spec fn opening(c: ConfigView, args: Seq<Seq<char>>) -> Seq<StmtView> {
    calls(c.begin, Seq::empty(), false) + calls(c.begin_with, args, true)
}

/// The body that delegates to `c.replace`.
pub open spec fn delegated_body(c: ConfigView, args: Seq<Seq<char>>, has_return: bool) -> Seq<StmtView>
    recommends
        c.replace is Some,
{
    let call = ExprView::Call { callee: c.replace->Some_0, args, by_ref: false };
    let ends = calls(c.end, Seq::empty(), false);
    if !has_return {
        opening(c, args).push(made(ShapeView::Run(call))) + ends
    } else if c.end.len() > 0 {
        (opening(c, args).push(made(ShapeView::Capture("__result"@, call))) + ends).push(
            made(ShapeView::Tail(ExprView::Name("__result"@))),
        )
    } else {
        opening(c, args).push(made(ShapeView::Tail(call)))
    }
}

/// A body followed by the `end` hooks. Where the body ends in a trailing
/// expression, its value is bound to a temporary before the hooks run and
/// yielded after them.
pub open spec fn with_end_hooks(body: Seq<StmtView>, ends: Seq<Seq<char>>) -> Seq<StmtView> {
    let hooks = calls(ends, Seq::empty(), false);
    if body.len() > 0 && body.last().shape is Tail {
        let last = body.last();
        let bound = StmtView {
            shape: ShapeView::Capture("__hijekt_result"@, last.shape->Tail_0),
            source: last.source,
            inner: last.inner,
        };
        (body.drop_last().push(bound) + hooks).push(
            made(ShapeView::Tail(ExprView::Name("__hijekt_result"@))),
        )
    } else {
        body + hooks
    }
}

/// The original body after removal of the targets, behind the opening hooks
/// and followed by the `end` hooks, if there are any.
pub open spec fn mutated_body(c: ConfigView, args: Seq<Seq<char>>, body: Seq<StmtView>) -> Seq<StmtView> {
    let b = opening(c, args) + pruned(body, c.rm.to_set());
    if c.end.len() > 0 {
        with_end_hooks(b, c.end)
    } else {
        b
    }
}

/// The body of the transformed variant of a function.
pub open spec fn transformed_body(
    c: ConfigView,
    params: Seq<Param>,
    has_return: bool,
    body: Seq<StmtView>,
) -> Seq<StmtView> {
    if c.replace is Some {
        delegated_body(c, forwarded(params), has_return)
    } else {
        mutated_body(c, forwarded(params), body)
    }
}

/// Every name that the function transformer turns into an identifier: the
/// delegate, then the `begin`, `begin_with` and `end` hooks.
pub open spec fn hook_names(c: ConfigView) -> Seq<Seq<char>> {
    (match c.replace {
        Some(n) => seq![n],
        None => Seq::empty(),
    }) + c.begin + c.begin_with + c.end
}

/// Whether each of the first `n` answers is a yes.
pub open spec fn all_accepted(answers: Seq<bool>, n: nat) -> bool {
    forall|i: int| 0 <= i < n ==> accepted(answers, i)
}

/// Whether `i` is the place of the first among `n` answers that is a no.
pub open spec fn first_rejected(answers: Seq<bool>, n: nat, i: int) -> bool {
    &&& 0 <= i < n
    &&& !accepted(answers, i)
    &&& forall|j: int| 0 <= j < i ==> accepted(answers, j)
}

/// The place of the first among `n` answers that is a no, if there is one.
pub fn find_rejected(answers: &Vec<bool>, n: usize) -> (r: Option<usize>)
    ensures
        match r {
            Some(i) => first_rejected(answers@, n as nat, i as int),
            None => all_accepted(answers@, n as nat),
        },
{
    let mut i: usize = 0;
    while i < n
        invariant
            i <= n,
            all_accepted(answers@, i as nat),
        decreases n - i,
    {
        if !(i < answers.len() && answers[i]) {
            return Some(i);
        }
        i += 1;
    }
    None
}

/// Asks the parser of each name whether it is an identifier.
pub fn ident_answers(names: &Vec<String>) -> (r: Vec<bool>)
    ensures
        r@.len() == names@.len(),
{
    let mut out: Vec<bool> = Vec::new();
    let mut i: usize = 0;
    while i < names.len()
        invariant
            i <= names.len(),
            out@.len() == i,
        decreases names.len() - i,
    {
        out.push(parses_as_ident(names[i].as_str()));
        i += 1;
    }
    out
}

/// The names under which a function's parameters are forwarded.
pub fn forward_args(params: &Vec<Param>) -> (r: Vec<String>)
    ensures
        texts(r@) == forwarded(params@),
{
    let mut out: Vec<String> = Vec::new();
    let mut i: usize = 0;
    proof {
        assert(texts(out@) =~= forwarded_prefix(params@, 0));
    }
    while i < params.len()
        invariant
            i <= params.len(),
            texts(out@) == forwarded_prefix(params@, i as nat),
        decreases params.len() - i,
    {
        let ghost before = out@;
        match &params[i] {
            Param::Receiver => {
                out.push(String::from_str("self"));
                proof {
                    assert(texts(out@) =~= texts(before).push("self"@));
                }
            },
            Param::Named(x) => {
                out.push(x.clone());
                proof {
                    assert(texts(out@) =~= texts(before).push(x@));
                }
            },
            Param::Pattern => {},
        }
        i += 1;
    }
    out
}

/// A statement that stands for no source statement.
pub fn make(shape: Shape) -> (r: Stmt)
    ensures
        r@ == made(shape@),
{
    let r = Stmt { shape, source: 0, inner: Vec::new() };
    proof {
        lemma_inner_view(r);
        assert(r@.inner =~= Seq::empty());
    }
    r
}

/// Appends to `out` one call statement per name, each with the arguments `args`.
pub fn push_calls(out: &mut Vec<Stmt>, names: &Vec<String>, args: &Vec<String>, by_ref: bool)
    ensures
        stmts_view(final(out)@) == stmts_view(old(out)@) + calls(
            texts(names@),
            texts(args@),
            by_ref,
        ),
{
    let ghost all = calls(texts(names@), texts(args@), by_ref);
    let mut i: usize = 0;
    proof {
        assert(stmts_view(out@) =~= stmts_view(old(out)@) + all.take(0));
    }
    while i < names.len()
        invariant
            i <= names.len(),
            all == calls(texts(names@), texts(args@), by_ref),
            stmts_view(out@) == stmts_view(old(out)@) + all.take(i as int),
        decreases names.len() - i,
    {
        let ghost before = out@;
        let s = make(
            Shape::Run(Expr::Call { callee: names[i].clone(), args: clone_texts(args), by_ref }),
        );
        out.push(s);
        proof {
            assert(s@ == all[i as int]);
            assert(stmts_view(out@) =~= stmts_view(before).push(s@));
            assert(all.take(i + 1) =~= all.take(i as int).push(all[i as int]));
            assert(stmts_view(out@) =~= stmts_view(old(out)@) + all.take(i + 1));
        }
        i += 1;
    }
    proof {
        assert(all.take(names.len() as int) =~= all);
    }
}

/// Appends the `end` hooks to a body, keeping the value that the body yields.
pub fn inject_at_end(block: &mut Vec<Stmt>, end_fns: &Vec<String>)
    ensures
        stmts_view(final(block)@) == with_end_hooks(stmts_view(old(block)@), texts(end_fns@)),
{
    let ghost before = stmts_view(block@);
    let none: Vec<String> = Vec::new();
    proof {
        assert(texts(none@) =~= Seq::empty());
    }
    let n = block.len();
    let tail = n > 0 && match &block[n - 1].shape {
        Shape::Tail(_) => true,
        _ => false,
    };
    if tail {
        let last = block.pop().unwrap();
        proof {
            lemma_inner_view(last);
            assert(stmts_view(block@) =~= before.drop_last());
            assert(last@ == before.last());
        }
        let Stmt { shape, source, inner } = last;
        let bound = match shape {
            Shape::Tail(e) => Stmt {
                shape: Shape::Capture(String::from_str("__hijekt_result"), e),
                source,
                inner,
            },
            other => Stmt { shape: other, source, inner },
        };
        proof {
            lemma_inner_view(bound);
        }
        let ghost kept = block@;
        block.push(bound);
        proof {
            assert(stmts_view(block@) =~= stmts_view(kept).push(bound@));
        }
        push_calls(block, end_fns, &none, false);
        let y = make(Shape::Tail(Expr::Name(String::from_str("__hijekt_result"))));
        let ghost mid = block@;
        block.push(y);
        proof {
            assert(stmts_view(block@) =~= stmts_view(mid).push(y@));
        }
    } else {
        push_calls(block, end_fns, &none, false);
    }
}

/// The names that the transformer turns into identifiers, in the order of
/// `hook_names`.
fn collect_hook_names(config: &HijektConfig) -> (r: Vec<String>)
    ensures
        texts(r@) == hook_names(config@),
{
    let mut names: Vec<String> = Vec::new();
    match &config.replace {
        Some(n) => {
            names.push(n.clone());
        },
        None => {},
    }
    let ghost head = names@;
    append_texts(&mut names, &config.begin);
    append_texts(&mut names, &config.begin_with);
    append_texts(&mut names, &config.end);
    proof {
        assert(texts(head) =~= match config@.replace {
            Some(n) => seq![n],
            None => Seq::empty(),
        });
        assert(texts(names@) =~= texts(head) + texts(config.begin@) + texts(config.begin_with@)
            + texts(config.end@));
    }
    names
}

/// The body of the transformed variant of `func` under `config`.
pub fn build_body(config: &HijektConfig, func: &FnDecl) -> (body: Vec<Stmt>)
    ensures
        stmts_view(body@) == transformed_body(
            config@,
            func.params@,
            func.has_return,
            stmts_view(func.body@),
        ),
{
    let args = forward_args(&func.params);
    let none: Vec<String> = Vec::new();
    proof {
        assert(texts(none@) =~= Seq::empty());
    }
    let mut body: Vec<Stmt> = Vec::new();
    proof {
        assert(stmts_view(body@) =~= Seq::empty());
    }
    push_calls(&mut body, &config.begin, &none, false);
    push_calls(&mut body, &config.begin_with, &args, true);
    proof {
        assert(stmts_view(body@) =~= opening(config@, texts(args@)));
    }
    match &config.replace {
        Some(target) => {
            let call = Expr::Call { callee: target.clone(), args: clone_texts(&args), by_ref: false };
            let ghost head = body@;
            if !func.has_return {
                let s = make(Shape::Run(call));
                body.push(s);
                proof {
                    assert(stmts_view(body@) =~= stmts_view(head).push(s@));
                }
                push_calls(&mut body, &config.end, &none, false);
            } else if config.end.len() > 0 {
                let s = make(Shape::Capture(String::from_str("__result"), call));
                body.push(s);
                proof {
                    assert(stmts_view(body@) =~= stmts_view(head).push(s@));
                }
                push_calls(&mut body, &config.end, &none, false);
                let y = make(Shape::Tail(Expr::Name(String::from_str("__result"))));
                let ghost mid = body@;
                body.push(y);
                proof {
                    assert(stmts_view(body@) =~= stmts_view(mid).push(y@));
                }
            } else {
                let s = make(Shape::Tail(call));
                body.push(s);
                proof {
                    assert(stmts_view(body@) =~= stmts_view(head).push(s@));
                }
            }
        },
        None => {
            let mut rest = prune(&func.body, &config.rm);
            let ghost head = body@;
            let ghost tail = rest@;
            body.append(&mut rest);
            proof {
                assert(stmts_view(body@) =~= stmts_view(head) + stmts_view(tail));
            }
            if config.end.len() > 0 {
                inject_at_end(&mut body, &config.end);
            }
        },
    }
    body
}

/// Under every configuration the transformed body opens with the `begin`
/// hooks in declared order, then the `begin_with` hooks in declared order,
/// ahead of every statement that comes from the given body.
pub proof fn lemma_hooks_lead(c: ConfigView, params: Seq<Param>, has_return: bool, body: Seq<StmtView>)
    ensures
        ({
            let out = transformed_body(c, params, has_return, body);
            let args = forwarded(params);
            &&& out.len() >= c.begin.len() + c.begin_with.len()
            &&& forall|i: int|
                0 <= i < c.begin.len() ==> out[i] == made(
                    ShapeView::Run(
                        ExprView::Call { callee: c.begin[i], args: Seq::empty(), by_ref: false },
                    ),
                )
            &&& forall|i: int|
                0 <= i < c.begin_with.len() ==> out[c.begin.len() + i] == made(
                    ShapeView::Run(ExprView::Call { callee: c.begin_with[i], args, by_ref: true }),
                )
        }),
{
    let args = forwarded(params);
    let head = opening(c, args);
    assert(head.len() == c.begin.len() + c.begin_with.len());
    assert forall|i: int| 0 <= i < head.len() implies (#[trigger] head[i]).shape is Run by {}
    if c.replace is None && c.end.len() > 0 {
        let b = head + pruned(body, c.rm.to_set());
        if b.len() > 0 && b.last().shape is Tail {
            assert(b.len() > head.len()) by {
                if b.len() == head.len() {
                    assert(b.last() == head[head.len() - 1]);
                }
            }
        }
    }
}

/// Whether `r` is what the function transformer owes for `func` under `c`,
/// where `answers` says of each hook name, in the order of `hook_names`,
/// whether it is an identifier: where each is, the transformed body beside
/// the function as it was given; else the first name that is none.
pub open spec fn function_decided(
    c: ConfigView,
    func: FnDecl,
    answers: Seq<bool>,
    r: Result<Emission, ConfigError>,
) -> bool {
    let names = hook_names(c);
    if all_accepted(answers, names.len()) {
        &&& r matches Ok(Emission::Function { feature, body, original })
        &&& feature@ == c.feat
        &&& original == func
        &&& stmts_view(body@) == transformed_body(
            c,
            func.params@,
            func.has_return,
            stmts_view(func.body@),
        )
    } else {
        &&& r matches Err(ConfigError::BadIdentifier(n))
        &&& exists|i: int| first_rejected(answers, names.len(), i) && n@ == names[i]
    }
}

/// Whether `r` is what the function transformer owes for `func` under `c`,
/// whatever the parser says of the hook names.
pub open spec fn function_emitted(c: ConfigView, func: FnDecl, r: Result<Emission, ConfigError>) -> bool {
    exists|answers: Seq<bool>|
        answers.len() == hook_names(c).len() && #[trigger] function_decided(c, func, answers, r)
}

/// Transforms a function, given for each hook name whether it is an
/// identifier; a missing answer is a no. With a delegate, the new body calls
/// the delegate between the hooks; without one, it is the given body with
/// the targets removed and the hooks injected. The function as it was given
/// is kept for the inactive feature. A name that is no identifier is
/// rejected: the error holds the first such name.
pub fn decide_function(config: HijektConfig, func: FnDecl, answers: &Vec<bool>) -> (r: Result<
    Emission,
    ConfigError,
>)
    ensures
        function_decided(config@, func, answers@, r),
        r is Ok ==> (r->Ok_0 matches Emission::Function { feature, .. } && feature == config.feat),
{
    let names = collect_hook_names(&config);
    match find_rejected(answers, names.len()) {
        Some(i) => {
            proof {
                assert(!accepted(answers@, i as int));
                assert(texts(names@)[i as int] == names@[i as int]@);
            }
            return Err(ConfigError::BadIdentifier(names[i].clone()));
        },
        None => {},
    }
    let body = build_body(&config, &func);
    Ok(Emission::Function { feature: config.feature_flag(), body, original: func })
}

/// Transforms a function: asks the parser of the delegate and of every hook
/// name, in the order of `hook_names`, whether it is an identifier, and
/// goes by the answers. Without such names the transformed body is owed.
pub fn handle_function(config: HijektConfig, func: FnDecl) -> (r: Result<Emission, ConfigError>)
    ensures
        function_emitted(config@, func, r),
        hook_names(config@).len() == 0 ==> r is Ok,
        r matches Ok(e) ==> {
            &&& e matches Emission::Function { feature, body, original }
            &&& feature == config.feat
            &&& original == func
            &&& stmts_view(body@) == transformed_body(
                config@,
                func.params@,
                func.has_return,
                stmts_view(func.body@),
            )
        },
        r matches Err(e) ==> {
            &&& e matches ConfigError::BadIdentifier(n)
            &&& hook_names(config@).contains(n@)
        },
{
    let names = collect_hook_names(&config);
    let answers = ident_answers(&names);
    let r = decide_function(config, func, &answers);
    proof {
        if r is Err {
            let n = r->Err_0->BadIdentifier_0;
            let i = choose|i: int|
                first_rejected(answers@, hook_names(config@).len(), i) && n@ == hook_names(
                    config@,
                )[i];
            assert(hook_names(config@)[i] == n@);
        }
    }
    r
}

} // verus!
