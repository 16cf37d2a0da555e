//! Scope-aware removal of nested declarations and bindings.

use vstd::prelude::*;
use crate::text::{texts, contains_text};
use crate::tree::{Shape, ShapeView, Stmt, StmtView, stmts_view, clone_shape, lemma_inner_view};

verus! {

/// Whether a statement of this shape declares or binds one of the targets.
pub open spec fn is_target(shape: ShapeView, targets: Set<Seq<char>>) -> bool {
    match shape {
        ShapeView::NestedFn(n) => targets.contains(n),
        ShapeView::Binding(n) => targets.contains(n),
        _ => false,
    }
}

/// The first `n` statements of `b` after removal: statements that declare or
/// bind a target are gone, the others stay in order, and the same has been
/// done to every sequence nested in them.
pub open spec fn pruned_prefix(b: Seq<StmtView>, targets: Set<Seq<char>>, n: nat) -> Seq<StmtView>
    decreases b, n,
{
    if n == 0 || n > b.len() {
        Seq::empty()
    } else {
        let rest = pruned_prefix(b, targets, (n - 1) as nat);
        let s = b[n - 1];
        if is_target(s.shape, targets) {
            rest
        } else {
            rest.push(
                StmtView {
                    shape: s.shape,
                    source: s.source,
                    inner: pruned_prefix(s.inner, targets, s.inner.len()),
                },
            )
        }
    }
}

/// A statement sequence after removal of the targets at every depth.
pub open spec fn pruned(b: Seq<StmtView>, targets: Set<Seq<char>>) -> Seq<StmtView> {
    pruned_prefix(b, targets, b.len())
}

/// After removal no statement of the sequence declares or binds a target.
pub proof fn lemma_targets_gone(b: Seq<StmtView>, targets: Set<Seq<char>>, n: nat)
    ensures
        forall|j: int|
            0 <= j < pruned_prefix(b, targets, n).len() ==> !is_target(
                (#[trigger] pruned_prefix(b, targets, n)[j]).shape,
                targets,
            ),
    decreases n,
{
    if n != 0 && n <= b.len() {
        lemma_targets_gone(b, targets, (n - 1) as nat);
    }
}

/// Whether none of the first `n` statements, nor any statement nested in
/// them at any depth, declares or binds a target.
pub open spec fn target_free_prefix(b: Seq<StmtView>, targets: Set<Seq<char>>, n: nat) -> bool
    decreases b, n,
{
    if n == 0 || n > b.len() {
        true
    } else {
        &&& target_free_prefix(b, targets, (n - 1) as nat)
        &&& !is_target(b[n - 1].shape, targets)
        &&& target_free_prefix(b[n - 1].inner, targets, b[n - 1].inner.len())
    }
}

/// Where no statement at any depth declares or binds a target, removal
/// changes nothing: the result equals the given sequence, whatever the
/// statements refer to.
pub proof fn lemma_others_stay(b: Seq<StmtView>, targets: Set<Seq<char>>, n: nat)
    requires
        n <= b.len(),
        target_free_prefix(b, targets, n),
    ensures
        pruned_prefix(b, targets, n) == b.take(n as int),
        n == b.len() ==> pruned(b, targets) == b,
    decreases b, n,
{
    if n == 0 {
        assert(b.take(0) =~= Seq::<StmtView>::empty());
    } else {
        let s = b[n - 1];
        lemma_others_stay(b, targets, (n - 1) as nat);
        lemma_others_stay(s.inner, targets, s.inner.len());
        assert(s.inner.take(s.inner.len() as int) =~= s.inner);
        assert(b.take(n as int) =~= b.take(n - 1).push(s));
    }
    if n == b.len() {
        assert(b.take(n as int) =~= b);
    }
}

/// Whether a statement of this shape declares or binds one of `targets`.
pub fn names_target(shape: &Shape, targets: &Vec<String>) -> (r: bool)
    ensures
        r == is_target(shape@, texts(targets@).to_set()),
{
    match shape {
        Shape::NestedFn(n) => contains_text(targets, n),
        Shape::Binding(n) => contains_text(targets, n),
        _ => false,
    }
}

/// A copy of a statement sequence without the nested function declarations
/// and the bindings named by `targets`, at every depth. Other statements
/// stay, whatever they refer to.
pub fn prune(stmts: &Vec<Stmt>, targets: &Vec<String>) -> (r: Vec<Stmt>)
    ensures
        stmts_view(r@) == pruned(stmts_view(stmts@), texts(targets@).to_set()),
    decreases stmts,
{
    let ghost goal = texts(targets@).to_set();
    let ghost before = stmts_view(stmts@);
    let mut out: Vec<Stmt> = Vec::new();
    let mut i: usize = 0;
    while i < stmts.len()
        invariant
            i <= stmts.len(),
            goal == texts(targets@).to_set(),
            before == stmts_view(stmts@),
            stmts_view(out@) == pruned_prefix(before, goal, i as nat),
        decreases stmts.len() - i,
    {
        let s = &stmts[i];
        if !names_target(&s.shape, targets) {
            let inner = prune(&s.inner, targets);
            let kept = Stmt { shape: clone_shape(&s.shape), source: s.source, inner };
            proof {
                lemma_inner_view(*s);
                lemma_inner_view(kept);
                assert(stmts_view(out@.push(kept)) =~= stmts_view(out@).push(kept@));
            }
            out.push(kept);
        }
        i += 1;
    }
    out
}

/// Removes declarations and bindings by name.
#[derive(Debug, Clone, PartialEq, Eq)]
pub struct ItemRemover {
    pub targets: Vec<String>,
}

impl ItemRemover {
    /// Removes from `block`, and from every sequence nested in it, the
    /// nested function declarations and the bindings named by the targets.
    pub fn visit_block_mut(&self, block: &mut Vec<Stmt>)
        ensures
            stmts_view(final(block)@) == pruned(stmts_view(old(block)@), texts(self.targets@).to_set()),
    {
        let kept = prune(block, &self.targets);
        *block = kept;
    }
}

} // verus!
