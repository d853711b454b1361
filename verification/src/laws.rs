use vstd::prelude::*;
use crate::ctx::{CtxV, spec_lookup};
use crate::data::{DiagnosticKindV, DiagV, ExprV, NodeV, Ty};
use crate::{Outcome, has_ty_mismatch, init_ctx, spec_check, spec_run, spec_run_seq};

verus! {

/// Whether the inferred type of a node passes against its expected type.
pub open spec fn node_ok(exp: Option<Ty>, ty: Ty) -> bool {
    match exp {
        Some(et) => !has_ty_mismatch(ty, et),
        None => true,
    }
}

/// The diagnostic-free inference pass: the scopes after the node, the type
/// inferred for it, and whether the whole subtree is well typed — every
/// subexpression's inferred type passing against its expected type and
/// every variable bound.
pub open spec fn infer(sc: Seq<Map<Seq<char>, Ty>>, e: NodeV, exp: Option<Ty>) -> (
    Seq<Map<Seq<char>, Ty>>,
    Ty,
    bool,
)
    decreases e, 0nat,
{
    match e.item {
        ExprV::Assign { var, rhs } => {
            let (sc1, ty, ok) = infer(sc, *rhs, exp);
            let sc2 = sc1.update(sc1.len() - 1, sc1.last().insert(var, ty));
            (sc2, ty, ok && node_ok(exp, ty))
        },
        ExprV::If { cond, true_branch, false_branch } => {
            let (sc1, ty1, ok1) = infer(sc, *cond, Some(Ty::Bool));
            let (sc2, ty2, ok2) = infer(sc1, *true_branch, exp);
            let fexp = match exp {
                Some(t0) => t0,
                None => ty2,
            };
            let (sc3, ty3, ok3) = infer(sc2, *false_branch, Some(fexp));
            (sc3, ty3, ok1 && ok2 && ok3 && node_ok(exp, ty3))
        },
        ExprV::True => (sc, Ty::Bool, node_ok(exp, Ty::Bool)),
        ExprV::False => (sc, Ty::Bool, node_ok(exp, Ty::Bool)),
        ExprV::Number(_) => (sc, Ty::Num, node_ok(exp, Ty::Num)),
        ExprV::Var(name) => match spec_lookup(sc, name) {
            Some(ty) => (sc, ty, node_ok(exp, ty)),
            None => (sc, Ty::ProducedDiagnostic, false),
        },
        ExprV::Block { exprs } => {
            let (sc1, ty, ok) = infer_seq(sc, exprs, 0, exp);
            (sc1, ty, ok && node_ok(exp, ty))
        },
        ExprV::Fun(f) => {
            let sc1 = sc.push(Map::<Seq<char>, Ty>::empty().insert(f.param, f.param_ty));
            let (sc2, _, ok) = infer(sc1, *f.body, Some(f.ret_ty));
            (sc2.drop_last(), f.ret_ty, ok && node_ok(exp, f.ret_ty))
        },
    }
}

/// The inference pass over a block's elements from index `i` on.
pub open spec fn infer_seq(sc: Seq<Map<Seq<char>, Ty>>, es: Seq<NodeV>, i: int, exp: Option<Ty>) -> (
    Seq<Map<Seq<char>, Ty>>,
    Ty,
    bool,
)
    decreases es, es.len() - i,
{
    if i < 0 || i >= es.len() {
        (sc, Ty::ProducedDiagnostic, false)
    } else {
        let (sc1, ty, ok) = infer(sc, es[i], exp);
        if i == es.len() - 1 {
            (sc1, ty, ok)
        } else {
            let (sc2, ty2, ok2) = infer_seq(sc1, es, i + 1, exp);
            (sc2, ty2, ok && ok2)
        }
    }
}

/// Whether the node `t` occurs anywhere in the tree `e`, the root included.
pub open spec fn occurs(t: NodeV, e: NodeV) -> bool
    decreases e, 0nat,
{
    t == e || match e.item {
        ExprV::Assign { var, rhs } => occurs(t, *rhs),
        ExprV::If { cond, true_branch, false_branch } => occurs(t, *cond) || occurs(
            t,
            *true_branch,
        ) || occurs(t, *false_branch),
        ExprV::True => false,
        ExprV::False => false,
        ExprV::Number(_) => false,
        ExprV::Var(_) => false,
        ExprV::Block { exprs } => occurs_seq(t, exprs, 0),
        ExprV::Fun(f) => occurs(t, *f.body),
    }
}

/// Whether the node `t` occurs in any element of `es` from index `i` on.
pub open spec fn occurs_seq(t: NodeV, es: Seq<NodeV>, i: int) -> bool
    decreases es, es.len() - i,
{
    if i < 0 || i >= es.len() {
        false
    } else {
        occurs(t, es[i]) || occurs_seq(t, es, i + 1)
    }
}

/// Whether an optional query target occurs in the tree.
pub open spec fn occurs_opt(t: Option<NodeV>, e: NodeV) -> bool {
    match t {
        Some(x) => occurs(x, e),
        None => false,
    }
}

/// Whether an optional query target occurs in any element from index `i` on.
pub open spec fn occurs_seq_opt(t: Option<NodeV>, es: Seq<NodeV>, i: int) -> bool {
    match t {
        Some(x) => occurs_seq(x, es, i),
        None => false,
    }
}

/// The number of nodes in a tree.
pub open spec fn node_size(e: NodeV) -> nat
    decreases e, 0nat,
{
    1 + match e.item {
        ExprV::Assign { var, rhs } => node_size(*rhs),
        ExprV::If { cond, true_branch, false_branch } => node_size(*cond) + node_size(*true_branch)
            + node_size(*false_branch),
        ExprV::True => 0,
        ExprV::False => 0,
        ExprV::Number(_) => 0,
        ExprV::Var(_) => 0,
        ExprV::Block { exprs } => size_seq(exprs, 0),
        ExprV::Fun(f) => node_size(*f.body),
    }
}

/// The number of nodes in a block's elements from index `i` on.
pub open spec fn size_seq(es: Seq<NodeV>, i: int) -> nat
    decreases es, es.len() - i,
{
    if i < 0 || i >= es.len() {
        0
    } else {
        node_size(es[i]) + size_seq(es, i + 1)
    }
}

/// A node occurring in a tree is no larger than the tree.
pub proof fn lemma_occurs_size(t: NodeV, e: NodeV)
    requires
        occurs(t, e),
    ensures
        node_size(t) <= node_size(e),
    decreases e, 0nat,
{
    if t != e {
        match e.item {
            ExprV::Assign { var, rhs } => {
                lemma_occurs_size(t, *rhs);
            },
            ExprV::If { cond, true_branch, false_branch } => {
                if occurs(t, *cond) {
                    lemma_occurs_size(t, *cond);
                } else if occurs(t, *true_branch) {
                    lemma_occurs_size(t, *true_branch);
                } else {
                    lemma_occurs_size(t, *false_branch);
                }
            },
            ExprV::Block { exprs } => {
                lemma_occurs_size_seq(t, exprs, 0);
            },
            ExprV::Fun(f) => {
                lemma_occurs_size(t, *f.body);
            },
            _ => {
            },
        }
    }
}

/// The sequence form of the statement above.
pub proof fn lemma_occurs_size_seq(t: NodeV, es: Seq<NodeV>, i: int)
    requires
        occurs_seq(t, es, i),
    ensures
        node_size(t) <= size_seq(es, i),
    decreases es, es.len() - i,
{
    if 0 <= i < es.len() {
        if occurs(t, es[i]) {
            lemma_occurs_size(t, es[i]);
        } else {
            lemma_occurs_size_seq(t, es, i + 1);
        }
    }
}

/// A well-typed tree that nowhere holds the query target is traversed
/// without recording a diagnostic and without signalling: the traversal
/// only performs the inference pass's scope updates and returns its type.
pub proof fn lemma_run_well_typed(st: CtxV, e: NodeV, exp: Option<Ty>)
    requires
        infer(st.scopes, e, exp).2,
        !occurs_opt(st.look_for, e),
    ensures
        spec_run(st, e, exp).0 == (CtxV { scopes: infer(st.scopes, e, exp).0, ..st }),
        spec_run(st, e, exp).1 == Outcome::Done(infer(st.scopes, e, exp).1),
    decreases e, 0nat,
{
    assert(st.look_for != Some(e));
    match e.item {
        ExprV::Assign { var, rhs } => {
            lemma_run_well_typed(st, *rhs, exp);
            assert(spec_run(st, e, exp).0 =~= (CtxV { scopes: infer(st.scopes, e, exp).0, ..st }));
        },
        ExprV::If { cond, true_branch, false_branch } => {
            lemma_run_well_typed(st, *cond, Some(Ty::Bool));
            let st1 = CtxV { scopes: infer(st.scopes, *cond, Some(Ty::Bool)).0, ..st };
            lemma_run_well_typed(st1, *true_branch, exp);
            let st2 = CtxV { scopes: infer(st1.scopes, *true_branch, exp).0, ..st1 };
            let t_ty = infer(st1.scopes, *true_branch, exp).1;
            let fexp = match exp {
                Some(t0) => t0,
                None => t_ty,
            };
            lemma_run_well_typed(st2, *false_branch, Some(fexp));
            assert(spec_run(st, e, exp).0 =~= (CtxV { scopes: infer(st.scopes, e, exp).0, ..st }));
        },
        ExprV::True => {
            assert(spec_run(st, e, exp).0 =~= (CtxV { scopes: infer(st.scopes, e, exp).0, ..st }));
        },
        ExprV::False => {
            assert(spec_run(st, e, exp).0 =~= (CtxV { scopes: infer(st.scopes, e, exp).0, ..st }));
        },
        ExprV::Number(_) => {
            assert(spec_run(st, e, exp).0 =~= (CtxV { scopes: infer(st.scopes, e, exp).0, ..st }));
        },
        ExprV::Var(_) => {
            assert(spec_run(st, e, exp).0 =~= (CtxV { scopes: infer(st.scopes, e, exp).0, ..st }));
        },
        ExprV::Block { exprs } => {
            lemma_run_seq_well_typed(st, exprs, 0, exp);
            assert(spec_run(st, e, exp).0 =~= (CtxV { scopes: infer(st.scopes, e, exp).0, ..st }));
        },
        ExprV::Fun(f) => {
            let st1 = CtxV {
                scopes: st.scopes.push(Map::<Seq<char>, Ty>::empty().insert(f.param, f.param_ty)),
                ..st
            };
            lemma_run_well_typed(st1, *f.body, Some(f.ret_ty));
            assert(spec_run(st, e, exp).0 =~= (CtxV { scopes: infer(st.scopes, e, exp).0, ..st }));
        },
    }
}

/// The block-sequence form of the statement above.
pub proof fn lemma_run_seq_well_typed(st: CtxV, es: Seq<NodeV>, i: int, exp: Option<Ty>)
    requires
        infer_seq(st.scopes, es, i, exp).2,
        !occurs_seq_opt(st.look_for, es, i),
    ensures
        spec_run_seq(st, es, i, exp).0 == (CtxV {
            scopes: infer_seq(st.scopes, es, i, exp).0,
            ..st
        }),
        spec_run_seq(st, es, i, exp).1 == Outcome::Done(infer_seq(st.scopes, es, i, exp).1),
    decreases es, es.len() - i,
{
    if 0 <= i < es.len() {
        lemma_run_well_typed(st, es[i], exp);
        if i != es.len() - 1 {
            let st1 = CtxV { scopes: infer(st.scopes, es[i], exp).0, ..st };
            lemma_run_seq_well_typed(st1, es, i + 1, exp);
            assert(spec_run_seq(st, es, i, exp).0 =~= (CtxV {
                scopes: infer_seq(st.scopes, es, i, exp).0,
                ..st
            }));
        }
    }
}

/// For all well-typed trees — the inference pass succeeds on the whole
/// tree, so every subexpression's inferred type passes against its
/// expected type and every variable is bound — the check records no
/// diagnostics at all.
pub proof fn lemma_check_well_typed(e: NodeV, ret_ty: Ty)
    requires
        infer(init_ctx(true, None).scopes, e, Some(ret_ty)).2,
    ensures
        spec_check(e, ret_ty) == Seq::<DiagV>::empty(),
{
    lemma_run_well_typed(init_ctx(true, None), e, Some(ret_ty));
}

/// An unbound variable node yields exactly one diagnostic, the unbound
/// variable one, and never a mismatch diagnostic for the same node,
/// whatever type was expected of it: the poisoned type it takes suppresses
/// the mismatch check.
pub proof fn lemma_unbound_var_single_diagnostic(st: CtxV, e: NodeV, exp: Option<Ty>, name: Seq<
    char,
>)
    requires
        e.item == ExprV::Var(name),
        spec_lookup(st.scopes, name) is None,
        st.diagnose,
        st.look_for != Some(e),
    ensures
        spec_run(st, e, exp).0.diags == st.diags.push(
            DiagV { kind: DiagnosticKindV::UnboundVar { name }, expr_with_pos: e },
        ),
        spec_run(st, e, exp).1 == Outcome::Done(Ty::ProducedDiagnostic),
        spec_run(st, e, exp).0.scopes == st.scopes,
{
}

/// How many misses an optional miss slot holds.
pub open spec fn miss_count(m: Option<DiagV>) -> nat {
    if m is Some {
        1
    } else {
        0
    }
}

/// The first of two miss slots, the other allowed only when empty.
pub open spec fn merge_miss(a: Option<DiagV>, b: Option<DiagV>) -> Option<DiagV> {
    if a is Some {
        a
    } else {
        b
    }
}

/// The inference pass allowing unbound variables: the scopes after the
/// node, the type inferred (the poisoned type standing in for a missing
/// variable's), the unbound-variable diagnostic the pass would record, and
/// whether the pass succeeds — at most one variable unbound in the whole
/// tree, and every mismatch check passing.
pub open spec fn infer_miss(sc: Seq<Map<Seq<char>, Ty>>, e: NodeV, exp: Option<Ty>) -> (
    Seq<Map<Seq<char>, Ty>>,
    Ty,
    Option<DiagV>,
    bool,
)
    decreases e, 0nat,
{
    match e.item {
        ExprV::Assign { var, rhs } => {
            let (sc1, ty, m, ok) = infer_miss(sc, *rhs, exp);
            let sc2 = sc1.update(sc1.len() - 1, sc1.last().insert(var, ty));
            (sc2, ty, m, ok && node_ok(exp, ty))
        },
        ExprV::If { cond, true_branch, false_branch } => {
            let (sc1, ty1, m1, ok1) = infer_miss(sc, *cond, Some(Ty::Bool));
            let (sc2, ty2, m2, ok2) = infer_miss(sc1, *true_branch, exp);
            let fexp = match exp {
                Some(t0) => t0,
                None => ty2,
            };
            let (sc3, ty3, m3, ok3) = infer_miss(sc2, *false_branch, Some(fexp));
            (
                sc3,
                ty3,
                merge_miss(m1, merge_miss(m2, m3)),
                ok1 && ok2 && ok3 && node_ok(exp, ty3) && miss_count(m1) + miss_count(m2)
                    + miss_count(m3) <= 1,
            )
        },
        ExprV::True => (sc, Ty::Bool, None, node_ok(exp, Ty::Bool)),
        ExprV::False => (sc, Ty::Bool, None, node_ok(exp, Ty::Bool)),
        ExprV::Number(_) => (sc, Ty::Num, None, node_ok(exp, Ty::Num)),
        ExprV::Var(name) => match spec_lookup(sc, name) {
            Some(ty) => (sc, ty, None, node_ok(exp, ty)),
            None => (
                sc,
                Ty::ProducedDiagnostic,
                Some(DiagV { kind: DiagnosticKindV::UnboundVar { name }, expr_with_pos: e }),
                true,
            ),
        },
        ExprV::Block { exprs } => {
            let (sc1, ty, m, ok) = infer_miss_seq(sc, exprs, 0, exp);
            (sc1, ty, m, ok && node_ok(exp, ty))
        },
        ExprV::Fun(f) => {
            let sc1 = sc.push(Map::<Seq<char>, Ty>::empty().insert(f.param, f.param_ty));
            let (sc2, _, m, ok) = infer_miss(sc1, *f.body, Some(f.ret_ty));
            (sc2.drop_last(), f.ret_ty, m, ok && node_ok(exp, f.ret_ty))
        },
    }
}

/// The pass above over a block's elements from index `i` on.
pub open spec fn infer_miss_seq(
    sc: Seq<Map<Seq<char>, Ty>>,
    es: Seq<NodeV>,
    i: int,
    exp: Option<Ty>,
) -> (Seq<Map<Seq<char>, Ty>>, Ty, Option<DiagV>, bool)
    decreases es, es.len() - i,
{
    if i < 0 || i >= es.len() {
        (sc, Ty::ProducedDiagnostic, None, false)
    } else {
        let (sc1, ty, m, ok) = infer_miss(sc, es[i], exp);
        if i == es.len() - 1 {
            (sc1, ty, m, ok)
        } else {
            let (sc2, ty2, m2, ok2) = infer_miss_seq(sc1, es, i + 1, exp);
            (sc2, ty2, merge_miss(m, m2), ok && ok2 && miss_count(m) + miss_count(m2) <= 1)
        }
    }
}

/// A tree on which the miss-allowing inference pass succeeds, and that
/// nowhere holds the query target, is traversed recording exactly the one
/// unbound-variable diagnostic the pass names — or none when every
/// variable is bound — and never a mismatch diagnostic.
pub proof fn lemma_run_one_miss(st: CtxV, e: NodeV, exp: Option<Ty>)
    requires
        infer_miss(st.scopes, e, exp).3,
        !occurs_opt(st.look_for, e),
        st.diagnose,
    ensures
        spec_run(st, e, exp).0 == (CtxV {
            scopes: infer_miss(st.scopes, e, exp).0,
            diags: match infer_miss(st.scopes, e, exp).2 {
                None => st.diags,
                Some(d) => st.diags.push(d),
            },
            ..st
        }),
        spec_run(st, e, exp).1 == Outcome::Done(infer_miss(st.scopes, e, exp).1),
    decreases e, 0nat,
{
    assert(st.look_for != Some(e));
    match e.item {
        ExprV::Assign { var, rhs } => {
            lemma_run_one_miss(st, *rhs, exp);
            assert(spec_run(st, e, exp).0 =~= (CtxV {
                scopes: infer_miss(st.scopes, e, exp).0,
                diags: match infer_miss(st.scopes, e, exp).2 {
                    None => st.diags,
                    Some(d) => st.diags.push(d),
                },
                ..st
            }));
        },
        ExprV::If { cond, true_branch, false_branch } => {
            lemma_run_one_miss(st, *cond, Some(Ty::Bool));
            let st1 = spec_run(st, *cond, Some(Ty::Bool)).0;
            lemma_run_one_miss(st1, *true_branch, exp);
            let st2 = spec_run(st1, *true_branch, exp).0;
            let t_ty = infer_miss(st1.scopes, *true_branch, exp).1;
            let fexp = match exp {
                Some(t0) => t0,
                None => t_ty,
            };
            lemma_run_one_miss(st2, *false_branch, Some(fexp));
            assert(spec_run(st, e, exp).0 =~= (CtxV {
                scopes: infer_miss(st.scopes, e, exp).0,
                diags: match infer_miss(st.scopes, e, exp).2 {
                    None => st.diags,
                    Some(d) => st.diags.push(d),
                },
                ..st
            }));
        },
        ExprV::True => {
            assert(spec_run(st, e, exp).0 =~= st);
        },
        ExprV::False => {
            assert(spec_run(st, e, exp).0 =~= st);
        },
        ExprV::Number(_) => {
            assert(spec_run(st, e, exp).0 =~= st);
        },
        ExprV::Var(name) => {
            match spec_lookup(st.scopes, name) {
                Some(_) => {
                    assert(spec_run(st, e, exp).0 =~= st);
                },
                None => {
                    assert(spec_run(st, e, exp).0 =~= (CtxV {
                        diags: st.diags.push(
                            DiagV {
                                kind: DiagnosticKindV::UnboundVar { name },
                                expr_with_pos: e,
                            },
                        ),
                        ..st
                    }));
                },
            }
        },
        ExprV::Block { exprs } => {
            lemma_run_seq_one_miss(st, exprs, 0, exp);
            assert(spec_run(st, e, exp).0 =~= (CtxV {
                scopes: infer_miss(st.scopes, e, exp).0,
                diags: match infer_miss(st.scopes, e, exp).2 {
                    None => st.diags,
                    Some(d) => st.diags.push(d),
                },
                ..st
            }));
        },
        ExprV::Fun(f) => {
            let st1 = CtxV {
                scopes: st.scopes.push(Map::<Seq<char>, Ty>::empty().insert(f.param, f.param_ty)),
                ..st
            };
            lemma_run_one_miss(st1, *f.body, Some(f.ret_ty));
            assert(spec_run(st, e, exp).0 =~= (CtxV {
                scopes: infer_miss(st.scopes, e, exp).0,
                diags: match infer_miss(st.scopes, e, exp).2 {
                    None => st.diags,
                    Some(d) => st.diags.push(d),
                },
                ..st
            }));
        },
    }
}

/// The block-sequence form of the statement above.
pub proof fn lemma_run_seq_one_miss(st: CtxV, es: Seq<NodeV>, i: int, exp: Option<Ty>)
    requires
        infer_miss_seq(st.scopes, es, i, exp).3,
        !occurs_seq_opt(st.look_for, es, i),
        st.diagnose,
    ensures
        spec_run_seq(st, es, i, exp).0 == (CtxV {
            scopes: infer_miss_seq(st.scopes, es, i, exp).0,
            diags: match infer_miss_seq(st.scopes, es, i, exp).2 {
                None => st.diags,
                Some(d) => st.diags.push(d),
            },
            ..st
        }),
        spec_run_seq(st, es, i, exp).1 == Outcome::Done(infer_miss_seq(st.scopes, es, i, exp).1),
    decreases es, es.len() - i,
{
    if 0 <= i < es.len() {
        lemma_run_one_miss(st, es[i], exp);
        if i != es.len() - 1 {
            let st1 = spec_run(st, es[i], exp).0;
            lemma_run_seq_one_miss(st1, es, i + 1, exp);
            assert(spec_run_seq(st, es, i, exp).0 =~= (CtxV {
                scopes: infer_miss_seq(st.scopes, es, i, exp).0,
                diags: match infer_miss_seq(st.scopes, es, i, exp).2 {
                    None => st.diags,
                    Some(d) => st.diags.push(d),
                },
                ..st
            }));
        }
    }
}

/// For a tree holding exactly one unbound variable reference and otherwise
/// well typed — the miss-allowing inference pass succeeds and names one
/// miss — the check records exactly one diagnostic: the unbound-variable
/// one, for that node, and no mismatch diagnostic referencing that node or
/// any other.
pub proof fn lemma_check_one_unbound(e: NodeV, ret_ty: Ty)
    requires
        infer_miss(init_ctx(true, None).scopes, e, Some(ret_ty)).3,
        infer_miss(init_ctx(true, None).scopes, e, Some(ret_ty)).2 is Some,
    ensures
        ({
            let d = infer_miss(init_ctx(true, None).scopes, e, Some(ret_ty)).2->0;
            &&& spec_check(e, ret_ty) == Seq::<DiagV>::empty().push(d)
            &&& d.kind is UnboundVar
        }),
{
    lemma_run_one_miss(init_ctx(true, None), e, Some(ret_ty));
    lemma_miss_is_unbound(init_ctx(true, None).scopes, e, Some(ret_ty));
}

/// Whatever miss the pass names is an unbound-variable diagnostic.
pub proof fn lemma_miss_is_unbound(sc: Seq<Map<Seq<char>, Ty>>, e: NodeV, exp: Option<Ty>)
    ensures
        infer_miss(sc, e, exp).2 matches Some(d) ==> d.kind is UnboundVar,
    decreases e, 0nat,
{
    match e.item {
        ExprV::Assign { var, rhs } => {
            lemma_miss_is_unbound(sc, *rhs, exp);
        },
        ExprV::If { cond, true_branch, false_branch } => {
            let (sc1, ty1, m1, ok1) = infer_miss(sc, *cond, Some(Ty::Bool));
            let (sc2, ty2, m2, ok2) = infer_miss(sc1, *true_branch, exp);
            let fexp = match exp {
                Some(t0) => t0,
                None => ty2,
            };
            lemma_miss_is_unbound(sc, *cond, Some(Ty::Bool));
            lemma_miss_is_unbound(sc1, *true_branch, exp);
            lemma_miss_is_unbound(sc2, *false_branch, Some(fexp));
        },
        ExprV::Block { exprs } => {
            lemma_miss_seq_is_unbound(sc, exprs, 0, exp);
        },
        ExprV::Fun(f) => {
            let sc1 = sc.push(Map::<Seq<char>, Ty>::empty().insert(f.param, f.param_ty));
            lemma_miss_is_unbound(sc1, *f.body, Some(f.ret_ty));
        },
        _ => {
        },
    }
}

/// The block-sequence form of the statement above.
pub proof fn lemma_miss_seq_is_unbound(
    sc: Seq<Map<Seq<char>, Ty>>,
    es: Seq<NodeV>,
    i: int,
    exp: Option<Ty>,
)
    ensures
        infer_miss_seq(sc, es, i, exp).2 matches Some(d) ==> d.kind is UnboundVar,
    decreases es, es.len() - i,
{
    if 0 <= i < es.len() {
        lemma_miss_is_unbound(sc, es[i], exp);
        if i != es.len() - 1 {
            let sc1 = infer_miss(sc, es[i], exp).0;
            lemma_miss_seq_is_unbound(sc1, es, i + 1, exp);
        }
    }
}

/// With the query target equal to the tree's root, and the tree well
/// typed, the query traversal signals exactly the type the plain check
/// infers for the root — whether or not diagnostics are recorded.
pub proof fn lemma_type_of_root(st: CtxV, e: NodeV, exp: Option<Ty>)
    requires
        infer(st.scopes, e, exp).2,
        st.look_for == Some(e),
    ensures
        spec_run(st, e, exp).1 == Outcome::Found(infer(st.scopes, e, exp).1),
    decreases e, 0nat,
{
    assert forall|c: NodeV| node_size(c) < node_size(e) implies !occurs(e, c) by {
        if occurs(e, c) {
            lemma_occurs_size(e, c);
        }
    }
    match e.item {
        ExprV::Assign { var, rhs } => {
            assert(node_size(*rhs) < node_size(e));
            lemma_run_well_typed(st, *rhs, exp);
        },
        ExprV::If { cond, true_branch, false_branch } => {
            assert(node_size(*cond) < node_size(e));
            assert(node_size(*true_branch) < node_size(e));
            assert(node_size(*false_branch) < node_size(e));
            lemma_run_well_typed(st, *cond, Some(Ty::Bool));
            let st1 = CtxV { scopes: infer(st.scopes, *cond, Some(Ty::Bool)).0, ..st };
            lemma_run_well_typed(st1, *true_branch, exp);
            let st2 = CtxV { scopes: infer(st1.scopes, *true_branch, exp).0, ..st1 };
            let t_ty = infer(st1.scopes, *true_branch, exp).1;
            let fexp = match exp {
                Some(t0) => t0,
                None => t_ty,
            };
            lemma_run_well_typed(st2, *false_branch, Some(fexp));
        },
        ExprV::True => {
        },
        ExprV::False => {
        },
        ExprV::Number(_) => {
        },
        ExprV::Var(_) => {
        },
        ExprV::Block { exprs } => {
            assert forall|j: int| 0 <= j < exprs.len() implies node_size(exprs[j]) < node_size(
                e,
            ) by {
                lemma_size_seq_bounds(exprs, 0, j);
            }
            lemma_type_of_root_seq(st, e, exprs, 0, exp);
        },
        ExprV::Fun(f) => {
            assert(node_size(*f.body) < node_size(e));
            let st1 = CtxV {
                scopes: st.scopes.push(Map::<Seq<char>, Ty>::empty().insert(f.param, f.param_ty)),
                ..st
            };
            lemma_run_well_typed(st1, *f.body, Some(f.ret_ty));
        },
    }
}

/// Every element of a block from index `i` on counts into its size.
pub proof fn lemma_size_seq_bounds(es: Seq<NodeV>, i: int, j: int)
    requires
        0 <= i <= j < es.len(),
    ensures
        node_size(es[j]) <= size_seq(es, i),
    decreases j - i,
{
    if i < j {
        lemma_size_seq_bounds(es, i + 1, j);
    }
}

/// The block-sequence form of the root query statement: the root `e` being
/// traversed is the target, and no element of its block holds it.
pub proof fn lemma_type_of_root_seq(st: CtxV, e: NodeV, es: Seq<NodeV>, i: int, exp: Option<Ty>)
    requires
        infer_seq(st.scopes, es, i, exp).2,
        st.look_for == Some(e),
        forall|j: int| 0 <= j < es.len() ==> !occurs(e, #[trigger] es[j]),
    ensures
        spec_run_seq(st, es, i, exp).0 == (CtxV {
            scopes: infer_seq(st.scopes, es, i, exp).0,
            ..st
        }),
        spec_run_seq(st, es, i, exp).1 == Outcome::Done(infer_seq(st.scopes, es, i, exp).1),
    decreases es, es.len() - i,
{
    if 0 <= i < es.len() {
        lemma_run_well_typed(st, es[i], exp);
        if i != es.len() - 1 {
            let st1 = CtxV { scopes: infer(st.scopes, es[i], exp).0, ..st };
            lemma_type_of_root_seq(st1, e, es, i + 1, exp);
            assert(spec_run_seq(st, es, i, exp).0 =~= (CtxV {
                scopes: infer_seq(st.scopes, es, i, exp).0,
                ..st
            }));
        }
    }
}

} // verus!
