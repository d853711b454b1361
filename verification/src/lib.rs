use vstd::prelude::*;
use vstd::pervasive::unreached;

pub mod data;
pub mod subtype;
pub mod ctx;
pub mod laws;
pub mod render;

use crate::ctx::{Ctx, CtxV, RootCtx, spec_lookup, view_look_for};
use crate::data::{
    Diagnostic, DiagnosticKind, DiagnosticKindV, DiagV, Expr, ExprV, FoundTy, NodeV, Ty, WithPos,
    lemma_view_nodes, node_clone, ty_eq, view_node, view_nodes, wf_node, wf_nodes,
};

verus! {

/// The outcome of traversing one node: the type inferred for it, or the
/// query target's type signalled out of the traversal.
pub enum Outcome {
    Done(Ty),
    Found(Ty),
}

/// A mismatch is reported only between two concrete types that differ:
/// the poisoned sentinel suppresses it on either side.
pub open spec fn has_ty_mismatch(t1: Ty, t2: Ty) -> bool {
    &&& !(t1 is ProducedDiagnostic)
    &&& !(t2 is ProducedDiagnostic)
    &&& t1 != t2
}

/// A diagnostic is recorded only when the context diagnoses.
pub open spec fn record(st: CtxV, d: DiagV) -> CtxV {
    if st.diagnose {
        CtxV { diags: st.diags.push(d), ..st }
    } else {
        st
    }
}

/// The mismatch check run after a node: a successfully inferred type that
/// differs from the expected one, neither poisoned, is reported against
/// the node.
pub open spec fn mismatch_step(
    st: CtxV,
    res: Result<Ty, FoundTy>,
    exp: Option<Ty>,
    node: NodeV,
) -> CtxV {
    match (res, exp) {
        (Ok(ty), Some(et)) => {
            if has_ty_mismatch(ty, et) {
                record(
                    st,
                    DiagV {
                        kind: DiagnosticKindV::ExpectedTy { expected: et, got: ty },
                        expr_with_pos: node,
                    },
                )
            } else {
                st
            }
        },
        _ => st,
    }
}

/// The cross-cutting tail of every node: the query short-circuit first,
/// then the mismatch check.
pub open spec fn finish(st: CtxV, e: NodeV, exp: Option<Ty>, ty: Ty) -> (CtxV, Outcome) {
    if st.look_for == Some(e) {
        (st, Outcome::Found(ty))
    } else {
        (mismatch_step(st, Result::<Ty, FoundTy>::Ok(ty), exp, e), Outcome::Done(ty))
    }
}

/// The traversal itself, as a mathematical function from context state,
/// node and expected type to the state after the node and its outcome.
/// A `Found` outcome aborts the traversal: it passes through every
/// enclosing node untouched.
pub open spec fn spec_run(st: CtxV, e: NodeV, exp: Option<Ty>) -> (CtxV, Outcome)
    decreases e, 0nat,
{
    match e.item {
        ExprV::Assign { var, rhs } => {
            let (st1, o) = spec_run(st, *rhs, exp);
            match o {
                Outcome::Found(t) => (st1, Outcome::Found(t)),
                Outcome::Done(ty) => {
                    let st2 = CtxV {
                        scopes: st1.scopes.update(
                            st1.scopes.len() - 1,
                            st1.scopes.last().insert(var, ty),
                        ),
                        ..st1
                    };
                    finish(st2, e, exp, ty)
                },
            }
        },
        ExprV::If { cond, true_branch, false_branch } => {
            let (st1, o1) = spec_run(st, *cond, Some(Ty::Bool));
            match o1 {
                Outcome::Found(t) => (st1, Outcome::Found(t)),
                Outcome::Done(_) => {
                    let (st2, o2) = spec_run(st1, *true_branch, exp);
                    match o2 {
                        Outcome::Found(t) => (st2, Outcome::Found(t)),
                        Outcome::Done(t_ty) => {
                            let fexp = match exp {
                                Some(t0) => t0,
                                None => t_ty,
                            };
                            let (st3, o3) = spec_run(st2, *false_branch, Some(fexp));
                            match o3 {
                                Outcome::Found(t) => (st3, Outcome::Found(t)),
                                Outcome::Done(f_ty) => finish(st3, e, exp, f_ty),
                            }
                        },
                    }
                },
            }
        },
        ExprV::True => finish(st, e, exp, Ty::Bool),
        ExprV::False => finish(st, e, exp, Ty::Bool),
        ExprV::Number(_) => finish(st, e, exp, Ty::Num),
        ExprV::Var(name) => match spec_lookup(st.scopes, name) {
            Some(ty) => finish(st, e, exp, ty),
            None => {
                let st1 = record(
                    st,
                    DiagV { kind: DiagnosticKindV::UnboundVar { name }, expr_with_pos: e },
                );
                finish(st1, e, exp, Ty::ProducedDiagnostic)
            },
        },
        ExprV::Block { exprs } => {
            let (st1, o) = spec_run_seq(st, exprs, 0, exp);
            match o {
                Outcome::Found(t) => (st1, Outcome::Found(t)),
                Outcome::Done(ty) => finish(st1, e, exp, ty),
            }
        },
        ExprV::Fun(f) => {
            let st1 = CtxV {
                scopes: st.scopes.push(Map::<Seq<char>, Ty>::empty().insert(f.param, f.param_ty)),
                ..st
            };
            let (st2, o) = spec_run(st1, *f.body, Some(f.ret_ty));
            let st3 = CtxV { scopes: st2.scopes.drop_last(), ..st2 };
            match o {
                Outcome::Found(t) => (st3, Outcome::Found(t)),
                Outcome::Done(_) => finish(st3, e, exp, f.ret_ty),
            }
        },
    }
}

/// The elements of a block from index `i` on, each under the same expected
/// type; the block's type is the last element's.
pub open spec fn spec_run_seq(st: CtxV, es: Seq<NodeV>, i: int, exp: Option<Ty>) -> (CtxV, Outcome)
    decreases es, es.len() - i,
{
    if i < 0 || i >= es.len() {
        (st, Outcome::Done(Ty::ProducedDiagnostic))
    } else {
        let (st1, o) = spec_run(st, es[i], exp);
        match o {
            Outcome::Found(t) => (st1, Outcome::Found(t)),
            Outcome::Done(ty) => {
                if i == es.len() - 1 {
                    (st1, Outcome::Done(ty))
                } else {
                    spec_run_seq(st1, es, i + 1, exp)
                }
            },
        }
    }
}

/// How the executable result mirrors the traversal outcome.
pub open spec fn outcome_matches(r: Result<Ty, FoundTy>, o: Outcome) -> bool {
    match o {
        Outcome::Done(t) => r == Result::<Ty, FoundTy>::Ok(t),
        Outcome::Found(t) => r == Result::<Ty, FoundTy>::Err(FoundTy(t)),
    }
}

/// Copies an optional expected type.
fn opt_ty_clone(t: &Option<Ty>) -> (r: Option<Ty>)
    ensures
        r == *t,
{
    match t {
        Some(ty) => Some(ty.clone()),
        None => None,
    }
}

/// Decides whether a mismatch is to be reported between an inferred and an
/// expected type.
fn ty_mismatch(t1: &Ty, t2: &Ty) -> (r: bool)
    ensures
        r == has_ty_mismatch(*t1, *t2),
{
    match (t1, t2) {
        (Ty::ProducedDiagnostic, _) => false,
        (_, Ty::ProducedDiagnostic) => false,
        _ => !ty_eq(t1, t2),
    }
}

/// Runs the mismatch check after a node.
fn check_for_ty_mismatch(
    ctx: &mut Ctx,
    res: &Result<Ty, FoundTy>,
    exp_ty: Option<Ty>,
    expr_with_pos: WithPos<Expr>,
)
    requires
        old(ctx).wf(),
    ensures
        final(ctx).wf(),
        final(ctx)@ == mismatch_step(old(ctx)@, *res, exp_ty, expr_with_pos@),
{
    match (res, &exp_ty) {
        (Ok(ty), Some(et)) => {
            if ty_mismatch(ty, et) {
                let expected = et.clone();
                let got = ty.clone();
                let ghost dv = (DiagV {
                    kind: DiagnosticKindV::ExpectedTy { expected: expected, got: got },
                    expr_with_pos: expr_with_pos@,
                });
                let f = (move || -> (d: Diagnostic)
                    ensures
                        d@ == dv,
                    {
                        Diagnostic {
                            kind: DiagnosticKind::ExpectedTy { expected, got },
                            expr_with_pos,
                        }
                    });
                ctx.add_diagnostic(f);
                proof {
                    if old(ctx)@.diagnose {
                        let d0 = choose|d: Diagnostic|
                            call_ensures(f, (), d) && ctx@.diags == old(ctx)@.diags.push(d@);
                        assert(d0@ == dv);
                    }
                }
            }
        },
        _ => (),
    }
}

/// The common tail of every node: the query short-circuit, then the
/// mismatch check, then the node's result.
fn finish_node(ctx: &mut Ctx, e_with_pos: &WithPos<Expr>, exp_ty: Option<Ty>, ty: Ty) -> (r:
    Result<Ty, FoundTy>)
    requires
        old(ctx).wf(),
    ensures
        final(ctx).wf(),
        final(ctx)@ == finish(old(ctx)@, e_with_pos@, exp_ty, ty).0,
        outcome_matches(r, finish(old(ctx)@, e_with_pos@, exp_ty, ty).1),
        final(ctx)@.scopes == old(ctx)@.scopes,
        final(ctx)@.diagnose == old(ctx)@.diagnose,
        final(ctx)@.look_for == old(ctx)@.look_for,
{
    if ctx.looking_for(e_with_pos) {
        return Err(FoundTy(ty));
    }
    let ghost ty0 = ty;
    let res: Result<Ty, FoundTy> = Ok(ty);
    check_for_ty_mismatch(ctx, &res, exp_ty, node_clone(e_with_pos));
    res
}

/// One traversal step over a node: infers the node's type bottom-up under
/// the expected type handed down, records bindings and diagnostics in the
/// context, and signals the query target's type out as soon as the target
/// is reached. Only the innermost scope can gain bindings: every outer
/// scope, and the number of scopes, is exactly preserved, so a binding
/// made inside a nested scope is gone once that scope is left.
#[verifier::loop_isolation(false)]
pub fn run(ctx: &mut Ctx, e_with_pos: &WithPos<Expr>, exp_ty: Option<Ty>) -> (r: Result<
    Ty,
    FoundTy,
>)
    requires
        old(ctx).wf(),
        old(ctx)@.scopes.len() >= 1,
        wf_node(e_with_pos@),
    ensures
        final(ctx).wf(),
        final(ctx)@ == spec_run(old(ctx)@, e_with_pos@, exp_ty).0,
        outcome_matches(r, spec_run(old(ctx)@, e_with_pos@, exp_ty).1),
        final(ctx)@.scopes.len() == old(ctx)@.scopes.len(),
        forall|i: int|
            0 <= i < old(ctx)@.scopes.len() - 1 ==> final(ctx)@.scopes[i] == old(
                ctx,
            )@.scopes[i],
        final(ctx)@.diagnose == old(ctx)@.diagnose,
        final(ctx)@.look_for == old(ctx)@.look_for,
    decreases *e_with_pos,
{
    let ghost st0 = ctx@;
    match &e_with_pos.item {
        Expr::Assign(var, expr) => {
            let name = (**var).0.clone();
            let r_rhs = run(ctx, &**expr, opt_ty_clone(&exp_ty));
            match r_rhs {
                Err(ft) => Err(ft),
                Ok(ty) => {
                    let ty2 = ty.clone();
                    ctx.insert(name, ty2);
                    finish_node(ctx, e_with_pos, exp_ty, ty)
                },
            }
        },
        Expr::If { cond, true_branch, false_branch } => {
            let r_cond = run(ctx, &**cond, Some(Ty::Bool));
            match r_cond {
                Err(ft) => Err(ft),
                Ok(_) => {
                    let r_true = run(ctx, &**true_branch, opt_ty_clone(&exp_ty));
                    match r_true {
                        Err(ft) => Err(ft),
                        Ok(t_ty) => {
                            let fexp = match &exp_ty {
                                Some(t0) => t0.clone(),
                                None => t_ty,
                            };
                            let r_false = run(ctx, &**false_branch, Some(fexp));
                            match r_false {
                                Err(ft) => Err(ft),
                                Ok(f_ty) => finish_node(ctx, e_with_pos, exp_ty, f_ty),
                            }
                        },
                    }
                },
            }
        },
        Expr::True => finish_node(ctx, e_with_pos, exp_ty, Ty::Bool),
        Expr::False => finish_node(ctx, e_with_pos, exp_ty, Ty::Bool),
        Expr::Number(_) => finish_node(ctx, e_with_pos, exp_ty, Ty::Num),
        Expr::Var(v) => {
            match ctx.get(&v.0) {
                Some(ty) => finish_node(ctx, e_with_pos, exp_ty, ty),
                None => {
                    let ghost dv = (DiagV {
                        kind: DiagnosticKindV::UnboundVar { name: v.0@ },
                        expr_with_pos: e_with_pos@,
                    });
                    let name_c = v.0.clone();
                    let node_c = node_clone(e_with_pos);
                    let f = (move || -> (d: Diagnostic)
                        ensures
                            d@ == dv,
                        {
                            Diagnostic {
                                kind: DiagnosticKind::UnboundVar { name: name_c },
                                expr_with_pos: node_c,
                            }
                        });
                    ctx.add_diagnostic(f);
                    proof {
                        if st0.diagnose {
                            let d0 = choose|d: Diagnostic|
                                call_ensures(f, (), d) && ctx@.diags == st0.diags.push(d@);
                            assert(d0@ == dv);
                        }
                    }
                    finish_node(ctx, e_with_pos, exp_ty, Ty::ProducedDiagnostic)
                },
            }
        },
        Expr::Block { non_empty_exprs } => {
            let ghost es = view_nodes(non_empty_exprs@);
            proof {
                lemma_view_nodes(non_empty_exprs@);
            }
            let n = non_empty_exprs.len();
            let mut j: usize = 0;
            while j + 1 < n
                invariant
                    n == non_empty_exprs@.len(),
                    n >= 1,
                    j < n,
                    ctx.wf(),
                    ctx@.scopes.len() == st0.scopes.len(),
                    forall|i: int| 0 <= i < st0.scopes.len() - 1 ==> ctx@.scopes[i] == st0.scopes[i],
                    ctx@.diagnose == st0.diagnose,
                    ctx@.look_for == st0.look_for,
                    spec_run_seq(st0, es, 0, exp_ty) == spec_run_seq(ctx@, es, j as int, exp_ty),
                decreases n - j,
            {
                proof {
                    broadcast use vstd::std_specs::vec::group_vec_axioms;

                    assert(decreases_to!(*e_with_pos => e_with_pos.item));
                    assert(decreases_to!(e_with_pos.item => (e_with_pos.item)->Block_non_empty_exprs));
                    assert(decreases_to!((e_with_pos.item)->Block_non_empty_exprs
                        => non_empty_exprs@[j as int]));
                    assert(wf_nodes(es));
                    assert(es[j as int] == view_node(non_empty_exprs@[j as int]));
                    assert(wf_node(es[j as int]));
                }
                let r_j = run(ctx, &non_empty_exprs[j], opt_ty_clone(&exp_ty));
                match r_j {
                    Err(ft) => {
                        return Err(ft);
                    },
                    Ok(_) => {
                    },
                }
                j = j + 1;
            }
            proof {
                broadcast use vstd::std_specs::vec::group_vec_axioms;

                assert(decreases_to!(*e_with_pos => e_with_pos.item));
                assert(decreases_to!(e_with_pos.item => (e_with_pos.item)->Block_non_empty_exprs));
                assert(decreases_to!((e_with_pos.item)->Block_non_empty_exprs
                    => non_empty_exprs@[j as int]));
                assert(wf_nodes(es));
                assert(es[j as int] == view_node(non_empty_exprs@[j as int]));
                assert(wf_node(es[j as int]));
            }
            let r_last = run(ctx, &non_empty_exprs[j], opt_ty_clone(&exp_ty));
            match r_last {
                Err(ft) => Err(ft),
                Ok(ty) => finish_node(ctx, e_with_pos, exp_ty, ty),
            }
        },
        Expr::Fun(f) => {
            ctx.enter();
            ctx.insert(f.param.0.clone(), f.param_ty.clone());
            proof {
                assert(ctx@.scopes =~= st0.scopes.push(
                    Map::<Seq<char>, Ty>::empty().insert(f.param@, f.param_ty),
                ));
                assert(ctx@ =~= (CtxV {
                    scopes: st0.scopes.push(
                        Map::<Seq<char>, Ty>::empty().insert(f.param@, f.param_ty),
                    ),
                    ..st0
                }));
            }
            let r_body = run(ctx, &*f.body, Some(f.ret_ty.clone()));
            let _inner = ctx.exit();
            match r_body {
                Err(ft) => Err(ft),
                Ok(_) => finish_node(ctx, e_with_pos, exp_ty, f.ret_ty.clone()),
            }
        },
    }
}

/// The state every traversal starts from: one empty scope, no diagnostics.
pub open spec fn init_ctx(diagnose: bool, look_for: Option<NodeV>) -> CtxV {
    CtxV {
        scopes: seq![Map::<Seq<char>, Ty>::empty()],
        diags: Seq::empty(),
        diagnose,
        look_for,
    }
}

/// Without a query target the traversal never signals a found type, and
/// the target setting is carried through unchanged.
pub proof fn lemma_run_no_target(st: CtxV, e: NodeV, exp: Option<Ty>)
    ensures
        spec_run(st, e, exp).0.look_for == st.look_for,
        st.look_for is None ==> spec_run(st, e, exp).1 is Done,
    decreases e, 0nat,
{
    match e.item {
        ExprV::Assign { var, rhs } => {
            lemma_run_no_target(st, *rhs, exp);
        },
        ExprV::If { cond, true_branch, false_branch } => {
            lemma_run_no_target(st, *cond, Some(Ty::Bool));
            let (st1, o1) = spec_run(st, *cond, Some(Ty::Bool));
            if o1 is Done {
                lemma_run_no_target(st1, *true_branch, exp);
                let (st2, o2) = spec_run(st1, *true_branch, exp);
                match o2 {
                    Outcome::Done(t_ty) => {
                        let fexp = match exp {
                            Some(t0) => t0,
                            None => t_ty,
                        };
                        lemma_run_no_target(st2, *false_branch, Some(fexp));
                    },
                    Outcome::Found(_) => {
                    },
                }
            }
        },
        ExprV::True => {
        },
        ExprV::False => {
        },
        ExprV::Number(_) => {
        },
        ExprV::Var(_) => {
        },
        ExprV::Block { exprs } => {
            lemma_run_seq_no_target(st, exprs, 0, exp);
        },
        ExprV::Fun(f) => {
            let st1 = CtxV {
                scopes: st.scopes.push(Map::<Seq<char>, Ty>::empty().insert(f.param, f.param_ty)),
                ..st
            };
            lemma_run_no_target(st1, *f.body, Some(f.ret_ty));
        },
    }
}

/// The block-sequence form of the statement above.
pub proof fn lemma_run_seq_no_target(st: CtxV, es: Seq<NodeV>, i: int, exp: Option<Ty>)
    ensures
        spec_run_seq(st, es, i, exp).0.look_for == st.look_for,
        st.look_for is None ==> spec_run_seq(st, es, i, exp).1 is Done,
    decreases es, es.len() - i,
{
    if 0 <= i < es.len() {
        lemma_run_no_target(st, es[i], exp);
        let (st1, o) = spec_run(st, es[i], exp);
        if o is Done && i != es.len() - 1 {
            lemma_run_seq_no_target(st1, es, i + 1, exp);
        }
    }
}

/// Runs a whole traversal: a fresh context with the given diagnose toggle
/// and query target, one root scope, the tree, the expected type.
fn run_with_mode(
    e: &WithPos<Expr>,
    diagnose: bool,
    look_for: Option<WithPos<Expr>>,
    exp_ty: Ty,
) -> (r: Result<Vec<Diagnostic>, FoundTy>)
    requires
        wf_node(e@),
    ensures
        ({
            let (st1, o) = spec_run(init_ctx(diagnose, view_look_for(look_for)), e@, Some(exp_ty));
            match o {
                Outcome::Done(_) => r matches Ok(ds) && ds@.map_values(|d: Diagnostic| d@)
                    == st1.diags,
                Outcome::Found(t) => r == Result::<Vec<Diagnostic>, FoundTy>::Err(FoundTy(t)),
            }
        }),
{
    let ghost lf = view_look_for(look_for);
    let root = RootCtx::new(diagnose, look_for);
    let mut c = root.enter();
    proof {
        assert(c@.scopes =~= init_ctx(diagnose, lf).scopes);
        assert(c@ =~= init_ctx(diagnose, lf));
    }
    let res = run(&mut c, e, Some(exp_ty));
    let root2 = c.leave();
    proof {
        assert(root2@.diags == spec_run(init_ctx(diagnose, lf), e@, Some(exp_ty)).0.diags);
    }
    match res {
        Ok(_) => Ok(root2.take_diagnostics()),
        Err(ft) => Err(ft),
    }
}

/// The diagnostics a full check of the tree against the expected type
/// records.
pub open spec fn spec_check(e: NodeV, ret_ty: Ty) -> Seq<DiagV> {
    spec_run(init_ctx(true, None), e, Some(ret_ty)).0.diags
}

/// Checks the tree against the expected type, with diagnostics on and no
/// query target: returns exactly the diagnostics the traversal records,
/// in traversal order. An empty result means the tree has no type errors.
pub fn check(e_with_pos: &WithPos<Expr>, ret_ty: Ty) -> (r: Vec<Diagnostic>)
    requires
        wf_node(e_with_pos@),
    ensures
        r@.map_values(|d: Diagnostic| d@) == spec_check(e_with_pos@, ret_ty),
{
    proof {
        lemma_run_no_target(init_ctx(true, None), e_with_pos@, Some(ret_ty));
    }
    match run_with_mode(e_with_pos, true, None, ret_ty) {
        Ok(ds) => ds,
        Err(_) => unreached(),
    }
}

/// Runs the traversal with diagnostics off and the query target set, and
/// returns the type the traversal infers for the target node. The caller
/// owes a tree whose traversal reaches the target: on any other input the
/// operation has no answer and the program stops as on a broken internal
/// contract.
pub fn type_of(e_with_pos: &WithPos<Expr>, ret_ty: Ty, target: WithPos<Expr>) -> (r: Ty)
    requires
        wf_node(e_with_pos@),
        spec_run(init_ctx(false, Some(target@)), e_with_pos@, Some(ret_ty)).1 is Found,
    ensures
        spec_run(init_ctx(false, Some(target@)), e_with_pos@, Some(ret_ty)).1 == Outcome::Found(
            r,
        ),
{
    match run_with_mode(e_with_pos, false, Some(target), ret_ty) {
        Err(ft) => {
            let FoundTy(ty) = ft;
            ty
        },
        Ok(_) => unreached(),
    }
}

} // verus!
