use checker::check;
use checker::ctx::{Ctx, RootCtx, Scope};
use checker::data::{Diagnostic, DiagnosticKind, Expr, Fun, Pos, Ty, Var, WithPos};
use checker::subtype::{is_subtype, join};
use checker::type_of;

fn example() -> (WithPos<Expr>, Ty, WithPos<Expr>) {
    let num_with_pos = Expr::Number(20).positioned(Pos(1, 4));
    let target = num_with_pos.clone();
    let fun = Fun {
        param: Var("x".to_string()),
        param_ty: Ty::Str,
        ret_ty: Ty::Num,
        body: Box::new(
            Expr::If {
                cond: Box::new(Expr::Var(Var("x".to_string())).positioned(Pos(0, 3))),
                true_branch: Box::new(num_with_pos),
                false_branch: Box::new(Expr::False.positioned(Pos(2, 4))),
            }
            .positioned(Pos(0, 0)),
        ),
    };
    let exp_ty = fun.ret_ty.clone();
    let expr = Expr::Fun(fun).positioned(Pos(0, 0));
    (expr, exp_ty, target)
}

#[test]
fn test_scopes() {
    let root = RootCtx::new(true, None);
    let mut ctx: Ctx = root.enter();
    ctx.insert("a".to_string(), Ty::Num);
    let mut branches: Vec<Scope> = Vec::new();
    for _n in [1, 2, 3] {
        ctx.enter();
        ctx.insert("a".to_string(), Ty::Bool);
        branches.push(ctx.exit());
    }
    ctx.join(branches);
    println!("{:?}", ctx);
    assert_eq!(ctx.get(&"a".to_string()), Some(Ty::Bool));
}

#[test]
fn scope_isolation() {
    let root = RootCtx::new(true, None);
    let mut ctx: Ctx = root.enter();
    ctx.insert("outer".to_string(), Ty::Num);
    ctx.enter();
    ctx.insert("inner".to_string(), Ty::Bool);
    assert_eq!(ctx.get(&"outer".to_string()), Some(Ty::Num));
    assert_eq!(ctx.get(&"inner".to_string()), Some(Ty::Bool));
    ctx.exit();
    assert_eq!(ctx.get(&"outer".to_string()), Some(Ty::Num));
    assert_eq!(ctx.get(&"inner".to_string()), None);
}

#[test]
fn insert_shadows_in_same_scope() {
    let root = RootCtx::new(true, None);
    let mut ctx: Ctx = root.enter();
    ctx.insert("a".to_string(), Ty::Num);
    ctx.insert("a".to_string(), Ty::Str);
    assert_eq!(ctx.get(&"a".to_string()), Some(Ty::Str));
}

#[test]
fn inner_scope_shadows_outer() {
    let root = RootCtx::new(true, None);
    let mut ctx: Ctx = root.enter();
    ctx.insert("a".to_string(), Ty::Num);
    ctx.enter();
    ctx.insert("a".to_string(), Ty::Bool);
    assert_eq!(ctx.get(&"a".to_string()), Some(Ty::Bool));
    ctx.exit();
    assert_eq!(ctx.get(&"a".to_string()), Some(Ty::Num));
}

#[test]
fn join_of_equal_types_is_identity() {
    let u = Ty::Union(Box::new(Ty::Num), Box::new(Ty::Str));
    assert_eq!(join(&Ty::Num, &Ty::Num), Ty::Num);
    assert_eq!(join(&u, &u), u);
}

#[test]
fn join_of_distinct_atoms_is_union_in_order() {
    let joined = join(&Ty::Num, &Ty::Str);
    assert_eq!(joined, Ty::Union(Box::new(Ty::Num), Box::new(Ty::Str)));
    let other = join(&Ty::Str, &Ty::Num);
    assert_eq!(other, Ty::Union(Box::new(Ty::Str), Box::new(Ty::Num)));
}

#[test]
fn subtype_rules_on_union_and_branches() {
    let u = Ty::Union(Box::new(Ty::Num), Box::new(Ty::Str));
    assert!(is_subtype(&Ty::Num, &u));
    assert!(is_subtype(&Ty::Str, &u));
    assert!(!is_subtype(&u, &Ty::Num));
    assert!(!is_subtype(&u, &Ty::Str));
    assert!(is_subtype(&u, &u));
    assert!(!is_subtype(&Ty::Num, &Ty::Str));
}

#[test]
fn check_well_typed_number_is_clean() {
    let e = Expr::Number(1).positioned(Pos(0, 0));
    assert!(check(&e, Ty::Num).is_empty());
}

#[test]
fn check_well_typed_block_is_clean() {
    let e = Expr::Block {
        non_empty_exprs: vec![
            Expr::Number(1).positioned(Pos(0, 0)),
            Expr::Number(2).positioned(Pos(1, 0)),
        ],
    }
    .positioned(Pos(0, 0));
    assert!(check(&e, Ty::Num).is_empty());
}

#[test]
fn check_assign_binds_for_later_use() {
    let e = Expr::Block {
        non_empty_exprs: vec![
            Expr::Assign(
                Box::new(Var("x".to_string())),
                Box::new(Expr::Number(3).positioned(Pos(0, 4))),
            )
            .positioned(Pos(0, 0)),
            Expr::Var(Var("x".to_string())).positioned(Pos(1, 0)),
        ],
    }
    .positioned(Pos(0, 0));
    assert!(check(&e, Ty::Num).is_empty());
}

#[test]
fn check_unbound_var_yields_single_unbound_diagnostic() {
    let e = Expr::Var(Var("y".to_string())).positioned(Pos(0, 0));
    let diags = check(&e, Ty::Num);
    assert_eq!(diags.len(), 1);
    assert_eq!(
        diags[0].kind,
        DiagnosticKind::UnboundVar { name: "y".to_string() }
    );
    assert_eq!(diags[0].expr_with_pos, e);
}

#[test]
fn scenario_fun_with_mismatched_cond_and_branch() {
    let (expr, exp_ty, _target) = example();
    let diags = check(&expr, exp_ty);
    assert_eq!(diags.len(), 3);
    assert_eq!(
        diags[0],
        Diagnostic {
            kind: DiagnosticKind::ExpectedTy { expected: Ty::Bool, got: Ty::Str },
            expr_with_pos: Expr::Var(Var("x".to_string())).positioned(Pos(0, 3)),
        }
    );
    assert_eq!(
        diags[1],
        Diagnostic {
            kind: DiagnosticKind::ExpectedTy { expected: Ty::Num, got: Ty::Bool },
            expr_with_pos: Expr::False.positioned(Pos(2, 4)),
        }
    );
    assert_eq!(
        diags[2].kind,
        DiagnosticKind::ExpectedTy { expected: Ty::Num, got: Ty::Bool }
    );
    assert_eq!(diags[2].expr_with_pos.pos, Pos(0, 0));
}

#[test]
fn scenario_type_of_number_in_fun_tree() {
    let (expr, exp_ty, target) = example();
    let ty = type_of(&expr, exp_ty, target);
    assert_eq!(ty, Ty::Num);
}

#[test]
fn scenario_block_checked_against_bool() {
    let number = Expr::Number(1).positioned(Pos(0, 0));
    let e = Expr::Block {
        non_empty_exprs: vec![number.clone(), Expr::True.positioned(Pos(1, 0))],
    }
    .positioned(Pos(0, 0));
    let diags = check(&e, Ty::Bool);
    assert_eq!(diags.len(), 1);
    assert_eq!(
        diags[0],
        Diagnostic {
            kind: DiagnosticKind::ExpectedTy { expected: Ty::Bool, got: Ty::Num },
            expr_with_pos: number,
        }
    );
}

#[test]
fn type_of_root_matches_inferred_type() {
    let e = Expr::Number(5).positioned(Pos(2, 7));
    let ty = type_of(&e, Ty::Num, e.clone());
    assert_eq!(ty, Ty::Num);
    let b = Expr::Block {
        non_empty_exprs: vec![Expr::True.positioned(Pos(0, 1))],
    }
    .positioned(Pos(0, 0));
    assert_eq!(type_of(&b, Ty::Bool, b.clone()), Ty::Bool);
}

#[test]
fn type_of_assign_target_inside_block() {
    let assign = Expr::Assign(
        Box::new(Var("x".to_string())),
        Box::new(Expr::Number(3).positioned(Pos(0, 4))),
    )
    .positioned(Pos(0, 0));
    let e = Expr::Block {
        non_empty_exprs: vec![assign.clone(), Expr::Var(Var("x".to_string())).positioned(Pos(1, 0))],
    }
    .positioned(Pos(0, 0));
    assert_eq!(type_of(&e, Ty::Num, assign), Ty::Num);
}

#[test]
fn check_if_without_fun_reports_each_mismatch() {
    let e = Expr::If {
        cond: Box::new(Expr::True.positioned(Pos(0, 1))),
        true_branch: Box::new(Expr::Number(1).positioned(Pos(0, 2))),
        false_branch: Box::new(Expr::Number(2).positioned(Pos(0, 3))),
    }
    .positioned(Pos(0, 0));
    assert!(check(&e, Ty::Num).is_empty());
}

#[test]
fn render_types() {
    assert_eq!(Ty::Bool.render(), "bool");
    assert_eq!(Ty::Num.render(), "num");
    assert_eq!(Ty::Str.render(), "str");
    assert_eq!(Ty::ProducedDiagnostic.render(), "ERROR");
    let u = Ty::Union(Box::new(Ty::Num), Box::new(Ty::Str));
    assert_eq!(u.render(), "(num | str)");
    assert_eq!(u.render_quoted(), "Union(Num, Str)");
}

#[test]
fn render_expressions_and_positions() {
    assert_eq!(Expr::Number(20).render(), "20");
    assert_eq!(Expr::Number(-5).render(), "-5");
    assert_eq!(Expr::True.render(), "True");
    assert_eq!(Expr::Var(Var("x".to_string())).render(), "'x'");
    assert_eq!(
        Expr::Block { non_empty_exprs: vec![Expr::True.positioned(Pos(0, 0))] }.render(),
        "block"
    );
    assert_eq!(Pos(0, 3).render(), "line 1 col 3");
    assert_eq!(Pos(1, 4).render(), "line 2 col 4");
}

#[test]
fn render_diagnostic() {
    let d = Diagnostic {
        kind: DiagnosticKind::ExpectedTy { expected: Ty::Bool, got: Ty::Str },
        expr_with_pos: Expr::Var(Var("x".to_string())).positioned(Pos(0, 3)),
    };
    assert_eq!(
        d.render(),
        "line 1 col 3: Expected Bool, got Str for expression 'x'"
    );
    let u = Diagnostic {
        kind: DiagnosticKind::UnboundVar { name: "y".to_string() },
        expr_with_pos: Expr::Var(Var("y".to_string())).positioned(Pos(4, 2)),
    };
    assert_eq!(u.render(), "line 5 col 2: unbound var y for expression 'y'");
}

#[test]
fn take_diagnostics_round_trip() {
    let root = RootCtx::new(false, None);
    let ctx: Ctx = root.enter();
    let diags = ctx.leave().take_diagnostics();
    assert!(diags.is_empty());
}

#[test]
fn poisoned_type_suppresses_mismatch_cascade() {
    // the unbound variable poisons the block's type: one diagnostic in all
    let e = Expr::Block {
        non_empty_exprs: vec![Expr::Var(Var("y".to_string())).positioned(Pos(0, 0))],
    }
    .positioned(Pos(0, 0));
    let diags = check(&e, Ty::Num);
    assert_eq!(diags.len(), 1);
    assert!(matches!(
        diags[0].kind,
        DiagnosticKind::UnboundVar { .. }
    ));
}

#[test]
fn subtype_union_on_left_follows_its_own_branches() {
    // the left-union rule compares the union's own branches with each
    // other, so a nested union whose branches accept one another narrows
    // into anything; a type is a subtype of a union only when one of the
    // union's branches accepts it
    let u = Ty::Union(Box::new(Ty::Num), Box::new(Ty::Str));
    let nested = Ty::Union(Box::new(Ty::Num), Box::new(u.clone()));
    assert!(is_subtype(&nested, &Ty::Bool));
    assert!(!is_subtype(&Ty::Bool, &u));
}

#[test]
fn render_numbers_many_digits() {
    assert_eq!(Expr::Number(1234).render(), "1234");
    assert_eq!(Expr::Number(0).render(), "0");
    assert_eq!(Expr::Number(i32::MIN).render(), "-2147483648");
    assert_eq!(Expr::Number(i32::MAX).render(), "2147483647");
    assert_eq!(Pos(99, 100).render(), "line 100 col 100");
}

#[test]
fn render_nested_union() {
    let u = Ty::Union(
        Box::new(Ty::Bool),
        Box::new(Ty::Union(Box::new(Ty::Num), Box::new(Ty::Str))),
    );
    assert_eq!(u.render(), "(bool | (num | str))");
    assert_eq!(u.render_quoted(), "Union(Bool, Union(Num, Str))");
}

#[test]
fn join_across_branches_merges_with_union() {
    let root = RootCtx::new(true, None);
    let mut ctx: Ctx = root.enter();
    let mut branches: Vec<Scope> = Vec::new();
    ctx.enter();
    ctx.insert("a".to_string(), Ty::Num);
    branches.push(ctx.exit());
    ctx.enter();
    ctx.insert("a".to_string(), Ty::Str);
    ctx.insert("b".to_string(), Ty::Bool);
    branches.push(ctx.exit());
    ctx.join(branches);
    // the second branch's type is joined onto the first's
    assert_eq!(
        ctx.get(&"a".to_string()),
        Some(Ty::Union(Box::new(Ty::Str), Box::new(Ty::Num)))
    );
    assert_eq!(ctx.get(&"b".to_string()), Some(Ty::Bool));
}

#[test]
fn well_formedness_of_blocks() {
    let good = Expr::Block {
        non_empty_exprs: vec![Expr::True.positioned(Pos(0, 0))],
    }
    .positioned(Pos(0, 0));
    assert!(good.is_well_formed());
    let bad = Expr::Block { non_empty_exprs: vec![] }.positioned(Pos(0, 0));
    assert!(!bad.is_well_formed());
    let nested_bad = Expr::If {
        cond: Box::new(Expr::True.positioned(Pos(0, 1))),
        true_branch: Box::new(Expr::Block { non_empty_exprs: vec![] }.positioned(Pos(0, 2))),
        false_branch: Box::new(Expr::False.positioned(Pos(0, 3))),
    }
    .positioned(Pos(0, 0));
    assert!(!nested_bad.is_well_formed());
}

#[test]
fn if_without_expected_type_propagates_true_branch() {
    // inside a block with no expected type the false branch is checked
    // against the true branch's type
    let e = Expr::If {
        cond: Box::new(Expr::True.positioned(Pos(0, 1))),
        true_branch: Box::new(Expr::Number(1).positioned(Pos(0, 2))),
        false_branch: Box::new(Expr::True.positioned(Pos(0, 3))),
    }
    .positioned(Pos(0, 0));
    // checked top-level with expected Num: the false branch mismatches, and
    // so does the if node itself
    let diags = check(&e, Ty::Num);
    assert_eq!(diags.len(), 2);
    assert_eq!(
        diags[0].kind,
        DiagnosticKind::ExpectedTy { expected: Ty::Num, got: Ty::Bool }
    );
    assert_eq!(diags[0].expr_with_pos.pos, Pos(0, 3));
    assert_eq!(
        diags[1].kind,
        DiagnosticKind::ExpectedTy { expected: Ty::Num, got: Ty::Bool }
    );
    assert_eq!(diags[1].expr_with_pos.pos, Pos(0, 0));
}
