use vstd::prelude::*;

verus! {

/// A type of the checked language: the three atoms, a binary (not flattened,
/// not deduplicated) union, and the poisoned sentinel standing for "a
/// diagnostic was already produced for this value".
#[derive(Debug, PartialEq, Eq)]
pub enum Ty {
    Bool,
    Num,
    Str,
    Union(Box<Ty>, Box<Ty>),
    ProducedDiagnostic,
}

/// A source position: 0-based line and column. Two structurally equal
/// expressions at different positions are distinct nodes.
#[derive(Debug, PartialEq, Eq, Clone, Copy, Structural)]
pub struct Pos(pub u32, pub u32);

/// A variable: just its name.
#[derive(Debug, PartialEq, Eq)]
pub struct Var(pub String);

/// A single-argument function literal with declared parameter and return
/// types. The function's own type is its declared return type.
#[derive(Debug, PartialEq, Eq)]
pub struct Fun {
    pub param: Var,
    pub param_ty: Ty,
    pub ret_ty: Ty,
    pub body: Box<WithPos<Expr>>,
}

/// An item together with its source position.
#[derive(Debug, PartialEq, Eq)]
pub struct WithPos<T> {
    pub item: T,
    pub pos: Pos,
}

/// What a diagnostic reports: a type mismatch or an unbound variable.
#[derive(Debug, PartialEq, Eq)]
pub enum DiagnosticKind {
    ExpectedTy { expected: Ty, got: Ty },
    UnboundVar { name: String },
}

/// A recorded type error, tied to the offending expression node.
#[derive(Debug, PartialEq, Eq)]
pub struct Diagnostic {
    pub kind: DiagnosticKind,
    pub expr_with_pos: WithPos<Expr>,
}

/// The carrier of the query-mode result: the type inferred for the target
/// node, signalled out of the traversal as soon as the target is reached.
#[derive(Debug, PartialEq, Eq)]
pub struct FoundTy(pub Ty);

/// An expression of the checked language.
#[derive(Debug, PartialEq, Eq)]
pub enum Expr {
    Assign(Box<Var>, Box<WithPos<Expr>>),
    If {
        cond: Box<WithPos<Expr>>,
        true_branch: Box<WithPos<Expr>>,
        false_branch: Box<WithPos<Expr>>,
    },
    True,
    False,
    Number(i32),
    Var(Var),
    Fun(Fun),
    Block { non_empty_exprs: Vec<WithPos<Expr>> },
}

/// The mathematical shape of an expression: names as character sequences,
/// numbers as unbounded integers, children through `Box` and `Seq`.
#[verifier::ext_equal]
pub enum ExprV {
    Assign { var: Seq<char>, rhs: Box<NodeV> },
    If { cond: Box<NodeV>, true_branch: Box<NodeV>, false_branch: Box<NodeV> },
    True,
    False,
    Number(int),
    Var(Seq<char>),
    Fun(FunV),
    Block { exprs: Seq<NodeV> },
}

/// The mathematical shape of a positioned expression node.
#[verifier::ext_equal]
pub struct NodeV {
    pub item: ExprV,
    pub pos: Pos,
}

/// The mathematical shape of a function literal.
#[verifier::ext_equal]
pub struct FunV {
    pub param: Seq<char>,
    pub param_ty: Ty,
    pub ret_ty: Ty,
    pub body: Box<NodeV>,
}

/// The mathematical shape of a diagnostic kind.
#[verifier::ext_equal]
pub enum DiagnosticKindV {
    ExpectedTy { expected: Ty, got: Ty },
    UnboundVar { name: Seq<char> },
}

/// The mathematical shape of a diagnostic.
#[verifier::ext_equal]
pub struct DiagV {
    pub kind: DiagnosticKindV,
    pub expr_with_pos: NodeV,
}

impl View for Var {
    type V = Seq<char>;

    open spec fn view(&self) -> Seq<char> {
        self.0@
    }
}

pub open spec fn view_expr(e: Expr) -> ExprV
    decreases e,
{
    match e {
        Expr::Assign(var, rhs) => ExprV::Assign {
            var: var@,
            rhs: Box::new(view_node(*rhs)),
        },
        Expr::If { cond, true_branch, false_branch } => ExprV::If {
            cond: Box::new(view_node(*cond)),
            true_branch: Box::new(view_node(*true_branch)),
            false_branch: Box::new(view_node(*false_branch)),
        },
        Expr::True => ExprV::True,
        Expr::False => ExprV::False,
        Expr::Number(n) => ExprV::Number(n as int),
        Expr::Var(v) => ExprV::Var(v@),
        Expr::Fun(f) => ExprV::Fun(FunV {
            param: f.param@,
            param_ty: f.param_ty,
            ret_ty: f.ret_ty,
            body: Box::new(view_node(*f.body)),
        }),
        Expr::Block { non_empty_exprs } => ExprV::Block { exprs: view_nodes(non_empty_exprs@) },
    }
}

pub open spec fn view_node(e: WithPos<Expr>) -> NodeV
    decreases e,
{
    NodeV { item: view_expr(e.item), pos: e.pos }
}

pub open spec fn view_nodes(es: Seq<WithPos<Expr>>) -> Seq<NodeV>
    decreases es,
{
    if es.len() == 0 {
        Seq::empty()
    } else {
        view_nodes(es.subrange(0, es.len() - 1)).push(view_node(es[es.len() - 1]))
    }
}

impl View for Expr {
    type V = ExprV;

    open spec fn view(&self) -> ExprV {
        view_expr(*self)
    }
}

impl View for WithPos<Expr> {
    type V = NodeV;

    open spec fn view(&self) -> NodeV {
        view_node(*self)
    }
}

impl View for Fun {
    type V = FunV;

    open spec fn view(&self) -> FunV {
        (FunV {
            param: self.param@,
            param_ty: self.param_ty,
            ret_ty: self.ret_ty,
            body: Box::new(view_node(*self.body)),
        })
    }
}

impl View for DiagnosticKind {
    type V = DiagnosticKindV;

    open spec fn view(&self) -> DiagnosticKindV {
        match self {
            DiagnosticKind::ExpectedTy { expected, got } => DiagnosticKindV::ExpectedTy {
                expected: *expected,
                got: *got,
            },
            DiagnosticKind::UnboundVar { name } => DiagnosticKindV::UnboundVar { name: name@ },
        }
    }
}

impl View for Diagnostic {
    type V = DiagV;

    open spec fn view(&self) -> DiagV {
        (DiagV { kind: self.kind@, expr_with_pos: self.expr_with_pos@ })
    }
}

/// Every block in the node holds at least one expression. Traversing a node
/// that breaks this is a precondition violation, not a reported error.
pub open spec fn wf_node(e: NodeV) -> bool
    decreases e,
{
    wf_expr_v(e.item)
}

pub open spec fn wf_expr_v(e: ExprV) -> bool
    decreases e,
{
    match e {
        ExprV::Assign { var, rhs } => wf_node(*rhs),
        ExprV::If { cond, true_branch, false_branch } => wf_node(*cond) && wf_node(*true_branch)
            && wf_node(*false_branch),
        ExprV::True => true,
        ExprV::False => true,
        ExprV::Number(_) => true,
        ExprV::Var(_) => true,
        ExprV::Fun(f) => wf_node(*f.body),
        ExprV::Block { exprs } => exprs.len() >= 1 && wf_nodes(exprs),
    }
}

pub open spec fn wf_nodes(es: Seq<NodeV>) -> bool
    decreases es,
{
    forall|i: int| 0 <= i < es.len() ==> wf_node(#[trigger] es[i])
}

impl Expr {
    /// Wraps the expression with a source position.
    pub fn positioned(self, pos: Pos) -> (r: WithPos<Expr>)
        ensures
            r@ == (NodeV { item: self@, pos }),
    {
        WithPos { item: self, pos }
    }
}

/// Decides well-formedness: every block in the expression holds at least
/// one element.
#[verifier::loop_isolation(false)]
pub fn wf_expr(e: &Expr) -> (r: bool)
    ensures
        r == wf_expr_v(e@),
    decreases *e,
{
    match e {
        Expr::Assign(_, rhs) => wf_expr(&rhs.item),
        Expr::If { cond, true_branch, false_branch } => wf_expr(&cond.item) && wf_expr(
            &true_branch.item,
        ) && wf_expr(&false_branch.item),
        Expr::True => true,
        Expr::False => true,
        Expr::Number(_) => true,
        Expr::Var(_) => true,
        Expr::Fun(f) => wf_expr(&f.body.item),
        Expr::Block { non_empty_exprs } => {
            proof {
                lemma_view_nodes(non_empty_exprs@);
            }
            if non_empty_exprs.len() == 0 {
                return false;
            }
            let mut i: usize = 0;
            let mut all: bool = true;
            while i < non_empty_exprs.len()
                invariant
                    i <= non_empty_exprs@.len(),
                    all == (forall|j: int|
                        0 <= j < i as int ==> wf_node(
                            #[trigger] view_nodes(non_empty_exprs@)[j],
                        )),
                decreases non_empty_exprs.len() - i,
            {
                proof {
                    broadcast use vstd::std_specs::vec::group_vec_axioms;

                    assert(decreases_to!(*e => (*e)->Block_non_empty_exprs));
                    assert(decreases_to!((*e)->Block_non_empty_exprs
                        => non_empty_exprs@[i as int]));
                }
                if !wf_expr(&non_empty_exprs[i].item) {
                    all = false;
                    proof {
                        assert(!wf_node(view_nodes(non_empty_exprs@)[i as int]));
                    }
                    i = non_empty_exprs.len();
                } else {
                    if all {
                        proof {
                            assert(forall|j: int|
                                0 <= j < i as int + 1 ==> wf_node(
                                    #[trigger] view_nodes(non_empty_exprs@)[j],
                                ));
                        }
                    }
                    i = i + 1;
                }
            }
            all
        },
    }
}

impl WithPos<Expr> {
    /// Decides well-formedness of the node.
    pub fn is_well_formed(&self) -> (r: bool)
        ensures
            r == wf_node(self@),
    {
        wf_expr(&self.item)
    }
}

/// A sequence of nodes is viewed pointwise.
pub proof fn lemma_view_nodes(es: Seq<WithPos<Expr>>)
    ensures
        view_nodes(es).len() == es.len(),
        forall|i: int| 0 <= i < es.len() ==> #[trigger] view_nodes(es)[i] == view_node(es[i]),
    decreases es,
{
    if es.len() > 0 {
        lemma_view_nodes(es.subrange(0, es.len() - 1));
        assert forall|i: int| 0 <= i < es.len() implies #[trigger] view_nodes(es)[i] == view_node(
            es[i],
        ) by {
            if i < es.len() - 1 {
                assert(es.subrange(0, es.len() - 1)[i] == es[i]);
            }
        }
    }
}

/// Structural equality of two types, decided executably.
pub fn ty_eq(t1: &Ty, t2: &Ty) -> (r: bool)
    ensures
        r == (*t1 == *t2),
    decreases *t1,
{
    match (t1, t2) {
        (Ty::Bool, Ty::Bool) => true,
        (Ty::Num, Ty::Num) => true,
        (Ty::Str, Ty::Str) => true,
        (Ty::ProducedDiagnostic, Ty::ProducedDiagnostic) => true,
        (Ty::Union(a1, b1), Ty::Union(a2, b2)) => ty_eq(a1, a2) && ty_eq(b1, b2),
        _ => false,
    }
}

impl Clone for Ty {
    /// Deep copy; the copy equals the source.
    fn clone(&self) -> (r: Ty)
        ensures
            r == *self,
        decreases *self,
    {
        match self {
            Ty::Bool => Ty::Bool,
            Ty::Num => Ty::Num,
            Ty::Str => Ty::Str,
            Ty::ProducedDiagnostic => Ty::ProducedDiagnostic,
            Ty::Union(a, b) => Ty::Union(Box::new((**a).clone()), Box::new((**b).clone())),
        }
    }
}

impl Clone for Var {
    /// Deep copy; the copy equals the source.
    fn clone(&self) -> (r: Var)
        ensures
            r == *self,
    {
        Var(self.0.clone())
    }
}

/// Deep copy of a node; the copy has the same view.
pub fn node_clone(e: &WithPos<Expr>) -> (r: WithPos<Expr>)
    ensures
        r@ == e@,
    decreases *e,
{
    WithPos { item: expr_clone(&e.item), pos: e.pos }
}

/// Deep copy of an expression; the copy has the same view.
#[verifier::loop_isolation(false)]
pub fn expr_clone(e: &Expr) -> (r: Expr)
    ensures
        r@ == e@,
    decreases *e,
{
    match e {
        Expr::Assign(var, rhs) => Expr::Assign(
            Box::new((**var).clone()),
            Box::new(node_clone(&**rhs)),
        ),
        Expr::If { cond, true_branch, false_branch } => Expr::If {
            cond: Box::new(node_clone(&**cond)),
            true_branch: Box::new(node_clone(&**true_branch)),
            false_branch: Box::new(node_clone(&**false_branch)),
        },
        Expr::True => Expr::True,
        Expr::False => Expr::False,
        Expr::Number(n) => Expr::Number(*n),
        Expr::Var(v) => Expr::Var(v.clone()),
        Expr::Fun(f) => Expr::Fun(
            Fun {
                param: f.param.clone(),
                param_ty: f.param_ty.clone(),
                ret_ty: f.ret_ty.clone(),
                body: Box::new(node_clone(&*f.body)),
            },
        ),
        Expr::Block { non_empty_exprs } => {
            let mut copies: Vec<WithPos<Expr>> = Vec::new();
            let mut i: usize = 0;
            while i < non_empty_exprs.len()
                invariant
                    i <= non_empty_exprs.len(),
                    copies@.len() == i as int,
                    forall|j: int|
                        0 <= j < i as int ==> #[trigger] view_node(copies@[j]) == view_node(
                            non_empty_exprs@[j],
                        ),
                decreases non_empty_exprs.len() - i,
            {
                proof {
                    broadcast use vstd::std_specs::vec::group_vec_axioms;

                    assert(decreases_to!(*e => (*e)->Block_non_empty_exprs));
                    assert(decreases_to!((*e)->Block_non_empty_exprs => non_empty_exprs@[i as int]));
                }
                let c = node_clone(&non_empty_exprs[i]);
                copies.push(c);
                i = i + 1;
            }
            proof {
                lemma_view_nodes(copies@);
                lemma_view_nodes(non_empty_exprs@);
                assert(view_nodes(copies@) =~= view_nodes(non_empty_exprs@));
            }
            Expr::Block { non_empty_exprs: copies }
        },
    }
}

impl Clone for WithPos<Expr> {
    /// Deep copy; the copy has the same view.
    fn clone(&self) -> (r: WithPos<Expr>)
        ensures
            r@ == self@,
    {
        node_clone(self)
    }
}

impl Clone for Expr {
    /// Deep copy; the copy has the same view.
    fn clone(&self) -> (r: Expr)
        ensures
            r@ == self@,
    {
        expr_clone(self)
    }
}

/// Structural equality of two nodes, position included, decided executably.
pub fn node_eq(a: &WithPos<Expr>, b: &WithPos<Expr>) -> (r: bool)
    ensures
        r == (a@ == b@),
    decreases *a,
{
    (a.pos == b.pos) && expr_eq(&a.item, &b.item)
}

/// Structural equality of two expressions, decided executably.
#[verifier::loop_isolation(false)]
pub fn expr_eq(a: &Expr, b: &Expr) -> (r: bool)
    ensures
        r == (a@ == b@),
    decreases *a,
{
    match (a, b) {
        (Expr::Assign(v1, r1), Expr::Assign(v2, r2)) => {
            let r = (v1.0 == v2.0) && node_eq(&**r1, &**r2);
            proof {
                if r {
                    assert(a@ =~~= b@);
                }
            }
            r
        },
        (
            Expr::If { cond: c1, true_branch: t1, false_branch: f1 },
            Expr::If { cond: c2, true_branch: t2, false_branch: f2 },
        ) => {
            let r = node_eq(&**c1, &**c2) && node_eq(&**t1, &**t2) && node_eq(&**f1, &**f2);
            proof {
                if r {
                    assert(a@ =~~= b@);
                }
            }
            r
        },
        (Expr::True, Expr::True) => true,
        (Expr::False, Expr::False) => true,
        (Expr::Number(n1), Expr::Number(n2)) => n1 == n2,
        (Expr::Var(v1), Expr::Var(v2)) => {
            let r = v1.0 == v2.0;
            proof {
                if r {
                    assert(a@ =~~= b@);
                }
            }
            r
        },
        (Expr::Fun(f1), Expr::Fun(f2)) => {
            let r = (f1.param.0 == f2.param.0) && ty_eq(&f1.param_ty, &f2.param_ty) && ty_eq(
                &f1.ret_ty,
                &f2.ret_ty,
            ) && node_eq(&*f1.body, &*f2.body);
            proof {
                if r {
                    assert(a@ =~~= b@);
                }
            }
            r
        },
        (Expr::Block { non_empty_exprs: e1 }, Expr::Block { non_empty_exprs: e2 }) => {
            proof {
                lemma_view_nodes(e1@);
                lemma_view_nodes(e2@);
            }
            if e1.len() != e2.len() {
                assert(view_nodes(e1@).len() != view_nodes(e2@).len());
                false
            } else {
                let mut i: usize = 0;
                let mut same: bool = true;
                while i < e1.len()
                    invariant
                        i <= e1.len(),
                        e1@.len() == e2@.len(),
                        same == (forall|j: int|
                            0 <= j < i as int ==> #[trigger] view_node(e1@[j]) == view_node(
                                e2@[j],
                            )),
                    decreases e1.len() - i,
                {
                    proof {
                        broadcast use vstd::std_specs::vec::group_vec_axioms;

                        assert(decreases_to!(*a => (*a)->Block_non_empty_exprs));
                        assert(decreases_to!((*a)->Block_non_empty_exprs => e1@[i as int]));
                    }
                    if !node_eq(&e1[i], &e2[i]) {
                        same = false;
                        proof {
                            assert(view_node(e1@[i as int]) != view_node(e2@[i as int]));
                        }
                        i = e1.len();
                    } else {
                        if same {
                            proof {
                                assert(forall|j: int|
                                    0 <= j < i as int + 1 ==> #[trigger] view_node(e1@[j])
                                        == view_node(e2@[j]));
                            }
                        }
                        i = i + 1;
                    }
                }
                proof {
                    lemma_view_nodes(e1@);
                    lemma_view_nodes(e2@);
                    if same {
                        assert(view_nodes(e1@) =~= view_nodes(e2@));
                        assert(a@ =~~= b@);
                    } else {
                        let j0 = choose|j: int|
                            0 <= j < e1@.len() && view_node(e1@[j]) != view_node(e2@[j]);
                        assert(view_nodes(e1@)[j0] == view_node(e1@[j0]));
                        assert(view_nodes(e2@)[j0] == view_node(e2@[j0]));
                        assert(view_nodes(e1@) != view_nodes(e2@));
                    }
                }
                same
            }
        },
        _ => false,
    }
}

} // verus!
