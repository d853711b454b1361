use vstd::prelude::*;
use vstd::string::StringExecFns;
use crate::data::{Diagnostic, DiagnosticKind, Expr, FoundTy, Pos, Ty, WithPos};

verus! {

/// The character of one decimal digit.
pub open spec fn digit_char(d: nat) -> char {
    if d == 0 {
        '0'
    } else if d == 1 {
        '1'
    } else if d == 2 {
        '2'
    } else if d == 3 {
        '3'
    } else if d == 4 {
        '4'
    } else if d == 5 {
        '5'
    } else if d == 6 {
        '6'
    } else if d == 7 {
        '7'
    } else if d == 8 {
        '8'
    } else {
        '9'
    }
}

/// The decimal digits of a number, most significant first.
pub open spec fn dec_text(n: nat) -> Seq<char>
    decreases n,
{
    if n < 10 {
        seq![digit_char(n)]
    } else {
        dec_text(n / 10).push(digit_char(n % 10))
    }
}

/// The decimal text of an integer, a minus sign first when negative.
pub open spec fn int_text(i: int) -> Seq<char> {
    if i < 0 {
        seq!['-'] + dec_text((-i) as nat)
    } else {
        dec_text(i as nat)
    }
}

/// One decimal digit as text.
fn digit_string(d: u64) -> (r: String)
    requires
        d < 10,
    ensures
        r@ == seq![digit_char(d as nat)],
{
    let r = match d {
        0u64 => String::from_str("0"),
        1u64 => String::from_str("1"),
        2u64 => String::from_str("2"),
        3u64 => String::from_str("3"),
        4u64 => String::from_str("4"),
        5u64 => String::from_str("5"),
        6u64 => String::from_str("6"),
        7u64 => String::from_str("7"),
        8u64 => String::from_str("8"),
        _ => String::from_str("9"),
    };
    proof {
        reveal_strlit("0");
        reveal_strlit("1");
        reveal_strlit("2");
        reveal_strlit("3");
        reveal_strlit("4");
        reveal_strlit("5");
        reveal_strlit("6");
        reveal_strlit("7");
        reveal_strlit("8");
        reveal_strlit("9");
        assert(r@ =~= seq![digit_char(d as nat)]);
    }
    r
}

/// A number rendered in decimal.
pub fn u64_to_string(n: u64) -> (r: String)
    ensures
        r@ == dec_text(n as nat),
    decreases n,
{
    if n < 10 {
        digit_string(n)
    } else {
        let mut s = u64_to_string(n / 10);
        let d = digit_string(n % 10);
        s.append(d.as_str());
        proof {
            assert(s@ =~= dec_text(n as nat));
        }
        s
    }
}

/// An integer rendered in decimal, a minus sign first when negative.
pub fn i32_to_string(n: i32) -> (r: String)
    ensures
        r@ == int_text(n as int),
{
    if n < 0 {
        let m: u64 = (-(n as i64)) as u64;
        let mut s = String::from_str("-");
        let d = u64_to_string(m);
        s.append(d.as_str());
        proof {
            reveal_strlit("-");
            assert(s@ =~= int_text(n as int));
        }
        s
    } else {
        u64_to_string(n as u64)
    }
}

/// A type rendered for people: lowercase names, unions as `(a | b)`, the
/// poisoned sentinel as `ERROR`.
pub open spec fn ty_text(t: Ty) -> Seq<char>
    decreases t,
{
    match t {
        Ty::Bool => "bool"@,
        Ty::Num => "num"@,
        Ty::Str => "str"@,
        Ty::ProducedDiagnostic => "ERROR"@,
        Ty::Union(a, b) => "("@ + ty_text(*a) + " | "@ + ty_text(*b) + ")"@,
    }
}

/// A type rendered as its bare constructor shape, as diagnostics quote it.
pub open spec fn ty_quoted_text(t: Ty) -> Seq<char>
    decreases t,
{
    match t {
        Ty::Bool => "Bool"@,
        Ty::Num => "Num"@,
        Ty::Str => "Str"@,
        Ty::ProducedDiagnostic => "ProducedDiagnostic"@,
        Ty::Union(a, b) => "Union("@ + ty_quoted_text(*a) + ", "@ + ty_quoted_text(*b) + ")"@,
    }
}

impl Ty {
    /// Renders the type for people.
    pub fn render(&self) -> (r: String)
        ensures
            r@ == ty_text(*self),
        decreases *self,
    {
        match self {
            Ty::Bool => String::from_str("bool"),
            Ty::Num => String::from_str("num"),
            Ty::Str => String::from_str("str"),
            Ty::ProducedDiagnostic => String::from_str("ERROR"),
            Ty::Union(a, b) => {
                let mut s = String::from_str("(");
                let ra = (**a).render();
                s.append(ra.as_str());
                s.append(" | ");
                let rb = (**b).render();
                s.append(rb.as_str());
                s.append(")");
                proof {
                    assert(s@ =~= ty_text(*self));
                }
                s
            },
        }
    }

    /// Renders the type in its constructor shape, as diagnostics quote it.
    pub fn render_quoted(&self) -> (r: String)
        ensures
            r@ == ty_quoted_text(*self),
        decreases *self,
    {
        match self {
            Ty::Bool => String::from_str("Bool"),
            Ty::Num => String::from_str("Num"),
            Ty::Str => String::from_str("Str"),
            Ty::ProducedDiagnostic => String::from_str("ProducedDiagnostic"),
            Ty::Union(a, b) => {
                let mut s = String::from_str("Union(");
                let ra = (**a).render_quoted();
                s.append(ra.as_str());
                s.append(", ");
                let rb = (**b).render_quoted();
                s.append(rb.as_str());
                s.append(")");
                proof {
                    assert(s@ =~= ty_quoted_text(*self));
                }
                s
            },
        }
    }
}

/// An expression rendered as its syntactic category, a literal as its
/// text, a variable as its quoted name.
pub open spec fn expr_text(e: Expr) -> Seq<char> {
    match e {
        Expr::Assign(_, _) => "Assignment"@,
        Expr::If { cond, true_branch, false_branch } => "If"@,
        Expr::True => "True"@,
        Expr::False => "False"@,
        Expr::Number(n) => int_text(n as int),
        Expr::Var(v) => "'"@ + v.0@ + "'"@,
        Expr::Fun(_) => "fun"@,
        Expr::Block { non_empty_exprs } => "block"@,
    }
}

impl Expr {
    /// Renders the expression's syntactic category.
    pub fn render(&self) -> (r: String)
        ensures
            r@ == expr_text(*self),
    {
        match self {
            Expr::Assign(_, _) => String::from_str("Assignment"),
            Expr::If { .. } => String::from_str("If"),
            Expr::True => String::from_str("True"),
            Expr::False => String::from_str("False"),
            Expr::Number(n) => i32_to_string(*n),
            Expr::Var(v) => {
                let mut s = String::from_str("'");
                s.append(v.0.as_str());
                s.append("'");
                proof {
                    assert(s@ =~= expr_text(*self));
                }
                s
            },
            Expr::Fun(_) => String::from_str("fun"),
            Expr::Block { .. } => String::from_str("block"),
        }
    }
}

/// A position rendered for people: the line 1-based, the column as held.
pub open spec fn pos_text(p: Pos) -> Seq<char> {
    "line "@ + dec_text((p.0 + 1) as nat) + " col "@ + dec_text(p.1 as nat)
}

impl Pos {
    /// Renders the position.
    pub fn render(&self) -> (r: String)
        ensures
            r@ == pos_text(*self),
    {
        let mut s = String::from_str("line ");
        let l = u64_to_string(self.0 as u64 + 1);
        s.append(l.as_str());
        s.append(" col ");
        let c = u64_to_string(self.1 as u64);
        s.append(c.as_str());
        proof {
            assert(s@ =~= pos_text(*self));
        }
        s
    }
}

/// A diagnostic kind rendered for people.
pub open spec fn kind_text(k: DiagnosticKind) -> Seq<char> {
    match k {
        DiagnosticKind::ExpectedTy { expected, got } => "Expected "@ + ty_quoted_text(expected)
            + ", got "@ + ty_quoted_text(got),
        DiagnosticKind::UnboundVar { name } => "unbound var "@ + name@,
    }
}

impl DiagnosticKind {
    /// Renders the diagnostic kind.
    pub fn render(&self) -> (r: String)
        ensures
            r@ == kind_text(*self),
    {
        match self {
            DiagnosticKind::ExpectedTy { expected, got } => {
                let mut s = String::from_str("Expected ");
                let re = expected.render_quoted();
                s.append(re.as_str());
                s.append(", got ");
                let rg = got.render_quoted();
                s.append(rg.as_str());
                proof {
                    assert(s@ =~= kind_text(*self));
                }
                s
            },
            DiagnosticKind::UnboundVar { name } => {
                let mut s = String::from_str("unbound var ");
                s.append(name.as_str());
                proof {
                    assert(s@ =~= kind_text(*self));
                }
                s
            },
        }
    }
}

/// A diagnostic rendered for people: position, kind, offending expression.
pub open spec fn diagnostic_text(d: Diagnostic) -> Seq<char> {
    pos_text(d.expr_with_pos.pos) + ": "@ + kind_text(d.kind) + " for expression "@ + expr_text(
        d.expr_with_pos.item,
    )
}

impl Diagnostic {
    /// Renders the diagnostic.
    pub fn render(&self) -> (r: String)
        ensures
            r@ == diagnostic_text(*self),
    {
        let mut s = self.expr_with_pos.pos.render();
        s.append(": ");
        let rk = self.kind.render();
        s.append(rk.as_str());
        s.append(" for expression ");
        let re = self.expr_with_pos.item.render();
        s.append(re.as_str());
        proof {
            assert(s@ =~= diagnostic_text(*self));
        }
        s
    }
}

impl FoundTy {
    /// Renders the found type for people.
    pub fn render(&self) -> (r: String)
        ensures
            r@ == ty_text(self.0),
    {
        self.0.render()
    }
}

} // verus!
