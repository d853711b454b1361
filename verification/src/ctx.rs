use vstd::prelude::*;
use crate::data::{Diagnostic, DiagV, Expr, NodeV, Ty, WithPos, node_eq, view_node};
use crate::subtype::{join, spec_join};

verus! {

/// One lexical scope: bindings from variable name to type, with distinct
/// names. Bindings are observed only through the map they denote.
pub type Scope = Vec<(String, Ty)>;

/// The map a scope denotes; a later binding for a name wins.
pub open spec fn scope_map(s: Seq<(String, Ty)>) -> Map<Seq<char>, Ty>
    decreases s.len(),
{
    if s.len() == 0 {
        Map::empty()
    } else {
        scope_map(s.drop_last()).insert(s.last().0@, s.last().1)
    }
}

/// All names bound by the scope are distinct.
pub open spec fn scope_wf(s: Seq<(String, Ty)>) -> bool {
    forall|i: int, j: int| 0 <= i < j < s.len() ==> s[i].0@ != s[j].0@
}

/// A name is in the scope's map exactly when some binding carries it.
pub proof fn lemma_scope_map_keys(s: Seq<(String, Ty)>, k: Seq<char>)
    ensures
        scope_map(s).contains_key(k) <==> exists|i: int|
            0 <= i < s.len() && (#[trigger] s[i]).0@ == k,
    decreases s.len(),
{
    if s.len() > 0 {
        lemma_scope_map_keys(s.drop_last(), k);
        if s.last().0@ == k {
            assert(s[s.len() - 1].0@ == k);
        } else {
            if scope_map(s).contains_key(k) {
                let i0 = choose|i: int| 0 <= i < s.len() - 1 && (#[trigger] s.drop_last()[i]).0@
                    == k;
                assert(s[i0].0@ == k);
            }
            if exists|i: int| 0 <= i < s.len() && (#[trigger] s[i]).0@ == k {
                let i0 = choose|i: int| 0 <= i < s.len() && (#[trigger] s[i]).0@ == k;
                assert(i0 < s.len() - 1);
                assert(s.drop_last()[i0].0@ == k);
            }
        }
    }
}

/// In a well-formed scope each binding gives its name's value in the map.
pub proof fn lemma_scope_map_value(s: Seq<(String, Ty)>, i: int)
    requires
        scope_wf(s),
        0 <= i < s.len(),
    ensures
        scope_map(s).contains_key(s[i].0@),
        scope_map(s)[s[i].0@] == s[i].1,
    decreases s.len(),
{
    if i == s.len() - 1 {
    } else {
        assert(scope_wf(s.drop_last()));
        lemma_scope_map_value(s.drop_last(), i);
        assert(s.drop_last()[i] == s[i]);
        assert(s.last().0@ != s[i].0@);
    }
}

/// Removing the one binding that carries a name removes that name from the
/// scope's map and keeps the scope well formed.
pub proof fn lemma_scope_map_remove(s: Seq<(String, Ty)>, idx: int)
    requires
        scope_wf(s),
        0 <= idx < s.len(),
    ensures
        scope_wf(s.remove(idx)),
        scope_map(s.remove(idx)) =~= scope_map(s).remove(s[idx].0@),
    decreases s.len(),
{
    let k = s[idx].0@;
    if idx == s.len() - 1 {
        assert(s.remove(idx) =~= s.drop_last());
        lemma_scope_map_keys(s.drop_last(), k);
        assert(!scope_map(s.drop_last()).contains_key(k));
        assert(scope_map(s.drop_last()) =~= scope_map(s.drop_last()).insert(k, s[idx].1).remove(
            k,
        ));
    } else {
        assert(scope_wf(s.drop_last()));
        lemma_scope_map_remove(s.drop_last(), idx);
        assert(s.remove(idx).drop_last() =~= s.drop_last().remove(idx));
        assert(s.remove(idx).last() == s.last());
        assert(s.last().0@ != k);
        assert(scope_map(s.remove(idx)) == scope_map(s.drop_last().remove(idx)).insert(
            s.last().0@,
            s.last().1,
        ));
        assert(scope_map(s.remove(idx)) =~= scope_map(s).remove(k));
    }
}

/// Looks a name up in one scope.
fn scope_get(s: &Scope, key: &String) -> (r: Option<Ty>)
    ensures
        match r {
            Some(t) => scope_map(s@).contains_key(key@) && t == scope_map(s@)[key@],
            None => !scope_map(s@).contains_key(key@),
        },
{
    proof {
        assert(s@.subrange(0, s@.len() as int) =~= s@);
    }
    let mut i: usize = s.len();
    while i > 0
        invariant
            i <= s@.len(),
            forall|j: int| i <= j < s@.len() ==> (#[trigger] s@[j]).0@ != key@,
            scope_map(s@).contains_key(key@) == scope_map(s@.subrange(0, i as int)).contains_key(
                key@,
            ),
            scope_map(s@).contains_key(key@) ==> scope_map(s@)[key@] == scope_map(
                s@.subrange(0, i as int),
            )[key@],
        decreases i,
    {
        proof {
            assert(s@.subrange(0, i as int).drop_last() =~= s@.subrange(0, i as int - 1));
            assert(s@.subrange(0, i as int).last() == s@[i as int - 1]);
        }
        if s[i - 1].0 == *key {
            proof {
                assert(scope_map(s@.subrange(0, i as int)) == scope_map(
                    s@.subrange(0, i as int - 1),
                ).insert(s@[i as int - 1].0@, s@[i as int - 1].1));
            }
            return Some(s[i - 1].1.clone());
        }
        i = i - 1;
    }
    proof {
        assert(s@.subrange(0, 0) =~= Seq::<(String, Ty)>::empty());
    }
    None
}

/// Binds a name in one scope, replacing any binding it already carries.
fn scope_set(s: &mut Scope, key: String, val: Ty)
    requires
        scope_wf(old(s)@),
    ensures
        scope_wf(final(s)@),
        scope_map(final(s)@) =~= scope_map(old(s)@).insert(key@, val),
{
    let ghost before = s@;
    let mut i: usize = 0;
    let n = s.len();
    while i < n
        invariant
            n == s@.len(),
            i <= n,
            s@ == before,
            before == old(s)@,
            scope_wf(before),
            forall|j: int| 0 <= j < i ==> (#[trigger] before[j]).0@ != key@,
        decreases n - i,
    {
        if s[i].0 == key {
            proof {
                lemma_scope_map_remove(before, i as int);
                lemma_scope_map_keys(before.remove(i as int), key@);
            }
            s.remove(i);
            s.push((key, val));
            proof {
                assert(s@.drop_last() =~= before.remove(i as int));
                assert(scope_map(s@) == scope_map(s@.drop_last()).insert(s@.last().0@, s@.last().1));
                assert(s@.last().0@ == key@ && s@.last().1 == val);
                assert(scope_map(s@) =~= scope_map(before).insert(key@, val));
                assert forall|a: int, b: int| 0 <= a < b < s@.len() implies s@[a].0@ != s@[b].0@ by {
                    if b == s@.len() - 1 {
                        assert(s@[a] == before.remove(i as int)[a]);
                    }
                }
            }
            return ;
        }
        i = i + 1;
    }
    proof {
        lemma_scope_map_keys(before, key@);
    }
    s.push((key, val));
    proof {
        assert(s@.drop_last() =~= before);
        assert forall|a: int, b: int| 0 <= a < b < s@.len() implies s@[a].0@ != s@[b].0@ by {
            if b == s@.len() - 1 {
                assert(before[a].0@ != key@);
            }
        }
    }
}

/// The mathematical state of a traversal context: the scope stack, outermost
/// first; the diagnostics recorded so far; whether diagnostics are recorded;
/// and the query target, if any.
#[verifier::ext_equal]
pub struct CtxV {
    pub scopes: Seq<Map<Seq<char>, Ty>>,
    pub diags: Seq<DiagV>,
    pub diagnose: bool,
    pub look_for: Option<NodeV>,
}

/// The working context of one traversal: a stack of lexical scopes, a
/// diagnostics sink, the diagnose toggle, and the optional query target.
#[derive(Debug)]
pub struct Ctx {
    scopes: Vec<Scope>,
    diagnostics: Vec<Diagnostic>,
    diagnose: bool,
    look_for: Option<WithPos<Expr>>,
}

/// The root state from which a traversal context is entered, and into which
/// it is left again when the traversal is done.
#[derive(Debug)]
pub struct RootCtx {
    scopes: Vec<Scope>,
    diagnostics: Vec<Diagnostic>,
    diagnose: bool,
    look_for: Option<WithPos<Expr>>,
}

pub open spec fn view_look_for(look_for: Option<WithPos<Expr>>) -> Option<NodeV> {
    match look_for {
        Some(t) => Some(view_node(t)),
        None => None,
    }
}

impl View for Ctx {
    type V = CtxV;

    closed spec fn view(&self) -> CtxV {
        (CtxV {
            scopes: self.scopes@.map_values(|s: Scope| scope_map(s@)),
            diags: self.diagnostics@.map_values(|d: Diagnostic| d@),
            diagnose: self.diagnose,
            look_for: view_look_for(self.look_for),
        })
    }
}

impl View for RootCtx {
    type V = CtxV;

    closed spec fn view(&self) -> CtxV {
        (CtxV {
            scopes: self.scopes@.map_values(|s: Scope| scope_map(s@)),
            diags: self.diagnostics@.map_values(|d: Diagnostic| d@),
            diagnose: self.diagnose,
            look_for: view_look_for(self.look_for),
        })
    }
}

/// A name looked up through a stack of scopes: the innermost binding wins.
pub open spec fn spec_lookup(scopes: Seq<Map<Seq<char>, Ty>>, k: Seq<char>) -> Option<Ty>
    decreases scopes.len(),
{
    if scopes.len() == 0 {
        None
    } else if scopes.last().contains_key(k) {
        Some(scopes.last()[k])
    } else {
        spec_lookup(scopes.drop_last(), k)
    }
}

/// One branch scope merged onto an accumulator: a name bound by both sides
/// gets the join of the branch's type with the accumulated one.
pub open spec fn merge_scope(acc: Map<Seq<char>, Ty>, b: Map<Seq<char>, Ty>) -> Map<
    Seq<char>,
    Ty,
> {
    Map::new(
        |k: Seq<char>| acc.contains_key(k) || b.contains_key(k),
        |k: Seq<char>|
            if b.contains_key(k) {
                if acc.contains_key(k) {
                    spec_join(b[k], acc[k])
                } else {
                    b[k]
                }
            } else {
                acc[k]
            },
    )
}

/// All branch scopes merged, in branch order.
pub open spec fn merge_scopes(bs: Seq<Map<Seq<char>, Ty>>) -> Map<Seq<char>, Ty>
    decreases bs.len(),
{
    if bs.len() == 0 {
        Map::empty()
    } else {
        merge_scope(merge_scopes(bs.drop_last()), bs.last())
    }
}

impl RootCtx {
    /// All scopes held are well formed.
    pub closed spec fn wf(&self) -> bool {
        forall|i: int| 0 <= i < self.scopes@.len() ==> scope_wf(#[trigger] self.scopes@[i]@)
    }

    /// A fresh root state with no scopes and no diagnostics.
    pub fn new(diagnose: bool, look_for: Option<WithPos<Expr>>) -> (r: RootCtx)
        ensures
            r.wf(),
            r@.scopes == Seq::<Map<Seq<char>, Ty>>::empty(),
            r@.diags == Seq::<DiagV>::empty(),
            r@.diagnose == diagnose,
            r@.look_for == view_look_for(look_for),
    {
        let r = RootCtx { scopes: Vec::new(), diagnostics: Vec::new(), diagnose, look_for };
        proof {
            assert(r@.scopes =~= Seq::<Map<Seq<char>, Ty>>::empty());
            assert(r@.diags =~= Seq::<DiagV>::empty());
        }
        r
    }

    /// Enters the traversal: pushes one fresh scope and hands out the
    /// working context.
    pub fn enter(self) -> (r: Ctx)
        requires
            self.wf(),
        ensures
            r.wf(),
            r@.scopes == self@.scopes.push(Map::<Seq<char>, Ty>::empty()),
            r@.diags == self@.diags,
            r@.diagnose == self@.diagnose,
            r@.look_for == self@.look_for,
    {
        let RootCtx { mut scopes, diagnostics, diagnose, look_for } = self;
        let ghost before = scopes@;
        scopes.push(Vec::new());
        let r = Ctx { scopes, diagnostics, diagnose, look_for };
        proof {
            assert(scope_map(Seq::<(String, Ty)>::empty()) =~= Map::<Seq<char>, Ty>::empty());
            assert(r@.scopes =~= before.map_values(|s: Scope| scope_map(s@)).push(
                Map::<Seq<char>, Ty>::empty(),
            ));
        }
        r
    }

    /// Hands out the diagnostics the traversal recorded.
    pub fn take_diagnostics(self) -> (r: Vec<Diagnostic>)
        ensures
            r@.map_values(|d: Diagnostic| d@) == self@.diags,
    {
        self.diagnostics
    }
}

impl Ctx {
    /// At least one scope is open and every scope held is well formed.
    pub closed spec fn wf(&self) -> bool {
        self.scopes@.len() >= 1 && forall|i: int|
            0 <= i < self.scopes@.len() ==> scope_wf(#[trigger] self.scopes@[i]@)
    }

    /// Leaves the traversal: pops the scope the root state opened.
    pub fn leave(self) -> (r: RootCtx)
        requires
            self.wf(),
        ensures
            r.wf(),
            r@.scopes == self@.scopes.drop_last(),
            r@.diags == self@.diags,
            r@.diagnose == self@.diagnose,
            r@.look_for == self@.look_for,
    {
        let Ctx { mut scopes, diagnostics, diagnose, look_for } = self;
        let ghost before = scopes@;
        let _popped = scopes.pop();
        let r = RootCtx { scopes, diagnostics, diagnose, look_for };
        proof {
            assert(r@.scopes =~= before.map_values(|s: Scope| scope_map(s@)).drop_last());
        }
        r
    }

    /// Opens a fresh nested scope; the matching `exit` closes it.
    pub fn enter(&mut self)
        requires
            old(self).wf(),
        ensures
            final(self).wf(),
            final(self)@.scopes == old(self)@.scopes.push(Map::<Seq<char>, Ty>::empty()),
            final(self)@.diags == old(self)@.diags,
            final(self)@.diagnose == old(self)@.diagnose,
            final(self)@.look_for == old(self)@.look_for,
    {
        let ghost before = self.scopes@;
        self.scopes.push(Vec::new());
        proof {
            assert(scope_map(Seq::<(String, Ty)>::empty()) =~= Map::<Seq<char>, Ty>::empty());
            assert(self@.scopes =~= before.map_values(|s: Scope| scope_map(s@)).push(
                Map::<Seq<char>, Ty>::empty(),
            ));
        }
    }

    /// Closes the innermost scope and hands its bindings back; everything
    /// bound in it stops being visible.
    pub fn exit(&mut self) -> (r: Scope)
        requires
            old(self).wf(),
            old(self)@.scopes.len() >= 2,
        ensures
            final(self).wf(),
            scope_wf(r@),
            scope_map(r@) == old(self)@.scopes.last(),
            final(self)@.scopes == old(self)@.scopes.drop_last(),
            final(self)@.diags == old(self)@.diags,
            final(self)@.diagnose == old(self)@.diagnose,
            final(self)@.look_for == old(self)@.look_for,
    {
        let ghost before = self.scopes@;
        let popped = self.scopes.pop();
        proof {
            assert(self@.scopes =~= before.map_values(|s: Scope| scope_map(s@)).drop_last());
        }
        match popped {
            Some(s) => s,
            None => unreached(),
        }
    }

    /// Looks a name up, innermost scope first.
    pub fn get(&self, key: &String) -> (r: Option<Ty>)
        requires
            self.wf(),
        ensures
            r == spec_lookup(self@.scopes, key@),
    {
        let n = self.scopes.len();
        let ghost maps = self@.scopes;
        proof {
            assert(maps.subrange(0, maps.len() as int) =~= maps);
        }
        let mut i: usize = n;
        while i > 0
            invariant
                n == self.scopes@.len(),
                maps == self@.scopes,
                i <= n,
                spec_lookup(maps, key@) == spec_lookup(maps.subrange(0, i as int), key@),
            decreases i,
        {
            proof {
                assert(maps.subrange(0, i as int).drop_last() =~= maps.subrange(0, i as int - 1));
                assert(maps.subrange(0, i as int).last() == maps[i as int - 1]);
            }
            match scope_get(&self.scopes[i - 1], key) {
                Some(t) => {
                    return Some(t);
                },
                None => {
                },
            }
            i = i - 1;
        }
        proof {
            assert(maps.subrange(0, 0) =~= Seq::<Map<Seq<char>, Ty>>::empty());
        }
        None
    }

    /// Binds a name in the innermost scope, replacing any binding the name
    /// already has there; outer scopes are untouched.
    pub fn insert(&mut self, key: String, val: Ty)
        requires
            old(self).wf(),
        ensures
            final(self).wf(),
            final(self)@.scopes == old(self)@.scopes.update(
                old(self)@.scopes.len() - 1,
                old(self)@.scopes.last().insert(key@, val),
            ),
            final(self)@.diags == old(self)@.diags,
            final(self)@.diagnose == old(self)@.diagnose,
            final(self)@.look_for == old(self)@.look_for,
    {
        let ghost before = self.scopes@;
        let popped = self.scopes.pop();
        let mut sc = match popped {
            Some(sc) => sc,
            None => unreached(),
        };
        scope_set(&mut sc, key, val);
        self.scopes.push(sc);
        proof {
            assert(self.scopes@ =~= before.update(before.len() - 1, self.scopes@.last()));
            assert(self@.scopes =~= before.map_values(|s: Scope| scope_map(s@)).update(
                before.len() - 1,
                scope_map(self.scopes@.last()@),
            ));
        }
    }

    /// Runs the diagnostic producer and records its result, but only when
    /// diagnostics are on: when they are off the producer is never run.
    pub fn add_diagnostic<F: FnOnce() -> Diagnostic>(&mut self, f: F)
        requires
            old(self).wf(),
            call_requires(f, ()),
        ensures
            final(self).wf(),
            final(self)@.diagnose ==> exists|d: Diagnostic|
                call_ensures(f, (), d) && final(self)@.diags == old(self)@.diags.push(d@),
            !final(self)@.diagnose ==> final(self)@.diags == old(self)@.diags,
            final(self)@.scopes == old(self)@.scopes,
            final(self)@.diagnose == old(self)@.diagnose,
            final(self)@.look_for == old(self)@.look_for,
    {
        let ghost before = self.diagnostics@;
        if self.diagnose {
            let d = f();
            let ghost dv = d@;
            self.diagnostics.push(d);
            proof {
                assert(self@.diags =~= before.map_values(|x: Diagnostic| x@).push(dv));
                assert(self@.diags == old(self)@.diags.push(dv));
            }
        }
    }

    /// True exactly when query mode is on and the node is the target, by
    /// value and position.
    pub fn looking_for(&self, expr_with_pos: &WithPos<Expr>) -> (r: bool)
        ensures
            r == (self@.look_for == Some(expr_with_pos@)),
    {
        match &self.look_for {
            Some(t) => node_eq(t, expr_with_pos),
            None => false,
        }
    }

    /// Merges the scopes of divergent branches into the innermost scope: a
    /// name bound by several branches gets the join of its types, branch
    /// order first; a name bound by one branch keeps its type.
    pub fn join(&mut self, branches: Vec<Scope>)
        requires
            old(self).wf(),
            forall|i: int| 0 <= i < branches@.len() ==> scope_wf(#[trigger] branches@[i]@),
        ensures
            final(self).wf(),
            final(self)@.scopes == old(self)@.scopes.update(
                old(self)@.scopes.len() - 1,
                old(self)@.scopes.last().union_prefer_right(
                    merge_scopes(branches@.map_values(|b: Scope| scope_map(b@))),
                ),
            ),
            final(self)@.diags == old(self)@.diags,
            final(self)@.diagnose == old(self)@.diagnose,
            final(self)@.look_for == old(self)@.look_for,
    {
        let ghost bmaps = branches@.map_values(|b: Scope| scope_map(b@));
        let mut joined: Scope = Vec::new();
        proof {
            assert(scope_map(joined@) =~= Map::<Seq<char>, Ty>::empty());
            assert(bmaps.subrange(0, 0) =~= Seq::<Map<Seq<char>, Ty>>::empty());
            assert(merge_scope(Map::<Seq<char>, Ty>::empty(), Map::<Seq<char>, Ty>::empty())
                =~= Map::<Seq<char>, Ty>::empty());
        }
        let mut i: usize = 0;
        while i < branches.len()
            invariant
                i <= branches@.len(),
                bmaps == branches@.map_values(|b: Scope| scope_map(b@)),
                forall|j: int| 0 <= j < branches@.len() ==> scope_wf(#[trigger] branches@[j]@),
                scope_wf(joined@),
                scope_map(joined@) == merge_scopes(bmaps.subrange(0, i as int)),
            decreases branches@.len() - i,
        {
            join_aux(&mut joined, &branches[i]);
            proof {
                assert(bmaps.subrange(0, i as int + 1).drop_last() =~= bmaps.subrange(
                    0,
                    i as int,
                ));
                assert(bmaps.subrange(0, i as int + 1).last() == scope_map(branches@[i as int]@));
                assert(merge_scope(Map::<Seq<char>, Ty>::empty(), scope_map(branches@[i as int]@))
                    =~= scope_map(branches@[i as int]@));
            }
            i = i + 1;
        }
        proof {
            assert(bmaps.subrange(0, branches@.len() as int) =~= bmaps);
        }
        let ghost merged = merge_scopes(bmaps);
        let ghost scopes0 = self@.scopes;
        proof {
            assert(scope_map(joined@.subrange(0, 0)) =~= Map::<Seq<char>, Ty>::empty());
            assert(scopes0.last().union_prefer_right(Map::<Seq<char>, Ty>::empty())
                =~= scopes0.last());
            assert(self@.scopes =~= scopes0.update(
                scopes0.len() - 1,
                scopes0.last().union_prefer_right(scope_map(joined@.subrange(0, 0))),
            ));
        }
        let m = joined.len();
        let mut j: usize = 0;
        while j < m
            invariant
                old(self).wf(),
                self.wf(),
                m == joined@.len(),
                j <= m,
                scope_wf(joined@),
                scope_map(joined@) == merged,
                scopes0 == old(self)@.scopes,
                scopes0.len() >= 1,
                self@.scopes =~= scopes0.update(
                    scopes0.len() - 1,
                    scopes0.last().union_prefer_right(
                        scope_map(joined@.subrange(0, j as int)),
                    ),
                ),
                self@.diags == old(self)@.diags,
                self@.diagnose == old(self)@.diagnose,
                self@.look_for == old(self)@.look_for,
            decreases m - j,
        {
            let key = joined[j].0.clone();
            let val = joined[j].1.clone();
            self.insert(key, val);
            proof {
                assert(joined@.subrange(0, j as int + 1).drop_last() =~= joined@.subrange(
                    0,
                    j as int,
                ));
                assert(joined@.subrange(0, j as int + 1).last() == joined@[j as int]);
                assert(scopes0.last().union_prefer_right(
                    scope_map(joined@.subrange(0, j as int)),
                ).insert(joined@[j as int].0@, joined@[j as int].1) =~= scopes0.last()
                    .union_prefer_right(scope_map(joined@.subrange(0, j as int + 1))));
                assert(self@.scopes =~= scopes0.update(
                    scopes0.len() - 1,
                    scopes0.last().union_prefer_right(
                        scope_map(joined@.subrange(0, j as int + 1)),
                    ),
                ));
            }
            j = j + 1;
        }
        proof {
            assert(joined@.subrange(0, m as int) =~= joined@);
            if m == 0 {
                assert(scope_map(joined@.subrange(0, 0)) =~= merged);
            }
            assert(self@.scopes =~= scopes0.update(
                scopes0.len() - 1,
                scopes0.last().union_prefer_right(merged),
            ));
        }
    }
}

/// Folds one branch scope into the accumulated merge, binding by binding.
fn join_aux(joined: &mut Scope, branch: &Scope)
    requires
        scope_wf(old(joined)@),
        scope_wf(branch@),
    ensures
        scope_wf(final(joined)@),
        scope_map(final(joined)@) == merge_scope(scope_map(old(joined)@), scope_map(branch@)),
{
    let ghost acc0 = scope_map(old(joined)@);
    let n = branch.len();
    let mut idx: usize = 0;
    while idx < n
        invariant
            n == branch@.len(),
            idx <= n,
            scope_wf(branch@),
            scope_wf(joined@),
            scope_map(joined@) == merge_scope(acc0, scope_map(branch@.subrange(0, idx as int))),
        decreases n - idx,
    {
        let ghost mpre = scope_map(branch@.subrange(0, idx as int));
        proof {
            assert(branch@.subrange(0, idx as int + 1).drop_last() =~= branch@.subrange(
                0,
                idx as int,
            ));
            assert(branch@.subrange(0, idx as int + 1).last() == branch@[idx as int]);
            lemma_scope_map_keys(branch@.subrange(0, idx as int), branch@[idx as int].0@);
            assert(!mpre.contains_key(branch@[idx as int].0@));
        }
        let key = branch[idx].0.clone();
        let val = &branch[idx].1;
        match scope_get(joined, &key) {
            Some(existing) => {
                let merged_ty = join(val, &existing);
                scope_set(joined, key, merged_ty);
                proof {
                    assert(scope_map(joined@) =~= merge_scope(
                        acc0,
                        scope_map(branch@.subrange(0, idx as int + 1)),
                    ));
                }
            },
            None => {
                let ghost jpre = joined@;
                joined.push((key, val.clone()));
                proof {
                    assert(joined@.drop_last() =~= jpre);
                    lemma_scope_map_keys(jpre, branch@[idx as int].0@);
                    assert(scope_map(joined@) == scope_map(joined@.drop_last()).insert(
                        branch@[idx as int].0@,
                        branch@[idx as int].1,
                    ));
                    assert forall|a: int, b: int|
                        0 <= a < b < joined@.len() implies joined@[a].0@ != joined@[b].0@ by {
                        if b == joined@.len() - 1 {
                            lemma_scope_map_value(joined@.drop_last(), a);
                        }
                    }
                    assert(scope_map(joined@) =~= merge_scope(
                        acc0,
                        scope_map(branch@.subrange(0, idx as int + 1)),
                    ));
                }
            },
        }
        idx = idx + 1;
    }
    proof {
        assert(branch@.subrange(0, n as int) =~= branch@);
    }
}

} // verus!
