//! Typed, scope-tagged column handles and rows of them.
//!
//! A handle pairs an expression with the identifier of the query-building
//! context ("scope") that produced it. Handles of one scope compose into
//! larger expressions and into rows; combining handles of different scopes
//! is ruled out by the contracts, which is the engine's defence against a
//! column reference escaping the context that owns it.

use vstd::prelude::*;

use crate::ast::{expr_view, exprs_view, lemma_exprs_view_push, Expr, SpecExpr};

verus! {

/// A column handle: an expression tagged with its owning scope.
#[derive(Debug)]
pub struct Value {
    pub scope: u64,
    pub expr: Expr,
}

impl Value {
    /// The ghost expression this handle stands for.
    pub open spec fn sexpr(self) -> SpecExpr {
        expr_view(self.expr)
    }

    pub fn deep_clone(&self) -> (r: Value)
        ensures
            r.scope == self.scope,
            r.sexpr() == self.sexpr(),
    {
        Value { scope: self.scope, expr: self.expr.deep_clone() }
    }

    /// Sum of two handles of the same scope.
    pub fn add(&self, rhs: &Value) -> (r: Value)
        requires
            self.scope == rhs.scope,
        ensures
            r.scope == self.scope,
            r.sexpr() == SpecExpr::Add(Box::new(self.sexpr()), Box::new(rhs.sexpr())),
    {
        Value {
            scope: self.scope,
            expr: Expr::Add(Box::new(self.expr.deep_clone()), Box::new(rhs.expr.deep_clone())),
        }
    }

    /// Strictly-less-than comparison against an integer; the integer is
    /// compiled as a bound parameter.
    pub fn lt(&self, rhs: i64) -> (r: Value)
        ensures
            r.scope == self.scope,
            r.sexpr() == SpecExpr::Lt(Box::new(self.sexpr()), rhs),
    {
        Value { scope: self.scope, expr: Expr::Lt(Box::new(self.expr.deep_clone()), rhs) }
    }

    /// Equality of two handles of the same scope.
    pub fn eq(&self, rhs: &Value) -> (r: Value)
        requires
            self.scope == rhs.scope,
        ensures
            r.scope == self.scope,
            r.sexpr() == SpecExpr::Eq(Box::new(self.sexpr()), Box::new(rhs.sexpr())),
    {
        Value {
            scope: self.scope,
            expr: Expr::Eq(Box::new(self.expr.deep_clone()), Box::new(rhs.expr.deep_clone())),
        }
    }

    /// Boolean negation.
    pub fn not(&self) -> (r: Value)
        ensures
            r.scope == self.scope,
            r.sexpr() == SpecExpr::Not(Box::new(self.sexpr())),
    {
        Value { scope: self.scope, expr: Expr::Not(Box::new(self.expr.deep_clone())) }
    }
}

// ---------------------------------------------------------------------------
// Rows
// ---------------------------------------------------------------------------

/// The ghost expressions of a sequence of handles, in order.
pub open spec fn vals_exprs(vs: Seq<Value>) -> Seq<SpecExpr>
    decreases vs,
{
    if vs.len() == 0 {
        Seq::empty()
    } else {
        vals_exprs(vs.drop_last()).push(vs.last().sexpr())
    }
}

pub proof fn lemma_vals_exprs_len(vs: Seq<Value>)
    ensures
        vals_exprs(vs).len() == vs.len(),
    decreases vs,
{
    if vs.len() > 0 {
        lemma_vals_exprs_len(vs.drop_last());
    }
}

pub proof fn lemma_vals_exprs_index(vs: Seq<Value>)
    ensures
        forall|i: int| 0 <= i < vs.len() ==> vals_exprs(vs)[i] == vs[i].sexpr(),
    decreases vs,
{
    lemma_vals_exprs_len(vs);
    if vs.len() > 0 {
        lemma_vals_exprs_index(vs.drop_last());
        lemma_vals_exprs_len(vs.drop_last());
        assert(forall|i: int| 0 <= i < vs.len() - 1 ==> vs.drop_last()[i] == vs[i]);
    }
}

pub proof fn lemma_vals_exprs_push(vs: Seq<Value>, v: Value)
    ensures
        vals_exprs(vs.push(v)) == vals_exprs(vs).push(v.sexpr()),
{
    assert(vs.push(v).drop_last() =~= vs);
}

/// An ordered tuple of column handles of one scope, used for grouping
/// keys, containment tests and projections.
#[derive(Debug)]
pub struct Row {
    pub vals: Vec<Value>,
}

impl Row {
    pub open spec fn exprs(self) -> Seq<SpecExpr> {
        vals_exprs(self.vals@)
    }

    /// All handles carry the given scope.
    pub open spec fn scoped(self, scope: u64) -> bool {
        forall|i: int| 0 <= i < self.vals@.len() ==> (#[trigger] self.vals@[i]).scope == scope
    }

    pub fn len(&self) -> (n: usize)
        ensures
            n == self.vals@.len(),
    {
        self.vals.len()
    }

    pub fn single(v: Value) -> (r: Row)
        ensures
            r.exprs() == seq![v.sexpr()],
            r.scoped(v.scope),
            r.vals@.len() == 1,
    {
        let ghost sv = v;
        let mut vals: Vec<Value> = Vec::new();
        vals.push(v);
        proof {
            assert(vals@.drop_last() =~= Seq::<Value>::empty());
            assert(vals_exprs(Seq::<Value>::empty()) =~= Seq::<SpecExpr>::empty());
            assert(vals_exprs(vals@) =~= seq![sv.sexpr()]);
        }
        Row { vals }
    }

    pub fn pair(a: Value, b: Value) -> (r: Row)
        requires
            a.scope == b.scope,
        ensures
            r.exprs() == seq![a.sexpr(), b.sexpr()],
            r.scoped(a.scope),
            r.vals@.len() == 2,
    {
        let ghost sa = a;
        let ghost sb = b;
        let mut vals: Vec<Value> = Vec::new();
        vals.push(a);
        vals.push(b);
        proof {
            assert(vals@ =~= Seq::<Value>::empty().push(sa).push(sb));
            lemma_vals_exprs_push(Seq::<Value>::empty().push(sa), sb);
            assert(Seq::<Value>::empty().push(sa).drop_last() =~= Seq::<Value>::empty());
            assert(vals_exprs(Seq::<Value>::empty()) =~= Seq::<SpecExpr>::empty());
            assert(vals_exprs(vals@) =~= seq![sa.sexpr(), sb.sexpr()]);
        }
        Row { vals }
    }

    /// A fresh handle for the row's component at the given position.
    pub fn get(&self, i: usize) -> (r: Value)
        requires
            i < self.vals@.len(),
        ensures
            r.scope == self.vals@[i as int].scope,
            r.sexpr() == self.vals@[i as int].sexpr(),
    {
        let v = &self.vals[i];
        Value { scope: v.scope, expr: v.expr.deep_clone() }
    }

    pub fn deep_clone(&self) -> (r: Row)
        ensures
            r.exprs() == self.exprs(),
            r.vals@.len() == self.vals@.len(),
            forall|i: int|
                0 <= i < self.vals@.len() ==> (#[trigger] r.vals@[i]).scope
                    == self.vals@[i].scope,
    {
        let mut vals: Vec<Value> = Vec::new();
        let mut i: usize = 0;
        #[verifier::loop_isolation(false)]
        while i < self.vals.len()
            invariant
                0 <= i <= self.vals@.len(),
                vals@.len() == i,
                vals_exprs(vals@) == vals_exprs(self.vals@.subrange(0, i as int)),
                forall|j: int|
                    0 <= j < i ==> (#[trigger] vals@[j]).scope == self.vals@[j].scope,
            decreases self.vals@.len() - i,
        {
            let c = self.vals[i].deep_clone();
            proof {
                lemma_vals_exprs_push(vals@, c);
                lemma_vals_exprs_push(
                    self.vals@.subrange(0, i as int),
                    self.vals@[i as int],
                );
                assert(self.vals@.subrange(0, i + 1).drop_last() =~= self.vals@.subrange(
                    0,
                    i as int,
                ));
            }
            vals.push(c);
            i = i + 1;
        }
        proof {
            assert(self.vals@.subrange(0, self.vals@.len() as int) =~= self.vals@);
        }
        Row { vals }
    }
}

/// The bare expressions of a row, in order.
#[verifier::loop_isolation(false)]
pub fn row_to_exprs(r: &Row) -> (out: Vec<Expr>)
    ensures
        exprs_view(out@) == r.exprs(),
        out@.len() == r.vals@.len(),
{
    let mut out: Vec<Expr> = Vec::new();
    let mut i: usize = 0;
    while i < r.vals.len()
        invariant
            0 <= i <= r.vals@.len(),
            out@.len() == i,
            exprs_view(out@) == vals_exprs(r.vals@.subrange(0, i as int)),
        decreases r.vals@.len() - i,
    {
        let c = r.vals[i].expr.deep_clone();
        proof {
            lemma_exprs_view_push(out@, c);
            lemma_vals_exprs_push(r.vals@.subrange(0, i as int), r.vals@[i as int]);
            assert(r.vals@.subrange(0, i + 1).drop_last() =~= r.vals@.subrange(0, i as int));
        }
        out.push(c);
        i = i + 1;
    }
    proof {
        assert(r.vals@.subrange(0, r.vals@.len() as int) =~= r.vals@);
    }
    out
}

} // verus!
