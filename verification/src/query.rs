//! The query-building context: an append-only operation log with a scope
//! tag, plus the grouping/ranking builder and closed sub-queries for
//! containment tests.

use vstd::prelude::*;

use crate::alias::{AliasGen, MyAlias};
use crate::ast::{
    clone_ops, ewf, eswf, ident_ok, lemma_contains_concat, lemma_eswf_mono,
    lemma_eswf_pointwise, lemma_exprs_view_len, lemma_finish_wf, lemma_ops_push,
    esdefs, lemma_sfold_defs, lemma_sfold_wf, log_rooted, log_wf, op_wf, ops_view, opsdefs, opsexposed,
    sfold, souts, spec_finish, sub_aliases, swf, coldefs, cols_view, colswf, exprs_view,
    lemma_cols_view_push, lemma_ops_view_push, select_view, sources_view,
    source_view, Expr, MySelect, Operation, Proj, Select, Source, SpecExpr, SpecOp, SpecProj,
    SpecSelect, SpecSource, SpecWindow, WindowDef,
};
use crate::value::{lemma_vals_exprs_push, row_to_exprs, vals_exprs, Row, Value};

verus! {

// ---------------------------------------------------------------------------
// Table descriptors
// ---------------------------------------------------------------------------

/// The ghost views of a table's column names, in order.
pub open spec fn strs_view(ss: Seq<String>) -> Seq<Seq<char>>
    decreases ss,
{
    if ss.len() == 0 {
        Seq::empty()
    } else {
        strs_view(ss.drop_last()).push(ss.last()@)
    }
}

pub proof fn lemma_strs_view_len(ss: Seq<String>)
    ensures
        strs_view(ss).len() == ss.len(),
        forall|i: int| 0 <= i < ss.len() ==> strs_view(ss)[i] == ss[i]@,
    decreases ss,
{
    if ss.len() > 0 {
        lemma_strs_view_len(ss.drop_last());
        assert(forall|i: int|
            0 <= i < ss.len() - 1 ==> ss.drop_last()[i] == ss[i]);
    }
}

/// A declared table: a stable name and its ordered column names. Supplied
/// once at startup by the schema collaborator; names must be plain SQL
/// identifiers and the column list must not be empty.
#[derive(Debug)]
pub struct TableSchema {
    pub name: String,
    pub columns: Vec<String>,
}

impl TableSchema {
    pub open spec fn wf(self) -> bool {
        &&& ident_ok(self.name@)
        &&& self.columns@.len() > 0
        &&& forall|i: int|
            0 <= i < self.columns@.len() ==> ident_ok((#[trigger] self.columns@[i])@)
    }
}

/// The select a table import compiles to: each declared column re-exposed
/// under a fresh alias, counted from `base`.
pub open spec fn spec_table_cols(cols: Seq<Seq<char>>, base: u64) -> Seq<(Seq<char>, u64)> {
    Seq::new(cols.len(), |i: int| (cols[i], (base + i) as u64))
}

pub open spec fn spec_table_select(name: Seq<char>, cols: Seq<Seq<char>>, base: u64)
    -> SpecSelect {
    SpecSelect {
        proj: SpecProj::Cols(spec_table_cols(cols, base)),
        window: None,
        sources: seq![SpecSource::Table(name)],
        filters: Seq::empty(),
        orders: Seq::empty(),
    }
}

/// The aliases such an import exposes: the interval from `base` on, one
/// per column.
pub open spec fn alias_range(base: u64, len: nat) -> Seq<u64> {
    Seq::new(len, |i: int| (base + i) as u64)
}

proof fn lemma_table_cols_defs(cols: Seq<Seq<char>>, base: u64)
    requires
        base + cols.len() <= u64::MAX,
    ensures
        coldefs(spec_table_cols(cols, base)) == alias_range(base, cols.len()),
        (forall|i: int| 0 <= i < cols.len() ==> ident_ok(#[trigger] cols[i])) ==> colswf(
            spec_table_cols(cols, base),
        ),
    decreases cols.len(),
{
    let cs = spec_table_cols(cols, base);
    if cols.len() == 0 {
        assert(coldefs(cs) =~= alias_range(base, 0));
    } else {
        lemma_table_cols_defs(cols.drop_last(), base);
        assert(cs.drop_last() =~= spec_table_cols(cols.drop_last(), base));
        assert(cs.last() == (cols.last(), (base + cols.len() - 1) as u64));
        assert(coldefs(cs) == coldefs(cs.drop_last()).push(cs.last().1));
        assert(coldefs(cs) =~= alias_range(base, cols.len()));
        if forall|i: int| 0 <= i < cols.len() ==> ident_ok(#[trigger] cols[i]) {
            assert(forall|i: int|
                0 <= i < cols.len() - 1 ==> cols.drop_last()[i] == cols[i]);
            assert(colswf(cs.drop_last()));
            assert(ident_ok(cs.last().0));
        }
    }
}

proof fn lemma_table_select(name: Seq<char>, cols: Seq<Seq<char>>, base: u64)
    requires
        base + cols.len() <= u64::MAX,
        ident_ok(name),
        cols.len() > 0,
        forall|i: int| 0 <= i < cols.len() ==> ident_ok(#[trigger] cols[i]),
    ensures
        swf(spec_table_select(name, cols, base)),
        souts(spec_table_select(name, cols, base)) == alias_range(base, cols.len()),
{
    let ts = spec_table_select(name, cols, base);
    lemma_table_cols_defs(cols, base);
    assert(ts.sources.drop_last() =~= Seq::<SpecSource>::empty());
    assert(crate::ast::srcswf(Seq::<SpecSource>::empty()));
    assert(crate::ast::srcwf(SpecSource::Table(name)));
    assert(crate::ast::srcswf(ts.sources));
    assert(crate::ast::srcsouts(Seq::<SpecSource>::empty()) == Seq::<u64>::empty());
    let vis = crate::ast::srcsouts(ts.sources);
    assert(eswf(ts.filters, vis));
    assert(crate::ast::oswf(ts.orders, vis + crate::ast::wout(ts.window)));
    assert(crate::ast::pwf(ts.proj, vis));
    assert(swf(ts));
}

// ---------------------------------------------------------------------------
// The query-building context
// ---------------------------------------------------------------------------

/// One query-building context: a scope identifier and the operation log
/// accumulated for it. Created fresh per top-level query or independent
/// sub-query; consumed when reified.
#[derive(Debug)]
pub struct QueryRef {
    pub scope: u64,
    pub ops: Vec<Operation>,
}

impl QueryRef {
    /// The ghost operation log.
    pub open spec fn log(self) -> Seq<SpecOp> {
        ops_view(self.ops@)
    }

    /// Aliases that operations so far have made referenceable.
    pub open spec fn exposed(self) -> Seq<u64> {
        opsexposed(self.log())
    }

    /// Aliases that the log introduces, at any depth.
    pub open spec fn defs(self) -> Seq<u64> {
        opsdefs(self.log())
    }

    /// The context's invariant: a well-formed log that, once nonempty,
    /// starts with a FROM.
    pub open spec fn inv(self) -> bool {
        &&& log_wf(self.log())
        &&& self.log().len() > 0 ==> self.log()[0] is From
    }

    /// A fresh, empty context. Its scope identifier is drawn from the
    /// same allocator as the aliases, so distinct contexts never share a
    /// scope.
    pub fn new(g: &mut AliasGen) -> (q: QueryRef)
        requires
            old(g).next < u64::MAX,
        ensures
            q.inv(),
            q.log() == Seq::<SpecOp>::empty(),
            q.defs() == Seq::<u64>::empty(),
            q.exposed() == Seq::<u64>::empty(),
            q.scope == old(g).next,
            final(g).next == old(g).next + 1,
    {
        let a = MyAlias::new(g);
        let q = QueryRef { scope: a.id, ops: Vec::new() };
        proof {
            assert(q.log() =~= Seq::<SpecOp>::empty());
            assert(q.defs() =~= Seq::<u64>::empty());
            assert(q.exposed() =~= Seq::<u64>::empty());
        }
        q
    }

    /// Join a declared table: allocate one fresh alias per column, append
    /// the import to the log, and hand back one column handle per column,
    /// scoped to this context.
    #[verifier::loop_isolation(false)]
    pub fn join_table(&mut self, g: &mut AliasGen, schema: &TableSchema) -> (row: Row)
        requires
            old(self).inv(),
            schema.wf(),
            old(g).next + schema.columns@.len() <= u64::MAX,
        ensures
            final(self).inv(),
            final(self).scope == old(self).scope,
            final(g).next == old(g).next + schema.columns@.len(),
            final(self).log() == old(self).log().push(
                SpecOp::From(
                    spec_table_select(schema.name@, strs_view(schema.columns@), old(g).next),
                ),
            ),
            final(self).exposed() == old(self).exposed() + alias_range(
                old(g).next,
                schema.columns@.len(),
            ),
            final(self).defs() == old(self).defs() + alias_range(
                old(g).next,
                schema.columns@.len(),
            ),
            row.vals@.len() == schema.columns@.len(),
            row.scoped(old(self).scope),
            forall|i: int|
                0 <= i < row.vals@.len() ==> (#[trigger] row.exprs()[i]) == SpecExpr::Col(
                    (old(g).next + i) as u64,
                ),
            eswf(row.exprs(), final(self).exposed()),
    {
        let ghost base = g.next;
        let ghost colsv = strs_view(schema.columns@);
        proof {
            lemma_strs_view_len(schema.columns@);
        }
        let n = schema.columns.len();
        let mut cols: Vec<(String, u64)> = Vec::new();
        let mut vals: Vec<Value> = Vec::new();
        let mut i: usize = 0;
        while i < n
            invariant
                0 <= i <= n,
                n == schema.columns@.len(),
                g.next == base + i,
                base + n <= u64::MAX,
                cols@.len() == i,
                vals@.len() == i,
                cols_view(cols@) == spec_table_cols(colsv, base).subrange(0, i as int),
                vals_exprs(vals@) =~= Seq::new(i as nat, |j: int| SpecExpr::Col((base + j) as u64)),
                forall|j: int| 0 <= j < i ==> (#[trigger] vals@[j]).scope == self.scope,
            decreases n - i,
        {
            let a = MyAlias::new(g);
            let name = schema.columns[i].clone();
            let c = (name, a.id);
            let v = Value { scope: self.scope, expr: Expr::Col(a.id) };
            proof {
                lemma_cols_view_push(cols@, c);
                assert(cols_view(cols@).push((c.0@, c.1)) =~= spec_table_cols(
                    colsv,
                    base,
                ).subrange(0, i + 1));
                lemma_vals_exprs_push(vals@, v);
                assert(vals_exprs(vals@).push(v.sexpr()) =~= Seq::new(
                    (i + 1) as nat,
                    |j: int| SpecExpr::Col((base + j) as u64),
                ));
            }
            cols.push(c);
            vals.push(v);
            i = i + 1;
        }
        proof {
            assert(spec_table_cols(colsv, base).subrange(0, n as int) =~= spec_table_cols(
                colsv,
                base,
            ));
        }
        let tname = schema.name.clone();
        let leaf = Select {
            proj: Proj::Cols(cols),
            window: None,
            sources: {
                let mut ss: Vec<Source> = Vec::new();
                ss.push(Source::Table(tname));
                ss
            },
            filters: Vec::new(),
            orders: Vec::new(),
        };
        let ghost ts = spec_table_select(schema.name@, colsv, base);
        proof {
            assert(leaf.sources@.drop_last() =~= Seq::<Source>::empty());
            assert(sources_view(Seq::<Source>::empty()) =~= Seq::<SpecSource>::empty());
            assert(source_view(leaf.sources@.last()) == SpecSource::Table(schema.name@));
            assert(sources_view(leaf.sources@) =~= seq![SpecSource::Table(schema.name@)]);
            assert(exprs_view(Seq::<Expr>::empty()) =~= Seq::<SpecExpr>::empty());
            assert(crate::ast::orders_view(Seq::<(Expr, bool)>::empty())
                =~= Seq::<(SpecExpr, bool)>::empty());
            assert(select_view(leaf) == ts);
        }
        let op = Operation::From(leaf);
        proof {
            assert(crate::ast::op_view(op) == SpecOp::From(ts));
            lemma_ops_view_push(self.ops@, op);
            lemma_ops_push(old(self).log(), SpecOp::From(ts));
            lemma_table_select(schema.name@, colsv, base);
            lemma_table_cols_defs(colsv, base);
            assert(ts.sources.drop_last() =~= Seq::<SpecSource>::empty());
            assert(crate::ast::srcsdefs(Seq::<SpecSource>::empty()) == Seq::<u64>::empty());
            assert(crate::ast::srcsdefs(ts.sources) =~= Seq::<u64>::empty());
            assert(crate::ast::sdefs(ts) =~= alias_range(base, colsv.len()));
            assert(op_wf(SpecOp::From(ts), old(self).exposed()));
        }
        self.ops.push(op);
        proof {
            assert(self.log() == old(self).log().push(SpecOp::From(ts)));
            assert(self.log()[0] is From) by {
                if old(self).log().len() > 0 {
                    assert(self.log()[0] == old(self).log()[0]);
                }
            }
            // the row's handles reference exactly the fresh aliases
            let ghost es = vals_exprs(vals@);
            lemma_contains_concat(old(self).exposed(), alias_range(base, n as nat));
            assert forall|i2: int| 0 <= i2 < es.len() implies ewf(
                #[trigger] es[i2],
                self.exposed(),
            ) by {
                assert(es[i2] == SpecExpr::Col((base + i2) as u64));
                assert(alias_range(base, n as nat)[i2] == (base + i2) as u64);
                assert(alias_range(base, n as nat).contains((base + i2) as u64));
                assert(self.exposed().contains((base + i2) as u64));
            }
            lemma_eswf_pointwise(es, self.exposed());
        }
        Row { vals }
    }

    /// Append a WHERE predicate. If the log's tail stage is already past
    /// filtering, compilation will push the accumulated select down first,
    /// so the predicate only ever sees materialized columns.
    pub fn filter(&mut self, cond: &Value)
        requires
            old(self).inv(),
            old(self).log().len() > 0,
            cond.scope == old(self).scope,
            ewf(cond.sexpr(), old(self).exposed()),
        ensures
            final(self).inv(),
            final(self).scope == old(self).scope,
            final(self).log() == old(self).log().push(SpecOp::Filter(cond.sexpr())),
            final(self).exposed() == old(self).exposed(),
            final(self).defs() == old(self).defs() + crate::ast::edefs(cond.sexpr()),
    {
        let e = cond.expr.deep_clone();
        let op = Operation::Filter(e);
        proof {
            lemma_ops_view_push(self.ops@, op);
            lemma_ops_push(old(self).log(), SpecOp::Filter(cond.sexpr()));
        }
        self.ops.push(op);
        proof {
            assert(self.log()[0] == old(self).log()[0]);
            assert(self.exposed() =~= old(self).exposed());
        }
    }

    /// Append an ascending ORDER BY expression. Ordering never forces a
    /// push-down: it is legal at any stage.
    pub fn sort_by(&mut self, order: &Value)
        requires
            old(self).inv(),
            old(self).log().len() > 0,
            order.scope == old(self).scope,
            ewf(order.sexpr(), old(self).exposed()),
        ensures
            final(self).inv(),
            final(self).scope == old(self).scope,
            final(self).log() == old(self).log().push(SpecOp::Order(order.sexpr(), true)),
            final(self).exposed() == old(self).exposed(),
            final(self).defs() == old(self).defs() + crate::ast::edefs(order.sexpr()),
    {
        let e = order.expr.deep_clone();
        let op = Operation::Order(e, true);
        proof {
            lemma_ops_view_push(self.ops@, op);
            lemma_ops_push(old(self).log(), SpecOp::Order(order.sexpr(), true));
        }
        self.ops.push(op);
        proof {
            assert(self.log()[0] == old(self).log()[0]);
            assert(self.exposed() =~= old(self).exposed());
        }
    }

    /// Capture a grouping key for window/rank derivation. The log itself
    /// is not touched.
    pub fn group_by(&self, key: &Row) -> (gr: GroupRef)
        requires
            key.scoped(self.scope),
            key.vals@.len() > 0,
        ensures
            gr.scope == self.scope,
            gr.partition_view() == key.exprs(),
            gr.partition@.len() == key.vals@.len(),
    {
        GroupRef { scope: self.scope, partition: row_to_exprs(key) }
    }

    /// Join an independently built sub-query as a FROM source; its output
    /// row becomes referenceable in this context.
    pub fn join(&mut self, other: SubQueryRes) -> (row: Row)
        requires
            old(self).inv(),
            other.inv(),
        ensures
            final(self).inv(),
            final(self).scope == old(self).scope,
            final(self).log() == old(self).log().push(SpecOp::From(sfold(other.log()))),
            final(self).exposed() == old(self).exposed() + opsexposed(other.log()),
            final(self).defs() == old(self).defs() + opsdefs(other.log()),
            row.vals@.len() == other.row.vals@.len(),
            row.scoped(old(self).scope),
            row.exprs() == other.row.exprs(),
            eswf(row.exprs(), final(self).exposed()),
    {
        let ghost olog = other.log();
        let ghost orowv = other.row.exprs();
        proof {
            lemma_sfold_wf(olog);
            lemma_sfold_defs(olog);
        }
        let SubQueryRes { ops, row: orow } = other;
        let sel = MySelect { ops }.into_select(None);
        let op = Operation::From(sel);
        proof {
            lemma_ops_view_push(self.ops@, op);
            lemma_ops_push(old(self).log(), SpecOp::From(sfold(olog)));
            assert(op_wf(SpecOp::From(sfold(olog)), old(self).exposed()));
        }
        self.ops.push(op);
        proof {
            assert(self.log()[0] is From) by {
                if old(self).log().len() > 0 {
                    assert(self.log()[0] == old(self).log()[0]);
                }
            }
            assert(souts(sfold(olog)) == opsexposed(olog));
            lemma_contains_concat(old(self).exposed(), opsexposed(olog));
            assert(sub_aliases(opsexposed(olog), self.exposed()));
            lemma_eswf_mono(orowv, opsexposed(olog), self.exposed());
        }
        // re-expose the sub-query's output handles under this scope
        let mut vals: Vec<Value> = Vec::new();
        let mut i: usize = 0;
        let n = orow.vals.len();
        #[verifier::loop_isolation(false)]
        while i < n
            invariant
                0 <= i <= n,
                n == orow.vals@.len(),
                vals@.len() == i,
                vals_exprs(vals@) == vals_exprs(orow.vals@.subrange(0, i as int)),
                forall|j: int| 0 <= j < i ==> (#[trigger] vals@[j]).scope == self.scope,
            decreases n - i,
        {
            let v = Value { scope: self.scope, expr: orow.vals[i].expr.deep_clone() };
            proof {
                lemma_vals_exprs_push(vals@, v);
                lemma_vals_exprs_push(orow.vals@.subrange(0, i as int), orow.vals@[i as int]);
                assert(orow.vals@.subrange(0, i + 1).drop_last() =~= orow.vals@.subrange(
                    0,
                    i as int,
                ));
            }
            vals.push(v);
            i = i + 1;
        }
        proof {
            assert(orow.vals@.subrange(0, orow.vals@.len() as int) =~= orow.vals@);
        }
        Row { vals }
    }

    /// Close this context over an output row, yielding a sub-query
    /// descriptor that can be joined or used for containment tests.
    pub fn into_sub(self, row: Row) -> (r: SubQueryRes)
        requires
            self.inv(),
            self.log().len() > 0,
            row.scoped(self.scope),
            row.vals@.len() > 0,
            eswf(row.exprs(), self.exposed()),
        ensures
            r.inv(),
            r.log() == self.log(),
            r.row.exprs() == row.exprs(),
            r.row.vals@.len() == row.vals@.len(),
    {
        SubQueryRes { ops: self.ops, row }
    }
}

// ---------------------------------------------------------------------------
// Grouping and ranking
// ---------------------------------------------------------------------------

/// A grouping key bound to a scope; derives rank columns.
#[derive(Debug)]
pub struct GroupRef {
    pub scope: u64,
    pub partition: Vec<Expr>,
}

impl GroupRef {
    pub open spec fn partition_view(self) -> Seq<SpecExpr> {
        exprs_view(self.partition@)
    }

    fn rank_internal(&self, q: &mut QueryRef, g: &mut AliasGen, val: &Value, asc: bool) -> (r:
        Value)
        requires
            old(q).inv(),
            old(q).log().len() > 0,
            self.scope == old(q).scope,
            val.scope == old(q).scope,
            ewf(val.sexpr(), old(q).exposed()),
            eswf(self.partition_view(), old(q).exposed()),
            self.partition@.len() > 0,
            old(g).next < u64::MAX,
        ensures
            final(q).inv(),
            final(q).scope == old(q).scope,
            final(g).next == old(g).next + 1,
            r.scope == old(q).scope,
            r.sexpr() == SpecExpr::Col(old(g).next),
            final(q).log() == old(q).log().push(
                SpecOp::Window(
                    SpecWindow {
                        val: val.sexpr(),
                        partition: self.partition_view(),
                        asc: asc,
                        out: old(g).next,
                    },
                ),
            ),
            final(q).exposed() == old(q).exposed() + seq![old(g).next],
            final(q).defs() == old(q).defs() + crate::ast::edefs(val.sexpr()) + esdefs(
                self.partition_view(),
            ) + seq![old(g).next],
            ewf(r.sexpr(), final(q).exposed()),
    {
        let a = MyAlias::new(g);
        let w = WindowDef {
            val: val.expr.deep_clone(),
            partition: crate::ast::clone_exprs(&self.partition),
            asc: asc,
            out: a.id,
        };
        let ghost wv = SpecWindow {
            val: val.sexpr(),
            partition: self.partition_view(),
            asc: asc,
            out: a.id,
        };
        let op = Operation::Window(w);
        proof {
            lemma_exprs_view_len(self.partition@);
            lemma_ops_view_push(q.ops@, op);
            lemma_ops_push(old(q).log(), SpecOp::Window(wv));
            assert(op_wf(SpecOp::Window(wv), old(q).exposed()));
        }
        q.ops.push(op);
        proof {
            assert(q.log()[0] == old(q).log()[0]);
            lemma_contains_concat(old(q).exposed(), seq![a.id]);
            assert(seq![a.id][0] == a.id);
            assert(seq![a.id].contains(a.id));
            assert(q.exposed().contains(a.id));
        }
        Value { scope: self.scope, expr: Expr::Col(a.id) }
    }

    /// The zero-based rank of each row within its group, ascending in the
    /// given value. Forces a push-down at compilation if the level is
    /// already past filtering.
    pub fn rank_asc(&self, q: &mut QueryRef, g: &mut AliasGen, val: &Value) -> (r: Value)
        requires
            old(q).inv(),
            old(q).log().len() > 0,
            self.scope == old(q).scope,
            val.scope == old(q).scope,
            ewf(val.sexpr(), old(q).exposed()),
            eswf(self.partition_view(), old(q).exposed()),
            self.partition@.len() > 0,
            old(g).next < u64::MAX,
        ensures
            final(q).inv(),
            final(q).scope == old(q).scope,
            final(g).next == old(g).next + 1,
            r.scope == old(q).scope,
            r.sexpr() == SpecExpr::Col(old(g).next),
            final(q).log() == old(q).log().push(
                SpecOp::Window(
                    SpecWindow {
                        val: val.sexpr(),
                        partition: self.partition_view(),
                        asc: true,
                        out: old(g).next,
                    },
                ),
            ),
            final(q).exposed() == old(q).exposed() + seq![old(g).next],
            final(q).defs() == old(q).defs() + crate::ast::edefs(val.sexpr()) + esdefs(
                self.partition_view(),
            ) + seq![old(g).next],
            ewf(r.sexpr(), final(q).exposed()),
    {
        self.rank_internal(q, g, val, true)
    }

    /// The zero-based rank, descending in the given value: rank 0 is the
    /// greatest value of its group.
    pub fn rank_desc(&self, q: &mut QueryRef, g: &mut AliasGen, val: &Value) -> (r: Value)
        requires
            old(q).inv(),
            old(q).log().len() > 0,
            self.scope == old(q).scope,
            val.scope == old(q).scope,
            ewf(val.sexpr(), old(q).exposed()),
            eswf(self.partition_view(), old(q).exposed()),
            self.partition@.len() > 0,
            old(g).next < u64::MAX,
        ensures
            final(q).inv(),
            final(q).scope == old(q).scope,
            final(g).next == old(g).next + 1,
            r.scope == old(q).scope,
            r.sexpr() == SpecExpr::Col(old(g).next),
            final(q).log() == old(q).log().push(
                SpecOp::Window(
                    SpecWindow {
                        val: val.sexpr(),
                        partition: self.partition_view(),
                        asc: false,
                        out: old(g).next,
                    },
                ),
            ),
            final(q).exposed() == old(q).exposed() + seq![old(g).next],
            final(q).defs() == old(q).defs() + crate::ast::edefs(val.sexpr()) + esdefs(
                self.partition_view(),
            ) + seq![old(g).next],
            ewf(r.sexpr(), final(q).exposed()),
    {
        self.rank_internal(q, g, val, false)
    }
}

// ---------------------------------------------------------------------------
// Closed sub-queries and containment
// ---------------------------------------------------------------------------

/// A closed query: an operation log together with its output row. No
/// handle of any other scope can have entered it.
#[derive(Debug)]
pub struct SubQueryRes {
    pub ops: Vec<Operation>,
    pub row: Row,
}

impl SubQueryRes {
    pub open spec fn log(self) -> Seq<SpecOp> {
        ops_view(self.ops@)
    }

    pub open spec fn inv(self) -> bool {
        &&& log_wf(self.log())
        &&& log_rooted(self.log())
        &&& self.row.vals@.len() > 0
        &&& eswf(self.row.exprs(), opsexposed(self.log()))
    }

}

/// A fully compiled, closed query descriptor, usable for tuple-membership
/// tests against its output row.
#[derive(Debug)]
pub struct SubQuery {
    pub res: SubQueryRes,
}

impl SubQuery {
    pub fn new(res: SubQueryRes) -> (r: SubQuery)
        ensures
            r.res.log() == res.log(),
            r.res.row.exprs() == res.row.exprs(),
            r.res.row.vals@.len() == res.row.vals@.len(),
            res.inv() ==> r.res.inv(),
    {
        SubQuery { res }
    }

    /// The tuple-membership test `(v1, .., vk) IN (SELECT ..)`. The
    /// tuple's arity must match the sub-query's output row exactly.
    pub fn contains(&self, val: &Row) -> (r: Value)
        requires
            self.res.inv(),
            val.vals@.len() == self.res.row.vals@.len(),
            val.vals@.len() > 0,
            val.scoped(val.vals@[0].scope),
        ensures
            r.scope == val.vals@[0].scope,
            r.sexpr() == SpecExpr::InSelect(
                val.exprs(),
                Box::new(spec_finish(self.res.log(), self.res.row.exprs())),
            ),
            swf(spec_finish(self.res.log(), self.res.row.exprs())),
            spec_finish(self.res.log(), self.res.row.exprs()).proj == SpecProj::Exprs(
                self.res.row.exprs(),
            ),
            val.exprs().len() == val.vals@.len(),
            self.res.row.exprs().len() == val.exprs().len(),
            // the handle is well-formed wherever the tuple's handles are
            forall|vis: Seq<u64>| eswf(val.exprs(), vis) ==> ewf(r.sexpr(), vis),
    {
        proof {
            crate::value::lemma_vals_exprs_len(val.vals@);
            crate::value::lemma_vals_exprs_len(self.res.row.vals@);
            lemma_finish_wf(self.res.log(), self.res.row.exprs());
        }
        let ops2 = clone_ops(&self.res.ops);
        let row2 = row_to_exprs(&self.res.row);
        let sel = MySelect { ops: ops2 }.into_select(Some(row2));
        let tuple = row_to_exprs(val);
        let scope = val.vals[0].scope;
        let r = Value { scope, expr: Expr::InSelect(tuple, Box::new(sel)) };
        proof {
            assert(r.sexpr() == SpecExpr::InSelect(
                val.exprs(),
                Box::new(spec_finish(self.res.log(), self.res.row.exprs())),
            ));
        }
        r
    }
}

} // verus!
