//! The application's tables and its central query: the bench queue — the
//! most recent instances per problem whose submitted solutions have not
//! been executed yet — compiled to SQL with its structural guarantees
//! proved.

use vstd::prelude::*;

use crate::alias::AliasGen;
use crate::ast::{
    edefs, esdefs, ewf, eswf, ident_ok, lemma_contains_concat, lemma_finish_defs, opsdefs,
    opsexposed, sdefs, sfold, spec_finish, swf, SpecExpr, SpecOp, SpecWindow,
};
use crate::laws::{lemma_alias_range, lemma_alias_uniqueness, lemma_no_dup_concat};
use crate::query::{alias_range, spec_table_select, strs_view, QueryRef, SubQuery, SubQueryRes, TableSchema};
use crate::render::{spec_select_params, spec_select_sql, CompiledSelect};
use crate::value::{lemma_vals_exprs_push, lemma_vals_exprs_index, vals_exprs, Row, Value};

verus! {

// ---------------------------------------------------------------------------
// Table descriptors
// ---------------------------------------------------------------------------

/// `instance(id, timestamp, problem, seed)`: one generated benchmark
/// instance of a problem.
pub fn instance_schema() -> (s: TableSchema)
    ensures
        s.wf(),
        s.columns@.len() == 4,
        s.name@ == "instance"@,
        strs_view(s.columns@) == seq!["id"@, "timestamp"@, "problem"@, "seed"@],
{
    let mut columns: Vec<String> = Vec::new();
    columns.push("id".to_owned());
    columns.push("timestamp".to_owned());
    columns.push("problem".to_owned());
    columns.push("seed".to_owned());
    let s = TableSchema { name: "instance".to_owned(), columns };
    proof {
        reveal_strlit("instance");
        reveal_strlit("id");
        reveal_strlit("timestamp");
        reveal_strlit("problem");
        reveal_strlit("seed");
        assert(ident_ok(s.name@));
        assert forall|i: int| 0 <= i < s.columns@.len() implies ident_ok(
            (#[trigger] s.columns@[i])@,
        ) by {
            if i == 0 {
                assert(ident_ok(s.columns@[0]@));
            } else if i == 1 {
                assert(ident_ok(s.columns@[1]@));
            } else if i == 2 {
                assert(ident_ok(s.columns@[2]@));
            } else {
                assert(ident_ok(s.columns@[3]@));
            }
        }
        let p1 = Seq::<String>::empty().push(s.columns@[0]);
        let p2 = p1.push(s.columns@[1]);
        let p3 = p2.push(s.columns@[2]);
        assert(s.columns@ =~= p3.push(s.columns@[3]));
        assert(p1.drop_last() =~= Seq::<String>::empty());
        assert(p2.drop_last() =~= p1);
        assert(p3.drop_last() =~= p2);
        assert(s.columns@.drop_last() =~= p3);
        assert(strs_view(Seq::<String>::empty()) =~= Seq::<Seq<char>>::empty());
        assert(strs_view(p1) =~= seq!["id"@]);
        assert(strs_view(p2) =~= seq!["id"@, "timestamp"@]);
        assert(strs_view(p3) =~= seq!["id"@, "timestamp"@, "problem"@]);
        assert(strs_view(s.columns@) =~= seq!["id"@, "timestamp"@, "problem"@, "seed"@]);
    }
    s
}

fn two_column_schema(name: &str, c0: &str, c1: &str) -> (s: TableSchema)
    requires
        ident_ok(name@),
        ident_ok(c0@),
        ident_ok(c1@),
    ensures
        s.wf(),
        s.columns@.len() == 2,
        s.name@ == name@,
        strs_view(s.columns@) == seq![c0@, c1@],
{
    let mut columns: Vec<String> = Vec::new();
    columns.push(c0.to_owned());
    columns.push(c1.to_owned());
    let s = TableSchema { name: name.to_owned(), columns };
    proof {
        assert forall|i: int| 0 <= i < s.columns@.len() implies ident_ok(
            (#[trigger] s.columns@[i])@,
        ) by {
            if i == 0 {
                assert(ident_ok(s.columns@[0]@));
            } else {
                assert(ident_ok(s.columns@[1]@));
            }
        }
        let p1 = Seq::<String>::empty().push(s.columns@[0]);
        assert(s.columns@ =~= p1.push(s.columns@[1]));
        assert(p1.drop_last() =~= Seq::<String>::empty());
        assert(s.columns@.drop_last() =~= p1);
        assert(strs_view(Seq::<String>::empty()) =~= Seq::<Seq<char>>::empty());
        assert(strs_view(p1) =~= seq![c0@]);
        assert(strs_view(s.columns@) =~= seq![c0@, c1@]);
    }
    s
}

/// `solution(id, file_hash)`: an uploaded program.
pub fn solution_schema() -> (s: TableSchema)
    ensures
        s.wf(),
        s.columns@.len() == 2,
        s.name@ == "solution"@,
        strs_view(s.columns@) == seq!["id"@, "file_hash"@],
{
    proof {
        reveal_strlit("solution");
        reveal_strlit("id");
        reveal_strlit("file_hash");
    }
    two_column_schema("solution", "id", "file_hash")
}

/// `problem(id, file_hash)`: a benchmark problem.
pub fn problem_schema() -> (s: TableSchema)
    ensures
        s.wf(),
        s.columns@.len() == 2,
        s.name@ == "problem"@,
        strs_view(s.columns@) == seq!["id"@, "file_hash"@],
{
    proof {
        reveal_strlit("problem");
        reveal_strlit("id");
        reveal_strlit("file_hash");
    }
    two_column_schema("problem", "id", "file_hash")
}

/// `submission(solution, problem)`: which solutions were submitted to
/// which problems.
pub fn submission_schema() -> (s: TableSchema)
    ensures
        s.wf(),
        s.columns@.len() == 2,
        s.name@ == "submission"@,
        strs_view(s.columns@) == seq!["solution"@, "problem"@],
{
    proof {
        reveal_strlit("submission");
        reveal_strlit("solution");
        reveal_strlit("problem");
    }
    two_column_schema("submission", "solution", "problem")
}

/// `execution(solution, instance)`: which solutions already ran on which
/// instances.
pub fn execution_schema() -> (s: TableSchema)
    ensures
        s.wf(),
        s.columns@.len() == 2,
        s.name@ == "execution"@,
        strs_view(s.columns@) == seq!["solution"@, "instance"@],
{
    proof {
        reveal_strlit("execution");
        reveal_strlit("solution");
        reveal_strlit("instance");
    }
    two_column_schema("execution", "solution", "instance")
}

// ---------------------------------------------------------------------------
// Typed handles per table
// ---------------------------------------------------------------------------

pub struct Instance {
    pub id: Value,
    pub timestamp: Value,
    pub problem: Value,
    pub seed: Value,
}

impl Instance {
    /// Join the instance table into the context.
    pub fn join(q: &mut QueryRef, g: &mut AliasGen) -> (r: Instance)
        requires
            old(q).inv(),
            old(g).next + 4 <= u64::MAX,
        ensures
            final(q).inv(),
            final(q).scope == old(q).scope,
            final(q).log().len() == old(q).log().len() + 1,
            final(g).next == old(g).next + 4,
            final(q).exposed() == old(q).exposed() + alias_range(old(g).next, 4),
            final(q).defs() == old(q).defs() + alias_range(old(g).next, 4),
            final(q).log() == old(q).log().push(
                SpecOp::From(
                    spec_table_select(
                        "instance"@,
                        seq!["id"@, "timestamp"@, "problem"@, "seed"@],
                        old(g).next,
                    ),
                ),
            ),
            r.id.scope == old(q).scope && r.timestamp.scope == old(q).scope
                && r.problem.scope == old(q).scope && r.seed.scope == old(q).scope,
            r.id.sexpr() == SpecExpr::Col(old(g).next),
            r.timestamp.sexpr() == SpecExpr::Col((old(g).next + 1) as u64),
            r.problem.sexpr() == SpecExpr::Col((old(g).next + 2) as u64),
            r.seed.sexpr() == SpecExpr::Col((old(g).next + 3) as u64),
    {
        let ghost base = g.next;
        let schema = instance_schema();
        let row = q.join_table(g, &schema);
        proof {
            lemma_vals_exprs_index(row.vals@);
            crate::value::lemma_vals_exprs_len(row.vals@);
            assert(row.exprs()[0] == SpecExpr::Col(base));
            assert(row.exprs()[1] == SpecExpr::Col((base + 1) as u64));
            assert(row.exprs()[2] == SpecExpr::Col((base + 2) as u64));
            assert(row.exprs()[3] == SpecExpr::Col((base + 3) as u64));
            assert(row.vals@[0].sexpr() == row.exprs()[0]);
            assert(row.vals@[1].sexpr() == row.exprs()[1]);
            assert(row.vals@[2].sexpr() == row.exprs()[2]);
            assert(row.vals@[3].sexpr() == row.exprs()[3]);
        }
        Instance { id: row.get(0), timestamp: row.get(1), problem: row.get(2), seed: row.get(3) }
    }
}

/// A pair of handles imported from a two-column table.
struct TablePair {
    first: Value,
    second: Value,
}

fn join_two(q: &mut QueryRef, g: &mut AliasGen, schema: &TableSchema) -> (r: TablePair)
    requires
        old(q).inv(),
        schema.wf(),
        schema.columns@.len() == 2,
        old(g).next + 2 <= u64::MAX,
    ensures
        final(q).inv(),
        final(q).scope == old(q).scope,
        final(q).log().len() == old(q).log().len() + 1,
        final(g).next == old(g).next + 2,
        final(q).exposed() == old(q).exposed() + alias_range(old(g).next, 2),
        final(q).defs() == old(q).defs() + alias_range(old(g).next, 2),
        final(q).log() == old(q).log().push(
            SpecOp::From(
                spec_table_select(schema.name@, strs_view(schema.columns@), old(g).next),
            ),
        ),
        r.first.scope == old(q).scope && r.second.scope == old(q).scope,
        r.first.sexpr() == SpecExpr::Col(old(g).next),
        r.second.sexpr() == SpecExpr::Col((old(g).next + 1) as u64),
{
    let ghost base = g.next;
    let row = q.join_table(g, schema);
    proof {
        lemma_vals_exprs_index(row.vals@);
        crate::value::lemma_vals_exprs_len(row.vals@);
        assert(row.exprs()[0] == SpecExpr::Col(base));
        assert(row.exprs()[1] == SpecExpr::Col((base + 1) as u64));
        assert(row.vals@[0].sexpr() == row.exprs()[0]);
        assert(row.vals@[1].sexpr() == row.exprs()[1]);
    }
    TablePair { first: row.get(0), second: row.get(1) }
}

pub struct Solution {
    pub id: Value,
    pub file_hash: Value,
}

impl Solution {
    pub fn join(q: &mut QueryRef, g: &mut AliasGen) -> (r: Solution)
        requires
            old(q).inv(),
            old(g).next + 2 <= u64::MAX,
        ensures
            final(q).inv(),
            final(q).scope == old(q).scope,
            final(q).log().len() == old(q).log().len() + 1,
            final(g).next == old(g).next + 2,
            final(q).exposed() == old(q).exposed() + alias_range(old(g).next, 2),
            final(q).defs() == old(q).defs() + alias_range(old(g).next, 2),
            final(q).log() == old(q).log().push(
                SpecOp::From(
                    spec_table_select("solution"@, seq!["id"@, "file_hash"@], old(g).next),
                ),
            ),
            r.id.scope == old(q).scope && r.file_hash.scope == old(q).scope,
            r.id.sexpr() == SpecExpr::Col(old(g).next),
            r.file_hash.sexpr() == SpecExpr::Col((old(g).next + 1) as u64),
    {
        let schema = solution_schema();
        let p = join_two(q, g, &schema);
        Solution { id: p.first, file_hash: p.second }
    }
}

pub struct Problem {
    pub id: Value,
    pub file_hash: Value,
}

impl Problem {
    pub fn join(q: &mut QueryRef, g: &mut AliasGen) -> (r: Problem)
        requires
            old(q).inv(),
            old(g).next + 2 <= u64::MAX,
        ensures
            final(q).inv(),
            final(q).scope == old(q).scope,
            final(q).log().len() == old(q).log().len() + 1,
            final(g).next == old(g).next + 2,
            final(q).exposed() == old(q).exposed() + alias_range(old(g).next, 2),
            final(q).defs() == old(q).defs() + alias_range(old(g).next, 2),
            final(q).log() == old(q).log().push(
                SpecOp::From(
                    spec_table_select("problem"@, seq!["id"@, "file_hash"@], old(g).next),
                ),
            ),
            r.id.scope == old(q).scope && r.file_hash.scope == old(q).scope,
            r.id.sexpr() == SpecExpr::Col(old(g).next),
            r.file_hash.sexpr() == SpecExpr::Col((old(g).next + 1) as u64),
    {
        let schema = problem_schema();
        let p = join_two(q, g, &schema);
        Problem { id: p.first, file_hash: p.second }
    }
}

pub struct Submission {
    pub solution: Value,
    pub problem: Value,
}

impl Submission {
    pub fn join(q: &mut QueryRef, g: &mut AliasGen) -> (r: Submission)
        requires
            old(q).inv(),
            old(g).next + 2 <= u64::MAX,
        ensures
            final(q).inv(),
            final(q).scope == old(q).scope,
            final(q).log().len() == old(q).log().len() + 1,
            final(g).next == old(g).next + 2,
            final(q).exposed() == old(q).exposed() + alias_range(old(g).next, 2),
            final(q).defs() == old(q).defs() + alias_range(old(g).next, 2),
            final(q).log() == old(q).log().push(
                SpecOp::From(
                    spec_table_select("submission"@, seq!["solution"@, "problem"@], old(g).next),
                ),
            ),
            r.solution.scope == old(q).scope && r.problem.scope == old(q).scope,
            r.solution.sexpr() == SpecExpr::Col(old(g).next),
            r.problem.sexpr() == SpecExpr::Col((old(g).next + 1) as u64),
    {
        let schema = submission_schema();
        let p = join_two(q, g, &schema);
        Submission { solution: p.first, problem: p.second }
    }
}

pub struct Execution {
    pub solution: Value,
    pub instance: Value,
}

impl Execution {
    pub fn join(q: &mut QueryRef, g: &mut AliasGen) -> (r: Execution)
        requires
            old(q).inv(),
            old(g).next + 2 <= u64::MAX,
        ensures
            final(q).inv(),
            final(q).scope == old(q).scope,
            final(q).log().len() == old(q).log().len() + 1,
            final(g).next == old(g).next + 2,
            final(q).exposed() == old(q).exposed() + alias_range(old(g).next, 2),
            final(q).defs() == old(q).defs() + alias_range(old(g).next, 2),
            final(q).log() == old(q).log().push(
                SpecOp::From(
                    spec_table_select("execution"@, seq!["solution"@, "instance"@], old(g).next),
                ),
            ),
            r.solution.scope == old(q).scope && r.instance.scope == old(q).scope,
            r.solution.sexpr() == SpecExpr::Col(old(g).next),
            r.instance.sexpr() == SpecExpr::Col((old(g).next + 1) as u64),
    {
        let schema = execution_schema();
        let p = join_two(q, g, &schema);
        Execution { solution: p.first, instance: p.second }
    }
}

// ---------------------------------------------------------------------------
// Small ghost helpers for rows of plain column references
// ---------------------------------------------------------------------------

proof fn lemma_col_defs(a: u64)
    ensures
        edefs(SpecExpr::Col(a)) == Seq::<u64>::empty(),
{
}

proof fn lemma_single_col(a: u64, vis: Seq<u64>)
    requires
        vis.contains(a),
    ensures
        esdefs(seq![SpecExpr::Col(a)]) == Seq::<u64>::empty(),
        eswf(seq![SpecExpr::Col(a)], vis),
{
    let s = seq![SpecExpr::Col(a)];
    assert(s.drop_last() =~= Seq::<SpecExpr>::empty());
    assert(esdefs(Seq::<SpecExpr>::empty()) == Seq::<u64>::empty());
    assert(eswf(Seq::<SpecExpr>::empty(), vis));
    assert(edefs(SpecExpr::Col(a)) =~= Seq::<u64>::empty());
    assert(ewf(SpecExpr::Col(a), vis));
    assert(esdefs(s) =~= Seq::<u64>::empty());
    assert(eswf(s, vis));
}

proof fn lemma_pair_cols(a: u64, b: u64, vis: Seq<u64>)
    requires
        vis.contains(a),
        vis.contains(b),
    ensures
        esdefs(seq![SpecExpr::Col(a), SpecExpr::Col(b)]) == Seq::<u64>::empty(),
        eswf(seq![SpecExpr::Col(a), SpecExpr::Col(b)], vis),
{
    let s = seq![SpecExpr::Col(a), SpecExpr::Col(b)];
    assert(s.drop_last() =~= seq![SpecExpr::Col(a)]);
    lemma_single_col(a, vis);
    assert(edefs(SpecExpr::Col(b)) =~= Seq::<u64>::empty());
    assert(ewf(SpecExpr::Col(b), vis));
    assert(esdefs(s) =~= Seq::<u64>::empty());
    assert(eswf(s, vis));
}

/// A row of three handles of one scope.
fn row3(a: Value, b: Value, c: Value) -> (r: Row)
    requires
        a.scope == b.scope,
        b.scope == c.scope,
    ensures
        r.exprs() == seq![a.sexpr(), b.sexpr(), c.sexpr()],
        r.scoped(a.scope),
        r.vals@.len() == 3,
{
    let ghost sa = a;
    let ghost sb = b;
    let ghost sc = c;
    let mut vals: Vec<Value> = Vec::new();
    vals.push(a);
    vals.push(b);
    vals.push(c);
    proof {
        assert(vals@ =~= Seq::<Value>::empty().push(sa).push(sb).push(sc));
        lemma_vals_exprs_push(Seq::<Value>::empty().push(sa).push(sb), sc);
        lemma_vals_exprs_push(Seq::<Value>::empty().push(sa), sb);
        assert(Seq::<Value>::empty().push(sa).drop_last() =~= Seq::<Value>::empty());
        assert(vals_exprs(Seq::<Value>::empty()) =~= Seq::<SpecExpr>::empty());
        assert(vals_exprs(vals@) =~= seq![sa.sexpr(), sb.sexpr(), sc.sexpr()]);
    }
    Row { vals }
}

/// A row of four handles of one scope.
fn row4(a: Value, b: Value, c: Value, d: Value) -> (r: Row)
    requires
        a.scope == b.scope,
        b.scope == c.scope,
        c.scope == d.scope,
    ensures
        r.exprs() == seq![a.sexpr(), b.sexpr(), c.sexpr(), d.sexpr()],
        r.scoped(a.scope),
        r.vals@.len() == 4,
{
    let ghost sa = a;
    let ghost sb = b;
    let ghost sc = c;
    let ghost sd = d;
    let mut vals: Vec<Value> = Vec::new();
    vals.push(a);
    vals.push(b);
    vals.push(c);
    vals.push(d);
    proof {
        assert(vals@ =~= Seq::<Value>::empty().push(sa).push(sb).push(sc).push(sd));
        lemma_vals_exprs_push(Seq::<Value>::empty().push(sa).push(sb).push(sc), sd);
        lemma_vals_exprs_push(Seq::<Value>::empty().push(sa).push(sb), sc);
        lemma_vals_exprs_push(Seq::<Value>::empty().push(sa), sb);
        assert(Seq::<Value>::empty().push(sa).drop_last() =~= Seq::<Value>::empty());
        assert(vals_exprs(Seq::<Value>::empty()) =~= Seq::<SpecExpr>::empty());
        assert(vals_exprs(vals@) =~= seq![sa.sexpr(), sb.sexpr(), sc.sexpr(), sd.sexpr()]);
    }
    Row { vals }
}

// ---------------------------------------------------------------------------
// The bench-queue query
// ---------------------------------------------------------------------------

/// The most recent instances per problem: joins the instance table,
/// ranks instances of one problem by recency and keeps the five newest
/// (ranks 0 to 4), sorted by timestamp.
#[verifier::rlimit(100)]
#[verifier::spinoff_prover]
pub fn bench_instances(q: &mut QueryRef, g: &mut AliasGen) -> (r: Instance)
    requires
        old(q).inv(),
        old(g).next + 5 <= u64::MAX,
    ensures
        final(q).inv(),
        final(q).scope == old(q).scope,
        final(q).log().len() > 0,
        final(g).next == old(g).next + 5,
        final(q).exposed() == old(q).exposed() + alias_range(old(g).next, 5),
        final(q).defs() == old(q).defs() + alias_range(old(g).next, 5),
        final(q).log() == old(q).log().push(
            SpecOp::From(
                spec_table_select(
                    "instance"@,
                    seq!["id"@, "timestamp"@, "problem"@, "seed"@],
                    old(g).next,
                ),
            ),
        ).push(
            SpecOp::Window(
                SpecWindow {
                    val: SpecExpr::Col((old(g).next + 1) as u64),
                    partition: seq![SpecExpr::Col((old(g).next + 2) as u64)],
                    asc: false,
                    out: (old(g).next + 4) as u64,
                },
            ),
        ).push(
            SpecOp::Filter(SpecExpr::Lt(Box::new(SpecExpr::Col((old(g).next + 4) as u64)), 5)),
        ).push(SpecOp::Order(SpecExpr::Col((old(g).next + 1) as u64), true)),
        r.id.scope == old(q).scope && r.timestamp.scope == old(q).scope
            && r.problem.scope == old(q).scope && r.seed.scope == old(q).scope,
        r.id.sexpr() == SpecExpr::Col(old(g).next),
        r.timestamp.sexpr() == SpecExpr::Col((old(g).next + 1) as u64),
        r.problem.sexpr() == SpecExpr::Col((old(g).next + 2) as u64),
        r.seed.sexpr() == SpecExpr::Col((old(g).next + 3) as u64),
    {
    let ghost n0 = g.next;
    let ghost e0 = q.exposed();
    let ghost d0 = q.defs();
    let instance = Instance::join(q, g);
    proof {
        lemma_alias_range(n0, 4);
        lemma_contains_concat(e0, alias_range(n0, 4));
        assert(alias_range(n0, 4).contains((n0 + 1) as u64));
        assert(alias_range(n0, 4).contains((n0 + 2) as u64));
        assert(q.exposed().contains((n0 + 1) as u64));
        assert(q.exposed().contains((n0 + 2) as u64));
    }
    let key = Row::single(instance.problem.deep_clone());
    let grp = q.group_by(&key);
    proof {
        assert(grp.partition_view() == seq![SpecExpr::Col((n0 + 2) as u64)]);
        lemma_single_col((n0 + 2) as u64, q.exposed());
        assert(ewf(instance.timestamp.sexpr(), q.exposed()));
    }
    let rank = grp.rank_desc(q, g, &instance.timestamp);
    let ghost e2 = q.exposed();
    let is_new = rank.lt(5);
    proof {
        lemma_contains_concat(e0 + alias_range(n0, 4), seq![(n0 + 4) as u64]);
        assert(seq![(n0 + 4) as u64][0] == (n0 + 4) as u64);
        assert(seq![(n0 + 4) as u64].contains((n0 + 4) as u64));
        assert(q.exposed().contains((n0 + 4) as u64));
        assert(ewf(is_new.sexpr(), q.exposed()));
    }
    q.filter(&is_new);
    proof {
        assert(q.exposed() == e2);
        assert(q.exposed().contains((n0 + 1) as u64));
        assert(ewf(instance.timestamp.sexpr(), q.exposed()));
        assert(q.log().len() > 0);
    }
    q.sort_by(&instance.timestamp);
    proof {
        // the five fresh aliases: four columns and the rank output
        assert(alias_range(n0, 4) + seq![(n0 + 4) as u64] =~= alias_range(n0, 5));
        assert(q.exposed() =~= e0 + alias_range(n0, 5));
        lemma_col_defs((n0 + 1) as u64);
        lemma_col_defs((n0 + 2) as u64);
        lemma_col_defs((n0 + 4) as u64);
        assert(edefs(is_new.sexpr()) =~= Seq::<u64>::empty());
        assert(edefs(instance.timestamp.sexpr()) =~= Seq::<u64>::empty());
        assert(esdefs(seq![SpecExpr::Col((n0 + 2) as u64)]).len() == 0) by {
            assert(seq![SpecExpr::Col((n0 + 2) as u64)].drop_last() =~= Seq::<SpecExpr>::empty());
        }
        assert(q.defs() =~= d0 + alias_range(n0, 5));
        assert(q.log().len() > 0);
    }
    instance
}

/// The closed sub-query listing which solutions are submitted to which
/// problems.
pub fn sol_prob(g: &mut AliasGen) -> (r: SubQueryRes)
    requires
        old(g).next + 3 <= u64::MAX,
    ensures
        r.inv(),
        final(g).next == old(g).next + 3,
        r.row.vals@.len() == 2,
        opsdefs(r.log()) == alias_range((old(g).next + 1) as u64, 2),
        esdefs(r.row.exprs()) == Seq::<u64>::empty(),
        r.log() == seq![
            SpecOp::From(
                spec_table_select(
                    "submission"@,
                    seq!["solution"@, "problem"@],
                    (old(g).next + 1) as u64,
                ),
            ),
        ],
        r.row.exprs() == seq![
            SpecExpr::Col((old(g).next + 1) as u64),
            SpecExpr::Col((old(g).next + 2) as u64),
        ],
{
    let ghost n0 = g.next;
    let mut q = QueryRef::new(g);
    let submission = Submission::join(&mut q, g);
    let row = Row::pair(submission.solution, submission.problem);
    proof {
        assert(q.exposed() =~= alias_range((n0 + 1) as u64, 2));
        lemma_alias_range((n0 + 1) as u64, 2);
        assert(alias_range((n0 + 1) as u64, 2).contains((n0 + 1) as u64));
        assert(alias_range((n0 + 1) as u64, 2).contains((n0 + 2) as u64));
        assert(q.exposed().contains((n0 + 1) as u64));
        assert(q.exposed().contains((n0 + 2) as u64));
        lemma_pair_cols((n0 + 1) as u64, (n0 + 2) as u64, q.exposed());
        assert(q.defs() =~= alias_range((n0 + 1) as u64, 2));
        assert(q.log().len() > 0);
        assert(q.log() =~= seq![q.log()[0]]);
    }
    q.into_sub(row)
}

/// The closed sub-query listing which solutions already ran on which
/// instances.
pub fn sol_inst(g: &mut AliasGen) -> (r: SubQueryRes)
    requires
        old(g).next + 3 <= u64::MAX,
    ensures
        r.inv(),
        final(g).next == old(g).next + 3,
        r.row.vals@.len() == 2,
        opsdefs(r.log()) == alias_range((old(g).next + 1) as u64, 2),
        esdefs(r.row.exprs()) == Seq::<u64>::empty(),
        r.log() == seq![
            SpecOp::From(
                spec_table_select(
                    "execution"@,
                    seq!["solution"@, "instance"@],
                    (old(g).next + 1) as u64,
                ),
            ),
        ],
        r.row.exprs() == seq![
            SpecExpr::Col((old(g).next + 1) as u64),
            SpecExpr::Col((old(g).next + 2) as u64),
        ],
{
    let ghost n0 = g.next;
    let mut q = QueryRef::new(g);
    let execution = Execution::join(&mut q, g);
    let row = Row::pair(execution.solution, execution.instance);
    proof {
        assert(q.exposed() =~= alias_range((n0 + 1) as u64, 2));
        lemma_alias_range((n0 + 1) as u64, 2);
        assert(alias_range((n0 + 1) as u64, 2).contains((n0 + 1) as u64));
        assert(alias_range((n0 + 1) as u64, 2).contains((n0 + 2) as u64));
        assert(q.exposed().contains((n0 + 1) as u64));
        assert(q.exposed().contains((n0 + 2) as u64));
        lemma_pair_cols((n0 + 1) as u64, (n0 + 2) as u64, q.exposed());
        assert(q.defs() =~= alias_range((n0 + 1) as u64, 2));
        assert(q.log().len() > 0);
    }
    q.into_sub(row)
}

/// The inner log of the bench queue's instance sub-query, as the build
/// lays it down: join the instance table, rank per problem by recency,
/// keep ranks below five, order by timestamp.
pub open spec fn bench_sub_log() -> Seq<SpecOp> {
    seq![
        SpecOp::From(
            spec_table_select("instance"@, seq!["id"@, "timestamp"@, "problem"@, "seed"@], 1),
        ),
        SpecOp::Window(
            SpecWindow {
                val: SpecExpr::Col(2),
                partition: seq![SpecExpr::Col(3)],
                asc: false,
                out: 5,
            },
        ),
        SpecOp::Filter(SpecExpr::Lt(Box::new(SpecExpr::Col(5)), 5)),
        SpecOp::Order(SpecExpr::Col(2), true),
    ]
}

/// The closed (solution, problem) submission probe of the bench queue.
pub open spec fn submitted_log() -> Seq<SpecOp> {
    seq![
        SpecOp::From(spec_table_select("submission"@, seq!["solution"@, "problem"@], 12)),
    ]
}

/// The closed (solution, instance) execution probe of the bench queue.
pub open spec fn executed_log() -> Seq<SpecOp> {
    seq![
        SpecOp::From(spec_table_select("execution"@, seq!["solution"@, "instance"@], 15)),
    ]
}

/// The bench queue's own operation log: the instance sub-query and the
/// solution and problem tables joined, the problem matched, submission
/// required and execution excluded through the containment probes.
pub open spec fn bench_queue_log() -> Seq<SpecOp> {
    seq![
        SpecOp::From(sfold(bench_sub_log())),
        SpecOp::From(spec_table_select("solution"@, seq!["id"@, "file_hash"@], 7)),
        SpecOp::From(spec_table_select("problem"@, seq!["id"@, "file_hash"@], 9)),
        SpecOp::Filter(SpecExpr::Eq(Box::new(SpecExpr::Col(3)), Box::new(SpecExpr::Col(9)))),
        SpecOp::Filter(
            SpecExpr::InSelect(
                seq![SpecExpr::Col(7), SpecExpr::Col(9)],
                Box::new(
                    spec_finish(submitted_log(), seq![SpecExpr::Col(12), SpecExpr::Col(13)]),
                ),
            ),
        ),
        SpecOp::Filter(
            SpecExpr::Not(
                Box::new(
                    SpecExpr::InSelect(
                        seq![SpecExpr::Col(7), SpecExpr::Col(1)],
                        Box::new(
                            spec_finish(
                                executed_log(),
                                seq![SpecExpr::Col(15), SpecExpr::Col(16)],
                            ),
                        ),
                    ),
                ),
            ),
        ),
    ]
}

/// The bench queue's projection: instance seed, solution hash, problem
/// hash.
pub open spec fn bench_queue_row() -> Seq<SpecExpr> {
    seq![SpecExpr::Col(4), SpecExpr::Col(8), SpecExpr::Col(10)]
}

/// The defining aliases of the bench-queue build, as disjoint intervals:
/// pairwise distinct.
proof fn lemma_bench_defs_unique()
    ensures
        (alias_range(1, 5) + alias_range(7, 2) + alias_range(9, 2) + alias_range(12, 2)
            + alias_range(15, 2)).no_duplicates(),
{
    lemma_alias_range(1, 5);
    lemma_alias_range(7, 2);
    lemma_alias_range(9, 2);
    lemma_alias_range(12, 2);
    lemma_alias_range(15, 2);
    let a1 = alias_range(1, 5);
    let a2 = a1 + alias_range(7, 2);
    lemma_no_dup_concat(a1, alias_range(7, 2));
    lemma_contains_concat(a1, alias_range(7, 2));
    let a3 = a2 + alias_range(9, 2);
    lemma_no_dup_concat(a2, alias_range(9, 2));
    lemma_contains_concat(a2, alias_range(9, 2));
    let a4 = a3 + alias_range(12, 2);
    lemma_no_dup_concat(a3, alias_range(12, 2));
    lemma_contains_concat(a3, alias_range(12, 2));
    let a5 = a4 + alias_range(15, 2);
    lemma_no_dup_concat(a4, alias_range(15, 2));
    assert(a5 == alias_range(1, 5) + alias_range(7, 2) + alias_range(9, 2) + alias_range(12, 2)
        + alias_range(15, 2));
}

/// The bench queue: for every problem, its five most recent instances,
/// paired with each solution that was submitted to the problem but has
/// not yet been executed on the instance. Projects the instance seed and
/// the file hashes of the solution and the problem.
///
/// The compiled statement is structurally valid and no two of its
/// columns share an alias, at any nesting depth.
#[verifier::rlimit(100)]
#[verifier::spinoff_prover]
pub fn bench_queue() -> (c: CompiledSelect)
    ensures
        c.tree@ == spec_finish(bench_queue_log(), bench_queue_row()),
        swf(c.tree@),
        sdefs(c.tree@).no_duplicates(),
        c.sql@ == spec_select_sql(c.tree@),
        c.params@ == spec_select_params(c.tree@),
        c.width == 3,
{
    let mut g = AliasGen::new();
    // the sub-query of recent instances, built in its own scope
    let mut qi = QueryRef::new(&mut g);
    let inst0 = bench_instances(&mut qi, &mut g);
    proof {
        lemma_alias_range(1, 5);
        assert(qi.exposed() =~= alias_range(1, 5));
        assert(alias_range(1, 5).contains(1u64));
        assert(alias_range(1, 5).contains(2u64));
        assert(alias_range(1, 5).contains(3u64));
        assert(alias_range(1, 5).contains(4u64));
        let s4 = seq![
            SpecExpr::Col(1u64),
            SpecExpr::Col(2u64),
            SpecExpr::Col(3u64),
            SpecExpr::Col(4u64),
        ];
        lemma_pair_cols(1u64, 2u64, qi.exposed());
        assert(s4.drop_last().drop_last() =~= seq![SpecExpr::Col(1u64), SpecExpr::Col(2u64)]);
        assert(s4.drop_last() =~= seq![SpecExpr::Col(1u64), SpecExpr::Col(2u64)].push(
            SpecExpr::Col(3u64),
        ));
        assert(ewf(SpecExpr::Col(3u64), qi.exposed()));
        assert(ewf(SpecExpr::Col(4u64), qi.exposed()));
        assert(s4.drop_last().drop_last() =~= seq![SpecExpr::Col(1u64), SpecExpr::Col(2u64)]);
        assert(eswf(s4.drop_last(), qi.exposed()));
        assert(eswf(s4, qi.exposed()));
    }
    proof {
        assert(qi.log() =~= bench_sub_log());
    }
    let irow = row4(inst0.id, inst0.timestamp, inst0.problem, inst0.seed);
    let sub_b = qi.into_sub(irow);
    // the outer context
    let mut q = QueryRef::new(&mut g);
    proof {
        assert(opsexposed(sub_b.log()) =~= alias_range(1, 5));
        assert(opsdefs(sub_b.log()) =~= alias_range(1, 5));
    }
    let jrow = q.join(sub_b);
    proof {
        lemma_vals_exprs_index(jrow.vals@);
        crate::value::lemma_vals_exprs_len(jrow.vals@);
        assert(jrow.exprs()[0] == SpecExpr::Col(1u64));
        assert(jrow.exprs()[1] == SpecExpr::Col(2u64));
        assert(jrow.exprs()[2] == SpecExpr::Col(3u64));
        assert(jrow.exprs()[3] == SpecExpr::Col(4u64));
        assert(jrow.vals@[0].sexpr() == jrow.exprs()[0]);
        assert(jrow.vals@[1].sexpr() == jrow.exprs()[1]);
        assert(jrow.vals@[2].sexpr() == jrow.exprs()[2]);
        assert(jrow.vals@[3].sexpr() == jrow.exprs()[3]);
    }
    let instance = Instance {
        id: jrow.get(0),
        timestamp: jrow.get(1),
        problem: jrow.get(2),
        seed: jrow.get(3),
    };
    let solution = Solution::join(&mut q, &mut g);
    let problem = Problem::join(&mut q, &mut g);
    let ghost e1 = Seq::<u64>::empty() + alias_range(1, 5);
    let ghost e2 = e1 + alias_range(7, 2);
    let ghost e3 = e2 + alias_range(9, 2);
    proof {
        assert(q.exposed() == e3);
        lemma_alias_range(7, 2);
        lemma_alias_range(9, 2);
        lemma_contains_concat(Seq::<u64>::empty(), alias_range(1, 5));
        lemma_contains_concat(e1, alias_range(7, 2));
        lemma_contains_concat(e2, alias_range(9, 2));
        assert(e3.contains(1u64));
        assert(e3.contains(3u64));
        assert(e3.contains(4u64));
        assert(alias_range(7, 2).contains(7u64));
        assert(alias_range(7, 2).contains(8u64));
        assert(e3.contains(7u64));
        assert(e3.contains(8u64));
        assert(alias_range(9, 2).contains(9u64));
        assert(alias_range(9, 2).contains(10u64));
        assert(e3.contains(9u64));
        assert(e3.contains(10u64));
    }
    let cond1 = instance.problem.eq(&problem.id);
    proof {
        assert(ewf(SpecExpr::Col(3u64), q.exposed()));
        assert(ewf(SpecExpr::Col(9u64), q.exposed()));
        assert(ewf(cond1.sexpr(), q.exposed()));
        assert(q.log().len() > 0);
    }
    q.filter(&cond1);
    // submitted solutions: the (solution, problem) containment probe
    let sub_p = sol_prob(&mut g);
    let ghost subp_log = sub_p.log();
    let ghost subp_row = sub_p.row.exprs();
    proof {
        assert(subp_log =~= submitted_log());
        assert(subp_row =~= seq![SpecExpr::Col(12), SpecExpr::Col(13)]);
    }
    let sq_p = SubQuery::new(sub_p);
    let tup1 = Row::pair(solution.id.deep_clone(), problem.id.deep_clone());
    let cond2 = sq_p.contains(&tup1);
    proof {
        assert(q.exposed() == e3);
        lemma_pair_cols(7u64, 9u64, q.exposed());
        assert(eswf(tup1.exprs(), q.exposed()));
        assert(ewf(cond2.sexpr(), q.exposed()));
    }
    q.filter(&cond2);
    // already-executed pairs: the (solution, instance) containment probe
    let sub_i = sol_inst(&mut g);
    let ghost subi_log = sub_i.log();
    let ghost subi_row = sub_i.row.exprs();
    proof {
        assert(subi_log =~= executed_log());
        assert(subi_row =~= seq![SpecExpr::Col(15), SpecExpr::Col(16)]);
    }
    let sq_i = SubQuery::new(sub_i);
    let tup2 = Row::pair(solution.id.deep_clone(), instance.id.deep_clone());
    let cond3_in = sq_i.contains(&tup2);
    let cond3 = cond3_in.not();
    proof {
        assert(q.exposed() == e3);
        lemma_pair_cols(7u64, 1u64, q.exposed());
        assert(eswf(tup2.exprs(), q.exposed()));
        assert(ewf(cond3_in.sexpr(), q.exposed()));
        assert(ewf(cond3.sexpr(), q.exposed()));
    }
    q.filter(&cond3);
    let out = row3(instance.seed, solution.file_hash, problem.file_hash);
    proof {
        assert(q.exposed() == e3);
        let s3 = seq![SpecExpr::Col(4u64), SpecExpr::Col(8u64), SpecExpr::Col(10u64)];
        lemma_pair_cols(4u64, 8u64, q.exposed());
        assert(s3.drop_last() =~= seq![SpecExpr::Col(4u64), SpecExpr::Col(8u64)]);
        assert(ewf(SpecExpr::Col(10u64), q.exposed()));
        assert(eswf(s3, q.exposed()));
        assert(out.exprs() == s3);
        assert(q.log().len() > 0);
    }
    let ghost qlog = q.log();
    let ghost qdefs = q.defs();
    let ghost rex = out.exprs();
    proof {
        // the defining aliases of the whole build, step by step
        lemma_col_defs(3u64);
        lemma_col_defs(9u64);
        assert(edefs(cond1.sexpr()) =~= Seq::<u64>::empty());
        lemma_pair_cols(7u64, 9u64, e3);
        lemma_pair_cols(7u64, 1u64, e3);
        lemma_finish_defs(subp_log, subp_row);
        lemma_finish_defs(subi_log, subi_row);
        assert(edefs(cond2.sexpr()) =~= alias_range(12, 2));
        assert(edefs(cond3_in.sexpr()) =~= alias_range(15, 2));
        assert(edefs(cond3.sexpr()) =~= alias_range(15, 2));
        lemma_col_defs(4u64);
        lemma_col_defs(8u64);
        lemma_col_defs(10u64);
        assert(rex.drop_last() =~= seq![SpecExpr::Col(4u64), SpecExpr::Col(8u64)]);
        lemma_pair_cols(4u64, 8u64, e3);
        assert(esdefs(rex) =~= Seq::<u64>::empty());
        assert(qdefs =~= alias_range(1, 5) + alias_range(7, 2) + alias_range(9, 2)
            + alias_range(12, 2) + alias_range(15, 2));
        lemma_bench_defs_unique();
        assert((opsdefs(qlog) + esdefs(rex)) =~= qdefs);
        lemma_alias_uniqueness(qlog, rex);
        // the log laid down is exactly the bench-queue log
        assert(qlog.len() == 6);
        assert(bench_queue_log().len() == 6);
        assert(qlog[0] == bench_queue_log()[0]);
        assert(qlog[1] == bench_queue_log()[1]);
        assert(qlog[2] == bench_queue_log()[2]);
        assert(qlog[3] == bench_queue_log()[3]);
        assert(qlog[4] == bench_queue_log()[4]);
        assert(qlog[5] == bench_queue_log()[5]);
        assert(qlog =~= bench_queue_log());
        assert(rex =~= bench_queue_row());
    }
    let c = q.reify(out);
    c
}

} // verus!
