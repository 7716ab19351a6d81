//! The side-effect-free code generator: renders a compiled select tree to
//! parameterized SQL text, in one pass, at the very end of building.
//!
//! Every rendering function mirrors a ghost function character for
//! character, so the emitted text and the parameter list are pinned
//! exactly by the contracts. Integer literals are never inlined: each
//! becomes a `?` placeholder plus an entry of the parameter list, in
//! placeholder order.

use vstd::prelude::*;

use crate::ast::{
    expr_view, exprs_view, lemma_exprs_view_len, lemma_exprs_view_push, lemma_finish_wf, select_view,
    sfold, spec_finish, swf, Expr, MySelect, Proj, Select, Source, SpecExpr, SpecProj, SpecSelect,
    SpecSource, SpecWindow, WindowDef,
};
use crate::ast::eswf;
use crate::query::{QueryRef, SubQueryRes};
use crate::value::{row_to_exprs, Row};

verus! {

// ---------------------------------------------------------------------------
// Ghost text
// ---------------------------------------------------------------------------

pub open spec fn dec_digit_str(n: u64) -> Seq<char> {
    if n == 0 {
        "0"@
    } else if n == 1 {
        "1"@
    } else if n == 2 {
        "2"@
    } else if n == 3 {
        "3"@
    } else if n == 4 {
        "4"@
    } else if n == 5 {
        "5"@
    } else if n == 6 {
        "6"@
    } else if n == 7 {
        "7"@
    } else if n == 8 {
        "8"@
    } else {
        "9"@
    }
}

/// The decimal rendering of a number, most significant digit first.
pub open spec fn spec_dec(n: u64) -> Seq<char>
    decreases n,
{
    if n < 10 {
        dec_digit_str(n)
    } else {
        spec_dec(n / 10) + dec_digit_str(n % 10)
    }
}

/// A synthetic alias as a SQL identifier: the letter `a` and the number.
pub open spec fn spec_alias(a: u64) -> Seq<char> {
    "a"@ + spec_dec(a)
}

/// A declared table or column name, double-quoted.
pub open spec fn spec_ident(name: Seq<char>) -> Seq<char> {
    "\""@ + name + "\""@
}

pub open spec fn spec_expr_sql(e: SpecExpr) -> Seq<char>
    decreases e,
{
    match e {
        SpecExpr::Col(a) => spec_alias(a),
        SpecExpr::Param(_) => "?"@,
        SpecExpr::Add(x, y) => "("@ + spec_expr_sql(*x) + " + "@ + spec_expr_sql(*y) + ")"@,
        SpecExpr::Lt(x, _) => "("@ + spec_expr_sql(*x) + " < ?)"@,
        SpecExpr::Eq(x, y) => "("@ + spec_expr_sql(*x) + " = "@ + spec_expr_sql(*y) + ")"@,
        SpecExpr::Not(x) => "(NOT "@ + spec_expr_sql(*x) + ")"@,
        SpecExpr::InSelect(es, s) => "(("@ + spec_exprs_sql(es, ", "@) + ") IN ("@
            + spec_select_sql(*s) + "))"@,
    }
}

/// Expressions joined by a separator.
pub open spec fn spec_exprs_sql(es: Seq<SpecExpr>, sep: Seq<char>) -> Seq<char>
    decreases es,
{
    if es.len() == 0 {
        Seq::empty()
    } else if es.len() == 1 {
        spec_expr_sql(es.last())
    } else {
        spec_exprs_sql(es.drop_last(), sep) + sep + spec_expr_sql(es.last())
    }
}

/// A window computation as a SELECT-list item: a zero-based partitioned
/// row number under its output alias.
pub open spec fn spec_window_sql(w: SpecWindow) -> Seq<char>
    decreases w,
{
    "(ROW_NUMBER() OVER (PARTITION BY "@ + spec_exprs_sql(w.partition, ", "@) + " ORDER BY "@
        + spec_expr_sql(w.val) + (if w.asc {
        " ASC"@
    } else {
        " DESC"@
    }) + ") - 1) AS "@ + spec_alias(w.out)
}

pub open spec fn spec_cols_sql(cs: Seq<(Seq<char>, u64)>) -> Seq<char>
    decreases cs,
{
    if cs.len() == 0 {
        Seq::empty()
    } else if cs.len() == 1 {
        spec_ident(cs.last().0) + " AS "@ + spec_alias(cs.last().1)
    } else {
        spec_cols_sql(cs.drop_last()) + ", "@ + spec_ident(cs.last().0) + " AS "@ + spec_alias(
            cs.last().1,
        )
    }
}

pub open spec fn spec_proj_base_sql(p: SpecProj) -> Seq<char>
    decreases p,
{
    match p {
        SpecProj::Star => "*"@,
        SpecProj::Cols(cs) => spec_cols_sql(cs),
        SpecProj::Exprs(es) => spec_exprs_sql(es, ", "@),
    }
}

pub open spec fn spec_winopt_sql(w: Option<SpecWindow>) -> Seq<char>
    decreases w,
{
    match w {
        Some(wd) => ", "@ + spec_window_sql(wd),
        None => Seq::empty(),
    }
}

pub open spec fn spec_source_sql(s: SpecSource) -> Seq<char>
    decreases s,
{
    match s {
        SpecSource::Table(name) => spec_ident(name),
        SpecSource::Sub(b) => "("@ + spec_select_sql(*b) + ")"@,
    }
}

pub open spec fn spec_sources_sql(ss: Seq<SpecSource>) -> Seq<char>
    decreases ss,
{
    if ss.len() == 0 {
        Seq::empty()
    } else if ss.len() == 1 {
        spec_source_sql(ss.last())
    } else {
        spec_sources_sql(ss.drop_last()) + ", "@ + spec_source_sql(ss.last())
    }
}

pub open spec fn spec_orders_sql(os: Seq<(SpecExpr, bool)>) -> Seq<char>
    decreases os,
{
    if os.len() == 0 {
        Seq::empty()
    } else if os.len() == 1 {
        spec_expr_sql(os.last().0) + (if os.last().1 {
            " ASC"@
        } else {
            " DESC"@
        })
    } else {
        spec_orders_sql(os.drop_last()) + ", "@ + spec_expr_sql(os.last().0) + (if os.last().1 {
            " ASC"@
        } else {
            " DESC"@
        })
    }
}

/// The full text of one SELECT level and everything below it.
pub open spec fn spec_select_sql(s: SpecSelect) -> Seq<char>
    decreases s,
{
    "SELECT "@ + spec_proj_base_sql(s.proj) + spec_winopt_sql(s.window) + " FROM "@ + spec_sources_sql(s.sources) + (
    if s.filters.len() > 0 {
        " WHERE "@ + spec_exprs_sql(s.filters, " AND "@)
    } else {
        Seq::empty()
    }) + (if s.orders.len() > 0 {
        " ORDER BY "@ + spec_orders_sql(s.orders)
    } else {
        Seq::empty()
    })
}

// ---------------------------------------------------------------------------
// Ghost parameters, in placeholder order
// ---------------------------------------------------------------------------

pub open spec fn spec_expr_params(e: SpecExpr) -> Seq<i64>
    decreases e,
{
    match e {
        SpecExpr::Col(_) => Seq::empty(),
        SpecExpr::Param(p) => seq![p],
        SpecExpr::Add(x, y) => spec_expr_params(*x) + spec_expr_params(*y),
        SpecExpr::Lt(x, k) => spec_expr_params(*x) + seq![k],
        SpecExpr::Eq(x, y) => spec_expr_params(*x) + spec_expr_params(*y),
        SpecExpr::Not(x) => spec_expr_params(*x),
        SpecExpr::InSelect(es, s) => spec_exprs_params(es) + spec_select_params(*s),
    }
}

pub open spec fn spec_exprs_params(es: Seq<SpecExpr>) -> Seq<i64>
    decreases es,
{
    if es.len() == 0 {
        Seq::empty()
    } else {
        spec_exprs_params(es.drop_last()) + spec_expr_params(es.last())
    }
}

pub open spec fn spec_window_params(w: SpecWindow) -> Seq<i64>
    decreases w,
{
    spec_exprs_params(w.partition) + spec_expr_params(w.val)
}

pub open spec fn spec_proj_base_params(p: SpecProj) -> Seq<i64>
    decreases p,
{
    match p {
        SpecProj::Star => Seq::empty(),
        SpecProj::Cols(_) => Seq::empty(),
        SpecProj::Exprs(es) => spec_exprs_params(es),
    }
}

pub open spec fn spec_winopt_params(w: Option<SpecWindow>) -> Seq<i64>
    decreases w,
{
    match w {
        Some(wd) => spec_window_params(wd),
        None => Seq::empty(),
    }
}

pub open spec fn spec_source_params(s: SpecSource) -> Seq<i64>
    decreases s,
{
    match s {
        SpecSource::Table(_) => Seq::empty(),
        SpecSource::Sub(b) => spec_select_params(*b),
    }
}

pub open spec fn spec_sources_params(ss: Seq<SpecSource>) -> Seq<i64>
    decreases ss,
{
    if ss.len() == 0 {
        Seq::empty()
    } else {
        spec_sources_params(ss.drop_last()) + spec_source_params(ss.last())
    }
}

pub open spec fn spec_orders_params(os: Seq<(SpecExpr, bool)>) -> Seq<i64>
    decreases os,
{
    if os.len() == 0 {
        Seq::empty()
    } else {
        spec_orders_params(os.drop_last()) + spec_expr_params(os.last().0)
    }
}

/// Every parameter of the statement, in the order of its `?` placeholders.
pub open spec fn spec_select_params(s: SpecSelect) -> Seq<i64>
    decreases s,
{
    spec_proj_base_params(s.proj) + spec_winopt_params(s.window) + spec_sources_params(
        s.sources,
    ) + spec_exprs_params(s.filters) + spec_orders_params(s.orders)
}

// ---------------------------------------------------------------------------
// The executable renderer
// ---------------------------------------------------------------------------

fn push_digit(d: u64, out: &mut String)
    requires
        d < 10,
    ensures
        final(out)@ == old(out)@ + dec_digit_str(d),
{
    if d == 0 {
        out.append("0");
    } else if d == 1 {
        out.append("1");
    } else if d == 2 {
        out.append("2");
    } else if d == 3 {
        out.append("3");
    } else if d == 4 {
        out.append("4");
    } else if d == 5 {
        out.append("5");
    } else if d == 6 {
        out.append("6");
    } else if d == 7 {
        out.append("7");
    } else if d == 8 {
        out.append("8");
    } else {
        out.append("9");
    }
}

fn render_dec(n: u64, out: &mut String)
    ensures
        final(out)@ == old(out)@ + spec_dec(n),
    decreases n,
{
    let ghost start = out@;
    if n >= 10 {
        proof {
            assert(n / 10 < n) by (nonlinear_arith)
                requires
                    n >= 10,
            ;
        }
        render_dec(n / 10, out);
        push_digit(n % 10, out);
        proof {
            assert(out@ =~= start + spec_dec(n));
        }
    } else {
        push_digit(n, out);
    }
}

fn render_alias(a: u64, out: &mut String)
    ensures
        final(out)@ == old(out)@ + spec_alias(a),
{
    let ghost start = out@;
    out.append("a");
    render_dec(a, out);
    proof {
        assert(out@ =~= start + spec_alias(a));
    }
}

fn render_ident(name: &String, out: &mut String)
    ensures
        final(out)@ == old(out)@ + spec_ident(name@),
{
    let ghost start = out@;
    out.append("\"");
    out.append(name.as_str());
    out.append("\"");
    proof {
        assert(out@ =~= start + spec_ident(name@));
    }
}

fn render_expr(e: &Expr, out: &mut String, params: &mut Vec<i64>)
    ensures
        final(out)@ == old(out)@ + spec_expr_sql(expr_view(*e)),
        final(params)@ == old(params)@ + spec_expr_params(expr_view(*e)),
    decreases *e,
{
    let ghost start = out@;
    let ghost startp = params@;
    let ghost ev = expr_view(*e);
    match e {
        Expr::Col(a) => {
            render_alias(*a, out);
            proof {
                assert(params@ =~= startp + spec_expr_params(ev));
            }
        },
        Expr::Param(p) => {
            out.append("?");
            params.push(*p);
            proof {
                assert(params@ =~= startp + spec_expr_params(ev));
            }
        },
        Expr::Add(x, y) => {
            out.append("(");
            render_expr(x, out, params);
            out.append(" + ");
            render_expr(y, out, params);
            out.append(")");
            proof {
                assert(out@ =~= start + spec_expr_sql(ev));
                assert(params@ =~= startp + spec_expr_params(ev));
            }
        },
        Expr::Lt(x, k) => {
            out.append("(");
            render_expr(x, out, params);
            out.append(" < ?)");
            params.push(*k);
            proof {
                assert(out@ =~= start + spec_expr_sql(ev));
                assert(params@ =~= startp + spec_expr_params(ev));
            }
        },
        Expr::Eq(x, y) => {
            out.append("(");
            render_expr(x, out, params);
            out.append(" = ");
            render_expr(y, out, params);
            out.append(")");
            proof {
                assert(out@ =~= start + spec_expr_sql(ev));
                assert(params@ =~= startp + spec_expr_params(ev));
            }
        },
        Expr::Not(x) => {
            out.append("(NOT ");
            render_expr(x, out, params);
            out.append(")");
            proof {
                assert(out@ =~= start + spec_expr_sql(ev));
                assert(params@ =~= startp + spec_expr_params(ev));
            }
        },
        Expr::InSelect(es, s) => {
            out.append("((");
            render_exprs(es, ", ", out, params);
            out.append(") IN (");
            render_select(s, out, params);
            out.append("))");
            proof {
                assert(out@ =~= start + spec_expr_sql(ev));
                assert(params@ =~= startp + spec_expr_params(ev));
            }
        },
    }
}

#[verifier::loop_isolation(false)]
fn render_exprs(es: &Vec<Expr>, sep: &str, out: &mut String, params: &mut Vec<i64>)
    ensures
        final(out)@ == old(out)@ + spec_exprs_sql(exprs_view(es@), sep@),
        final(params)@ == old(params)@ + spec_exprs_params(exprs_view(es@)),
    decreases es@,
{
    let ghost start = out@;
    let ghost startp = params@;
    let mut i: usize = 0;
    while i < es.len()
        invariant
            0 <= i <= es@.len(),
            out@ == start + spec_exprs_sql(exprs_view(es@.subrange(0, i as int)), sep@),
            params@ == startp + spec_exprs_params(exprs_view(es@.subrange(0, i as int))),
        decreases es@.len() - i,
    {
        proof {
            lemma_exprs_view_len(es@.subrange(0, i as int));
        }
        if i > 0 {
            out.append(sep);
        }
        render_expr(&es[i], out, params);
        proof {
            lemma_exprs_view_push(es@.subrange(0, i as int), es@[i as int]);
            assert(es@.subrange(0, i + 1).drop_last() =~= es@.subrange(0, i as int));
            let pre = exprs_view(es@.subrange(0, i as int));
            let now = exprs_view(es@.subrange(0, i + 1));
            assert(now == pre.push(expr_view(es@[i as int])));
            assert(now.drop_last() =~= pre);
            assert(out@ =~= start + spec_exprs_sql(now, sep@));
            assert(params@ =~= startp + spec_exprs_params(now));
        }
        i = i + 1;
    }
    proof {
        assert(es@.subrange(0, es@.len() as int) =~= es@);
    }
}

fn render_window(w: &WindowDef, out: &mut String, params: &mut Vec<i64>)
    ensures
        final(out)@ == old(out)@ + spec_window_sql(crate::ast::window_view(*w)),
        final(params)@ == old(params)@ + spec_window_params(crate::ast::window_view(*w)),
    decreases *w,
{
    let ghost start = out@;
    let ghost startp = params@;
    let ghost wv = crate::ast::window_view(*w);
    out.append("(ROW_NUMBER() OVER (PARTITION BY ");
    render_exprs(&w.partition, ", ", out, params);
    out.append(" ORDER BY ");
    render_expr(&w.val, out, params);
    if w.asc {
        out.append(" ASC");
    } else {
        out.append(" DESC");
    }
    out.append(") - 1) AS ");
    render_alias(w.out, out);
    proof {
        assert(out@ =~= start + spec_window_sql(wv));
        assert(params@ =~= startp + spec_window_params(wv));
    }
}

#[verifier::loop_isolation(false)]
fn render_cols(cs: &Vec<(String, u64)>, out: &mut String)
    ensures
        final(out)@ == old(out)@ + spec_cols_sql(crate::ast::cols_view(cs@)),
{
    let ghost start = out@;
    let mut i: usize = 0;
    while i < cs.len()
        invariant
            0 <= i <= cs@.len(),
            out@ == start + spec_cols_sql(crate::ast::cols_view(cs@.subrange(0, i as int))),
        decreases cs@.len() - i,
    {
        proof {
            crate::ast::lemma_cols_view_len(cs@.subrange(0, i as int));
        }
        if i > 0 {
            out.append(", ");
        }
        render_ident(&cs[i].0, out);
        out.append(" AS ");
        render_alias(cs[i].1, out);
        proof {
            crate::ast::lemma_cols_view_push(cs@.subrange(0, i as int), cs@[i as int]);
            assert((cs@[i as int].0, cs@[i as int].1) == cs@[i as int]);
            assert(cs@.subrange(0, i + 1).drop_last() =~= cs@.subrange(0, i as int));
            let pre = crate::ast::cols_view(cs@.subrange(0, i as int));
            let now = crate::ast::cols_view(cs@.subrange(0, i + 1));
            assert(now == pre.push((cs@[i as int].0@, cs@[i as int].1)));
            assert(now.drop_last() =~= pre);
            assert(out@ =~= start + spec_cols_sql(now));
        }
        i = i + 1;
    }
    proof {
        assert(cs@.subrange(0, cs@.len() as int) =~= cs@);
    }
}

fn render_source(src: &Source, out: &mut String, params: &mut Vec<i64>)
    ensures
        final(out)@ == old(out)@ + spec_source_sql(crate::ast::source_view(*src)),
        final(params)@ == old(params)@ + spec_source_params(crate::ast::source_view(*src)),
    decreases *src,
{
    let ghost start = out@;
    let ghost startp = params@;
    let ghost sv = crate::ast::source_view(*src);
    match src {
        Source::Table(name) => {
            render_ident(name, out);
            proof {
                assert(params@ =~= startp + spec_source_params(sv));
            }
        },
        Source::Sub(b) => {
            out.append("(");
            render_select(b, out, params);
            out.append(")");
            proof {
                assert(out@ =~= start + spec_source_sql(sv));
                assert(params@ =~= startp + spec_source_params(sv));
            }
        },
    }
}

#[verifier::loop_isolation(false)]
fn render_sources(ss: &Vec<Source>, out: &mut String, params: &mut Vec<i64>)
    ensures
        final(out)@ == old(out)@ + spec_sources_sql(crate::ast::sources_view(ss@)),
        final(params)@ == old(params)@ + spec_sources_params(crate::ast::sources_view(ss@)),
    decreases ss@,
{
    let ghost start = out@;
    let ghost startp = params@;
    let mut i: usize = 0;
    while i < ss.len()
        invariant
            0 <= i <= ss@.len(),
            out@ == start + spec_sources_sql(crate::ast::sources_view(ss@.subrange(0, i as int))),
            params@ == startp + spec_sources_params(
                crate::ast::sources_view(ss@.subrange(0, i as int)),
            ),
        decreases ss@.len() - i,
    {
        proof {
            crate::ast::lemma_sources_view_len(ss@.subrange(0, i as int));
        }
        if i > 0 {
            out.append(", ");
        }
        render_source(&ss[i], out, params);
        proof {
            crate::ast::lemma_sources_view_push(ss@.subrange(0, i as int), ss@[i as int]);
            assert(ss@.subrange(0, i + 1).drop_last() =~= ss@.subrange(0, i as int));
            let pre = crate::ast::sources_view(ss@.subrange(0, i as int));
            let now = crate::ast::sources_view(ss@.subrange(0, i + 1));
            assert(now == pre.push(crate::ast::source_view(ss@[i as int])));
            assert(now.drop_last() =~= pre);
            assert(out@ =~= start + spec_sources_sql(now));
            assert(params@ =~= startp + spec_sources_params(now));
        }
        i = i + 1;
    }
    proof {
        assert(ss@.subrange(0, ss@.len() as int) =~= ss@);
    }
}

#[verifier::loop_isolation(false)]
fn render_orders(os: &Vec<(Expr, bool)>, out: &mut String, params: &mut Vec<i64>)
    ensures
        final(out)@ == old(out)@ + spec_orders_sql(crate::ast::orders_view(os@)),
        final(params)@ == old(params)@ + spec_orders_params(crate::ast::orders_view(os@)),
    decreases os@,
{
    let ghost start = out@;
    let ghost startp = params@;
    let mut i: usize = 0;
    while i < os.len()
        invariant
            0 <= i <= os@.len(),
            out@ == start + spec_orders_sql(crate::ast::orders_view(os@.subrange(0, i as int))),
            params@ == startp + spec_orders_params(
                crate::ast::orders_view(os@.subrange(0, i as int)),
            ),
        decreases os@.len() - i,
    {
        proof {
            crate::ast::lemma_orders_view_len(os@.subrange(0, i as int));
        }
        if i > 0 {
            out.append(", ");
        }
        render_expr(&os[i].0, out, params);
        if os[i].1 {
            out.append(" ASC");
        } else {
            out.append(" DESC");
        }
        proof {
            crate::ast::lemma_orders_view_push(os@.subrange(0, i as int), os@[i as int].0,
                os@[i as int].1);
            assert((os@[i as int].0, os@[i as int].1) == os@[i as int]);
            assert(os@.subrange(0, i + 1).drop_last() =~= os@.subrange(0, i as int));
            let pre = crate::ast::orders_view(os@.subrange(0, i as int));
            let now = crate::ast::orders_view(os@.subrange(0, i + 1));
            assert(now == pre.push((expr_view(os@[i as int].0), os@[i as int].1)));
            assert(now.drop_last() =~= pre);
            assert(out@ =~= start + spec_orders_sql(now));
            assert(params@ =~= startp + spec_orders_params(now));
        }
        i = i + 1;
    }
    proof {
        assert(os@.subrange(0, os@.len() as int) =~= os@);
    }
}

#[verifier::spinoff_prover]
fn render_head(s: &Select, out: &mut String, params: &mut Vec<i64>)
    ensures
        final(out)@ == old(out)@ + "SELECT "@ + spec_proj_base_sql(select_view(*s).proj)
            + spec_winopt_sql(select_view(*s).window) + " FROM "@ + spec_sources_sql(
            select_view(*s).sources,
        ),
        final(params)@ == old(params)@ + spec_proj_base_params(select_view(*s).proj)
            + spec_winopt_params(select_view(*s).window) + spec_sources_params(
            select_view(*s).sources,
        ),
    decreases *s, 0int,
{
    let ghost start = out@;
    let ghost startp = params@;
    let ghost sv = select_view(*s);
    out.append("SELECT ");
    match &s.proj {
        Proj::Star => {
            out.append("*");
        },
        Proj::Cols(cs) => {
            render_cols(cs, out);
        },
        Proj::Exprs(es) => {
            render_exprs(es, ", ", out, params);
        },
    }
    let ghost o1 = start + "SELECT "@ + spec_proj_base_sql(sv.proj);
    let ghost p1 = startp + spec_proj_base_params(sv.proj);
    proof {
        assert(out@ =~= o1);
        assert(params@ =~= p1);
    }
    match &s.window {
        Some(w) => {
            out.append(", ");
            render_window(w, out, params);
        },
        None => {},
    }
    let ghost o2 = o1 + spec_winopt_sql(sv.window);
    let ghost p2 = p1 + spec_winopt_params(sv.window);
    proof {
        assert(out@ =~= o2);
        assert(params@ =~= p2);
    }
    out.append(" FROM ");
    render_sources(&s.sources, out, params);
    proof {
        assert(out@ =~= o2 + " FROM "@ + spec_sources_sql(sv.sources));
        assert(params@ =~= p2 + spec_sources_params(sv.sources));
    }
}

/// Render one SELECT level and everything below it.
#[verifier::spinoff_prover]
#[verifier::rlimit(60)]
pub fn render_select(s: &Select, out: &mut String, params: &mut Vec<i64>)
    ensures
        final(out)@ == old(out)@ + spec_select_sql(select_view(*s)),
        final(params)@ == old(params)@ + spec_select_params(select_view(*s)),
    decreases *s, 1int,
{
    let ghost start = out@;
    let ghost startp = params@;
    let ghost sv = select_view(*s);
    render_head(s, out, params);
    let ghost o3 = start + "SELECT "@ + spec_proj_base_sql(sv.proj) + spec_winopt_sql(sv.window)
        + " FROM "@ + spec_sources_sql(sv.sources);
    let ghost p3 = startp + spec_proj_base_params(sv.proj) + spec_winopt_params(sv.window)
        + spec_sources_params(sv.sources);
    proof {
        lemma_exprs_view_len(s.filters@);
        crate::ast::lemma_orders_view_len(s.orders@);
    }
    if s.filters.len() > 0 {
        out.append(" WHERE ");
        render_exprs(&s.filters, " AND ", out, params);
    }
    let ghost o4 = o3 + (if sv.filters.len() > 0 {
        " WHERE "@ + spec_exprs_sql(sv.filters, " AND "@)
    } else {
        Seq::<char>::empty()
    });
    let ghost p4 = p3 + spec_exprs_params(sv.filters);
    proof {
        if sv.filters.len() == 0 {
            assert(spec_exprs_params(sv.filters) =~= Seq::<i64>::empty());
        }
        assert(out@ =~= o4);
        assert(params@ =~= p4);
    }
    if s.orders.len() > 0 {
        out.append(" ORDER BY ");
        render_orders(&s.orders, out, params);
    }
    proof {
        if sv.orders.len() == 0 {
            assert(spec_orders_params(sv.orders) =~= Seq::<i64>::empty());
        }
        assert(out@ =~= o4 + (if sv.orders.len() > 0 {
            " ORDER BY "@ + spec_orders_sql(sv.orders)
        } else {
            Seq::<char>::empty()
        }));
        assert(out@ =~= start + spec_select_sql(sv));
        assert(params@ =~= p4 + spec_orders_params(sv.orders));
        assert(params@ =~= startp + spec_select_params(sv));
    }
}

// ---------------------------------------------------------------------------
// The result reifier
// ---------------------------------------------------------------------------

/// A fully compiled statement: SQL text, its bound parameters in
/// placeholder order, and the width of the projection, used to decode
/// each returned row by position.
pub struct CompiledSelect {
    pub sql: String,
    pub params: Vec<i64>,
    pub width: usize,
    /// The compiled tree the text was rendered from.
    pub tree: Ghost<SpecSelect>,
}

impl QueryRef {
    /// Terminal operation: compile this context's log under the given
    /// projection row. A trailing push-down is applied if the tail stage
    /// is past WHERE, so the SELECT list only ever projects
    /// already-materialized column references; the compiled tree is
    /// structurally valid, and text and parameters are pure functions of
    /// the log and the row.
    pub fn reify(self, row: Row) -> (c: CompiledSelect)
        requires
            self.inv(),
            self.log().len() > 0,
            row.scoped(self.scope),
            row.vals@.len() > 0,
            eswf(row.exprs(), self.exposed()),
        ensures
            c.tree@ == spec_finish(self.log(), row.exprs()),
            c.sql@ == spec_select_sql(c.tree@),
            c.params@ == spec_select_params(c.tree@),
            c.width == row.vals@.len(),
            swf(c.tree@),
            c.tree@.proj == SpecProj::Exprs(row.exprs()),
    {
        proof {
            crate::value::lemma_vals_exprs_len(row.vals@);
            lemma_finish_wf(self.log(), row.exprs());
        }
        let width = row.len();
        let exprs = row_to_exprs(&row);
        let sel = MySelect { ops: self.ops }.into_select(Some(exprs));
        let mut sql = String::new();
        let mut params: Vec<i64> = Vec::new();
        render_select(&sel, &mut sql, &mut params);
        let ghost tree = spec_finish(self.log(), row.exprs());
        CompiledSelect { sql, params, width, tree: Ghost(tree) }
    }
}

impl SubQueryRes {
    /// The SQL of the closed query with every column exposed, and its
    /// parameters: a diagnostic companion to joining and containment.
    pub fn print(self) -> (r: (String, Vec<i64>))
        ensures
            r.0@ == spec_select_sql(sfold(self.log())),
            r.1@ == spec_select_params(sfold(self.log())),
    {
        let sel = MySelect { ops: self.ops }.into_select(None);
        let mut sql = String::new();
        let mut params: Vec<i64> = Vec::new();
        render_select(&sel, &mut sql, &mut params);
        (sql, params)
    }
}

} // verus!
