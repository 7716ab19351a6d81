//! The operation log and the tree of nested SELECT statements, with the
//! stage machine that folds a log into a tree, inserting push-downs where
//! the stage discipline demands them.
//!
//! Each executable type has a ghost mirror (`Spec*`) over mathematical
//! sequences; every contract in the crate speaks about those mirrors.

use vstd::prelude::*;

verus! {

// ---------------------------------------------------------------------------
// Executable syntax trees
// ---------------------------------------------------------------------------

/// A SQL expression. Column references use synthetic aliases; integer
/// literals always become bound parameters, never inlined text.
#[derive(Debug)]
pub enum Expr {
    /// Reference to a column by its synthetic alias.
    Col(u64),
    /// An integer literal, emitted as a `?` placeholder plus a parameter.
    Param(i64),
    Add(Box<Expr>, Box<Expr>),
    /// Strictly-less-than comparison against an integer parameter.
    Lt(Box<Expr>, i64),
    Eq(Box<Expr>, Box<Expr>),
    Not(Box<Expr>),
    /// Tuple membership in a closed sub-select: `(e1, .., ek) IN (SELECT ..)`.
    InSelect(Vec<Expr>, Box<Select>),
}

/// A `ROW_NUMBER` window computation: partitioned by `partition`, ordered
/// by `val` in the given direction, exposed (zero-based) under alias `out`.
#[derive(Debug)]
pub struct WindowDef {
    pub val: Expr,
    pub partition: Vec<Expr>,
    pub asc: bool,
    pub out: u64,
}

/// The projection of one SELECT level.
#[derive(Debug)]
pub enum Proj {
    /// `SELECT *`: pass every source column through.
    Star,
    /// `SELECT "name" AS a<k>, ..`: import named table columns under aliases.
    Cols(Vec<(String, u64)>),
    /// `SELECT e1, .., ek`: a final positional projection.
    Exprs(Vec<Expr>),
}

/// One FROM item: a named table or a nested sub-select.
#[derive(Debug)]
pub enum Source {
    Table(String),
    Sub(Box<Select>),
}

/// One SELECT level of the compiled tree.
#[derive(Debug)]
pub struct Select {
    pub proj: Proj,
    pub window: Option<WindowDef>,
    pub sources: Vec<Source>,
    pub filters: Vec<Expr>,
    pub orders: Vec<(Expr, bool)>,
}

/// One entry of the append-only operation log of a query-building context.
#[derive(Debug)]
pub enum Operation {
    /// Join a closed select (a table import or a compiled sub-query).
    From(Select),
    Filter(Expr),
    Window(WindowDef),
    /// Ordering expression; `true` means ascending.
    Order(Expr, bool),
}

// ---------------------------------------------------------------------------
// Ghost mirrors
// ---------------------------------------------------------------------------

pub enum SpecExpr {
    Col(u64),
    Param(i64),
    Add(Box<SpecExpr>, Box<SpecExpr>),
    Lt(Box<SpecExpr>, i64),
    Eq(Box<SpecExpr>, Box<SpecExpr>),
    Not(Box<SpecExpr>),
    InSelect(Seq<SpecExpr>, Box<SpecSelect>),
}

pub struct SpecWindow {
    pub val: SpecExpr,
    pub partition: Seq<SpecExpr>,
    pub asc: bool,
    pub out: u64,
}

pub enum SpecProj {
    Star,
    Cols(Seq<(Seq<char>, u64)>),
    Exprs(Seq<SpecExpr>),
}

pub enum SpecSource {
    Table(Seq<char>),
    Sub(Box<SpecSelect>),
}

pub struct SpecSelect {
    pub proj: SpecProj,
    pub window: Option<SpecWindow>,
    pub sources: Seq<SpecSource>,
    pub filters: Seq<SpecExpr>,
    pub orders: Seq<(SpecExpr, bool)>,
}

pub enum SpecOp {
    From(SpecSelect),
    Filter(SpecExpr),
    Window(SpecWindow),
    Order(SpecExpr, bool),
}

// ---------------------------------------------------------------------------
// Views: executable tree -> ghost mirror
// ---------------------------------------------------------------------------

pub open spec fn expr_view(e: Expr) -> SpecExpr
    decreases e,
{
    match e {
        Expr::Col(a) => SpecExpr::Col(a),
        Expr::Param(p) => SpecExpr::Param(p),
        Expr::Add(a, b) => SpecExpr::Add(Box::new(expr_view(*a)), Box::new(expr_view(*b))),
        Expr::Lt(a, k) => SpecExpr::Lt(Box::new(expr_view(*a)), k),
        Expr::Eq(a, b) => SpecExpr::Eq(Box::new(expr_view(*a)), Box::new(expr_view(*b))),
        Expr::Not(a) => SpecExpr::Not(Box::new(expr_view(*a))),
        Expr::InSelect(es, s) => SpecExpr::InSelect(
            exprs_view(es@),
            Box::new(select_view(*s)),
        ),
    }
}

pub open spec fn exprs_view(es: Seq<Expr>) -> Seq<SpecExpr>
    decreases es,
{
    if es.len() == 0 {
        Seq::empty()
    } else {
        exprs_view(es.drop_last()).push(expr_view(es.last()))
    }
}

pub open spec fn window_view(w: WindowDef) -> SpecWindow
    decreases w,
{
    SpecWindow {
        val: expr_view(w.val),
        partition: exprs_view(w.partition@),
        asc: w.asc,
        out: w.out,
    }
}

pub open spec fn cols_view(cs: Seq<(String, u64)>) -> Seq<(Seq<char>, u64)>
    decreases cs,
{
    if cs.len() == 0 {
        Seq::empty()
    } else {
        cols_view(cs.drop_last()).push((cs.last().0@, cs.last().1))
    }
}

pub open spec fn proj_view(p: Proj) -> SpecProj
    decreases p,
{
    match p {
        Proj::Star => SpecProj::Star,
        Proj::Cols(cs) => SpecProj::Cols(cols_view(cs@)),
        Proj::Exprs(es) => SpecProj::Exprs(exprs_view(es@)),
    }
}

pub open spec fn source_view(s: Source) -> SpecSource
    decreases s,
{
    match s {
        Source::Table(name) => SpecSource::Table(name@),
        Source::Sub(b) => SpecSource::Sub(Box::new(select_view(*b))),
    }
}

pub open spec fn sources_view(ss: Seq<Source>) -> Seq<SpecSource>
    decreases ss,
{
    if ss.len() == 0 {
        Seq::empty()
    } else {
        sources_view(ss.drop_last()).push(source_view(ss.last()))
    }
}

pub open spec fn orders_view(os: Seq<(Expr, bool)>) -> Seq<(SpecExpr, bool)>
    decreases os,
{
    if os.len() == 0 {
        Seq::empty()
    } else {
        orders_view(os.drop_last()).push((expr_view(os.last().0), os.last().1))
    }
}

pub open spec fn select_view(s: Select) -> SpecSelect
    decreases s,
{
    SpecSelect {
        proj: proj_view(s.proj),
        window: match s.window {
            Some(w) => Some(window_view(w)),
            None => None,
        },
        sources: sources_view(s.sources@),
        filters: exprs_view(s.filters@),
        orders: orders_view(s.orders@),
    }
}

pub open spec fn op_view(op: Operation) -> SpecOp
    decreases op,
{
    match op {
        Operation::From(s) => SpecOp::From(select_view(s)),
        Operation::Filter(e) => SpecOp::Filter(expr_view(e)),
        Operation::Window(w) => SpecOp::Window(window_view(w)),
        Operation::Order(e, asc) => SpecOp::Order(expr_view(e), asc),
    }
}

pub open spec fn ops_view(ops: Seq<Operation>) -> Seq<SpecOp>
    decreases ops,
{
    if ops.len() == 0 {
        Seq::empty()
    } else {
        ops_view(ops.drop_last()).push(op_view(ops.last()))
    }
}

// ---------------------------------------------------------------------------
// Defining occurrences of aliases ("defs"), in structural order
// ---------------------------------------------------------------------------

pub open spec fn edefs(e: SpecExpr) -> Seq<u64>
    decreases e,
{
    match e {
        SpecExpr::Col(_) => Seq::empty(),
        SpecExpr::Param(_) => Seq::empty(),
        SpecExpr::Add(a, b) => edefs(*a) + edefs(*b),
        SpecExpr::Lt(a, _) => edefs(*a),
        SpecExpr::Eq(a, b) => edefs(*a) + edefs(*b),
        SpecExpr::Not(a) => edefs(*a),
        SpecExpr::InSelect(es, s) => esdefs(es) + sdefs(*s),
    }
}

pub open spec fn esdefs(es: Seq<SpecExpr>) -> Seq<u64>
    decreases es,
{
    if es.len() == 0 {
        Seq::empty()
    } else {
        esdefs(es.drop_last()) + edefs(es.last())
    }
}

pub open spec fn wdefs(w: SpecWindow) -> Seq<u64>
    decreases w,
{
    edefs(w.val) + esdefs(w.partition) + seq![w.out]
}

pub open spec fn coldefs(cs: Seq<(Seq<char>, u64)>) -> Seq<u64>
    decreases cs,
{
    if cs.len() == 0 {
        Seq::empty()
    } else {
        coldefs(cs.drop_last()).push(cs.last().1)
    }
}

pub open spec fn pdefs(p: SpecProj) -> Seq<u64>
    decreases p,
{
    match p {
        SpecProj::Star => Seq::empty(),
        SpecProj::Cols(cs) => coldefs(cs),
        SpecProj::Exprs(es) => esdefs(es),
    }
}

pub open spec fn srcdefs(s: SpecSource) -> Seq<u64>
    decreases s,
{
    match s {
        SpecSource::Table(_) => Seq::empty(),
        SpecSource::Sub(b) => sdefs(*b),
    }
}

pub open spec fn srcsdefs(ss: Seq<SpecSource>) -> Seq<u64>
    decreases ss,
{
    if ss.len() == 0 {
        Seq::empty()
    } else {
        srcsdefs(ss.drop_last()) + srcdefs(ss.last())
    }
}

pub open spec fn odefs(os: Seq<(SpecExpr, bool)>) -> Seq<u64>
    decreases os,
{
    if os.len() == 0 {
        Seq::empty()
    } else {
        odefs(os.drop_last()) + edefs(os.last().0)
    }
}

pub open spec fn windefs(w: Option<SpecWindow>) -> Seq<u64>
    decreases w,
{
    match w {
        Some(w) => wdefs(w),
        None => Seq::empty(),
    }
}

/// All aliases a select tree introduces: imported table columns and window
/// outputs, at every nesting depth, including inside `IN (..)` sub-selects.
pub open spec fn sdefs(s: SpecSelect) -> Seq<u64>
    decreases s,
{
    srcsdefs(s.sources) + esdefs(s.filters) + windefs(s.window) + odefs(s.orders) + pdefs(s.proj)
}

pub open spec fn opdefs(op: SpecOp) -> Seq<u64>
    decreases op,
{
    match op {
        SpecOp::From(s) => sdefs(s),
        SpecOp::Filter(e) => edefs(e),
        SpecOp::Window(w) => wdefs(w),
        SpecOp::Order(e, _) => edefs(e),
    }
}

pub open spec fn opsdefs(ops: Seq<SpecOp>) -> Seq<u64>
    decreases ops,
{
    if ops.len() == 0 {
        Seq::empty()
    } else {
        opsdefs(ops.drop_last()) + opdefs(ops.last())
    }
}

// ---------------------------------------------------------------------------
// Free column references of an expression
// ---------------------------------------------------------------------------

pub open spec fn erefs(e: SpecExpr) -> Seq<u64>
    decreases e,
{
    match e {
        SpecExpr::Col(a) => seq![a],
        SpecExpr::Param(_) => Seq::empty(),
        SpecExpr::Add(a, b) => erefs(*a) + erefs(*b),
        SpecExpr::Lt(a, _) => erefs(*a),
        SpecExpr::Eq(a, b) => erefs(*a) + erefs(*b),
        SpecExpr::Not(a) => erefs(*a),
        // the sub-select is closed: its references are bound inside it
        SpecExpr::InSelect(es, _) => esrefs(es),
    }
}

pub open spec fn esrefs(es: Seq<SpecExpr>) -> Seq<u64>
    decreases es,
{
    if es.len() == 0 {
        Seq::empty()
    } else {
        esrefs(es.drop_last()) + erefs(es.last())
    }
}

// ---------------------------------------------------------------------------
// Output aliases that a select exposes to an enclosing level
// ---------------------------------------------------------------------------

pub open spec fn wout(w: Option<SpecWindow>) -> Seq<u64> {
    match w {
        Some(w) => seq![w.out],
        None => Seq::empty(),
    }
}

pub open spec fn souts(s: SpecSelect) -> Seq<u64>
    decreases s,
{
    match s.proj {
        SpecProj::Star => srcsouts(s.sources) + wout(s.window),
        SpecProj::Cols(cs) => coldefs(cs),
        SpecProj::Exprs(_) => Seq::empty(),
    }
}

pub open spec fn srcouts(s: SpecSource) -> Seq<u64>
    decreases s,
{
    match s {
        SpecSource::Table(_) => Seq::empty(),
        SpecSource::Sub(b) => souts(*b),
    }
}

pub open spec fn srcsouts(ss: Seq<SpecSource>) -> Seq<u64>
    decreases ss,
{
    if ss.len() == 0 {
        Seq::empty()
    } else {
        srcsouts(ss.drop_last()) + srcouts(ss.last())
    }
}

/// Aliases that an operation makes referenceable for later operations of
/// the same building context.
pub open spec fn opexposed(op: SpecOp) -> Seq<u64> {
    match op {
        SpecOp::From(s) => souts(s),
        SpecOp::Filter(_) => Seq::empty(),
        SpecOp::Window(w) => seq![w.out],
        SpecOp::Order(_, _) => Seq::empty(),
    }
}

pub open spec fn opsexposed(ops: Seq<SpecOp>) -> Seq<u64>
    decreases ops,
{
    if ops.len() == 0 {
        Seq::empty()
    } else {
        opsexposed(ops.drop_last()) + opexposed(ops.last())
    }
}

// ---------------------------------------------------------------------------
// Well-formedness
// ---------------------------------------------------------------------------

pub open spec fn ident_char(c: char) -> bool {
    ('a' <= c && c <= 'z') || ('A' <= c && c <= 'Z') || ('0' <= c && c <= '9') || c == '_'
}

/// A plain SQL identifier: nonempty, letters, digits and underscores only,
/// not starting with a digit.
pub open spec fn ident_ok(s: Seq<char>) -> bool {
    &&& s.len() > 0
    &&& forall|i: int| 0 <= i < s.len() ==> ident_char(#[trigger] s[i])
    &&& !('0' <= s[0] && s[0] <= '9')
}

/// Expression well-formedness against a set of visible aliases: every free
/// column reference resolves, and every embedded sub-select is itself
/// well-formed and closed, with a positional projection matching the arity
/// of the tuple tested against it.
pub open spec fn ewf(e: SpecExpr, vis: Seq<u64>) -> bool
    decreases e,
{
    match e {
        SpecExpr::Col(a) => vis.contains(a),
        SpecExpr::Param(_) => true,
        SpecExpr::Add(a, b) => ewf(*a, vis) && ewf(*b, vis),
        SpecExpr::Lt(a, _) => ewf(*a, vis),
        SpecExpr::Eq(a, b) => ewf(*a, vis) && ewf(*b, vis),
        SpecExpr::Not(a) => ewf(*a, vis),
        SpecExpr::InSelect(es, s) => {
            &&& es.len() > 0
            &&& eswf(es, vis)
            &&& swf(*s)
            &&& (*s).proj matches SpecProj::Exprs(ps) && ps.len() == es.len()
        },
    }
}

pub open spec fn eswf(es: Seq<SpecExpr>, vis: Seq<u64>) -> bool
    decreases es,
{
    if es.len() == 0 {
        true
    } else {
        eswf(es.drop_last(), vis) && ewf(es.last(), vis)
    }
}

pub open spec fn wwf(w: SpecWindow, vis: Seq<u64>) -> bool
    decreases w,
{
    &&& ewf(w.val, vis)
    &&& w.partition.len() > 0
    &&& eswf(w.partition, vis)
}

pub open spec fn colswf(cs: Seq<(Seq<char>, u64)>) -> bool
    decreases cs,
{
    if cs.len() == 0 {
        true
    } else {
        colswf(cs.drop_last()) && ident_ok(cs.last().0)
    }
}

pub open spec fn oswf(os: Seq<(SpecExpr, bool)>, vis: Seq<u64>) -> bool
    decreases os,
{
    if os.len() == 0 {
        true
    } else {
        oswf(os.drop_last(), vis) && ewf(os.last().0, vis)
    }
}

pub open spec fn srcwf(s: SpecSource) -> bool
    decreases s,
{
    match s {
        SpecSource::Table(name) => ident_ok(name),
        SpecSource::Sub(b) => swf(*b),
    }
}

pub open spec fn srcswf(ss: Seq<SpecSource>) -> bool
    decreases ss,
{
    if ss.len() == 0 {
        true
    } else {
        srcswf(ss.drop_last()) && srcwf(ss.last())
    }
}

pub open spec fn pwf(p: SpecProj, vis: Seq<u64>) -> bool
    decreases p,
{
    match p {
        SpecProj::Star => true,
        SpecProj::Cols(cs) => cs.len() > 0 && colswf(cs),
        SpecProj::Exprs(es) => es.len() > 0 && eswf(es, vis),
    }
}

/// Structural validity of one SELECT level and everything below it:
/// at least one FROM source, a nonempty projection, well-formed
/// identifiers, and every column reference resolved by the sources
/// (ORDER BY may additionally use the level's own window output).
pub open spec fn swf(s: SpecSelect) -> bool
    decreases s,
{
    let vis = srcsouts(s.sources);
    &&& s.sources.len() > 0
    &&& srcswf(s.sources)
    &&& eswf(s.filters, vis)
    &&& match s.window {
        Some(w) => wwf(w, vis),
        None => true,
    }
    &&& oswf(s.orders, vis + wout(s.window))
    &&& pwf(s.proj, vis)
}

// ---------------------------------------------------------------------------
// The stage machine
// ---------------------------------------------------------------------------

/// The stage a level has reached: FROM is 0, WHERE is 1, window/ORDER is 2.
/// An operation of a lower stage than the level's current one forces a
/// push-down first.
pub open spec fn sstage(s: SpecSelect) -> int {
    if s.window is Some || s.orders.len() > 0 {
        2
    } else if s.filters.len() > 0 {
        1
    } else {
        0
    }
}

/// Push-down: wrap the accumulated level as a sub-select of a fresh
/// `SELECT *` level, so that everything it defines becomes an ordinary,
/// freely referenceable column again.
pub open spec fn spec_push_down(s: SpecSelect) -> SpecSelect {
    SpecSelect {
        proj: SpecProj::Star,
        window: None,
        sources: seq![SpecSource::Sub(Box::new(s))],
        filters: Seq::empty(),
        orders: Seq::empty(),
    }
}

pub open spec fn sstep(cur: SpecSelect, op: SpecOp) -> SpecSelect {
    match op {
        SpecOp::From(t) => {
            let c = if sstage(cur) > 0 {
                spec_push_down(cur)
            } else {
                cur
            };
            SpecSelect { sources: c.sources.push(SpecSource::Sub(Box::new(t))), ..c }
        },
        SpecOp::Filter(e) => {
            let c = if sstage(cur) > 1 {
                spec_push_down(cur)
            } else {
                cur
            };
            SpecSelect { filters: c.filters.push(e), ..c }
        },
        SpecOp::Window(w) => {
            let c = if sstage(cur) > 1 {
                spec_push_down(cur)
            } else {
                cur
            };
            SpecSelect { window: Some(w), ..c }
        },
        SpecOp::Order(e, asc) => {
            SpecSelect { orders: cur.orders.push((e, asc)), ..cur }
        },
    }
}

pub open spec fn empty_select() -> SpecSelect {
    SpecSelect {
        proj: SpecProj::Star,
        window: None,
        sources: Seq::empty(),
        filters: Seq::empty(),
        orders: Seq::empty(),
    }
}

pub open spec fn sfold(ops: Seq<SpecOp>) -> SpecSelect
    decreases ops,
{
    if ops.len() == 0 {
        empty_select()
    } else {
        sstep(sfold(ops.drop_last()), ops.last())
    }
}

/// Compile a log and give it a final positional projection, pushing down
/// once more if the tail stage is past WHERE, so the projection only ever
/// references already-materialized columns.
pub open spec fn spec_finish(ops: Seq<SpecOp>, row: Seq<SpecExpr>) -> SpecSelect {
    let c = sfold(ops);
    let c2 = if sstage(c) > 1 {
        spec_push_down(c)
    } else {
        c
    };
    SpecSelect { proj: SpecProj::Exprs(row), ..c2 }
}

// ---------------------------------------------------------------------------
// View lemmas: lengths and pushes
// ---------------------------------------------------------------------------

pub proof fn lemma_exprs_view_len(es: Seq<Expr>)
    ensures
        exprs_view(es).len() == es.len(),
    decreases es,
{
    if es.len() > 0 {
        lemma_exprs_view_len(es.drop_last());
    }
}

pub proof fn lemma_sources_view_len(ss: Seq<Source>)
    ensures
        sources_view(ss).len() == ss.len(),
    decreases ss,
{
    if ss.len() > 0 {
        lemma_sources_view_len(ss.drop_last());
    }
}

pub proof fn lemma_orders_view_len(os: Seq<(Expr, bool)>)
    ensures
        orders_view(os).len() == os.len(),
    decreases os,
{
    if os.len() > 0 {
        lemma_orders_view_len(os.drop_last());
    }
}

pub proof fn lemma_cols_view_len(cs: Seq<(String, u64)>)
    ensures
        cols_view(cs).len() == cs.len(),
    decreases cs,
{
    if cs.len() > 0 {
        lemma_cols_view_len(cs.drop_last());
    }
}

pub proof fn lemma_ops_view_len(ops: Seq<Operation>)
    ensures
        ops_view(ops).len() == ops.len(),
    decreases ops,
{
    if ops.len() > 0 {
        lemma_ops_view_len(ops.drop_last());
    }
}

pub proof fn lemma_exprs_view_push(es: Seq<Expr>, e: Expr)
    ensures
        exprs_view(es.push(e)) == exprs_view(es).push(expr_view(e)),
{
    assert(es.push(e).drop_last() =~= es);
}

pub proof fn lemma_sources_view_push(ss: Seq<Source>, s: Source)
    ensures
        sources_view(ss.push(s)) == sources_view(ss).push(source_view(s)),
{
    assert(ss.push(s).drop_last() =~= ss);
}

pub proof fn lemma_orders_view_push(os: Seq<(Expr, bool)>, e: Expr, asc: bool)
    ensures
        orders_view(os.push((e, asc))) == orders_view(os).push((expr_view(e), asc)),
{
    assert(os.push((e, asc)).drop_last() =~= os);
}

pub proof fn lemma_cols_view_push(cs: Seq<(String, u64)>, c: (String, u64))
    ensures
        cols_view(cs.push(c)) == cols_view(cs).push((c.0@, c.1)),
{
    assert(cs.push(c).drop_last() =~= cs);
}

pub proof fn lemma_ops_view_push(ops: Seq<Operation>, op: Operation)
    ensures
        ops_view(ops.push(op)) == ops_view(ops).push(op_view(op)),
{
    assert(ops.push(op).drop_last() =~= ops);
}

// ---------------------------------------------------------------------------
// Log well-formedness
// ---------------------------------------------------------------------------

/// What an operation demands of the log it is appended to: the aliases it
/// references must already be exposed, and a joined select must itself be
/// well-formed.
pub open spec fn op_wf(op: SpecOp, vis: Seq<u64>) -> bool {
    match op {
        SpecOp::From(t) => swf(t),
        SpecOp::Filter(e) => ewf(e, vis),
        SpecOp::Window(w) => wwf(w, vis),
        SpecOp::Order(e, _) => ewf(e, vis),
    }
}

pub open spec fn log_wf(ops: Seq<SpecOp>) -> bool
    decreases ops,
{
    if ops.len() == 0 {
        true
    } else {
        log_wf(ops.drop_last()) && op_wf(ops.last(), opsexposed(ops.drop_last()))
    }
}

/// A log that starts with a FROM operation; every context that has joined
/// at least one source satisfies this.
pub open spec fn log_rooted(ops: Seq<SpecOp>) -> bool {
    ops.len() > 0 && ops[0] is From
}

/// One alias sequence contained in another, element-wise.
pub open spec fn sub_aliases(a: Seq<u64>, b: Seq<u64>) -> bool {
    forall|x: u64| a.contains(x) ==> b.contains(x)
}

// ---------------------------------------------------------------------------
// Basic sequence lemmas
// ---------------------------------------------------------------------------

pub proof fn lemma_contains_concat(a: Seq<u64>, b: Seq<u64>)
    ensures
        forall|x: u64| (a + b).contains(x) <==> a.contains(x) || b.contains(x),
{
    assert forall|x: u64| (a + b).contains(x) implies a.contains(x) || b.contains(x) by {
        let i = choose|i: int| 0 <= i < (a + b).len() && (a + b)[i] == x;
        if i < a.len() {
            assert(a[i] == x);
        } else {
            assert(b[i - a.len()] == x);
        }
    }
    assert forall|x: u64| a.contains(x) || b.contains(x) implies (a + b).contains(x) by {
        if a.contains(x) {
            let i = choose|i: int| 0 <= i < a.len() && a[i] == x;
            assert((a + b)[i] == x);
        } else {
            let i = choose|i: int| 0 <= i < b.len() && b[i] == x;
            assert((a + b)[a.len() + i] == x);
        }
    }
}

/// Unfolding of the log-level spec functions over a push.
pub proof fn lemma_ops_push(ops: Seq<SpecOp>, op: SpecOp)
    ensures
        opsexposed(ops.push(op)) == opsexposed(ops) + opexposed(op),
        opsdefs(ops.push(op)) == opsdefs(ops) + opdefs(op),
        log_wf(ops.push(op)) == (log_wf(ops) && op_wf(op, opsexposed(ops))),
{
    assert(ops.push(op).drop_last() =~= ops);
}

/// Unfolding helpers for the sequence-fold spec functions.
pub proof fn lemma_srcs_empty()
    ensures
        srcsouts(Seq::<SpecSource>::empty()) == Seq::<u64>::empty(),
        srcsdefs(Seq::<SpecSource>::empty()) == Seq::<u64>::empty(),
        srcswf(Seq::<SpecSource>::empty()),
{
}

pub proof fn lemma_singleton_sub(s: SpecSelect)
    ensures
        srcsouts(seq![SpecSource::Sub(Box::new(s))]) == souts(s),
        srcsdefs(seq![SpecSource::Sub(Box::new(s))]) == sdefs(s),
        srcswf(seq![SpecSource::Sub(Box::new(s))]) == swf(s),
{
    let ss = seq![SpecSource::Sub(Box::new(s))];
    assert(ss.drop_last() =~= Seq::<SpecSource>::empty());
    lemma_srcs_empty();
    assert(ss.last() == SpecSource::Sub(Box::new(s)));
    assert(srcouts(SpecSource::Sub(Box::new(s))) == souts(s));
    assert(srcdefs(SpecSource::Sub(Box::new(s))) == sdefs(s));
    assert(srcwf(SpecSource::Sub(Box::new(s))) == swf(s));
    assert(srcsouts(ss) == srcsouts(ss.drop_last()) + srcouts(ss.last()));
    assert(srcsouts(ss.drop_last()) == Seq::<u64>::empty());
    assert(srcsouts(ss) =~= souts(s));
    assert(srcsdefs(ss) =~= sdefs(s));
}

pub proof fn lemma_srcs_push(ss: Seq<SpecSource>, s: SpecSelect)
    ensures
        srcsouts(ss.push(SpecSource::Sub(Box::new(s)))) == srcsouts(ss) + souts(s),
        srcsdefs(ss.push(SpecSource::Sub(Box::new(s)))) == srcsdefs(ss) + sdefs(s),
        srcswf(ss.push(SpecSource::Sub(Box::new(s)))) == (srcswf(ss) && swf(s)),
{
    assert(ss.push(SpecSource::Sub(Box::new(s))).drop_last() =~= ss);
    assert(srcouts(SpecSource::Sub(Box::new(s))) == souts(s));
    assert(srcdefs(SpecSource::Sub(Box::new(s))) == sdefs(s));
    assert(srcwf(SpecSource::Sub(Box::new(s))) == swf(s));
}

pub proof fn lemma_exprs_push(es: Seq<SpecExpr>, e: SpecExpr, vis: Seq<u64>)
    ensures
        esdefs(es.push(e)) == esdefs(es) + edefs(e),
        eswf(es.push(e), vis) == (eswf(es, vis) && ewf(e, vis)),
        esrefs(es.push(e)) == esrefs(es) + erefs(e),
{
    assert(es.push(e).drop_last() =~= es);
}

pub proof fn lemma_orders_push(os: Seq<(SpecExpr, bool)>, e: SpecExpr, asc: bool, vis: Seq<u64>)
    ensures
        odefs(os.push((e, asc))) == odefs(os) + edefs(e),
        oswf(os.push((e, asc)), vis) == (oswf(os, vis) && ewf(e, vis)),
{
    assert(os.push((e, asc)).drop_last() =~= os);
}

// ---------------------------------------------------------------------------
// Monotonicity of well-formedness in the visible aliases
// ---------------------------------------------------------------------------

pub proof fn lemma_ewf_mono(e: SpecExpr, vis: Seq<u64>, vis2: Seq<u64>)
    requires
        ewf(e, vis),
        sub_aliases(vis, vis2),
    ensures
        ewf(e, vis2),
    decreases e,
{
    match e {
        SpecExpr::Add(a, b) => {
            lemma_ewf_mono(*a, vis, vis2);
            lemma_ewf_mono(*b, vis, vis2);
        },
        SpecExpr::Eq(a, b) => {
            lemma_ewf_mono(*a, vis, vis2);
            lemma_ewf_mono(*b, vis, vis2);
        },
        SpecExpr::Lt(a, _) => lemma_ewf_mono(*a, vis, vis2),
        SpecExpr::Not(a) => lemma_ewf_mono(*a, vis, vis2),
        SpecExpr::InSelect(es, _) => lemma_eswf_mono(es, vis, vis2),
        _ => {},
    }
}

pub proof fn lemma_eswf_mono(es: Seq<SpecExpr>, vis: Seq<u64>, vis2: Seq<u64>)
    requires
        eswf(es, vis),
        sub_aliases(vis, vis2),
    ensures
        eswf(es, vis2),
    decreases es,
{
    if es.len() > 0 {
        lemma_eswf_mono(es.drop_last(), vis, vis2);
        lemma_ewf_mono(es.last(), vis, vis2);
    }
}

pub proof fn lemma_eswf_pointwise(es: Seq<SpecExpr>, vis: Seq<u64>)
    requires
        forall|i: int| 0 <= i < es.len() ==> ewf(#[trigger] es[i], vis),
    ensures
        eswf(es, vis),
    decreases es,
{
    if es.len() > 0 {
        lemma_eswf_pointwise(es.drop_last(), vis);
    }
}

// ---------------------------------------------------------------------------
// What folding preserves: projection shape, defs, outs
// ---------------------------------------------------------------------------

pub proof fn lemma_push_down_defs(s: SpecSelect)
    ensures
        sdefs(spec_push_down(s)) == sdefs(s),
        souts(spec_push_down(s)) == souts(s),
{
    let w = spec_push_down(s);
    lemma_singleton_sub(s);
    assert(sdefs(w) =~= sdefs(s));
    assert(souts(w) =~= souts(s));
}

pub proof fn lemma_sstep_defs(cur: SpecSelect, op: SpecOp)
    requires
        cur.proj is Star,
    ensures
        sdefs(sstep(cur, op)) == sdefs(cur) + opdefs(op),
        souts(sstep(cur, op)) == souts(cur) + opexposed(op),
        sstep(cur, op).proj is Star,
    decreases op,
{
    lemma_push_down_defs(cur);
    match op {
        SpecOp::From(t) => {
            let c = if sstage(cur) > 0 { spec_push_down(cur) } else { cur };
            let n = sstep(cur, op);
            lemma_srcs_push(c.sources, t);
            assert(sdefs(n) =~= sdefs(c) + sdefs(t));
            assert(souts(n) =~= souts(c) + souts(t));
        },
        SpecOp::Filter(e) => {
            let c = if sstage(cur) > 1 { spec_push_down(cur) } else { cur };
            let n = sstep(cur, op);
            lemma_exprs_push(c.filters, e, Seq::<u64>::empty());
            assert(sdefs(n) =~= sdefs(c) + edefs(e));
            assert(souts(n) =~= souts(c) + opexposed(op));
        },
        SpecOp::Window(w) => {
            let c = if sstage(cur) > 1 { spec_push_down(cur) } else { cur };
            let n = sstep(cur, op);
            assert(c.window is None);
            assert(sdefs(n) =~= sdefs(c) + wdefs(w));
            assert(souts(n) =~= souts(c) + seq![w.out]);
        },
        SpecOp::Order(e, asc) => {
            let n = sstep(cur, op);
            lemma_orders_push(cur.orders, e, asc, Seq::<u64>::empty());
            assert(sdefs(n) =~= sdefs(cur) + edefs(e));
            assert(souts(n) =~= souts(cur) + opexposed(op));
        },
    }
}

pub proof fn lemma_sfold_defs(ops: Seq<SpecOp>)
    ensures
        sdefs(sfold(ops)) == opsdefs(ops),
        souts(sfold(ops)) == opsexposed(ops),
        sfold(ops).proj is Star,
    decreases ops,
{
    if ops.len() == 0 {
        assert(sdefs(empty_select()) =~= opsdefs(ops));
        assert(souts(empty_select()) =~= opsexposed(ops));
    } else {
        lemma_sfold_defs(ops.drop_last());
        lemma_sstep_defs(sfold(ops.drop_last()), ops.last());
    }
}

/// The compiler neither invents nor loses a defining alias occurrence:
/// the compiled tree introduces exactly the aliases of the log followed by
/// those of the final projection row.
pub proof fn lemma_finish_defs(ops: Seq<SpecOp>, row: Seq<SpecExpr>)
    ensures
        sdefs(spec_finish(ops, row)) == opsdefs(ops) + esdefs(row),
{
    lemma_sfold_defs(ops);
    let c = sfold(ops);
    let c2 = if sstage(c) > 1 { spec_push_down(c) } else { c };
    lemma_push_down_defs(c);
    let f = spec_finish(ops, row);
    assert(sdefs(f) =~= sdefs(c2) + esdefs(row));
}

// ---------------------------------------------------------------------------
// The main well-formedness theorem: a well-formed, rooted log compiles to
// a structurally valid select tree.
// ---------------------------------------------------------------------------

pub proof fn lemma_push_down_wf(s: SpecSelect)
    requires
        swf(s),
    ensures
        swf(spec_push_down(s)),
        sstage(spec_push_down(s)) == 0,
{
    let w = spec_push_down(s);
    lemma_singleton_sub(s);
    assert(srcswf(w.sources));
    assert(eswf(w.filters, srcsouts(w.sources)));
    assert(oswf(w.orders, srcsouts(w.sources) + wout(w.window)));
}

pub proof fn lemma_sfold_wf(ops: Seq<SpecOp>)
    requires
        log_wf(ops),
        log_rooted(ops),
    ensures
        swf(sfold(ops)),
    decreases ops,
{
    let pre = ops.drop_last();
    let op = ops.last();
    lemma_sfold_defs(pre);
    if ops.len() == 1 {
        // the first operation is a FROM: it lands in the empty level
        assert(op == ops[0]);
        let t = op->From_0;
        assert(opsexposed(pre).len() == 0);
        assert(swf(t));
        assert(sstage(empty_select()) == 0);
        let n = sfold(ops);
        assert(n == sstep(empty_select(), op));
        assert(n.sources =~= seq![SpecSource::Sub(Box::new(t))]);
        lemma_singleton_sub(t);
        assert(srcswf(n.sources));
        assert(eswf(n.filters, srcsouts(n.sources)));
        assert(oswf(n.orders, srcsouts(n.sources) + wout(n.window)));
        assert(swf(n));
    } else {
        assert(pre[0] == ops[0]);
        lemma_sfold_wf(pre);
        let f = sfold(pre);
        // souts(f) equals the log's exposed aliases
        assert(souts(f) == opsexposed(pre));
        assert(f.proj is Star);
        let vis_f = srcsouts(f.sources);
        lemma_push_down_wf(f);
        lemma_push_down_defs(f);
        let d = spec_push_down(f);
        lemma_singleton_sub(f);
        assert(srcsouts(d.sources) =~= souts(f));
        let n = sfold(ops);
        assert(n == sstep(f, op));
        match op {
            SpecOp::From(t) => {
                let c = if sstage(f) > 0 { spec_push_down(f) } else { f };
                assert(c.filters.len() == 0 && c.orders.len() == 0 && c.window is None);
                assert(swf(c));
                lemma_srcs_push(c.sources, t);
                assert(n.sources == c.sources.push(SpecSource::Sub(Box::new(t))));
                assert(srcswf(n.sources));
                assert(eswf(n.filters, srcsouts(n.sources)));
                assert(oswf(n.orders, srcsouts(n.sources) + wout(n.window)));
                assert(swf(n));
            },
            SpecOp::Filter(e) => {
                let c = if sstage(f) > 1 { spec_push_down(f) } else { f };
                let vis_c = srcsouts(c.sources);
                assert(c.window is None && c.orders.len() == 0);
                // the operation is well-formed against the log's exposed
                // aliases, which are exactly what the sources expose here
                assert(ewf(e, opsexposed(pre)));
                if sstage(f) > 1 {
                    assert(vis_c == srcsouts(d.sources));
                    assert(vis_c =~= souts(f));
                } else {
                    assert(f.window is None);
                    assert(vis_f + wout(f.window) =~= vis_f);
                    assert(souts(f) =~= vis_f + wout(f.window));
                    assert(vis_c =~= souts(f));
                }
                assert(ewf(e, vis_c));
                assert(eswf(c.filters, vis_c));
                lemma_exprs_push(c.filters, e, vis_c);
                assert(n.filters == c.filters.push(e));
                assert(eswf(n.filters, vis_c));
                assert(oswf(n.orders, vis_c + wout(n.window)));
                assert(swf(n));
            },
            SpecOp::Window(w) => {
                let c = if sstage(f) > 1 { spec_push_down(f) } else { f };
                let vis_c = srcsouts(c.sources);
                assert(c.window is None && c.orders.len() == 0);
                assert(wwf(w, opsexposed(pre)));
                if sstage(f) > 1 {
                    assert(vis_c == srcsouts(d.sources));
                    assert(vis_c =~= souts(f));
                } else {
                    assert(f.window is None);
                    assert(souts(f) =~= vis_f + wout(f.window));
                    assert(vis_c =~= souts(f));
                }
                assert(wwf(w, vis_c));
                assert(eswf(n.filters, vis_c));
                assert(oswf(n.orders, vis_c + wout(n.window)));
                assert(swf(n));
            },
            SpecOp::Order(e, asc) => {
                assert(ewf(e, opsexposed(pre)));
                assert(souts(f) =~= vis_f + wout(f.window));
                assert(ewf(e, vis_f + wout(f.window)));
                assert(oswf(f.orders, vis_f + wout(f.window)));
                lemma_orders_push(f.orders, e, asc, vis_f + wout(f.window));
                assert(n.orders == f.orders.push((e, asc)));
                assert(oswf(n.orders, vis_f + wout(n.window)));
                assert(swf(n));
            },
        }
    }
}

/// A well-formed, rooted log together with a projection row whose
/// references the log exposes compiles to a structurally valid tree.
pub proof fn lemma_finish_wf(ops: Seq<SpecOp>, row: Seq<SpecExpr>)
    requires
        log_wf(ops),
        log_rooted(ops),
        row.len() > 0,
        eswf(row, opsexposed(ops)),
    ensures
        swf(spec_finish(ops, row)),
        spec_finish(ops, row).proj == SpecProj::Exprs(row),
{
    lemma_sfold_wf(ops);
    lemma_sfold_defs(ops);
    let c = sfold(ops);
    assert(souts(c) == opsexposed(ops));
    let f = spec_finish(ops, row);
    if sstage(c) > 1 {
        lemma_push_down_wf(c);
        let c2 = spec_push_down(c);
        lemma_singleton_sub(c);
        assert(srcsouts(c2.sources) =~= souts(c));
        assert(f.sources == c2.sources && f.filters == c2.filters && f.orders == c2.orders
            && f.window == c2.window);
        assert(eswf(row, srcsouts(f.sources)));
        assert(eswf(f.filters, srcsouts(f.sources)));
        assert(oswf(f.orders, srcsouts(f.sources) + wout(f.window)));
        assert(swf(f));
    } else {
        assert(c.window is None && c.orders.len() == 0);
        assert(srcsouts(c.sources) + wout(c.window) =~= srcsouts(c.sources));
        assert(srcsouts(c.sources) =~= souts(c));
        assert(eswf(row, srcsouts(f.sources)));
        assert(swf(f));
    }
}

// ---------------------------------------------------------------------------
// Deep clones (expression trees are shared freely between handles)
// ---------------------------------------------------------------------------

impl Expr {
    #[verifier::loop_isolation(false)]
    pub fn deep_clone(&self) -> (r: Expr)
        ensures
            expr_view(r) == expr_view(*self),
        decreases *self,
    {
        match self {
            Expr::Col(a) => Expr::Col(*a),
            Expr::Param(p) => Expr::Param(*p),
            Expr::Add(a, b) => Expr::Add(Box::new(a.deep_clone()), Box::new(b.deep_clone())),
            Expr::Lt(a, k) => Expr::Lt(Box::new(a.deep_clone()), *k),
            Expr::Eq(a, b) => Expr::Eq(Box::new(a.deep_clone()), Box::new(b.deep_clone())),
            Expr::Not(a) => Expr::Not(Box::new(a.deep_clone())),
            Expr::InSelect(es, s) => Expr::InSelect(clone_exprs(es), Box::new(s.deep_clone())),
        }
    }
}

#[verifier::loop_isolation(false)]
pub fn clone_exprs(es: &Vec<Expr>) -> (r: Vec<Expr>)
    ensures
        exprs_view(r@) == exprs_view(es@),
    decreases es@,
{
    let mut out: Vec<Expr> = Vec::new();
    let mut i: usize = 0;
    while i < es.len()
        invariant
            0 <= i <= es@.len(),
            out@.len() == i,
            exprs_view(out@) == exprs_view(es@.subrange(0, i as int)),
        decreases es@.len() - i,
    {
        let c = es[i].deep_clone();
        proof {
            lemma_exprs_view_push(out@, c);
            lemma_exprs_view_push(es@.subrange(0, i as int), es@[i as int]);
            assert(es@.subrange(0, i + 1).drop_last() =~= es@.subrange(0, i as int));
        }
        out.push(c);
        i = i + 1;
    }
    proof {
        assert(es@.subrange(0, es@.len() as int) =~= es@);
    }
    out
}

impl WindowDef {
    pub fn deep_clone(&self) -> (r: WindowDef)
        ensures
            window_view(r) == window_view(*self),
        decreases *self,
    {
        WindowDef {
            val: self.val.deep_clone(),
            partition: clone_exprs(&self.partition),
            asc: self.asc,
            out: self.out,
        }
    }
}

#[verifier::loop_isolation(false)]
pub fn clone_cols(cs: &Vec<(String, u64)>) -> (r: Vec<(String, u64)>)
    ensures
        cols_view(r@) == cols_view(cs@),
{
    let mut out: Vec<(String, u64)> = Vec::new();
    let mut i: usize = 0;
    while i < cs.len()
        invariant
            0 <= i <= cs@.len(),
            out@.len() == i,
            cols_view(out@) == cols_view(cs@.subrange(0, i as int)),
        decreases cs@.len() - i,
    {
        let name = cs[i].0.clone();
        let c = (name, cs[i].1);
        proof {
            lemma_cols_view_push(out@, c);
            lemma_cols_view_push(cs@.subrange(0, i as int), cs@[i as int]);
            assert(cs@.subrange(0, i + 1).drop_last() =~= cs@.subrange(0, i as int));
        }
        out.push(c);
        i = i + 1;
    }
    proof {
        assert(cs@.subrange(0, cs@.len() as int) =~= cs@);
    }
    out
}

impl Proj {
    pub fn deep_clone(&self) -> (r: Proj)
        ensures
            proj_view(r) == proj_view(*self),
        decreases *self,
    {
        match self {
            Proj::Star => Proj::Star,
            Proj::Cols(cs) => Proj::Cols(clone_cols(cs)),
            Proj::Exprs(es) => Proj::Exprs(clone_exprs(es)),
        }
    }
}

impl Source {
    pub fn deep_clone(&self) -> (r: Source)
        ensures
            source_view(r) == source_view(*self),
        decreases *self,
    {
        match self {
            Source::Table(name) => Source::Table(name.clone()),
            Source::Sub(b) => Source::Sub(Box::new(b.deep_clone())),
        }
    }
}

#[verifier::loop_isolation(false)]
pub fn clone_sources(ss: &Vec<Source>) -> (r: Vec<Source>)
    ensures
        sources_view(r@) == sources_view(ss@),
    decreases ss@,
{
    let mut out: Vec<Source> = Vec::new();
    let mut i: usize = 0;
    while i < ss.len()
        invariant
            0 <= i <= ss@.len(),
            out@.len() == i,
            sources_view(out@) == sources_view(ss@.subrange(0, i as int)),
        decreases ss@.len() - i,
    {
        let c = ss[i].deep_clone();
        proof {
            lemma_sources_view_push(out@, c);
            lemma_sources_view_push(ss@.subrange(0, i as int), ss@[i as int]);
            assert(ss@.subrange(0, i + 1).drop_last() =~= ss@.subrange(0, i as int));
        }
        out.push(c);
        i = i + 1;
    }
    proof {
        assert(ss@.subrange(0, ss@.len() as int) =~= ss@);
    }
    out
}

#[verifier::loop_isolation(false)]
pub fn clone_orders(os: &Vec<(Expr, bool)>) -> (r: Vec<(Expr, bool)>)
    ensures
        orders_view(r@) == orders_view(os@),
    decreases os@,
{
    let mut out: Vec<(Expr, bool)> = Vec::new();
    let mut i: usize = 0;
    while i < os.len()
        invariant
            0 <= i <= os@.len(),
            out@.len() == i,
            orders_view(out@) == orders_view(os@.subrange(0, i as int)),
        decreases os@.len() - i,
    {
        let c = (os[i].0.deep_clone(), os[i].1);
        proof {
            lemma_orders_view_push(out@, c.0, c.1);
            lemma_orders_view_push(os@.subrange(0, i as int), os@[i as int].0, os@[i as int].1);
            assert((os@[i as int].0, os@[i as int].1) == os@[i as int]);
            assert(os@.subrange(0, i + 1).drop_last() =~= os@.subrange(0, i as int));
        }
        out.push(c);
        i = i + 1;
    }
    proof {
        assert(os@.subrange(0, os@.len() as int) =~= os@);
    }
    out
}

impl Select {
    pub fn deep_clone(&self) -> (r: Select)
        ensures
            select_view(r) == select_view(*self),
        decreases *self,
    {
        Select {
            proj: self.proj.deep_clone(),
            window: match &self.window {
                Some(w) => Some(w.deep_clone()),
                None => None,
            },
            sources: clone_sources(&self.sources),
            filters: clone_exprs(&self.filters),
            orders: clone_orders(&self.orders),
        }
    }
}

impl Operation {
    pub fn deep_clone(&self) -> (r: Operation)
        ensures
            op_view(r) == op_view(*self),
        decreases *self,
    {
        match self {
            Operation::From(s) => Operation::From(s.deep_clone()),
            Operation::Filter(e) => Operation::Filter(e.deep_clone()),
            Operation::Window(w) => Operation::Window(w.deep_clone()),
            Operation::Order(e, asc) => Operation::Order(e.deep_clone(), *asc),
        }
    }
}

#[verifier::loop_isolation(false)]
pub fn clone_ops(ops: &Vec<Operation>) -> (r: Vec<Operation>)
    ensures
        ops_view(r@) == ops_view(ops@),
    decreases ops@,
{
    let mut out: Vec<Operation> = Vec::new();
    let mut i: usize = 0;
    while i < ops.len()
        invariant
            0 <= i <= ops@.len(),
            out@.len() == i,
            ops_view(out@) == ops_view(ops@.subrange(0, i as int)),
        decreases ops@.len() - i,
    {
        let c = ops[i].deep_clone();
        proof {
            lemma_ops_view_push(out@, c);
            lemma_ops_view_push(ops@.subrange(0, i as int), ops@[i as int]);
            assert(ops@.subrange(0, i + 1).drop_last() =~= ops@.subrange(0, i as int));
        }
        out.push(c);
        i = i + 1;
    }
    proof {
        assert(ops@.subrange(0, ops@.len() as int) =~= ops@);
    }
    out
}

// ---------------------------------------------------------------------------
// The executable compiler
// ---------------------------------------------------------------------------

/// Push-down: wrap an accumulated select as the sole source of a fresh
/// `SELECT *` level.
pub fn push_down(s: Select) -> (r: Select)
    ensures
        select_view(r) == spec_push_down(select_view(s)),
{
    let ghost sv = select_view(s);
    let mut sources: Vec<Source> = Vec::new();
    let src = Source::Sub(Box::new(s));
    proof {
        assert(source_view(src) == SpecSource::Sub(Box::new(sv)));
    }
    sources.push(src);
    proof {
        assert(sources@.drop_last() =~= Seq::<Source>::empty());
        assert(sources_view(Seq::<Source>::empty()) =~= Seq::<SpecSource>::empty());
        assert(sources_view(sources@) =~= seq![SpecSource::Sub(Box::new(sv))]);
    }
    let r = Select {
        proj: Proj::Star,
        window: None,
        sources,
        filters: Vec::new(),
        orders: Vec::new(),
    };
    proof {
        assert(exprs_view(Seq::<Expr>::empty()) =~= Seq::<SpecExpr>::empty());
        assert(orders_view(Seq::<(Expr, bool)>::empty()) =~= Seq::<(SpecExpr, bool)>::empty());
        assert(select_view(r) == spec_push_down(sv));
    }
    r
}

impl Select {
    /// The stage this level has reached, per the transition discipline.
    pub fn stage(&self) -> (k: u8)
        ensures
            k as int == sstage(select_view(*self)),
    {
        proof {
            lemma_orders_view_len(self.orders@);
            lemma_exprs_view_len(self.filters@);
        }
        if self.window.is_some() || self.orders.len() > 0 {
            2
        } else if self.filters.len() > 0 {
            1
        } else {
            0
        }
    }
}

/// Append one operation to an accumulated level, pushing the level down
/// first if the operation's stage is lower than the level's.
pub fn apply_op(cur: Select, op: Operation) -> (r: Select)
    ensures
        select_view(r) == sstep(select_view(cur), op_view(op)),
{
    let ghost cv = select_view(cur);
    let ghost ov = op_view(op);
    match op {
        Operation::From(t) => {
            let ghost tv = select_view(t);
            let mut c = if cur.stage() > 0 {
                push_down(cur)
            } else {
                cur
            };
            proof {
                lemma_sources_view_push(c.sources@, Source::Sub(Box::new(t)));
            }
            c.sources.push(Source::Sub(Box::new(t)));
            proof {
                assert(select_view(c) == sstep(cv, ov));
            }
            c
        },
        Operation::Filter(e) => {
            let mut c = if cur.stage() > 1 {
                push_down(cur)
            } else {
                cur
            };
            proof {
                lemma_exprs_view_push(c.filters@, e);
            }
            c.filters.push(e);
            proof {
                assert(select_view(c) == sstep(cv, ov));
            }
            c
        },
        Operation::Window(w) => {
            let mut c = if cur.stage() > 1 {
                push_down(cur)
            } else {
                cur
            };
            c.window = Some(w);
            proof {
                assert(select_view(c) == sstep(cv, ov));
            }
            c
        },
        Operation::Order(e, asc) => {
            let mut c = cur;
            proof {
                lemma_orders_view_push(c.orders@, e, asc);
            }
            c.orders.push((e, asc));
            proof {
                assert(select_view(c) == sstep(cv, ov));
            }
            c
        },
    }
}

/// An operation log ready to be compiled.
#[derive(Debug)]
pub struct MySelect {
    pub ops: Vec<Operation>,
}

impl MySelect {
    /// Render the log into a tree of nested SELECT statements. With a
    /// projection row the result receives a final positional projection
    /// (after a trailing push-down if the tail stage is past WHERE);
    /// without one every column stays exposed through `SELECT *`.
    pub fn into_select(self, then: Option<Vec<Expr>>) -> (r: Select)
        ensures
            match then {
                Option::Some(row) => select_view(r) == spec_finish(
                    ops_view(self.ops@),
                    exprs_view(row@),
                ),
                Option::None => select_view(r) == sfold(ops_view(self.ops@)),
            },
    {
        let ghost orig = self.ops@;
        let mut ops = self.ops;
        let mut cur = Select {
            proj: Proj::Star,
            window: None,
            sources: Vec::new(),
            filters: Vec::new(),
            orders: Vec::new(),
        };
        proof {
            assert(sources_view(Seq::<Source>::empty()) =~= Seq::<SpecSource>::empty());
            assert(exprs_view(Seq::<Expr>::empty()) =~= Seq::<SpecExpr>::empty());
            assert(orders_view(Seq::<(Expr, bool)>::empty()) =~= Seq::<(SpecExpr, bool)>::empty());
            assert(select_view(cur) == empty_select());
            assert(ops_view(orig.subrange(0, 0)) =~= Seq::<SpecOp>::empty());
        }
        let mut i: usize = 0;
        let n = ops.len();
        #[verifier::loop_isolation(false)]
        while i < n
            invariant
                0 <= i <= n,
                n == orig.len(),
                ops@ == orig.subrange(i as int, orig.len() as int),
                select_view(cur) == sfold(ops_view(orig.subrange(0, i as int))),
            decreases n - i,
        {
            let op = ops.remove(0);
            proof {
                assert(orig.subrange(i as int, orig.len() as int)[0] == orig[i as int]);
                assert(orig.subrange(i as int, orig.len() as int).subrange(
                    1,
                    orig.subrange(i as int, orig.len() as int).len() as int,
                ) =~= orig.subrange(i + 1, orig.len() as int));
                lemma_ops_view_push(orig.subrange(0, i as int), orig[i as int]);
                assert(orig.subrange(0, i as int).push(orig[i as int]) =~= orig.subrange(
                    0,
                    i + 1,
                ));
                assert(ops_view(orig.subrange(0, i + 1)).drop_last() =~= ops_view(
                    orig.subrange(0, i as int),
                ));
            }
            cur = apply_op(cur, op);
            i = i + 1;
        }
        proof {
            assert(orig.subrange(0, orig.len() as int) =~= orig);
        }
        match then {
            Some(row) => {
                let ghost rv = exprs_view(row@);
                let mut c2 = if cur.stage() > 1 {
                    push_down(cur)
                } else {
                    cur
                };
                c2.proj = Proj::Exprs(row);
                proof {
                    assert(select_view(c2) == spec_finish(ops_view(orig), rv));
                }
                c2
            },
            None => cur,
        }
    }
}

} // verus!
