//! The engine's global guarantees, stated once over the ghost model:
//! alias uniqueness of compiled trees, determinism of compilation, and
//! the push-down discipline for filters appended after a window.

use vstd::prelude::*;

use crate::ast::{
    esdefs, lemma_finish_defs, opsdefs, sdefs, sfold, spec_finish, spec_push_down, sstage, sstep,
    SpecExpr, SpecOp, SpecProj, SpecSelect, SpecSource,
};
use crate::query::alias_range;
use crate::render::{spec_select_params, spec_select_sql};

verus! {

// ---------------------------------------------------------------------------
// Alias arithmetic
// ---------------------------------------------------------------------------

/// The aliases of a contiguous allocation: pairwise distinct, and exactly
/// the integers of the interval.
pub proof fn lemma_alias_range(base: u64, len: nat)
    requires
        base + len <= u64::MAX,
    ensures
        alias_range(base, len).no_duplicates(),
        forall|x: u64| alias_range(base, len).contains(x) <==> base <= x < base + len,
{
    let r = alias_range(base, len);
    assert forall|x: u64| r.contains(x) implies base <= x < base + len by {
        let i = choose|i: int| 0 <= i < r.len() && r[i] == x;
    }
    assert forall|x: u64| base <= x < base + len implies r.contains(x) by {
        assert(r[x - base] == x);
    }
}

/// Concatenating alias sequences with no common element keeps them free
/// of duplicates.
pub proof fn lemma_no_dup_concat(a: Seq<u64>, b: Seq<u64>)
    requires
        a.no_duplicates(),
        b.no_duplicates(),
        forall|x: u64| !(a.contains(x) && b.contains(x)),
    ensures
        (a + b).no_duplicates(),
{
    let c = a + b;
    assert forall|i: int, j: int|
        0 <= i < c.len() && 0 <= j < c.len() && i != j implies c[i] != c[j] by {
        if i < a.len() && j < a.len() {
        } else if i >= a.len() && j >= a.len() {
            assert(c[i] == b[i - a.len()]);
            assert(c[j] == b[j - a.len()]);
        } else if i < a.len() && j >= a.len() {
            assert(a.contains(a[i]));
            assert(b.contains(b[j - a.len()]));
        } else {
            assert(a.contains(a[j]));
            assert(b.contains(b[i - a.len()]));
        }
    }
}

// ---------------------------------------------------------------------------
// Alias uniqueness
// ---------------------------------------------------------------------------

/// Compilation neither invents nor drops a defining alias occurrence, so
/// whenever the log and the projection row introduce pairwise distinct
/// aliases — which drawing every alias from one monotone allocator
/// guarantees — no two distinct columns of the compiled tree share an
/// alias, at any nesting depth.
pub proof fn lemma_alias_uniqueness(ops: Seq<SpecOp>, row: Seq<SpecExpr>)
    requires
        (opsdefs(ops) + esdefs(row)).no_duplicates(),
    ensures
        sdefs(spec_finish(ops, row)).no_duplicates(),
{
    lemma_finish_defs(ops, row);
}

// ---------------------------------------------------------------------------
// Determinism of compilation
// ---------------------------------------------------------------------------

/// Compiling one log twice yields the same statement, character for
/// character, parameters included: text and parameters are pure
/// functions of the log and the projection row, with no hidden state.
pub proof fn lemma_compilation_deterministic(
    ops1: Seq<SpecOp>,
    row1: Seq<SpecExpr>,
    ops2: Seq<SpecOp>,
    row2: Seq<SpecExpr>,
)
    requires
        ops1 == ops2,
        row1 == row2,
    ensures
        spec_select_sql(spec_finish(ops1, row1)) == spec_select_sql(spec_finish(ops2, row2)),
        spec_select_params(spec_finish(ops1, row1)) == spec_select_params(
            spec_finish(ops2, row2),
        ),
{
}

// ---------------------------------------------------------------------------
// Push-down correctness
// ---------------------------------------------------------------------------

/// A filter appended to a log whose accumulated level is past the WHERE
/// stage — because a window or an ordering has been appended — lands one
/// level up: the whole accumulated select is wrapped as the sole source
/// of a fresh `SELECT *` level and the filter becomes that level's only
/// WHERE conjunct, so it sees only already-materialized columns.
pub proof fn lemma_filter_push_down(ops: Seq<SpecOp>, e: SpecExpr)
    requires
        sstage(sfold(ops)) > 1,
    ensures
        sfold(ops.push(SpecOp::Filter(e))) == (SpecSelect {
            proj: SpecProj::Star,
            window: None,
            sources: seq![SpecSource::Sub(Box::new(sfold(ops)))],
            filters: seq![e],
            orders: Seq::empty(),
        }),
{
    let f = sfold(ops);
    assert(ops.push(SpecOp::Filter(e)).drop_last() =~= ops);
    assert(sfold(ops.push(SpecOp::Filter(e))) == sstep(f, SpecOp::Filter(e)));
    let w = spec_push_down(f);
    assert(w.filters.push(e) =~= seq![e]);
}

/// A filter appended while the level is still at or before the WHERE
/// stage joins the same level as one more WHERE conjunct.
pub proof fn lemma_filter_same_level(ops: Seq<SpecOp>, e: SpecExpr)
    requires
        sstage(sfold(ops)) <= 1,
    ensures
        sfold(ops.push(SpecOp::Filter(e))) == (SpecSelect {
            filters: sfold(ops).filters.push(e),
            ..sfold(ops)
        }),
{
    assert(ops.push(SpecOp::Filter(e)).drop_last() =~= ops);
}

/// A window appended past the WHERE stage — after another window or an
/// ordering — wraps the accumulated select the same way before it lands:
/// one rank column can never be computed over another in the same level.
pub proof fn lemma_window_push_down(ops: Seq<SpecOp>, w: crate::ast::SpecWindow)
    requires
        sstage(sfold(ops)) > 1,
    ensures
        sfold(ops.push(SpecOp::Window(w))) == (SpecSelect {
            proj: SpecProj::Star,
            window: Some(w),
            sources: seq![SpecSource::Sub(Box::new(sfold(ops)))],
            filters: Seq::empty(),
            orders: Seq::empty(),
        }),
{
    assert(ops.push(SpecOp::Window(w)).drop_last() =~= ops);
}

} // verus!
