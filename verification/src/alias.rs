//! The alias allocator: issues unique synthetic identifiers for tables,
//! columns and computed expressions.

use vstd::prelude::*;

verus! {

/// Allocator state for synthetic identifiers. One allocator is threaded
/// through the construction of a query and all of its sub-queries, so
/// that every alias it hands out is unique across the whole build.
pub struct AliasGen {
    pub next: u64,
}

impl AliasGen {
    /// A fresh allocator; identifiers start at zero.
    pub fn new() -> (g: AliasGen)
        ensures
            g.next == 0,
    {
        AliasGen { next: 0 }
    }
}

/// An opaque, unique synthetic identifier, used as a SQL alias.
/// Never reused and never mutated once issued.
#[derive(Clone, Copy, PartialEq, Eq, Structural, Debug)]
pub struct MyAlias {
    pub id: u64,
}

impl MyAlias {
    /// Draw a fresh identifier from the allocator. Identifiers are issued
    /// in strictly increasing order, which makes them pairwise distinct.
    pub fn new(g: &mut AliasGen) -> (a: MyAlias)
        requires
            old(g).next < u64::MAX,
        ensures
            a.id == old(g).next,
            final(g).next == old(g).next + 1,
    {
        let id = g.next;
        g.next = g.next + 1;
        MyAlias { id }
    }
}

} // verus!
