//! A typed relational query-building and SQL-compilation engine.
//!
//! Application code composes joins, filters, grouping/ranking, ordering and
//! correlated sub-queries as ordinary function calls; the engine records
//! them in an append-only operation log per query-building context and
//! compiles the log into a tree of nested SELECT statements, inserting a
//! push-down (wrapping the accumulated select as a sub-query) wherever the
//! stage discipline of a single SELECT level would otherwise be violated.
//! The tree is finally rendered to parameterized SQL text.
//!
//! Construction-time defects — using a column handle outside the context
//! that produced it, mismatched tuple arities, empty projections or
//! malformed table descriptors — are ruled out statically by the
//! functions' contracts rather than detected at run time; executing the
//! compiled statement, and any failure that execution may produce,
//! belongs to the caller.

pub mod alias;
pub mod ast;
pub mod chart;
pub mod db;
pub mod hash;
pub mod laws;
pub mod queries;
pub mod query;
pub mod render;
pub mod value;

pub use alias::AliasGen;
pub use alias::MyAlias;
pub use query::QueryRef;
pub use query::SubQuery;
pub use render::CompiledSelect;
pub use value::Row;
pub use value::Value;
