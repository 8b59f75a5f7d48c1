// A typed SQL expression and query engine: scalar types with nullability,
// expression trees checked when they are built, select statements with
// filters, aggregates and row-locking clauses, an in-memory table that runs
// them, and SQL text generation for several dialects.

pub mod sql_types;
pub mod pattern;
pub mod text;
pub mod expression;
pub mod eval;
pub mod query;
pub mod table;
pub mod laws;
pub mod render;
