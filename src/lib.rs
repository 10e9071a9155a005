//! Semantic lint checks over already-parsed SQL statements: a redundant
//! `DISTINCT` beside an equivalent `GROUP BY`, and joins that omit a declared
//! foreign-key relationship.

pub mod ast;
pub mod schema;
pub mod resolver;
pub mod report;
pub mod rules;
pub mod analyzer;
