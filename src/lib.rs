//! Structural search and rewrite over a syntax tree: the edit assembler,
//! the selection of non-overlapping edits, and the request flow around the
//! ast-grep matcher.

pub mod patch;
pub mod dump;
pub mod grep;
