//! Front end of the Flora language: source text to abstract syntax tree.
//!
//! `types` holds the tree and its mathematical model, `grammar` states the
//! language as specification functions over a sequence of characters, `scan`
//! recognises single tokens, `furthest` states which tokens a failed text
//! was missing, `diagnostic` locates a failure and `parser` builds the tree.
//! `laws`, `prefix` and `trailing` prove what holds of the grammar for every
//! text.

pub mod types;
pub mod grammar;
pub mod scan;
pub mod furthest;
pub mod diagnostic;
pub mod parser;
pub mod laws;
pub mod prefix;
pub mod trailing;
