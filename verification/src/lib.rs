//! Semantic coherency checking for a small compiler: name resolution over a
//! tree of lexical scopes, visibility across function boundaries, a fixed
//! table of built-in operators, and expected/actual type reconciliation.
//! With it come the building blocks that the grammar is written in.

pub mod entity;
pub mod logging;
pub mod parse;
pub mod path;
pub mod scope;
pub mod space;
pub mod span;
pub mod ty;
pub mod visitor;
