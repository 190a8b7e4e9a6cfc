//! Semantic core of a compiler front end: an arena-based intermediate
//! representation built by validating smart constructors with inline
//! block canonicalization, and a lexical scope / path / use-clause
//! resolution engine over a closed syntax-node model.

pub mod builder;
pub mod canon;
pub mod ir;
pub mod path;
pub mod scope;
pub mod syntax;
pub mod visitors;
