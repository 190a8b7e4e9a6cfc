//! The closed syntax-node model this core resolves names over.
//!
//! An external parser produces a concrete syntax tree; the driver
//! converts the node kinds this core dispatches on into this tagged
//! union, carrying each node's source location and raw identifier
//! text as plain values.

use vstd::prelude::*;

verus! {

/// The user-facing resolution error kinds.
#[derive(Clone, Copy, PartialEq, Eq, Structural, Debug)]
pub enum ErrorKind {
    CrateNotAllowed,
    SuperNotAllowed,
    DuplicateName,
}

/// A resolution error tagged with the source location of the node
/// that raised it.
#[derive(Clone, Copy, PartialEq, Eq, Structural, Debug)]
pub struct SynError {
    pub kind: ErrorKind,
    pub loc: usize,
}

/// A syntax node: its source location and its kind.
pub struct SynNode {
    pub loc: usize,
    pub kind: SynKind,
}

/// The node kinds this core dispatches on.
pub enum SynKind {
    /// The `crate` path anchor.
    CrateAnchor,
    /// The `super` path anchor.
    SuperAnchor,
    /// A bare identifier leaf, with its raw text.
    Identifier(String),
    /// A type-identifier leaf, with its raw text.
    TypeIdentifier(String),
    /// `path::name`; a missing left side is a leading `::`.
    ScopedIdentifier(Option<Box<SynNode>>, String),
    /// `path::Name` in type position; the left side is mandatory.
    ScopedTypeIdentifier(Box<SynNode>, String),
    /// `use path as alias`.
    UseAsClause(Box<SynNode>, String),
    /// `use {item, item, ...}`: the listed items.
    UseList(Vec<SynNode>),
    /// `use path::{list}`.
    ScopedUseList(Box<SynNode>, Box<SynNode>),
}

/// Whether the node is path syntax: what the scoped-path visitor
/// accepts.
pub open spec fn is_path_node(n: SynNode) -> bool
    decreases n,
{
    match n.kind {
        SynKind::CrateAnchor => true,
        SynKind::SuperAnchor => true,
        SynKind::Identifier(_) => true,
        SynKind::TypeIdentifier(_) => true,
        SynKind::ScopedIdentifier(p, _) => match p {
            Some(b) => is_path_node(*b),
            None => true,
        },
        SynKind::ScopedTypeIdentifier(p, _) => is_path_node(*p),
        _ => false,
    }
}

/// Whether the node is use-clause syntax: what the use-clause visitor
/// accepts.
pub open spec fn is_use_node(n: SynNode) -> bool
    decreases n,
{
    match n.kind {
        SynKind::Identifier(_) => true,
        SynKind::ScopedIdentifier(p, _) => match p {
            Some(b) => is_path_node(*b),
            None => true,
        },
        SynKind::UseAsClause(p, _) => is_path_node(*p),
        SynKind::UseList(children) => forall|i: int|
            0 <= i < children@.len() ==> is_use_node(#[trigger] children@[i]),
        SynKind::ScopedUseList(p, l) => is_path_node(*p) && is_use_node(*l),
        _ => false,
    }
}

} // verus!
