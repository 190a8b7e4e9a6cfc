use semcore::path::{Path, PathSegment};
use semcore::scope::{NamedItem, ScopeId, ScopeKind, ScopeTree};
use semcore::syntax::{ErrorKind, SynKind, SynNode};
use semcore::visitors::{ScopedPathVisitor, UseClauseVisitor};

fn node(loc: usize, kind: SynKind) -> SynNode {
    SynNode { loc, kind }
}

fn ident(loc: usize, name: &str) -> SynNode {
    node(loc, SynKind::Identifier(name.to_string()))
}

fn scoped(loc: usize, path: Option<SynNode>, name: &str) -> SynNode {
    node(
        loc,
        SynKind::ScopedIdentifier(path.map(Box::new), name.to_string()),
    )
}

fn segments(p: &Path) -> Vec<String> {
    p.segments.iter().map(|s| s.0.clone()).collect()
}

fn path_of(segs: &[&str]) -> Path {
    let mut p = Path::root();
    for s in segs {
        p = p.extend(PathSegment(s.to_string()));
    }
    p
}

#[test]
fn path_root_extend_join() {
    let root = Path::root();
    assert!(root.segments.is_empty());
    let ab = path_of(&["a", "b"]);
    let cd = path_of(&["c", "d"]);
    let joined = ab.join_with(&cd);
    assert_eq!(segments(&joined), vec!["a", "b", "c", "d"]);
    let ext = joined.extend(PathSegment("e".to_string()));
    assert_eq!(segments(&ext), vec!["a", "b", "c", "d", "e"]);
}

#[test]
fn resolve_multi_segment_path() {
    let mut tree = ScopeTree::new();
    let s = tree.add_scope(None, ScopeKind::Plain, Path::root());
    let n = scoped(3, Some(scoped(2, Some(ident(1, "a")), "b")), "c");
    let v = ScopedPathVisitor::new(s);
    let p = v.visit(&tree, &n).unwrap();
    assert_eq!(segments(&p), vec!["a", "b", "c"]);
}

#[test]
fn resolve_leading_anchor_paths() {
    let mut tree = ScopeTree::new();
    let krate = tree.add_scope(None, ScopeKind::Crate, path_of(&["mylib"]));
    let inner = tree.add_scope(Some(krate), ScopeKind::Plain, path_of(&["mylib", "inner"]));
    let v = ScopedPathVisitor::new(inner);
    // `crate::c` resolves from the enclosing crate scope's path.
    let n = scoped(2, Some(node(1, SynKind::CrateAnchor)), "c");
    let p = v.visit(&tree, &n).unwrap();
    assert_eq!(segments(&p), vec!["mylib", "c"]);
    // A missing left side is a leading `::`: the root path.
    let n2 = scoped(2, None, "c");
    let p2 = v.visit(&tree, &n2).unwrap();
    assert_eq!(segments(&p2), vec!["c"]);
}

#[test]
fn resolve_super_from_nested_module() {
    let mut tree = ScopeTree::new();
    let krate = tree.add_scope(None, ScopeKind::Crate, path_of(&["mylib"]));
    let module = tree.add_scope(Some(krate), ScopeKind::Module, path_of(&["mylib", "m"]));
    let body = tree.add_scope(Some(module), ScopeKind::Plain, path_of(&["mylib", "m"]));
    let v = ScopedPathVisitor::new(body);
    let n = scoped(2, Some(node(1, SynKind::SuperAnchor)), "x");
    let p = v.visit(&tree, &n).unwrap();
    assert_eq!(segments(&p), vec!["mylib", "x"]);
}

#[test]
fn crate_without_crate_ancestor_fails() {
    let mut tree = ScopeTree::new();
    let s = tree.add_scope(None, ScopeKind::Plain, Path::root());
    let v = ScopedPathVisitor::new(s);
    let n = node(9, SynKind::CrateAnchor);
    let e = v.visit(&tree, &n).unwrap_err();
    assert_eq!(e.kind, ErrorKind::CrateNotAllowed);
    assert_eq!(e.loc, 9);
}

#[test]
fn super_at_outermost_module_fails() {
    let mut tree = ScopeTree::new();
    let m = tree.add_scope(None, ScopeKind::Module, Path::root());
    let v = ScopedPathVisitor::new(m);
    let n = node(4, SynKind::SuperAnchor);
    let e = v.visit(&tree, &n).unwrap_err();
    assert_eq!(e.kind, ErrorKind::SuperNotAllowed);
    assert_eq!(e.loc, 4);
}

#[test]
fn type_identifier_resolves_like_identifier() {
    let mut tree = ScopeTree::new();
    let s = tree.add_scope(None, ScopeKind::Plain, Path::root());
    let v = ScopedPathVisitor::new(s);
    let n = node(
        2,
        SynKind::ScopedTypeIdentifier(
            Box::new(node(1, SynKind::TypeIdentifier("A".to_string()))),
            "B".to_string(),
        ),
    );
    let p = v.visit(&tree, &n).unwrap();
    assert_eq!(segments(&p), vec!["A", "B"]);
}

fn alias_target(tree: &ScopeTree, scope: ScopeId, name: &str) -> Option<Vec<String>> {
    for (n, item) in &tree.scopes[scope.0].items {
        if n == name {
            let NamedItem::Alias(p) = item;
            return Some(segments(p));
        }
    }
    None
}

#[test]
fn grouped_use_registers_nested_aliases() {
    // use a::{b, c::{d}};
    let mut tree = ScopeTree::new();
    let s = tree.add_scope(None, ScopeKind::Plain, Path::root());
    let clause = node(
        1,
        SynKind::ScopedUseList(
            Box::new(ident(2, "a")),
            Box::new(node(
                3,
                SynKind::UseList(vec![
                    ident(4, "b"),
                    node(
                        5,
                        SynKind::ScopedUseList(
                            Box::new(ident(6, "c")),
                            Box::new(node(7, SynKind::UseList(vec![ident(8, "d")]))),
                        ),
                    ),
                ]),
            )),
        ),
    );
    let v = UseClauseVisitor::new(s);
    v.visit(&mut tree, &clause).unwrap();
    assert_eq!(alias_target(&tree, s, "b").unwrap(), vec!["a", "b"]);
    assert_eq!(alias_target(&tree, s, "d").unwrap(), vec!["a", "c", "d"]);
    // The prefix in effect for a subsequent sibling use clause is
    // unchanged: a bare identifier still registers under the root
    // prefix.
    v.visit(&mut tree, &ident(9, "e")).unwrap();
    assert_eq!(alias_target(&tree, s, "e").unwrap(), vec!["e"]);
}

#[test]
fn use_as_clause_registers_alias() {
    // use a::b as c;
    let mut tree = ScopeTree::new();
    let s = tree.add_scope(None, ScopeKind::Plain, Path::root());
    let clause = node(
        1,
        SynKind::UseAsClause(
            Box::new(scoped(3, Some(ident(2, "a")), "b")),
            "c".to_string(),
        ),
    );
    let v = UseClauseVisitor::new(s);
    v.visit(&mut tree, &clause).unwrap();
    assert_eq!(alias_target(&tree, s, "c").unwrap(), vec!["a", "b"]);
}

#[test]
fn bare_scoped_use_registers_last_segment() {
    // use a::b;
    let mut tree = ScopeTree::new();
    let s = tree.add_scope(None, ScopeKind::Plain, Path::root());
    let clause = scoped(2, Some(ident(1, "a")), "b");
    let v = UseClauseVisitor::new(s);
    v.visit(&mut tree, &clause).unwrap();
    assert_eq!(alias_target(&tree, s, "b").unwrap(), vec!["a", "b"]);
}

#[test]
fn duplicate_registration_fails() {
    // use a::b; use x::b;
    let mut tree = ScopeTree::new();
    let s = tree.add_scope(None, ScopeKind::Plain, Path::root());
    let v = UseClauseVisitor::new(s);
    v.visit(&mut tree, &scoped(2, Some(ident(1, "a")), "b")).unwrap();
    let e = v
        .visit(&mut tree, &scoped(12, Some(ident(11, "x")), "b"))
        .unwrap_err();
    assert_eq!(e.kind, ErrorKind::DuplicateName);
    assert_eq!(e.loc, 12);
    // The first registration stays.
    assert_eq!(alias_target(&tree, s, "b").unwrap(), vec!["a", "b"]);
}

#[test]
fn use_list_fails_fast_but_keeps_committed_aliases() {
    // use a::{b, b, c}: the second `b` collides; `c` is never
    // reached, the committed `b` stays.
    let mut tree = ScopeTree::new();
    let s = tree.add_scope(None, ScopeKind::Plain, Path::root());
    let clause = node(
        1,
        SynKind::ScopedUseList(
            Box::new(ident(2, "a")),
            Box::new(node(
                3,
                SynKind::UseList(vec![ident(4, "b"), ident(5, "b"), ident(6, "c")]),
            )),
        ),
    );
    let v = UseClauseVisitor::new(s);
    let e = v.visit(&mut tree, &clause).unwrap_err();
    assert_eq!(e.kind, ErrorKind::DuplicateName);
    assert_eq!(e.loc, 5);
    assert_eq!(alias_target(&tree, s, "b").unwrap(), vec!["a", "b"]);
    assert!(alias_target(&tree, s, "c").is_none());
}

#[test]
fn resolution_error_propagates_out_of_use_clause() {
    // use crate::x with no crate-marked ancestor: the path resolution
    // error aborts the clause and nothing is registered.
    let mut tree = ScopeTree::new();
    let s = tree.add_scope(None, ScopeKind::Plain, Path::root());
    let clause = scoped(2, Some(node(1, SynKind::CrateAnchor)), "x");
    let v = UseClauseVisitor::new(s);
    let e = v.visit(&mut tree, &clause).unwrap_err();
    assert_eq!(e.kind, ErrorKind::CrateNotAllowed);
    assert_eq!(e.loc, 1);
    assert!(tree.scopes[s.0].items.is_empty());
}
