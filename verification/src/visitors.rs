//! The scoped-path visitor and the use-clause visitor.
//!
//! The scoped-path visitor turns path syntax into a structured
//! [`Path`], resolving `crate` and `super` anchors against the scope
//! tree.  The use-clause visitor walks a `use` declaration, resolving
//! each imported path under the prefix in effect and registering the
//! resulting aliases into its scope; the prefix of a nested
//! `use a::{...}` group is threaded by value into the nested walk, so
//! sibling use-trees never observe each other's extension.

use vstd::prelude::*;

use crate::path::{Path, PathSegment};
use crate::scope::{
    NamedItem, NamedItemV, ScopeId, ScopeKind, ScopeNodeV, ScopeTree, find_crate_spec,
    find_super_spec, has_name, tree_wf,
};
use crate::syntax::{ErrorKind, SynError, SynKind, SynNode, is_path_node, is_use_node};

verus! {

/// What resolving a path node yields: the structured path, or the
/// first error met, tagged with the location of the node that raised
/// it.
pub open spec fn resolve_path_spec(tree: Seq<ScopeNodeV>, scope: ScopeId, n: SynNode) -> Result<
    Seq<Seq<char>>,
    SynError,
>
    decreases n,
{
    match n.kind {
        SynKind::CrateAnchor => match find_crate_spec(tree, scope) {
            Some(c) => Ok(tree[c.0 as int].path),
            None => Err(SynError { kind: ErrorKind::CrateNotAllowed, loc: n.loc }),
        },
        SynKind::SuperAnchor => match find_super_spec(tree, scope) {
            Some(c) => Ok(tree[c.0 as int].path),
            None => Err(SynError { kind: ErrorKind::SuperNotAllowed, loc: n.loc }),
        },
        SynKind::Identifier(name) => Ok(seq![name@]),
        SynKind::TypeIdentifier(name) => Ok(seq![name@]),
        SynKind::ScopedIdentifier(p, name) => {
            let base = match p {
                Some(b) => resolve_path_spec(tree, scope, *b),
                None => Ok(Seq::<Seq<char>>::empty()),
            };
            match base {
                Ok(segs) => Ok(segs.push(name@)),
                Err(e) => Err(e),
            }
        },
        SynKind::ScopedTypeIdentifier(p, name) => match resolve_path_spec(tree, scope, *p) {
            Ok(segs) => Ok(segs.push(name@)),
            Err(e) => Err(e),
        },
        _ => Err(SynError { kind: ErrorKind::CrateNotAllowed, loc: n.loc }),
    }
}

/// The executable result agrees with the resolution model.
pub open spec fn path_result_matches(
    r: Result<Path, SynError>,
    s: Result<Seq<Seq<char>>, SynError>,
) -> bool {
    match (r, s) {
        (Ok(p), Ok(sp)) => p@ == sp,
        (Err(e1), Err(e2)) => e1 == e2,
        _ => false,
    }
}

/// Resolves path syntax into structured paths against a fixed scope.
pub struct ScopedPathVisitor {
    pub scope: ScopeId,
}

impl ScopedPathVisitor {
    pub fn new(scope: ScopeId) -> (r: Self)
        ensures
            r.scope == scope,
    {
        ScopedPathVisitor { scope }
    }

    /// Dispatches on the node kind and resolves it to a path.
    pub fn visit(&self, tree: &ScopeTree, node: &SynNode) -> (r: Result<Path, SynError>)
        requires
            tree.wf(),
            self.scope.0 < tree.scopes.len(),
            is_path_node(*node),
        ensures
            path_result_matches(r, resolve_path_spec(tree@, self.scope, *node)),
        decreases *node, 1int,
    {
        match &node.kind {
            SynKind::CrateAnchor => self.visit_crate(tree, node),
            SynKind::SuperAnchor => self.visit_super(tree, node),
            SynKind::Identifier(_) => self.visit_identifier(tree, node),
            SynKind::TypeIdentifier(_) => self.visit_type_identifier(tree, node),
            SynKind::ScopedIdentifier(_, _) => self.visit_scoped_identifier(tree, node),
            SynKind::ScopedTypeIdentifier(_, _) => self.visit_scoped_type_identifier(tree, node),
            _ => vstd::pervasive::unreached(),
        }
    }

    /// A `crate` anchor: the nearest crate-root ancestor's path, or
    /// `CrateNotAllowed` when no crate-marked ancestor exists.
    pub fn visit_crate(&self, tree: &ScopeTree, node: &SynNode) -> (r: Result<Path, SynError>)
        requires
            tree.wf(),
            self.scope.0 < tree.scopes.len(),
            node.kind is CrateAnchor,
        ensures
            path_result_matches(r, resolve_path_spec(tree@, self.scope, *node)),
    {
        match tree.find_crate(self.scope) {
            Some(c) => Ok(tree.path_of(c)),
            None => Err(SynError { kind: ErrorKind::CrateNotAllowed, loc: node.loc }),
        }
    }

    /// A `super` anchor: the parent of the nearest enclosing module
    /// scope, or `SuperNotAllowed` when there is none.
    pub fn visit_super(&self, tree: &ScopeTree, node: &SynNode) -> (r: Result<Path, SynError>)
        requires
            tree.wf(),
            self.scope.0 < tree.scopes.len(),
            node.kind is SuperAnchor,
        ensures
            path_result_matches(r, resolve_path_spec(tree@, self.scope, *node)),
    {
        match tree.find_super(self.scope) {
            Some(c) => Ok(tree.path_of(c)),
            None => Err(SynError { kind: ErrorKind::SuperNotAllowed, loc: node.loc }),
        }
    }

    /// An identifier leaf: a single-segment path from its raw text.
    pub fn visit_identifier(&self, tree: &ScopeTree, node: &SynNode) -> (r: Result<
        Path,
        SynError,
    >)
        requires
            node.kind is Identifier,
        ensures
            path_result_matches(r, resolve_path_spec(tree@, self.scope, *node)),
    {
        if let SynKind::Identifier(name) = &node.kind {
            let p = Path::root().extend(PathSegment(name.clone()));
            proof {
                assert(p@ =~= seq![name@]);
            }
            Ok(p)
        } else {
            vstd::pervasive::unreached()
        }
    }

    /// A type-identifier leaf: a single-segment path from its raw
    /// text.
    pub fn visit_type_identifier(&self, tree: &ScopeTree, node: &SynNode) -> (r: Result<
        Path,
        SynError,
    >)
        requires
            node.kind is TypeIdentifier,
        ensures
            path_result_matches(r, resolve_path_spec(tree@, self.scope, *node)),
    {
        if let SynKind::TypeIdentifier(name) = &node.kind {
            let p = Path::root().extend(PathSegment(name.clone()));
            proof {
                assert(p@ =~= seq![name@]);
            }
            Ok(p)
        } else {
            vstd::pervasive::unreached()
        }
    }

    /// `path::name`: the left side resolved recursively (the root path
    /// when it is missing), extended by the right-hand segment.
    pub fn visit_scoped_identifier(&self, tree: &ScopeTree, node: &SynNode) -> (r: Result<
        Path,
        SynError,
    >)
        requires
            tree.wf(),
            self.scope.0 < tree.scopes.len(),
            is_path_node(*node),
            node.kind is ScopedIdentifier,
        ensures
            path_result_matches(r, resolve_path_spec(tree@, self.scope, *node)),
        decreases *node, 0int,
    {
        if let SynKind::ScopedIdentifier(popt, name) = &node.kind {
            let base = match popt {
                Some(sub) => {
                    match self.visit(tree, sub) {
                        Ok(p) => p,
                        Err(e) => {
                            return Err(e);
                        },
                    }
                },
                None => Path::root(),
            };
            Ok(base.extend(PathSegment(name.clone())))
        } else {
            vstd::pervasive::unreached()
        }
    }

    /// `path::Name` in type position: like `visit_scoped_identifier`,
    /// with a mandatory left side.
    pub fn visit_scoped_type_identifier(&self, tree: &ScopeTree, node: &SynNode) -> (r: Result<
        Path,
        SynError,
    >)
        requires
            tree.wf(),
            self.scope.0 < tree.scopes.len(),
            is_path_node(*node),
            node.kind is ScopedTypeIdentifier,
        ensures
            path_result_matches(r, resolve_path_spec(tree@, self.scope, *node)),
        decreases *node, 0int,
    {
        if let SynKind::ScopedTypeIdentifier(sub, name) = &node.kind {
            match self.visit(tree, sub) {
                Ok(p) => Ok(p.extend(PathSegment(name.clone()))),
                Err(e) => Err(e),
            }
        } else {
            vstd::pervasive::unreached()
        }
    }
}

/// Registers one alias into an item table: it fails, leaving the
/// table unchanged, exactly when the name is already bound.
pub open spec fn register_spec(
    items: Seq<(Seq<char>, NamedItemV)>,
    name: Seq<char>,
    target: Seq<Seq<char>>,
    loc: usize,
) -> (Seq<(Seq<char>, NamedItemV)>, Option<SynError>) {
    if has_name(items, name) {
        (items, Some(SynError { kind: ErrorKind::DuplicateName, loc }))
    } else {
        (items.push((name, NamedItemV::Alias(target))), None)
    }
}

/// What walking one use node does to the visitor scope's item table
/// under the given prefix: the table after every registration that was
/// committed, and the first error met, if any (fail-fast: the error
/// aborts the remainder, but what was committed before it stays).
pub open spec fn use_run(
    tree: Seq<ScopeNodeV>,
    scope: ScopeId,
    prefix: Seq<Seq<char>>,
    items: Seq<(Seq<char>, NamedItemV)>,
    n: SynNode,
) -> (Seq<(Seq<char>, NamedItemV)>, Option<SynError>)
    decreases n,
{
    match n.kind {
        SynKind::UseAsClause(p, alias) => match resolve_path_spec(tree, scope, *p) {
            Ok(path) => register_spec(items, alias@, prefix + path, n.loc),
            Err(e) => (items, Some(e)),
        },
        SynKind::UseList(children) => use_run_list(tree, scope, prefix, items, children@),
        SynKind::ScopedUseList(p, l) => match resolve_path_spec(tree, scope, *p) {
            Ok(suffix) => use_run(tree, scope, prefix + suffix, items, *l),
            Err(e) => (items, Some(e)),
        },
        SynKind::Identifier(name) => register_spec(items, name@, prefix.push(name@), n.loc),
        SynKind::ScopedIdentifier(p, name) => {
            let base = match p {
                Some(b) => resolve_path_spec(tree, scope, *b),
                None => Ok(Seq::<Seq<char>>::empty()),
            };
            match base {
                Ok(path) => register_spec(items, name@, prefix + path.push(name@), n.loc),
                Err(e) => (items, Some(e)),
            }
        },
        _ => (items, None),
    }
}

/// Walks the items of a use list in order under one shared prefix,
/// threading the item table and stopping at the first error.
pub open spec fn use_run_list(
    tree: Seq<ScopeNodeV>,
    scope: ScopeId,
    prefix: Seq<Seq<char>>,
    items: Seq<(Seq<char>, NamedItemV)>,
    children: Seq<SynNode>,
) -> (Seq<(Seq<char>, NamedItemV)>, Option<SynError>)
    decreases children,
{
    if children.len() == 0 {
        (items, None)
    } else {
        let first = use_run(tree, scope, prefix, items, children[0]);
        if first.1 is Some {
            first
        } else {
            use_run_list(tree, scope, prefix, first.0, children.drop_first())
        }
    }
}

/// Two scope trees of the same shape: same scopes, parents, kinds and
/// paths; only the item tables may differ.
pub open spec fn same_shape(t0: Seq<ScopeNodeV>, t1: Seq<ScopeNodeV>) -> bool {
    &&& t0.len() == t1.len()
    &&& forall|i: int| 0 <= i < t0.len() ==> {
        &&& (#[trigger] t1[i]).parent == t0[i].parent
        &&& t1[i].kind == t0[i].kind
        &&& t1[i].path == t0[i].path
    }
}

proof fn lemma_find_crate_same_shape(t0: Seq<ScopeNodeV>, t1: Seq<ScopeNodeV>, s: ScopeId)
    requires
        same_shape(t0, t1),
    ensures
        find_crate_spec(t0, s) == find_crate_spec(t1, s),
        find_crate_spec(t0, s) matches Some(c) ==> c.0 < t0.len(),
    decreases s.0,
{
    if s.0 < t0.len() {
        if t0[s.0 as int].kind != ScopeKind::Crate {
            match t0[s.0 as int].parent {
                Some(p) => {
                    if p.0 < s.0 {
                        lemma_find_crate_same_shape(t0, t1, p);
                    }
                },
                None => {},
            }
        }
    }
}

proof fn lemma_find_super_same_shape(t0: Seq<ScopeNodeV>, t1: Seq<ScopeNodeV>, s: ScopeId)
    requires
        same_shape(t0, t1),
        tree_wf(t0),
    ensures
        find_super_spec(t0, s) == find_super_spec(t1, s),
        find_super_spec(t0, s) matches Some(c) ==> c.0 < t0.len(),
    decreases s.0,
{
    if s.0 < t0.len() {
        if t0[s.0 as int].kind != ScopeKind::Crate && t0[s.0 as int].kind != ScopeKind::Module {
            match t0[s.0 as int].parent {
                Some(p) => {
                    if p.0 < s.0 {
                        lemma_find_super_same_shape(t0, t1, p);
                    }
                },
                None => {},
            }
        }
    }
}

/// Path resolution never reads item tables, so trees of the same
/// shape resolve alike.
pub proof fn lemma_resolve_same_shape(
    t0: Seq<ScopeNodeV>,
    t1: Seq<ScopeNodeV>,
    scope: ScopeId,
    n: SynNode,
)
    requires
        same_shape(t0, t1),
        tree_wf(t0),
    ensures
        resolve_path_spec(t0, scope, n) == resolve_path_spec(t1, scope, n),
    decreases n,
{
    match n.kind {
        SynKind::CrateAnchor => {
            lemma_find_crate_same_shape(t0, t1, scope);
        },
        SynKind::SuperAnchor => {
            lemma_find_super_same_shape(t0, t1, scope);
        },
        SynKind::ScopedIdentifier(p, _) => {
            match p {
                Some(b) => {
                    lemma_resolve_same_shape(t0, t1, scope, *b);
                },
                None => {},
            }
        },
        SynKind::ScopedTypeIdentifier(p, _) => {
            lemma_resolve_same_shape(t0, t1, scope, *p);
        },
        _ => {},
    }
}

/// Walking a use node only reads the tree through path resolution, so
/// trees of the same shape run alike.
pub proof fn lemma_use_run_same_shape(
    t0: Seq<ScopeNodeV>,
    t1: Seq<ScopeNodeV>,
    scope: ScopeId,
    prefix: Seq<Seq<char>>,
    items: Seq<(Seq<char>, NamedItemV)>,
    n: SynNode,
)
    requires
        same_shape(t0, t1),
        tree_wf(t0),
    ensures
        use_run(t0, scope, prefix, items, n) == use_run(t1, scope, prefix, items, n),
    decreases n,
{
    match n.kind {
        SynKind::UseAsClause(p, _) => {
            lemma_resolve_same_shape(t0, t1, scope, *p);
        },
        SynKind::UseList(children) => {
            lemma_use_run_list_same_shape(t0, t1, scope, prefix, items, children@);
        },
        SynKind::ScopedUseList(p, l) => {
            lemma_resolve_same_shape(t0, t1, scope, *p);
            match resolve_path_spec(t0, scope, *p) {
                Ok(suffix) => {
                    lemma_use_run_same_shape(t0, t1, scope, prefix + suffix, items, *l);
                },
                Err(_) => {},
            }
        },
        SynKind::ScopedIdentifier(p, _) => {
            match p {
                Some(b) => {
                    lemma_resolve_same_shape(t0, t1, scope, *b);
                },
                None => {},
            }
        },
        _ => {},
    }
}

proof fn lemma_use_run_list_same_shape(
    t0: Seq<ScopeNodeV>,
    t1: Seq<ScopeNodeV>,
    scope: ScopeId,
    prefix: Seq<Seq<char>>,
    items: Seq<(Seq<char>, NamedItemV)>,
    children: Seq<SynNode>,
)
    requires
        same_shape(t0, t1),
        tree_wf(t0),
    ensures
        use_run_list(t0, scope, prefix, items, children) == use_run_list(
            t1,
            scope,
            prefix,
            items,
            children,
        ),
    decreases children,
{
    if children.len() == 0 {
    } else {
        lemma_use_run_same_shape(t0, t1, scope, prefix, items, children[0]);
        let first = use_run(t0, scope, prefix, items, children[0]);
        if first.1 is None {
            lemma_use_run_list_same_shape(
                t0,
                t1,
                scope,
                prefix,
                first.0,
                children.drop_first(),
            );
        }
    }
}

/// A `crate` anchor fails, with `CrateNotAllowed` at the anchor's
/// location, exactly when the scope has no crate-marked ancestor;
/// otherwise it yields that ancestor's path.
pub proof fn lemma_crate_anchor_law(tree: Seq<ScopeNodeV>, scope: ScopeId, n: SynNode)
    requires
        n.kind is CrateAnchor,
    ensures
        resolve_path_spec(tree, scope, n) == (match find_crate_spec(tree, scope) {
            Some(c) => Result::<Seq<Seq<char>>, SynError>::Ok(tree[c.0 as int].path),
            None => Result::<Seq<Seq<char>>, SynError>::Err(
                SynError { kind: ErrorKind::CrateNotAllowed, loc: n.loc },
            ),
        }),
{
}

/// A `super` anchor fails, with `SuperNotAllowed` at the anchor's
/// location, exactly when no enclosing module scope with a parent
/// exists; otherwise it yields that parent's path.
pub proof fn lemma_super_anchor_law(tree: Seq<ScopeNodeV>, scope: ScopeId, n: SynNode)
    requires
        n.kind is SuperAnchor,
    ensures
        resolve_path_spec(tree, scope, n) == (match find_super_spec(tree, scope) {
            Some(c) => Result::<Seq<Seq<char>>, SynError>::Ok(tree[c.0 as int].path),
            None => Result::<Seq<Seq<char>>, SynError>::Err(
                SynError { kind: ErrorKind::SuperNotAllowed, loc: n.loc },
            ),
        }),
{
}

/// The sibling items after any item of a use list — including a
/// scoped group that extended the prefix for its own nested walk —
/// are processed under the unchanged enclosing prefix: the extension
/// is threaded by value into the nested walk and never leaks out.
pub proof fn lemma_siblings_keep_prefix(
    tree: Seq<ScopeNodeV>,
    scope: ScopeId,
    prefix: Seq<Seq<char>>,
    items: Seq<(Seq<char>, NamedItemV)>,
    children: Seq<SynNode>,
)
    requires
        children.len() > 0,
        use_run(tree, scope, prefix, items, children[0]).1 is None,
    ensures
        use_run_list(tree, scope, prefix, items, children) == use_run_list(
            tree,
            scope,
            prefix,
            use_run(tree, scope, prefix, items, children[0]).0,
            children.drop_first(),
        ),
{
}

/// The executable outcome and tree agree with the use-clause model:
/// the visitor scope's item table becomes what the model computes,
/// nothing else in the tree changes, and the returned error is the
/// model's.
pub open spec fn use_result_matches(
    tree0: Seq<ScopeNodeV>,
    tree1: Seq<ScopeNodeV>,
    scope: ScopeId,
    prefix: Seq<Seq<char>>,
    n: SynNode,
    r: Result<(), SynError>,
) -> bool {
    let run = use_run(tree0, scope, prefix, tree0[scope.0 as int].items, n);
    &&& tree1 =~= tree0.update(
        scope.0 as int,
        (ScopeNodeV { items: run.0, ..tree0[scope.0 as int] }),
    )
    &&& r == (match run.1 {
        None => Result::<(), SynError>::Ok(()),
        Some(e) => Result::<(), SynError>::Err(e),
    })
}

/// Processes `use` declarations: resolves each imported path under
/// the prefix in effect and registers the aliases into its scope.
pub struct UseClauseVisitor {
    pub scope: ScopeId,
    pub prefix: Path,
}

impl UseClauseVisitor {
    /// A visitor for the given scope, with the root prefix.
    pub fn new(scope: ScopeId) -> (r: Self)
        ensures
            r.scope == scope,
            r.prefix@ =~= Seq::<Seq<char>>::empty(),
    {
        UseClauseVisitor { scope, prefix: Path::root() }
    }

    /// Resolves a path node with a scoped-path visitor over the same
    /// scope.
    pub fn parse_use_path(&self, tree: &ScopeTree, node: &SynNode) -> (r: Result<Path, SynError>)
        requires
            tree.wf(),
            self.scope.0 < tree.scopes.len(),
            is_path_node(*node),
        ensures
            path_result_matches(r, resolve_path_spec(tree@, self.scope, *node)),
    {
        let visitor = ScopedPathVisitor::new(self.scope);
        visitor.visit(tree, node)
    }

    /// Walks one use node under the visitor's base prefix.
    pub fn visit(&self, tree: &mut ScopeTree, node: &SynNode) -> (r: Result<(), SynError>)
        requires
            old(tree).wf(),
            self.scope.0 < old(tree).scopes.len(),
            is_use_node(*node),
        ensures
            final(tree).wf(),
            same_shape(old(tree)@, final(tree)@),
            use_result_matches(
                old(tree)@,
                final(tree)@,
                self.scope,
                self.prefix@,
                *node,
                r,
            ),
    {
        self.visit_with(tree, &self.prefix, node)
    }

    /// Walks one use node under an explicit prefix, threaded by value
    /// through nested groups.
    fn visit_with(&self, tree: &mut ScopeTree, prefix: &Path, node: &SynNode) -> (r: Result<
        (),
        SynError,
    >)
        requires
            old(tree).wf(),
            self.scope.0 < old(tree).scopes.len(),
            is_use_node(*node),
        ensures
            final(tree).wf(),
            same_shape(old(tree)@, final(tree)@),
            use_result_matches(old(tree)@, final(tree)@, self.scope, prefix@, *node, r),
        decreases *node, 1int,
    {
        match &node.kind {
            SynKind::UseAsClause(_, _) => self.visit_use_as_clause(tree, prefix, node),
            SynKind::UseList(_) => self.visit_use_list(tree, prefix, node),
            SynKind::ScopedUseList(_, _) => self.visit_scoped_use_list(tree, prefix, node),
            SynKind::Identifier(_) => self.visit_identifier(tree, prefix, node),
            SynKind::ScopedIdentifier(_, _) => self.visit_scoped_identifier(tree, prefix, node),
            _ => vstd::pervasive::unreached(),
        }
    }

    /// `use path as alias`: registers `alias` bound to
    /// `prefix ++ path`.
    fn visit_use_as_clause(&self, tree: &mut ScopeTree, prefix: &Path, node: &SynNode) -> (r:
        Result<(), SynError>)
        requires
            old(tree).wf(),
            self.scope.0 < old(tree).scopes.len(),
            is_use_node(*node),
            node.kind is UseAsClause,
        ensures
            final(tree).wf(),
            same_shape(old(tree)@, final(tree)@),
            use_result_matches(old(tree)@, final(tree)@, self.scope, prefix@, *node, r),
        decreases *node, 0int,
    {
        if let SynKind::UseAsClause(p, alias) = &node.kind {
            match self.parse_use_path(tree, p) {
                Ok(path) => {
                    let target = prefix.join_with(&path);
                    self.register(tree, alias.clone(), target, node.loc)
                },
                Err(e) => {
                    proof {
                        lemma_same_tree_update(tree@, self.scope);
                    }
                    Err(e)
                },
            }
        } else {
            vstd::pervasive::unreached()
        }
    }

    /// `use {item, item, ...}`: visits each listed item in order under
    /// the unchanged current prefix, stopping at the first error.
    fn visit_use_list(&self, tree: &mut ScopeTree, prefix: &Path, node: &SynNode) -> (r: Result<
        (),
        SynError,
    >)
        requires
            old(tree).wf(),
            self.scope.0 < old(tree).scopes.len(),
            is_use_node(*node),
            node.kind is UseList,
        ensures
            final(tree).wf(),
            same_shape(old(tree)@, final(tree)@),
            use_result_matches(old(tree)@, final(tree)@, self.scope, prefix@, *node, r),
        decreases *node, 0int,
    {
        let ghost tree0 = tree@;
        let ghost items0 = tree@[self.scope.0 as int].items;
        if let SynKind::UseList(children) = &node.kind {
            let n = children.len();
            let mut i: usize = 0;
            proof {
                assert(children@.subrange(0, n as int) =~= children@);
                lemma_same_tree_update(tree0, self.scope);
            }
            while i < n
                invariant
                    tree0 == old(tree)@,
                    items0 == tree0[self.scope.0 as int].items,
                    tree.wf(),
                    same_shape(tree0, tree@),
                    self.scope.0 < tree.scopes.len(),
                    n == children@.len(),
                    i <= n,
                    forall|j: int| 0 <= j < n ==> is_use_node(#[trigger] children@[j]),
                    node.kind is UseList,
                    node.kind->UseList_0@ == children@,
                    use_run_list(tree0, self.scope, prefix@, items0, children@)
                        == use_run_list(
                        tree0,
                        self.scope,
                        prefix@,
                        tree@[self.scope.0 as int].items,
                        children@.subrange(i as int, n as int),
                    ),
                    tree@ =~= tree0.update(
                        self.scope.0 as int,
                        (ScopeNodeV {
                            items: tree@[self.scope.0 as int].items,
                            ..tree0[self.scope.0 as int]
                        }),
                    ),
                decreases n - i,
            {
                let ghost tree_cur = tree@;
                let ghost items_cur = tree@[self.scope.0 as int].items;
                let ghost rem = children@.subrange(i as int, n as int);
                proof {
                    assert(rem[0] == children@[i as int]);
                    assert(rem.drop_first() =~= children@.subrange(i + 1 as int, n as int));
                }
                proof {
                    assert(decreases_to!(*node => node.kind));
                    assert(decreases_to!(node.kind => node.kind->UseList_0));
                    assert(decreases_to!(node.kind->UseList_0 => node.kind->UseList_0@));
                    assert(decreases_to!(node.kind->UseList_0@ => node.kind->UseList_0@[i as int]));
                    assert(node.kind->UseList_0@ == children@);
                    assert(decreases_to!(*node => children@[i as int]));
                }
                let res = self.visit_with(tree, prefix, &children[i]);
                proof {
                    assert(same_shape(tree0, tree@));
                    lemma_use_run_same_shape(
                        tree_cur,
                        tree0,
                        self.scope,
                        prefix@,
                        items_cur,
                        children@[i as int],
                    );
                    assert(tree_cur[self.scope.0 as int].items == items_cur);
                }
                let ghost run_child = use_run(
                    tree0,
                    self.scope,
                    prefix@,
                    items_cur,
                    children@[i as int],
                );
                match res {
                    Ok(()) => {
                        proof {
                            assert(tree@[self.scope.0 as int].items == run_child.0);
                            assert(tree@ =~= tree0.update(
                                self.scope.0 as int,
                                (ScopeNodeV {
                                    items: run_child.0,
                                    ..tree0[self.scope.0 as int]
                                }),
                            ));
                        }
                    },
                    Err(e) => {
                        proof {
                            assert(tree@[self.scope.0 as int].items == run_child.0);
                            assert(use_run_list(tree0, self.scope, prefix@, items_cur, rem)
                                == run_child);
                            assert(tree@ =~= tree0.update(
                                self.scope.0 as int,
                                (ScopeNodeV {
                                    items: run_child.0,
                                    ..tree0[self.scope.0 as int]
                                }),
                            ));
                        }
                        return Err(e);
                    },
                }
                i += 1;
            }
            proof {
                assert(children@.subrange(i as int, n as int).len() == 0);
            }
            Ok(())
        } else {
            vstd::pervasive::unreached()
        }
    }

    /// `use path::{list}`: resolves the group's path, extends the
    /// prefix by it for the nested list only (the extension is passed
    /// by value into the nested walk), and visits the list.
    fn visit_scoped_use_list(&self, tree: &mut ScopeTree, prefix: &Path, node: &SynNode) -> (r:
        Result<(), SynError>)
        requires
            old(tree).wf(),
            self.scope.0 < old(tree).scopes.len(),
            is_use_node(*node),
            node.kind is ScopedUseList,
        ensures
            final(tree).wf(),
            same_shape(old(tree)@, final(tree)@),
            use_result_matches(old(tree)@, final(tree)@, self.scope, prefix@, *node, r),
        decreases *node, 0int,
    {
        if let SynKind::ScopedUseList(p, l) = &node.kind {
            match self.parse_use_path(tree, p) {
                Ok(suffix) => {
                    let new_prefix = prefix.join_with(&suffix);
                    self.visit_with(tree, &new_prefix, l)
                },
                Err(e) => {
                    proof {
                        lemma_same_tree_update(tree@, self.scope);
                    }
                    Err(e)
                },
            }
        } else {
            vstd::pervasive::unreached()
        }
    }

    /// A bare identifier `n`: registers `n` bound to `prefix ++ [n]`.
    fn visit_identifier(&self, tree: &mut ScopeTree, prefix: &Path, node: &SynNode) -> (r: Result<
        (),
        SynError,
    >)
        requires
            old(tree).wf(),
            self.scope.0 < old(tree).scopes.len(),
            node.kind is Identifier,
        ensures
            final(tree).wf(),
            same_shape(old(tree)@, final(tree)@),
            use_result_matches(old(tree)@, final(tree)@, self.scope, prefix@, *node, r),
        decreases *node, 0int,
    {
        if let SynKind::Identifier(name) = &node.kind {
            let target = prefix.extend(PathSegment(name.clone()));
            self.register(tree, name.clone(), target, node.loc)
        } else {
            vstd::pervasive::unreached()
        }
    }

    /// A bare scoped identifier `path::n`: registers `n` bound to
    /// `prefix ++ path ++ [n]`.
    fn visit_scoped_identifier(&self, tree: &mut ScopeTree, prefix: &Path, node: &SynNode) -> (r:
        Result<(), SynError>)
        requires
            old(tree).wf(),
            self.scope.0 < old(tree).scopes.len(),
            is_use_node(*node),
            node.kind is ScopedIdentifier,
        ensures
            final(tree).wf(),
            same_shape(old(tree)@, final(tree)@),
            use_result_matches(old(tree)@, final(tree)@, self.scope, prefix@, *node, r),
        decreases *node, 0int,
    {
        if let SynKind::ScopedIdentifier(popt, name) = &node.kind {
            let base = match popt {
                Some(sub) => {
                    match self.parse_use_path(tree, sub) {
                        Ok(p) => p,
                        Err(e) => {
                            proof {
                                lemma_same_tree_update(tree@, self.scope);
                            }
                            return Err(e);
                        },
                    }
                },
                None => Path::root(),
            };
            let target = prefix.join_with(&base.extend(PathSegment(name.clone())));
            self.register(tree, name.clone(), target, node.loc)
        } else {
            vstd::pervasive::unreached()
        }
    }

    /// Registers one alias, mapping a duplicate-name failure to the
    /// tagged error of the node that raised it.
    fn register(&self, tree: &mut ScopeTree, name: String, target: Path, loc: usize) -> (r:
        Result<(), SynError>)
        requires
            old(tree).wf(),
            self.scope.0 < old(tree).scopes.len(),
        ensures
            final(tree).wf(),
            same_shape(old(tree)@, final(tree)@),
            ({
                let run = register_spec(
                    old(tree)@[self.scope.0 as int].items,
                    name@,
                    target@,
                    loc,
                );
                &&& final(tree)@ =~= old(tree)@.update(
                    self.scope.0 as int,
                    (ScopeNodeV { items: run.0, ..old(tree)@[self.scope.0 as int] }),
                )
                &&& r == (match run.1 {
                    None => Result::<(), SynError>::Ok(()),
                    Some(e) => Result::<(), SynError>::Err(e),
                })
            }),
    {
        let ghost t0 = tree@;
        match tree.add_item(self.scope, name, NamedItem::Alias(target)) {
            Ok(()) => Ok(()),
            Err(_) => {
                proof {
                    lemma_same_tree_update(t0, self.scope);
                }
                Err(SynError { kind: ErrorKind::DuplicateName, loc })
            },
        }
    }
}

/// Updating a scope with its own current fields changes nothing.
proof fn lemma_same_tree_update(t: Seq<ScopeNodeV>, scope: ScopeId)
    requires
        scope.0 < t.len(),
    ensures
        t =~= t.update(
            scope.0 as int,
            (ScopeNodeV { items: t[scope.0 as int].items, ..t[scope.0 as int] }),
        ),
{
}

} // verus!
