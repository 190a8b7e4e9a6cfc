//! The lexical scope tree: a chain of name-to-item tables with crate
//! and module markers, supporting crate-root and super lookups and
//! alias registration.
//!
//! Scopes live in a flat backing vector; a scope's parent always comes
//! earlier in it, so walks up the parent chain terminate.

use vstd::prelude::*;

use crate::path::Path;

verus! {

/// Handle of a scope in a [`ScopeTree`].
#[derive(Clone, Copy, PartialEq, Eq, Structural, Debug)]
pub struct ScopeId(pub usize);

/// What a scope stands for: a crate root, a module, or any other
/// lexical region (a block, a function body, ...).
#[derive(Clone, Copy, PartialEq, Eq, Structural, Debug)]
pub enum ScopeKind {
    Crate,
    Module,
    Plain,
}

/// The error a registration can raise: the name is already bound in
/// the same scope.
#[derive(Clone, Copy, PartialEq, Eq, Structural, Debug)]
pub enum ScopeError {
    DuplicateName,
}

/// An item a name in a scope is bound to; currently a name bound by a
/// `use` declaration, holding its target path.
pub enum NamedItem {
    Alias(Path),
}

/// Mathematical model of a [`NamedItem`].
pub enum NamedItemV {
    Alias(Seq<Seq<char>>),
}

impl View for NamedItem {
    type V = NamedItemV;

    open spec fn view(&self) -> NamedItemV {
        match self {
            NamedItem::Alias(p) => NamedItemV::Alias(p@),
        }
    }
}

/// One lexical symbol-table node.
pub struct ScopeNode {
    pub parent: Option<ScopeId>,
    pub kind: ScopeKind,
    pub path: Path,
    pub items: Vec<(String, NamedItem)>,
}

/// Mathematical model of a [`ScopeNode`].
pub struct ScopeNodeV {
    pub parent: Option<ScopeId>,
    pub kind: ScopeKind,
    pub path: Seq<Seq<char>>,
    pub items: Seq<(Seq<char>, NamedItemV)>,
}

impl View for ScopeNode {
    type V = ScopeNodeV;

    open spec fn view(&self) -> ScopeNodeV {
        ScopeNodeV {
            parent: self.parent,
            kind: self.kind,
            path: self.path@,
            items: self.items@.map(|i: int, p: (String, NamedItem)| (p.0@, p.1@)),
        }
    }
}

/// Whether `name` is already bound in the given item table.
pub open spec fn has_name(items: Seq<(Seq<char>, NamedItemV)>, name: Seq<char>) -> bool {
    exists|i: int| 0 <= i < items.len() && (#[trigger] items[i]).0 == name
}

/// The nearest ancestor scope (the scope itself included) that is a
/// crate root.
pub open spec fn find_crate_spec(tree: Seq<ScopeNodeV>, s: ScopeId) -> Option<ScopeId>
    decreases s.0,
{
    if s.0 >= tree.len() {
        None
    } else if tree[s.0 as int].kind == ScopeKind::Crate {
        Some(s)
    } else {
        match tree[s.0 as int].parent {
            Some(p) => if p.0 < s.0 {
                find_crate_spec(tree, p)
            } else {
                None
            },
            None => None,
        }
    }
}

/// The parent of the nearest enclosing module-like scope (the scope
/// itself included); `None` when there is no enclosing module or it
/// has no parent.
pub open spec fn find_super_spec(tree: Seq<ScopeNodeV>, s: ScopeId) -> Option<ScopeId>
    decreases s.0,
{
    if s.0 >= tree.len() {
        None
    } else if tree[s.0 as int].kind == ScopeKind::Crate || tree[s.0 as int].kind
        == ScopeKind::Module {
        tree[s.0 as int].parent
    } else {
        match tree[s.0 as int].parent {
            Some(p) => if p.0 < s.0 {
                find_super_spec(tree, p)
            } else {
                None
            },
            None => None,
        }
    }
}

/// The lexical scope tree of one compilation unit.
pub struct ScopeTree {
    pub scopes: Vec<ScopeNode>,
}

impl View for ScopeTree {
    type V = Seq<ScopeNodeV>;

    open spec fn view(&self) -> Seq<ScopeNodeV> {
        self.scopes@.map(|i: int, n: ScopeNode| n@)
    }
}

/// Every scope's parent comes strictly earlier in the backing vector.
pub open spec fn tree_wf(t: Seq<ScopeNodeV>) -> bool {
    forall|i: int| 0 <= i < t.len() ==> match (#[trigger] t[i]).parent {
        Some(p) => p.0 < i,
        None => true,
    }
}

impl ScopeTree {
    /// Every scope's parent comes strictly earlier in the backing
    /// vector.
    pub open spec fn wf(&self) -> bool {
        tree_wf(self@)
    }

    pub fn new() -> (r: ScopeTree)
        ensures
            r.wf(),
            r@ =~= Seq::<ScopeNodeV>::empty(),
    {
        let r = ScopeTree { scopes: Vec::new() };
        proof {
            assert(r@ =~= Seq::<ScopeNodeV>::empty());
        }
        r
    }

    /// Appends a scope with the given parent, kind and absolute path,
    /// and an empty item table.
    pub fn add_scope(&mut self, parent: Option<ScopeId>, kind: ScopeKind, path: Path) -> (r:
        ScopeId)
        requires
            old(self).wf(),
            parent matches Some(p) ==> p.0 < old(self).scopes.len(),
        ensures
            final(self).wf(),
            r.0 == old(self)@.len(),
            final(self)@ =~= old(self)@.push(
                (ScopeNodeV { parent, kind, path: path@, items: Seq::empty() }),
            ),
    {
        let r = ScopeId(self.scopes.len());
        let node = ScopeNode { parent, kind, path, items: Vec::new() };
        self.scopes.push(node);
        proof {
            assert(final(self)@ =~= old(self)@.push(self.scopes@[r.0 as int]@));
            assert(self.scopes@[r.0 as int]@.items =~= Seq::<(Seq<char>, NamedItemV)>::empty());
        }
        r
    }

    /// The nearest crate-root ancestor, the scope itself included.
    pub fn find_crate(&self, from: ScopeId) -> (r: Option<ScopeId>)
        requires
            self.wf(),
            from.0 < self.scopes.len(),
        ensures
            r == find_crate_spec(self@, from),
            r matches Some(c) ==> c.0 < self.scopes.len(),
        decreases from.0,
    {
        match self.scopes[from.0].kind {
            ScopeKind::Crate => Some(from),
            _ => {
                match self.scopes[from.0].parent {
                    Some(p) => {
                        proof {
                            assert(self@[from.0 as int].parent == Some(p));
                        }
                        self.find_crate(p)
                    },
                    None => None,
                }
            },
        }
    }

    /// The parent of the nearest enclosing module-like scope, the
    /// scope itself included.
    pub fn find_super(&self, from: ScopeId) -> (r: Option<ScopeId>)
        requires
            self.wf(),
            from.0 < self.scopes.len(),
        ensures
            r == find_super_spec(self@, from),
            r matches Some(c) ==> c.0 < self.scopes.len(),
        decreases from.0,
    {
        match self.scopes[from.0].kind {
            ScopeKind::Crate => self.scopes[from.0].parent,
            ScopeKind::Module => self.scopes[from.0].parent,
            ScopeKind::Plain => {
                match self.scopes[from.0].parent {
                    Some(p) => {
                        proof {
                            assert(self@[from.0 as int].parent == Some(p));
                        }
                        self.find_super(p)
                    },
                    None => None,
                }
            },
        }
    }

    /// A copy of the scope's absolute path.
    pub fn path_of(&self, s: ScopeId) -> (r: Path)
        requires
            s.0 < self.scopes.len(),
        ensures
            r@ =~= self@[s.0 as int].path,
    {
        self.scopes[s.0].path.duplicate()
    }

    /// Registers `name` in the given scope.  Registration fails, and
    /// the tree is left unchanged, exactly when the scope already
    /// binds the name.
    pub fn add_item(&mut self, scope: ScopeId, name: String, item: NamedItem) -> (r: Result<
        (),
        ScopeError,
    >)
        requires
            old(self).wf(),
            scope.0 < old(self).scopes.len(),
        ensures
            final(self).wf(),
            ({
                let items = old(self)@[scope.0 as int].items;
                if has_name(items, name@) {
                    &&& r == Result::<(), ScopeError>::Err(ScopeError::DuplicateName)
                    &&& final(self)@ =~= old(self)@
                } else {
                    &&& r == Result::<(), ScopeError>::Ok(())
                    &&& final(self)@ =~= old(self)@.update(
                        scope.0 as int,
                        (ScopeNodeV {
                            items: items.push((name@, item@)),
                            ..old(self)@[scope.0 as int]
                        }),
                    )
                }
            }),
    {
        let ghost items_v = self@[scope.0 as int].items;
        let n = self.scopes[scope.0].items.len();
        let mut i: usize = 0;
        while i < n
            invariant
                *self == *old(self),
                old(self).wf(),
                scope.0 < self.scopes.len(),
                items_v == self@[scope.0 as int].items,
                n == items_v.len(),
                i <= n,
                forall|j: int| 0 <= j < i ==> (#[trigger] items_v[j]).0 != name@,
            decreases n - i,
        {
            let existing = &self.scopes[scope.0].items[i].0;
            if *existing == name {
                proof {
                    assert((items_v[i as int]).0 == name@);
                }
                return Err(ScopeError::DuplicateName);
            }
            i += 1;
        }
        proof {
            assert(!has_name(items_v, name@));
        }
        let node = &mut self.scopes[scope.0];
        node.items.push((name, item));
        proof {
            let i0 = scope.0 as int;
            assert(self.scopes@ =~= old(self).scopes@.update(i0, self.scopes@[i0]));
            assert(self@[i0].items =~= items_v.push((name@, item@)));
            assert(self@[i0] == (ScopeNodeV {
                items: items_v.push((name@, item@)),
                ..old(self)@[i0]
            }));
            assert(self@ =~= old(self)@.update(
                i0,
                (ScopeNodeV { items: items_v.push((name@, item@)), ..old(self)@[i0] }),
            ));
        }
        Ok(())
    }
}

} // verus!
