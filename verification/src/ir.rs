//! The intermediate-representation model: interned types, expressions,
//! statements, and the arena-style context that owns them.
//!
//! All nodes live in flat backing vectors owned by [`IrCtx`]; handles
//! (`TyId`, `ExprId`, ...) are indices into those vectors.  A node is
//! write-once: it never changes after it is pushed, and every node's
//! children were pushed before it, so child handles are always strictly
//! smaller than the handle of the node that holds them.

use vstd::prelude::*;

verus! {

/// Handle of an interned type in [`IrCtx::types`].
#[derive(Clone, Copy, PartialEq, Eq, Structural, Debug)]
pub struct TyId(pub usize);

/// Handle of an expression in [`IrCtx::exprs`].
#[derive(Clone, Copy, PartialEq, Eq, Structural, Debug)]
pub struct ExprId(pub usize);

/// Opaque handle of a binding (a variable or a field); equality is
/// identity-only.
#[derive(Clone, Copy, PartialEq, Eq, Structural, Debug)]
pub struct IrId(pub usize);

/// Handle of a function declaration in [`IrCtx::items`].
#[derive(Clone, Copy, PartialEq, Eq, Structural, Debug)]
pub struct ItemId(pub usize);

/// Whether an expression denotes an addressable storage location
/// (`LValue`) or a transient value (`RValue`).
#[derive(Clone, Copy, PartialEq, Eq, Structural, Debug)]
pub enum ValueCategory {
    LValue,
    RValue,
}

/// A structural type descriptor.  Two descriptors are equal iff their
/// interned handles are equal.
pub enum TyKind {
    Void,
    Never,
    /// Pointee type and whether the pointee is const.
    Pointer(TyId, bool),
    /// Element type and length.
    Array(TyId, usize),
    /// Argument types and return type.
    FnTy(Vec<TyId>, TyId),
}

/// Mathematical model of a [`TyKind`].
pub enum TyKindV {
    Void,
    Never,
    Pointer(TyId, bool),
    Array(TyId, usize),
    FnTy(Seq<TyId>, TyId),
}

impl View for TyKind {
    type V = TyKindV;

    open spec fn view(&self) -> TyKindV {
        match self {
            TyKind::Void => TyKindV::Void,
            TyKind::Never => TyKindV::Never,
            TyKind::Pointer(t, c) => TyKindV::Pointer(*t, *c),
            TyKind::Array(t, n) => TyKindV::Array(*t, *n),
            TyKind::FnTy(args, ret) => TyKindV::FnTy(args@, *ret),
        }
    }
}

/// A unit inside a block; currently only an expression-statement.
#[derive(Clone, Copy, PartialEq, Eq, Structural, Debug)]
pub enum Statement {
    Expression(ExprId),
}

/// The expression the statement wraps.
pub open spec fn stmt_expr(s: Statement) -> ExprId {
    match s {
        Statement::Expression(e) => e,
    }
}

/// The node kind of an expression.
pub enum ExprKind {
    Local(IrId),
    Assign(ExprId, ExprId),
    Void,
    Func(ItemId),
    Unreachable,
    TupleIndex(ExprId, usize),
    Deref(ExprId),
    Ref(ExprId),
    Index(ExprId, ExprId),
    Field(ExprId, IrId),
    /// Ordered statements and the trailing result expression.
    Block(Vec<Statement>, ExprId),
}

/// Mathematical model of an [`ExprKind`].
pub enum ExprKindV {
    Local(IrId),
    Assign(ExprId, ExprId),
    Void,
    Func(ItemId),
    Unreachable,
    TupleIndex(ExprId, usize),
    Deref(ExprId),
    Ref(ExprId),
    Index(ExprId, ExprId),
    Field(ExprId, IrId),
    Block(Seq<Statement>, ExprId),
}

impl View for ExprKind {
    type V = ExprKindV;

    open spec fn view(&self) -> ExprKindV {
        match self {
            ExprKind::Local(id) => ExprKindV::Local(*id),
            ExprKind::Assign(l, r) => ExprKindV::Assign(*l, *r),
            ExprKind::Void => ExprKindV::Void,
            ExprKind::Func(it) => ExprKindV::Func(*it),
            ExprKind::Unreachable => ExprKindV::Unreachable,
            ExprKind::TupleIndex(t, i) => ExprKindV::TupleIndex(*t, *i),
            ExprKind::Deref(e) => ExprKindV::Deref(*e),
            ExprKind::Ref(e) => ExprKindV::Ref(*e),
            ExprKind::Index(e, i) => ExprKindV::Index(*e, *i),
            ExprKind::Field(e, f) => ExprKindV::Field(*e, *f),
            ExprKind::Block(ss, ret) => ExprKindV::Block(ss@, *ret),
        }
    }
}

/// A typed IR node with its value category and constness.
pub struct Expr {
    pub kind: ExprKind,
    pub ty: TyId,
    pub category: ValueCategory,
    pub is_const: bool,
}

/// Mathematical model of an [`Expr`].
pub struct ExprV {
    pub kind: ExprKindV,
    pub ty: TyId,
    pub category: ValueCategory,
    pub is_const: bool,
}

impl View for Expr {
    type V = ExprV;

    open spec fn view(&self) -> ExprV {
        ExprV { kind: self.kind@, ty: self.ty, category: self.category, is_const: self.is_const }
    }
}

/// A function declaration as this core sees it: its argument types and
/// return type.
pub struct FnItem {
    pub args: Vec<TyId>,
    pub ret: TyId,
}

/// Mathematical model of a [`FnItem`].
pub struct FnItemV {
    pub args: Seq<TyId>,
    pub ret: TyId,
}

impl View for FnItem {
    type V = FnItemV;

    open spec fn view(&self) -> FnItemV {
        FnItemV { args: self.args@, ret: self.ret }
    }
}

/// Every handle a type descriptor mentions stays below `n`.
pub open spec fn ty_wf(t: TyKindV, n: nat) -> bool {
    match t {
        TyKindV::Void => true,
        TyKindV::Never => true,
        TyKindV::Pointer(p, _) => p.0 < n,
        TyKindV::Array(p, _) => p.0 < n,
        TyKindV::FnTy(args, r) => r.0 < n && forall|i: int|
            0 <= i < args.len() ==> (#[trigger] args[i]).0 < n,
    }
}

/// The interning invariant: every descriptor is closed over the table
/// and no two entries are structurally equal.
pub open spec fn types_wf(ts: Seq<TyKindV>) -> bool {
    &&& forall|i: int| 0 <= i < ts.len() ==> ty_wf(#[trigger] ts[i], ts.len())
    &&& forall|i: int, j: int| 0 <= i < j < ts.len() ==> ts[i] != ts[j]
}

/// Per-node well-formedness of the expression at index `i`: its children
/// come earlier in the arena and its type, value category and constness
/// are the ones its smart constructor establishes.
pub open spec fn expr_wf(
    es: Seq<ExprV>,
    ts: Seq<TyKindV>,
    items: Seq<FnItemV>,
    void_ty: TyId,
    never_ty: TyId,
    i: int,
) -> bool {
    let e = es[i];
    &&& e.ty.0 < ts.len()
    &&& match e.kind {
        ExprKindV::Local(_) => e.category == ValueCategory::LValue && !e.is_const,
        ExprKindV::Assign(l, r) => {
            &&& l.0 < i && r.0 < i
            &&& e.category == ValueCategory::RValue && !e.is_const
            &&& e.ty == void_ty
        },
        ExprKindV::Void => {
            &&& e.category == ValueCategory::RValue && !e.is_const
            &&& e.ty == void_ty
        },
        ExprKindV::Func(it) => {
            &&& it.0 < items.len()
            &&& e.category == ValueCategory::LValue && e.is_const
            &&& ts[e.ty.0 as int] == TyKindV::FnTy(
                items[it.0 as int].args,
                items[it.0 as int].ret,
            )
        },
        ExprKindV::Unreachable => {
            &&& e.category == ValueCategory::RValue && !e.is_const
            &&& e.ty == never_ty
        },
        ExprKindV::TupleIndex(t, _) => {
            &&& t.0 < i
            &&& e.category == es[t.0 as int].category
            &&& e.is_const == es[t.0 as int].is_const
        },
        ExprKindV::Deref(inn) => {
            &&& inn.0 < i
            &&& match ts[es[inn.0 as int].ty.0 as int] {
                TyKindV::Pointer(p, c) => {
                    &&& e.ty == p
                    &&& e.category == ValueCategory::LValue
                    &&& e.is_const == c
                },
                _ => false,
            }
        },
        ExprKindV::Ref(inn) => {
            &&& inn.0 < i
            &&& es[inn.0 as int].category == ValueCategory::LValue
            &&& e.category == ValueCategory::RValue && !e.is_const
            &&& ts[e.ty.0 as int] == TyKindV::Pointer(
                es[inn.0 as int].ty,
                es[inn.0 as int].is_const,
            )
        },
        ExprKindV::Index(inn, idx) => {
            &&& inn.0 < i && idx.0 < i
            &&& e.category == ValueCategory::LValue
            &&& match ts[es[inn.0 as int].ty.0 as int] {
                TyKindV::Pointer(p, c) => e.ty == p && e.is_const == c,
                TyKindV::Array(p, _) => e.ty == p && e.is_const == es[inn.0 as int].is_const,
                _ => false,
            }
        },
        ExprKindV::Field(o, _) => {
            &&& o.0 < i
            &&& e.category == es[o.0 as int].category
            &&& e.is_const == es[o.0 as int].is_const
        },
        ExprKindV::Block(ss, ret) => {
            &&& ret.0 < i
            &&& forall|j: int| 0 <= j < ss.len() ==> stmt_expr(#[trigger] ss[j]).0 < i
            &&& e.category == ValueCategory::RValue && !e.is_const
            &&& e.ty == es[ret.0 as int].ty
        },
    }
}

/// The arena-style context of one compilation: it owns all types,
/// expressions and function items, and interns types so that equal
/// handles mean equal types.
pub struct IrCtx {
    pub types: Vec<TyKind>,
    pub exprs: Vec<Expr>,
    pub items: Vec<FnItem>,
    pub void_ty: TyId,
    pub never_ty: TyId,
}

impl IrCtx {
    pub open spec fn types_v(&self) -> Seq<TyKindV> {
        self.types@.map(|i: int, t: TyKind| t@)
    }

    pub open spec fn exprs_v(&self) -> Seq<ExprV> {
        self.exprs@.map(|i: int, e: Expr| e@)
    }

    pub open spec fn items_v(&self) -> Seq<FnItemV> {
        self.items@.map(|i: int, it: FnItem| it@)
    }

    /// Parts of the context the expression builder never changes.
    pub open spec fn same_tables(&self, other: &IrCtx) -> bool {
        &&& self.items_v() =~= other.items_v()
        &&& self.void_ty == other.void_ty
        &&& self.never_ty == other.never_ty
    }

    pub open spec fn wf(&self) -> bool {
        &&& types_wf(self.types_v())
        &&& self.void_ty.0 < self.types.len()
        &&& self.types_v()[self.void_ty.0 as int] == TyKindV::Void
        &&& self.never_ty.0 < self.types.len()
        &&& self.types_v()[self.never_ty.0 as int] == TyKindV::Never
        &&& forall|it: int| 0 <= it < self.items_v().len() ==> {
            let item = #[trigger] self.items_v()[it];
            item.ret.0 < self.types.len() && forall|a: int|
                0 <= a < item.args.len() ==> (#[trigger] item.args[a]).0 < self.types.len()
        }
        &&& forall|i: int| 0 <= i < self.exprs.len() ==> #[trigger] expr_wf(
            self.exprs_v(),
            self.types_v(),
            self.items_v(),
            self.void_ty,
            self.never_ty,
            i,
        )
    }

    /// A fresh context holding only the interned `Void` and `Never`
    /// types.
    pub fn new() -> (r: IrCtx)
        ensures
            r.wf(),
            r.exprs_v() =~= Seq::<ExprV>::empty(),
            r.items_v() =~= Seq::<FnItemV>::empty(),
            r.types_v() =~= seq![TyKindV::Void, TyKindV::Never],
            r.void_ty == TyId(0),
            r.never_ty == TyId(1),
    {
        let mut types: Vec<TyKind> = Vec::new();
        types.push(TyKind::Void);
        types.push(TyKind::Never);
        let r = IrCtx {
            types,
            exprs: Vec::new(),
            items: Vec::new(),
            void_ty: TyId(0),
            never_ty: TyId(1),
        };
        proof {
            assert(r.types_v() =~= seq![TyKindV::Void, TyKindV::Never]);
        }
        r
    }

    /// Registers a function declaration so that expressions can refer to
    /// it.
    pub fn add_function(&mut self, args: Vec<TyId>, ret: TyId) -> (r: ItemId)
        requires
            old(self).wf(),
            ret.0 < old(self).types.len(),
            forall|a: int| 0 <= a < args.len() ==> (#[trigger] args@[a]).0 < old(self).types.len(),
        ensures
            final(self).wf(),
            final(self).types_v() =~= old(self).types_v(),
            final(self).exprs_v() =~= old(self).exprs_v(),
            final(self).void_ty == old(self).void_ty,
            final(self).never_ty == old(self).never_ty,
            r.0 == old(self).items.len(),
            final(self).items_v() =~= old(self).items_v().push(FnItemV { args: args@, ret }),
    {
        let id = ItemId(self.items.len());
        self.items.push(FnItem { args, ret });
        proof {
            assert(self.items_v() =~= old(self).items_v().push(
                FnItemV { args: self.items@[id.0 as int].args@, ret },
            ));
            assert(self.types_v() =~= old(self).types_v());
            assert(self.exprs_v() =~= old(self).exprs_v());
            assert(self.items_v().subrange(0, old(self).items_v().len() as int) =~= old(
                self,
            ).items_v());
            lemma_all_exprs_wf_grow(
                self.exprs_v(),
                old(self).types_v(),
                self.types_v(),
                old(self).items_v(),
                self.items_v(),
                self.void_ty,
                self.never_ty,
            );
        }
        id
    }

    /// Returns the canonical handle of the given structural type,
    /// interning it if it is new.  Repeated interning of a structurally
    /// equal type yields the same handle.
    pub fn intern_type(&mut self, kind: TyKind) -> (r: TyId)
        requires
            old(self).wf(),
            ty_wf(kind@, old(self).types.len() as nat),
        ensures
            final(self).wf(),
            final(self).exprs_v() =~= old(self).exprs_v(),
            final(self).same_tables(old(self)),
            r.0 < final(self).types.len(),
            final(self).types_v()[r.0 as int] == kind@,
            old(self).types.len() <= final(self).types.len(),
            final(self).types_v().subrange(0, old(self).types.len() as int) =~= old(self).types_v(),
            (exists|i: int|
                0 <= i < old(self).types_v().len() && old(self).types_v()[i] == kind@) ==> final(self)
                .types_v() =~= old(self).types_v(),
            !(exists|i: int|
                0 <= i < old(self).types_v().len() && old(self).types_v()[i]
                    == kind@) ==> final(self).types_v() =~= old(self).types_v().push(kind@),
    {
        let n = self.types.len();
        let mut i: usize = 0;
        while i < n
            invariant
                *self == *old(self),
                old(self).wf(),
                n == self.types.len(),
                i <= n,
                forall|j: int| 0 <= j < i ==> self.types_v()[j] != kind@,
            decreases n - i,
        {
            if ty_kind_eq(&self.types[i], &kind) {
                proof {
                    assert(0 <= i < old(self).types_v().len() && old(self).types_v()[i as int]
                        == kind@);
                }
                return TyId(i);
            }
            i += 1;
        }
        let r = TyId(n);
        self.types.push(kind);
        proof {
            assert(self.types_v() =~= old(self).types_v().push(
                self.types@[n as int]@,
            ));
            assert forall|a: int| 0 <= a < self.types_v().len() implies ty_wf(
                #[trigger] self.types_v()[a],
                self.types_v().len(),
            ) by {
                assert(ty_wf(self.types_v()[a], old(self).types_v().len()));
                lemma_ty_wf_monotonic(self.types_v()[a], old(self).types_v().len(), self.types_v().len());
            }
            assert(self.exprs_v() =~= old(self).exprs_v());
            assert(self.items_v() =~= old(self).items_v());
            assert(self.types_v().subrange(0, old(self).types_v().len() as int) =~= old(
                self,
            ).types_v());
            lemma_all_exprs_wf_grow(
                self.exprs_v(),
                old(self).types_v(),
                self.types_v(),
                old(self).items_v(),
                self.items_v(),
                self.void_ty,
                self.never_ty,
            );
        }
        r
    }

    /// Whether the expression is statically divergent, that is, of type
    /// `Never`.
    pub fn expr_diverges(&self, e: ExprId) -> (r: bool)
        requires
            self.wf(),
            e.0 < self.exprs.len(),
        ensures
            r == diverges_at(self.exprs_v(), self.never_ty, e),
    {
        self.exprs[e.0].ty == self.never_ty
    }

    /// Whether the expression has no observable side effect, decided per
    /// node kind.
    pub fn expr_pure(&self, e: ExprId) -> (r: bool)
        requires
            self.wf(),
            e.0 < self.exprs.len(),
        ensures
            r == pure_at(self.exprs_v(), e),
    {
        match &self.exprs[e.0].kind {
            ExprKind::Local(_) => true,
            ExprKind::Void => true,
            ExprKind::Func(_) => true,
            _ => false,
        }
    }
}

/// Two interned types are structurally equal iff their handles are
/// equal, so handle comparison is type comparison.
pub proof fn lemma_interned_handle_equality(ctx: IrCtx, i: int, j: int)
    requires
        ctx.wf(),
        0 <= i < ctx.types_v().len(),
        0 <= j < ctx.types_v().len(),
    ensures
        (ctx.types_v()[i] == ctx.types_v()[j]) <==> i == j,
{
}

/// Per-node well-formedness only reads the arena strictly below the
/// node, so appending new expressions preserves it.
pub proof fn lemma_expr_wf_prefix(
    es1: Seq<ExprV>,
    es2: Seq<ExprV>,
    ts: Seq<TyKindV>,
    items: Seq<FnItemV>,
    void_ty: TyId,
    never_ty: TyId,
    i: int,
)
    requires
        expr_wf(es1, ts, items, void_ty, never_ty, i),
        0 <= i < es1.len(),
        es1.len() <= es2.len(),
        es2.subrange(0, es1.len() as int) =~= es1,
    ensures
        expr_wf(es2, ts, items, void_ty, never_ty, i),
{
    assert(es2[i] == es1[i]);
    match es1[i].kind {
        ExprKindV::TupleIndex(t, _) => {
            assert(es2[t.0 as int] == es1[t.0 as int]);
        },
        ExprKindV::Deref(inn) => {
            assert(es2[inn.0 as int] == es1[inn.0 as int]);
        },
        ExprKindV::Ref(inn) => {
            assert(es2[inn.0 as int] == es1[inn.0 as int]);
        },
        ExprKindV::Index(inn, idx) => {
            assert(es2[inn.0 as int] == es1[inn.0 as int]);
            assert(es2[idx.0 as int] == es1[idx.0 as int]);
        },
        ExprKindV::Field(o, _) => {
            assert(es2[o.0 as int] == es1[o.0 as int]);
        },
        ExprKindV::Block(_, ret) => {
            assert(es2[ret.0 as int] == es1[ret.0 as int]);
        },
        _ => {},
    }
}

impl IrCtx {
    /// Appends a well-formed expression node to the arena and returns
    /// its handle.
    pub fn alloc_expr(&mut self, e: Expr) -> (r: ExprId)
        requires
            old(self).wf(),
            expr_wf(
                old(self).exprs_v().push(e@),
                old(self).types_v(),
                old(self).items_v(),
                old(self).void_ty,
                old(self).never_ty,
                old(self).exprs.len() as int,
            ),
        ensures
            final(self).wf(),
            final(self).types_v() =~= old(self).types_v(),
            final(self).same_tables(old(self)),
            r.0 == old(self).exprs.len(),
            final(self).exprs_v() =~= old(self).exprs_v().push(e@),
    {
        let r = ExprId(self.exprs.len());
        self.exprs.push(e);
        proof {
            let es1 = old(self).exprs_v();
            let es2 = self.exprs_v();
            assert(es2 =~= es1.push(self.exprs@[r.0 as int]@));
            assert(es2.subrange(0, es1.len() as int) =~= es1);
            assert(self.types_v() =~= old(self).types_v());
            assert(self.items_v() =~= old(self).items_v());
            assert forall|i: int| 0 <= i < es2.len() implies #[trigger] expr_wf(
                es2,
                self.types_v(),
                self.items_v(),
                self.void_ty,
                self.never_ty,
                i,
            ) by {
                if i < es1.len() {
                    assert(expr_wf(
                        es1,
                        old(self).types_v(),
                        old(self).items_v(),
                        self.void_ty,
                        self.never_ty,
                        i,
                    ));
                    lemma_expr_wf_prefix(
                        es1,
                        es2,
                        self.types_v(),
                        self.items_v(),
                        self.void_ty,
                        self.never_ty,
                        i,
                    );
                } else {
                    assert(expr_wf(
                        es1.push(e@),
                        self.types_v(),
                        self.items_v(),
                        self.void_ty,
                        self.never_ty,
                        i,
                    ));
                    assert(es2 =~= es1.push(e@));
                }
            }
        }
        r
    }
}

/// An expression of type `Never` never returns control to its caller.
pub open spec fn diverges_at(es: Seq<ExprV>, never_ty: TyId, e: ExprId) -> bool {
    es[e.0 as int].ty == never_ty
}

/// The per-kind purity predicate: a bare binding reference, the void
/// literal and a function reference have no observable side effect.
pub open spec fn pure_kind(k: ExprKindV) -> bool {
    match k {
        ExprKindV::Local(_) => true,
        ExprKindV::Void => true,
        ExprKindV::Func(_) => true,
        _ => false,
    }
}

pub open spec fn pure_at(es: Seq<ExprV>, e: ExprId) -> bool {
    pure_kind(es[e.0 as int].kind)
}

pub open spec fn is_block_at(es: Seq<ExprV>, e: ExprId) -> bool {
    es[e.0 as int].kind is Block
}

pub open spec fn block_stmts_at(es: Seq<ExprV>, e: ExprId) -> Seq<Statement> {
    es[e.0 as int].kind->Block_0
}

pub open spec fn block_ret_at(es: Seq<ExprV>, e: ExprId) -> ExprId {
    es[e.0 as int].kind->Block_1
}

/// Closedness of a type descriptor is preserved when the table grows.
pub proof fn lemma_ty_wf_monotonic(t: TyKindV, n1: nat, n2: nat)
    requires
        ty_wf(t, n1),
        n1 <= n2,
    ensures
        ty_wf(t, n2),
{
}

/// Per-node well-formedness only reads the type and item tables at
/// existing indices, so extending either table preserves it.
pub proof fn lemma_expr_wf_grow(
    es: Seq<ExprV>,
    ts1: Seq<TyKindV>,
    ts2: Seq<TyKindV>,
    items1: Seq<FnItemV>,
    items2: Seq<FnItemV>,
    void_ty: TyId,
    never_ty: TyId,
    i: int,
)
    requires
        expr_wf(es, ts1, items1, void_ty, never_ty, i),
        ts1.len() <= ts2.len(),
        ts2.subrange(0, ts1.len() as int) =~= ts1,
        items1.len() <= items2.len(),
        items2.subrange(0, items1.len() as int) =~= items1,
        0 <= i < es.len(),
        forall|j: int| 0 <= j < es.len() ==> (#[trigger] es[j]).ty.0 < ts1.len(),
    ensures
        expr_wf(es, ts2, items2, void_ty, never_ty, i),
{
    assert(ts2[es[i].ty.0 as int] == ts1[es[i].ty.0 as int]);
    match es[i].kind {
        ExprKindV::Func(it) => {
            assert(items2[it.0 as int] == items1[it.0 as int]);
        },
        ExprKindV::Deref(inn) => {
            assert(ts2[es[inn.0 as int].ty.0 as int] == ts1[es[inn.0 as int].ty.0 as int]);
        },
        ExprKindV::Index(inn, _) => {
            assert(ts2[es[inn.0 as int].ty.0 as int] == ts1[es[inn.0 as int].ty.0 as int]);
        },
        _ => {},
    }
}

/// The whole expression-arena invariant is preserved when the type or
/// item table grows.
pub proof fn lemma_all_exprs_wf_grow(
    es: Seq<ExprV>,
    ts1: Seq<TyKindV>,
    ts2: Seq<TyKindV>,
    items1: Seq<FnItemV>,
    items2: Seq<FnItemV>,
    void_ty: TyId,
    never_ty: TyId,
)
    requires
        forall|i: int| 0 <= i < es.len() ==> #[trigger] expr_wf(
            es,
            ts1,
            items1,
            void_ty,
            never_ty,
            i,
        ),
        ts1.len() <= ts2.len(),
        ts2.subrange(0, ts1.len() as int) =~= ts1,
        items1.len() <= items2.len(),
        items2.subrange(0, items1.len() as int) =~= items1,
    ensures
        forall|i: int| 0 <= i < es.len() ==> #[trigger] expr_wf(
            es,
            ts2,
            items2,
            void_ty,
            never_ty,
            i,
        ),
{
    assert forall|j: int| 0 <= j < es.len() implies (#[trigger] es[j]).ty.0 < ts1.len() by {
        assert(expr_wf(es, ts1, items1, void_ty, never_ty, j));
    }
    assert forall|i: int| 0 <= i < es.len() implies #[trigger] expr_wf(
        es,
        ts2,
        items2,
        void_ty,
        never_ty,
        i,
    ) by {
        assert(expr_wf(es, ts1, items1, void_ty, never_ty, i));
        lemma_expr_wf_grow(es, ts1, ts2, items1, items2, void_ty, never_ty, i);
    }
}

/// Structural equality of two type descriptors.
fn ty_kind_eq(a: &TyKind, b: &TyKind) -> (r: bool)
    ensures
        r == (a@ == b@),
{
    match (a, b) {
        (TyKind::Void, TyKind::Void) => true,
        (TyKind::Never, TyKind::Never) => true,
        (TyKind::Pointer(t1, c1), TyKind::Pointer(t2, c2)) => *t1 == *t2 && *c1 == *c2,
        (TyKind::Array(t1, n1), TyKind::Array(t2, n2)) => *t1 == *t2 && *n1 == *n2,
        (TyKind::FnTy(args1, r1), TyKind::FnTy(args2, r2)) => {
            if *r1 != *r2 {
                return false;
            }
            if args1.len() != args2.len() {
                proof {
                    assert(a@ != b@) by {
                        assert(args1@.len() != args2@.len());
                    }
                }
                return false;
            }
            let mut i: usize = 0;
            while i < args1.len()
                invariant
                    args1@.len() == args2@.len(),
                    i <= args1@.len(),
                    *r1 == *r2,
                    a@ == TyKindV::FnTy(args1@, *r1),
                    b@ == TyKindV::FnTy(args2@, *r2),
                    forall|j: int| 0 <= j < i ==> args1@[j] == args2@[j],
                decreases args1@.len() - i,
            {
                if args1[i] != args2[i] {
                    return false;
                }
                i += 1;
            }
            proof {
                assert(args1@ =~= args2@);
            }
            true
        },
        _ => {
            proof {
                assert(a@ != b@);
            }
            false
        },
    }
}

} // verus!
