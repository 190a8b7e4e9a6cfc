//! Smart constructors for IR expressions.
//!
//! Every constructor validates its operands and establishes the
//! per-kind invariants of [`expr_wf`], so downstream code can never
//! observe an ill-typed or ill-categorized node.  Block construction
//! canonicalizes inline (see [`crate::canon`]).

use vstd::prelude::*;

use crate::canon::{
    canon, canon_from, ids_below, lemma_canon_bound_irrelevant, lemma_canon_ids_below,
    lemma_canon_stable, lemma_wf_implies_blocks_wf,
};
use crate::ir::{
    Expr, ExprId, ExprKind, ExprKindV, ExprV, IrCtx, IrId, ItemId, Statement, TyId, TyKind,
    TyKindV, ValueCategory, diverges_at, expr_wf,
};

verus! {

/// Builds validated IR expressions into the context it owns.
pub struct ExpressionBuilder {
    pub ctx: IrCtx,
}

/// The view of the expression a constructor pushes: the arena grows by
/// exactly that node and the type and item tables stay as they were.
pub open spec fn pushed(old_ctx: IrCtx, new_ctx: IrCtx, e: ExprV) -> bool {
    &&& new_ctx.exprs_v() =~= old_ctx.exprs_v().push(e)
    &&& new_ctx.types_v() =~= old_ctx.types_v()
    &&& new_ctx.same_tables(&old_ctx)
}

impl ExpressionBuilder {
    pub open spec fn wf(&self) -> bool {
        self.ctx.wf()
    }

    pub fn new(ctx: IrCtx) -> (r: Self)
        ensures
            r.ctx == ctx,
    {
        ExpressionBuilder { ctx }
    }

    /// An LValue reference to a binding.
    pub fn local(&mut self, id: IrId, typ: TyId) -> (r: ExprId)
        requires
            old(self).wf(),
            typ.0 < old(self).ctx.types.len(),
        ensures
            final(self).wf(),
            r.0 == old(self).ctx.exprs.len(),
            pushed(
                old(self).ctx,
                final(self).ctx,
                (ExprV {
                    kind: ExprKindV::Local(id),
                    ty: typ,
                    category: ValueCategory::LValue,
                    is_const: false,
                }),
            ),
    {
        let e = Expr {
            kind: ExprKind::Local(id),
            ty: typ,
            category: ValueCategory::LValue,
            is_const: false,
        };
        self.ctx.alloc_expr(e)
    }

    /// A Void-typed RValue that stores `rhs` into `lhs`.  Unlike
    /// `ref_to`, `deref` and `index`, this constructor deliberately
    /// places no value-category demand on its left operand: that `lhs`
    /// is assignable is left to the earlier type-checking phase.
    pub fn assign(&mut self, lhs: ExprId, rhs: ExprId) -> (r: ExprId)
        requires
            old(self).wf(),
            lhs.0 < old(self).ctx.exprs.len(),
            rhs.0 < old(self).ctx.exprs.len(),
        ensures
            final(self).wf(),
            r.0 == old(self).ctx.exprs.len(),
            pushed(
                old(self).ctx,
                final(self).ctx,
                (ExprV {
                    kind: ExprKindV::Assign(lhs, rhs),
                    ty: old(self).ctx.void_ty,
                    category: ValueCategory::RValue,
                    is_const: false,
                }),
            ),
    {
        let ty = self.ctx.intern_type(TyKind::Void);
        proof {
            assert(exists|i: int|
                0 <= i < old(self).ctx.types_v().len() && old(self).ctx.types_v()[i]
                    == TyKind::Void@) by {
                assert(old(self).ctx.types_v()[old(self).ctx.void_ty.0 as int] == TyKindV::Void);
            }
            assert(ty == self.ctx.void_ty);
        }
        let e = Expr {
            kind: ExprKind::Assign(lhs, rhs),
            ty,
            category: ValueCategory::RValue,
            is_const: false,
        };
        self.ctx.alloc_expr(e)
    }

    /// The Void RValue literal.
    pub fn void(&mut self) -> (r: ExprId)
        requires
            old(self).wf(),
        ensures
            final(self).wf(),
            r.0 == old(self).ctx.exprs.len(),
            pushed(
                old(self).ctx,
                final(self).ctx,
                (ExprV {
                    kind: ExprKindV::Void,
                    ty: old(self).ctx.void_ty,
                    category: ValueCategory::RValue,
                    is_const: false,
                }),
            ),
    {
        let ty = self.ctx.intern_type(TyKind::Void);
        proof {
            assert(exists|i: int|
                0 <= i < old(self).ctx.types_v().len() && old(self).ctx.types_v()[i]
                    == TyKind::Void@) by {
                assert(old(self).ctx.types_v()[old(self).ctx.void_ty.0 as int] == TyKindV::Void);
            }
            assert(ty == self.ctx.void_ty);
        }
        let e = Expr {
            kind: ExprKind::Void,
            ty,
            category: ValueCategory::RValue,
            is_const: false,
        };
        self.ctx.alloc_expr(e)
    }

    /// An RValue of type Never: an assumed-unreachable program point.
    pub fn unreachable(&mut self) -> (r: ExprId)
        requires
            old(self).wf(),
        ensures
            final(self).wf(),
            r.0 == old(self).ctx.exprs.len(),
            pushed(
                old(self).ctx,
                final(self).ctx,
                (ExprV {
                    kind: ExprKindV::Unreachable,
                    ty: old(self).ctx.never_ty,
                    category: ValueCategory::RValue,
                    is_const: false,
                }),
            ),
    {
        let ty = self.ctx.intern_type(TyKind::Never);
        proof {
            assert(exists|i: int|
                0 <= i < old(self).ctx.types_v().len() && old(self).ctx.types_v()[i]
                    == TyKind::Never@) by {
                assert(old(self).ctx.types_v()[old(self).ctx.never_ty.0 as int] == TyKindV::Never);
            }
            assert(ty == self.ctx.never_ty);
        }
        let e = Expr {
            kind: ExprKind::Unreachable,
            ty,
            category: ValueCategory::RValue,
            is_const: false,
        };
        self.ctx.alloc_expr(e)
    }

    /// A const LValue referring to a function declaration; its type is
    /// the synthesized function type of that declaration.
    pub fn function(&mut self, item: ItemId) -> (r: ExprId)
        requires
            old(self).wf(),
            item.0 < old(self).ctx.items.len(),
        ensures
            final(self).wf(),
            r.0 == old(self).ctx.exprs.len(),
            final(self).ctx.same_tables(&old(self).ctx),
            old(self).ctx.types.len() <= final(self).ctx.types.len(),
            final(self).ctx.types_v().subrange(0, old(self).ctx.types.len() as int) =~= old(
                self,
            ).ctx.types_v(),
            final(self).ctx.exprs_v().subrange(0, old(self).ctx.exprs.len() as int) =~= old(
                self,
            ).ctx.exprs_v(),
            final(self).ctx.exprs_v().len() == old(self).ctx.exprs.len() + 1,
            ({
                let e = final(self).ctx.exprs_v()[r.0 as int];
                &&& e.kind == ExprKindV::Func(item)
                &&& e.category == ValueCategory::LValue
                &&& e.is_const
                &&& final(self).ctx.types_v()[e.ty.0 as int] == TyKindV::FnTy(
                    old(self).ctx.items_v()[item.0 as int].args,
                    old(self).ctx.items_v()[item.0 as int].ret,
                )
            }),
    {
        let func = &self.ctx.items[item.0];
        let mut args: Vec<TyId> = Vec::new();
        let n = func.args.len();
        let mut i: usize = 0;
        while i < n
            invariant
                item.0 < self.ctx.items.len(),
                n == self.ctx.items@[item.0 as int].args@.len(),
                i <= n,
                args@ =~= self.ctx.items@[item.0 as int].args@.subrange(0, i as int),
            decreases n - i,
        {
            let a = self.ctx.items[item.0].args[i];
            args.push(a);
            i += 1;
        }
        proof {
            assert(args@ =~= self.ctx.items@[item.0 as int].args@);
        }
        let ret = self.ctx.items[item.0].ret;
        proof {
            let itv = self.ctx.items_v()[item.0 as int];
            assert(itv.ret.0 < self.ctx.types.len() && forall|a: int|
                0 <= a < itv.args.len() ==> (#[trigger] itv.args[a]).0 < self.ctx.types.len());
        }
        let ty = self.ctx.intern_type(TyKind::FnTy(args, ret));
        let e = Expr {
            kind: ExprKind::Func(item),
            ty,
            category: ValueCategory::LValue,
            is_const: true,
        };
        proof {
            assert(self.ctx.items_v()[item.0 as int] == old(self).ctx.items_v()[item.0 as int]);
        }
        let r = self.ctx.alloc_expr(e);
        r
    }

    /// A projection of a tuple element: a view of the operand, so value
    /// category and constness are inherited unchanged; the element type
    /// is supplied by the caller.
    pub fn tuple_index(&mut self, tuple: ExprId, index: usize, typ: TyId) -> (r: ExprId)
        requires
            old(self).wf(),
            tuple.0 < old(self).ctx.exprs.len(),
            typ.0 < old(self).ctx.types.len(),
        ensures
            final(self).wf(),
            r.0 == old(self).ctx.exprs.len(),
            pushed(
                old(self).ctx,
                final(self).ctx,
                (ExprV {
                    kind: ExprKindV::TupleIndex(tuple, index),
                    ty: typ,
                    category: old(self).ctx.exprs_v()[tuple.0 as int].category,
                    is_const: old(self).ctx.exprs_v()[tuple.0 as int].is_const,
                }),
            ),
    {
        let e = Expr {
            kind: ExprKind::TupleIndex(tuple, index),
            ty: typ,
            category: self.ctx.exprs[tuple.0].category,
            is_const: self.ctx.exprs[tuple.0].is_const,
        };
        self.ctx.alloc_expr(e)
    }

    /// A projection of a named field: a view of the operand, like
    /// `tuple_index`.
    pub fn field(&mut self, obj: ExprId, field_id: IrId, typ: TyId) -> (r: ExprId)
        requires
            old(self).wf(),
            obj.0 < old(self).ctx.exprs.len(),
            typ.0 < old(self).ctx.types.len(),
        ensures
            final(self).wf(),
            r.0 == old(self).ctx.exprs.len(),
            pushed(
                old(self).ctx,
                final(self).ctx,
                (ExprV {
                    kind: ExprKindV::Field(obj, field_id),
                    ty: typ,
                    category: old(self).ctx.exprs_v()[obj.0 as int].category,
                    is_const: old(self).ctx.exprs_v()[obj.0 as int].is_const,
                }),
            ),
    {
        let e = Expr {
            kind: ExprKind::Field(obj, field_id),
            ty: typ,
            category: self.ctx.exprs[obj.0].category,
            is_const: self.ctx.exprs[obj.0].is_const,
        };
        self.ctx.alloc_expr(e)
    }

    /// Dereferences a pointer-typed expression; the result is an LValue
    /// of the pointee type, const iff the pointee type is const.  The
    /// operand's type must be a pointer: types are assumed already
    /// checked, so any other operand is excluded here.
    pub fn deref(&mut self, inner: ExprId) -> (r: ExprId)
        requires
            old(self).wf(),
            inner.0 < old(self).ctx.exprs.len(),
            old(self).ctx.types_v()[old(self).ctx.exprs_v()[inner.0 as int].ty.0 as int]
                is Pointer,
        ensures
            final(self).wf(),
            r.0 == old(self).ctx.exprs.len(),
            ({
                let pt = old(self).ctx.types_v()[old(self).ctx.exprs_v()[inner.0 as int].ty.0
                    as int];
                pushed(
                    old(self).ctx,
                    final(self).ctx,
                    (ExprV {
                        kind: ExprKindV::Deref(inner),
                        ty: pt->Pointer_0,
                        category: ValueCategory::LValue,
                        is_const: pt->Pointer_1,
                    }),
                )
            }),
    {
        proof {
            assert(expr_wf(
                self.ctx.exprs_v(),
                self.ctx.types_v(),
                self.ctx.items_v(),
                self.ctx.void_ty,
                self.ctx.never_ty,
                inner.0 as int,
            ));
        }
        let (t, c) = match &self.ctx.types[self.ctx.exprs[inner.0].ty.0] {
            TyKind::Pointer(t, c) => (*t, *c),
            _ => vstd::pervasive::unreached(),
        };
        let e = Expr {
            kind: ExprKind::Deref(inner),
            ty: t,
            category: ValueCategory::LValue,
            is_const: c,
        };
        self.ctx.alloc_expr(e)
    }

    /// Takes the address of an LValue; the result is an RValue whose
    /// type is a pointer to the operand's type, const iff the operand
    /// is.  A non-LValue operand is excluded here: reference-taking
    /// from a transient value is an internal invariant violation.
    pub fn ref_to(&mut self, inner: ExprId) -> (r: ExprId)
        requires
            old(self).wf(),
            inner.0 < old(self).ctx.exprs.len(),
            old(self).ctx.exprs_v()[inner.0 as int].category == ValueCategory::LValue,
        ensures
            final(self).wf(),
            r.0 == old(self).ctx.exprs.len(),
            final(self).ctx.same_tables(&old(self).ctx),
            old(self).ctx.types.len() <= final(self).ctx.types.len(),
            final(self).ctx.types_v().subrange(0, old(self).ctx.types.len() as int) =~= old(
                self,
            ).ctx.types_v(),
            final(self).ctx.exprs_v().subrange(0, old(self).ctx.exprs.len() as int) =~= old(
                self,
            ).ctx.exprs_v(),
            final(self).ctx.exprs_v().len() == old(self).ctx.exprs.len() + 1,
            ({
                let e = final(self).ctx.exprs_v()[r.0 as int];
                &&& e.kind == ExprKindV::Ref(inner)
                &&& e.category == ValueCategory::RValue
                &&& !e.is_const
                &&& final(self).ctx.types_v()[e.ty.0 as int] == TyKindV::Pointer(
                    old(self).ctx.exprs_v()[inner.0 as int].ty,
                    old(self).ctx.exprs_v()[inner.0 as int].is_const,
                )
            }),
    {
        proof {
            assert(expr_wf(
                self.ctx.exprs_v(),
                self.ctx.types_v(),
                self.ctx.items_v(),
                self.ctx.void_ty,
                self.ctx.never_ty,
                inner.0 as int,
            ));
        }
        let inner_ty = self.ctx.exprs[inner.0].ty;
        let inner_const = self.ctx.exprs[inner.0].is_const;
        let ty = self.ctx.intern_type(TyKind::Pointer(inner_ty, inner_const));
        let e = Expr {
            kind: ExprKind::Ref(inner),
            ty,
            category: ValueCategory::RValue,
            is_const: false,
        };
        self.ctx.alloc_expr(e)
    }

    /// Indexes a pointer- or array-typed expression; the result is an
    /// LValue of the element type.  For a pointer the result's
    /// constness is the type-level constness of the pointee; for an
    /// array it is the array expression's own constness (array
    /// mutability is a property of the binding, pointer mutability of
    /// the pointee type).  Any other operand type is excluded here.
    pub fn index(&mut self, inner: ExprId, idx: ExprId) -> (r: ExprId)
        requires
            old(self).wf(),
            inner.0 < old(self).ctx.exprs.len(),
            idx.0 < old(self).ctx.exprs.len(),
            old(self).ctx.types_v()[old(self).ctx.exprs_v()[inner.0 as int].ty.0 as int]
                is Pointer || old(self).ctx.types_v()[old(self).ctx.exprs_v()[inner.0
                as int].ty.0 as int] is Array,
        ensures
            final(self).wf(),
            r.0 == old(self).ctx.exprs.len(),
            ({
                let it = old(self).ctx.types_v()[old(self).ctx.exprs_v()[inner.0 as int].ty.0
                    as int];
                match it {
                    TyKindV::Pointer(p, c) => pushed(
                        old(self).ctx,
                        final(self).ctx,
                        (ExprV {
                            kind: ExprKindV::Index(inner, idx),
                            ty: p,
                            category: ValueCategory::LValue,
                            is_const: c,
                        }),
                    ),
                    TyKindV::Array(p, _) => pushed(
                        old(self).ctx,
                        final(self).ctx,
                        (ExprV {
                            kind: ExprKindV::Index(inner, idx),
                            ty: p,
                            category: ValueCategory::LValue,
                            is_const: old(self).ctx.exprs_v()[inner.0 as int].is_const,
                        }),
                    ),
                    _ => false,
                }
            }),
    {
        proof {
            assert(expr_wf(
                self.ctx.exprs_v(),
                self.ctx.types_v(),
                self.ctx.items_v(),
                self.ctx.void_ty,
                self.ctx.never_ty,
                inner.0 as int,
            ));
        }
        let (t, c) = match &self.ctx.types[self.ctx.exprs[inner.0].ty.0] {
            TyKind::Pointer(t, c) => (*t, *c),
            TyKind::Array(t, _) => (*t, self.ctx.exprs[inner.0].is_const),
            _ => vstd::pervasive::unreached(),
        };
        let e = Expr {
            kind: ExprKind::Index(inner, idx),
            ty: t,
            category: ValueCategory::LValue,
            is_const: c,
        };
        self.ctx.alloc_expr(e)
    }
}

impl ExpressionBuilder {
    /// Walks a candidate statement list, appending its canonical form
    /// to `target`: nested block statements are inlined recursively,
    /// pure statements dropped, and the walk stops at the first
    /// divergent expression-statement, which is returned.
    fn fill_block(
        ctx: &IrCtx,
        target: &mut Vec<Statement>,
        stmts: &Vec<Statement>,
        Ghost(bound): Ghost<nat>,
    ) -> (r: Option<ExprId>)
        requires
            ctx.wf(),
            ids_below(stmts@, bound),
            bound <= ctx.exprs.len(),
        ensures
            ({
                let c = canon_from(ctx.exprs_v(), ctx.never_ty, stmts@, bound);
                &&& final(target)@ =~= old(target)@ + c.0
                &&& r == c.1
            }),
        decreases bound, stmts@.len(),
    {
        let ghost es = ctx.exprs_v();
        let ghost nv = ctx.never_ty;
        let n = stmts.len();
        proof {
            assert(stmts@.subrange(0, n as int) =~= stmts@);
            assert(target@.subrange(0, old(target)@.len() as int) =~= old(target)@);
            assert(target@.subrange(old(target)@.len() as int, target@.len() as int)
                =~= Seq::<Statement>::empty());
            assert(Seq::<Statement>::empty() + canon_from(es, nv, stmts@, bound).0
                =~= canon_from(es, nv, stmts@, bound).0);
        }
        let mut i: usize = 0;
        while i < n
            invariant
                ctx.wf(),
                ids_below(stmts@, bound),
                bound <= ctx.exprs.len(),
                es == ctx.exprs_v(),
                nv == ctx.never_ty,
                n == stmts@.len(),
                i <= n,
                target@.len() >= old(target)@.len(),
                target@.subrange(0, old(target)@.len() as int) =~= old(target)@,
                canon_from(es, nv, stmts@, bound) == {
                    let c_rem = canon_from(
                        es,
                        nv,
                        stmts@.subrange(i as int, n as int),
                        bound,
                    );
                    (
                        (target@.subrange(old(target)@.len() as int, target@.len() as int)
                            + c_rem.0),
                        c_rem.1,
                    )
                },
            decreases n - i,
        {
            let ghost rem = stmts@.subrange(i as int, n as int);
            let ghost rem1 = stmts@.subrange(i + 1 as int, n as int);
            proof {
                assert(rem.len() > 0);
                assert(rem[0] == stmts@[i as int]);
                assert(rem.drop_first() =~= rem1);
            }
            let s = stmts[i];
            let Statement::Expression(e) = s;
            if ctx.expr_diverges(e) {
                proof {
                    let c = canon_from(es, nv, stmts@, bound);
                    assert(canon_from(es, nv, rem, bound).0 =~= Seq::<Statement>::empty());
                    assert(target@.subrange(old(target)@.len() as int, target@.len() as int)
                        + Seq::<Statement>::empty() =~= target@.subrange(
                        old(target)@.len() as int,
                        target@.len() as int,
                    ));
                    assert(old(target)@ + target@.subrange(
                        old(target)@.len() as int,
                        target@.len() as int,
                    ) =~= target@);
                }
                return Some(e);
            }
            let is_blk = match &ctx.exprs[e.0].kind {
                ExprKind::Block(_, _) => true,
                _ => false,
            };
            if is_blk {
                proof {
                    assert(expr_wf(
                        es,
                        ctx.types_v(),
                        ctx.items_v(),
                        ctx.void_ty,
                        ctx.never_ty,
                        e.0 as int,
                    ));
                }
                if let ExprKind::Block(inner, iret) = &ctx.exprs[e.0].kind {
                    proof {
                        assert(es[e.0 as int].kind == ExprKindV::Block(inner@, *iret));
                        assert(crate::ir::block_stmts_at(es, e) == inner@);
                        assert(crate::ir::block_ret_at(es, e) == *iret);
                        assert(ids_below(inner@, e.0 as nat));
                        assert(e.0 < bound);
                    }
                    let ghost pre = target@;
                    let sub = Self::fill_block(ctx, target, inner, Ghost(e.0 as nat));
                    let ghost c_in = canon_from(es, nv, inner@, e.0 as nat);
                    match sub {
                        Some(d) => {
                            proof {
                                assert(canon_from(es, nv, rem, bound) == c_in);
                                assert(target@ =~= pre + c_in.0);
                                assert(target@.subrange(0, old(target)@.len() as int) =~= old(
                                    target,
                                )@);
                                assert(target@.subrange(
                                    old(target)@.len() as int,
                                    target@.len() as int,
                                ) =~= pre.subrange(old(target)@.len() as int, pre.len() as int)
                                    + c_in.0);
                                let c = canon_from(es, nv, stmts@, bound);
                                assert(c.0 =~= pre.subrange(
                                    old(target)@.len() as int,
                                    pre.len() as int,
                                ) + c_in.0);
                                assert(old(target)@ + c.0 =~= target@);
                            }
                            return Some(d);
                        },
                        None => {
                            target.push(Statement::Expression(*iret));
                            proof {
                                let delta_pre = pre.subrange(
                                    old(target)@.len() as int,
                                    pre.len() as int,
                                );
                                let st = seq![Statement::Expression(*iret)];
                                assert(target@ =~= pre + c_in.0 + st);
                                assert(target@.subrange(0, old(target)@.len() as int) =~= old(
                                    target,
                                )@);
                                let delta = target@.subrange(
                                    old(target)@.len() as int,
                                    target@.len() as int,
                                );
                                assert(delta =~= delta_pre + c_in.0 + st);
                                let c_rem1 = canon_from(es, nv, rem1, bound);
                                assert(canon_from(es, nv, rem, bound) == (
                                    (c_in.0 + st + c_rem1.0),
                                    c_rem1.1,
                                ));
                                assert(delta_pre + (c_in.0 + st + c_rem1.0) =~= delta
                                    + c_rem1.0);
                            }
                        },
                    }
                }
            } else if ctx.expr_pure(e) {
                proof {
                    assert(canon_from(es, nv, rem, bound) == canon_from(es, nv, rem1, bound));
                }
            } else {
                target.push(s);
                proof {
                    let delta = target@.subrange(
                        old(target)@.len() as int,
                        target@.len() as int,
                    );
                    let c_rem1 = canon_from(es, nv, rem1, bound);
                    assert(canon_from(es, nv, rem, bound) == (
                        (seq![s] + c_rem1.0),
                        c_rem1.1,
                    ));
                    assert(target@.subrange(0, old(target)@.len() as int) =~= old(target)@);
                    assert(delta.drop_last() + (seq![s] + c_rem1.0) =~= delta + c_rem1.0);
                }
            }
            i += 1;
        }
        proof {
            let c = canon_from(es, nv, stmts@, bound);
            assert(stmts@.subrange(i as int, n as int).len() == 0);
            assert(canon_from(es, nv, stmts@.subrange(i as int, n as int), bound).0
                =~= Seq::<Statement>::empty());
            let delta = target@.subrange(old(target)@.len() as int, target@.len() as int);
            assert(delta + Seq::<Statement>::empty() =~= delta);
            assert(old(target)@ + delta =~= target@);
        }
        None
    }

    /// Builds a canonical block from a candidate statement list and a
    /// trailing result expression.  If a statement diverges, everything
    /// after it (including `ret`) is discarded and that expression
    /// becomes the result; if nothing remains, the result expression is
    /// returned directly and no block node is allocated.
    #[verifier::rlimit(60)]
    pub fn block(&mut self, statements: Vec<Statement>, ret: ExprId) -> (r: ExprId)
        requires
            old(self).wf(),
            ids_below(statements@, old(self).ctx.exprs.len() as nat),
            ret.0 < old(self).ctx.exprs.len(),
        ensures
            final(self).wf(),
            final(self).ctx.types_v() =~= old(self).ctx.types_v(),
            final(self).ctx.same_tables(&old(self).ctx),
            r.0 < final(self).ctx.exprs.len(),
            ({
                let es = old(self).ctx.exprs_v();
                let nv = old(self).ctx.never_ty;
                let c = canon(es, nv, statements@);
                let res = if c.1 is Some {
                    c.1->0
                } else {
                    ret
                };
                if c.0.len() == 0 {
                    &&& r == res
                    &&& final(self).ctx == old(self).ctx
                } else {
                    &&& r.0 == es.len()
                    &&& final(self).ctx.exprs_v() =~= es.push(
                        (ExprV {
                            kind: ExprKindV::Block(c.0, res),
                            ty: es[res.0 as int].ty,
                            category: ValueCategory::RValue,
                            is_const: false,
                        }),
                    )
                }
            }),
    {
        let ghost es = self.ctx.exprs_v();
        let ghost nv = self.ctx.never_ty;
        let ghost bound = self.ctx.exprs.len() as nat;
        let mut merged: Vec<Statement> = Vec::new();
        let d = Self::fill_block(&self.ctx, &mut merged, &statements, Ghost(bound));
        proof {
            lemma_wf_implies_blocks_wf(self.ctx);
            lemma_canon_ids_below(es, nv, statements@, bound);
            assert(merged@ =~= canon(es, nv, statements@).0);
        }
        let res = match d {
            Some(e) => e,
            None => ret,
        };
        if merged.len() == 0 {
            return res;
        }
        proof {
            assert(expr_wf(
                es,
                self.ctx.types_v(),
                self.ctx.items_v(),
                self.ctx.void_ty,
                self.ctx.never_ty,
                res.0 as int,
            ));
        }
        let ty = self.ctx.exprs[res.0].ty;
        let e = Expr {
            kind: ExprKind::Block(merged, res),
            ty,
            category: ValueCategory::RValue,
            is_const: false,
        };
        proof {
            assert(e@.kind == ExprKindV::Block(canon(es, nv, statements@).0, res));
            assert(expr_wf(
                es.push(e@),
                self.ctx.types_v(),
                self.ctx.items_v(),
                self.ctx.void_ty,
                self.ctx.never_ty,
                es.len() as int,
            )) by {
                assert(es.push(e@)[res.0 as int] == es[res.0 as int]);
            }
        }
        let r = self.ctx.alloc_expr(e);
        r
    }

    /// Builds a Void-result block from a sequence of expression
    /// statements that is known a priori to diverge; the result is the
    /// divergent expression's block.  A list that does not diverge is a
    /// caller error and is excluded here.
    #[verifier::rlimit(60)]
    pub fn diverges(&mut self, exprs: Vec<ExprId>) -> (r: ExprId)
        requires
            old(self).wf(),
            forall|j: int|
                0 <= j < exprs@.len() ==> (#[trigger] exprs@[j]).0 < old(self).ctx.exprs.len(),
            canon(
                old(self).ctx.exprs_v(),
                old(self).ctx.never_ty,
                exprs@.map(|j: int, e: ExprId| Statement::Expression(e)),
            ).1 is Some,
        ensures
            final(self).wf(),
            final(self).ctx.types_v() =~= old(self).ctx.types_v(),
            final(self).ctx.same_tables(&old(self).ctx),
            r.0 < final(self).ctx.exprs.len(),
            diverges_at(final(self).ctx.exprs_v(), final(self).ctx.never_ty, r),
            ({
                let es = old(self).ctx.exprs_v();
                let nv = old(self).ctx.never_ty;
                let c = canon(es, nv, exprs@.map(|j: int, e: ExprId| Statement::Expression(e)));
                let ve = (ExprV {
                    kind: ExprKindV::Void,
                    ty: old(self).ctx.void_ty,
                    category: ValueCategory::RValue,
                    is_const: false,
                });
                if c.0.len() == 0 {
                    &&& r == c.1->0
                    &&& final(self).ctx.exprs_v() =~= es.push(ve)
                } else {
                    &&& r.0 == es.len() + 1
                    &&& final(self).ctx.exprs_v() =~= es.push(ve).push(
                        (ExprV {
                            kind: ExprKindV::Block(c.0, c.1->0),
                            ty: nv,
                            category: ValueCategory::RValue,
                            is_const: false,
                        }),
                    )
                }
            }),
    {
        let ghost es = self.ctx.exprs_v();
        let ghost nv = self.ctx.never_ty;
        let ghost n0 = self.ctx.exprs.len() as nat;
        let n = exprs.len();
        let mut stmts: Vec<Statement> = Vec::new();
        let mut i: usize = 0;
        while i < n
            invariant
                n == exprs@.len(),
                i <= n,
                stmts@.len() == i,
                forall|j: int|
                    0 <= j < i ==> #[trigger] stmts@[j] == Statement::Expression(exprs@[j]),
            decreases n - i,
        {
            stmts.push(Statement::Expression(exprs[i]));
            i += 1;
        }
        let ghost sv = exprs@.map(|j: int, e: ExprId| Statement::Expression(e));
        proof {
            assert(stmts@ =~= sv);
            assert(ids_below(sv, n0));
        }
        let v = self.void();
        proof {
            lemma_wf_implies_blocks_wf(old(self).ctx);
            lemma_canon_stable(es, self.ctx.exprs_v(), nv, sv, n0);
            lemma_canon_bound_irrelevant(
                self.ctx.exprs_v(),
                nv,
                sv,
                n0,
                self.ctx.exprs_v().len() as nat,
            );
            lemma_canon_ids_below(es, nv, sv, n0);
            assert(canon(self.ctx.exprs_v(), nv, sv) == canon(es, nv, sv));
        }
        let ghost mid = self.ctx.exprs_v();
        let r = self.block(stmts, v);
        proof {
            let c = canon(es, nv, sv);
            let d = c.1->0;
            assert(diverges_at(es, nv, d));
            if c.0.len() == 0 {
                assert(self.ctx.exprs_v() =~= es.push(
                    ExprV {
                        kind: ExprKindV::Void,
                        ty: old(self).ctx.void_ty,
                        category: ValueCategory::RValue,
                        is_const: false,
                    },
                ));
                assert(self.ctx.exprs_v()[d.0 as int] == es[d.0 as int]);
            } else {
                assert(mid[d.0 as int] == es[d.0 as int]);
                assert(self.ctx.exprs_v()[r.0 as int].ty == mid[d.0 as int].ty);
            }
        }
        r
    }
}

} // verus!
