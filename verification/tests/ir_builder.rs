use semcore::builder::ExpressionBuilder;
use semcore::ir::{ExprKind, IrCtx, IrId, Statement, TyKind, ValueCategory};

fn builder() -> ExpressionBuilder {
    ExpressionBuilder::new(IrCtx::new())
}

#[test]
fn interning_is_idempotent() {
    let mut ctx = IrCtx::new();
    let v1 = ctx.intern_type(TyKind::Void);
    let v2 = ctx.intern_type(TyKind::Void);
    assert_eq!(v1, v2);
    let p1 = ctx.intern_type(TyKind::Pointer(v1, false));
    let p2 = ctx.intern_type(TyKind::Pointer(v1, false));
    assert_eq!(p1, p2);
    let p3 = ctx.intern_type(TyKind::Pointer(v1, true));
    assert_ne!(p1, p3);
}

#[test]
fn void_and_assign_are_void_rvalues() {
    let mut b = builder();
    let v = b.void();
    let lhs = b.local(IrId(0), b.ctx.void_ty);
    let a = b.assign(lhs, v);
    let ve = &b.ctx.exprs[v.0];
    assert_eq!(ve.ty, b.ctx.void_ty);
    assert_eq!(ve.category, ValueCategory::RValue);
    assert!(!ve.is_const);
    let ae = &b.ctx.exprs[a.0];
    assert_eq!(ae.ty, b.ctx.void_ty);
    assert_eq!(ae.category, ValueCategory::RValue);
    assert!(matches!(ae.kind, ExprKind::Assign(l, r) if l == lhs && r == v));
}

#[test]
fn unreachable_is_divergent() {
    let mut b = builder();
    let u = b.unreachable();
    assert_eq!(b.ctx.exprs[u.0].ty, b.ctx.never_ty);
    assert!(b.ctx.expr_diverges(u));
}

#[test]
fn function_synthesizes_fn_type() {
    let mut b = builder();
    let void_ty = b.ctx.void_ty;
    let item = b.ctx.add_function(vec![void_ty], void_ty);
    let f = b.function(item);
    let fe = &b.ctx.exprs[f.0];
    assert_eq!(fe.category, ValueCategory::LValue);
    assert!(fe.is_const);
    match &b.ctx.types[fe.ty.0] {
        TyKind::FnTy(args, ret) => {
            assert_eq!(args.as_slice(), &[void_ty]);
            assert_eq!(*ret, void_ty);
        },
        _ => panic!("expected a function type"),
    }
}

#[test]
fn deref_follows_pointee_constness() {
    let mut b = builder();
    let void_ty = b.ctx.void_ty;
    let mut_ptr = b.ctx.intern_type(TyKind::Pointer(void_ty, false));
    let const_ptr = b.ctx.intern_type(TyKind::Pointer(void_ty, true));
    let pm = b.local(IrId(0), mut_ptr);
    let pc = b.local(IrId(1), const_ptr);
    let dm = b.deref(pm);
    let dc = b.deref(pc);
    assert_eq!(b.ctx.exprs[dm.0].ty, void_ty);
    assert_eq!(b.ctx.exprs[dm.0].category, ValueCategory::LValue);
    assert!(!b.ctx.exprs[dm.0].is_const);
    assert_eq!(b.ctx.exprs[dc.0].category, ValueCategory::LValue);
    assert!(b.ctx.exprs[dc.0].is_const);
}

#[test]
fn ref_builds_pointer_to_operand() {
    let mut b = builder();
    let void_ty = b.ctx.void_ty;
    let l = b.local(IrId(0), void_ty);
    let r = b.ref_to(l);
    let re = &b.ctx.exprs[r.0];
    assert_eq!(re.category, ValueCategory::RValue);
    assert!(!re.is_const);
    assert!(matches!(b.ctx.types[re.ty.0], TyKind::Pointer(t, false) if t == void_ty));
}

#[test]
fn index_constness_is_type_level_for_pointers_binding_level_for_arrays() {
    let mut b = builder();
    let void_ty = b.ctx.void_ty;
    let usz = b.ctx.intern_type(TyKind::Array(void_ty, 4));
    let const_ptr = b.ctx.intern_type(TyKind::Pointer(void_ty, true));
    let idx = b.void();
    // Pointer: the result picks up the type-level constness even
    // though the binding itself is mutable.
    let p = b.local(IrId(0), const_ptr);
    assert!(!b.ctx.exprs[p.0].is_const);
    let ip = b.index(p, idx);
    assert!(b.ctx.exprs[ip.0].is_const);
    assert_eq!(b.ctx.exprs[ip.0].category, ValueCategory::LValue);
    // Array: the result picks up the binding-level constness; the
    // array's element type says nothing about it.
    let a = b.local(IrId(1), usz);
    let ia = b.index(a, idx);
    assert!(!b.ctx.exprs[ia.0].is_const);
    // A const-LValue view of an array (through a const pointer to it)
    // yields a const element.
    let pa = b.ctx.intern_type(TyKind::Pointer(usz, true));
    let lpa = b.local(IrId(2), pa);
    let da = b.deref(lpa);
    assert!(b.ctx.exprs[da.0].is_const);
    let ica = b.index(da, idx);
    assert!(b.ctx.exprs[ica.0].is_const);
}

#[test]
fn projections_inherit_category_and_constness() {
    let mut b = builder();
    let void_ty = b.ctx.void_ty;
    let const_ptr = b.ctx.intern_type(TyKind::Pointer(void_ty, true));
    let l = b.local(IrId(0), const_ptr);
    let viewed = b.deref(l);
    let t = b.tuple_index(viewed, 1, void_ty);
    let f = b.field(viewed, IrId(7), void_ty);
    assert_eq!(b.ctx.exprs[t.0].category, ValueCategory::LValue);
    assert!(b.ctx.exprs[t.0].is_const);
    assert_eq!(b.ctx.exprs[f.0].category, ValueCategory::LValue);
    assert!(b.ctx.exprs[f.0].is_const);
    let rv = b.void();
    let t2 = b.tuple_index(rv, 0, void_ty);
    assert_eq!(b.ctx.exprs[t2.0].category, ValueCategory::RValue);
    assert!(!b.ctx.exprs[t2.0].is_const);
}

#[test]
fn block_keeps_canonical_statements_unchanged() {
    let mut b = builder();
    let v1 = b.void();
    let l1 = b.local(IrId(0), b.ctx.void_ty);
    let a1 = b.assign(l1, v1);
    let v2 = b.void();
    let l2 = b.local(IrId(1), b.ctx.void_ty);
    let a2 = b.assign(l2, v2);
    let ret = b.void();
    let stmts = vec![Statement::Expression(a1), Statement::Expression(a2)];
    let blk = b.block(stmts.clone(), ret);
    match &b.ctx.exprs[blk.0].kind {
        ExprKind::Block(kept, r) => {
            assert_eq!(kept, &stmts);
            assert_eq!(*r, ret);
        },
        _ => panic!("expected a block"),
    }
    assert_eq!(b.ctx.exprs[blk.0].ty, b.ctx.void_ty);
    // Re-canonicalizing the canonical statement list gives the same
    // block again.
    let blk2 = b.block(stmts.clone(), ret);
    match &b.ctx.exprs[blk2.0].kind {
        ExprKind::Block(kept, r) => {
            assert_eq!(kept, &stmts);
            assert_eq!(*r, ret);
        },
        _ => panic!("expected a block"),
    }
}

#[test]
fn block_divergence_discards_rest_and_result() {
    let mut b = builder();
    let v1 = b.void();
    let l1 = b.local(IrId(0), b.ctx.void_ty);
    let a1 = b.assign(l1, v1);
    let u = b.unreachable();
    let v2 = b.void();
    let l2 = b.local(IrId(1), b.ctx.void_ty);
    let a2 = b.assign(l2, v2);
    let ret = b.void();
    let blk = b.block(
        vec![
            Statement::Expression(a1),
            Statement::Expression(u),
            Statement::Expression(a2),
        ],
        ret,
    );
    match &b.ctx.exprs[blk.0].kind {
        ExprKind::Block(kept, r) => {
            // Only the statement before the divergent one survives,
            // and the divergent expression replaces the result.
            assert_eq!(kept, &vec![Statement::Expression(a1)]);
            assert_eq!(*r, u);
        },
        _ => panic!("expected a block"),
    }
    assert_eq!(b.ctx.exprs[blk.0].ty, b.ctx.never_ty);
}

#[test]
fn block_flattens_nested_block_statement() {
    let mut b = builder();
    // s1; s2 and an inner result r, none of them pure or divergent.
    let v1 = b.void();
    let l1 = b.local(IrId(0), b.ctx.void_ty);
    let s1 = b.assign(l1, v1);
    let v2 = b.void();
    let l2 = b.local(IrId(1), b.ctx.void_ty);
    let s2 = b.assign(l2, v2);
    let v3 = b.void();
    let l3 = b.local(IrId(2), b.ctx.void_ty);
    let r = b.assign(l3, v3);
    let inner = b.block(
        vec![Statement::Expression(s1), Statement::Expression(s2)],
        r,
    );
    let ret_a = b.void();
    let blk_a = b.block(vec![Statement::Expression(inner)], ret_a);
    let ret_b = b.void();
    let blk_b = b.block(
        vec![
            Statement::Expression(s1),
            Statement::Expression(s2),
            Statement::Expression(r),
        ],
        ret_b,
    );
    let (kept_a, res_a) = match &b.ctx.exprs[blk_a.0].kind {
        ExprKind::Block(kept, res) => (kept.clone(), *res),
        _ => panic!("expected a block"),
    };
    let (kept_b, res_b) = match &b.ctx.exprs[blk_b.0].kind {
        ExprKind::Block(kept, res) => (kept.clone(), *res),
        _ => panic!("expected a block"),
    };
    assert_eq!(kept_a, kept_b);
    assert_eq!(
        kept_a,
        vec![
            Statement::Expression(s1),
            Statement::Expression(s2),
            Statement::Expression(r),
        ]
    );
    assert_eq!(res_a, ret_a);
    assert_eq!(res_b, ret_b);
}

#[test]
fn block_with_single_pure_statement_returns_result_directly() {
    let mut b = builder();
    let pure_stmt = b.void();
    let ret = b.void();
    let before = b.ctx.exprs.len();
    let blk = b.block(vec![Statement::Expression(pure_stmt)], ret);
    // No block node is allocated: the result expression comes back
    // unchanged.
    assert_eq!(blk, ret);
    assert_eq!(b.ctx.exprs.len(), before);
}

#[test]
fn diverges_returns_the_divergent_expression() {
    let mut b = builder();
    let u = b.unreachable();
    let r = b.diverges(vec![u]);
    // The lone statement already diverges, so nothing is kept and the
    // divergent expression itself is the result.
    assert_eq!(r, u);
    assert!(b.ctx.expr_diverges(r));
}

#[test]
fn diverges_keeps_leading_statements() {
    let mut b = builder();
    let v = b.void();
    let l = b.local(IrId(0), b.ctx.void_ty);
    let a = b.assign(l, v);
    let u = b.unreachable();
    let r = b.diverges(vec![a, u]);
    assert!(b.ctx.expr_diverges(r));
    match &b.ctx.exprs[r.0].kind {
        ExprKind::Block(kept, res) => {
            assert_eq!(kept, &vec![Statement::Expression(a)]);
            assert_eq!(*res, u);
        },
        _ => panic!("expected a block"),
    }
}
