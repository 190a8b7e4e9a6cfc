//! The mathematical model of block canonicalization.
//!
//! [`canon_from`] mirrors what building a block does to a candidate
//! statement list: it stops at the first statically divergent
//! expression-statement, inlines nested block statements (recursively,
//! appending the inner result as a trailing expression-statement),
//! drops pure no-op statements, and keeps everything else in order.
//! It returns the accumulated statement list together with the
//! divergent expression that stopped it, if any.

use vstd::prelude::*;

use crate::ir::{
    ExprId, ExprKindV, ExprV, IrCtx, Statement, TyId, block_ret_at, block_stmts_at, diverges_at,
    expr_wf, is_block_at, pure_at, stmt_expr,
};

verus! {

/// Every statement's expression handle stays below `bound`.
pub open spec fn ids_below(stmts: Seq<Statement>, bound: nat) -> bool {
    forall|j: int| 0 <= j < stmts.len() ==> stmt_expr(#[trigger] stmts[j]).0 < bound
}

/// The structural facts canonicalization relies on: a block node's
/// statements and result come strictly earlier in the arena, and the
/// block's type is its result's type.
pub open spec fn blocks_wf(es: Seq<ExprV>) -> bool {
    forall|i: int| 0 <= i < es.len() ==> match (#[trigger] es[i]).kind {
        ExprKindV::Block(ss, ret) => {
            &&& ret.0 < i
            &&& ids_below(ss, i as nat)
            &&& es[i].ty == es[ret.0 as int].ty
        },
        _ => true,
    }
}

/// The full context invariant implies the structural facts above.
pub proof fn lemma_wf_implies_blocks_wf(ctx: IrCtx)
    requires
        ctx.wf(),
    ensures
        blocks_wf(ctx.exprs_v()),
{
    let es = ctx.exprs_v();
    assert forall|i: int| 0 <= i < es.len() implies match (#[trigger] es[i]).kind {
        ExprKindV::Block(ss, ret) => {
            &&& ret.0 < i
            &&& ids_below(ss, i as nat)
            &&& es[i].ty == es[ret.0 as int].ty
        },
        _ => true,
    } by {
        assert(expr_wf(es, ctx.types_v(), ctx.items_v(), ctx.void_ty, ctx.never_ty, i));
    }
}

/// Canonicalizes a statement list against the arena `es`, recursing
/// into nested blocks with the nested block's own handle as the new
/// bound (every handle a nested block mentions is smaller than the
/// block's).  Returns the kept statements and the divergent expression
/// that short-circuited the walk, if any.
pub open spec fn canon_from(
    es: Seq<ExprV>,
    never_ty: TyId,
    stmts: Seq<Statement>,
    bound: nat,
) -> (Seq<Statement>, Option<ExprId>)
    decreases bound, stmts.len(),
{
    if stmts.len() == 0 {
        (Seq::<Statement>::empty(), None::<ExprId>)
    } else {
        let s0 = stmts[0];
        let e = stmt_expr(s0);
        let rest = stmts.drop_first();
        if diverges_at(es, never_ty, e) {
            (Seq::<Statement>::empty(), Some(e))
        } else if is_block_at(es, e) && (e.0 as nat) < bound {
            let inner = canon_from(es, never_ty, block_stmts_at(es, e), e.0 as nat);
            if inner.1 is Some {
                inner
            } else {
                let tail = canon_from(es, never_ty, rest, bound);
                (
                    inner.0 + seq![Statement::Expression(block_ret_at(es, e))] + tail.0,
                    tail.1,
                )
            }
        } else if pure_at(es, e) {
            canon_from(es, never_ty, rest, bound)
        } else {
            let tail = canon_from(es, never_ty, rest, bound);
            (seq![s0] + tail.0, tail.1)
        }
    }
}

/// Canonicalization of a statement list whose handles all live in the
/// arena.
pub open spec fn canon(es: Seq<ExprV>, never_ty: TyId, stmts: Seq<Statement>) -> (
    Seq<Statement>,
    Option<ExprId>,
) {
    canon_from(es, never_ty, stmts, es.len())
}

/// The bound only steers termination: any bound that covers all the
/// handles in the list gives the same result.
pub proof fn lemma_canon_bound_irrelevant(
    es: Seq<ExprV>,
    never_ty: TyId,
    stmts: Seq<Statement>,
    b1: nat,
    b2: nat,
)
    requires
        blocks_wf(es),
        ids_below(stmts, b1),
        ids_below(stmts, b2),
        b1 <= es.len(),
        b2 <= es.len(),
    ensures
        canon_from(es, never_ty, stmts, b1) == canon_from(es, never_ty, stmts, b2),
    decreases stmts.len(),
{
    if stmts.len() == 0 {
    } else {
        let e = stmt_expr(stmts[0]);
        let rest = stmts.drop_first();
        assert(ids_below(rest, b1) && ids_below(rest, b2)) by {
            assert(forall|j: int|
                0 <= j < rest.len() ==> #[trigger] rest[j] == stmts[j + 1]);
        }
        lemma_canon_bound_irrelevant(es, never_ty, rest, b1, b2);
        let r1 = canon_from(es, never_ty, stmts, b1);
        let r2 = canon_from(es, never_ty, stmts, b2);
        assert(r1.0 =~= r2.0);
    }
}

/// Canonicalizing a concatenation: the left part runs first; if it
/// diverges the right part is never reached, otherwise the kept
/// statements concatenate and the right part decides divergence.
pub proof fn lemma_canon_append(
    es: Seq<ExprV>,
    never_ty: TyId,
    a: Seq<Statement>,
    b: Seq<Statement>,
    bound: nat,
)
    requires
        blocks_wf(es),
        ids_below(a, bound),
        ids_below(b, bound),
        bound <= es.len(),
    ensures
        canon_from(es, never_ty, a + b, bound) == {
            let ca = canon_from(es, never_ty, a, bound);
            let cb = canon_from(es, never_ty, b, bound);
            if ca.1 is Some {
                ca
            } else {
                (ca.0 + cb.0, cb.1)
            }
        },
    decreases a.len(),
{
    let ca = canon_from(es, never_ty, a, bound);
    let cb = canon_from(es, never_ty, b, bound);
    assert(ids_below(a + b, bound));
    if a.len() == 0 {
        assert(a + b =~= b);
        assert(ca.0 =~= Seq::<Statement>::empty());
        if cb.1 is None {
            assert(ca.0 + cb.0 =~= cb.0);
        } else {
            assert(ca.0 + cb.0 =~= cb.0);
        }
    } else {
        let e = stmt_expr(a[0]);
        let arest = a.drop_first();
        assert((a + b)[0] == a[0]);
        assert((a + b).drop_first() =~= arest + b);
        assert(ids_below(arest, bound)) by {
            assert(forall|j: int|
                0 <= j < arest.len() ==> #[trigger] arest[j] == a[j + 1]);
        }
        lemma_canon_append(es, never_ty, arest, b, bound);
        let carest = canon_from(es, never_ty, arest, bound);
        if diverges_at(es, never_ty, e) {
        } else if is_block_at(es, e) && (e.0 as nat) < bound {
            let inner = canon_from(es, never_ty, block_stmts_at(es, e), e.0 as nat);
            if inner.1 is Some {
            } else {
                let st = seq![Statement::Expression(block_ret_at(es, e))];
                if carest.1 is Some {
                    assert(canon_from(es, never_ty, a + b, bound).0 =~= ca.0);
                } else {
                    assert(inner.0 + st + (carest.0 + cb.0) =~= (inner.0 + st + carest.0)
                        + cb.0);
                }
            }
        } else if pure_at(es, e) {
        } else {
            if carest.1 is Some {
            } else {
                assert(seq![a[0]] + (carest.0 + cb.0) =~= (seq![a[0]] + carest.0) + cb.0);
            }
        }
    }
}

/// Canonicalization never reads past the bound, so growing the arena
/// behind it changes nothing.
pub proof fn lemma_canon_stable(
    es1: Seq<ExprV>,
    es2: Seq<ExprV>,
    never_ty: TyId,
    stmts: Seq<Statement>,
    bound: nat,
)
    requires
        blocks_wf(es1),
        ids_below(stmts, bound),
        bound <= es1.len(),
        es1.len() <= es2.len(),
        es2.subrange(0, es1.len() as int) =~= es1,
    ensures
        canon_from(es2, never_ty, stmts, bound) == canon_from(es1, never_ty, stmts, bound),
    decreases bound, stmts.len(),
{
    if stmts.len() == 0 {
    } else {
        let e = stmt_expr(stmts[0]);
        let rest = stmts.drop_first();
        assert(es2[e.0 as int] == es1[e.0 as int]);
        assert(ids_below(rest, bound)) by {
            assert(forall|j: int|
                0 <= j < rest.len() ==> #[trigger] rest[j] == stmts[j + 1]);
        }
        lemma_canon_stable(es1, es2, never_ty, rest, bound);
        if !diverges_at(es1, never_ty, e) && is_block_at(es1, e) && (e.0 as nat) < bound {
            assert(ids_below(block_stmts_at(es1, e), e.0 as nat));
            lemma_canon_stable(es1, es2, never_ty, block_stmts_at(es1, e), e.0 as nat);
        }
        let r1 = canon_from(es1, never_ty, stmts, bound);
        let r2 = canon_from(es2, never_ty, stmts, bound);
        assert(r1.0 =~= r2.0);
    }
}

/// What canonicalization keeps stays below the bound, and the divergent
/// expression it reports is a divergent handle below the bound.
pub proof fn lemma_canon_ids_below(
    es: Seq<ExprV>,
    never_ty: TyId,
    stmts: Seq<Statement>,
    bound: nat,
)
    requires
        blocks_wf(es),
        ids_below(stmts, bound),
        bound <= es.len(),
    ensures
        ids_below(canon_from(es, never_ty, stmts, bound).0, bound),
        canon_from(es, never_ty, stmts, bound).1 matches Some(d) ==> d.0 < bound
            && diverges_at(es, never_ty, d),
    decreases bound, stmts.len(),
{
    if stmts.len() == 0 {
    } else {
        let e = stmt_expr(stmts[0]);
        let rest = stmts.drop_first();
        assert(ids_below(rest, bound)) by {
            assert(forall|j: int|
                0 <= j < rest.len() ==> #[trigger] rest[j] == stmts[j + 1]);
        }
        lemma_canon_ids_below(es, never_ty, rest, bound);
        if !diverges_at(es, never_ty, e) && is_block_at(es, e) && (e.0 as nat) < bound {
            assert(ids_below(block_stmts_at(es, e), e.0 as nat));
            lemma_canon_ids_below(es, never_ty, block_stmts_at(es, e), e.0 as nat);
        }
    }
}

/// A list in canonical form (no divergent statement, no nested block
/// statement, no pure statement) canonicalizes to itself, with no
/// divergence.
pub proof fn lemma_canon_of_canonical(
    es: Seq<ExprV>,
    never_ty: TyId,
    stmts: Seq<Statement>,
    bound: nat,
)
    requires
        ids_below(stmts, bound),
        bound <= es.len(),
        forall|j: int| 0 <= j < stmts.len() ==> !diverges_at(
            es,
            never_ty,
            stmt_expr(#[trigger] stmts[j]),
        ),
        forall|j: int| 0 <= j < stmts.len() ==> !is_block_at(es, stmt_expr(#[trigger] stmts[j])),
        forall|j: int| 0 <= j < stmts.len() ==> !pure_at(es, stmt_expr(#[trigger] stmts[j])),
    ensures
        canon_from(es, never_ty, stmts, bound) == (stmts, None::<ExprId>),
    decreases stmts.len(),
{
    if stmts.len() == 0 {
        assert(canon_from(es, never_ty, stmts, bound).0 =~= stmts);
    } else {
        let rest = stmts.drop_first();
        assert(forall|j: int| 0 <= j < rest.len() ==> #[trigger] rest[j] == stmts[j + 1]);
        lemma_canon_of_canonical(es, never_ty, rest, bound);
        assert(seq![stmts[0]] + rest =~= stmts);
    }
}

/// Idempotence of canonicalization: a statement list already in
/// canonical form — no statically divergent statement, no nested block
/// statement, no pure no-op statement — canonicalizes to itself, so
/// rebuilding a canonical block yields a structurally identical block.
pub proof fn lemma_canonical_block_fixed_point(ctx: IrCtx, stmts: Seq<Statement>)
    requires
        ctx.wf(),
        ids_below(stmts, ctx.exprs_v().len()),
        forall|j: int| 0 <= j < stmts.len() ==> !diverges_at(
            ctx.exprs_v(),
            ctx.never_ty,
            stmt_expr(#[trigger] stmts[j]),
        ),
        forall|j: int| 0 <= j < stmts.len() ==> !is_block_at(
            ctx.exprs_v(),
            stmt_expr(#[trigger] stmts[j]),
        ),
        forall|j: int| 0 <= j < stmts.len() ==> !pure_at(
            ctx.exprs_v(),
            stmt_expr(#[trigger] stmts[j]),
        ),
    ensures
        canon(ctx.exprs_v(), ctx.never_ty, stmts) == (stmts, None::<ExprId>),
{
    lemma_canon_of_canonical(ctx.exprs_v(), ctx.never_ty, stmts, ctx.exprs_v().len());
}

/// Divergence short-circuits: if the statement at position `k` is
/// statically divergent and nothing before it diverges, the
/// canonicalized statement list is exactly the canonicalized prefix
/// before `k`, the result is that statement's expression, and nothing
/// after `k` (nor any supplied trailing result) survives.
pub proof fn lemma_divergence_short_circuit(ctx: IrCtx, stmts: Seq<Statement>, k: int)
    requires
        ctx.wf(),
        ids_below(stmts, ctx.exprs_v().len()),
        0 <= k < stmts.len(),
        diverges_at(ctx.exprs_v(), ctx.never_ty, stmt_expr(stmts[k])),
        canon(ctx.exprs_v(), ctx.never_ty, stmts.subrange(0, k)).1 is None,
    ensures
        canon(ctx.exprs_v(), ctx.never_ty, stmts).0 == canon(
            ctx.exprs_v(),
            ctx.never_ty,
            stmts.subrange(0, k),
        ).0,
        canon(ctx.exprs_v(), ctx.never_ty, stmts).1 == Some(stmt_expr(stmts[k])),
{
    let es = ctx.exprs_v();
    let nv = ctx.never_ty;
    let bound = es.len();
    let prefix = stmts.subrange(0, k);
    let suffix = stmts.subrange(k, stmts.len() as int);
    lemma_wf_implies_blocks_wf(ctx);
    assert(prefix + suffix =~= stmts);
    assert(ids_below(prefix, bound) && ids_below(suffix, bound)) by {
        assert(forall|j: int| 0 <= j < prefix.len() ==> #[trigger] prefix[j] == stmts[j]);
        assert(forall|j: int| 0 <= j < suffix.len() ==> #[trigger] suffix[j] == stmts[j + k]);
    }
    lemma_canon_append(es, nv, prefix, suffix, bound);
    assert(suffix[0] == stmts[k]);
    assert(canon_from(es, nv, suffix, bound) == (
        Seq::<Statement>::empty(),
        Some(stmt_expr(stmts[k])),
    ));
    let cp = canon_from(es, nv, prefix, bound);
    assert(cp.0 + Seq::<Statement>::empty() =~= cp.0);
}

/// A nested block statement flattens: a single statement wrapping
/// `Block(ss, r)` canonicalizes exactly as the statement list
/// `ss ++ [Statement(r)]` does, provided the inner result `r` is
/// itself kept unchanged by canonicalization (it is not divergent, not
/// a block, and not pure).
proof fn lemma_nested_block_flattens_core(es: Seq<ExprV>, nv: TyId, b: ExprId)
    requires
        blocks_wf(es),
        b.0 < es.len(),
        is_block_at(es, b),
        !diverges_at(es, nv, b),
        !diverges_at(es, nv, block_ret_at(es, b)),
        !is_block_at(es, block_ret_at(es, b)),
        !pure_at(es, block_ret_at(es, b)),
        ids_below(block_stmts_at(es, b), b.0 as nat),
    ensures
        canon(es, nv, seq![Statement::Expression(b)]) == canon(
            es,
            nv,
            block_stmts_at(es, b).push(Statement::Expression(block_ret_at(es, b))),
        ),
{
    let bound = es.len();
    let ss = block_stmts_at(es, b);
    let ir = block_ret_at(es, b);
    let st = seq![Statement::Expression(ir)];
    assert(ids_below(ss, bound)) by {
        assert(forall|j: int| 0 <= j < ss.len() ==> stmt_expr(#[trigger] ss[j]).0 < b.0);
    }
    assert(ids_below(st, bound));
    let one = seq![Statement::Expression(b)];
    assert(one[0] == Statement::Expression(b));
    assert(one.drop_first() =~= Seq::<Statement>::empty());
    let inner = canon_from(es, nv, ss, b.0 as nat);
    lemma_canon_bound_irrelevant(es, nv, ss, b.0 as nat, bound);
    let css = canon_from(es, nv, ss, bound);
    assert(inner == css);
    assert(ss.push(Statement::Expression(ir)) =~= ss + st);
    lemma_canon_append(es, nv, ss, st, bound);
    assert(st[0] == Statement::Expression(ir));
    assert(st.drop_first() =~= Seq::<Statement>::empty());
    assert(canon_from(es, nv, st, bound) == ((st + Seq::<Statement>::empty()), None::<ExprId>))
        by {
        reveal_with_fuel(canon_from, 3);
    }
    assert(st + Seq::<Statement>::empty() =~= st);
    if inner.1 is Some {
        assert(canon_from(es, nv, one, bound) == inner);
    } else {
        let tail = canon_from(es, nv, one.drop_first(), bound);
        assert(tail == (Seq::<Statement>::empty(), None::<ExprId>));
        assert(canon_from(es, nv, one, bound) == ((inner.0 + st + tail.0), tail.1));
        assert(inner.0 + st + tail.0 =~= css.0 + st);
    }
}

/// A nested block statement flattens: a single statement wrapping
/// `Block(ss, r)` canonicalizes exactly as the statement list
/// `ss ++ [Statement(r)]` does, provided the inner result `r` is
/// itself kept unchanged by canonicalization (it is not divergent, not
/// a block, and not pure).
pub proof fn lemma_nested_block_flattens(ctx: IrCtx, b: ExprId)
    requires
        ctx.wf(),
        b.0 < ctx.exprs_v().len(),
        is_block_at(ctx.exprs_v(), b),
        !diverges_at(ctx.exprs_v(), ctx.never_ty, block_ret_at(ctx.exprs_v(), b)),
        !is_block_at(ctx.exprs_v(), block_ret_at(ctx.exprs_v(), b)),
        !pure_at(ctx.exprs_v(), block_ret_at(ctx.exprs_v(), b)),
    ensures
        canon(ctx.exprs_v(), ctx.never_ty, seq![Statement::Expression(b)]) == canon(
            ctx.exprs_v(),
            ctx.never_ty,
            block_stmts_at(ctx.exprs_v(), b).push(
                Statement::Expression(block_ret_at(ctx.exprs_v(), b)),
            ),
        ),
{
    let es = ctx.exprs_v();
    let nv = ctx.never_ty;
    let ir = block_ret_at(es, b);
    lemma_wf_implies_blocks_wf(ctx);
    assert(expr_wf(es, ctx.types_v(), ctx.items_v(), ctx.void_ty, ctx.never_ty, b.0 as int));
    assert(es[b.0 as int].ty == es[ir.0 as int].ty);
    assert(!diverges_at(es, nv, b));
    assert(ids_below(block_stmts_at(es, b), b.0 as nat));
    lemma_nested_block_flattens_core(es, nv, b);
}

/// A lone pure statement is elided entirely: canonicalizing it keeps
/// nothing, so building a block from it returns the trailing result
/// directly and allocates no block node.
pub proof fn lemma_single_pure_statement_elided(ctx: IrCtx, s: Statement)
    requires
        ctx.wf(),
        stmt_expr(s).0 < ctx.exprs_v().len(),
        pure_at(ctx.exprs_v(), stmt_expr(s)),
        !diverges_at(ctx.exprs_v(), ctx.never_ty, stmt_expr(s)),
    ensures
        canon(ctx.exprs_v(), ctx.never_ty, seq![s]) == (
            Seq::<Statement>::empty(),
            None::<ExprId>,
        ),
{
    let es = ctx.exprs_v();
    let nv = ctx.never_ty;
    let one = seq![s];
    reveal_with_fuel(canon_from, 3);
    assert(one[0] == s);
    assert(one.drop_first() =~= Seq::<Statement>::empty());
}

} // verus!
