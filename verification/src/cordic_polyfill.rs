//! The embedded CORDIC math library and its splice.
//!
//! The `#pow` polyfill and its dependents — a lookup table of
//! `ln(1 + 2^-k)` constants, a CORDIC natural logarithm and a CORDIC
//! exponential — are written in the source language itself and compiled
//! through the same front end (desugaring, scope resolution, type fixup
//! and the rewriting half of the polyfill stage).  An index-rewrite pass
//! then remaps the library's internal calls onto the host's index space:
//! calls to its `floor` become the native floor instruction, calls to
//! its other functions become calls at fixed offsets from the index
//! reserved for `#pow`.  Any global access, global write or outbound
//! call inside the library is fatal: the library must stay
//! self-contained, or polyfilling would regress forever.
use crate::control_simplification::top_simplify_control_structures;
use crate::error::CompileError;
use crate::fixup_types::{fix_analysis_spec, fix_types};
use crate::jsonlang::{
    BinaryOp, DeclarationStatement, Expression, ExpressionView, IfConditions, IfConditionsView,
    JsonLang, JsonLangView, Statement, StatementView, TopStatement, TopStatementView,
    DeclarationStatementView, expr_view, stmt_view, top_stmts_view, program_view,
};
use crate::polyfill_ops::{
    Expression as PExpression, ExpressionView as PExpressionView, Statement as PStatement,
    StatementView as PStatementView, pexpr_view, pexprs_view, pstmt_view, pstmts_view, pfunc_view,
    pfnstable_view, polyfill_rewrite, polyfill_rewrite_spec, pview,
    lemma_pexprs_view_len, lemma_pexprs_view_index, lemma_pstmts_view_len,
    lemma_pstmts_view_index,
};
use crate::variable_analysis::{
    AnalysisView, Function, FunctionView, UnaryOp, analysis_empty_spec, analyze_top_spec,
    scope_get, scope_view, top_analyze_variables,
};
use vstd::prelude::*;

verus! {

broadcast use {
    crate::seq_util::group_seq_facts,
    lemma_pexprs_view_len,
    lemma_pexprs_view_index,
    lemma_pstmts_view_len,
    lemma_pstmts_view_index,
};

/// The host index a library-internal call target is remapped to: the
/// library's own `pow` lands on the reserved base index itself, and the
/// lookup table, the logarithm and the exponential on the three indices
/// after it.
pub open spec fn splice_target(base: u32, powi: u32, lut: u32, ln: u32, exp: u32, i: u32) -> Option<
    u32,
> {
    if i == powi {
        Some(base)
    } else if i == lut {
        Some((base + 1) as u32)
    } else if i == ln {
        Some((base + 2) as u32)
    } else if i == exp {
        Some((base + 3) as u32)
    } else {
        None
    }
}

/// One library expression remapped onto the host's index space.  A
/// global read, or a call that reaches outside the library, is fatal; a
/// call of the library's `floor` becomes the native floor instruction
/// around its first argument.
pub open spec fn replace_expr_spec(
    base: u32,
    powi: u32,
    lut: u32,
    ln: u32,
    exp: u32,
    floor: u32,
    e: PExpressionView,
) -> Result<PExpressionView, CompileError>
    decreases e,
{
    match e {
        PExpressionView::UnaryOp { op, arg } => match replace_expr_spec(
            base,
            powi,
            lut,
            ln,
            exp,
            floor,
            *arg,
        ) {
            Err(err) => Err(err),
            Ok(a) => Ok(PExpressionView::UnaryOp { op: op, arg: Box::new(a) }),
        },
        PExpressionView::BinaryOp { lhs, op, rhs } => match replace_expr_spec(
            base,
            powi,
            lut,
            ln,
            exp,
            floor,
            *lhs,
        ) {
            Err(err) => Err(err),
            Ok(l) => match replace_expr_spec(base, powi, lut, ln, exp, floor, *rhs) {
                Err(err) => Err(err),
                Ok(r) => Ok(
                    PExpressionView::BinaryOp { lhs: Box::new(l), op: op, rhs: Box::new(r) },
                ),
            },
        },
        PExpressionView::FunctionCall(i, args) => {
            if i == floor {
                if args.len() == 0 {
                    Err(CompileError::InternalInvariantViolation)
                } else {
                    match replace_expr_spec(base, powi, lut, ln, exp, floor, args[0]) {
                        Err(err) => Err(err),
                        Ok(a) => Ok(
                            PExpressionView::UnaryOp { op: UnaryOp::Floor, arg: Box::new(a) },
                        ),
                    }
                }
            } else {
                match splice_target(base, powi, lut, ln, exp, i) {
                    None => Err(CompileError::UnsupportedConstruct),
                    Some(ni) => match replace_exprs_spec(base, powi, lut, ln, exp, floor, args) {
                        Err(err) => Err(err),
                        Ok(ts) => Ok(PExpressionView::FunctionCall(ni, ts)),
                    },
                }
            }
        },
        PExpressionView::GlobalGet(_) => Err(CompileError::UnsupportedConstruct),
        PExpressionView::LocalGet(_) => Ok(e),
        PExpressionView::NumericLiteral(_) => Ok(e),
    }
}

/// A sequence of library expressions remapped, in order.
pub open spec fn replace_exprs_spec(
    base: u32,
    powi: u32,
    lut: u32,
    ln: u32,
    exp: u32,
    floor: u32,
    es: Seq<PExpressionView>,
) -> Result<Seq<PExpressionView>, CompileError>
    decreases es,
{
    if es.len() == 0 {
        Ok(Seq::empty())
    } else {
        match replace_exprs_spec(base, powi, lut, ln, exp, floor, es.drop_last()) {
            Err(err) => Err(err),
            Ok(front) => match replace_expr_spec(base, powi, lut, ln, exp, floor, es.last()) {
                Err(err) => Err(err),
                Ok(x) => Ok(front.push(x)),
            },
        }
    }
}

/// One library statement remapped; a global write or a statement-level
/// call is fatal.
pub open spec fn replace_stmt_spec(
    base: u32,
    powi: u32,
    lut: u32,
    ln: u32,
    exp: u32,
    floor: u32,
    s: PStatementView,
) -> Result<PStatementView, CompileError>
    decreases s,
{
    match s {
        PStatementView::Loop(body) => match replace_stmts_spec(base, powi, lut, ln, exp, floor, body) {
            Err(err) => Err(err),
            Ok(b) => Ok(PStatementView::Loop(b)),
        },
        PStatementView::If { cond, then_block, otherwise } => match replace_expr_spec(
            base,
            powi,
            lut,
            ln,
            exp,
            floor,
            cond,
        ) {
            Err(err) => Err(err),
            Ok(c) => match replace_stmts_spec(base, powi, lut, ln, exp, floor, then_block) {
                Err(err) => Err(err),
                Ok(tb) => match replace_stmts_spec(base, powi, lut, ln, exp, floor, otherwise) {
                    Err(err) => Err(err),
                    Ok(ob) => Ok(
                        PStatementView::If { cond: c, then_block: tb, otherwise: ob },
                    ),
                },
            },
        },
        PStatementView::LocalSet(i, e) => match replace_expr_spec(base, powi, lut, ln, exp, floor, e) {
            Err(err) => Err(err),
            Ok(x) => Ok(PStatementView::LocalSet(i, x)),
        },
        PStatementView::GlobalSet(_, _) => Err(CompileError::UnsupportedConstruct),
        PStatementView::Call(_, _) => Err(CompileError::UnsupportedConstruct),
        PStatementView::Return(e) => match replace_expr_spec(base, powi, lut, ln, exp, floor, e) {
            Err(err) => Err(err),
            Ok(x) => Ok(PStatementView::Return(x)),
        },
        PStatementView::Break => Ok(s),
        PStatementView::Continue => Ok(s),
    }
}

/// A sequence of library statements remapped, in order.
pub open spec fn replace_stmts_spec(
    base: u32,
    powi: u32,
    lut: u32,
    ln: u32,
    exp: u32,
    floor: u32,
    ss: Seq<PStatementView>,
) -> Result<Seq<PStatementView>, CompileError>
    decreases ss,
{
    if ss.len() == 0 {
        Ok(Seq::empty())
    } else {
        match replace_stmts_spec(base, powi, lut, ln, exp, floor, ss.drop_last()) {
            Err(err) => Err(err),
            Ok(front) => match replace_stmt_spec(base, powi, lut, ln, exp, floor, ss.last()) {
                Err(err) => Err(err),
                Ok(x) => Ok(front.push(x)),
            },
        }
    }
}

/// A whole library function remapped.
pub open spec fn replace_func_spec(
    base: u32,
    powi: u32,
    lut: u32,
    ln: u32,
    exp: u32,
    floor: u32,
    f: FunctionView<PStatementView>,
) -> Result<FunctionView<PStatementView>, CompileError> {
    match replace_stmts_spec(base, powi, lut, ln, exp, floor, f.body) {
        Err(err) => Err(err),
        Ok(body) => Ok(
            FunctionView { arguments: f.arguments, local_count: f.local_count, body },
        ),
    }
}

/// A failed prefix fails the whole expression sequence.
proof fn lemma_replace_exprs_err(
    base: u32,
    powi: u32,
    lut: u32,
    ln: u32,
    exp: u32,
    floor: u32,
    es: Seq<PExpressionView>,
    i: int,
    e: CompileError,
)
    requires
        0 <= i <= es.len(),
        replace_exprs_spec(base, powi, lut, ln, exp, floor, es.take(i)) == Err::<
            Seq<PExpressionView>,
            CompileError,
        >(e),
    ensures
        replace_exprs_spec(base, powi, lut, ln, exp, floor, es) == Err::<
            Seq<PExpressionView>,
            CompileError,
        >(e),
    decreases es.len() - i,
{
    if i < es.len() {
        lemma_replace_exprs_err(base, powi, lut, ln, exp, floor, es, i + 1, e);
    } else {
        assert(es.take(i) =~= es);
    }
}

/// A failed prefix fails the whole statement sequence.
proof fn lemma_replace_stmts_err(
    base: u32,
    powi: u32,
    lut: u32,
    ln: u32,
    exp: u32,
    floor: u32,
    ss: Seq<PStatementView>,
    i: int,
    e: CompileError,
)
    requires
        0 <= i <= ss.len(),
        replace_stmts_spec(base, powi, lut, ln, exp, floor, ss.take(i)) == Err::<
            Seq<PStatementView>,
            CompileError,
        >(e),
    ensures
        replace_stmts_spec(base, powi, lut, ln, exp, floor, ss) == Err::<
            Seq<PStatementView>,
            CompileError,
        >(e),
    decreases ss.len() - i,
{
    if i < ss.len() {
        lemma_replace_stmts_err(base, powi, lut, ln, exp, floor, ss, i + 1, e);
    } else {
        assert(ss.take(i) =~= ss);
    }
}

/// One library expression remapped onto the host's index space.
#[verifier::loop_isolation(false)]
pub fn replace_indexes_expr(
    base_index: u32,
    pow_index: u32,
    lut_index: u32,
    ln_index: u32,
    exp_index: u32,
    floor_index: u32,
    expr: &PExpression,
) -> (r: Result<PExpression, CompileError>)
    requires
        base_index + 3 <= u32::MAX,
    ensures
        (match r {
            Ok(t) => replace_expr_spec(
                base_index,
                pow_index,
                lut_index,
                ln_index,
                exp_index,
                floor_index,
                pexpr_view(*expr),
            ) == Ok::<PExpressionView, CompileError>(pexpr_view(t)),
            Err(err) => replace_expr_spec(
                base_index,
                pow_index,
                lut_index,
                ln_index,
                exp_index,
                floor_index,
                pexpr_view(*expr),
            ) == Err::<PExpressionView, CompileError>(err),
        }),
    decreases *expr,
{
    match expr {
        PExpression::UnaryOp { op, arg } => {
            let a = match replace_indexes_expr(
                base_index,
                pow_index,
                lut_index,
                ln_index,
                exp_index,
                floor_index,
                &**arg,
            ) {
                Ok(t) => t,
                Err(err) => return Err(err),
            };
            Ok(PExpression::UnaryOp { op: *op, arg: Box::new(a) })
        },
        PExpression::BinaryOp { lhs, op, rhs } => {
            let l = match replace_indexes_expr(
                base_index,
                pow_index,
                lut_index,
                ln_index,
                exp_index,
                floor_index,
                &**lhs,
            ) {
                Ok(t) => t,
                Err(err) => return Err(err),
            };
            let r = match replace_indexes_expr(
                base_index,
                pow_index,
                lut_index,
                ln_index,
                exp_index,
                floor_index,
                &**rhs,
            ) {
                Ok(t) => t,
                Err(err) => return Err(err),
            };
            Ok(PExpression::BinaryOp { lhs: Box::new(l), op: *op, rhs: Box::new(r) })
        },
        PExpression::FunctionCall(i, args) => {
            if *i == floor_index {
                if args.len() == 0 {
                    return Err(CompileError::InternalInvariantViolation);
                }
                proof {
                    assert(pexprs_view(args@).len() == args@.len());
                    assert(pexprs_view(args@)[0] == pexpr_view(args@[0]));
                }
                let a = match replace_indexes_expr(
                    base_index,
                    pow_index,
                    lut_index,
                    ln_index,
                    exp_index,
                    floor_index,
                    &args[0],
                ) {
                    Ok(t) => t,
                    Err(err) => return Err(err),
                };
                Ok(PExpression::UnaryOp { op: UnaryOp::Floor, arg: Box::new(a) })
            } else {
                let ni: u32 = if *i == pow_index {
                    base_index
                } else if *i == lut_index {
                    base_index + 1
                } else if *i == ln_index {
                    base_index + 2
                } else if *i == exp_index {
                    base_index + 3
                } else {
                    return Err(CompileError::UnsupportedConstruct);
                };
                let ts = match replace_args(
                    base_index,
                    pow_index,
                    lut_index,
                    ln_index,
                    exp_index,
                    floor_index,
                    args,
                ) {
                    Ok(v) => v,
                    Err(err) => return Err(err),
                };
                Ok(PExpression::FunctionCall(ni, ts))
            }
        },
        PExpression::GlobalGet(_) => Err(CompileError::UnsupportedConstruct),
        PExpression::LocalGet(i) => Ok(PExpression::LocalGet(*i)),
        PExpression::NumericLiteral(t) => Ok(PExpression::NumericLiteral(t.clone())),
    }
}

/// A vector of library expressions remapped, in order.
#[verifier::loop_isolation(false)]
fn replace_args(
    base_index: u32,
    pow_index: u32,
    lut_index: u32,
    ln_index: u32,
    exp_index: u32,
    floor_index: u32,
    args: &Vec<PExpression>,
) -> (r: Result<Vec<PExpression>, CompileError>)
    requires
        base_index + 3 <= u32::MAX,
    ensures
        (match r {
            Ok(ts) => replace_exprs_spec(
                base_index,
                pow_index,
                lut_index,
                ln_index,
                exp_index,
                floor_index,
                pexprs_view(args@),
            ) == Ok::<Seq<PExpressionView>, CompileError>(pexprs_view(ts@)),
            Err(err) => replace_exprs_spec(
                base_index,
                pow_index,
                lut_index,
                ln_index,
                exp_index,
                floor_index,
                pexprs_view(args@),
            ) == Err::<Seq<PExpressionView>, CompileError>(err),
        }),
    decreases *args,
{
    let ghost es = pexprs_view(args@);
    let mut out: Vec<PExpression> = Vec::new();
    let mut i: usize = 0;
    while i < args.len()
        invariant
            i <= args@.len(),
            replace_exprs_spec(
                base_index,
                pow_index,
                lut_index,
                ln_index,
                exp_index,
                floor_index,
                es.take(i as int),
            ) == Ok::<Seq<PExpressionView>, CompileError>(pexprs_view(out@)),
        decreases args@.len() - i,
    {
        let x = match replace_indexes_expr(
            base_index,
            pow_index,
            lut_index,
            ln_index,
            exp_index,
            floor_index,
            &args[i],
        ) {
            Ok(t) => t,
            Err(err) => {
                proof {
                    lemma_replace_exprs_err(
                        base_index,
                        pow_index,
                        lut_index,
                        ln_index,
                        exp_index,
                        floor_index,
                        es,
                        i as int + 1,
                        err,
                    );
                }
                return Err(err);
            },
        };
        out.push(x);
        i = i + 1;
    }
    proof {
        assert(es.take(args@.len() as int) =~= es);
    }
    Ok(out)
}

/// One library statement remapped onto the host's index space.
#[verifier::loop_isolation(false)]
pub fn replace_indexes_stmt(
    base_index: u32,
    pow_index: u32,
    lut_index: u32,
    ln_index: u32,
    exp_index: u32,
    floor_index: u32,
    stmt: &PStatement,
) -> (r: Result<PStatement, CompileError>)
    requires
        base_index + 3 <= u32::MAX,
    ensures
        (match r {
            Ok(t) => replace_stmt_spec(
                base_index,
                pow_index,
                lut_index,
                ln_index,
                exp_index,
                floor_index,
                pstmt_view(*stmt),
            ) == Ok::<PStatementView, CompileError>(pstmt_view(t)),
            Err(err) => replace_stmt_spec(
                base_index,
                pow_index,
                lut_index,
                ln_index,
                exp_index,
                floor_index,
                pstmt_view(*stmt),
            ) == Err::<PStatementView, CompileError>(err),
        }),
    decreases *stmt,
{
    match stmt {
        PStatement::Loop(body) => {
            let b = match replace_stmt_vec(
                base_index,
                pow_index,
                lut_index,
                ln_index,
                exp_index,
                floor_index,
                body,
            ) {
                Ok(v) => v,
                Err(err) => return Err(err),
            };
            Ok(PStatement::Loop(b))
        },
        PStatement::If { cond, then_block, otherwise } => {
            let c = match replace_indexes_expr(
                base_index,
                pow_index,
                lut_index,
                ln_index,
                exp_index,
                floor_index,
                cond,
            ) {
                Ok(t) => t,
                Err(err) => return Err(err),
            };
            let tb = match replace_stmt_vec(
                base_index,
                pow_index,
                lut_index,
                ln_index,
                exp_index,
                floor_index,
                then_block,
            ) {
                Ok(v) => v,
                Err(err) => return Err(err),
            };
            let ob = match replace_stmt_vec(
                base_index,
                pow_index,
                lut_index,
                ln_index,
                exp_index,
                floor_index,
                otherwise,
            ) {
                Ok(v) => v,
                Err(err) => return Err(err),
            };
            Ok(PStatement::If { cond: c, then_block: tb, otherwise: ob })
        },
        PStatement::LocalSet(i, e) => {
            let x = match replace_indexes_expr(
                base_index,
                pow_index,
                lut_index,
                ln_index,
                exp_index,
                floor_index,
                e,
            ) {
                Ok(t) => t,
                Err(err) => return Err(err),
            };
            Ok(PStatement::LocalSet(*i, x))
        },
        PStatement::GlobalSet(_, _) => Err(CompileError::UnsupportedConstruct),
        PStatement::Call(_, _) => Err(CompileError::UnsupportedConstruct),
        PStatement::Return(e) => {
            let x = match replace_indexes_expr(
                base_index,
                pow_index,
                lut_index,
                ln_index,
                exp_index,
                floor_index,
                e,
            ) {
                Ok(t) => t,
                Err(err) => return Err(err),
            };
            Ok(PStatement::Return(x))
        },
        PStatement::Break => Ok(PStatement::Break),
        PStatement::Continue => Ok(PStatement::Continue),
    }
}

/// A vector of library statements remapped, in order.
#[verifier::loop_isolation(false)]
fn replace_stmt_vec(
    base_index: u32,
    pow_index: u32,
    lut_index: u32,
    ln_index: u32,
    exp_index: u32,
    floor_index: u32,
    ss: &Vec<PStatement>,
) -> (r: Result<Vec<PStatement>, CompileError>)
    requires
        base_index + 3 <= u32::MAX,
    ensures
        (match r {
            Ok(ts) => replace_stmts_spec(
                base_index,
                pow_index,
                lut_index,
                ln_index,
                exp_index,
                floor_index,
                pstmts_view(ss@),
            ) == Ok::<Seq<PStatementView>, CompileError>(pstmts_view(ts@)),
            Err(err) => replace_stmts_spec(
                base_index,
                pow_index,
                lut_index,
                ln_index,
                exp_index,
                floor_index,
                pstmts_view(ss@),
            ) == Err::<Seq<PStatementView>, CompileError>(err),
        }),
    decreases *ss,
{
    let ghost sv = pstmts_view(ss@);
    let mut out: Vec<PStatement> = Vec::new();
    let mut i: usize = 0;
    while i < ss.len()
        invariant
            i <= ss@.len(),
            replace_stmts_spec(
                base_index,
                pow_index,
                lut_index,
                ln_index,
                exp_index,
                floor_index,
                sv.take(i as int),
            ) == Ok::<Seq<PStatementView>, CompileError>(pstmts_view(out@)),
        decreases ss@.len() - i,
    {
        let x = match replace_indexes_stmt(
            base_index,
            pow_index,
            lut_index,
            ln_index,
            exp_index,
            floor_index,
            &ss[i],
        ) {
            Ok(t) => t,
            Err(err) => {
                proof {
                    lemma_replace_stmts_err(
                        base_index,
                        pow_index,
                        lut_index,
                        ln_index,
                        exp_index,
                        floor_index,
                        sv,
                        i as int + 1,
                        err,
                    );
                }
                return Err(err);
            },
        };
        out.push(x);
        i = i + 1;
    }
    proof {
        assert(sv.take(ss@.len() as int) =~= sv);
    }
    Ok(out)
}

/// A whole library function remapped onto the host's index space.
#[verifier::loop_isolation(false)]
pub fn replace_indexes(
    base_index: u32,
    pow_index: u32,
    lut_index: u32,
    ln_index: u32,
    exp_index: u32,
    floor_index: u32,
    func: &Function<PStatement>,
) -> (r: Result<Function<PStatement>, CompileError>)
    requires
        base_index + 3 <= u32::MAX,
    ensures
        (match r {
            Ok(t) => replace_func_spec(
                base_index,
                pow_index,
                lut_index,
                ln_index,
                exp_index,
                floor_index,
                pfunc_view(*func),
            ) == Ok::<FunctionView<PStatementView>, CompileError>(pfunc_view(t)),
            Err(err) => replace_func_spec(
                base_index,
                pow_index,
                lut_index,
                ln_index,
                exp_index,
                floor_index,
                pfunc_view(*func),
            ) == Err::<FunctionView<PStatementView>, CompileError>(err),
        }),
{
    let body = match replace_stmt_vec(
        base_index,
        pow_index,
        lut_index,
        ln_index,
        exp_index,
        floor_index,
        &func.body,
    ) {
        Ok(v) => v,
        Err(err) => return Err(err),
    };
    Ok(Function { arguments: func.arguments, local_count: func.local_count, body })
}


/// A numeric-literal expression of the source language.
pub open spec fn vlit(t: Seq<char>) -> ExpressionView {
    ExpressionView::NumericLiteral(t)
}

/// A variable read of the source language.
pub open spec fn vvar(n: Seq<char>) -> ExpressionView {
    ExpressionView::VariableAccess(n)
}

/// A binary operation of the source language.
pub open spec fn vbin(l: ExpressionView, op: BinaryOp, r: ExpressionView) -> ExpressionView {
    ExpressionView::BinaryOp { lhs: Box::new(l), op: op, rhs: Box::new(r) }
}

/// A one-argument call of the source language.
pub open spec fn vcall1(f: Seq<char>, a: ExpressionView) -> ExpressionView {
    ExpressionView::FunctionCall { name: f, args: seq![a] }
}

/// A declaration statement of the source language.
pub open spec fn vdecl(n: Seq<char>, e: ExpressionView) -> StatementView {
    StatementView::Declare { declare: n, value: Box::new(e) }
}

/// An assignment statement of the source language.
pub open spec fn vassign(n: Seq<char>, e: ExpressionView) -> StatementView {
    StatementView::Assign { set: n, value: Box::new(e) }
}

/// A return statement of the source language.
pub open spec fn vret(e: ExpressionView) -> StatementView {
    StatementView::Return { return_value: Box::new(e) }
}

/// A while loop of the source language.
pub open spec fn vwhile(c: ExpressionView, body: StatementView) -> StatementView {
    StatementView::While { condition: Box::new(c), do_block: Box::new(body) }
}

/// A one-armed if statement of the source language, without an else.
pub open spec fn vif1(c: ExpressionView, then_block: StatementView) -> StatementView {
    StatementView::If {
        branches: seq![IfConditionsView { cond: c, then_block: Box::new(then_block) }],
        else_branch: None,
    }
}

/// A statement list of the source language.
pub open spec fn vlist(ss: Seq<StatementView>) -> StatementView {
    StatementView::StatementList(ss)
}

/// Builds a numeric literal.
fn elit(t: &str) -> (r: Expression)
    ensures
        expr_view(r) == vlit(t@),
{
    Expression::NumericLiteral(t.to_owned())
}

/// Builds a variable read.
fn evar(n: &str) -> (r: Expression)
    ensures
        expr_view(r) == vvar(n@),
{
    Expression::VariableAccess(n.to_owned())
}

/// Builds a binary operation.
fn ebin(l: Expression, op: BinaryOp, r: Expression) -> (t: Expression)
    ensures
        expr_view(t) == vbin(expr_view(l), op, expr_view(r)),
{
    Expression::BinaryOp { lhs: Box::new(l), op, rhs: Box::new(r) }
}

/// Builds a one-argument call.
fn ecall1(f: &str, a: Expression) -> (t: Expression)
    ensures
        expr_view(t) == vcall1(f@, expr_view(a)),
{
    let ghost av = expr_view(a);
    let mut args: Vec<Expression> = Vec::new();
    args.push(a);
    proof {
        assert(crate::jsonlang::exprs_view(args@) =~= seq![av]) by {
            assert(args@.drop_last() =~= Seq::empty());
            assert(crate::jsonlang::exprs_view(Seq::<Expression>::empty()) =~= Seq::empty());
        }
    }
    Expression::FunctionCall { name: f.to_owned(), args }
}

/// Builds a declaration.
fn edecl(n: &str, e: Expression) -> (r: Statement)
    ensures
        stmt_view(r) == vdecl(n@, expr_view(e)),
{
    Statement::Declare { declare: n.to_owned(), value: Box::new(e) }
}

/// Builds an assignment.
fn eassign(n: &str, e: Expression) -> (r: Statement)
    ensures
        stmt_view(r) == vassign(n@, expr_view(e)),
{
    Statement::Assign { set: n.to_owned(), value: Box::new(e) }
}

/// Builds a return statement.
fn eret(e: Expression) -> (r: Statement)
    ensures
        stmt_view(r) == vret(expr_view(e)),
{
    Statement::Return { return_value: Box::new(e) }
}

/// Builds a while loop.
fn ewhile(c: Expression, body: Statement) -> (r: Statement)
    ensures
        stmt_view(r) == vwhile(expr_view(c), stmt_view(body)),
{
    Statement::While { condition: Box::new(c), do_block: Box::new(body) }
}

/// Builds a one-armed if statement.
fn eif1(c: Expression, then_block: Statement) -> (r: Statement)
    ensures
        stmt_view(r) == vif1(expr_view(c), stmt_view(then_block)),
{
    let ghost cv = expr_view(c);
    let ghost tv = stmt_view(then_block);
    let mut branches: Vec<IfConditions> = Vec::new();
    branches.push(IfConditions { cond: c, then_block: Box::new(then_block) });
    proof {
        assert(crate::jsonlang::branches_view(branches@) =~= seq![
            IfConditionsView { cond: cv, then_block: Box::new(tv) },
        ]) by {
            assert(branches@.drop_last() =~= Seq::empty());
            assert(crate::jsonlang::branches_view(Seq::<IfConditions>::empty()) =~= Seq::empty());
        }
    }
    Statement::If { branches, else_branch: None }
}

/// Builds a statement list.
fn elist(ss: Vec<Statement>) -> (r: Statement)
    ensures
        stmt_view(r) == vlist(crate::jsonlang::stmts_view(ss@)),
{
    Statement::StatementList(ss)
}

/// One arm of the lookup table: `if i == <k> return <value>`.
pub open spec fn lut_arm_view(k: Seq<char>, v: Seq<char>) -> IfConditionsView {
    IfConditionsView {
        cond: vbin(vvar("i"@), BinaryOp::Equal, vlit(k)),
        then_block: Box::new(vret(vlit(v))),
    }
}

/// The source of the library's lookup table: `ln(1 + 2^-k)` for each
/// supported iteration `k`, and zero past the last one.
#[verifier::opaque]
pub open spec fn cordic_lut_view() -> TopStatementView {
    TopStatementView::DeclarationStatement(
        DeclarationStatementView {
            function: "cordic_lut"@,
            args: seq!["i"@],
            block: StatementView::If {
                branches: seq![
                    lut_arm_view("0"@, "0.6931471805599453"@),
                    lut_arm_view("1"@, "0.4054651081081644"@),
                    lut_arm_view("2"@, "0.22314355131420976"@),
                    lut_arm_view("3"@, "0.11778303565638346"@),
                    lut_arm_view("4"@, "0.06062462181643484"@),
                    lut_arm_view("5"@, "0.030771658666753687"@),
                    lut_arm_view("6"@, "0.015504186535965254"@),
                    lut_arm_view("7"@, "0.007782140442054949"@),
                    lut_arm_view("8"@, "0.003898640415657323"@),
                ],
                else_branch: Some(Box::new(vret(vlit("0"@)))),
            },
        },
    )
}

/// Builds one arm of the lookup table.
fn lut_arm(k: &str, v: &str) -> (r: IfConditions)
    ensures
        crate::jsonlang::branches_view(seq![r]) == seq![lut_arm_view(k@, v@)],
{
    let r = IfConditions {
        cond: ebin(evar("i"), BinaryOp::Equal, elit(k)),
        then_block: Box::new(eret(elit(v))),
    };
    proof {
        assert(crate::jsonlang::branches_view(seq![r]) =~= seq![lut_arm_view(k@, v@)]) by {
            assert(seq![r].drop_last() =~= Seq::empty());
            assert(crate::jsonlang::branches_view(Seq::<IfConditions>::empty()) =~= Seq::empty());
        }
    }
    r
}

/// Builds the lookup-table declaration.
#[verifier::loop_isolation(false)]
#[verifier::spinoff_prover]
#[verifier::rlimit(100)]
fn build_cordic_lut() -> (r: TopStatement)
    ensures
        crate::jsonlang::top_stmt_view(r) == cordic_lut_view(),
{
    proof {
        reveal(cordic_lut_view);
        reveal_with_fuel(crate::jsonlang::branches_view, 11);
    }
    let mut branches: Vec<IfConditions> = Vec::new();
    branches.push(lut_arm("0", "0.6931471805599453"));
    branches.push(lut_arm("1", "0.4054651081081644"));
    branches.push(lut_arm("2", "0.22314355131420976"));
    branches.push(lut_arm("3", "0.11778303565638346"));
    branches.push(lut_arm("4", "0.06062462181643484"));
    branches.push(lut_arm("5", "0.030771658666753687"));
    branches.push(lut_arm("6", "0.015504186535965254"));
    branches.push(lut_arm("7", "0.007782140442054949"));
    branches.push(lut_arm("8", "0.003898640415657323"));
    proof {
        assert(crate::jsonlang::branches_view(branches@) =~= seq![
                lut_arm_view("0"@, "0.6931471805599453"@),
                    lut_arm_view("1"@, "0.4054651081081644"@),
                    lut_arm_view("2"@, "0.22314355131420976"@),
                    lut_arm_view("3"@, "0.11778303565638346"@),
                    lut_arm_view("4"@, "0.06062462181643484"@),
                    lut_arm_view("5"@, "0.030771658666753687"@),
                    lut_arm_view("6"@, "0.015504186535965254"@),
                    lut_arm_view("7"@, "0.007782140442054949"@),
                    lut_arm_view("8"@, "0.003898640415657323"@),
        ]);
    }
    let mut args: Vec<String> = Vec::new();
    args.push("i".to_owned());
    proof {
        assert(crate::jsonlang::names_view(args@) =~= seq!["i"@]);
    }
    TopStatement::DeclarationStatement(
        DeclarationStatement {
            function: "cordic_lut".to_owned(),
            args,
            block: Statement::If { branches, else_branch: Some(Box::new(eret(elit("0")))) },
        },
    )
}

/// The source of the library's `floor` function.
#[verifier::opaque]
pub open spec fn cordic_floor_view() -> TopStatementView {
    TopStatementView::DeclarationStatement(
        DeclarationStatementView {
            function: "floor"@,
            args: seq!["x"@],
            block: vlist(seq![vret(vlit("0"@))]),
        },
    )
}

/// Builds the library's `floor` declaration.
#[verifier::loop_isolation(false)]
#[verifier::spinoff_prover]
#[verifier::rlimit(100)]
fn build_cordic_floor() -> (r: TopStatement)
    ensures
        crate::jsonlang::top_stmt_view(r) == cordic_floor_view(),
{
    proof {
        reveal(cordic_floor_view);
        reveal_with_fuel(crate::jsonlang::stmts_view, 14);
    }
    let mut b1: Vec<Statement> = Vec::new();
    let s2 = eret(elit("0"));
    b1.push(s2);
    proof {
        assert(crate::jsonlang::stmts_view(b1@) =~= seq![stmt_view(s2)]);
    }
    let mut args: Vec<String> = Vec::new();
    args.push("x".to_owned());
    proof {
        assert(crate::jsonlang::names_view(args@) =~= seq!["x"@]);
    }
    TopStatement::DeclarationStatement(
        DeclarationStatement { function: "floor".to_owned(), args, block: elist(b1) },
    )
}

/// The source of the library's `ln_cordic` function.
#[verifier::opaque]
pub open spec fn cordic_ln_cordic_view() -> TopStatementView {
    TopStatementView::DeclarationStatement(
        DeclarationStatementView {
            function: "ln_cordic"@,
            args: seq!["x"@],
            block: vlist(seq![vdecl("k"@, vlit("0"@)), vdecl("m"@, vvar("x"@)), vwhile(vbin(vvar("m"@), BinaryOp::Lesser, vlit("1"@)), vlist(seq![vassign("m"@, vbin(vvar("m"@), BinaryOp::Multiplication, vlit("2"@))), vassign("k"@, vbin(vvar("k"@), BinaryOp::Substraction, vlit("1"@)))])), vwhile(vbin(vvar("m"@), BinaryOp::GreaterEq, vlit("2"@)), vlist(seq![vassign("m"@, vbin(vvar("m"@), BinaryOp::Division, vlit("2"@))), vassign("k"@, vbin(vvar("k"@), BinaryOp::Addition, vlit("1"@)))])), vdecl("r"@, vlit("0"@)), vdecl("p"@, vlit("1"@)), vdecl("i"@, vlit("1"@)), vwhile(vbin(vvar("i"@), BinaryOp::LessEq, vlit("8"@)), vlist(seq![vassign("p"@, vbin(vvar("p"@), BinaryOp::Division, vlit("2"@))), vdecl("f"@, vbin(vlit("1"@), BinaryOp::Addition, vvar("p"@))), vdecl("q"@, vbin(vvar("m"@), BinaryOp::Division, vvar("f"@))), vif1(vbin(vvar("q"@), BinaryOp::GreaterEq, vlit("1"@)), vlist(seq![vassign("m"@, vvar("q"@)), vassign("r"@, vbin(vvar("r"@), BinaryOp::Addition, vcall1("cordic_lut"@, vvar("i"@))))])), vassign("i"@, vbin(vvar("i"@), BinaryOp::Addition, vlit("1"@)))])), vret(vbin(vvar("r"@), BinaryOp::Addition, vbin(vvar("k"@), BinaryOp::Multiplication, vcall1("cordic_lut"@, vlit("0"@)))))]),
        },
    )
}

/// Builds the library's `ln_cordic` declaration.
#[verifier::loop_isolation(false)]
#[verifier::spinoff_prover]
#[verifier::rlimit(100)]
fn build_cordic_ln_cordic() -> (r: TopStatement)
    ensures
        crate::jsonlang::top_stmt_view(r) == cordic_ln_cordic_view(),
{
    proof {
        reveal(cordic_ln_cordic_view);
        reveal_with_fuel(crate::jsonlang::stmts_view, 14);
    }
    let mut b3: Vec<Statement> = Vec::new();
    let s4 = edecl("k", elit("0"));
    b3.push(s4);
    let s5 = edecl("m", evar("x"));
    b3.push(s5);
    let mut b7: Vec<Statement> = Vec::new();
    let s8 = eassign("m", ebin(evar("m"), BinaryOp::Multiplication, elit("2")));
    b7.push(s8);
    let s9 = eassign("k", ebin(evar("k"), BinaryOp::Substraction, elit("1")));
    b7.push(s9);
    proof {
        assert(crate::jsonlang::stmts_view(b7@) =~= seq![stmt_view(s8), stmt_view(s9)]);
    }
    let s6 = ewhile(ebin(evar("m"), BinaryOp::Lesser, elit("1")), elist(b7));
    b3.push(s6);
    let mut b11: Vec<Statement> = Vec::new();
    let s12 = eassign("m", ebin(evar("m"), BinaryOp::Division, elit("2")));
    b11.push(s12);
    let s13 = eassign("k", ebin(evar("k"), BinaryOp::Addition, elit("1")));
    b11.push(s13);
    proof {
        assert(crate::jsonlang::stmts_view(b11@) =~= seq![stmt_view(s12), stmt_view(s13)]);
    }
    let s10 = ewhile(ebin(evar("m"), BinaryOp::GreaterEq, elit("2")), elist(b11));
    b3.push(s10);
    let s14 = edecl("r", elit("0"));
    b3.push(s14);
    let s15 = edecl("p", elit("1"));
    b3.push(s15);
    let s16 = edecl("i", elit("1"));
    b3.push(s16);
    let mut b18: Vec<Statement> = Vec::new();
    let s19 = eassign("p", ebin(evar("p"), BinaryOp::Division, elit("2")));
    b18.push(s19);
    let s20 = edecl("f", ebin(elit("1"), BinaryOp::Addition, evar("p")));
    b18.push(s20);
    let s21 = edecl("q", ebin(evar("m"), BinaryOp::Division, evar("f")));
    b18.push(s21);
    let mut b23: Vec<Statement> = Vec::new();
    let s24 = eassign("m", evar("q"));
    b23.push(s24);
    let s25 = eassign("r", ebin(evar("r"), BinaryOp::Addition, ecall1("cordic_lut", evar("i"))));
    b23.push(s25);
    proof {
        assert(crate::jsonlang::stmts_view(b23@) =~= seq![stmt_view(s24), stmt_view(s25)]);
    }
    let s22 = eif1(ebin(evar("q"), BinaryOp::GreaterEq, elit("1")), elist(b23));
    b18.push(s22);
    let s26 = eassign("i", ebin(evar("i"), BinaryOp::Addition, elit("1")));
    b18.push(s26);
    proof {
        assert(crate::jsonlang::stmts_view(b18@) =~= seq![stmt_view(s19), stmt_view(s20), stmt_view(s21), stmt_view(s22), stmt_view(s26)]);
    }
    let s17 = ewhile(ebin(evar("i"), BinaryOp::LessEq, elit("8")), elist(b18));
    b3.push(s17);
    let s27 = eret(ebin(evar("r"), BinaryOp::Addition, ebin(evar("k"), BinaryOp::Multiplication, ecall1("cordic_lut", elit("0")))));
    b3.push(s27);
    proof {
        assert(crate::jsonlang::stmts_view(b3@) =~= seq![stmt_view(s4), stmt_view(s5), stmt_view(s6), stmt_view(s10), stmt_view(s14), stmt_view(s15), stmt_view(s16), stmt_view(s17), stmt_view(s27)]);
    }
    let mut args: Vec<String> = Vec::new();
    args.push("x".to_owned());
    proof {
        assert(crate::jsonlang::names_view(args@) =~= seq!["x"@]);
    }
    TopStatement::DeclarationStatement(
        DeclarationStatement { function: "ln_cordic".to_owned(), args, block: elist(b3) },
    )
}


/// The main iteration loop of the library's exponential: greedy
/// shift-and-add against the lookup table.
pub open spec fn cordic_exp_iter_view() -> StatementView {
    vwhile(vbin(vvar("i"@), BinaryOp::LessEq, vlit("8"@)), vlist(seq![vassign("p"@, vbin(vvar("p"@), BinaryOp::Division, vlit("2"@))), vdecl("t"@, vbin(vvar("r"@), BinaryOp::Addition, vcall1("cordic_lut"@, vvar("i"@)))), vif1(vbin(vvar("t"@), BinaryOp::LessEq, vvar("rem"@)), vlist(seq![vassign("r"@, vvar("t"@)), vassign("y"@, vbin(vvar("y"@), BinaryOp::Multiplication, vbin(vlit("1"@), BinaryOp::Addition, vvar("p"@))))])), vassign("i"@, vbin(vvar("i"@), BinaryOp::Addition, vlit("1"@)))]))
}

/// Builds the exponential's main iteration loop.
#[verifier::loop_isolation(false)]
#[verifier::spinoff_prover]
#[verifier::rlimit(100)]
fn build_cordic_exp_iter() -> (r: Statement)
    ensures
        stmt_view(r) == cordic_exp_iter_view(),
{
    proof {
        reveal_with_fuel(crate::jsonlang::stmts_view, 8);
    }
    let mut b36: Vec<Statement> = Vec::new();
    let s37 = eassign("p", ebin(evar("p"), BinaryOp::Division, elit("2")));
    b36.push(s37);
    let s38 = edecl("t", ebin(evar("r"), BinaryOp::Addition, ecall1("cordic_lut", evar("i"))));
    b36.push(s38);
    let mut b40: Vec<Statement> = Vec::new();
    let s41 = eassign("r", evar("t"));
    b40.push(s41);
    let s42 = eassign("y", ebin(evar("y"), BinaryOp::Multiplication, ebin(elit("1"), BinaryOp::Addition, evar("p"))));
    b40.push(s42);
    proof {
        assert(crate::jsonlang::stmts_view(b40@) =~= seq![stmt_view(s41), stmt_view(s42)]);
    }
    let s39 = eif1(ebin(evar("t"), BinaryOp::LessEq, evar("rem")), elist(b40));
    b36.push(s39);
    let s43 = eassign("i", ebin(evar("i"), BinaryOp::Addition, elit("1")));
    b36.push(s43);
    proof {
        assert(crate::jsonlang::stmts_view(b36@) =~= seq![stmt_view(s37), stmt_view(s38), stmt_view(s39), stmt_view(s43)]);
    }
    ewhile(ebin(evar("i"), BinaryOp::LessEq, elit("8")), elist(b36))
}


/// Doubling the result once per positive power of two left to apply.
pub open spec fn cordic_exp_scale_up_view() -> StatementView {
    vwhile(vbin(vvar("k"@), BinaryOp::Greater, vlit("0"@)), vlist(seq![vassign("y"@, vbin(vvar("y"@), BinaryOp::Multiplication, vlit("2"@))), vassign("k"@, vbin(vvar("k"@), BinaryOp::Substraction, vlit("1"@)))]))
}

/// Halving the result once per negative power of two left to apply.
pub open spec fn cordic_exp_scale_down_view() -> StatementView {
    vwhile(vbin(vvar("k"@), BinaryOp::Lesser, vlit("0"@)), vlist(seq![vassign("y"@, vbin(vvar("y"@), BinaryOp::Division, vlit("2"@))), vassign("k"@, vbin(vvar("k"@), BinaryOp::Addition, vlit("1"@)))]))
}

/// Builds the exponential's scale-up loop.
#[verifier::loop_isolation(false)]
#[verifier::spinoff_prover]
fn build_cordic_exp_scale_up() -> (r: Statement)
    ensures
        stmt_view(r) == cordic_exp_scale_up_view(),
{
    proof {
        reveal_with_fuel(crate::jsonlang::stmts_view, 4);
    }
    let mut b45: Vec<Statement> = Vec::new();
    let s46 = eassign("y", ebin(evar("y"), BinaryOp::Multiplication, elit("2")));
    b45.push(s46);
    let s47 = eassign("k", ebin(evar("k"), BinaryOp::Substraction, elit("1")));
    b45.push(s47);
    proof {
        assert(crate::jsonlang::stmts_view(b45@) =~= seq![stmt_view(s46), stmt_view(s47)]);
    }
    ewhile(ebin(evar("k"), BinaryOp::Greater, elit("0")), elist(b45))
}

/// Builds the exponential's scale-down loop.
#[verifier::loop_isolation(false)]
#[verifier::spinoff_prover]
fn build_cordic_exp_scale_down() -> (r: Statement)
    ensures
        stmt_view(r) == cordic_exp_scale_down_view(),
{
    proof {
        reveal_with_fuel(crate::jsonlang::stmts_view, 4);
    }
    let mut b49: Vec<Statement> = Vec::new();
    let s50 = eassign("y", ebin(evar("y"), BinaryOp::Division, elit("2")));
    b49.push(s50);
    let s51 = eassign("k", ebin(evar("k"), BinaryOp::Addition, elit("1")));
    b49.push(s51);
    proof {
        assert(crate::jsonlang::stmts_view(b49@) =~= seq![stmt_view(s50), stmt_view(s51)]);
    }
    ewhile(ebin(evar("k"), BinaryOp::Lesser, elit("0")), elist(b49))
}

/// The source of the library's `exp_cordic` function.
#[verifier::opaque]
pub open spec fn cordic_exp_cordic_view() -> TopStatementView {
    TopStatementView::DeclarationStatement(
        DeclarationStatementView {
            function: "exp_cordic"@,
            args: seq!["x"@],
            block: vlist(seq![vdecl("k"@, vcall1("floor"@, vbin(vvar("x"@), BinaryOp::Division, vcall1("cordic_lut"@, vlit("0"@))))), vdecl("rem"@, vbin(vvar("x"@), BinaryOp::Substraction, vbin(vvar("k"@), BinaryOp::Multiplication, vcall1("cordic_lut"@, vlit("0"@))))), vdecl("y"@, vlit("1"@)), vdecl("r"@, vlit("0"@)), vdecl("p"@, vlit("1"@)), vdecl("i"@, vlit("1"@)), cordic_exp_iter_view(), cordic_exp_scale_up_view(), cordic_exp_scale_down_view(), vret(vvar("y"@))]),
        },
    )
}

/// Builds the library's `exp_cordic` declaration.
#[verifier::loop_isolation(false)]
#[verifier::spinoff_prover]
#[verifier::rlimit(100)]
fn build_cordic_exp_cordic() -> (r: TopStatement)
    ensures
        crate::jsonlang::top_stmt_view(r) == cordic_exp_cordic_view(),
{
    proof {
        reveal(cordic_exp_cordic_view);
        reveal_with_fuel(crate::jsonlang::stmts_view, 14);
    }
    let mut b28: Vec<Statement> = Vec::new();
    let s29 = edecl("k", ecall1("floor", ebin(evar("x"), BinaryOp::Division, ecall1("cordic_lut", elit("0")))));
    b28.push(s29);
    let s30 = edecl("rem", ebin(evar("x"), BinaryOp::Substraction, ebin(evar("k"), BinaryOp::Multiplication, ecall1("cordic_lut", elit("0")))));
    b28.push(s30);
    let s31 = edecl("y", elit("1"));
    b28.push(s31);
    let s32 = edecl("r", elit("0"));
    b28.push(s32);
    let s33 = edecl("p", elit("1"));
    b28.push(s33);
    let s34 = edecl("i", elit("1"));
    b28.push(s34);
    let s35 = build_cordic_exp_iter();
    b28.push(s35);
    let s44 = build_cordic_exp_scale_up();
    b28.push(s44);
    let s48 = build_cordic_exp_scale_down();
    b28.push(s48);
    let s52 = eret(evar("y"));
    b28.push(s52);
    proof {
        assert(crate::jsonlang::stmts_view(b28@) =~= seq![stmt_view(s29), stmt_view(s30), stmt_view(s31), stmt_view(s32), stmt_view(s33), stmt_view(s34), stmt_view(s35), stmt_view(s44), stmt_view(s48), stmt_view(s52)]);
    }
    let mut args: Vec<String> = Vec::new();
    args.push("x".to_owned());
    proof {
        assert(crate::jsonlang::names_view(args@) =~= seq!["x"@]);
    }
    TopStatement::DeclarationStatement(
        DeclarationStatement { function: "exp_cordic".to_owned(), args, block: elist(b28) },
    )
}

/// The source of the library's `pow` function.
#[verifier::opaque]
pub open spec fn cordic_pow_view() -> TopStatementView {
    TopStatementView::DeclarationStatement(
        DeclarationStatementView {
            function: "pow"@,
            args: seq!["a"@, "b"@],
            block: vlist(seq![vret(vcall1("exp_cordic"@, vbin(vvar("b"@), BinaryOp::Multiplication, vcall1("ln_cordic"@, vvar("a"@)))))]),
        },
    )
}

/// Builds the library's `pow` declaration.
#[verifier::loop_isolation(false)]
#[verifier::spinoff_prover]
#[verifier::rlimit(100)]
fn build_cordic_pow() -> (r: TopStatement)
    ensures
        crate::jsonlang::top_stmt_view(r) == cordic_pow_view(),
{
    proof {
        reveal(cordic_pow_view);
        reveal_with_fuel(crate::jsonlang::stmts_view, 14);
    }
    let mut b53: Vec<Statement> = Vec::new();
    let s54 = eret(ecall1("exp_cordic", ebin(evar("b"), BinaryOp::Multiplication, ecall1("ln_cordic", evar("a")))));
    b53.push(s54);
    proof {
        assert(crate::jsonlang::stmts_view(b53@) =~= seq![stmt_view(s54)]);
    }
    let mut args: Vec<String> = Vec::new();
    args.push("a".to_owned());
    args.push("b".to_owned());
    proof {
        assert(crate::jsonlang::names_view(args@) =~= seq!["a"@, "b"@]);
    }
    TopStatement::DeclarationStatement(
        DeclarationStatement { function: "pow".to_owned(), args, block: elist(b53) },
    )
}

/// The whole embedded math-library source: `floor`, the lookup table,
/// the CORDIC logarithm, the CORDIC exponential, and `pow` itself.
#[verifier::opaque]
pub open spec fn cordic_program_view() -> JsonLangView {
    JsonLangView {
        statements: seq![
            cordic_floor_view(),
            cordic_lut_view(),
            cordic_ln_cordic_view(),
            cordic_exp_cordic_view(),
            cordic_pow_view(),
        ],
    }
}

/// Builds the embedded math-library source.
#[verifier::loop_isolation(false)]
#[verifier::spinoff_prover]
pub fn cordic_program() -> (r: JsonLang)
    ensures
        program_view(r) == cordic_program_view(),
{
    proof {
        reveal(cordic_program_view);
        reveal_with_fuel(top_stmts_view, 7);
    }
    let mut statements: Vec<TopStatement> = Vec::new();
    statements.push(build_cordic_floor());
    statements.push(build_cordic_lut());
    statements.push(build_cordic_ln_cordic());
    statements.push(build_cordic_exp_cordic());
    statements.push(build_cordic_pow());
    proof {
        assert(top_stmts_view(statements@) =~= seq![
            cordic_floor_view(),
            cordic_lut_view(),
            cordic_ln_cordic_view(),
            cordic_exp_cordic_view(),
            cordic_pow_view(),
        ]);
    }
    JsonLang { statements }
}

/// The polyfilled math-library store: the embedded source taken through
/// desugaring, scope resolution, type fixup and the polyfill rewrite.
#[verifier::opaque]
pub open spec fn cordic_store_spec() -> Result<
    AnalysisView<PStatementView>,
    CompileError,
> {
    match crate::control_simplification::simplify_top_seq_spec(cordic_program_view().statements) {
        Err(err) => Err(err),
        Ok(sim) => match analyze_top_spec(analysis_empty_spec(), sim) {
            Err(err) => Err(err),
            Ok(a) => polyfill_rewrite_spec(fix_analysis_spec(a)),
        },
    }
}

/// The four spliced functions — `#pow`, the lookup table, the CORDIC
/// logarithm and the CORDIC exponential — compiled from the embedded
/// source and remapped onto the host's index space at `base`.
pub open spec fn generate_exp_polyfills_spec(base: u32) -> Result<
    (
        FunctionView<PStatementView>,
        FunctionView<PStatementView>,
        FunctionView<PStatementView>,
        FunctionView<PStatementView>,
    ),
    CompileError,
> {
    match cordic_store_spec() {
        Err(err) => Err(err),
        Ok(store) => {
            if scope_get(store.funcname_map, "pow"@) is None || scope_get(
                store.funcname_map,
                "cordic_lut"@,
            ) is None || scope_get(store.funcname_map, "ln_cordic"@) is None || scope_get(
                store.funcname_map,
                "exp_cordic"@,
            ) is None || scope_get(store.funcname_map, "floor"@) is None {
                Err(CompileError::InternalInvariantViolation)
            } else {
                let pow_i = scope_get(store.funcname_map, "pow"@).unwrap();
                let lut_i = scope_get(store.funcname_map, "cordic_lut"@).unwrap();
                let ln_i = scope_get(store.funcname_map, "ln_cordic"@).unwrap();
                let exp_i = scope_get(store.funcname_map, "exp_cordic"@).unwrap();
                let floor_i = scope_get(store.funcname_map, "floor"@).unwrap();
                if pow_i >= store.functions.len() || store.functions[pow_i as int] is None
                    || lut_i >= store.functions.len() || store.functions[lut_i as int] is None
                    || ln_i >= store.functions.len() || store.functions[ln_i as int] is None
                    || exp_i >= store.functions.len() || store.functions[exp_i as int] is None {
                    Err(CompileError::InternalInvariantViolation)
                } else {
                    let powf0 = store.functions[pow_i as int].unwrap();
                    let lutf = store.functions[lut_i as int].unwrap();
                    let lnf0 = store.functions[ln_i as int].unwrap();
                    let expf0 = store.functions[exp_i as int].unwrap();
                    match replace_func_spec(base, pow_i, lut_i, ln_i, exp_i, floor_i, powf0) {
                        Err(err) => Err(err),
                        Ok(powf) => match replace_func_spec(
                            base,
                            pow_i,
                            lut_i,
                            ln_i,
                            exp_i,
                            floor_i,
                            lnf0,
                        ) {
                            Err(err) => Err(err),
                            Ok(lnf) => match replace_func_spec(
                                base,
                                pow_i,
                                lut_i,
                                ln_i,
                                exp_i,
                                floor_i,
                                expf0,
                            ) {
                                Err(err) => Err(err),
                                Ok(expf) => Ok((powf, lutf, lnf, expf)),
                            },
                        },
                    }
                }
            }
        },
    }
}

/// Compiles the embedded math library through the front end and remaps
/// the resulting `pow`, logarithm and exponential onto the host's index
/// space at `base_index`; the lookup table is taken as compiled.
#[verifier::loop_isolation(false)]
#[verifier::spinoff_prover]
#[verifier::rlimit(100)]
pub fn generate_exp_polyfills(base_index: u32) -> (r: Result<
    (Function<PStatement>, Function<PStatement>, Function<PStatement>, Function<PStatement>),
    CompileError,
>)
    requires
        base_index + 3 <= u32::MAX,
    ensures
        (match r {
            Ok(t) => generate_exp_polyfills_spec(base_index) == Ok::<
                (
                    FunctionView<PStatementView>,
                    FunctionView<PStatementView>,
                    FunctionView<PStatementView>,
                    FunctionView<PStatementView>,
                ),
                CompileError,
            >((pfunc_view(t.0), pfunc_view(t.1), pfunc_view(t.2), pfunc_view(t.3))),
            Err(err) => generate_exp_polyfills_spec(base_index) == Err::<
                (
                    FunctionView<PStatementView>,
                    FunctionView<PStatementView>,
                    FunctionView<PStatementView>,
                    FunctionView<PStatementView>,
                ),
                CompileError,
            >(err),
        }),
{
    proof {
        reveal(cordic_store_spec);
    }
    let p = cordic_program();
    let sim = match top_simplify_control_structures(p) {
        Ok(v) => v,
        Err(err) => return Err(err),
    };
    let analyzed = match top_analyze_variables(sim) {
        Ok(a) => a,
        Err(err) => return Err(err),
    };
    let fixed = fix_types(analyzed);
    let mut store = match polyfill_rewrite(fixed) {
        Ok(a) => a,
        Err(err) => return Err(err),
    };
    let pow_name: String = "pow".to_owned();
    let lut_name: String = "cordic_lut".to_owned();
    let ln_name: String = "ln_cordic".to_owned();
    let exp_name: String = "exp_cordic".to_owned();
    let floor_name: String = "floor".to_owned();
    let pow_i = match crate::variable_analysis::scope_get_exec(&store.funcname_map, &pow_name) {
        Some(i) => i,
        None => return Err(CompileError::InternalInvariantViolation),
    };
    let lut_i = match crate::variable_analysis::scope_get_exec(&store.funcname_map, &lut_name) {
        Some(i) => i,
        None => return Err(CompileError::InternalInvariantViolation),
    };
    let ln_i = match crate::variable_analysis::scope_get_exec(&store.funcname_map, &ln_name) {
        Some(i) => i,
        None => return Err(CompileError::InternalInvariantViolation),
    };
    let exp_i = match crate::variable_analysis::scope_get_exec(&store.funcname_map, &exp_name) {
        Some(i) => i,
        None => return Err(CompileError::InternalInvariantViolation),
    };
    let floor_i = match crate::variable_analysis::scope_get_exec(&store.funcname_map, &floor_name)
        {
        Some(i) => i,
        None => return Err(CompileError::InternalInvariantViolation),
    };
    if pow_i as usize >= store.functions.len() || lut_i as usize >= store.functions.len()
        || ln_i as usize >= store.functions.len() || exp_i as usize >= store.functions.len() {
        return Err(CompileError::InternalInvariantViolation);
    }
    let powf0 = match &store.functions[pow_i as usize] {
        Some(f) => f,
        None => return Err(CompileError::InternalInvariantViolation),
    };
    let lutf0 = match &store.functions[lut_i as usize] {
        Some(f) => f,
        None => return Err(CompileError::InternalInvariantViolation),
    };
    let lnf0 = match &store.functions[ln_i as usize] {
        Some(f) => f,
        None => return Err(CompileError::InternalInvariantViolation),
    };
    let expf0 = match &store.functions[exp_i as usize] {
        Some(f) => f,
        None => return Err(CompileError::InternalInvariantViolation),
    };
    let lutf = crate::polyfill_ops::clone_pfunction(lutf0);
    let powf = match replace_indexes(base_index, pow_i, lut_i, ln_i, exp_i, floor_i, powf0) {
        Ok(f) => f,
        Err(err) => return Err(err),
    };
    let lnf = match replace_indexes(base_index, pow_i, lut_i, ln_i, exp_i, floor_i, lnf0) {
        Ok(f) => f,
        Err(err) => return Err(err),
    };
    let expf = match replace_indexes(base_index, pow_i, lut_i, ln_i, exp_i, floor_i, expf0) {
        Ok(f) => f,
        Err(err) => return Err(err),
    };
    Ok((powf, lutf, lnf, expf))
}


/// Whether every call in an expression targets one of the three helper
/// indices after `base`.
pub open spec fn calls_within_expr(e: PExpressionView, base: u32) -> bool
    decreases e,
{
    match e {
        PExpressionView::UnaryOp { op: _, arg } => calls_within_expr(*arg, base),
        PExpressionView::BinaryOp { lhs, op: _, rhs } => calls_within_expr(*lhs, base)
            && calls_within_expr(*rhs, base),
        PExpressionView::FunctionCall(i, args) => (i == base || i == (base + 1) as u32 || i == (
        base + 2) as u32 || i == (base + 3) as u32) && calls_within_exprs(args, base),
        _ => true,
    }
}

/// [`calls_within_expr`], over a sequence.
pub open spec fn calls_within_exprs(es: Seq<PExpressionView>, base: u32) -> bool
    decreases es,
{
    if es.len() == 0 {
        true
    } else {
        calls_within_exprs(es.drop_last(), base) && calls_within_expr(es.last(), base)
    }
}

/// [`calls_within_expr`], over a statement.
pub open spec fn calls_within_stmt(s: PStatementView, base: u32) -> bool
    decreases s,
{
    match s {
        PStatementView::Loop(body) => calls_within_stmts(body, base),
        PStatementView::If { cond, then_block, otherwise } => calls_within_expr(cond, base)
            && calls_within_stmts(then_block, base) && calls_within_stmts(otherwise, base),
        PStatementView::LocalSet(_, e) => calls_within_expr(e, base),
        PStatementView::GlobalSet(_, e) => calls_within_expr(e, base),
        PStatementView::Call(_, _) => false,
        PStatementView::Return(e) => calls_within_expr(e, base),
        _ => true,
    }
}

/// [`calls_within_stmt`], over a sequence.
pub open spec fn calls_within_stmts(ss: Seq<PStatementView>, base: u32) -> bool
    decreases ss,
{
    if ss.len() == 0 {
        true
    } else {
        calls_within_stmts(ss.drop_last(), base) && calls_within_stmt(ss.last(), base)
    }
}

/// The splice stays inside its reserved range: every call in a remapped
/// expression targets one of the three helper indices after `base`, so
/// every call target the splice adds to the host's table has a function
/// at it once the helpers stand at those indices.
pub proof fn lemma_replace_expr_calls_within(
    base: u32,
    powi: u32,
    lut: u32,
    ln: u32,
    exp: u32,
    floor: u32,
    e: PExpressionView,
)
    ensures
        (match replace_expr_spec(base, powi, lut, ln, exp, floor, e) {
            Ok(t) => calls_within_expr(t, base),
            Err(_) => true,
        }),
    decreases e,
{
    match e {
        PExpressionView::UnaryOp { op: _, arg } => {
            lemma_replace_expr_calls_within(base, powi, lut, ln, exp, floor, *arg);
        },
        PExpressionView::BinaryOp { lhs, op: _, rhs } => {
            lemma_replace_expr_calls_within(base, powi, lut, ln, exp, floor, *lhs);
            lemma_replace_expr_calls_within(base, powi, lut, ln, exp, floor, *rhs);
        },
        PExpressionView::FunctionCall(i, args) => {
            if i == floor {
                if args.len() > 0 {
                    lemma_replace_expr_calls_within(base, powi, lut, ln, exp, floor, args[0]);
                }
            } else {
                lemma_replace_exprs_calls_within(base, powi, lut, ln, exp, floor, args);
            }
        },
        _ => {},
    }
}

/// [`lemma_replace_expr_calls_within`], over a sequence.
pub proof fn lemma_replace_exprs_calls_within(
    base: u32,
    powi: u32,
    lut: u32,
    ln: u32,
    exp: u32,
    floor: u32,
    es: Seq<PExpressionView>,
)
    ensures
        (match replace_exprs_spec(base, powi, lut, ln, exp, floor, es) {
            Ok(ts) => calls_within_exprs(ts, base),
            Err(_) => true,
        }),
    decreases es,
{
    if es.len() > 0 {
        lemma_replace_exprs_calls_within(base, powi, lut, ln, exp, floor, es.drop_last());
        lemma_replace_expr_calls_within(base, powi, lut, ln, exp, floor, es.last());
        if replace_exprs_spec(base, powi, lut, ln, exp, floor, es) is Ok {
            let ts = replace_exprs_spec(base, powi, lut, ln, exp, floor, es).unwrap();
            assert(ts.drop_last() == replace_exprs_spec(
                base,
                powi,
                lut,
                ln,
                exp,
                floor,
                es.drop_last(),
            ).unwrap());
            assert(ts.last() == replace_expr_spec(base, powi, lut, ln, exp, floor, es.last()).unwrap());
        }
    }
}

/// [`lemma_replace_expr_calls_within`], over a statement.
pub proof fn lemma_replace_stmt_calls_within(
    base: u32,
    powi: u32,
    lut: u32,
    ln: u32,
    exp: u32,
    floor: u32,
    s: PStatementView,
)
    ensures
        (match replace_stmt_spec(base, powi, lut, ln, exp, floor, s) {
            Ok(t) => calls_within_stmt(t, base),
            Err(_) => true,
        }),
    decreases s,
{
    match s {
        PStatementView::Loop(body) => {
            lemma_replace_stmts_calls_within(base, powi, lut, ln, exp, floor, body);
        },
        PStatementView::If { cond, then_block, otherwise } => {
            lemma_replace_expr_calls_within(base, powi, lut, ln, exp, floor, cond);
            lemma_replace_stmts_calls_within(base, powi, lut, ln, exp, floor, then_block);
            lemma_replace_stmts_calls_within(base, powi, lut, ln, exp, floor, otherwise);
        },
        PStatementView::LocalSet(_, e) => {
            lemma_replace_expr_calls_within(base, powi, lut, ln, exp, floor, e);
        },
        PStatementView::GlobalSet(_, e) => {
            lemma_replace_expr_calls_within(base, powi, lut, ln, exp, floor, e);
        },
        PStatementView::Return(e) => {
            lemma_replace_expr_calls_within(base, powi, lut, ln, exp, floor, e);
        },
        _ => {},
    }
}

/// [`lemma_replace_stmt_calls_within`], over a sequence.
pub proof fn lemma_replace_stmts_calls_within(
    base: u32,
    powi: u32,
    lut: u32,
    ln: u32,
    exp: u32,
    floor: u32,
    ss: Seq<PStatementView>,
)
    ensures
        (match replace_stmts_spec(base, powi, lut, ln, exp, floor, ss) {
            Ok(ts) => calls_within_stmts(ts, base),
            Err(_) => true,
        }),
    decreases ss,
{
    if ss.len() > 0 {
        lemma_replace_stmts_calls_within(base, powi, lut, ln, exp, floor, ss.drop_last());
        lemma_replace_stmt_calls_within(base, powi, lut, ln, exp, floor, ss.last());
        if replace_stmts_spec(base, powi, lut, ln, exp, floor, ss) is Ok {
            let ts = replace_stmts_spec(base, powi, lut, ln, exp, floor, ss).unwrap();
            assert(ts.drop_last() == replace_stmts_spec(
                base,
                powi,
                lut,
                ln,
                exp,
                floor,
                ss.drop_last(),
            ).unwrap());
            assert(ts.last() == replace_stmt_spec(base, powi, lut, ln, exp, floor, ss.last()).unwrap());
        }
    }
}

/// The three remapped library functions only call the helper indices
/// after the reserved `base`: the splice can never reach outside the
/// range the polyfill stage fills.
pub proof fn lemma_generate_calls_within(base: u32)
    ensures
        (match generate_exp_polyfills_spec(base) {
            Ok((powf, _lutf, lnf, expf)) => calls_within_stmts(powf.body, base)
                && calls_within_stmts(lnf.body, base) && calls_within_stmts(expf.body, base),
            Err(_) => true,
        }),
{
    if generate_exp_polyfills_spec(base) is Ok {
        match cordic_store_spec() {
            Ok(store) => {
                let lut_i = scope_get(store.funcname_map, "cordic_lut"@).unwrap();
                let ln_i = scope_get(store.funcname_map, "ln_cordic"@).unwrap();
                let exp_i = scope_get(store.funcname_map, "exp_cordic"@).unwrap();
                let floor_i = scope_get(store.funcname_map, "floor"@).unwrap();
                let pow_i = scope_get(store.funcname_map, "pow"@).unwrap();
                lemma_replace_stmts_calls_within(
                    base,
                    pow_i,
                    lut_i,
                    ln_i,
                    exp_i,
                    floor_i,
                    store.functions[pow_i as int].unwrap().body,
                );
                lemma_replace_stmts_calls_within(
                    base,
                    pow_i,
                    lut_i,
                    ln_i,
                    exp_i,
                    floor_i,
                    store.functions[ln_i as int].unwrap().body,
                );
                lemma_replace_stmts_calls_within(
                    base,
                    pow_i,
                    lut_i,
                    ln_i,
                    exp_i,
                    floor_i,
                    store.functions[exp_i as int].unwrap().body,
                );
            },
            Err(_) => {},
        }
    }
}

} // verus!
