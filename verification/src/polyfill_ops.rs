//! Operator polyfilling: operators the target has no native instruction
//! for are rewritten away.  Exponentiation becomes a call to the
//! synthesized `#pow`; `a and b` becomes `(int(a != 0) as float) * b`;
//! `a or b` becomes a call to the synthesized `#logic_or`.  Both operands
//! of the logical operators always evaluate — there is no short circuit.
//! `#pow` and its dependents are compiled from the embedded math library
//! and spliced into the function table at the index reserved for `#pow`.
use crate::error::CompileError;
use crate::jsonlang::BinaryOp as SourceBinaryOp;
use crate::variable_analysis::{
    AnalysisResults, AnalysisView, Function, FunctionView, ScopeView, UnaryOp,
    Expression as RExpression, ExpressionView as RExpressionView, Statement as RStatement,
    StatementView as RStatementView, aexpr_view, aexprs_view, astmt_view, astmts_view,
    afnstable_view, aview, fns_place, is_reserved_name, lemma_scope_get_absent,
    lemma_scope_get_push_other, scope_dense_indices, scope_get, scope_names_unique,
    scope_reserved_free, scope_view,
};
use vstd::prelude::*;

verus! {

broadcast use {
    crate::seq_util::group_seq_facts,
    crate::variable_analysis::lemma_aexprs_view_len,
    crate::variable_analysis::lemma_aexprs_view_index,
    crate::variable_analysis::lemma_astmts_view_len,
    crate::variable_analysis::lemma_astmts_view_index,
};

/// A binary operator of the target instruction set.
#[derive(Debug, Clone, Copy, PartialEq, Eq, Structural)]
pub enum BinaryOp {
    Addition,
    Substraction,
    Multiplication,
    Division,
    IntAddition,
    IntSubstraction,
    IntMultiplication,
    IntDivision,
    Modulo,
    BitwiseAnd,
    BitwiseOr,
    RightShift,
    LeftShift,
    Lesser,
    LessEq,
    Greater,
    GreaterEq,
    Equal,
    NotEqual,
}

/// A polyfilled expression: only target operators remain.
#[derive(Debug, PartialEq)]
pub enum Expression {
    UnaryOp { op: UnaryOp, arg: Box<Expression> },
    BinaryOp { lhs: Box<Expression>, op: BinaryOp, rhs: Box<Expression> },
    LocalGet(u32),
    GlobalGet(u32),
    FunctionCall(u32, Vec<Expression>),
    NumericLiteral(String),
}

/// A polyfilled statement.
#[derive(Debug, PartialEq)]
pub enum Statement {
    Loop(Vec<Statement>),
    If { cond: Expression, then_block: Vec<Statement>, otherwise: Vec<Statement> },
    Break,
    Continue,
    LocalSet(u32, Expression),
    GlobalSet(u32, Expression),
    Call(u32, Vec<Expression>),
    Return(Expression),
}

/// The mathematical mirror of [`Expression`].
pub enum ExpressionView {
    UnaryOp { op: UnaryOp, arg: Box<ExpressionView> },
    BinaryOp { lhs: Box<ExpressionView>, op: BinaryOp, rhs: Box<ExpressionView> },
    LocalGet(u32),
    GlobalGet(u32),
    FunctionCall(u32, Seq<ExpressionView>),
    NumericLiteral(Seq<char>),
}

/// The mathematical mirror of [`Statement`].
pub enum StatementView {
    Loop(Seq<StatementView>),
    If { cond: ExpressionView, then_block: Seq<StatementView>, otherwise: Seq<StatementView> },
    Break,
    Continue,
    LocalSet(u32, ExpressionView),
    GlobalSet(u32, ExpressionView),
    Call(u32, Seq<ExpressionView>),
    Return(ExpressionView),
}

/// The mirror of a polyfilled expression.
pub open spec fn pexpr_view(e: Expression) -> ExpressionView
    decreases e,
{
    match e {
        Expression::UnaryOp { op, arg } => ExpressionView::UnaryOp {
            op: op,
            arg: Box::new(pexpr_view(*arg)),
        },
        Expression::BinaryOp { lhs, op, rhs } => ExpressionView::BinaryOp {
            lhs: Box::new(pexpr_view(*lhs)),
            op: op,
            rhs: Box::new(pexpr_view(*rhs)),
        },
        Expression::LocalGet(i) => ExpressionView::LocalGet(i),
        Expression::GlobalGet(i) => ExpressionView::GlobalGet(i),
        Expression::FunctionCall(i, args) => ExpressionView::FunctionCall(i, pexprs_view(args@)),
        Expression::NumericLiteral(t) => ExpressionView::NumericLiteral(t@),
    }
}

/// The mirror of a sequence of polyfilled expressions.
pub open spec fn pexprs_view(es: Seq<Expression>) -> Seq<ExpressionView>
    decreases es,
{
    if es.len() == 0 {
        Seq::empty()
    } else {
        pexprs_view(es.drop_last()).push(pexpr_view(es.last()))
    }
}

/// The mirror of a polyfilled statement.
pub open spec fn pstmt_view(s: Statement) -> StatementView
    decreases s,
{
    match s {
        Statement::Loop(body) => StatementView::Loop(pstmts_view(body@)),
        Statement::If { cond, then_block, otherwise } => StatementView::If {
            cond: pexpr_view(cond),
            then_block: pstmts_view(then_block@),
            otherwise: pstmts_view(otherwise@),
        },
        Statement::Break => StatementView::Break,
        Statement::Continue => StatementView::Continue,
        Statement::LocalSet(i, e) => StatementView::LocalSet(i, pexpr_view(e)),
        Statement::GlobalSet(i, e) => StatementView::GlobalSet(i, pexpr_view(e)),
        Statement::Call(i, args) => StatementView::Call(i, pexprs_view(args@)),
        Statement::Return(e) => StatementView::Return(pexpr_view(e)),
    }
}

/// The mirror of a sequence of polyfilled statements.
pub open spec fn pstmts_view(ss: Seq<Statement>) -> Seq<StatementView>
    decreases ss,
{
    if ss.len() == 0 {
        Seq::empty()
    } else {
        pstmts_view(ss.drop_last()).push(pstmt_view(ss.last()))
    }
}

/// Element-wise facts about [`pexprs_view`].
pub broadcast proof fn lemma_pexprs_view_len(es: Seq<Expression>)
    ensures
        (#[trigger] pexprs_view(es)).len() == es.len(),
    decreases es.len(),
{
    if es.len() > 0 {
        lemma_pexprs_view_len(es.drop_last());
    }
}

/// [`pexprs_view`] read at one index.
pub broadcast proof fn lemma_pexprs_view_index(es: Seq<Expression>, i: int)
    requires
        0 <= i < es.len(),
    ensures
        #[trigger] pexprs_view(es)[i] == pexpr_view(es[i]),
    decreases es.len(),
{
    lemma_pexprs_view_len(es.drop_last());
    if i < es.len() - 1 {
        lemma_pexprs_view_index(es.drop_last(), i);
    }
}

/// [`pexprs_view`] of a pushed sequence.
pub broadcast proof fn lemma_pexprs_view_push(es: Seq<Expression>, e: Expression)
    ensures
        #[trigger] pexprs_view(es.push(e)) == pexprs_view(es).push(pexpr_view(e)),
{
}

/// Element-wise facts about [`pstmts_view`].
pub broadcast proof fn lemma_pstmts_view_len(ss: Seq<Statement>)
    ensures
        (#[trigger] pstmts_view(ss)).len() == ss.len(),
    decreases ss.len(),
{
    if ss.len() > 0 {
        lemma_pstmts_view_len(ss.drop_last());
    }
}

/// [`pstmts_view`] read at one index.
pub broadcast proof fn lemma_pstmts_view_index(ss: Seq<Statement>, i: int)
    requires
        0 <= i < ss.len(),
    ensures
        #[trigger] pstmts_view(ss)[i] == pstmt_view(ss[i]),
    decreases ss.len(),
{
    lemma_pstmts_view_len(ss.drop_last());
    if i < ss.len() - 1 {
        lemma_pstmts_view_index(ss.drop_last(), i);
    }
}

/// [`pstmts_view`] of a pushed sequence.
pub broadcast proof fn lemma_pstmts_view_push(ss: Seq<Statement>, x: Statement)
    ensures
        #[trigger] pstmts_view(ss.push(x)) == pstmts_view(ss).push(pstmt_view(x)),
{
}

/// The mirror of a polyfilled function.
pub open spec fn pfunc_view(f: Function<Statement>) -> FunctionView<StatementView> {
    FunctionView {
        arguments: f.arguments,
        local_count: f.local_count,
        body: pstmts_view(f.body@),
    }
}

/// The mirror of a polyfilled function table.
pub open spec fn pfnstable_view(fs: Seq<Option<Function<Statement>>>) -> Seq<
    Option<FunctionView<StatementView>>,
> {
    Seq::new(
        fs.len(),
        |i: int| match fs[i] {
            Some(f) => Some(pfunc_view(f)),
            None => None,
        },
    )
}

/// The mirror of a polyfilled analysis container.
pub open spec fn pview(a: AnalysisResults<Statement>) -> AnalysisView<StatementView> {
    AnalysisView {
        global_variables: a.global_variables@,
        funcname_map: scope_view(a.funcname_map@),
        functions: pfnstable_view(a.functions@),
    }
}

/// The target operator of a source operator that needs no polyfill.
pub open spec fn plain_op_spec(op: SourceBinaryOp) -> BinaryOp {
    match op {
        SourceBinaryOp::Addition => BinaryOp::Addition,
        SourceBinaryOp::Substraction => BinaryOp::Substraction,
        SourceBinaryOp::Multiplication => BinaryOp::Multiplication,
        SourceBinaryOp::Division => BinaryOp::Division,
        SourceBinaryOp::BitwiseAnd => BinaryOp::BitwiseAnd,
        SourceBinaryOp::BitwiseOr => BinaryOp::BitwiseOr,
        SourceBinaryOp::RightShift => BinaryOp::RightShift,
        SourceBinaryOp::LeftShift => BinaryOp::LeftShift,
        SourceBinaryOp::Lesser => BinaryOp::Lesser,
        SourceBinaryOp::LessEq => BinaryOp::LessEq,
        SourceBinaryOp::Greater => BinaryOp::Greater,
        SourceBinaryOp::GreaterEq => BinaryOp::GreaterEq,
        SourceBinaryOp::Equal => BinaryOp::Equal,
        SourceBinaryOp::NotEqual => BinaryOp::NotEqual,
        _ => BinaryOp::Addition,
    }
}

/// Whether a source operator passes through the polyfill stage unchanged.
pub open spec fn is_plain_op(op: SourceBinaryOp) -> bool {
    !(op is Exponentiation || op is Modulo || op is LogicalAnd || op is LogicalOr)
}

/// The index of a polyfill helper: an existing entry is reused, else the
/// next dense index is allocated for the name.
pub open spec fn get_polyfill_index_spec(fm: ScopeView, name: Seq<char>) -> Result<
    (ScopeView, u32),
    CompileError,
> {
    match scope_get(fm, name) {
        Some(i) => Ok((fm, i)),
        None => if fm.len() >= u32::MAX as int {
            Err(CompileError::InternalInvariantViolation)
        } else {
            Ok((fm.push((name, fm.len() as u32)), fm.len() as u32))
        },
    }
}

/// The index reserved for `#pow`.  The first exponentiation reserves the
/// whole splice block at once — `#pow` and the three helper indices
/// after it — so no later helper can land inside the block and be
/// overwritten by the splice.
pub open spec fn reserve_pow_block_spec(fm: ScopeView) -> Result<(ScopeView, u32), CompileError> {
    match scope_get(fm, "#pow"@) {
        Some(i) => Ok((fm, i)),
        None => if fm.len() + 3 >= u32::MAX as int {
            Err(CompileError::InternalInvariantViolation)
        } else {
            let p = fm.len() as u32;
            Ok(
                (
                    fm.push(("#pow"@, p)).push(("#cordic_lut"@, (p + 1) as u32)).push(
                        ("#ln_cordic"@, (p + 2) as u32),
                    ).push(("#exp_cordic"@, (p + 3) as u32)),
                    p,
                ),
            )
        },
    }
}

/// The test `int(e != 0) as float` that the logical-and lowering wraps
/// its left operand in.
pub open spec fn zero_test_spec(e: ExpressionView) -> ExpressionView {
    ExpressionView::UnaryOp {
        op: UnaryOp::IntToFloat,
        arg: Box::new(
            ExpressionView::BinaryOp {
                lhs: Box::new(e),
                op: BinaryOp::NotEqual,
                rhs: Box::new(ExpressionView::NumericLiteral("0"@)),
            },
        ),
    }
}

/// One expression polyfilled: exponentiation becomes a `#pow` call,
/// `and` a multiplication by a zero test, `or` a `#logic_or` call; the
/// modulo operator has no lowering and is fatal.
pub open spec fn poly_expr_spec(fm: ScopeView, e: RExpressionView) -> Result<
    (ScopeView, ExpressionView),
    CompileError,
>
    decreases e,
{
    match e {
        RExpressionView::UnaryOp { op, arg } => match poly_expr_spec(fm, *arg) {
            Err(err) => Err(err),
            Ok((f1, a)) => Ok((f1, ExpressionView::UnaryOp { op: op, arg: Box::new(a) })),
        },
        RExpressionView::BinaryOp { lhs, op, rhs } => {
            if is_plain_op(op) {
                match poly_expr_spec(fm, *lhs) {
                    Err(err) => Err(err),
                    Ok((f1, l)) => match poly_expr_spec(f1, *rhs) {
                        Err(err) => Err(err),
                        Ok((f2, r)) => Ok(
                            (
                                f2,
                                ExpressionView::BinaryOp {
                                    lhs: Box::new(l),
                                    op: plain_op_spec(op),
                                    rhs: Box::new(r),
                                },
                            ),
                        ),
                    },
                }
            } else if op is Exponentiation {
                match reserve_pow_block_spec(fm) {
                    Err(err) => Err(err),
                    Ok((f1, idx)) => match poly_expr_spec(f1, *lhs) {
                        Err(err) => Err(err),
                        Ok((f2, l)) => match poly_expr_spec(f2, *rhs) {
                            Err(err) => Err(err),
                            Ok((f3, r)) => Ok(
                                (f3, ExpressionView::FunctionCall(idx, seq![l, r])),
                            ),
                        },
                    },
                }
            } else if op is LogicalAnd {
                match poly_expr_spec(fm, *lhs) {
                    Err(err) => Err(err),
                    Ok((f1, l)) => match poly_expr_spec(f1, *rhs) {
                        Err(err) => Err(err),
                        Ok((f2, r)) => Ok(
                            (
                                f2,
                                ExpressionView::BinaryOp {
                                    lhs: Box::new(zero_test_spec(l)),
                                    op: BinaryOp::Multiplication,
                                    rhs: Box::new(r),
                                },
                            ),
                        ),
                    },
                }
            } else if op is LogicalOr {
                match get_polyfill_index_spec(fm, "#logic_or"@) {
                    Err(err) => Err(err),
                    Ok((f1, idx)) => match poly_expr_spec(f1, *lhs) {
                        Err(err) => Err(err),
                        Ok((f2, l)) => match poly_expr_spec(f2, *rhs) {
                            Err(err) => Err(err),
                            Ok((f3, r)) => Ok(
                                (f3, ExpressionView::FunctionCall(idx, seq![l, r])),
                            ),
                        },
                    },
                }
            } else {
                Err(CompileError::InternalInvariantViolation)
            }
        },
        RExpressionView::LocalGet(i) => Ok((fm, ExpressionView::LocalGet(i))),
        RExpressionView::GlobalGet(i) => Ok((fm, ExpressionView::GlobalGet(i))),
        RExpressionView::FunctionCall(i, args) => match poly_exprs_spec(fm, args) {
            Err(err) => Err(err),
            Ok((f1, ts)) => Ok((f1, ExpressionView::FunctionCall(i, ts))),
        },
        RExpressionView::NumericLiteral(t) => Ok((fm, ExpressionView::NumericLiteral(t))),
    }
}

/// A sequence of expressions polyfilled, the name table threading
/// through.
pub open spec fn poly_exprs_spec(fm: ScopeView, es: Seq<RExpressionView>) -> Result<
    (ScopeView, Seq<ExpressionView>),
    CompileError,
>
    decreases es,
{
    if es.len() == 0 {
        Ok((fm, Seq::empty()))
    } else {
        match poly_exprs_spec(fm, es.drop_last()) {
            Err(err) => Err(err),
            Ok((f1, front)) => match poly_expr_spec(f1, es.last()) {
                Err(err) => Err(err),
                Ok((f2, x)) => Ok((f2, front.push(x))),
            },
        }
    }
}

/// One statement polyfilled.
pub open spec fn poly_stmt_spec(fm: ScopeView, s: RStatementView) -> Result<
    (ScopeView, StatementView),
    CompileError,
>
    decreases s,
{
    match s {
        RStatementView::Loop(body) => match poly_stmts_spec(fm, body) {
            Err(err) => Err(err),
            Ok((f1, b)) => Ok((f1, StatementView::Loop(b))),
        },
        RStatementView::If { cond, then_block, otherwise } => match poly_expr_spec(fm, cond) {
            Err(err) => Err(err),
            Ok((f1, c)) => match poly_stmts_spec(f1, then_block) {
                Err(err) => Err(err),
                Ok((f2, tb)) => match poly_stmts_spec(f2, otherwise) {
                    Err(err) => Err(err),
                    Ok((f3, ob)) => Ok(
                        (f3, StatementView::If { cond: c, then_block: tb, otherwise: ob }),
                    ),
                },
            },
        },
        RStatementView::Break => Ok((fm, StatementView::Break)),
        RStatementView::Continue => Ok((fm, StatementView::Continue)),
        RStatementView::LocalSet(i, e) => match poly_expr_spec(fm, e) {
            Err(err) => Err(err),
            Ok((f1, x)) => Ok((f1, StatementView::LocalSet(i, x))),
        },
        RStatementView::GlobalSet(i, e) => match poly_expr_spec(fm, e) {
            Err(err) => Err(err),
            Ok((f1, x)) => Ok((f1, StatementView::GlobalSet(i, x))),
        },
        RStatementView::Call(i, args) => match poly_exprs_spec(fm, args) {
            Err(err) => Err(err),
            Ok((f1, ts)) => Ok((f1, StatementView::Call(i, ts))),
        },
        RStatementView::Return(e) => match poly_expr_spec(fm, e) {
            Err(err) => Err(err),
            Ok((f1, x)) => Ok((f1, StatementView::Return(x))),
        },
    }
}

/// A sequence of statements polyfilled, in order.
pub open spec fn poly_stmts_spec(fm: ScopeView, ss: Seq<RStatementView>) -> Result<
    (ScopeView, Seq<StatementView>),
    CompileError,
>
    decreases ss,
{
    if ss.len() == 0 {
        Ok((fm, Seq::empty()))
    } else {
        match poly_stmts_spec(fm, ss.drop_last()) {
            Err(err) => Err(err),
            Ok((f1, front)) => match poly_stmt_spec(f1, ss.last()) {
                Err(err) => Err(err),
                Ok((f2, x)) => Ok((f2, front.push(x))),
            },
        }
    }
}

/// The whole function table polyfilled, in index order.
pub open spec fn poly_funcs_spec(
    fm: ScopeView,
    fs: Seq<Option<FunctionView<RStatementView>>>,
) -> Result<(ScopeView, Seq<Option<FunctionView<StatementView>>>), CompileError>
    decreases fs,
{
    if fs.len() == 0 {
        Ok((fm, Seq::empty()))
    } else {
        match poly_funcs_spec(fm, fs.drop_last()) {
            Err(err) => Err(err),
            Ok((f1, front)) => match fs.last() {
                None => Ok((f1, front.push(None))),
                Some(f) => match poly_stmts_spec(f1, f.body) {
                    Err(err) => Err(err),
                    Ok((f2, body)) => Ok(
                        (
                            f2,
                            front.push(
                                Some(
                                    FunctionView {
                                        arguments: f.arguments,
                                        local_count: f.local_count,
                                        body,
                                    },
                                ),
                            ),
                        ),
                    ),
                },
            },
        }
    }
}

/// The body of the synthesized `#logic_or` helper: it returns its first
/// argument when that is nonzero as an integer, else its second; both
/// arguments were already evaluated at the call.
pub open spec fn logic_or_func_view() -> FunctionView<StatementView> {
    FunctionView {
        arguments: 2,
        local_count: 0,
        body: seq![
            StatementView::If {
                cond: ExpressionView::UnaryOp {
                    op: UnaryOp::FloatToInt,
                    arg: Box::new(ExpressionView::LocalGet(0)),
                },
                then_block: seq![StatementView::Return(ExpressionView::LocalGet(0))],
                otherwise: seq![StatementView::Return(ExpressionView::LocalGet(1))],
            },
        ],
    }
}

/// The rewriting half of the polyfill stage: every function body
/// rewritten and the synthesized `#logic_or` body inserted; the `#pow`
/// splice is left to the caller.
pub open spec fn polyfill_rewrite_spec(a: AnalysisView<RStatementView>) -> Result<
    AnalysisView<StatementView>,
    CompileError,
> {
    match poly_funcs_spec(a.funcname_map, a.functions) {
        Err(err) => Err(err),
        Ok((fm1, fs1)) => {
            let fs2 = match scope_get(fm1, "#logic_or"@) {
                Some(i) => fns_place(fs1, i as int, logic_or_func_view()),
                None => fs1,
            };
            Ok(
                AnalysisView {
                    global_variables: a.global_variables,
                    funcname_map: fm1,
                    functions: fs2,
                },
            )
        },
    }
}

/// The whole polyfill stage: the rewrite, then — where `#pow` was
/// requested — the math library compiled and spliced in at the reserved
/// index, its helpers at the three following indices.
pub open spec fn polyfill_ops_spec(a: AnalysisView<RStatementView>) -> Result<
    AnalysisView<StatementView>,
    CompileError,
> {
    match polyfill_rewrite_spec(a) {
        Err(err) => Err(err),
        Ok(r1) => match scope_get(r1.funcname_map, "#pow"@) {
            None => Ok(r1),
            Some(p) => if p > u32::MAX - 3 {
                Err(CompileError::InternalInvariantViolation)
            } else {
                match crate::cordic_polyfill::generate_exp_polyfills_spec(p) {
                    Err(err) => Err(err),
                    Ok((powf, lutf, lnf, expf)) => Ok(
                        AnalysisView {
                            global_variables: r1.global_variables,
                            funcname_map: r1.funcname_map,
                            functions: fns_place(
                                fns_place(
                                    fns_place(
                                        fns_place(r1.functions, p as int, powf),
                                        p + 1,
                                        lutf,
                                    ),
                                    p + 2,
                                    lnf,
                                ),
                                p + 3,
                                expf,
                            ),
                        },
                    ),
                }
            },
        },
    }
}


/// A failed prefix fails the whole expression sequence.
proof fn lemma_poly_exprs_err(fm: ScopeView, es: Seq<RExpressionView>, i: int, e: CompileError)
    requires
        0 <= i <= es.len(),
        poly_exprs_spec(fm, es.take(i)) == Err::<(ScopeView, Seq<ExpressionView>), CompileError>(
            e,
        ),
    ensures
        poly_exprs_spec(fm, es) == Err::<(ScopeView, Seq<ExpressionView>), CompileError>(e),
    decreases es.len() - i,
{
    if i < es.len() {
        lemma_poly_exprs_err(fm, es, i + 1, e);
    } else {
        assert(es.take(i) =~= es);
    }
}

/// A failed prefix fails the whole statement sequence.
proof fn lemma_poly_stmts_err(fm: ScopeView, ss: Seq<RStatementView>, i: int, e: CompileError)
    requires
        0 <= i <= ss.len(),
        poly_stmts_spec(fm, ss.take(i)) == Err::<(ScopeView, Seq<StatementView>), CompileError>(e),
    ensures
        poly_stmts_spec(fm, ss) == Err::<(ScopeView, Seq<StatementView>), CompileError>(e),
    decreases ss.len() - i,
{
    if i < ss.len() {
        lemma_poly_stmts_err(fm, ss, i + 1, e);
    } else {
        assert(ss.take(i) =~= ss);
    }
}

/// A failed prefix fails the whole table rewrite.
proof fn lemma_poly_funcs_err(
    fm: ScopeView,
    fs: Seq<Option<FunctionView<RStatementView>>>,
    i: int,
    e: CompileError,
)
    requires
        0 <= i <= fs.len(),
        poly_funcs_spec(fm, fs.take(i)) == Err::<
            (ScopeView, Seq<Option<FunctionView<StatementView>>>),
            CompileError,
        >(e),
    ensures
        poly_funcs_spec(fm, fs) == Err::<
            (ScopeView, Seq<Option<FunctionView<StatementView>>>),
            CompileError,
        >(e),
    decreases fs.len() - i,
{
    if i < fs.len() {
        lemma_poly_funcs_err(fm, fs, i + 1, e);
    } else {
        assert(fs.take(i) =~= fs);
    }
}

/// The index of a polyfill helper, allocating it on first use.
fn get_polyfill_index(fm: &mut Vec<(String, u32)>, name: &String) -> (r: Result<
    u32,
    CompileError,
>)
    ensures
        (match r {
            Ok(i) => get_polyfill_index_spec(scope_view(old(fm)@), name@) == Ok::<
                (ScopeView, u32),
                CompileError,
            >((scope_view(final(fm)@), i)),
            Err(e) => get_polyfill_index_spec(scope_view(old(fm)@), name@) == Err::<
                (ScopeView, u32),
                CompileError,
            >(e),
        }),
{
    if let Some(i) = crate::variable_analysis::scope_get_exec(fm, name) {
        return Ok(i);
    }
    if fm.len() >= u32::MAX as usize {
        return Err(CompileError::InternalInvariantViolation);
    }
    let i = fm.len() as u32;
    let ghost prev = fm@;
    fm.push((name.clone(), i));
    proof {
        assert(scope_view(fm@) =~= scope_view(prev).push((name@, i)));
    }
    Ok(i)
}

/// Reserves the splice block on the first exponentiation: `#pow` and
/// the three helper names after it, at four consecutive fresh indices.
fn reserve_pow_block(fm: &mut Vec<(String, u32)>) -> (r: Result<u32, CompileError>)
    ensures
        (match r {
            Ok(i) => reserve_pow_block_spec(scope_view(old(fm)@)) == Ok::<
                (ScopeView, u32),
                CompileError,
            >((scope_view(final(fm)@), i)),
            Err(e) => reserve_pow_block_spec(scope_view(old(fm)@)) == Err::<
                (ScopeView, u32),
                CompileError,
            >(e),
        }),
{
    let pow_name: String = "#pow".to_owned();
    if let Some(i) = crate::variable_analysis::scope_get_exec(fm, &pow_name) {
        return Ok(i);
    }
    if fm.len() >= (u32::MAX - 3) as usize {
        return Err(CompileError::InternalInvariantViolation);
    }
    let p = fm.len() as u32;
    let ghost prev = fm@;
    fm.push((pow_name, p));
    fm.push(("#cordic_lut".to_owned(), p + 1));
    fm.push(("#ln_cordic".to_owned(), p + 2));
    fm.push(("#exp_cordic".to_owned(), p + 3));
    proof {
        assert(scope_view(fm@) =~= scope_view(prev).push(("#pow"@, p)).push(
            ("#cordic_lut"@, (p + 1) as u32),
        ).push(("#ln_cordic"@, (p + 2) as u32)).push(("#exp_cordic"@, (p + 3) as u32)));
    }
    Ok(p)
}

/// One expression polyfilled.
#[verifier::loop_isolation(false)]
#[verifier::spinoff_prover]
#[verifier::rlimit(100)]
fn poly_expression(fm: &mut Vec<(String, u32)>, e: &RExpression) -> (r: Result<
    Expression,
    CompileError,
>)
    ensures
        (match r {
            Ok(t) => poly_expr_spec(scope_view(old(fm)@), aexpr_view(*e)) == Ok::<
                (ScopeView, ExpressionView),
                CompileError,
            >((scope_view(final(fm)@), pexpr_view(t))),
            Err(err) => poly_expr_spec(scope_view(old(fm)@), aexpr_view(*e)) == Err::<
                (ScopeView, ExpressionView),
                CompileError,
            >(err),
        }),
    decreases *e,
{
    broadcast use {lemma_pexprs_view_len, lemma_pexprs_view_index, lemma_pexprs_view_push, lemma_pstmts_view_len, lemma_pstmts_view_index, lemma_pstmts_view_push};

    proof {
        reveal_with_fuel(pexpr_view, 5);
    }
    match e {
        RExpression::UnaryOp { op, arg } => {
            let a = match poly_expression(fm, &**arg) {
                Ok(t) => t,
                Err(err) => return Err(err),
            };
            Ok(Expression::UnaryOp { op: *op, arg: Box::new(a) })
        },
        RExpression::BinaryOp { lhs, op, rhs } => {
            match op {
                SourceBinaryOp::Exponentiation => {
                    let idx = match reserve_pow_block(fm) {
                        Ok(i) => i,
                        Err(err) => return Err(err),
                    };
                    let l = match poly_expression(fm, &**lhs) {
                        Ok(t) => t,
                        Err(err) => return Err(err),
                    };
                    let r = match poly_expression(fm, &**rhs) {
                        Ok(t) => t,
                        Err(err) => return Err(err),
                    };
                    let mut args: Vec<Expression> = Vec::new();
                    args.push(l);
                    args.push(r);
                    proof {
                        assert(pexprs_view(Seq::<Expression>::empty()) =~= Seq::empty());
                        assert(pexprs_view(args@) =~= seq![
                            pexpr_view(args@[0]),
                            pexpr_view(args@[1]),
                        ]);
                    }
                    Ok(Expression::FunctionCall(idx, args))
                },
                SourceBinaryOp::Modulo => Err(CompileError::InternalInvariantViolation),
                SourceBinaryOp::LogicalAnd => {
                    let l = match poly_expression(fm, &**lhs) {
                        Ok(t) => t,
                        Err(err) => return Err(err),
                    };
                    let r = match poly_expression(fm, &**rhs) {
                        Ok(t) => t,
                        Err(err) => return Err(err),
                    };
                    Ok(
                        Expression::BinaryOp {
                            lhs: Box::new(
                                Expression::UnaryOp {
                                    op: UnaryOp::IntToFloat,
                                    arg: Box::new(
                                        Expression::BinaryOp {
                                            lhs: Box::new(l),
                                            op: BinaryOp::NotEqual,
                                            rhs: Box::new(
                                                Expression::NumericLiteral("0".to_owned()),
                                            ),
                                        },
                                    ),
                                },
                            ),
                            op: BinaryOp::Multiplication,
                            rhs: Box::new(r),
                        },
                    )
                },
                SourceBinaryOp::LogicalOr => {
                    let or_name: String = "#logic_or".to_owned();
                    let idx = match get_polyfill_index(fm, &or_name) {
                        Ok(i) => i,
                        Err(err) => return Err(err),
                    };
                    let l = match poly_expression(fm, &**lhs) {
                        Ok(t) => t,
                        Err(err) => return Err(err),
                    };
                    let r = match poly_expression(fm, &**rhs) {
                        Ok(t) => t,
                        Err(err) => return Err(err),
                    };
                    let mut args: Vec<Expression> = Vec::new();
                    args.push(l);
                    args.push(r);
                    proof {
                        assert(pexprs_view(Seq::<Expression>::empty()) =~= Seq::empty());
                        assert(pexprs_view(args@) =~= seq![
                            pexpr_view(args@[0]),
                            pexpr_view(args@[1]),
                        ]);
                    }
                    Ok(Expression::FunctionCall(idx, args))
                },
                _ => {
                    let l = match poly_expression(fm, &**lhs) {
                        Ok(t) => t,
                        Err(err) => return Err(err),
                    };
                    let r = match poly_expression(fm, &**rhs) {
                        Ok(t) => t,
                        Err(err) => return Err(err),
                    };
                    let op2 = match op {
                        SourceBinaryOp::Addition => BinaryOp::Addition,
                        SourceBinaryOp::Substraction => BinaryOp::Substraction,
                        SourceBinaryOp::Multiplication => BinaryOp::Multiplication,
                        SourceBinaryOp::Division => BinaryOp::Division,
                        SourceBinaryOp::BitwiseAnd => BinaryOp::BitwiseAnd,
                        SourceBinaryOp::BitwiseOr => BinaryOp::BitwiseOr,
                        SourceBinaryOp::RightShift => BinaryOp::RightShift,
                        SourceBinaryOp::LeftShift => BinaryOp::LeftShift,
                        SourceBinaryOp::Lesser => BinaryOp::Lesser,
                        SourceBinaryOp::LessEq => BinaryOp::LessEq,
                        SourceBinaryOp::Greater => BinaryOp::Greater,
                        SourceBinaryOp::GreaterEq => BinaryOp::GreaterEq,
                        SourceBinaryOp::Equal => BinaryOp::Equal,
                        _ => BinaryOp::NotEqual,
                    };
                    Ok(Expression::BinaryOp { lhs: Box::new(l), op: op2, rhs: Box::new(r) })
                },
            }
        },
        RExpression::LocalGet(i) => Ok(Expression::LocalGet(*i)),
        RExpression::GlobalGet(i) => Ok(Expression::GlobalGet(*i)),
        RExpression::FunctionCall(i, args) => {
            let ts = match poly_args(fm, args) {
                Ok(v) => v,
                Err(err) => return Err(err),
            };
            Ok(Expression::FunctionCall(*i, ts))
        },
        RExpression::NumericLiteral(t) => Ok(Expression::NumericLiteral(t.clone())),
    }
}

/// A vector of expressions polyfilled, in order.
#[verifier::loop_isolation(false)]
fn poly_args(fm: &mut Vec<(String, u32)>, args: &Vec<RExpression>) -> (r: Result<
    Vec<Expression>,
    CompileError,
>)
    ensures
        (match r {
            Ok(ts) => poly_exprs_spec(scope_view(old(fm)@), aexprs_view(args@)) == Ok::<
                (ScopeView, Seq<ExpressionView>),
                CompileError,
            >((scope_view(final(fm)@), pexprs_view(ts@))),
            Err(err) => poly_exprs_spec(scope_view(old(fm)@), aexprs_view(args@)) == Err::<
                (ScopeView, Seq<ExpressionView>),
                CompileError,
            >(err),
        }),
    decreases *args,
{
    broadcast use {lemma_pexprs_view_len, lemma_pexprs_view_index, lemma_pexprs_view_push};

    let ghost fm0 = scope_view(fm@);
    let ghost es = aexprs_view(args@);
    let mut out: Vec<Expression> = Vec::new();
    let mut i: usize = 0;
    while i < args.len()
        invariant
            i <= args@.len(),
            poly_exprs_spec(fm0, es.take(i as int)) == Ok::<
                (ScopeView, Seq<ExpressionView>),
                CompileError,
            >((scope_view(fm@), pexprs_view(out@))),
        decreases args@.len() - i,
    {
        let x = match poly_expression(fm, &args[i]) {
            Ok(t) => t,
            Err(err) => {
                proof {
                    lemma_poly_exprs_err(fm0, es, i as int + 1, err);
                }
                return Err(err);
            },
        };
        out.push(x);
        i = i + 1;
    }
    proof {
        assert(es.take(args@.len() as int) =~= es);
    }
    Ok(out)
}

/// One statement polyfilled.
#[verifier::loop_isolation(false)]
fn poly_statement(fm: &mut Vec<(String, u32)>, s: &RStatement) -> (r: Result<
    Statement,
    CompileError,
>)
    ensures
        (match r {
            Ok(t) => poly_stmt_spec(scope_view(old(fm)@), astmt_view(*s)) == Ok::<
                (ScopeView, StatementView),
                CompileError,
            >((scope_view(final(fm)@), pstmt_view(t))),
            Err(err) => poly_stmt_spec(scope_view(old(fm)@), astmt_view(*s)) == Err::<
                (ScopeView, StatementView),
                CompileError,
            >(err),
        }),
    decreases *s,
{
    broadcast use {lemma_pexprs_view_len, lemma_pexprs_view_index, lemma_pexprs_view_push, lemma_pstmts_view_len, lemma_pstmts_view_index, lemma_pstmts_view_push};

    match s {
        RStatement::Loop(body) => {
            let b = match poly_statement_vec(fm, body) {
                Ok(v) => v,
                Err(err) => return Err(err),
            };
            Ok(Statement::Loop(b))
        },
        RStatement::If { cond, then_block, otherwise } => {
            let c = match poly_expression(fm, cond) {
                Ok(t) => t,
                Err(err) => return Err(err),
            };
            let tb = match poly_statement_vec(fm, then_block) {
                Ok(v) => v,
                Err(err) => return Err(err),
            };
            let ob = match poly_statement_vec(fm, otherwise) {
                Ok(v) => v,
                Err(err) => return Err(err),
            };
            Ok(Statement::If { cond: c, then_block: tb, otherwise: ob })
        },
        RStatement::Break => Ok(Statement::Break),
        RStatement::Continue => Ok(Statement::Continue),
        RStatement::LocalSet(i, e) => {
            let x = match poly_expression(fm, e) {
                Ok(t) => t,
                Err(err) => return Err(err),
            };
            Ok(Statement::LocalSet(*i, x))
        },
        RStatement::GlobalSet(i, e) => {
            let x = match poly_expression(fm, e) {
                Ok(t) => t,
                Err(err) => return Err(err),
            };
            Ok(Statement::GlobalSet(*i, x))
        },
        RStatement::Call(i, args) => {
            let ts = match poly_args(fm, args) {
                Ok(v) => v,
                Err(err) => return Err(err),
            };
            Ok(Statement::Call(*i, ts))
        },
        RStatement::Return(e) => {
            let x = match poly_expression(fm, e) {
                Ok(t) => t,
                Err(err) => return Err(err),
            };
            Ok(Statement::Return(x))
        },
    }
}

/// A vector of statements polyfilled, in order.
#[verifier::loop_isolation(false)]
fn poly_statement_vec(fm: &mut Vec<(String, u32)>, ss: &Vec<RStatement>) -> (r: Result<
    Vec<Statement>,
    CompileError,
>)
    ensures
        (match r {
            Ok(ts) => poly_stmts_spec(scope_view(old(fm)@), astmts_view(ss@)) == Ok::<
                (ScopeView, Seq<StatementView>),
                CompileError,
            >((scope_view(final(fm)@), pstmts_view(ts@))),
            Err(err) => poly_stmts_spec(scope_view(old(fm)@), astmts_view(ss@)) == Err::<
                (ScopeView, Seq<StatementView>),
                CompileError,
            >(err),
        }),
    decreases *ss,
{
    broadcast use {lemma_pstmts_view_len, lemma_pstmts_view_index, lemma_pstmts_view_push};

    let ghost fm0 = scope_view(fm@);
    let ghost sv = astmts_view(ss@);
    let mut out: Vec<Statement> = Vec::new();
    let mut i: usize = 0;
    while i < ss.len()
        invariant
            i <= ss@.len(),
            poly_stmts_spec(fm0, sv.take(i as int)) == Ok::<
                (ScopeView, Seq<StatementView>),
                CompileError,
            >((scope_view(fm@), pstmts_view(out@))),
        decreases ss@.len() - i,
    {
        let x = match poly_statement(fm, &ss[i]) {
            Ok(t) => t,
            Err(err) => {
                proof {
                    lemma_poly_stmts_err(fm0, sv, i as int + 1, err);
                }
                return Err(err);
            },
        };
        out.push(x);
        i = i + 1;
    }
    proof {
        assert(sv.take(ss@.len() as int) =~= sv);
    }
    Ok(out)
}

/// Puts a function at an index of a table, growing the table with empty
/// slots where it is shorter.
#[verifier::loop_isolation(false)]
pub fn table_place<T>(fns: &mut Vec<Option<Function<T>>>, index: u32, f: Function<T>)
    ensures
        final(fns)@.len() == vstd::math::max(old(fns)@.len() as int, index as int + 1),
        forall|j: int|
            0 <= j < final(fns)@.len() && j != index as int ==> final(fns)@[j] == (if j < old(
                fns,
            )@.len() {
                old(fns)@[j]
            } else {
                None
            }),
        final(fns)@[index as int] == Some(f),
{
    let idx = index as usize;
    let ghost orig = fns@;
    while fns.len() < idx
        invariant
            fns@.len() >= orig.len(),
            orig.len() >= idx ==> fns@ == orig,
            orig.len() < idx ==> fns@.len() <= idx && fns@.take(orig.len() as int) =~= orig && (
            forall|j: int| orig.len() <= j < fns@.len() ==> fns@[j] is None),
        decreases idx - fns@.len(),
    {
        fns.push(None);
    }
    if fns.len() == idx {
        fns.push(Some(f));
    } else {
        let _ = fns.remove(idx);
        fns.insert(idx, Some(f));
    }
}

/// [`table_place`], with its effect stated over the table's mirror.
#[verifier::loop_isolation(false)]
fn table_place_viewed(fns: &mut Vec<Option<Function<Statement>>>, index: u32, f: Function<Statement>)
    ensures
        pfnstable_view(final(fns)@) == fns_place(
            pfnstable_view(old(fns)@),
            index as int,
            pfunc_view(f),
        ),
{
    let ghost ov = pfnstable_view(fns@);
    let ghost fv = pfunc_view(f);
    table_place(fns, index, f);
    proof {
        let nv = pfnstable_view(fns@);
        let idx = index as int;
        if idx < ov.len() {
            assert(nv =~= ov.update(idx, Some(fv)));
        } else {
            assert(nv =~= ov + Seq::new((idx - ov.len()) as nat, |j: int| None).push(Some(fv)));
        }
    }
}

impl AnalysisResults<Statement> {
    /// The polyfill stage: rewrites every function body, inserts the
    /// synthesized `#logic_or`, and — where `#pow` was requested —
    /// compiles the embedded math library and splices it in at the
    /// reserved indices.
    #[verifier::loop_isolation(false)]
    pub fn polyfill_ops(program: AnalysisResults<RStatement>) -> (r: Result<Self, CompileError>)
        ensures
            (match r {
                Ok(a) => polyfill_ops_spec(aview(program)) == Ok::<
                    AnalysisView<StatementView>,
                    CompileError,
                >(pview(a)),
                Err(err) => polyfill_ops_spec(aview(program)) == Err::<
                    AnalysisView<StatementView>,
                    CompileError,
                >(err),
            }),
            scope_dense_indices(scope_view(program.funcname_map@)) && scope_names_unique(
                scope_view(program.funcname_map@),
            ) && scope_reserved_free(scope_view(program.funcname_map@)) ==> (match r {
                Ok(a) => scope_dense_indices(scope_view(a.funcname_map@)) && scope_names_unique(
                    scope_view(a.funcname_map@),
                ),
                Err(_) => true,
            }),
    {
        broadcast use {lemma_pstmts_view_len, lemma_pstmts_view_index};

        proof {
            let fm0 = scope_view(program.funcname_map@);
            if scope_dense_indices(fm0) && scope_names_unique(fm0) && scope_reserved_free(fm0) {
                lemma_reserved_free_table_wf(fm0);
                lemma_polyfill_ops_table_injective(aview(program));
            }
        }
        let mut res = match polyfill_rewrite(program) {
            Ok(a) => a,
            Err(err) => return Err(err),
        };
        let pow_name: String = "#pow".to_owned();
        let index = match crate::variable_analysis::scope_get_exec(&res.funcname_map, &pow_name) {
            Some(i) => i,
            None => {
                return Ok(res);
            },
        };
        if index > u32::MAX - 3 {
            return Err(CompileError::InternalInvariantViolation);
        }
        let (cordic_pow, lut_table, cordic_ln, cordic_exp) =
            match crate::cordic_polyfill::generate_exp_polyfills(index) {
            Ok(t) => t,
            Err(err) => return Err(err),
        };
        table_place_viewed(&mut res.functions, index, cordic_pow);
        table_place_viewed(&mut res.functions, index + 1, lut_table);
        table_place_viewed(&mut res.functions, index + 2, cordic_ln);
        table_place_viewed(&mut res.functions, index + 3, cordic_exp);
        proof {
            assert(pview(res) =~~= polyfill_ops_spec(aview(program)).unwrap());
        }
        Ok(res)
    }
}

/// The rewriting half of the polyfill stage.
#[verifier::loop_isolation(false)]
pub fn polyfill_rewrite(program: AnalysisResults<RStatement>) -> (r: Result<
    AnalysisResults<Statement>,
    CompileError,
>)
    ensures
        (match r {
            Ok(a) => polyfill_rewrite_spec(aview(program)) == Ok::<
                AnalysisView<StatementView>,
                CompileError,
            >(pview(a)),
            Err(err) => polyfill_rewrite_spec(aview(program)) == Err::<
                AnalysisView<StatementView>,
                CompileError,
            >(err),
        }),
{
    broadcast use {lemma_pstmts_view_len, lemma_pstmts_view_index, lemma_pstmts_view_push};

    let ghost a0 = aview(program);
    let AnalysisResults { global_variables, funcname_map, functions } = program;
    let mut funcname_map = funcname_map;
    let mut functions = functions;
    let ghost orig = afnstable_view(functions@);
    let mut out: Vec<Option<Function<Statement>>> = Vec::new();
    proof {
        assert(orig.take(0) =~= Seq::<Option<FunctionView<RStatementView>>>::empty());
        assert(pfnstable_view(out@) =~= Seq::<Option<FunctionView<StatementView>>>::empty());
    }
    let ghost mut i: int = 0;
    while functions.len() > 0
        invariant
            0 <= i <= orig.len(),
            afnstable_view(functions@) =~= orig.skip(i),
            functions@.len() == orig.len() - i,
            poly_funcs_spec(a0.funcname_map, orig.take(i)) == Ok::<
                (ScopeView, Seq<Option<FunctionView<StatementView>>>),
                CompileError,
            >((scope_view(funcname_map@), pfnstable_view(out@))),
        decreases functions@.len(),
    {
        proof {
            assert(orig[i] == afnstable_view(functions@)[0]);
            assert(orig.take(i + 1).last() == orig[i]);
            assert(orig.take(i + 1).drop_last() == orig.take(i));
        }
        let ghost pf = functions@;
        let item = functions.remove(0);
        let ghost prev_out = out@;
        let rewritten: Option<Function<Statement>> = match item {
            Some(f) => {
                let Function { arguments, local_count, body } = f;
                let new_body = match poly_statement_vec(&mut funcname_map, &body) {
                    Ok(v) => v,
                    Err(err) => {
                        proof {
                            lemma_poly_funcs_err(a0.funcname_map, orig, i + 1, err);
                        }
                        return Err(err);
                    },
                };
                Some(Function { arguments, local_count, body: new_body })
            },
            None => None,
        };
        out.push(rewritten);
        proof {
            assert(afnstable_view(functions@) =~= orig.skip(i + 1)) by {
                assert(functions@ =~= pf.drop_first());
                assert forall|j: int| 0 <= j < functions@.len() implies afnstable_view(
                    functions@,
                )[j] == orig.skip(i + 1)[j] by {
                    assert(functions@[j] == pf[j + 1]);
                    assert(afnstable_view(pf)[j + 1] == orig.skip(i)[j + 1]);
                }
            }
            assert(pfnstable_view(out@) =~= pfnstable_view(prev_out).push(
                match rewritten {
                    Some(fv) => Some(pfunc_view(fv)),
                    None => None,
                },
            ));
            i = i + 1;
        }
    }
    proof {
        assert(orig.take(orig.len() as int) =~= orig);
    }
    let or_name: String = "#logic_or".to_owned();
    let mut out = out;
    match crate::variable_analysis::scope_get_exec(&funcname_map, &or_name) {
        Some(or_index) => {
            let mut then_b: Vec<Statement> = Vec::new();
            then_b.push(Statement::Return(Expression::LocalGet(0)));
            let mut else_b: Vec<Statement> = Vec::new();
            else_b.push(Statement::Return(Expression::LocalGet(1)));
            proof {
                assert(pstmts_view(Seq::<Statement>::empty()) =~= Seq::empty());
                assert(pstmts_view(then_b@) =~= seq![pstmt_view(then_b@[0])]);
                assert(pstmts_view(else_b@) =~= seq![pstmt_view(else_b@[0])]);
            }
            let ghost tbv = pstmts_view(then_b@);
            let ghost ebv = pstmts_view(else_b@);
            let mut body: Vec<Statement> = Vec::new();
            body.push(
                Statement::If {
                    cond: Expression::UnaryOp {
                        op: UnaryOp::FloatToInt,
                        arg: Box::new(Expression::LocalGet(0)),
                    },
                    then_block: then_b,
                    otherwise: else_b,
                },
            );
            let f = Function { arguments: 2, local_count: 0, body };
            proof {
                assert(pstmts_view(Seq::<Statement>::empty()) =~= Seq::empty());
                assert(pstmts_view(f.body@) =~= logic_or_func_view().body);
                assert(pfunc_view(f) =~~= logic_or_func_view());
            }
            table_place_viewed(&mut out, or_index, f);
        },
        None => {},
    }
    let r = AnalysisResults { global_variables, funcname_map, functions: out };
    proof {
        assert(pview(r) =~~= polyfill_rewrite_spec(a0).unwrap());
    }
    Ok(r)
}

/// The polyfill stage as a free function.
pub fn polyfill_ops(program: AnalysisResults<RStatement>) -> (r: Result<
    AnalysisResults<Statement>,
    CompileError,
>)
    ensures
        (match r {
            Ok(a) => polyfill_ops_spec(aview(program)) == Ok::<
                AnalysisView<StatementView>,
                CompileError,
            >(pview(a)),
            Err(err) => polyfill_ops_spec(aview(program)) == Err::<
                AnalysisView<StatementView>,
                CompileError,
            >(err),
        }),
        scope_dense_indices(scope_view(program.funcname_map@)) && scope_names_unique(
            scope_view(program.funcname_map@),
        ) && scope_reserved_free(scope_view(program.funcname_map@)) ==> (match r {
            Ok(a) => scope_dense_indices(scope_view(a.funcname_map@)) && scope_names_unique(
                scope_view(a.funcname_map@),
            ),
            Err(_) => true,
        }),
{
    AnalysisResults::polyfill_ops(program)
}


/// An explicit deep copy of a polyfilled expression.
#[verifier::loop_isolation(false)]
pub fn clone_pexpression(e: &Expression) -> (r: Expression)
    ensures
        pexpr_view(r) == pexpr_view(*e),
    decreases *e,
{
    match e {
        Expression::UnaryOp { op, arg } => Expression::UnaryOp {
            op: *op,
            arg: Box::new(clone_pexpression(&**arg)),
        },
        Expression::BinaryOp { lhs, op, rhs } => Expression::BinaryOp {
            lhs: Box::new(clone_pexpression(&**lhs)),
            op: *op,
            rhs: Box::new(clone_pexpression(&**rhs)),
        },
        Expression::LocalGet(i) => Expression::LocalGet(*i),
        Expression::GlobalGet(i) => Expression::GlobalGet(*i),
        Expression::FunctionCall(i, args) => Expression::FunctionCall(
            *i,
            clone_pexpressions(args),
        ),
        Expression::NumericLiteral(t) => Expression::NumericLiteral(t.clone()),
    }
}

/// An explicit deep copy of a vector of polyfilled expressions.
#[verifier::loop_isolation(false)]
pub fn clone_pexpressions(es: &Vec<Expression>) -> (r: Vec<Expression>)
    ensures
        pexprs_view(r@) == pexprs_view(es@),
    decreases *es,
{
    broadcast use {lemma_pexprs_view_len, lemma_pexprs_view_index, lemma_pexprs_view_push};

    let mut out: Vec<Expression> = Vec::new();
    let mut i: usize = 0;
    while i < es.len()
        invariant
            i <= es@.len(),
            pexprs_view(out@) == pexprs_view(es@).take(i as int),
        decreases es@.len() - i,
    {
        out.push(clone_pexpression(&es[i]));
        proof {
            assert(pexprs_view(out@) =~= pexprs_view(es@).take(i as int + 1));
        }
        i = i + 1;
    }
    proof {
        assert(pexprs_view(es@).take(es@.len() as int) =~= pexprs_view(es@));
    }
    out
}

/// An explicit deep copy of a polyfilled statement.
#[verifier::loop_isolation(false)]
pub fn clone_pstatement(s: &Statement) -> (r: Statement)
    ensures
        pstmt_view(r) == pstmt_view(*s),
    decreases *s,
{
    match s {
        Statement::Loop(body) => Statement::Loop(clone_pstatements(body)),
        Statement::If { cond, then_block, otherwise } => Statement::If {
            cond: clone_pexpression(cond),
            then_block: clone_pstatements(then_block),
            otherwise: clone_pstatements(otherwise),
        },
        Statement::Break => Statement::Break,
        Statement::Continue => Statement::Continue,
        Statement::LocalSet(i, e) => Statement::LocalSet(*i, clone_pexpression(e)),
        Statement::GlobalSet(i, e) => Statement::GlobalSet(*i, clone_pexpression(e)),
        Statement::Call(i, args) => Statement::Call(*i, clone_pexpressions(args)),
        Statement::Return(e) => Statement::Return(clone_pexpression(e)),
    }
}

/// An explicit deep copy of a vector of polyfilled statements.
#[verifier::loop_isolation(false)]
pub fn clone_pstatements(ss: &Vec<Statement>) -> (r: Vec<Statement>)
    ensures
        pstmts_view(r@) == pstmts_view(ss@),
    decreases *ss,
{
    broadcast use {lemma_pstmts_view_len, lemma_pstmts_view_index, lemma_pstmts_view_push};

    let mut out: Vec<Statement> = Vec::new();
    let mut i: usize = 0;
    while i < ss.len()
        invariant
            i <= ss@.len(),
            pstmts_view(out@) == pstmts_view(ss@).take(i as int),
        decreases ss@.len() - i,
    {
        out.push(clone_pstatement(&ss[i]));
        proof {
            assert(pstmts_view(out@) =~= pstmts_view(ss@).take(i as int + 1));
        }
        i = i + 1;
    }
    proof {
        assert(pstmts_view(ss@).take(ss@.len() as int) =~= pstmts_view(ss@));
    }
    out
}

/// An explicit deep copy of a polyfilled function.
pub fn clone_pfunction(f: &Function<Statement>) -> (r: Function<Statement>)
    ensures
        pfunc_view(r) == pfunc_view(*f),
{
    Function {
        arguments: f.arguments,
        local_count: f.local_count,
        body: clone_pstatements(&f.body),
    }
}


/// The splice-block discipline of a name table: the three helper names
/// only ever enter together with `#pow`, so while `#pow` is absent they
/// are too and the reservation can bind all four at fresh indices.
pub open spec fn splice_block_coherent(fm: ScopeView) -> bool {
    scope_get(fm, "#pow"@) is None ==> scope_get(fm, "#cordic_lut"@) is None && scope_get(
        fm,
        "#ln_cordic"@,
    ) is None && scope_get(fm, "#exp_cordic"@) is None
}

/// A name table the polyfill stage keeps well-formed: positional
/// indices, unique names, and the splice-block discipline.
pub open spec fn table_wf(fm: ScopeView) -> bool {
    scope_dense_indices(fm) && scope_names_unique(fm) && splice_block_coherent(fm)
}

/// A table free of reserved names — the scope resolver's output — is
/// well-formed for the polyfill stage once its indices are positional
/// and its names unique.
pub proof fn lemma_reserved_free_table_wf(fm: ScopeView)
    requires
        scope_dense_indices(fm),
        scope_names_unique(fm),
        scope_reserved_free(fm),
    ensures
        table_wf(fm),
{
    lemma_reserved_names_facts();
    lemma_scope_get_absent(fm, "#cordic_lut"@);
    lemma_scope_get_absent(fm, "#ln_cordic"@);
    lemma_scope_get_absent(fm, "#exp_cordic"@);
}

/// The reserved names and `#logic_or` are pairwise distinct, and each is
/// reserved.
proof fn lemma_reserved_names_facts()
    ensures
        is_reserved_name("#pow"@),
        is_reserved_name("#logic_or"@),
        is_reserved_name("#cordic_lut"@),
        is_reserved_name("#ln_cordic"@),
        is_reserved_name("#exp_cordic"@),
        "#pow"@ != "#logic_or"@ && "#pow"@ != "#cordic_lut"@ && "#pow"@ != "#ln_cordic"@
            && "#pow"@ != "#exp_cordic"@,
        "#logic_or"@ != "#cordic_lut"@ && "#logic_or"@ != "#ln_cordic"@ && "#logic_or"@
            != "#exp_cordic"@,
        "#cordic_lut"@ != "#ln_cordic"@ && "#cordic_lut"@ != "#exp_cordic"@,
        "#ln_cordic"@ != "#exp_cordic"@,
{
    reveal_strlit("#pow");
    reveal_strlit("#logic_or");
    reveal_strlit("#cordic_lut");
    reveal_strlit("#ln_cordic");
    reveal_strlit("#exp_cordic");
    assert("#pow"@.len() == 4);
    assert("#logic_or"@.len() == 9);
    assert("#cordic_lut"@.len() == 11);
    assert("#ln_cordic"@.len() == 10);
    assert("#exp_cordic"@.len() == 11);
    assert("#cordic_lut"@[1] == 'c');
    assert("#exp_cordic"@[1] == 'e');
}

/// Allocating the `#logic_or` helper preserves the table's
/// well-formedness: it binds a fresh name to the next position.
proof fn lemma_logic_or_alloc_wf(fm: ScopeView)
    requires
        table_wf(fm),
    ensures
        (match get_polyfill_index_spec(fm, "#logic_or"@) {
            Ok((f1, _)) => table_wf(f1),
            Err(_) => true,
        }),
{
    lemma_reserved_names_facts();
    match scope_get(fm, "#logic_or"@) {
        Some(_) => {},
        None => {
            if fm.len() < u32::MAX as int {
                let x = ("#logic_or"@, fm.len() as u32);
                let f1 = fm.push(x);
                lemma_scope_get_absent(fm, "#logic_or"@);
                assert forall|j: int, k: int| 0 <= j < k < f1.len() implies (#[trigger] f1[j]).0
                    != (#[trigger] f1[k]).0 by {
                    if k == f1.len() - 1 {
                        assert(f1[j] == fm[j]);
                    }
                }
                lemma_scope_get_push_other(fm, x, "#pow"@);
                lemma_scope_get_push_other(fm, x, "#cordic_lut"@);
                lemma_scope_get_push_other(fm, x, "#ln_cordic"@);
                lemma_scope_get_push_other(fm, x, "#exp_cordic"@);
            }
        },
    }
}

/// Reserving the splice block preserves the table's well-formedness:
/// the four names enter together at four fresh consecutive positions.
proof fn lemma_reserve_wf(fm: ScopeView)
    requires
        table_wf(fm),
    ensures
        (match reserve_pow_block_spec(fm) {
            Ok((f1, _)) => table_wf(f1),
            Err(_) => true,
        }),
{
    lemma_reserved_names_facts();
    match scope_get(fm, "#pow"@) {
        Some(_) => {},
        None => {
            if fm.len() + 3 < u32::MAX as int {
                let p = fm.len() as u32;
                let x0 = ("#pow"@, p);
                let x1 = ("#cordic_lut"@, (p + 1) as u32);
                let x2 = ("#ln_cordic"@, (p + 2) as u32);
                let x3 = ("#exp_cordic"@, (p + 3) as u32);
                let f1 = fm.push(x0).push(x1).push(x2).push(x3);
                lemma_scope_get_absent(fm, "#pow"@);
                lemma_scope_get_absent(fm, "#cordic_lut"@);
                lemma_scope_get_absent(fm, "#ln_cordic"@);
                lemma_scope_get_absent(fm, "#exp_cordic"@);
                assert forall|j: int| 0 <= j < f1.len() implies (#[trigger] f1[j]).1 == j by {
                    if j < fm.len() {
                        assert(f1[j] == fm[j]);
                    }
                }
                assert forall|j: int, k: int| 0 <= j < k < f1.len() implies (#[trigger] f1[j]).0
                    != (#[trigger] f1[k]).0 by {
                    if k < fm.len() {
                    } else {
                        if j < fm.len() {
                            assert(f1[j] == fm[j]);
                        }
                    }
                }
                lemma_scope_get_push_other(fm.push(x0).push(x1).push(x2), x3, "#pow"@);
                lemma_scope_get_push_other(fm.push(x0).push(x1), x2, "#pow"@);
                lemma_scope_get_push_other(fm.push(x0), x1, "#pow"@);
                assert(scope_get(f1, "#pow"@) is Some);
            }
        },
    }
}

/// The polyfill rewrite of one expression preserves the name table's
/// well-formedness.
proof fn lemma_poly_expr_wf(fm: ScopeView, e: RExpressionView)
    requires
        table_wf(fm),
    ensures
        (match poly_expr_spec(fm, e) {
            Ok((f1, _)) => table_wf(f1),
            Err(_) => true,
        }),
    decreases e,
{
    match e {
        RExpressionView::UnaryOp { op: _, arg } => {
            lemma_poly_expr_wf(fm, *arg);
        },
        RExpressionView::BinaryOp { lhs, op, rhs } => {
            if is_plain_op(op) || op is LogicalAnd {
                lemma_poly_expr_wf(fm, *lhs);
                if let Ok((f1, _)) = poly_expr_spec(fm, *lhs) {
                    lemma_poly_expr_wf(f1, *rhs);
                }
            } else if op is Exponentiation {
                lemma_reserve_wf(fm);
                if let Ok((f1, _)) = reserve_pow_block_spec(fm) {
                    lemma_poly_expr_wf(f1, *lhs);
                    if let Ok((f2, _)) = poly_expr_spec(f1, *lhs) {
                        lemma_poly_expr_wf(f2, *rhs);
                    }
                }
            } else if op is LogicalOr {
                lemma_logic_or_alloc_wf(fm);
                if let Ok((f1, _)) = get_polyfill_index_spec(fm, "#logic_or"@) {
                    lemma_poly_expr_wf(f1, *lhs);
                    if let Ok((f2, _)) = poly_expr_spec(f1, *lhs) {
                        lemma_poly_expr_wf(f2, *rhs);
                    }
                }
            }
        },
        RExpressionView::FunctionCall(_, args) => {
            lemma_poly_exprs_wf(fm, args);
        },
        _ => {},
    }
}

/// [`lemma_poly_expr_wf`], over a sequence.
proof fn lemma_poly_exprs_wf(fm: ScopeView, es: Seq<RExpressionView>)
    requires
        table_wf(fm),
    ensures
        (match poly_exprs_spec(fm, es) {
            Ok((f1, _)) => table_wf(f1),
            Err(_) => true,
        }),
    decreases es,
{
    if es.len() > 0 {
        lemma_poly_exprs_wf(fm, es.drop_last());
        if let Ok((f1, _)) = poly_exprs_spec(fm, es.drop_last()) {
            lemma_poly_expr_wf(f1, es.last());
        }
    }
}

/// [`lemma_poly_expr_wf`], over a statement.
proof fn lemma_poly_stmt_wf(fm: ScopeView, s: RStatementView)
    requires
        table_wf(fm),
    ensures
        (match poly_stmt_spec(fm, s) {
            Ok((f1, _)) => table_wf(f1),
            Err(_) => true,
        }),
    decreases s,
{
    match s {
        RStatementView::Loop(body) => {
            lemma_poly_stmts_wf(fm, body);
        },
        RStatementView::If { cond, then_block, otherwise } => {
            lemma_poly_expr_wf(fm, cond);
            if let Ok((f1, _)) = poly_expr_spec(fm, cond) {
                lemma_poly_stmts_wf(f1, then_block);
                if let Ok((f2, _)) = poly_stmts_spec(f1, then_block) {
                    lemma_poly_stmts_wf(f2, otherwise);
                }
            }
        },
        RStatementView::LocalSet(_, e) => {
            lemma_poly_expr_wf(fm, e);
        },
        RStatementView::GlobalSet(_, e) => {
            lemma_poly_expr_wf(fm, e);
        },
        RStatementView::Call(_, args) => {
            lemma_poly_exprs_wf(fm, args);
        },
        RStatementView::Return(e) => {
            lemma_poly_expr_wf(fm, e);
        },
        _ => {},
    }
}

/// [`lemma_poly_stmt_wf`], over a sequence.
proof fn lemma_poly_stmts_wf(fm: ScopeView, ss: Seq<RStatementView>)
    requires
        table_wf(fm),
    ensures
        (match poly_stmts_spec(fm, ss) {
            Ok((f1, _)) => table_wf(f1),
            Err(_) => true,
        }),
    decreases ss,
{
    if ss.len() > 0 {
        lemma_poly_stmts_wf(fm, ss.drop_last());
        if let Ok((f1, _)) = poly_stmts_spec(fm, ss.drop_last()) {
            lemma_poly_stmt_wf(f1, ss.last());
        }
    }
}

/// [`lemma_poly_stmt_wf`], over a function table.
proof fn lemma_poly_funcs_wf(fm: ScopeView, fs: Seq<Option<FunctionView<RStatementView>>>)
    requires
        table_wf(fm),
    ensures
        (match poly_funcs_spec(fm, fs) {
            Ok((f1, _)) => table_wf(f1),
            Err(_) => true,
        }),
    decreases fs,
{
    if fs.len() > 0 {
        lemma_poly_funcs_wf(fm, fs.drop_last());
        if let Ok((f1, _)) = poly_funcs_spec(fm, fs.drop_last()) {
            match fs.last() {
                None => {},
                Some(f) => {
                    lemma_poly_stmts_wf(f1, f.body);
                },
            }
        }
    }
}

/// The polyfill stage keeps the name table injective: on the resolver's
/// well-formed table (positional indices, unique names, no reserved
/// name), the result still maps distinct names to distinct indices, one
/// of them for every position — the reservation of the whole splice
/// block makes a collision between a helper and the splice impossible.
pub proof fn lemma_polyfill_ops_table_injective(a: AnalysisView<RStatementView>)
    requires
        table_wf(a.funcname_map),
    ensures
        (match polyfill_ops_spec(a) {
            Ok(r) => scope_dense_indices(r.funcname_map) && scope_names_unique(r.funcname_map),
            Err(_) => true,
        }),
{
    lemma_poly_funcs_wf(a.funcname_map, a.functions);
}

} // verus!
