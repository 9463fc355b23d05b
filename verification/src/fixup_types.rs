//! Type-polarity fixup: every operator of the target demands one operand
//! representation — 64-bit float for arithmetic, square root, floor and
//! numeric negation; 32-bit integer-as-boolean for the bitwise, shift and
//! logical-negation operators.  Two mutually recursive demand functions
//! walk each expression under the representation its context requires and
//! insert exactly one conversion wherever the natural result differs from
//! the demand.  Comparisons always evaluate their operands as floats;
//! their boolean result is converted to match the context.  Storage
//! writes, call arguments and return values always demand float.
use crate::error::CompileError;
use crate::jsonlang::BinaryOp;
use crate::jsonlang::ExpressionView as SourceExpressionView;
use crate::variable_analysis::{
    ScopeView, VariableStoreView, translate_expr_spec, translate_exprs_spec,
};
use crate::variable_analysis::{
    AnalysisResults, AnalysisView, Expression, ExpressionView, Function, FunctionView, Statement,
    StatementView, UnaryOp, aexpr_view, aexprs_view, astmt_view, astmts_view, aview,
    lemma_aexprs_view_len, lemma_aexprs_view_index, lemma_aexprs_view_push,
    lemma_astmts_view_len, lemma_astmts_view_index, lemma_astmts_view_push, afnstable_view,
    afunc_view,
};
use vstd::prelude::*;

verus! {

broadcast use {
    crate::seq_util::group_seq_facts,
    lemma_aexprs_view_len,
    lemma_aexprs_view_index,
    lemma_aexprs_view_push,
    lemma_astmts_view_len,
    lemma_astmts_view_index,
    lemma_astmts_view_push,
};

/// One float-to-int conversion around an expression.
pub open spec fn into_int_spec(e: ExpressionView) -> ExpressionView {
    ExpressionView::UnaryOp { op: UnaryOp::FloatToInt, arg: Box::new(e) }
}

/// One int-to-float conversion around an expression.
pub open spec fn into_float_spec(e: ExpressionView) -> ExpressionView {
    ExpressionView::UnaryOp { op: UnaryOp::IntToFloat, arg: Box::new(e) }
}

/// The expression under an integer demand: its natural float result, if
/// any, is wrapped in exactly one conversion.
pub open spec fn demand_int_spec(e: ExpressionView) -> ExpressionView
    decreases e, 1int,
{
    match e {
        ExpressionView::UnaryOp { op, arg } => match op {
            UnaryOp::NumericNegation => into_int_spec(
                ExpressionView::UnaryOp {
                    op: UnaryOp::NumericNegation,
                    arg: Box::new(demand_float_spec(*arg)),
                },
            ),
            UnaryOp::BitwiseNegation => ExpressionView::UnaryOp {
                op: UnaryOp::BitwiseNegation,
                arg: Box::new(demand_int_spec(*arg)),
            },
            UnaryOp::LogicNegation => ExpressionView::UnaryOp {
                op: UnaryOp::LogicNegation,
                arg: Box::new(demand_int_spec(*arg)),
            },
            UnaryOp::FloatToInt => ExpressionView::UnaryOp {
                op: UnaryOp::FloatToInt,
                arg: Box::new(demand_float_spec(*arg)),
            },
            UnaryOp::IntToFloat => into_int_spec(
                ExpressionView::UnaryOp {
                    op: UnaryOp::IntToFloat,
                    arg: Box::new(demand_int_spec(*arg)),
                },
            ),
            UnaryOp::Sqrt => into_int_spec(
                ExpressionView::UnaryOp {
                    op: UnaryOp::Sqrt,
                    arg: Box::new(demand_float_spec(*arg)),
                },
            ),
            UnaryOp::Floor => into_int_spec(
                ExpressionView::UnaryOp {
                    op: UnaryOp::Floor,
                    arg: Box::new(demand_float_spec(*arg)),
                },
            ),
        },
        ExpressionView::BinaryOp { lhs, op, rhs } => match op {
            BinaryOp::Lesser | BinaryOp::LessEq | BinaryOp::Greater | BinaryOp::GreaterEq
                | BinaryOp::Equal | BinaryOp::NotEqual => ExpressionView::BinaryOp {
                lhs: Box::new(demand_float_spec(*lhs)),
                op: op,
                rhs: Box::new(demand_float_spec(*rhs)),
            },
            BinaryOp::BitwiseAnd | BinaryOp::BitwiseOr | BinaryOp::RightShift
                | BinaryOp::LeftShift => ExpressionView::BinaryOp {
                lhs: Box::new(demand_int_spec(*lhs)),
                op: op,
                rhs: Box::new(demand_int_spec(*rhs)),
            },
            _ => into_int_spec(
                ExpressionView::BinaryOp {
                    lhs: Box::new(demand_float_spec(*lhs)),
                    op: op,
                    rhs: Box::new(demand_float_spec(*rhs)),
                },
            ),
        },
        ExpressionView::LocalGet(_) => into_int_spec(e),
        ExpressionView::GlobalGet(_) => into_int_spec(e),
        ExpressionView::FunctionCall(index, args) => into_int_spec(
            ExpressionView::FunctionCall(index, demand_float_seq(args)),
        ),
        ExpressionView::NumericLiteral(_) => into_int_spec(e),
    }
}

/// The expression under a float demand: its natural integer result, if
/// any, is wrapped in exactly one conversion.
pub open spec fn demand_float_spec(e: ExpressionView) -> ExpressionView
    decreases e, 1int,
{
    match e {
        ExpressionView::UnaryOp { op, arg } => match op {
            UnaryOp::NumericNegation => ExpressionView::UnaryOp {
                op: UnaryOp::NumericNegation,
                arg: Box::new(demand_float_spec(*arg)),
            },
            UnaryOp::BitwiseNegation => into_float_spec(
                ExpressionView::UnaryOp {
                    op: UnaryOp::BitwiseNegation,
                    arg: Box::new(demand_int_spec(*arg)),
                },
            ),
            UnaryOp::LogicNegation => into_float_spec(
                ExpressionView::UnaryOp {
                    op: UnaryOp::LogicNegation,
                    arg: Box::new(demand_int_spec(*arg)),
                },
            ),
            UnaryOp::FloatToInt => into_float_spec(
                ExpressionView::UnaryOp {
                    op: UnaryOp::FloatToInt,
                    arg: Box::new(demand_int_spec(*arg)),
                },
            ),
            UnaryOp::IntToFloat => ExpressionView::UnaryOp {
                op: UnaryOp::IntToFloat,
                arg: Box::new(demand_int_spec(*arg)),
            },
            UnaryOp::Sqrt => ExpressionView::UnaryOp {
                op: UnaryOp::Sqrt,
                arg: Box::new(demand_float_spec(*arg)),
            },
            UnaryOp::Floor => ExpressionView::UnaryOp {
                op: UnaryOp::Floor,
                arg: Box::new(demand_float_spec(*arg)),
            },
        },
        ExpressionView::BinaryOp { lhs, op, rhs } => match op {
            BinaryOp::Exponentiation | BinaryOp::Modulo | BinaryOp::LogicalAnd
                | BinaryOp::LogicalOr => ExpressionView::BinaryOp {
                lhs: Box::new(demand_float_spec(*lhs)),
                op: op,
                rhs: Box::new(demand_float_spec(*rhs)),
            },
            BinaryOp::BitwiseAnd | BinaryOp::BitwiseOr | BinaryOp::RightShift
                | BinaryOp::LeftShift => into_float_spec(
                ExpressionView::BinaryOp {
                    lhs: Box::new(demand_int_spec(*lhs)),
                    op: op,
                    rhs: Box::new(demand_int_spec(*rhs)),
                },
            ),
            BinaryOp::Lesser | BinaryOp::LessEq | BinaryOp::Greater | BinaryOp::GreaterEq
                | BinaryOp::Equal | BinaryOp::NotEqual => into_float_spec(
                ExpressionView::BinaryOp {
                    lhs: Box::new(demand_float_spec(*lhs)),
                    op: op,
                    rhs: Box::new(demand_float_spec(*rhs)),
                },
            ),
            _ => ExpressionView::BinaryOp {
                lhs: Box::new(demand_float_spec(*lhs)),
                op: op,
                rhs: Box::new(demand_float_spec(*rhs)),
            },
        },
        ExpressionView::LocalGet(_) => e,
        ExpressionView::GlobalGet(_) => e,
        ExpressionView::FunctionCall(index, args) => ExpressionView::FunctionCall(
            index,
            demand_float_seq(args),
        ),
        ExpressionView::NumericLiteral(_) => e,
    }
}

/// Every expression of a sequence demanded float.
pub open spec fn demand_float_seq(es: Seq<ExpressionView>) -> Seq<ExpressionView>
    decreases es, 0int,
{
    if es.len() == 0 {
        Seq::empty()
    } else {
        demand_float_seq(es.drop_last()).push(demand_float_spec(es.last()))
    }
}

/// One statement with every expression demanded: conditions demand an
/// integer result, storage writes, call arguments and return values
/// demand float.
pub open spec fn fix_stmt_spec(s: StatementView) -> StatementView
    decreases s,
{
    match s {
        StatementView::Loop(body) => StatementView::Loop(fix_stmts_spec(body)),
        StatementView::If { cond, then_block, otherwise } => StatementView::If {
            cond: demand_int_spec(cond),
            then_block: fix_stmts_spec(then_block),
            otherwise: fix_stmts_spec(otherwise),
        },
        StatementView::LocalSet(i, e) => StatementView::LocalSet(i, demand_float_spec(e)),
        StatementView::GlobalSet(i, e) => StatementView::GlobalSet(i, demand_float_spec(e)),
        StatementView::Call(i, args) => StatementView::Call(i, demand_float_seq(args)),
        StatementView::Return(e) => StatementView::Return(demand_float_spec(e)),
        StatementView::Break => StatementView::Break,
        StatementView::Continue => StatementView::Continue,
    }
}

/// A sequence of statements, each fixed.
pub open spec fn fix_stmts_spec(ss: Seq<StatementView>) -> Seq<StatementView>
    decreases ss,
{
    if ss.len() == 0 {
        Seq::empty()
    } else {
        fix_stmts_spec(ss.drop_last()).push(fix_stmt_spec(ss.last()))
    }
}

/// A function with its body fixed; arity and local count are untouched.
pub open spec fn fix_func_spec(f: FunctionView<StatementView>) -> FunctionView<StatementView> {
    FunctionView { arguments: f.arguments, local_count: f.local_count, body: fix_stmts_spec(f.body) }
}

/// A whole analysis container with every function body fixed.
pub open spec fn fix_analysis_spec(a: AnalysisView<StatementView>) -> AnalysisView<StatementView> {
    AnalysisView {
        global_variables: a.global_variables,
        funcname_map: a.funcname_map,
        functions: Seq::new(
            a.functions.len(),
            |i: int| match a.functions[i] {
                Some(f) => Some(fix_func_spec(f)),
                None => None,
            },
        ),
    }
}

/// Wraps an expression in one int-to-float conversion.
pub fn into_float(expr: Expression) -> (r: Expression)
    ensures
        aexpr_view(r) == into_float_spec(aexpr_view(expr)),
{
    Expression::UnaryOp { op: UnaryOp::IntToFloat, arg: Box::new(expr) }
}

/// Wraps an expression in one float-to-int conversion.
pub fn into_int(expr: Expression) -> (r: Expression)
    ensures
        aexpr_view(r) == into_int_spec(aexpr_view(expr)),
{
    Expression::UnaryOp { op: UnaryOp::FloatToInt, arg: Box::new(expr) }
}

/// The expression rebuilt under an integer demand.
#[verifier::loop_isolation(false)]
#[verifier::rlimit(30)]
fn demand_int(e: &Expression) -> (r: Expression)
    ensures
        aexpr_view(r) == demand_int_spec(aexpr_view(*e)),
    decreases *e, 1int,
{
    match e {
        Expression::UnaryOp { op, arg } => match op {
            UnaryOp::NumericNegation => into_int(
                Expression::UnaryOp {
                    op: UnaryOp::NumericNegation,
                    arg: Box::new(demand_float(&**arg)),
                },
            ),
            UnaryOp::BitwiseNegation => Expression::UnaryOp {
                op: UnaryOp::BitwiseNegation,
                arg: Box::new(demand_int(&**arg)),
            },
            UnaryOp::LogicNegation => Expression::UnaryOp {
                op: UnaryOp::LogicNegation,
                arg: Box::new(demand_int(&**arg)),
            },
            UnaryOp::FloatToInt => Expression::UnaryOp {
                op: UnaryOp::FloatToInt,
                arg: Box::new(demand_float(&**arg)),
            },
            UnaryOp::IntToFloat => into_int(
                Expression::UnaryOp {
                    op: UnaryOp::IntToFloat,
                    arg: Box::new(demand_int(&**arg)),
                },
            ),
            UnaryOp::Sqrt => into_int(
                Expression::UnaryOp { op: UnaryOp::Sqrt, arg: Box::new(demand_float(&**arg)) },
            ),
            UnaryOp::Floor => into_int(
                Expression::UnaryOp { op: UnaryOp::Floor, arg: Box::new(demand_float(&**arg)) },
            ),
        },
        Expression::BinaryOp { lhs, op, rhs } => match op {
            BinaryOp::Lesser | BinaryOp::LessEq | BinaryOp::Greater | BinaryOp::GreaterEq
                | BinaryOp::Equal | BinaryOp::NotEqual => Expression::BinaryOp {
                lhs: Box::new(demand_float(&**lhs)),
                op: *op,
                rhs: Box::new(demand_float(&**rhs)),
            },
            BinaryOp::BitwiseAnd | BinaryOp::BitwiseOr | BinaryOp::RightShift
                | BinaryOp::LeftShift => Expression::BinaryOp {
                lhs: Box::new(demand_int(&**lhs)),
                op: *op,
                rhs: Box::new(demand_int(&**rhs)),
            },
            _ => into_int(
                Expression::BinaryOp {
                    lhs: Box::new(demand_float(&**lhs)),
                    op: *op,
                    rhs: Box::new(demand_float(&**rhs)),
                },
            ),
        },
        Expression::LocalGet(i) => into_int(Expression::LocalGet(*i)),
        Expression::GlobalGet(i) => into_int(Expression::GlobalGet(*i)),
        Expression::FunctionCall(index, args) => into_int(
            Expression::FunctionCall(*index, demand_float_args(args)),
        ),
        Expression::NumericLiteral(t) => into_int(Expression::NumericLiteral(t.clone())),
    }
}

/// The expression rebuilt under a float demand.
#[verifier::loop_isolation(false)]
#[verifier::rlimit(30)]
fn demand_float(e: &Expression) -> (r: Expression)
    ensures
        aexpr_view(r) == demand_float_spec(aexpr_view(*e)),
    decreases *e, 1int,
{
    match e {
        Expression::UnaryOp { op, arg } => match op {
            UnaryOp::NumericNegation => Expression::UnaryOp {
                op: UnaryOp::NumericNegation,
                arg: Box::new(demand_float(&**arg)),
            },
            UnaryOp::BitwiseNegation => into_float(
                Expression::UnaryOp {
                    op: UnaryOp::BitwiseNegation,
                    arg: Box::new(demand_int(&**arg)),
                },
            ),
            UnaryOp::LogicNegation => into_float(
                Expression::UnaryOp {
                    op: UnaryOp::LogicNegation,
                    arg: Box::new(demand_int(&**arg)),
                },
            ),
            UnaryOp::FloatToInt => into_float(
                Expression::UnaryOp {
                    op: UnaryOp::FloatToInt,
                    arg: Box::new(demand_int(&**arg)),
                },
            ),
            UnaryOp::IntToFloat => Expression::UnaryOp {
                op: UnaryOp::IntToFloat,
                arg: Box::new(demand_int(&**arg)),
            },
            UnaryOp::Sqrt => Expression::UnaryOp {
                op: UnaryOp::Sqrt,
                arg: Box::new(demand_float(&**arg)),
            },
            UnaryOp::Floor => Expression::UnaryOp {
                op: UnaryOp::Floor,
                arg: Box::new(demand_float(&**arg)),
            },
        },
        Expression::BinaryOp { lhs, op, rhs } => match op {
            BinaryOp::Exponentiation | BinaryOp::Modulo | BinaryOp::LogicalAnd
                | BinaryOp::LogicalOr => Expression::BinaryOp {
                lhs: Box::new(demand_float(&**lhs)),
                op: *op,
                rhs: Box::new(demand_float(&**rhs)),
            },
            BinaryOp::BitwiseAnd | BinaryOp::BitwiseOr | BinaryOp::RightShift
                | BinaryOp::LeftShift => into_float(
                Expression::BinaryOp {
                    lhs: Box::new(demand_int(&**lhs)),
                    op: *op,
                    rhs: Box::new(demand_int(&**rhs)),
                },
            ),
            BinaryOp::Lesser | BinaryOp::LessEq | BinaryOp::Greater | BinaryOp::GreaterEq
                | BinaryOp::Equal | BinaryOp::NotEqual => into_float(
                Expression::BinaryOp {
                    lhs: Box::new(demand_float(&**lhs)),
                    op: *op,
                    rhs: Box::new(demand_float(&**rhs)),
                },
            ),
            _ => Expression::BinaryOp {
                lhs: Box::new(demand_float(&**lhs)),
                op: *op,
                rhs: Box::new(demand_float(&**rhs)),
            },
        },
        Expression::LocalGet(i) => Expression::LocalGet(*i),
        Expression::GlobalGet(i) => Expression::GlobalGet(*i),
        Expression::FunctionCall(index, args) => Expression::FunctionCall(
            *index,
            demand_float_args(args),
        ),
        Expression::NumericLiteral(t) => Expression::NumericLiteral(t.clone()),
    }
}

/// Every argument rebuilt under a float demand, in order.
#[verifier::loop_isolation(false)]
fn demand_float_args(args: &Vec<Expression>) -> (r: Vec<Expression>)
    ensures
        aexprs_view(r@) == demand_float_seq(aexprs_view(args@)),
    decreases *args, 0int,
{
    let mut out: Vec<Expression> = Vec::new();
    let mut i: usize = 0;
    while i < args.len()
        invariant
            i <= args@.len(),
            aexprs_view(out@) == demand_float_seq(aexprs_view(args@.take(i as int))),
        decreases args@.len() - i, 0int,
    {
        proof {
            assert(aexprs_view(args@.take(i as int + 1)).drop_last() =~= aexprs_view(
                args@.take(i as int),
            ));
        }
        let x = demand_float(&args[i]);
        out.push(x);
        i = i + 1;
    }
    proof {
        assert(args@.take(args@.len() as int) =~= args@);
    }
    out
}

/// One statement with every expression demanded.
#[verifier::loop_isolation(false)]
fn fix_statement(s: &Statement) -> (r: Statement)
    ensures
        astmt_view(r) == fix_stmt_spec(astmt_view(*s)),
    decreases *s,
{
    match s {
        Statement::Loop(body) => Statement::Loop(fix_statement_vec(body)),
        Statement::If { cond, then_block, otherwise } => Statement::If {
            cond: demand_int(cond),
            then_block: fix_statement_vec(then_block),
            otherwise: fix_statement_vec(otherwise),
        },
        Statement::LocalSet(i, e) => Statement::LocalSet(*i, demand_float(e)),
        Statement::GlobalSet(i, e) => Statement::GlobalSet(*i, demand_float(e)),
        Statement::Call(i, args) => Statement::Call(*i, demand_float_args(args)),
        Statement::Return(e) => Statement::Return(demand_float(e)),
        Statement::Break => Statement::Break,
        Statement::Continue => Statement::Continue,
    }
}

/// A vector of statements, each fixed, in order.
#[verifier::loop_isolation(false)]
fn fix_statement_vec(ss: &Vec<Statement>) -> (r: Vec<Statement>)
    ensures
        astmts_view(r@) == fix_stmts_spec(astmts_view(ss@)),
    decreases *ss,
{
    let mut out: Vec<Statement> = Vec::new();
    let mut i: usize = 0;
    while i < ss.len()
        invariant
            i <= ss@.len(),
            astmts_view(out@) == fix_stmts_spec(astmts_view(ss@.take(i as int))),
        decreases ss@.len() - i,
    {
        proof {
            assert(astmts_view(ss@.take(i as int + 1)).drop_last() =~= astmts_view(
                ss@.take(i as int),
            ));
        }
        let x = fix_statement(&ss[i]);
        out.push(x);
        i = i + 1;
    }
    proof {
        assert(ss@.take(ss@.len() as int) =~= ss@);
    }
    out
}

/// Fixes every function body of a program; the stores and the name table
/// pass through untouched.
#[verifier::loop_isolation(false)]
pub fn fix_types(program: AnalysisResults<Statement>) -> (r: AnalysisResults<Statement>)
    ensures
        aview(r) == fix_analysis_spec(aview(program)),
{
    let ghost orig = program.functions@;
    let AnalysisResults { global_variables, funcname_map, functions } = program;
    let mut functions = functions;
    let mut out: Vec<Option<Function<Statement>>> = Vec::new();
    let ghost mut i: int = 0;
    while functions.len() > 0
        invariant
            0 <= i <= orig.len(),
            functions@ =~= orig.skip(i),
            out@.len() == i,
            forall|j: int|
                0 <= j < i ==> afnstable_view(out@)[j] == (match afnstable_view(orig)[j] {
                    Some(f) => Some(fix_func_spec(f)),
                    None => None::<FunctionView<StatementView>>,
                }),
        decreases functions@.len(),
    {
        proof {
            assert(orig.skip(i).len() == orig.len() - i);
            assert(i < orig.len());
            assert(orig[i] == functions@[0]);
        }
        let item = functions.remove(0);
        let ghost prev_out = out@;
        let fixed: Option<Function<Statement>> = match item {
            Some(f) => {
                let Function { arguments, local_count, body } = f;
                let new_body = fix_statement_vec(&body);
                Some(Function { arguments, local_count, body: new_body })
            },
            None => None,
        };
        out.push(fixed);
        proof {
            assert(functions@ =~= orig.skip(i + 1));
            assert(out@ == prev_out.push(fixed));
            assert forall|j: int| 0 <= j < i + 1 implies afnstable_view(out@)[j] == (
            match afnstable_view(orig)[j] {
                Some(f) => Some(fix_func_spec(f)),
                None => None::<FunctionView<StatementView>>,
            }) by {
                if j < i {
                    assert(afnstable_view(out@)[j] == afnstable_view(prev_out)[j]);
                } else {
                    assert(out@[j] == fixed);
                    assert(orig[j] == item);
                    if let Some(f) = item {
                        assert(afunc_view(fixed.unwrap()).body == astmts_view(
                            fixed.unwrap().body@,
                        ));
                        assert(afnstable_view(out@)[j] == Some(afunc_view(fixed.unwrap())));
                        assert(afnstable_view(orig)[j] == Some(afunc_view(f)));
                        assert(afunc_view(fixed.unwrap()) =~~= fix_func_spec(afunc_view(f)));
                    }
                }
            };
        }
        proof {
            i = i + 1;
        }
    }
    let r = AnalysisResults { global_variables, funcname_map, functions: out };
    proof {
        assert(aview(r).functions =~= fix_analysis_spec(
            AnalysisView {
                global_variables: r.global_variables@,
                funcname_map: crate::variable_analysis::scope_view(r.funcname_map@),
                functions: afnstable_view(orig),
            },
        ).functions);
        assert(aview(r) =~~= fix_analysis_spec(
            AnalysisView {
                global_variables: r.global_variables@,
                funcname_map: crate::variable_analysis::scope_view(r.funcname_map@),
                functions: afnstable_view(orig),
            },
        ));
    }
    r
}


/// Whether an expression holds no conversion operator anywhere; true of
/// everything the scope resolver produces, since the source language has
/// no conversion syntax.
pub open spec fn no_conversions(e: ExpressionView) -> bool
    decreases e,
{
    match e {
        ExpressionView::UnaryOp { op, arg } => !(op is FloatToInt) && !(op is IntToFloat)
            && no_conversions(*arg),
        ExpressionView::BinaryOp { lhs, op: _, rhs } => no_conversions(*lhs) && no_conversions(
            *rhs,
        ),
        ExpressionView::FunctionCall(_, args) => no_conversions_seq(args),
        _ => true,
    }
}

/// [`no_conversions`], over a sequence.
pub open spec fn no_conversions_seq(es: Seq<ExpressionView>) -> bool
    decreases es,
{
    if es.len() == 0 {
        true
    } else {
        no_conversions_seq(es.drop_last()) && no_conversions(es.last())
    }
}

/// Whether an expression is free of directly adjacent inverse
/// conversions: no int-to-float conversion standing immediately around a
/// float-to-int conversion, and none the other way around.
pub open spec fn no_adjacent_inverse(e: ExpressionView) -> bool
    decreases e,
{
    match e {
        ExpressionView::UnaryOp { op, arg } => {
            &&& !(op is FloatToInt && (*arg matches ExpressionView::UnaryOp { op: inner, .. }
                && inner is IntToFloat))
            &&& !(op is IntToFloat && (*arg matches ExpressionView::UnaryOp { op: inner, .. }
                && inner is FloatToInt))
            &&& no_adjacent_inverse(*arg)
        },
        ExpressionView::BinaryOp { lhs, op: _, rhs } => no_adjacent_inverse(*lhs)
            && no_adjacent_inverse(*rhs),
        ExpressionView::FunctionCall(_, args) => no_adjacent_inverse_seq(args),
        _ => true,
    }
}

/// [`no_adjacent_inverse`], over a sequence.
pub open spec fn no_adjacent_inverse_seq(es: Seq<ExpressionView>) -> bool
    decreases es,
{
    if es.len() == 0 {
        true
    } else {
        no_adjacent_inverse_seq(es.drop_last()) && no_adjacent_inverse(es.last())
    }
}

/// The idempotence law of the demand functions: on a conversion-free
/// expression — everything the scope resolver produces — demanding a
/// representation twice gives the tree of demanding it once, so running
/// the fixup over an already-fixed tree is a no-op.  (On a tree that
/// already holds conversions this fails: a conversion standing where its
/// result is re-demanded gains a fresh wrapper on each pass.)
pub proof fn lemma_demand_idempotent(e: ExpressionView)
    requires
        no_conversions(e),
    ensures
        demand_float_spec(demand_float_spec(e)) == demand_float_spec(e),
        demand_int_spec(demand_int_spec(e)) == demand_int_spec(e),
    decreases e, 1int,
{
    match e {
        ExpressionView::UnaryOp { op: _, arg } => {
            lemma_demand_idempotent(*arg);
        },
        ExpressionView::BinaryOp { lhs, op: _, rhs } => {
            lemma_demand_idempotent(*lhs);
            lemma_demand_idempotent(*rhs);
        },
        ExpressionView::FunctionCall(_, args) => {
            lemma_demand_idempotent_seq(args);
        },
        _ => {},
    }
}

/// [`lemma_demand_idempotent`], over a call's arguments.
pub proof fn lemma_demand_idempotent_seq(es: Seq<ExpressionView>)
    requires
        no_conversions_seq(es),
    ensures
        demand_float_seq(demand_float_seq(es)) == demand_float_seq(es),
    decreases es, 0int,
{
    if es.len() > 0 {
        lemma_demand_idempotent_seq(es.drop_last());
        lemma_demand_idempotent(es.last());
        assert(demand_float_seq(es).drop_last() == demand_float_seq(es.drop_last()));
        assert(demand_float_seq(es).last() == demand_float_spec(es.last()));
    }
}

/// The no-adjacent-inverse-conversions law: on a conversion-free
/// expression, the demand functions insert exactly one conversion where
/// the natural and the demanded representation differ, and the result
/// never holds two directly adjacent inverse conversions.
pub proof fn lemma_demand_no_adjacent_inverse(e: ExpressionView)
    requires
        no_conversions(e),
    ensures
        no_adjacent_inverse(demand_float_spec(e)),
        no_adjacent_inverse(demand_int_spec(e)),
    decreases e, 1int,
{
    reveal_with_fuel(no_adjacent_inverse, 5);
    reveal_with_fuel(demand_float_spec, 3);
    reveal_with_fuel(demand_int_spec, 3);
    match e {
        ExpressionView::UnaryOp { op: _, arg } => {
            lemma_demand_no_adjacent_inverse(*arg);
        },
        ExpressionView::BinaryOp { lhs, op: _, rhs } => {
            lemma_demand_no_adjacent_inverse(*lhs);
            lemma_demand_no_adjacent_inverse(*rhs);
        },
        ExpressionView::FunctionCall(_, args) => {
            lemma_demand_no_adjacent_inverse_seq(args);
        },
        _ => {},
    }
}

/// [`lemma_demand_no_adjacent_inverse`], over a call's arguments.
pub proof fn lemma_demand_no_adjacent_inverse_seq(es: Seq<ExpressionView>)
    requires
        no_conversions_seq(es),
    ensures
        no_adjacent_inverse_seq(demand_float_seq(es)),
    decreases es, 0int,
{
    if es.len() > 0 {
        lemma_demand_no_adjacent_inverse_seq(es.drop_last());
        lemma_demand_no_adjacent_inverse(es.last());
        assert(demand_float_seq(es).drop_last() == demand_float_seq(es.drop_last()));
        assert(demand_float_seq(es).last() == demand_float_spec(es.last()));
    }
}

/// [`no_conversions`], over a statement.
pub open spec fn no_conversions_stmt(s: StatementView) -> bool
    decreases s,
{
    match s {
        StatementView::Loop(body) => no_conversions_stmts(body),
        StatementView::If { cond, then_block, otherwise } => no_conversions(cond)
            && no_conversions_stmts(then_block) && no_conversions_stmts(otherwise),
        StatementView::LocalSet(_, e) => no_conversions(e),
        StatementView::GlobalSet(_, e) => no_conversions(e),
        StatementView::Call(_, args) => no_conversions_seq(args),
        StatementView::Return(e) => no_conversions(e),
        _ => true,
    }
}

/// [`no_conversions_stmt`], over a sequence.
pub open spec fn no_conversions_stmts(ss: Seq<StatementView>) -> bool
    decreases ss,
{
    if ss.len() == 0 {
        true
    } else {
        no_conversions_stmts(ss.drop_last()) && no_conversions_stmt(ss.last())
    }
}

/// The statement-level idempotence law: fixing an already-fixed
/// statement changes nothing, provided the statement it was fixed from
/// held no conversions — true of everything the scope resolver emits.
pub proof fn lemma_fix_stmt_idempotent(s: StatementView)
    requires
        no_conversions_stmt(s),
    ensures
        fix_stmt_spec(fix_stmt_spec(s)) == fix_stmt_spec(s),
    decreases s,
{
    match s {
        StatementView::Loop(body) => {
            lemma_fix_stmts_idempotent(body);
        },
        StatementView::If { cond, then_block, otherwise } => {
            lemma_demand_idempotent(cond);
            lemma_fix_stmts_idempotent(then_block);
            lemma_fix_stmts_idempotent(otherwise);
        },
        StatementView::LocalSet(_, e) => {
            lemma_demand_idempotent(e);
        },
        StatementView::GlobalSet(_, e) => {
            lemma_demand_idempotent(e);
        },
        StatementView::Call(_, args) => {
            lemma_demand_idempotent_seq(args);
        },
        StatementView::Return(e) => {
            lemma_demand_idempotent(e);
        },
        _ => {},
    }
}

/// [`lemma_fix_stmt_idempotent`], over a sequence.
pub proof fn lemma_fix_stmts_idempotent(ss: Seq<StatementView>)
    requires
        no_conversions_stmts(ss),
    ensures
        fix_stmts_spec(fix_stmts_spec(ss)) == fix_stmts_spec(ss),
    decreases ss,
{
    if ss.len() > 0 {
        lemma_fix_stmts_idempotent(ss.drop_last());
        lemma_fix_stmt_idempotent(ss.last());
        assert(fix_stmts_spec(ss).drop_last() == fix_stmts_spec(ss.drop_last()));
        assert(fix_stmts_spec(ss).last() == fix_stmt_spec(ss.last()));
    }
}

/// The program-level idempotence law: running the whole type fixup on an
/// already-fixed program is a no-op, provided every function body it was
/// fixed from held no conversions.
pub proof fn lemma_fix_analysis_idempotent(a: AnalysisView<StatementView>)
    requires
        forall|i: int|
            0 <= i < a.functions.len() ==> (match #[trigger] a.functions[i] {
                Some(f) => no_conversions_stmts(f.body),
                None => true,
            }),
    ensures
        fix_analysis_spec(fix_analysis_spec(a)) == fix_analysis_spec(a),
{
    let once = fix_analysis_spec(a);
    let twice = fix_analysis_spec(once);
    assert forall|i: int| 0 <= i < twice.functions.len() implies twice.functions[i]
        == once.functions[i] by {
        match a.functions[i] {
            Some(f) => {
                lemma_fix_stmts_idempotent(f.body);
            },
            None => {},
        }
    }
    assert(twice.functions =~= once.functions);
    assert(twice =~~= once);
}


/// What justifies the laws' precondition: the scope resolver never
/// emits a conversion operator, since the source language has no
/// conversion syntax.
pub proof fn lemma_translate_no_conversions(
    fm: ScopeView,
    gl: VariableStoreView,
    ll: VariableStoreView,
    e: SourceExpressionView,
)
    ensures
        (match translate_expr_spec(fm, gl, ll, e) {
            Ok(t) => no_conversions(t),
            Err(_) => true,
        }),
    decreases e,
{
    match e {
        SourceExpressionView::UnaryOp { op: _, arg } => {
            lemma_translate_no_conversions(fm, gl, ll, *arg);
        },
        SourceExpressionView::BinaryOp { lhs, op: _, rhs } => {
            lemma_translate_no_conversions(fm, gl, ll, *lhs);
            lemma_translate_no_conversions(fm, gl, ll, *rhs);
        },
        SourceExpressionView::FunctionCall { name: _, args } => {
            lemma_translate_seq_no_conversions(fm, gl, ll, args);
        },
        _ => {},
    }
}

/// [`lemma_translate_no_conversions`], over a call's arguments.
pub proof fn lemma_translate_seq_no_conversions(
    fm: ScopeView,
    gl: VariableStoreView,
    ll: VariableStoreView,
    es: Seq<SourceExpressionView>,
)
    ensures
        (match translate_exprs_spec(fm, gl, ll, es) {
            Ok(ts) => no_conversions_seq(ts),
            Err(_) => true,
        }),
    decreases es,
{
    if es.len() > 0 {
        lemma_translate_seq_no_conversions(fm, gl, ll, es.drop_last());
        lemma_translate_no_conversions(fm, gl, ll, es.last());
        if translate_exprs_spec(fm, gl, ll, es) is Ok {
            let ts = translate_exprs_spec(fm, gl, ll, es).unwrap();
            assert(ts.drop_last() == translate_exprs_spec(fm, gl, ll, es.drop_last()).unwrap());
            assert(ts.last() == translate_expr_spec(fm, gl, ll, es.last()).unwrap());
        }
    }
}

} // verus!
