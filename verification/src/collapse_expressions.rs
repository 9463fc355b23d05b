//! Expression flattening: nested expression and statement trees become
//! ordered postfix instruction sequences — operands before their
//! operator, a statement-level call followed by an explicit discard,
//! stores and returns after their operand.  `Loop` and `If` remain
//! nesting containers whose children are themselves flattened bodies;
//! `Break` and `Continue` stay symbolic for the labeler.
use crate::polyfill_ops::{
    BinaryOp, Expression, ExpressionView, Statement, StatementView, pexpr_view, pexprs_view,
    pstmt_view, pstmts_view, pfnstable_view, pview, lemma_pexprs_view_len,
    lemma_pexprs_view_index, lemma_pstmts_view_len, lemma_pstmts_view_index,
};
use crate::variable_analysis::{
    AnalysisResults, AnalysisView, Function, FunctionView, UnaryOp, scope_view,
};
use vstd::prelude::*;

verus! {

broadcast use {
    crate::seq_util::group_seq_facts,
    lemma_pexprs_view_len,
    lemma_pexprs_view_index,
    lemma_pstmts_view_len,
    lemma_pstmts_view_index,
};

/// A flattened stack-machine instruction; branch targets are still the
/// symbolic `Break` and `Continue`.
#[derive(Debug, PartialEq)]
pub enum Instruction {
    Loop(Vec<Instruction>),
    If { then_block: Vec<Instruction>, otherwise: Vec<Instruction> },
    Break,
    Continue,
    Const(String),
    LocalGet(u32),
    LocalSet(u32),
    GlobalGet(u32),
    GlobalSet(u32),
    Call(u32),
    Return,
    Drop,
    UnOp(UnaryOp),
    BinOp(BinaryOp),
}

/// The mathematical mirror of [`Instruction`].
pub enum InstructionView {
    Loop(Seq<InstructionView>),
    If { then_block: Seq<InstructionView>, otherwise: Seq<InstructionView> },
    Break,
    Continue,
    Const(Seq<char>),
    LocalGet(u32),
    LocalSet(u32),
    GlobalGet(u32),
    GlobalSet(u32),
    Call(u32),
    Return,
    Drop,
    UnOp(UnaryOp),
    BinOp(BinaryOp),
}

/// The mirror of one flattened instruction.
pub open spec fn uinstr_view(i: Instruction) -> InstructionView
    decreases i,
{
    match i {
        Instruction::Loop(body) => InstructionView::Loop(uinstrs_view(body@)),
        Instruction::If { then_block, otherwise } => InstructionView::If {
            then_block: uinstrs_view(then_block@),
            otherwise: uinstrs_view(otherwise@),
        },
        Instruction::Break => InstructionView::Break,
        Instruction::Continue => InstructionView::Continue,
        Instruction::Const(t) => InstructionView::Const(t@),
        Instruction::LocalGet(i) => InstructionView::LocalGet(i),
        Instruction::LocalSet(i) => InstructionView::LocalSet(i),
        Instruction::GlobalGet(i) => InstructionView::GlobalGet(i),
        Instruction::GlobalSet(i) => InstructionView::GlobalSet(i),
        Instruction::Call(i) => InstructionView::Call(i),
        Instruction::Return => InstructionView::Return,
        Instruction::Drop => InstructionView::Drop,
        Instruction::UnOp(op) => InstructionView::UnOp(op),
        Instruction::BinOp(op) => InstructionView::BinOp(op),
    }
}

/// The mirror of a sequence of flattened instructions.
pub open spec fn uinstrs_view(is: Seq<Instruction>) -> Seq<InstructionView>
    decreases is,
{
    if is.len() == 0 {
        Seq::empty()
    } else {
        uinstrs_view(is.drop_last()).push(uinstr_view(is.last()))
    }
}

/// Element-wise facts about [`uinstrs_view`].
pub broadcast proof fn lemma_uinstrs_view_len(is: Seq<Instruction>)
    ensures
        (#[trigger] uinstrs_view(is)).len() == is.len(),
    decreases is.len(),
{
    if is.len() > 0 {
        lemma_uinstrs_view_len(is.drop_last());
    }
}

/// [`uinstrs_view`] read at one index.
pub broadcast proof fn lemma_uinstrs_view_index(is: Seq<Instruction>, i: int)
    requires
        0 <= i < is.len(),
    ensures
        #[trigger] uinstrs_view(is)[i] == uinstr_view(is[i]),
    decreases is.len(),
{
    lemma_uinstrs_view_len(is.drop_last());
    if i < is.len() - 1 {
        lemma_uinstrs_view_index(is.drop_last(), i);
    }
}

/// [`uinstrs_view`] of a pushed sequence.
pub broadcast proof fn lemma_uinstrs_view_push(is: Seq<Instruction>, x: Instruction)
    ensures
        #[trigger] uinstrs_view(is.push(x)) == uinstrs_view(is).push(uinstr_view(x)),
{
}

/// The postfix form of one expression: operands first, the operator
/// last; a call's arguments precede the call instruction.
pub open spec fn flatten_expr_spec(e: ExpressionView) -> Seq<InstructionView>
    decreases e,
{
    match e {
        ExpressionView::UnaryOp { op, arg } => flatten_expr_spec(*arg).push(
            InstructionView::UnOp(op),
        ),
        ExpressionView::BinaryOp { lhs, op, rhs } => (flatten_expr_spec(*lhs)
            + flatten_expr_spec(*rhs)).push(InstructionView::BinOp(op)),
        ExpressionView::LocalGet(i) => seq![InstructionView::LocalGet(i)],
        ExpressionView::GlobalGet(i) => seq![InstructionView::GlobalGet(i)],
        ExpressionView::FunctionCall(i, args) => flatten_exprs_spec(args).push(
            InstructionView::Call(i),
        ),
        ExpressionView::NumericLiteral(t) => seq![InstructionView::Const(t)],
    }
}

/// The postfix forms of a sequence of expressions, appended in order.
pub open spec fn flatten_exprs_spec(es: Seq<ExpressionView>) -> Seq<InstructionView>
    decreases es,
{
    if es.len() == 0 {
        Seq::empty()
    } else {
        flatten_exprs_spec(es.drop_last()) + flatten_expr_spec(es.last())
    }
}

/// The instruction sequence of one statement: `Loop` and `If` stay
/// containers of flattened bodies; a statement-level call discards its
/// result.
pub open spec fn flatten_stmt_spec(s: StatementView) -> Seq<InstructionView>
    decreases s,
{
    match s {
        StatementView::Loop(body) => seq![InstructionView::Loop(flatten_stmts_spec(body))],
        StatementView::If { cond, then_block, otherwise } => flatten_expr_spec(cond).push(
            InstructionView::If {
                then_block: flatten_stmts_spec(then_block),
                otherwise: flatten_stmts_spec(otherwise),
            },
        ),
        StatementView::Break => seq![InstructionView::Break],
        StatementView::Continue => seq![InstructionView::Continue],
        StatementView::LocalSet(i, e) => flatten_expr_spec(e).push(InstructionView::LocalSet(i)),
        StatementView::GlobalSet(i, e) => flatten_expr_spec(e).push(
            InstructionView::GlobalSet(i),
        ),
        StatementView::Call(i, args) => flatten_exprs_spec(args).push(
            InstructionView::Call(i),
        ).push(InstructionView::Drop),
        StatementView::Return(e) => flatten_expr_spec(e).push(InstructionView::Return),
    }
}

/// The instruction sequences of a statement list, appended in order.
pub open spec fn flatten_stmts_spec(ss: Seq<StatementView>) -> Seq<InstructionView>
    decreases ss,
{
    if ss.len() == 0 {
        Seq::empty()
    } else {
        flatten_stmts_spec(ss.drop_last()) + flatten_stmt_spec(ss.last())
    }
}

/// The mirror of a flattened function table.
pub open spec fn ufnstable_view(fs: Seq<Option<Function<Instruction>>>) -> Seq<
    Option<FunctionView<InstructionView>>,
> {
    Seq::new(
        fs.len(),
        |i: int| match fs[i] {
            Some(f) => Some(
                FunctionView {
                    arguments: f.arguments,
                    local_count: f.local_count,
                    body: uinstrs_view(f.body@),
                },
            ),
            None => None,
        },
    )
}

/// The mirror of a flattened analysis container.
pub open spec fn uview(a: AnalysisResults<Instruction>) -> AnalysisView<InstructionView> {
    AnalysisView {
        global_variables: a.global_variables@,
        funcname_map: scope_view(a.funcname_map@),
        functions: ufnstable_view(a.functions@),
    }
}

/// The flattening of one function: the arity and local count pass
/// through, the body becomes one instruction sequence.
pub open spec fn flatten_func_spec(f: FunctionView<StatementView>) -> FunctionView<
    InstructionView,
> {
    FunctionView {
        arguments: f.arguments,
        local_count: f.local_count,
        body: flatten_stmts_spec(f.body),
    }
}

/// The flattening of a whole analysis container.
pub open spec fn collapse_spec(a: AnalysisView<StatementView>) -> AnalysisView<InstructionView> {
    AnalysisView {
        global_variables: a.global_variables,
        funcname_map: a.funcname_map,
        functions: Seq::new(
            a.functions.len(),
            |i: int| match a.functions[i] {
                Some(f) => Some(flatten_func_spec(f)),
                None => None,
            },
        ),
    }
}

/// Appends the postfix form of one expression.
#[verifier::loop_isolation(false)]
fn flatten_expression(e: &Expression, out: &mut Vec<Instruction>)
    ensures
        uinstrs_view(final(out)@) == uinstrs_view(old(out)@) + flatten_expr_spec(pexpr_view(*e)),
    decreases *e,
{
    broadcast use {lemma_uinstrs_view_len, lemma_uinstrs_view_index, lemma_uinstrs_view_push};

    match e {
        Expression::UnaryOp { op, arg } => {
            flatten_expression(&**arg, out);
            out.push(Instruction::UnOp(*op));
            proof {
                assert(uinstrs_view(out@) =~= uinstrs_view(old(out)@) + flatten_expr_spec(
                    pexpr_view(*e),
                ));
            }
        },
        Expression::BinaryOp { lhs, op, rhs } => {
            flatten_expression(&**lhs, out);
            flatten_expression(&**rhs, out);
            out.push(Instruction::BinOp(*op));
            proof {
                assert(uinstrs_view(out@) =~= uinstrs_view(old(out)@) + flatten_expr_spec(
                    pexpr_view(*e),
                ));
            }
        },
        Expression::LocalGet(i) => {
            out.push(Instruction::LocalGet(*i));
            proof {
                assert(uinstrs_view(out@) =~= uinstrs_view(old(out)@) + flatten_expr_spec(
                    pexpr_view(*e),
                ));
            }
        },
        Expression::GlobalGet(i) => {
            out.push(Instruction::GlobalGet(*i));
            proof {
                assert(uinstrs_view(out@) =~= uinstrs_view(old(out)@) + flatten_expr_spec(
                    pexpr_view(*e),
                ));
            }
        },
        Expression::FunctionCall(i, args) => {
            flatten_arguments(args, out);
            out.push(Instruction::Call(*i));
            proof {
                assert(uinstrs_view(out@) =~= uinstrs_view(old(out)@) + flatten_expr_spec(
                    pexpr_view(*e),
                ));
            }
        },
        Expression::NumericLiteral(t) => {
            out.push(Instruction::Const(t.clone()));
            proof {
                assert(uinstrs_view(out@) =~= uinstrs_view(old(out)@) + flatten_expr_spec(
                    pexpr_view(*e),
                ));
            }
        },
    }
}

/// Appends the postfix forms of each argument, in order.
#[verifier::loop_isolation(false)]
fn flatten_arguments(args: &Vec<Expression>, out: &mut Vec<Instruction>)
    ensures
        uinstrs_view(final(out)@) == uinstrs_view(old(out)@) + flatten_exprs_spec(
            pexprs_view(args@),
        ),
    decreases *args,
{
    let ghost es = pexprs_view(args@);
    let mut i: usize = 0;
    proof {
        assert(es.take(0) =~= Seq::empty());
        assert(uinstrs_view(out@) =~= uinstrs_view(old(out)@) + flatten_exprs_spec(es.take(0)));
    }
    while i < args.len()
        invariant
            i <= args@.len(),
            uinstrs_view(out@) == uinstrs_view(old(out)@) + flatten_exprs_spec(
                es.take(i as int),
            ),
        decreases args@.len() - i,
    {
        flatten_expression(&args[i], out);
        proof {
            assert(uinstrs_view(out@) =~= uinstrs_view(old(out)@) + flatten_exprs_spec(
                es.take(i as int + 1),
            ));
        }
        i = i + 1;
    }
    proof {
        assert(es.take(args@.len() as int) =~= es);
    }
}

/// Appends the instruction sequence of one statement.
#[verifier::loop_isolation(false)]
fn flatten_statement(s: &Statement, out: &mut Vec<Instruction>)
    ensures
        uinstrs_view(final(out)@) == uinstrs_view(old(out)@) + flatten_stmt_spec(pstmt_view(*s)),
    decreases *s,
{
    broadcast use {lemma_uinstrs_view_len, lemma_uinstrs_view_index, lemma_uinstrs_view_push};

    match s {
        Statement::Loop(body) => {
            let mut b: Vec<Instruction> = Vec::new();
            proof {
                assert(uinstrs_view(b@) =~= Seq::empty() + flatten_stmts_spec(
                    pstmts_view(body@),
                ).take(0)) by {
                    assert(flatten_stmts_spec(pstmts_view(body@)).take(0) =~= Seq::empty());
                    assert(uinstrs_view(b@) =~= Seq::empty());
                }
            }
            flatten_statement_vec(body, &mut b);
            out.push(Instruction::Loop(b));
            proof {
                assert(uinstrs_view(out@) =~= uinstrs_view(old(out)@) + flatten_stmt_spec(
                    pstmt_view(*s),
                ));
            }
        },
        Statement::If { cond, then_block, otherwise } => {
            flatten_expression(cond, out);
            let mut tb: Vec<Instruction> = Vec::new();
            flatten_statement_vec(then_block, &mut tb);
            let mut ob: Vec<Instruction> = Vec::new();
            flatten_statement_vec(otherwise, &mut ob);
            out.push(Instruction::If { then_block: tb, otherwise: ob });
            proof {
                assert(uinstrs_view(out@) =~= uinstrs_view(old(out)@) + flatten_stmt_spec(
                    pstmt_view(*s),
                ));
            }
        },
        Statement::Break => {
            out.push(Instruction::Break);
            proof {
                assert(uinstrs_view(out@) =~= uinstrs_view(old(out)@) + flatten_stmt_spec(
                    pstmt_view(*s),
                ));
            }
        },
        Statement::Continue => {
            out.push(Instruction::Continue);
            proof {
                assert(uinstrs_view(out@) =~= uinstrs_view(old(out)@) + flatten_stmt_spec(
                    pstmt_view(*s),
                ));
            }
        },
        Statement::LocalSet(i, e) => {
            flatten_expression(e, out);
            out.push(Instruction::LocalSet(*i));
            proof {
                assert(uinstrs_view(out@) =~= uinstrs_view(old(out)@) + flatten_stmt_spec(
                    pstmt_view(*s),
                ));
            }
        },
        Statement::GlobalSet(i, e) => {
            flatten_expression(e, out);
            out.push(Instruction::GlobalSet(*i));
            proof {
                assert(uinstrs_view(out@) =~= uinstrs_view(old(out)@) + flatten_stmt_spec(
                    pstmt_view(*s),
                ));
            }
        },
        Statement::Call(i, args) => {
            flatten_arguments(args, out);
            out.push(Instruction::Call(*i));
            out.push(Instruction::Drop);
            proof {
                assert(uinstrs_view(out@) =~= uinstrs_view(old(out)@) + flatten_stmt_spec(
                    pstmt_view(*s),
                ));
            }
        },
        Statement::Return(e) => {
            flatten_expression(e, out);
            out.push(Instruction::Return);
            proof {
                assert(uinstrs_view(out@) =~= uinstrs_view(old(out)@) + flatten_stmt_spec(
                    pstmt_view(*s),
                ));
            }
        },
    }
}

/// Appends the instruction sequences of a statement list, in order.
#[verifier::loop_isolation(false)]
fn flatten_statement_vec(ss: &Vec<Statement>, out: &mut Vec<Instruction>)
    ensures
        uinstrs_view(final(out)@) == uinstrs_view(old(out)@) + flatten_stmts_spec(
            pstmts_view(ss@),
        ),
    decreases *ss,
{
    let ghost sv = pstmts_view(ss@);
    let mut i: usize = 0;
    proof {
        assert(sv.take(0) =~= Seq::empty());
        assert(uinstrs_view(out@) =~= uinstrs_view(old(out)@) + flatten_stmts_spec(sv.take(0)));
    }
    while i < ss.len()
        invariant
            i <= ss@.len(),
            uinstrs_view(out@) == uinstrs_view(old(out)@) + flatten_stmts_spec(sv.take(i as int)),
        decreases ss@.len() - i,
    {
        flatten_statement(&ss[i], out);
        proof {
            assert(uinstrs_view(out@) =~= uinstrs_view(old(out)@) + flatten_stmts_spec(
                sv.take(i as int + 1),
            ));
        }
        i = i + 1;
    }
    proof {
        assert(sv.take(ss@.len() as int) =~= sv);
    }
}

impl AnalysisResults<Instruction> {
    /// Flattens every function body of a polyfilled program into postfix
    /// instruction sequences.
    #[verifier::loop_isolation(false)]
    pub fn from_statement_analysis(analysis: AnalysisResults<Statement>) -> (r: Self)
        ensures
            uview(r) == collapse_spec(pview(analysis)),
    {
        let ghost orig = pfnstable_view(analysis.functions@);
        let AnalysisResults { global_variables, funcname_map, functions } = analysis;
        let mut functions = functions;
        let mut out: Vec<Option<Function<Instruction>>> = Vec::new();
        let ghost mut i: int = 0;
        while functions.len() > 0
            invariant
                0 <= i <= orig.len(),
                pfnstable_view(functions@) =~= orig.skip(i),
                functions@.len() == orig.len() - i,
                out@.len() == i,
                forall|j: int|
                    0 <= j < i ==> ufnstable_view(out@)[j] == (match orig[j] {
                        Some(f) => Some(flatten_func_spec(f)),
                        None => None::<FunctionView<InstructionView>>,
                    }),
            decreases functions@.len(),
        {
            proof {
                assert(orig[i] == pfnstable_view(functions@)[0]);
            }
            let ghost pf = functions@;
            let item = functions.remove(0);
            let ghost prev_out = out@;
            let flat: Option<Function<Instruction>> = match item {
                Some(f) => {
                    let Function { arguments, local_count, body } = f;
                    let mut new_body: Vec<Instruction> = Vec::new();
                    flatten_statement_vec(&body, &mut new_body);
                    proof {
                        assert(uinstrs_view(new_body@) =~= flatten_stmts_spec(
                            pstmts_view(body@),
                        ));
                    }
                    Some(Function { arguments, local_count, body: new_body })
                },
                None => None,
            };
            let ghost flat_v = ufnstable_view(seq![flat])[0];
            out.push(flat);
            proof {
                assert forall|j: int| 0 <= j < i + 1 implies ufnstable_view(out@)[j] == (
                match orig[j] {
                    Some(f) => Some(flatten_func_spec(f)),
                    None => None::<FunctionView<InstructionView>>,
                }) by {
                    if j < i {
                        assert(out@[j] == prev_out[j]);
                        assert(ufnstable_view(out@)[j] == ufnstable_view(prev_out)[j]);
                    } else {
                        assert(out@[j] == flat);
                        assert(orig[i] == pfnstable_view(pf)[0]);
                    }
                }
                assert(pfnstable_view(functions@) =~= orig.skip(i + 1)) by {
                    assert(functions@ =~= pf.drop_first());
                    assert forall|j: int| 0 <= j < functions@.len() implies pfnstable_view(
                        functions@,
                    )[j] == orig.skip(i + 1)[j] by {
                        assert(functions@[j] == pf[j + 1]);
                        assert(pfnstable_view(pf)[j + 1] == orig.skip(i)[j + 1]);
                    }
                }
                i = i + 1;
            }
        }
        let r = AnalysisResults { global_variables, funcname_map, functions: out };
        proof {
            assert(uview(r) =~~= collapse_spec(
                AnalysisView {
                    global_variables: r.global_variables@,
                    funcname_map: scope_view(r.funcname_map@),
                    functions: orig,
                },
            ));
        }
        r
    }
}

/// The flattening stage as a free function.
pub fn collapse_expressions(program: AnalysisResults<Statement>) -> (r: AnalysisResults<
    Instruction,
>)
    ensures
        uview(r) == collapse_spec(pview(program)),
{
    AnalysisResults::from_statement_analysis(program)
}

} // verus!
