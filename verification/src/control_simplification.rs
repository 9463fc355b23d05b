//! Control-flow desugaring: rewrites the structured source statements
//! (if/elseif chains, `while`, bounded numeric loops, post-test loops,
//! bare-string break/continue) into the reduced form of
//! [`SimplifiedStatement`]: `Loop`, `If`, `Break`, `Continue`, `Declare`,
//! `Assign`, `Call`, `Return` and `Block`.
use crate::error::CompileError;
use crate::jsonlang::{
    BinaryOp, Expression, ExpressionView, JsonLang, Statement, StatementView, TopStatement,
    TopStatementView, clone_expression, clone_expressions, clone_names, expr_view, exprs_view,
    names_view, program_view, stmt_view, stmts_view, top_stmt_view, top_stmts_view,
};
use vstd::prelude::*;

verus! {

broadcast use {
    crate::seq_util::group_seq_facts,
    crate::jsonlang::lemma_stmts_view_len,
    crate::jsonlang::lemma_stmts_view_index,
    crate::jsonlang::lemma_stmts_view_push,
    crate::jsonlang::lemma_branches_view_len,
    crate::jsonlang::lemma_branches_view_index,
    crate::jsonlang::lemma_top_stmts_view_len,
    crate::jsonlang::lemma_top_stmts_view_index,
    crate::jsonlang::lemma_top_stmts_view_push,
};

/// A statement of the reduced control form.
#[derive(Debug, PartialEq)]
pub enum SimplifiedStatement {
    Loop(Box<SimplifiedStatement>),
    If {
        cond: Expression,
        then_block: Box<SimplifiedStatement>,
        otherwise: Box<SimplifiedStatement>,
    },
    Break,
    Continue,
    Declare(String, Expression),
    Assign(String, Expression),
    Call(String, Vec<Expression>),
    Return(Expression),
    Block(Vec<SimplifiedStatement>),
}

/// A top-level item of the reduced control form.
#[derive(Debug, PartialEq)]
pub enum SimplifiedTopStatement {
    Statement(SimplifiedStatement),
    DeclarationStatement { name: String, args: Vec<String>, content: SimplifiedStatement },
}

/// The mathematical mirror of [`SimplifiedStatement`].
pub enum SimplifiedStatementView {
    Loop(Box<SimplifiedStatementView>),
    If {
        cond: ExpressionView,
        then_block: Box<SimplifiedStatementView>,
        otherwise: Box<SimplifiedStatementView>,
    },
    Break,
    Continue,
    Declare(Seq<char>, ExpressionView),
    Assign(Seq<char>, ExpressionView),
    Call(Seq<char>, Seq<ExpressionView>),
    Return(ExpressionView),
    Block(Seq<SimplifiedStatementView>),
}

/// The mathematical mirror of [`SimplifiedTopStatement`].
pub enum SimplifiedTopStatementView {
    Statement(SimplifiedStatementView),
    DeclarationStatement {
        name: Seq<char>,
        args: Seq<Seq<char>>,
        content: SimplifiedStatementView,
    },
}

/// The mirror of a [`SimplifiedStatement`] value.
pub open spec fn sstmt_view(s: SimplifiedStatement) -> SimplifiedStatementView
    decreases s,
{
    match s {
        SimplifiedStatement::Loop(body) => SimplifiedStatementView::Loop(
            Box::new(sstmt_view(*body)),
        ),
        SimplifiedStatement::If { cond, then_block, otherwise } => SimplifiedStatementView::If {
            cond: expr_view(cond),
            then_block: Box::new(sstmt_view(*then_block)),
            otherwise: Box::new(sstmt_view(*otherwise)),
        },
        SimplifiedStatement::Break => SimplifiedStatementView::Break,
        SimplifiedStatement::Continue => SimplifiedStatementView::Continue,
        SimplifiedStatement::Declare(name, value) => SimplifiedStatementView::Declare(
            name@,
            expr_view(value),
        ),
        SimplifiedStatement::Assign(name, value) => SimplifiedStatementView::Assign(
            name@,
            expr_view(value),
        ),
        SimplifiedStatement::Call(name, args) => SimplifiedStatementView::Call(
            name@,
            exprs_view(args@),
        ),
        SimplifiedStatement::Return(value) => SimplifiedStatementView::Return(expr_view(value)),
        SimplifiedStatement::Block(stmts) => SimplifiedStatementView::Block(sstmts_view(stmts@)),
    }
}

/// The mirror of a sequence of reduced statements, element by element.
pub open spec fn sstmts_view(ss: Seq<SimplifiedStatement>) -> Seq<SimplifiedStatementView>
    decreases ss,
{
    if ss.len() == 0 {
        Seq::empty()
    } else {
        sstmts_view(ss.drop_last()).push(sstmt_view(ss.last()))
    }
}

/// The mirror of a [`SimplifiedTopStatement`] value.
pub open spec fn stop_view(t: SimplifiedTopStatement) -> SimplifiedTopStatementView {
    match t {
        SimplifiedTopStatement::Statement(s) => SimplifiedTopStatementView::Statement(
            sstmt_view(s),
        ),
        SimplifiedTopStatement::DeclarationStatement { name, args, content } => {
            SimplifiedTopStatementView::DeclarationStatement {
                name: name@,
                args: names_view(args@),
                content: sstmt_view(content),
            }
        },
    }
}

/// The mirror of a sequence of reduced top-level items, element by element.
pub open spec fn stops_view(ts: Seq<SimplifiedTopStatement>) -> Seq<SimplifiedTopStatementView>
    decreases ts,
{
    if ts.len() == 0 {
        Seq::empty()
    } else {
        stops_view(ts.drop_last()).push(stop_view(ts.last()))
    }
}

/// What desugaring one statement returns: the reduced statement, or the
/// failure that aborts the translation.
pub open spec fn simplify_spec(s: StatementView) -> Result<SimplifiedStatementView, CompileError>
    decreases s,
{
    match s {
        StatementView::If { branches, else_branch } => {
            let base = match else_branch {
                Some(b) => simplify_spec(*b),
                None => Ok(SimplifiedStatementView::Block(Seq::empty())),
            };
            fold_branches_spec(branches, base)
        },
        StatementView::While { condition, do_block } => match simplify_spec(*do_block) {
            Err(e) => Err(e),
            Ok(body) => Ok(
                SimplifiedStatementView::Loop(
                    Box::new(
                        SimplifiedStatementView::If {
                            cond: *condition,
                            then_block: Box::new(body),
                            otherwise: Box::new(SimplifiedStatementView::Break),
                        },
                    ),
                ),
            ),
        },
        StatementView::StatementList(stmts) => match simplify_seq_spec(stmts) {
            Err(e) => Err(e),
            Ok(list) => Ok(SimplifiedStatementView::Block(list)),
        },
        StatementView::BoundedLoop { iterator, from, to, step, do_block } => {
            match simplify_spec(*do_block) {
                Err(e) => Err(e),
                Ok(body) => Ok(bounded_loop_spec(iterator, *from, *to, step, body)),
            }
        },
        StatementView::Until { do_block, until } => match simplify_spec(*do_block) {
            Err(e) => Err(e),
            Ok(body) => Ok(
                SimplifiedStatementView::Loop(
                    Box::new(
                        SimplifiedStatementView::Block(
                            seq![
                                body,
                                SimplifiedStatementView::If {
                                    cond: *until,
                                    then_block: Box::new(SimplifiedStatementView::Break),
                                    otherwise: Box::new(
                                        SimplifiedStatementView::Block(Seq::empty()),
                                    ),
                                },
                            ],
                        ),
                    ),
                ),
            ),
        },
        StatementView::Declare { declare, value } => Ok(
            SimplifiedStatementView::Declare(declare, *value),
        ),
        StatementView::Assign { set, value } => Ok(SimplifiedStatementView::Assign(set, *value)),
        StatementView::Call { name, args } => Ok(SimplifiedStatementView::Call(name, args)),
        StatementView::Return { return_value } => Ok(
            SimplifiedStatementView::Return(*return_value),
        ),
        StatementView::Other(text) => {
            if text == "break"@ {
                Ok(SimplifiedStatementView::Break)
            } else if text == "continue"@ {
                Ok(SimplifiedStatementView::Continue)
            } else {
                Err(CompileError::UnsupportedConstruct)
            }
        },
    }
}

/// The desugared bounded numeric loop: declare the iterator at `from`,
/// then loop `{ if iterator > to break else body; iterator = iterator + step }`,
/// the step defaulting to the literal `1`.
pub open spec fn bounded_loop_spec(
    iterator: Seq<char>,
    from: ExpressionView,
    to: ExpressionView,
    step: Option<Box<ExpressionView>>,
    body: SimplifiedStatementView,
) -> SimplifiedStatementView {
    SimplifiedStatementView::Block(
        seq![
            SimplifiedStatementView::Declare(iterator, from),
            SimplifiedStatementView::Loop(
                Box::new(
                    SimplifiedStatementView::Block(
                        seq![
                            SimplifiedStatementView::If {
                                cond: ExpressionView::BinaryOp {
                                    lhs: Box::new(ExpressionView::VariableAccess(iterator)),
                                    op: BinaryOp::Greater,
                                    rhs: Box::new(to),
                                },
                                then_block: Box::new(SimplifiedStatementView::Break),
                                otherwise: Box::new(body),
                            },
                            SimplifiedStatementView::Assign(
                                iterator,
                                ExpressionView::BinaryOp {
                                    lhs: Box::new(ExpressionView::VariableAccess(iterator)),
                                    op: BinaryOp::Addition,
                                    rhs: match step {
                                        Some(st) => st,
                                        None => Box::new(
                                            ExpressionView::NumericLiteral("1"@),
                                        ),
                                    },
                                },
                            ),
                        ],
                    ),
                ),
            ),
        ],
    )
}

/// The mirror of an optional step expression.
pub open spec fn step_view(step: Option<Box<Expression>>) -> Option<Box<ExpressionView>> {
    match step {
        Some(st) => Some(Box::new(expr_view(*st))),
        None => None,
    }
}

/// The right fold of an if/elseif chain into nested two-way `If`s, the
/// (already desugared) else in `base` innermost.  The innermost parts are
/// resolved first, so a failure of the base or of a later arm surfaces
/// before a failure of an earlier arm.
pub open spec fn fold_branches_spec(
    branches: Seq<crate::jsonlang::IfConditionsView>,
    base: Result<SimplifiedStatementView, CompileError>,
) -> Result<SimplifiedStatementView, CompileError>
    decreases branches,
{
    if branches.len() == 0 {
        base
    } else {
        match fold_branches_spec(branches.drop_first(), base) {
            Err(e) => Err(e),
            Ok(otherwise) => match simplify_spec(*branches[0].then_block) {
                Err(e) => Err(e),
                Ok(then_block) => Ok(
                    SimplifiedStatementView::If {
                        cond: branches[0].cond,
                        then_block: Box::new(then_block),
                        otherwise: Box::new(otherwise),
                    },
                ),
            },
        }
    }
}

/// Desugaring a sequence of statements, failing on the first failure.
pub open spec fn simplify_seq_spec(ss: Seq<StatementView>) -> Result<
    Seq<SimplifiedStatementView>,
    CompileError,
>
    decreases ss,
{
    if ss.len() == 0 {
        Ok(Seq::empty())
    } else {
        match simplify_seq_spec(ss.drop_last()) {
            Err(e) => Err(e),
            Ok(front) => match simplify_spec(ss.last()) {
                Err(e) => Err(e),
                Ok(x) => Ok(front.push(x)),
            },
        }
    }
}

/// Desugaring one top-level item.
pub open spec fn simplify_top_spec(t: TopStatementView) -> Result<
    SimplifiedTopStatementView,
    CompileError,
> {
    match t {
        TopStatementView::Statement(s) => match simplify_spec(s) {
            Err(e) => Err(e),
            Ok(r) => Ok(SimplifiedTopStatementView::Statement(r)),
        },
        TopStatementView::DeclarationStatement(d) => match simplify_spec(d.block) {
            Err(e) => Err(e),
            Ok(r) => Ok(
                SimplifiedTopStatementView::DeclarationStatement {
                    name: d.function,
                    args: d.args,
                    content: r,
                },
            ),
        },
    }
}

/// Desugaring a whole program, failing on the first failure.
pub open spec fn simplify_top_seq_spec(ts: Seq<TopStatementView>) -> Result<
    Seq<SimplifiedTopStatementView>,
    CompileError,
>
    decreases ts,
{
    if ts.len() == 0 {
        Ok(Seq::empty())
    } else {
        match simplify_top_seq_spec(ts.drop_last()) {
            Err(e) => Err(e),
            Ok(front) => match simplify_top_spec(ts.last()) {
                Err(e) => Err(e),
                Ok(x) => Ok(front.push(x)),
            },
        }
    }
}

/// The mirror of a desugaring result.
pub open spec fn result_sstmt_view(r: Result<SimplifiedStatement, CompileError>) -> Result<
    SimplifiedStatementView,
    CompileError,
> {
    match r {
        Ok(s) => Ok(sstmt_view(s)),
        Err(e) => Err(e),
    }
}

/// A failure of an inner suffix of an if/elseif chain is the failure of
/// the whole chain.
proof fn lemma_fold_branches_err(
    branches: Seq<crate::jsonlang::IfConditionsView>,
    base: Result<SimplifiedStatementView, CompileError>,
    i: int,
    e: CompileError,
)
    requires
        0 <= i <= branches.len(),
        fold_branches_spec(branches.skip(i), base) == Err::<SimplifiedStatementView,
            CompileError,
        >(e),
    ensures
        fold_branches_spec(branches, base) == Err::<SimplifiedStatementView, CompileError>(e),
    decreases i,
{
    if i > 0 {
        let s = branches.skip(i - 1);
        assert(s.drop_first() =~= branches.skip(i));
        lemma_fold_branches_err(branches, base, i - 1, e);
    } else {
        assert(branches.skip(0) =~= branches);
    }
}

/// A failed prefix fails the whole sequence.
proof fn lemma_simplify_seq_err(ss: Seq<Statement>, i: int, e: CompileError)
    requires
        0 <= i <= ss.len(),
        simplify_seq_spec(stmts_view(ss.take(i))) == Err::<
            Seq<SimplifiedStatementView>,
            CompileError,
        >(e),
    ensures
        simplify_seq_spec(stmts_view(ss)) == Err::<Seq<SimplifiedStatementView>, CompileError>(e),
    decreases ss.len() - i,
{
    if i < ss.len() {
        lemma_stmts_view_take(ss, i);
        assert(stmts_view(ss.take(i + 1)).drop_last() =~= stmts_view(ss.take(i)));
        lemma_simplify_seq_err(ss, i + 1, e);
    } else {
        assert(ss.take(i) =~= ss);
    }
}

/// A failed prefix fails the whole program.
proof fn lemma_simplify_top_seq_err(ts: Seq<TopStatement>, i: int, e: CompileError)
    requires
        0 <= i <= ts.len(),
        simplify_top_seq_spec(top_stmts_view(ts.take(i))) == Err::<
            Seq<SimplifiedTopStatementView>,
            CompileError,
        >(e),
    ensures
        simplify_top_seq_spec(top_stmts_view(ts)) == Err::<
            Seq<SimplifiedTopStatementView>,
            CompileError,
        >(e),
    decreases ts.len() - i,
{
    if i < ts.len() {
        lemma_top_stmts_view_take(ts, i);
        assert(top_stmts_view(ts.take(i + 1)).drop_last() =~= top_stmts_view(ts.take(i)));
        lemma_simplify_top_seq_err(ts, i + 1, e);
    } else {
        assert(ts.take(i) =~= ts);
    }
}

/// Desugars one source statement into the reduced control form.
#[verifier::loop_isolation(false)]
pub fn simplify_control_structures(statement: Statement) -> (r: Result<
    SimplifiedStatement,
    CompileError,
>)
    ensures
        result_sstmt_view(r) == simplify_spec(stmt_view(statement)),
{
    simplify_ref(&statement)
}

#[verifier::loop_isolation(false)]
fn simplify_ref(s: &Statement) -> (r: Result<SimplifiedStatement, CompileError>)
    ensures
        result_sstmt_view(r) == simplify_spec(stmt_view(*s)),
    decreases *s, 1int,
{
    proof {
        reveal_with_fuel(sstmt_view, 4);
        reveal_with_fuel(sstmts_view, 3);
    }
    match s {
        Statement::If { branches, else_branch } => simplify_if(
            branches,
            else_branch,
            Ghost(*s),
        ),
        Statement::While { condition, do_block } => {
            let body = match simplify_ref(&**do_block) {
                Ok(st) => st,
                Err(e) => return Err(e),
            };
            Ok(
                SimplifiedStatement::Loop(
                    Box::new(
                        SimplifiedStatement::If {
                            cond: clone_expression(&**condition),
                            then_block: Box::new(body),
                            otherwise: Box::new(SimplifiedStatement::Break),
                        },
                    ),
                ),
            )
        },
        Statement::StatementList(stmts) => simplify_list(stmts, Ghost(*s)),
        Statement::BoundedLoop { iterator, from, to, step, do_block } => {
            let body = match simplify_ref(&**do_block) {
                Ok(st) => st,
                Err(e) => return Err(e),
            };
            Ok(build_bounded_loop(iterator, from, to, step, body))
        },
        Statement::Until { do_block, until } => {
            let body = match simplify_ref(&**do_block) {
                Ok(st) => st,
                Err(e) => return Err(e),
            };
            Ok(build_until(body, until))
        },
        Statement::Declare { declare, value } => Ok(
            SimplifiedStatement::Declare(declare.clone(), clone_expression(&**value)),
        ),
        Statement::Assign { set, value } => Ok(
            SimplifiedStatement::Assign(set.clone(), clone_expression(&**value)),
        ),
        Statement::Call { name, args } => Ok(
            SimplifiedStatement::Call(name.clone(), clone_expressions(args)),
        ),
        Statement::Return { return_value } => Ok(
            SimplifiedStatement::Return(clone_expression(&**return_value)),
        ),
        Statement::Other(text) => {
            let brk: String = "break".to_owned();
            let cont: String = "continue".to_owned();
            if *text == brk {
                Ok(SimplifiedStatement::Break)
            } else if *text == cont {
                Ok(SimplifiedStatement::Continue)
            } else {
                Err(CompileError::UnsupportedConstruct)
            }
        },
    }
}

/// Desugars an if/elseif/else chain: the else (or an empty block) is the
/// innermost base, and the arms are folded around it from the last to the
/// first.
#[verifier::loop_isolation(false)]
fn simplify_if(
    branches: &Vec<crate::jsonlang::IfConditions>,
    else_branch: &Option<Box<Statement>>,
    parent: Ghost<Statement>,
) -> (r: Result<SimplifiedStatement, CompileError>)
    requires
        parent@ == (Statement::If { branches: *branches, else_branch: *else_branch }),
    ensures
        result_sstmt_view(r) == simplify_spec(stmt_view(parent@)),
    decreases parent@, 0int,
{
    let ghost bv = crate::jsonlang::branches_view(branches@);
    let ghost base_spec: Result<SimplifiedStatementView, CompileError> = match else_branch {
        Some(branch) => simplify_spec(stmt_view(**branch)),
        None => Ok(SimplifiedStatementView::Block(Seq::empty())),
    };
    let mut stmt: SimplifiedStatement = match else_branch {
        Some(branch) => match simplify_ref(&**branch) {
            Ok(st) => st,
            Err(e) => {
                proof {
                    lemma_fold_branches_err(bv, base_spec, bv.len() as int, e);
                    assert(bv.skip(bv.len() as int) =~= Seq::empty());
                }
                return Err(e);
            },
        },
        None => SimplifiedStatement::Block(Vec::new()),
    };
    let mut i: usize = branches.len();
    proof {
        assert(sstmts_view(Seq::<SimplifiedStatement>::empty()) =~= Seq::empty());
        assert(bv.skip(i as int) =~= Seq::empty());
        assert(base_spec == Ok::<SimplifiedStatementView, CompileError>(sstmt_view(stmt)));
    }
    while i > 0
        invariant
            i <= branches@.len(),
            fold_branches_spec(bv.skip(i as int), base_spec) == Ok::<
                SimplifiedStatementView,
                CompileError,
            >(sstmt_view(stmt)),
        decreases i,
    {
        i = i - 1;
        proof {
            assert(bv.skip(i as int).drop_first() =~= bv.skip(i as int + 1));
        }
        let cond = clone_expression(&branches[i].cond);
        let then_b = match simplify_ref(&branches[i].then_block) {
            Ok(st) => st,
            Err(e) => {
                proof {
                    lemma_fold_branches_err(bv, base_spec, i as int, e);
                }
                return Err(e);
            },
        };
        stmt = SimplifiedStatement::If {
            cond,
            then_block: Box::new(then_b),
            otherwise: Box::new(stmt),
        };
    }
    proof {
        assert(bv.skip(0) =~= bv);
    }
    Ok(stmt)
}

/// Desugars the statements of a block, in order.
#[verifier::loop_isolation(false)]
fn simplify_list(stmts: &Vec<Statement>, parent: Ghost<Statement>) -> (r: Result<
    SimplifiedStatement,
    CompileError,
>)
    requires
        parent@ == Statement::StatementList(*stmts),
    ensures
        result_sstmt_view(r) == simplify_spec(stmt_view(parent@)),
    decreases parent@, 0int,
{
    let mut out: Vec<SimplifiedStatement> = Vec::new();
    let mut i: usize = 0;
    while i < stmts.len()
        invariant
            i <= stmts@.len(),
            simplify_seq_spec(stmts_view(stmts@.take(i as int))) == Ok::<
                Seq<SimplifiedStatementView>,
                CompileError,
            >(sstmts_view(out@)),
        decreases stmts@.len() - i,
    {
        let x = match simplify_ref(&stmts[i]) {
            Ok(st) => st,
            Err(e) => {
                proof {
                    lemma_stmts_view_take(stmts@, i as int);
                    assert(stmts_view(stmts@.take(i as int + 1)).drop_last() =~= stmts_view(
                        stmts@.take(i as int),
                    ));
                    lemma_simplify_seq_err(stmts@, i as int + 1, e);
                }
                return Err(e);
            },
        };
        proof {
            lemma_stmts_view_take(stmts@, i as int);
            assert(out@.push(x).drop_last() =~= out@);
        }
        out.push(x);
        i = i + 1;
    }
    proof {
        assert(stmts@.take(i as int) =~= stmts@);
    }
    Ok(SimplifiedStatement::Block(out))
}

/// Builds the desugared bounded numeric loop around its already-desugared
/// body.
#[verifier::loop_isolation(false)]
fn build_bounded_loop(
    iterator: &String,
    from: &Expression,
    to: &Expression,
    step: &Option<Box<Expression>>,
    body: SimplifiedStatement,
) -> (r: SimplifiedStatement)
    ensures
        sstmt_view(r) == bounded_loop_spec(
            iterator@,
            expr_view(*from),
            expr_view(*to),
            step_view(*step),
            sstmt_view(body),
        ),
{
    let step_expr: Expression = match step {
        Some(st) => clone_expression(&**st),
        None => Expression::NumericLiteral("1".to_owned()),
    };
    let mut inner: Vec<SimplifiedStatement> = Vec::new();
    inner.push(
        SimplifiedStatement::If {
            cond: Expression::BinaryOp {
                lhs: Box::new(Expression::VariableAccess(iterator.clone())),
                op: BinaryOp::Greater,
                rhs: Box::new(clone_expression(to)),
            },
            then_block: Box::new(SimplifiedStatement::Break),
            otherwise: Box::new(body),
        },
    );
    inner.push(
        SimplifiedStatement::Assign(
            iterator.clone(),
            Expression::BinaryOp {
                lhs: Box::new(Expression::VariableAccess(iterator.clone())),
                op: BinaryOp::Addition,
                rhs: Box::new(step_expr),
            },
        ),
    );
    proof {
        lemma_sstmts_view_two(inner@);
    }
    let mut outer: Vec<SimplifiedStatement> = Vec::new();
    outer.push(SimplifiedStatement::Declare(iterator.clone(), clone_expression(from)));
    outer.push(SimplifiedStatement::Loop(Box::new(SimplifiedStatement::Block(inner))));
    proof {
        reveal_with_fuel(sstmt_view, 5);
        reveal_with_fuel(sstmts_view, 3);
        reveal_with_fuel(crate::jsonlang::expr_view, 4);
        lemma_sstmts_view_two(outer@);
        let target = bounded_loop_spec(
            iterator@,
            expr_view(*from),
            expr_view(*to),
            step_view(*step),
            sstmt_view(body),
        );
        let tseq = target->Block_0;
        let tinner = (*tseq[1]->Loop_0)->Block_0;
        assert(sstmts_view(inner@) =~= tinner);
        assert(sstmts_view(outer@) =~= tseq);
    }
    SimplifiedStatement::Block(outer)
}

/// Builds the desugared post-test loop around its already-desugared body.
#[verifier::loop_isolation(false)]
fn build_until(body: SimplifiedStatement, until: &Expression) -> (r: SimplifiedStatement)
    ensures
        sstmt_view(r) == SimplifiedStatementView::Loop(
            Box::new(
                SimplifiedStatementView::Block(
                    seq![
                        sstmt_view(body),
                        SimplifiedStatementView::If {
                            cond: expr_view(*until),
                            then_block: Box::new(SimplifiedStatementView::Break),
                            otherwise: Box::new(SimplifiedStatementView::Block(Seq::empty())),
                        },
                    ],
                ),
            ),
        ),
{
    let mut inner: Vec<SimplifiedStatement> = Vec::new();
    inner.push(body);
    inner.push(
        SimplifiedStatement::If {
            cond: clone_expression(until),
            then_block: Box::new(SimplifiedStatement::Break),
            otherwise: Box::new(SimplifiedStatement::Block(Vec::new())),
        },
    );
    proof {
        reveal_with_fuel(sstmt_view, 4);
        reveal_with_fuel(sstmts_view, 3);
        lemma_sstmts_view_two(inner@);
        assert(sstmts_view(inner@) =~= seq![
            sstmt_view(body),
            SimplifiedStatementView::If {
                cond: expr_view(*until),
                then_block: Box::new(SimplifiedStatementView::Break),
                otherwise: Box::new(SimplifiedStatementView::Block(Seq::empty())),
            },
        ]);
    }
    SimplifiedStatement::Loop(Box::new(SimplifiedStatement::Block(inner)))
}

/// The element-wise mirror of a two-element vector, spelled out.
proof fn lemma_sstmts_view_two(ss: Seq<SimplifiedStatement>)
    requires
        ss.len() == 2,
    ensures
        sstmts_view(ss) == seq![sstmt_view(ss[0]), sstmt_view(ss[1])],
{
    let s0 = ss.drop_last();
    assert(s0.drop_last() =~= Seq::empty());
    assert(sstmts_view(Seq::<SimplifiedStatement>::empty()) =~= Seq::empty());
    assert(sstmts_view(s0) == sstmts_view(s0.drop_last()).push(sstmt_view(s0.last())));
    assert(sstmts_view(ss) == sstmts_view(s0).push(sstmt_view(ss.last())));
    assert(sstmts_view(ss) =~= seq![sstmt_view(ss[0]), sstmt_view(ss[1])]);
}

/// The mirror of a statement list, taken one element further.
proof fn lemma_stmts_view_take(ss: Seq<Statement>, i: int)
    requires
        0 <= i < ss.len(),
    ensures
        stmts_view(ss.take(i + 1)) == stmts_view(ss.take(i)).push(stmt_view(ss[i])),
{
}

/// Desugars every top-level item of a program, in source order.
#[verifier::loop_isolation(false)]
pub fn top_simplify_control_structures(program: JsonLang) -> (r: Result<
    Vec<SimplifiedTopStatement>,
    CompileError,
>)
    ensures
        (match r {
            Ok(v) => Ok::<Seq<SimplifiedTopStatementView>, CompileError>(stops_view(v@)),
            Err(e) => Err(e),
        }) == simplify_top_seq_spec(program_view(program).statements),
{
    let ghost tv = top_stmts_view(program.statements@);
    let mut out: Vec<SimplifiedTopStatement> = Vec::new();
    let statements = program.statements;
    let mut i: usize = 0;
    while i < statements.len()
        invariant
            i <= statements@.len(),
            simplify_top_seq_spec(top_stmts_view(statements@.take(i as int))) == Ok::<
                Seq<SimplifiedTopStatementView>,
                CompileError,
            >(stops_view(out@)),
        decreases statements@.len() - i,
    {
        proof {
            crate::seq_util::lemma_take_one_more(statements@, i as int);
        }
        let item: SimplifiedTopStatement = match &statements[i] {
            TopStatement::Statement(stmt) => match simplify_ref(stmt) {
                Ok(st) => SimplifiedTopStatement::Statement(st),
                Err(e) => {
                    proof {
                        lemma_top_stmts_view_take(statements@, i as int);
                        assert(top_stmts_view(statements@.take(i as int + 1)).drop_last()
                            =~= top_stmts_view(statements@.take(i as int)));
                        lemma_simplify_top_seq_err(statements@, i as int + 1, e);
                    }
                    return Err(e);
                },
            },
            TopStatement::DeclarationStatement(decl) => match simplify_ref(&decl.block) {
                Ok(st) => SimplifiedTopStatement::DeclarationStatement {
                    name: decl.function.clone(),
                    args: clone_names(&decl.args),
                    content: st,
                },
                Err(e) => {
                    proof {
                        lemma_top_stmts_view_take(statements@, i as int);
                        assert(top_stmts_view(statements@.take(i as int + 1)).drop_last()
                            =~= top_stmts_view(statements@.take(i as int)));
                        lemma_simplify_top_seq_err(statements@, i as int + 1, e);
                    }
                    return Err(e);
                },
            },
        };
        proof {
            assert(out@.push(item).drop_last() =~= out@);
        }
        out.push(item);
        i = i + 1;
    }
    proof {
        assert(statements@.take(i as int) =~= statements@);
    }
    Ok(out)
}

/// The mirror of a top-level list, taken one element further.
proof fn lemma_top_stmts_view_take(ts: Seq<TopStatement>, i: int)
    requires
        0 <= i < ts.len(),
    ensures
        top_stmts_view(ts.take(i + 1)) == top_stmts_view(ts.take(i)).push(top_stmt_view(ts[i])),
{
}

/// Element-wise facts about [`sstmts_view`].
pub broadcast proof fn lemma_sstmts_view_len(ss: Seq<SimplifiedStatement>)
    ensures
        (#[trigger] sstmts_view(ss)).len() == ss.len(),
    decreases ss.len(),
{
    if ss.len() > 0 {
        lemma_sstmts_view_len(ss.drop_last());
    }
}

/// [`sstmts_view`] read at one index.
pub broadcast proof fn lemma_sstmts_view_index(ss: Seq<SimplifiedStatement>, i: int)
    requires
        0 <= i < ss.len(),
    ensures
        #[trigger] sstmts_view(ss)[i] == sstmt_view(ss[i]),
    decreases ss.len(),
{
    lemma_sstmts_view_len(ss.drop_last());
    if i < ss.len() - 1 {
        lemma_sstmts_view_index(ss.drop_last(), i);
    }
}

/// [`sstmts_view`] of a pushed sequence.
pub broadcast proof fn lemma_sstmts_view_push(ss: Seq<SimplifiedStatement>, x: SimplifiedStatement)
    ensures
        #[trigger] sstmts_view(ss.push(x)) == sstmts_view(ss).push(sstmt_view(x)),
{
}

/// Element-wise facts about [`stops_view`].
pub broadcast proof fn lemma_stops_view_len(ts: Seq<SimplifiedTopStatement>)
    ensures
        (#[trigger] stops_view(ts)).len() == ts.len(),
    decreases ts.len(),
{
    if ts.len() > 0 {
        lemma_stops_view_len(ts.drop_last());
    }
}

/// [`stops_view`] read at one index.
pub broadcast proof fn lemma_stops_view_index(ts: Seq<SimplifiedTopStatement>, i: int)
    requires
        0 <= i < ts.len(),
    ensures
        #[trigger] stops_view(ts)[i] == stop_view(ts[i]),
    decreases ts.len(),
{
    lemma_stops_view_len(ts.drop_last());
    if i < ts.len() - 1 {
        lemma_stops_view_index(ts.drop_last(), i);
    }
}

/// [`stops_view`] of a pushed sequence.
pub broadcast proof fn lemma_stops_view_push(ts: Seq<SimplifiedTopStatement>, x: SimplifiedTopStatement)
    ensures
        #[trigger] stops_view(ts.push(x)) == stops_view(ts).push(stop_view(x)),
{
}

} // verus!
