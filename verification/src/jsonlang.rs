//! The source-language AST: top-level statements and named function
//! declarations over structured control constructs and expressions.
//!
//! The source language is untyped; a numeric literal is carried as its
//! decimal text and becomes a 64-bit float constant of the target module
//! only at emission.
//!
//! Each exec type has a mathematical mirror (`...View`) over `Seq`, which
//! the contracts of every pipeline stage speak of.
use vstd::prelude::*;

verus! {

broadcast use crate::seq_util::group_seq_facts;

/// A unary operator of the source language.
#[derive(Debug, Clone, Copy, PartialEq, Eq, Structural)]
pub enum UnaryOp {
    NumericNegation,
    LogicNegation,
    BitwiseNegation,
}

/// A binary operator of the source language.
#[derive(Debug, Clone, Copy, PartialEq, Eq, Structural)]
pub enum BinaryOp {
    Addition,
    Substraction,
    Multiplication,
    Division,
    Exponentiation,
    Modulo,
    BitwiseAnd,
    BitwiseOr,
    RightShift,
    LeftShift,
    Lesser,
    LessEq,
    Greater,
    GreaterEq,
    Equal,
    NotEqual,
    LogicalAnd,
    LogicalOr,
}

/// A source expression.
#[derive(Debug, PartialEq)]
pub enum Expression {
    UnaryOp { op: UnaryOp, arg: Box<Expression> },
    BinaryOp { lhs: Box<Expression>, op: BinaryOp, rhs: Box<Expression> },
    VariableAccess(String),
    FunctionCall { name: String, args: Vec<Expression> },
    /// The decimal text of a 64-bit float literal.
    NumericLiteral(String),
}

/// A source statement.
#[derive(Debug, PartialEq)]
pub enum Statement {
    If { branches: Vec<IfConditions>, else_branch: Option<Box<Statement>> },
    While { condition: Box<Expression>, do_block: Box<Statement> },
    StatementList(Vec<Statement>),
    /// The bounded numeric loop `for v from a to b step s? { body }`.
    BoundedLoop {
        iterator: String,
        from: Box<Expression>,
        to: Box<Expression>,
        step: Option<Box<Expression>>,
        do_block: Box<Statement>,
    },
    /// The post-test loop: the body always runs at least once.
    Until { do_block: Box<Statement>, until: Box<Expression> },
    Declare { declare: String, value: Box<Expression> },
    Assign { set: String, value: Box<Expression> },
    Call { name: String, args: Vec<Expression> },
    Return { return_value: Box<Expression> },
    /// A bare string statement: only `"break"` and `"continue"` are legal.
    Other(String),
}

/// One `cond`/`then` arm of an if/elseif chain.
#[derive(Debug, PartialEq)]
pub struct IfConditions {
    pub cond: Expression,
    pub then_block: Box<Statement>,
}

/// A named function declaration.
#[derive(Debug, PartialEq)]
pub struct DeclarationStatement {
    pub function: String,
    pub args: Vec<String>,
    pub block: Statement,
}

/// A top-level item: either a plain statement or a function declaration.
#[derive(Debug, PartialEq)]
pub enum TopStatement {
    Statement(Statement),
    DeclarationStatement(DeclarationStatement),
}

/// A whole source program.
#[derive(Debug, PartialEq)]
pub struct JsonLang {
    pub statements: Vec<TopStatement>,
}

/// The mathematical mirror of [`Expression`].
pub enum ExpressionView {
    UnaryOp { op: UnaryOp, arg: Box<ExpressionView> },
    BinaryOp { lhs: Box<ExpressionView>, op: BinaryOp, rhs: Box<ExpressionView> },
    VariableAccess(Seq<char>),
    FunctionCall { name: Seq<char>, args: Seq<ExpressionView> },
    NumericLiteral(Seq<char>),
}

/// The mathematical mirror of [`Statement`].
pub enum StatementView {
    If { branches: Seq<IfConditionsView>, else_branch: Option<Box<StatementView>> },
    While { condition: Box<ExpressionView>, do_block: Box<StatementView> },
    StatementList(Seq<StatementView>),
    BoundedLoop {
        iterator: Seq<char>,
        from: Box<ExpressionView>,
        to: Box<ExpressionView>,
        step: Option<Box<ExpressionView>>,
        do_block: Box<StatementView>,
    },
    Until { do_block: Box<StatementView>, until: Box<ExpressionView> },
    Declare { declare: Seq<char>, value: Box<ExpressionView> },
    Assign { set: Seq<char>, value: Box<ExpressionView> },
    Call { name: Seq<char>, args: Seq<ExpressionView> },
    Return { return_value: Box<ExpressionView> },
    Other(Seq<char>),
}

/// The mathematical mirror of [`IfConditions`].
pub struct IfConditionsView {
    pub cond: ExpressionView,
    pub then_block: Box<StatementView>,
}

/// The mathematical mirror of [`DeclarationStatement`].
pub struct DeclarationStatementView {
    pub function: Seq<char>,
    pub args: Seq<Seq<char>>,
    pub block: StatementView,
}

/// The mathematical mirror of [`TopStatement`].
pub enum TopStatementView {
    Statement(StatementView),
    DeclarationStatement(DeclarationStatementView),
}

/// The mathematical mirror of [`JsonLang`].
pub struct JsonLangView {
    pub statements: Seq<TopStatementView>,
}

/// The mirror of a sequence of expressions, element by element.
pub open spec fn exprs_view(es: Seq<Expression>) -> Seq<ExpressionView>
    decreases es,
{
    if es.len() == 0 {
        Seq::empty()
    } else {
        exprs_view(es.drop_last()).push(expr_view(es.last()))
    }
}

/// The mirror of an [`Expression`] value.
pub open spec fn expr_view(e: Expression) -> ExpressionView
    decreases e,
{
    match e {
        Expression::UnaryOp { op, arg } => ExpressionView::UnaryOp {
            op: op,
            arg: Box::new(expr_view(*arg)),
        },
        Expression::BinaryOp { lhs, op, rhs } => ExpressionView::BinaryOp {
            lhs: Box::new(expr_view(*lhs)),
            op: op,
            rhs: Box::new(expr_view(*rhs)),
        },
        Expression::VariableAccess(name) => ExpressionView::VariableAccess(name@),
        Expression::FunctionCall { name, args } => ExpressionView::FunctionCall {
            name: name@,
            args: exprs_view(args@),
        },
        Expression::NumericLiteral(text) => ExpressionView::NumericLiteral(text@),
    }
}

/// The mirror of a sequence of statements, element by element.
pub open spec fn stmts_view(ss: Seq<Statement>) -> Seq<StatementView>
    decreases ss,
{
    if ss.len() == 0 {
        Seq::empty()
    } else {
        stmts_view(ss.drop_last()).push(stmt_view(ss.last()))
    }
}

/// The mirror of a sequence of if/elseif arms, element by element.
pub open spec fn branches_view(bs: Seq<IfConditions>) -> Seq<IfConditionsView>
    decreases bs,
{
    if bs.len() == 0 {
        Seq::empty()
    } else {
        branches_view(bs.drop_last()).push(
            IfConditionsView {
                cond: expr_view(bs.last().cond),
                then_block: Box::new(stmt_view(*bs.last().then_block)),
            },
        )
    }
}

/// The mirror of a [`Statement`] value.
pub open spec fn stmt_view(s: Statement) -> StatementView
    decreases s,
{
    match s {
        Statement::If { branches, else_branch } => StatementView::If {
            branches: branches_view(branches@),
            else_branch: match else_branch {
                Some(stmt) => Some(Box::new(stmt_view(*stmt))),
                None => None,
            },
        },
        Statement::While { condition, do_block } => StatementView::While {
            condition: Box::new(expr_view(*condition)),
            do_block: Box::new(stmt_view(*do_block)),
        },
        Statement::StatementList(stmts) => StatementView::StatementList(stmts_view(stmts@)),
        Statement::BoundedLoop { iterator, from, to, step, do_block } => {
            StatementView::BoundedLoop {
                iterator: iterator@,
                from: Box::new(expr_view(*from)),
                to: Box::new(expr_view(*to)),
                step: match step {
                    Some(e) => Some(Box::new(expr_view(*e))),
                    None => None,
                },
                do_block: Box::new(stmt_view(*do_block)),
            }
        },
        Statement::Until { do_block, until } => StatementView::Until {
            do_block: Box::new(stmt_view(*do_block)),
            until: Box::new(expr_view(*until)),
        },
        Statement::Declare { declare, value } => StatementView::Declare {
            declare: declare@,
            value: Box::new(expr_view(*value)),
        },
        Statement::Assign { set, value } => StatementView::Assign {
            set: set@,
            value: Box::new(expr_view(*value)),
        },
        Statement::Call { name, args } => StatementView::Call {
            name: name@,
            args: exprs_view(args@),
        },
        Statement::Return { return_value } => StatementView::Return {
            return_value: Box::new(expr_view(*return_value)),
        },
        Statement::Other(text) => StatementView::Other(text@),
    }
}

/// An explicit deep copy of an expression; the derived clone of a
/// recursive type is not visible to the verifier.
#[verifier::loop_isolation(false)]
pub fn clone_expression(e: &Expression) -> (r: Expression)
    ensures
        expr_view(r) == expr_view(*e),
    decreases *e,
{
    match e {
        Expression::UnaryOp { op, arg } => Expression::UnaryOp {
            op: *op,
            arg: Box::new(clone_expression(&**arg)),
        },
        Expression::BinaryOp { lhs, op, rhs } => Expression::BinaryOp {
            lhs: Box::new(clone_expression(&**lhs)),
            op: *op,
            rhs: Box::new(clone_expression(&**rhs)),
        },
        Expression::VariableAccess(name) => Expression::VariableAccess(name.clone()),
        Expression::FunctionCall { name, args } => Expression::FunctionCall {
            name: name.clone(),
            args: clone_expressions(args),
        },
        Expression::NumericLiteral(text) => Expression::NumericLiteral(text.clone()),
    }
}

/// An explicit deep copy of a vector of expressions.
#[verifier::loop_isolation(false)]
pub fn clone_expressions(args: &Vec<Expression>) -> (r: Vec<Expression>)
    ensures
        exprs_view(r@) == exprs_view(args@),
    decreases *args,
{
    let mut out: Vec<Expression> = Vec::new();
    let mut i: usize = 0;
    while i < args.len()
        invariant
            i <= args@.len(),
            exprs_view(out@) == exprs_view(args@.take(i as int)),
        decreases args@.len() - i,
    {
        let x = clone_expression(&args[i]);
        proof {
            lemma_exprs_view_push(out@, x);
            crate::seq_util::lemma_take_one_more(args@, i as int);
        }
        out.push(x);
        i = i + 1;
    }
    proof {
        assert(args@.take(args@.len() as int) =~= args@);
    }
    out
}

/// An explicit copy of a vector of names; string clones are exact.
#[verifier::loop_isolation(false)]
pub fn clone_names(names: &Vec<String>) -> (r: Vec<String>)
    ensures
        r@ == names@,
{
    let mut out: Vec<String> = Vec::new();
    let mut i: usize = 0;
    while i < names.len()
        invariant
            i <= names@.len(),
            out@ == names@.take(i as int),
        decreases names@.len() - i,
    {
        out.push(names[i].clone());
        proof {
            crate::seq_util::lemma_take_one_more(names@, i as int);
            assert(names@.take(i as int).push(names@[i as int]) =~= names@.take(i as int + 1));
        }
        i = i + 1;
    }
    proof {
        assert(names@.take(names@.len() as int) =~= names@);
    }
    out
}

/// The mirror of a sequence of names.
pub open spec fn names_view(ns: Seq<String>) -> Seq<Seq<char>> {
    Seq::new(ns.len(), |i: int| ns[i]@)
}

/// The mirror of a [`DeclarationStatement`] value.
pub open spec fn decl_view(d: DeclarationStatement) -> DeclarationStatementView {
    DeclarationStatementView {
        function: d.function@,
        args: names_view(d.args@),
        block: stmt_view(d.block),
    }
}

/// The mirror of a [`TopStatement`] value.
pub open spec fn top_stmt_view(t: TopStatement) -> TopStatementView {
    match t {
        TopStatement::Statement(stmt) => TopStatementView::Statement(stmt_view(stmt)),
        TopStatement::DeclarationStatement(decl) => TopStatementView::DeclarationStatement(
            decl_view(decl),
        ),
    }
}

/// The mirror of a sequence of top-level statements, element by element.
pub open spec fn top_stmts_view(ts: Seq<TopStatement>) -> Seq<TopStatementView>
    decreases ts,
{
    if ts.len() == 0 {
        Seq::empty()
    } else {
        top_stmts_view(ts.drop_last()).push(top_stmt_view(ts.last()))
    }
}

/// The mirror of a whole source program.
pub open spec fn program_view(p: JsonLang) -> JsonLangView {
    JsonLangView { statements: top_stmts_view(p.statements@) }
}

/// Element-wise facts about [`exprs_view`].
pub broadcast proof fn lemma_exprs_view_len(es: Seq<Expression>)
    ensures
        (#[trigger] exprs_view(es)).len() == es.len(),
    decreases es.len(),
{
    if es.len() > 0 {
        lemma_exprs_view_len(es.drop_last());
    }
}

/// [`exprs_view`] read at one index.
pub broadcast proof fn lemma_exprs_view_index(es: Seq<Expression>, i: int)
    requires
        0 <= i < es.len(),
    ensures
        #[trigger] exprs_view(es)[i] == expr_view(es[i]),
    decreases es.len(),
{
    lemma_exprs_view_len(es.drop_last());
    if i < es.len() - 1 {
        lemma_exprs_view_index(es.drop_last(), i);
    }
}

/// [`exprs_view`] of a pushed sequence.
pub broadcast proof fn lemma_exprs_view_push(es: Seq<Expression>, e: Expression)
    ensures
        #[trigger] exprs_view(es.push(e)) == exprs_view(es).push(expr_view(e)),
{
}

/// Element-wise facts about [`stmts_view`].
pub broadcast proof fn lemma_stmts_view_len(ss: Seq<Statement>)
    ensures
        (#[trigger] stmts_view(ss)).len() == ss.len(),
    decreases ss.len(),
{
    if ss.len() > 0 {
        lemma_stmts_view_len(ss.drop_last());
    }
}

/// [`stmts_view`] read at one index.
pub broadcast proof fn lemma_stmts_view_index(ss: Seq<Statement>, i: int)
    requires
        0 <= i < ss.len(),
    ensures
        #[trigger] stmts_view(ss)[i] == stmt_view(ss[i]),
    decreases ss.len(),
{
    lemma_stmts_view_len(ss.drop_last());
    if i < ss.len() - 1 {
        lemma_stmts_view_index(ss.drop_last(), i);
    }
}

/// [`stmts_view`] of a pushed sequence.
pub broadcast proof fn lemma_stmts_view_push(ss: Seq<Statement>, x: Statement)
    ensures
        #[trigger] stmts_view(ss.push(x)) == stmts_view(ss).push(stmt_view(x)),
{
}

/// Element-wise facts about [`branches_view`].
pub broadcast proof fn lemma_branches_view_len(bs: Seq<IfConditions>)
    ensures
        (#[trigger] branches_view(bs)).len() == bs.len(),
    decreases bs.len(),
{
    if bs.len() > 0 {
        lemma_branches_view_len(bs.drop_last());
    }
}

/// [`branches_view`] read at one index.
pub broadcast proof fn lemma_branches_view_index(bs: Seq<IfConditions>, i: int)
    requires
        0 <= i < bs.len(),
    ensures
        #[trigger] branches_view(bs)[i] == (IfConditionsView {
            cond: expr_view(bs[i].cond),
            then_block: Box::new(stmt_view(*bs[i].then_block)),
        }),
    decreases bs.len(),
{
    lemma_branches_view_len(bs.drop_last());
    if i < bs.len() - 1 {
        lemma_branches_view_index(bs.drop_last(), i);
    }
}

/// Element-wise facts about [`top_stmts_view`].
pub broadcast proof fn lemma_top_stmts_view_len(ts: Seq<TopStatement>)
    ensures
        (#[trigger] top_stmts_view(ts)).len() == ts.len(),
    decreases ts.len(),
{
    if ts.len() > 0 {
        lemma_top_stmts_view_len(ts.drop_last());
    }
}

/// [`top_stmts_view`] read at one index.
pub broadcast proof fn lemma_top_stmts_view_index(ts: Seq<TopStatement>, i: int)
    requires
        0 <= i < ts.len(),
    ensures
        #[trigger] top_stmts_view(ts)[i] == top_stmt_view(ts[i]),
    decreases ts.len(),
{
    lemma_top_stmts_view_len(ts.drop_last());
    if i < ts.len() - 1 {
        lemma_top_stmts_view_index(ts.drop_last(), i);
    }
}

/// [`top_stmts_view`] of a pushed sequence.
pub broadcast proof fn lemma_top_stmts_view_push(ts: Seq<TopStatement>, x: TopStatement)
    ensures
        #[trigger] top_stmts_view(ts.push(x)) == top_stmts_view(ts).push(top_stmt_view(x)),
{
}

} // verus!
