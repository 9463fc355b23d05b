//! Scope resolution: allocates a dense index for every declared function,
//! binds parameters and locals per function, resolves every name to a
//! local or global index, and registers the synthetic `#main` function
//! holding the top-level statements.
//!
//! A [`VariableStore`] is a stack of name-to-index scopes sharing one
//! monotonically increasing counter; indices are never reused even after
//! a block exits.
use crate::control_simplification::{
    SimplifiedStatement, SimplifiedStatementView, SimplifiedTopStatement,
    SimplifiedTopStatementView, sstmt_view, sstmts_view, stops_view,
};
use crate::error::CompileError;
use crate::jsonlang::{ExpressionView as SourceExpressionView, UnaryOp as SourceUnaryOp, names_view};
use vstd::prelude::*;

verus! {

broadcast use {
    crate::seq_util::group_seq_facts,
};

/// One scope: name-to-index bindings, newest last.
pub type Scope = Vec<(String, u32)>;

/// The mathematical mirror of one scope.
pub type ScopeView = Seq<(Seq<char>, u32)>;

/// The mirror of a scope.
pub open spec fn scope_view(s: Seq<(String, u32)>) -> ScopeView {
    Seq::new(s.len(), |i: int| (s[i].0@, s[i].1))
}

/// The binding of a name in a scope: the newest entry wins.
pub open spec fn scope_get(m: ScopeView, name: Seq<char>) -> Option<u32>
    decreases m,
{
    if m.len() == 0 {
        None
    } else if m.last().0 == name {
        Some(m.last().1)
    } else {
        scope_get(m.drop_last(), name)
    }
}

/// A stack of name-to-index scopes sharing one monotonically increasing
/// index counter.  Indices are never reused.
#[derive(Debug, PartialEq)]
pub struct VariableStore {
    index: u32,
    stores: Vec<Scope>,
}

/// The mathematical mirror of a [`VariableStore`].
#[verifier::ext_equal]
pub struct VariableStoreView {
    pub index: u32,
    pub stores: Seq<ScopeView>,
}

impl View for VariableStore {
    type V = VariableStoreView;

    closed spec fn view(&self) -> VariableStoreView {
        VariableStoreView {
            index: self.index,
            stores: Seq::new(self.stores@.len(), |i: int| scope_view(self.stores@[i]@)),
        }
    }
}

/// The binding of a name in a store: innermost scope first, newest entry
/// first within a scope.
pub open spec fn store_get(stores: Seq<ScopeView>, name: Seq<char>) -> Option<u32>
    decreases stores,
{
    if stores.len() == 0 {
        None
    } else {
        match scope_get(stores.last(), name) {
            Some(v) => Some(v),
            None => store_get(stores.drop_last(), name),
        }
    }
}

/// Whether a name is bound anywhere in a store.
pub open spec fn store_has(s: VariableStoreView, name: Seq<char>) -> bool {
    store_get(s.stores, name) is Some
}

/// The store after a declaration: the name is bound to the next free
/// index in the innermost scope, and the counter moves on.
pub open spec fn store_declare(s: VariableStoreView, name: Seq<char>) -> VariableStoreView {
    VariableStoreView {
        index: (s.index + 1) as u32,
        stores: s.stores.update(
            s.stores.len() - 1,
            s.stores.last().push((name, s.index)),
        ),
    }
}

/// Every binding of a store, outermost scope first.
pub open spec fn store_flat(stores: Seq<ScopeView>) -> ScopeView
    decreases stores,
{
    if stores.len() == 0 {
        Seq::empty()
    } else {
        store_flat(stores.drop_last()) + stores.last()
    }
}

impl VariableStore {
    /// A fresh store: one empty scope, the counter at zero.
    pub fn new() -> (r: Self)
        ensures
            r@.index == 0,
            r@.stores =~~= seq![Seq::<(Seq<char>, u32)>::empty()],
    {
        VariableStore { index: 0, stores: vec![Vec::new()] }
    }

    /// Binds `name` in the innermost scope to the next free index and
    /// returns that index.
    pub fn declare(&mut self, name: String) -> (r: u32)
        requires
            old(self)@.index < u32::MAX,
            old(self)@.stores.len() > 0,
        ensures
            r == old(self)@.index,
            final(self)@ == store_declare(old(self)@, name@),
    {
        let index = self.index;
        let last = self.stores.len() - 1;
        let ghost old_scopes = self@.stores;
        let mut scope = self.stores.remove(last);
        scope.push((name, index));
        self.stores.insert(last, scope);
        self.index = index + 1;
        proof {
            assert(self@.stores =~~= old_scopes.update(
                old_scopes.len() - 1,
                old_scopes.last().push((name@, index)),
            ));
        }
        index
    }

    /// Whether `name` is bound in any scope of the store.
    #[verifier::loop_isolation(false)]
    pub fn has(&self, name: &String) -> (r: bool)
        ensures
            r == store_has(self@, name@),
    {
        let mut k: usize = self.stores.len();
        while k > 0
            invariant
                k <= self.stores@.len(),
                store_get(self@.stores, name@) == store_get(self@.stores.take(k as int), name@),
            decreases k,
        {
            k = k - 1;
            proof {
                assert(self@.stores.take(k as int + 1).last() == self@.stores[k as int]);
                assert(self@.stores.take(k as int + 1).drop_last() == self@.stores.take(k as int));
            }
            if let Some(_v) = scope_get_exec(&self.stores[k], name) {
                return true;
            }
        }
        proof {
            assert(self@.stores.take(0) =~= Seq::empty());
        }
        false
    }

    /// The binding of `name`, or a fresh binding in the innermost scope
    /// when the name is bound nowhere.
    pub fn declare_or_get(&mut self, name: String) -> (r: u32)
        requires
            old(self)@.index < u32::MAX,
            old(self)@.stores.len() > 0,
        ensures
            (match store_get(old(self)@.stores, name@) {
                Some(v) => r == v && final(self)@ == old(self)@,
                None => r == old(self)@.index && final(self)@ == store_declare(
                    old(self)@,
                    name@,
                ),
            }),
    {
        if self.has(&name) {
            self.get_id(name)
        } else {
            self.declare(name)
        }
    }

    /// Opens a fresh innermost scope.
    pub fn enter_block(&mut self)
        ensures
            final(self)@.index == old(self)@.index,
            final(self)@.stores =~~= old(self)@.stores.push(Seq::empty()),
    {
        self.stores.push(Vec::new());
    }

    /// Closes the innermost scope; its bindings disappear, the counter
    /// stays.  On a store with no scope left this does nothing.
    pub fn exit_block(&mut self)
        ensures
            final(self)@ =~~= store_exit(old(self)@),
    {
        let _ = self.stores.pop();
    }

    /// The index `name` is bound to; the innermost, newest binding wins.
    #[verifier::loop_isolation(false)]
    pub fn get_id(&self, name: String) -> (r: u32)
        requires
            store_has(self@, name@),
        ensures
            store_get(self@.stores, name@) == Some(r),
    {
        let mut k: usize = self.stores.len();
        while k > 0
            invariant
                k <= self.stores@.len(),
                store_get(self@.stores, name@) == store_get(self@.stores.take(k as int), name@),
            decreases k,
        {
            k = k - 1;
            proof {
                assert(self@.stores.take(k as int + 1).last() == self@.stores[k as int]);
                assert(self@.stores.take(k as int + 1).drop_last() == self@.stores.take(k as int));
            }
            if let Some(v) = scope_get_exec(&self.stores[k], &name) {
                return v;
            }
        }
        proof {
            assert(self@.stores.take(0) =~= Seq::empty());
            assert(false);
        }
        0
    }

    /// How many indices have been handed out.
    pub fn count(&self) -> (r: u32)
        ensures
            r == self@.index,
    {
        self.index
    }

    /// Every binding of the store, outermost scope first.
    #[verifier::loop_isolation(false)]
    pub fn list_variables(&self) -> (r: Vec<(String, u32)>)
        ensures
            scope_view(r@) == store_flat(self@.stores),
    {
        let mut out: Vec<(String, u32)> = Vec::new();
        let mut i: usize = 0;
        while i < self.stores.len()
            invariant
                i <= self.stores@.len(),
                scope_view(out@) =~~= store_flat(self@.stores.take(i as int)),
            decreases self.stores@.len() - i,
        {
            let scope = &self.stores[i];
            let mut j: usize = 0;
            while j < scope.len()
                invariant
                    j <= scope@.len(),
                    scope_view(out@) =~~= store_flat(self@.stores.take(i as int)) + scope_view(
                        scope@,
                    ).take(j as int),
                decreases scope@.len() - j,
            {
                let name = scope[j].0.clone();
                let idx = scope[j].1;
                let ghost prev = out@;
                out.push((name, idx));
                proof {
                    assert(out@ == prev.push((name, idx)));
                    assert(name@ == scope@[j as int].0@);
                    assert(scope_view(out@).len() == prev.len() + 1);
                    assert(forall|n: int| 0 <= n < prev.len() ==> scope_view(out@)[n]
                        == scope_view(prev)[n]);
                    let jj = j as int;
                    assert(scope_view(prev) == store_flat(self@.stores.take(i as int))
                        + scope_view(scope@).take(jj));
                    assert(scope_view(out@)[prev.len() as int] == (scope@[jj].0@, scope@[jj].1));
                    let target = store_flat(self@.stores.take(i as int)) + scope_view(
                        scope@,
                    ).take(jj + 1);
                    assert(scope_view(out@).len() == target.len());
                    assert forall|n: int| 0 <= n < target.len() implies scope_view(out@)[n]
                        == target[n] by {
                        if n < prev.len() {
                            assert(scope_view(out@)[n] == scope_view(prev)[n]);
                        } else {
                            assert(n == prev.len());
                        }
                    };
                    assert(scope_view(out@) =~= target);
                }
                j = j + 1;
            }
            proof {
                assert(self@.stores.take(i as int + 1).drop_last() == self@.stores.take(i as int));
                assert(self@.stores.take(i as int + 1).last() == self@.stores[i as int]);
                assert(scope_view(scope@).take(scope@.len() as int) =~= scope_view(scope@));
                assert(scope_view(out@) =~~= store_flat(self@.stores.take(i as int + 1)));
            }
            i = i + 1;
        }
        proof {
            assert(self@.stores.take(self@.stores.len() as int) == self@.stores);
        }
        out
    }
}

/// The binding of a name in one scope, newest entry first.
#[verifier::loop_isolation(false)]
pub(crate) fn scope_get_exec(scope: &Scope, name: &String) -> (r: Option<u32>)
    ensures
        r == scope_get(scope_view(scope@), name@),
{
    let ghost m = scope_view(scope@);
    let mut j: usize = scope.len();
    while j > 0
        invariant
            j <= scope@.len(),
            scope_get(m, name@) == scope_get(m.take(j as int), name@),
        decreases j,
    {
        j = j - 1;
        proof {
            assert(m.take(j as int + 1).drop_last() == m.take(j as int));
            assert(m.take(j as int + 1).last() == m[j as int]);
        }
        if scope[j].0.eq(name) {
            return Some(scope[j].1);
        }
    }
    proof {
        assert(m.take(0) =~= Seq::empty());
    }
    None
}


/// A unary operator of the resolved form; conversion and target-native
/// operators join the source set.
#[derive(Debug, Clone, Copy, PartialEq, Eq, Structural)]
pub enum UnaryOp {
    NumericNegation,
    LogicNegation,
    BitwiseNegation,
    FloatToInt,
    IntToFloat,
    Sqrt,
    Floor,
}

/// An index-resolved expression.
#[derive(Debug, PartialEq)]
pub enum Expression {
    UnaryOp { op: UnaryOp, arg: Box<Expression> },
    BinaryOp { lhs: Box<Expression>, op: crate::jsonlang::BinaryOp, rhs: Box<Expression> },
    LocalGet(u32),
    GlobalGet(u32),
    FunctionCall(u32, Vec<Expression>),
    NumericLiteral(String),
}

/// An index-resolved statement.
#[derive(Debug, PartialEq)]
pub enum Statement {
    Loop(Vec<Statement>),
    If { cond: Expression, then_block: Vec<Statement>, otherwise: Vec<Statement> },
    Break,
    Continue,
    LocalSet(u32, Expression),
    GlobalSet(u32, Expression),
    Call(u32, Vec<Expression>),
    Return(Expression),
}

/// The mathematical mirror of [`Expression`].
pub enum ExpressionView {
    UnaryOp { op: UnaryOp, arg: Box<ExpressionView> },
    BinaryOp {
        lhs: Box<ExpressionView>,
        op: crate::jsonlang::BinaryOp,
        rhs: Box<ExpressionView>,
    },
    LocalGet(u32),
    GlobalGet(u32),
    FunctionCall(u32, Seq<ExpressionView>),
    NumericLiteral(Seq<char>),
}

/// The mathematical mirror of [`Statement`].
pub enum StatementView {
    Loop(Seq<StatementView>),
    If { cond: ExpressionView, then_block: Seq<StatementView>, otherwise: Seq<StatementView> },
    Break,
    Continue,
    LocalSet(u32, ExpressionView),
    GlobalSet(u32, ExpressionView),
    Call(u32, Seq<ExpressionView>),
    Return(ExpressionView),
}

/// The mirror of a resolved expression.
pub open spec fn aexpr_view(e: Expression) -> ExpressionView
    decreases e,
{
    match e {
        Expression::UnaryOp { op, arg } => ExpressionView::UnaryOp {
            op: op,
            arg: Box::new(aexpr_view(*arg)),
        },
        Expression::BinaryOp { lhs, op, rhs } => ExpressionView::BinaryOp {
            lhs: Box::new(aexpr_view(*lhs)),
            op: op,
            rhs: Box::new(aexpr_view(*rhs)),
        },
        Expression::LocalGet(i) => ExpressionView::LocalGet(i),
        Expression::GlobalGet(i) => ExpressionView::GlobalGet(i),
        Expression::FunctionCall(i, args) => ExpressionView::FunctionCall(i, aexprs_view(args@)),
        Expression::NumericLiteral(t) => ExpressionView::NumericLiteral(t@),
    }
}

/// The mirror of a sequence of resolved expressions.
pub open spec fn aexprs_view(es: Seq<Expression>) -> Seq<ExpressionView>
    decreases es,
{
    if es.len() == 0 {
        Seq::empty()
    } else {
        aexprs_view(es.drop_last()).push(aexpr_view(es.last()))
    }
}

/// The mirror of a resolved statement.
pub open spec fn astmt_view(s: Statement) -> StatementView
    decreases s,
{
    match s {
        Statement::Loop(body) => StatementView::Loop(astmts_view(body@)),
        Statement::If { cond, then_block, otherwise } => StatementView::If {
            cond: aexpr_view(cond),
            then_block: astmts_view(then_block@),
            otherwise: astmts_view(otherwise@),
        },
        Statement::Break => StatementView::Break,
        Statement::Continue => StatementView::Continue,
        Statement::LocalSet(i, e) => StatementView::LocalSet(i, aexpr_view(e)),
        Statement::GlobalSet(i, e) => StatementView::GlobalSet(i, aexpr_view(e)),
        Statement::Call(i, args) => StatementView::Call(i, aexprs_view(args@)),
        Statement::Return(e) => StatementView::Return(aexpr_view(e)),
    }
}

/// The mirror of a sequence of resolved statements.
pub open spec fn astmts_view(ss: Seq<Statement>) -> Seq<StatementView>
    decreases ss,
{
    if ss.len() == 0 {
        Seq::empty()
    } else {
        astmts_view(ss.drop_last()).push(astmt_view(ss.last()))
    }
}

/// Element-wise facts about [`aexprs_view`].
pub broadcast proof fn lemma_aexprs_view_len(es: Seq<Expression>)
    ensures
        (#[trigger] aexprs_view(es)).len() == es.len(),
    decreases es.len(),
{
    if es.len() > 0 {
        lemma_aexprs_view_len(es.drop_last());
    }
}

/// [`aexprs_view`] read at one index.
pub broadcast proof fn lemma_aexprs_view_index(es: Seq<Expression>, i: int)
    requires
        0 <= i < es.len(),
    ensures
        #[trigger] aexprs_view(es)[i] == aexpr_view(es[i]),
    decreases es.len(),
{
    lemma_aexprs_view_len(es.drop_last());
    if i < es.len() - 1 {
        lemma_aexprs_view_index(es.drop_last(), i);
    }
}

/// [`aexprs_view`] of a pushed sequence.
pub broadcast proof fn lemma_aexprs_view_push(es: Seq<Expression>, e: Expression)
    ensures
        #[trigger] aexprs_view(es.push(e)) == aexprs_view(es).push(aexpr_view(e)),
{
}

/// Element-wise facts about [`astmts_view`].
pub broadcast proof fn lemma_astmts_view_len(ss: Seq<Statement>)
    ensures
        (#[trigger] astmts_view(ss)).len() == ss.len(),
    decreases ss.len(),
{
    if ss.len() > 0 {
        lemma_astmts_view_len(ss.drop_last());
    }
}

/// [`astmts_view`] read at one index.
pub broadcast proof fn lemma_astmts_view_index(ss: Seq<Statement>, i: int)
    requires
        0 <= i < ss.len(),
    ensures
        #[trigger] astmts_view(ss)[i] == astmt_view(ss[i]),
    decreases ss.len(),
{
    lemma_astmts_view_len(ss.drop_last());
    if i < ss.len() - 1 {
        lemma_astmts_view_index(ss.drop_last(), i);
    }
}

/// [`astmts_view`] of a pushed sequence.
pub broadcast proof fn lemma_astmts_view_push(ss: Seq<Statement>, x: Statement)
    ensures
        #[trigger] astmts_view(ss.push(x)) == astmts_view(ss).push(astmt_view(x)),
{
}

/// [`astmts_view`] distributes over concatenation.
pub broadcast proof fn lemma_astmts_view_add(a: Seq<Statement>, b: Seq<Statement>)
    ensures
        #[trigger] astmts_view(a + b) == astmts_view(a) + astmts_view(b),
    decreases b.len(),
{
    if b.len() == 0 {
        assert(a + b =~= a);
        assert(astmts_view(a) + astmts_view(b) =~= astmts_view(a));
    } else {
        assert((a + b).drop_last() =~= a + b.drop_last());
        assert((a + b).last() == b.last());
        lemma_astmts_view_add(a, b.drop_last());
        assert(astmts_view(a) + astmts_view(b.drop_last()).push(astmt_view(b.last()))
            =~= (astmts_view(a) + astmts_view(b.drop_last())).push(astmt_view(b.last())));
    }
}

/// A function of the current representation: its arity, its declared
/// local count (arguments excluded), and its body.
#[derive(Debug, PartialEq)]
pub struct Function<T> {
    pub arguments: u32,
    pub local_count: u32,
    pub body: Vec<T>,
}

/// The mathematical mirror of [`Function`].
#[verifier::ext_equal]
pub struct FunctionView<V> {
    pub arguments: u32,
    pub local_count: u32,
    pub body: Seq<V>,
}

/// The shared container of the pipeline from scope resolution on: the
/// global store, the function-name table and the dense function table.
#[derive(Debug, PartialEq)]
pub struct AnalysisResults<T> {
    pub global_variables: VariableStore,
    pub funcname_map: Vec<(String, u32)>,
    pub functions: Vec<Option<Function<T>>>,
}

/// The mathematical mirror of [`AnalysisResults`].
#[verifier::ext_equal]
pub struct AnalysisView<V> {
    pub global_variables: VariableStoreView,
    pub funcname_map: ScopeView,
    pub functions: Seq<Option<FunctionView<V>>>,
}

/// The mirror of a resolved function.
pub open spec fn afunc_view(f: Function<Statement>) -> FunctionView<StatementView> {
    FunctionView {
        arguments: f.arguments,
        local_count: f.local_count,
        body: astmts_view(f.body@),
    }
}

/// The mirror of a resolved function table.
pub open spec fn afnstable_view(fs: Seq<Option<Function<Statement>>>) -> Seq<
    Option<FunctionView<StatementView>>,
> {
    Seq::new(
        fs.len(),
        |i: int| match fs[i] {
            Some(f) => Some(afunc_view(f)),
            None => None,
        },
    )
}

/// The function table with `f` placed at index `i`, the table padded
/// with empty slots where it was shorter.
pub open spec fn fns_place<V>(
    fs: Seq<Option<FunctionView<V>>>,
    i: int,
    f: FunctionView<V>,
) -> Seq<Option<FunctionView<V>>> {
    if i < fs.len() {
        fs.update(i, Some(f))
    } else {
        fs + Seq::new((i - fs.len()) as nat, |j: int| None).push(Some(f))
    }
}

/// The name table after allocating a fresh function index: duplicate
/// names and an exhausted index space are fatal.
pub open spec fn alloc_index_spec(fm: ScopeView, name: Seq<char>) -> Result<
    ScopeView,
    CompileError,
> {
    if scope_get(fm, name) is Some {
        Err(CompileError::DuplicateDeclaration)
    } else if fm.len() >= u32::MAX as int {
        Err(CompileError::InternalInvariantViolation)
    } else {
        Ok(fm.push((name, fm.len() as u32)))
    }
}


/// The resolved form of a source unary operator.
pub open spec fn unary_op_spec(op: SourceUnaryOp) -> UnaryOp {
    match op {
        SourceUnaryOp::NumericNegation => UnaryOp::NumericNegation,
        SourceUnaryOp::LogicNegation => UnaryOp::LogicNegation,
        SourceUnaryOp::BitwiseNegation => UnaryOp::BitwiseNegation,
    }
}

/// Index resolution of one expression: every name becomes a local index
/// (innermost binding first), a global index, or a function index; an
/// unbound variable or callee is fatal.
pub open spec fn translate_expr_spec(
    fm: ScopeView,
    gl: VariableStoreView,
    ll: VariableStoreView,
    e: SourceExpressionView,
) -> Result<ExpressionView, CompileError>
    decreases e,
{
    match e {
        SourceExpressionView::UnaryOp { op, arg } => match translate_expr_spec(fm, gl, ll, *arg) {
            Err(err) => Err(err),
            Ok(a) => Ok(ExpressionView::UnaryOp { op: unary_op_spec(op), arg: Box::new(a) }),
        },
        SourceExpressionView::BinaryOp { lhs, op, rhs } => match translate_expr_spec(
            fm,
            gl,
            ll,
            *lhs,
        ) {
            Err(err) => Err(err),
            Ok(l) => match translate_expr_spec(fm, gl, ll, *rhs) {
                Err(err) => Err(err),
                Ok(r) => Ok(
                    ExpressionView::BinaryOp { lhs: Box::new(l), op: op, rhs: Box::new(r) },
                ),
            },
        },
        SourceExpressionView::VariableAccess(name) => match store_get(ll.stores, name) {
            Some(i) => Ok(ExpressionView::LocalGet(i)),
            None => match store_get(gl.stores, name) {
                Some(i) => Ok(ExpressionView::GlobalGet(i)),
                None => Err(CompileError::UnknownIdentifier),
            },
        },
        SourceExpressionView::FunctionCall { name, args } => match scope_get(fm, name) {
            None => Err(CompileError::UnknownIdentifier),
            Some(i) => match translate_exprs_spec(fm, gl, ll, args) {
                Err(err) => Err(err),
                Ok(ts) => Ok(ExpressionView::FunctionCall(i, ts)),
            },
        },
        SourceExpressionView::NumericLiteral(t) => Ok(ExpressionView::NumericLiteral(t)),
    }
}

/// Index resolution of a sequence of expressions, failing on the first
/// failure.
pub open spec fn translate_exprs_spec(
    fm: ScopeView,
    gl: VariableStoreView,
    ll: VariableStoreView,
    es: Seq<SourceExpressionView>,
) -> Result<Seq<ExpressionView>, CompileError>
    decreases es,
{
    if es.len() == 0 {
        Ok(Seq::empty())
    } else {
        match translate_exprs_spec(fm, gl, ll, es.drop_last()) {
            Err(err) => Err(err),
            Ok(front) => match translate_expr_spec(fm, gl, ll, es.last()) {
                Err(err) => Err(err),
                Ok(x) => Ok(front.push(x)),
            },
        }
    }
}

/// The store after one more scope was entered.
pub open spec fn store_enter(s: VariableStoreView) -> VariableStoreView {
    VariableStoreView { index: s.index, stores: s.stores.push(Seq::empty()) }
}

/// The store after the innermost scope exited; the counter stays.
pub open spec fn store_exit(s: VariableStoreView) -> VariableStoreView {
    VariableStoreView {
        index: s.index,
        stores: if s.stores.len() > 0 {
            s.stores.drop_last()
        } else {
            s.stores
        },
    }
}

/// Whether one more declaration fits in a store.
pub open spec fn store_can_declare(s: VariableStoreView) -> bool {
    s.index < u32::MAX && s.stores.len() > 0
}

/// Index resolution of one reduced statement, under the function table
/// `fm`, the global store and the local store.  It returns the evolved
/// stores and the resolved statements this one became.
pub open spec fn analyze_stmt_spec(
    fm: ScopeView,
    gl: VariableStoreView,
    ll: VariableStoreView,
    s: SimplifiedStatementView,
) -> Result<(VariableStoreView, VariableStoreView, Seq<StatementView>), CompileError>
    decreases s,
{
    match s {
        SimplifiedStatementView::Loop(content) => match analyze_stmt_spec(fm, gl, ll, *content) {
            Err(err) => Err(err),
            Ok((g1, l1, body)) => Ok((g1, l1, seq![StatementView::Loop(body)])),
        },
        SimplifiedStatementView::If { cond, then_block, otherwise } => {
            match translate_expr_spec(fm, gl, ll, cond) {
                Err(err) => Err(err),
                Ok(c) => match analyze_stmt_spec(fm, gl, ll, *then_block) {
                    Err(err) => Err(err),
                    Ok((g1, l1, tb)) => match analyze_stmt_spec(fm, g1, l1, *otherwise) {
                        Err(err) => Err(err),
                        Ok((g2, l2, ob)) => Ok(
                            (
                                g2,
                                l2,
                                seq![
                                    StatementView::If { cond: c, then_block: tb, otherwise: ob },
                                ],
                            ),
                        ),
                    },
                },
            }
        },
        SimplifiedStatementView::Break => Ok((gl, ll, seq![StatementView::Break])),
        SimplifiedStatementView::Continue => Ok((gl, ll, seq![StatementView::Continue])),
        SimplifiedStatementView::Declare(name, value) => {
            if !store_can_declare(ll) {
                Err(CompileError::InternalInvariantViolation)
            } else {
                let l1 = store_declare(ll, name);
                match translate_expr_spec(fm, gl, l1, value) {
                    Err(err) => Err(err),
                    Ok(e) => Ok((gl, l1, seq![StatementView::LocalSet(ll.index, e)])),
                }
            }
        },
        SimplifiedStatementView::Assign(name, value) => {
            if store_get(ll.stores, name) is Some {
                match translate_expr_spec(fm, gl, ll, value) {
                    Err(err) => Err(err),
                    Ok(e) => Ok(
                        (
                            gl,
                            ll,
                            seq![
                                StatementView::LocalSet(
                                    store_get(ll.stores, name).unwrap(),
                                    e,
                                ),
                            ],
                        ),
                    ),
                }
            } else {
                match store_get(gl.stores, name) {
                    Some(i) => match translate_expr_spec(fm, gl, ll, value) {
                        Err(err) => Err(err),
                        Ok(e) => Ok((gl, ll, seq![StatementView::GlobalSet(i, e)])),
                    },
                    None => {
                        if !store_can_declare(gl) {
                            Err(CompileError::InternalInvariantViolation)
                        } else {
                            let g1 = store_declare(gl, name);
                            match translate_expr_spec(fm, g1, ll, value) {
                                Err(err) => Err(err),
                                Ok(e) => Ok(
                                    (
                                        g1,
                                        ll,
                                        seq![StatementView::GlobalSet(gl.index, e)],
                                    ),
                                ),
                            }
                        }
                    },
                }
            }
        },
        SimplifiedStatementView::Call(name, args) => match scope_get(fm, name) {
            None => Err(CompileError::UnknownIdentifier),
            Some(i) => match translate_exprs_spec(fm, gl, ll, args) {
                Err(err) => Err(err),
                Ok(ts) => Ok((gl, ll, seq![StatementView::Call(i, ts)])),
            },
        },
        SimplifiedStatementView::Return(value) => match translate_expr_spec(fm, gl, ll, value) {
            Err(err) => Err(err),
            Ok(e) => Ok((gl, ll, seq![StatementView::Return(e)])),
        },
        SimplifiedStatementView::Block(ss) => {
            match analyze_seq_spec(fm, gl, store_enter(ll), ss) {
                Err(err) => Err(err),
                Ok((g1, l1, body)) => Ok((g1, store_exit(l1), body)),
            }
        },
    }
}

/// Index resolution of a sequence of reduced statements, the stores
/// threading through, the results appended in order.
pub open spec fn analyze_seq_spec(
    fm: ScopeView,
    gl: VariableStoreView,
    ll: VariableStoreView,
    ss: Seq<SimplifiedStatementView>,
) -> Result<(VariableStoreView, VariableStoreView, Seq<StatementView>), CompileError>
    decreases ss,
{
    if ss.len() == 0 {
        Ok((gl, ll, Seq::empty()))
    } else {
        match analyze_seq_spec(fm, gl, ll, ss.drop_last()) {
            Err(err) => Err(err),
            Ok((g1, l1, front)) => match analyze_stmt_spec(fm, g1, l1, ss.last()) {
                Err(err) => Err(err),
                Ok((g2, l2, items)) => Ok((g2, l2, front + items)),
            },
        }
    }
}

/// A fresh local store with the parameters bound to the first indices,
/// in order.
pub open spec fn bind_args_spec(ll: VariableStoreView, args: Seq<Seq<char>>) -> Result<
    VariableStoreView,
    CompileError,
>
    decreases args,
{
    if args.len() == 0 {
        Ok(ll)
    } else {
        match bind_args_spec(ll, args.drop_last()) {
            Err(err) => Err(err),
            Ok(l1) => if !store_can_declare(l1) {
                Err(CompileError::InternalInvariantViolation)
            } else {
                Ok(store_declare(l1, args.last()))
            },
        }
    }
}

/// Scope analysis of one function body: parameters first, then the body
/// under a fresh local store; the finished function lands in the table
/// at the index its name was allocated.
pub open spec fn analyze_function_spec(
    a: AnalysisView<StatementView>,
    name: Seq<char>,
    args: Seq<Seq<char>>,
    content: SimplifiedStatementView,
) -> Result<AnalysisView<StatementView>, CompileError> {
    match scope_get(a.funcname_map, name) {
        None => Err(CompileError::InternalInvariantViolation),
        Some(index) => {
            let l0 = VariableStoreView { index: 0, stores: seq![Seq::empty()] };
            match bind_args_spec(l0, args) {
                Err(err) => Err(err),
                Ok(l1) => {
                    let arguments = l1.index;
                    match analyze_stmt_spec(a.funcname_map, a.global_variables, l1, content) {
                        Err(err) => Err(err),
                        Ok((g2, l2, body)) => Ok(
                            AnalysisView {
                                global_variables: g2,
                                funcname_map: a.funcname_map,
                                functions: fns_place(
                                    a.functions,
                                    index as int,
                                    FunctionView {
                                        arguments,
                                        local_count: (l2.index - arguments) as u32,
                                        body,
                                    },
                                ),
                            },
                        ),
                    }
                },
            }
        },
    }
}

/// Whether a name is reserved for the polyfill stage's synthesized
/// functions; a source program may not declare it.
pub open spec fn is_reserved_name(n: Seq<char>) -> bool {
    ||| n == "#pow"@
    ||| n == "#logic_or"@
    ||| n == "#cordic_lut"@
    ||| n == "#ln_cordic"@
    ||| n == "#exp_cordic"@
}

/// The first pass over a program: a dense index for every declared
/// function name, in source order.  A name reserved for a synthesized
/// polyfill is fatal: were it allowed, the polyfill registry could hand
/// the splice a user function's index and overwrite it.
pub open spec fn alloc_pass_spec(fm: ScopeView, prog: Seq<SimplifiedTopStatementView>) -> Result<
    ScopeView,
    CompileError,
>
    decreases prog,
{
    if prog.len() == 0 {
        Ok(fm)
    } else {
        match alloc_pass_spec(fm, prog.drop_last()) {
            Err(err) => Err(err),
            Ok(f1) => match prog.last() {
                SimplifiedTopStatementView::Statement(_) => Ok(f1),
                SimplifiedTopStatementView::DeclarationStatement { name, args: _, content: _ } => {
                    if is_reserved_name(name) {
                        Err(CompileError::UnsupportedConstruct)
                    } else {
                        alloc_index_spec(f1, name)
                    }
                },
            },
        }
    }
}

/// The second pass over a program: every declared function is analyzed
/// in source order, and the plain top-level statements are collected.
pub open spec fn analyze_pass_spec(
    a: AnalysisView<StatementView>,
    prog: Seq<SimplifiedTopStatementView>,
) -> Result<(AnalysisView<StatementView>, Seq<SimplifiedStatementView>), CompileError>
    decreases prog,
{
    if prog.len() == 0 {
        Ok((a, Seq::empty()))
    } else {
        match analyze_pass_spec(a, prog.drop_last()) {
            Err(err) => Err(err),
            Ok((a1, tops)) => match prog.last() {
                SimplifiedTopStatementView::Statement(s) => Ok((a1, tops.push(s))),
                SimplifiedTopStatementView::DeclarationStatement { name, args, content } => {
                    match analyze_function_spec(a1, name, args, content) {
                        Err(err) => Err(err),
                        Ok(a2) => Ok((a2, tops)),
                    }
                },
            },
        }
    }
}

/// Scope analysis of a whole program: allocate every declared name, then
/// analyze every declared function, then register the synthetic `#main`
/// holding the plain top-level statements.
pub open spec fn analyze_top_spec(
    a: AnalysisView<StatementView>,
    prog: Seq<SimplifiedTopStatementView>,
) -> Result<AnalysisView<StatementView>, CompileError> {
    match alloc_pass_spec(a.funcname_map, prog) {
        Err(err) => Err(err),
        Ok(fm1) => {
            let a1 = AnalysisView {
                global_variables: a.global_variables,
                funcname_map: fm1,
                functions: a.functions,
            };
            match analyze_pass_spec(a1, prog) {
                Err(err) => Err(err),
                Ok((a2, tops)) => match alloc_index_spec(a2.funcname_map, "#main"@) {
                    Err(err) => Err(err),
                    Ok(fm2) => {
                        let a3 = AnalysisView {
                            global_variables: a2.global_variables,
                            funcname_map: fm2,
                            functions: a2.functions,
                        };
                        analyze_function_spec(
                            a3,
                            "#main"@,
                            Seq::empty(),
                            SimplifiedStatementView::Block(tops),
                        )
                    },
                },
            }
        },
    }
}

/// The mirror of a fresh analysis container.
pub open spec fn analysis_empty_spec() -> AnalysisView<StatementView> {
    AnalysisView {
        global_variables: VariableStoreView {
            index: 0,
            stores: seq![Seq::<(Seq<char>, u32)>::empty()],
        },
        funcname_map: Seq::empty(),
        functions: Seq::empty(),
    }
}


impl VariableStore {
    /// Whether one more declaration fits.
    fn can_declare(&self) -> (r: bool)
        ensures
            r == store_can_declare(self@),
    {
        self.index < u32::MAX && self.stores.len() > 0
    }
}

impl<T> AnalysisResults<T> {
    /// Allocates the next dense function index for `name`; a repeated
    /// name is fatal.
    pub fn allocate_index(&mut self, name: String) -> (r: Result<(), CompileError>)
        ensures
            final(self).global_variables == old(self).global_variables,
            final(self).functions == old(self).functions,
            (match r {
                Ok(()) => alloc_index_spec(scope_view(old(self).funcname_map@), name@) == Ok::<
                    ScopeView,
                    CompileError,
                >(scope_view(final(self).funcname_map@)),
                Err(e) => alloc_index_spec(scope_view(old(self).funcname_map@), name@) == Err::<
                    ScopeView,
                    CompileError,
                >(e) && *final(self) == *old(self),
            }),
    {
        if let Some(_) = scope_get_exec(&self.funcname_map, &name) {
            return Err(CompileError::DuplicateDeclaration);
        }
        if self.funcname_map.len() >= u32::MAX as usize {
            return Err(CompileError::InternalInvariantViolation);
        }
        let index = self.funcname_map.len() as u32;
        let ghost prev = self.funcname_map@;
        self.funcname_map.push((name, index));
        proof {
            assert(scope_view(self.funcname_map@) =~= scope_view(prev).push((name@, index)));
        }
        Ok(())
    }
}

/// The mirror of a resolved-statement analysis container.
pub open spec fn aview(a: AnalysisResults<Statement>) -> AnalysisView<StatementView> {
    AnalysisView {
        global_variables: a.global_variables@,
        funcname_map: scope_view(a.funcname_map@),
        functions: afnstable_view(a.functions@),
    }
}

/// A failed prefix fails the whole expression sequence.
proof fn lemma_translate_exprs_err(
    fm: ScopeView,
    gl: VariableStoreView,
    ll: VariableStoreView,
    es: Seq<crate::jsonlang::Expression>,
    i: int,
    e: CompileError,
)
    requires
        0 <= i <= es.len(),
        translate_exprs_spec(fm, gl, ll, crate::jsonlang::exprs_view(es.take(i))) == Err::<
            Seq<ExpressionView>,
            CompileError,
        >(e),
    ensures
        translate_exprs_spec(fm, gl, ll, crate::jsonlang::exprs_view(es)) == Err::<
            Seq<ExpressionView>,
            CompileError,
        >(e),
    decreases es.len() - i,
{
    broadcast use crate::jsonlang::lemma_exprs_view_len;

    if i < es.len() {
        assert(crate::jsonlang::exprs_view(es.take(i + 1)).drop_last() =~= crate::jsonlang::exprs_view(
            es.take(i),
        )) by {
            broadcast use crate::jsonlang::lemma_exprs_view_index;

        }
        lemma_translate_exprs_err(fm, gl, ll, es, i + 1, e);
    } else {
        assert(es.take(i) =~= es);
    }
}

impl AnalysisResults<Statement> {
    /// A fresh analysis container.
    pub fn new() -> (r: Self)
        ensures
            aview(r) =~~= analysis_empty_spec(),
    {
        let r = AnalysisResults {
            global_variables: VariableStore::new(),
            funcname_map: Vec::new(),
            functions: Vec::new(),
        };
        proof {
            assert(aview(r).funcname_map =~= Seq::empty());
            assert(aview(r).functions =~= Seq::empty());
            assert(aview(r).global_variables.stores =~~= seq![
                Seq::<(Seq<char>, u32)>::empty(),
            ]);
        }
        r
    }

    /// Resolves the names of one expression against the local store, the
    /// global store and the function table.
    #[verifier::loop_isolation(false)]
    fn translate_expression(
        &self,
        expr: &crate::jsonlang::Expression,
        locals: &VariableStore,
    ) -> (r: Result<Expression, CompileError>)
        ensures
            (match r {
                Ok(t) => translate_expr_spec(
                    scope_view(self.funcname_map@),
                    self.global_variables@,
                    locals@,
                    crate::jsonlang::expr_view(*expr),
                ) == Ok::<ExpressionView, CompileError>(aexpr_view(t)),
                Err(e) => translate_expr_spec(
                    scope_view(self.funcname_map@),
                    self.global_variables@,
                    locals@,
                    crate::jsonlang::expr_view(*expr),
                ) == Err::<ExpressionView, CompileError>(e),
            }),
        decreases *expr,
    {
        match expr {
            crate::jsonlang::Expression::UnaryOp { op, arg } => {
                let a = match self.translate_expression(&**arg, locals) {
                    Ok(t) => t,
                    Err(e) => return Err(e),
                };
                let op2 = match op {
                    SourceUnaryOp::NumericNegation => UnaryOp::NumericNegation,
                    SourceUnaryOp::LogicNegation => UnaryOp::LogicNegation,
                    SourceUnaryOp::BitwiseNegation => UnaryOp::BitwiseNegation,
                };
                Ok(Expression::UnaryOp { op: op2, arg: Box::new(a) })
            },
            crate::jsonlang::Expression::BinaryOp { lhs, op, rhs } => {
                let l = match self.translate_expression(&**lhs, locals) {
                    Ok(t) => t,
                    Err(e) => return Err(e),
                };
                let r = match self.translate_expression(&**rhs, locals) {
                    Ok(t) => t,
                    Err(e) => return Err(e),
                };
                Ok(Expression::BinaryOp { lhs: Box::new(l), op: *op, rhs: Box::new(r) })
            },
            crate::jsonlang::Expression::VariableAccess(name) => {
                if locals.has(name) {
                    Ok(Expression::LocalGet(locals.get_id(name.clone())))
                } else if self.global_variables.has(name) {
                    Ok(Expression::GlobalGet(self.global_variables.get_id(name.clone())))
                } else {
                    Err(CompileError::UnknownIdentifier)
                }
            },
            crate::jsonlang::Expression::FunctionCall { name, args } => {
                let index = match scope_get_exec(&self.funcname_map, name) {
                    Some(i) => i,
                    None => return Err(CompileError::UnknownIdentifier),
                };
                let ts = match self.translate_args(args, locals) {
                    Ok(v) => v,
                    Err(e) => return Err(e),
                };
                Ok(Expression::FunctionCall(index, ts))
            },
            crate::jsonlang::Expression::NumericLiteral(t) => Ok(
                Expression::NumericLiteral(t.clone()),
            ),
        }
    }

    /// Resolves the names of each argument expression, in order.
    #[verifier::loop_isolation(false)]
    fn translate_args(
        &self,
        args: &Vec<crate::jsonlang::Expression>,
        locals: &VariableStore,
    ) -> (r: Result<Vec<Expression>, CompileError>)
        ensures
            (match r {
                Ok(ts) => translate_exprs_spec(
                    scope_view(self.funcname_map@),
                    self.global_variables@,
                    locals@,
                    crate::jsonlang::exprs_view(args@),
                ) == Ok::<Seq<ExpressionView>, CompileError>(aexprs_view(ts@)),
                Err(e) => translate_exprs_spec(
                    scope_view(self.funcname_map@),
                    self.global_variables@,
                    locals@,
                    crate::jsonlang::exprs_view(args@),
                ) == Err::<Seq<ExpressionView>, CompileError>(e),
            }),
        decreases *args,
    {
        broadcast use crate::jsonlang::lemma_exprs_view_len;
        broadcast use crate::jsonlang::lemma_exprs_view_index;

        let mut out: Vec<Expression> = Vec::new();
        let mut i: usize = 0;
        while i < args.len()
            invariant
                i <= args@.len(),
                translate_exprs_spec(
                    scope_view(self.funcname_map@),
                    self.global_variables@,
                    locals@,
                    crate::jsonlang::exprs_view(args@.take(i as int)),
                ) == Ok::<Seq<ExpressionView>, CompileError>(aexprs_view(out@)),
            decreases args@.len() - i,
        {
            proof {
                assert(crate::jsonlang::exprs_view(args@.take(i as int + 1)).drop_last()
                    =~= crate::jsonlang::exprs_view(args@.take(i as int)));
            }
            let x = match self.translate_expression(&args[i], locals) {
                Ok(t) => t,
                Err(e) => {
                    proof {
                        lemma_translate_exprs_err(
                            scope_view(self.funcname_map@),
                            self.global_variables@,
                            locals@,
                            args@,
                            i as int + 1,
                            e,
                        );
                    }
                    return Err(e);
                },
            };
            out.push(x);
            i = i + 1;
        }
        proof {
            assert(args@.take(args@.len() as int) =~= args@);
        }
        Ok(out)
    }
}


/// Index counters never shrink under analysis.
pub proof fn lemma_analyze_index_monotone(
    fm: ScopeView,
    gl: VariableStoreView,
    ll: VariableStoreView,
    s: SimplifiedStatementView,
)
    ensures
        (match analyze_stmt_spec(fm, gl, ll, s) {
            Ok((g, l, _)) => l.index >= ll.index && g.index >= gl.index,
            Err(_) => true,
        }),
    decreases s,
{
    match s {
        SimplifiedStatementView::Loop(content) => {
            lemma_analyze_index_monotone(fm, gl, ll, *content);
        },
        SimplifiedStatementView::If { cond, then_block, otherwise } => {
            if translate_expr_spec(fm, gl, ll, cond) is Ok {
                lemma_analyze_index_monotone(fm, gl, ll, *then_block);
                if let Ok((g1, l1, _)) = analyze_stmt_spec(fm, gl, ll, *then_block) {
                    lemma_analyze_index_monotone(fm, g1, l1, *otherwise);
                }
            }
        },
        SimplifiedStatementView::Block(ss) => {
            lemma_analyze_seq_index_monotone(fm, gl, store_enter(ll), ss);
        },
        _ => {},
    }
}

/// Index counters never shrink under analysis of a sequence.
pub proof fn lemma_analyze_seq_index_monotone(
    fm: ScopeView,
    gl: VariableStoreView,
    ll: VariableStoreView,
    ss: Seq<SimplifiedStatementView>,
)
    ensures
        (match analyze_seq_spec(fm, gl, ll, ss) {
            Ok((g, l, _)) => l.index >= ll.index && g.index >= gl.index,
            Err(_) => true,
        }),
    decreases ss,
{
    if ss.len() > 0 {
        lemma_analyze_seq_index_monotone(fm, gl, ll, ss.drop_last());
        if let Ok((g1, l1, _)) = analyze_seq_spec(fm, gl, ll, ss.drop_last()) {
            lemma_analyze_index_monotone(fm, g1, l1, ss.last());
        }
    }
}

/// A failed prefix fails the whole statement sequence.
proof fn lemma_analyze_seq_err(
    fm: ScopeView,
    gl: VariableStoreView,
    ll: VariableStoreView,
    ss: Seq<SimplifiedStatement>,
    i: int,
    e: CompileError,
)
    requires
        0 <= i <= ss.len(),
        analyze_seq_spec(fm, gl, ll, sstmts_view(ss.take(i))) == Err::<
            (VariableStoreView, VariableStoreView, Seq<StatementView>),
            CompileError,
        >(e),
    ensures
        analyze_seq_spec(fm, gl, ll, sstmts_view(ss)) == Err::<
            (VariableStoreView, VariableStoreView, Seq<StatementView>),
            CompileError,
        >(e),
    decreases ss.len() - i,
{
    broadcast use crate::control_simplification::lemma_sstmts_view_len;
    broadcast use crate::control_simplification::lemma_sstmts_view_index;

    if i < ss.len() {
        assert(sstmts_view(ss.take(i + 1)).drop_last() =~= sstmts_view(ss.take(i)));
        lemma_analyze_seq_err(fm, gl, ll, ss, i + 1, e);
    } else {
        assert(ss.take(i) =~= ss);
    }
}

impl AnalysisResults<Statement> {
    /// Resolves one reduced statement: declarations bind fresh local
    /// indices, assignments resolve innermost-local-first with a lazy
    /// global fallback, calls resolve to pre-allocated function indices.
    #[verifier::loop_isolation(false)]
    #[verifier::rlimit(60)]
    fn analyze_variables(
        &mut self,
        stmt: &SimplifiedStatement,
        locals: &mut VariableStore,
    ) -> (r: Result<Vec<Statement>, CompileError>)
        ensures
            final(self).funcname_map == old(self).funcname_map,
            final(self).functions == old(self).functions,
            (match r {
                Ok(v) => analyze_stmt_spec(
                    scope_view(old(self).funcname_map@),
                    old(self).global_variables@,
                    old(locals)@,
                    sstmt_view(*stmt),
                ) == Ok::<(VariableStoreView, VariableStoreView, Seq<StatementView>), CompileError>(
                    (final(self).global_variables@, final(locals)@, astmts_view(v@)),
                ),
                Err(e) => analyze_stmt_spec(
                    scope_view(old(self).funcname_map@),
                    old(self).global_variables@,
                    old(locals)@,
                    sstmt_view(*stmt),
                ) == Err::<(VariableStoreView, VariableStoreView, Seq<StatementView>), CompileError>(
                    e,
                ),
            }),
        decreases *stmt,
    {
        proof {
            reveal_with_fuel(astmts_view, 2);
        }
        match stmt {
            SimplifiedStatement::Loop(content) => {
                let body = match self.analyze_variables(&**content, locals) {
                    Ok(v) => v,
                    Err(e) => return Err(e),
                };
                let mut out: Vec<Statement> = Vec::new();
                out.push(Statement::Loop(body));
                proof {
                    assert(astmts_view(out@) =~= seq![astmt_view(out@[0])]);
                }
                Ok(out)
            },
            SimplifiedStatement::If { cond, then_block, otherwise } => {
                let c = match self.translate_expression(cond, locals) {
                    Ok(t) => t,
                    Err(e) => return Err(e),
                };
                let tb = match self.analyze_variables(&**then_block, locals) {
                    Ok(v) => v,
                    Err(e) => return Err(e),
                };
                let ob = match self.analyze_variables(&**otherwise, locals) {
                    Ok(v) => v,
                    Err(e) => return Err(e),
                };
                let mut out: Vec<Statement> = Vec::new();
                out.push(Statement::If { cond: c, then_block: tb, otherwise: ob });
                proof {
                    assert(astmts_view(out@) =~= seq![astmt_view(out@[0])]);
                }
                Ok(out)
            },
            SimplifiedStatement::Break => {
                let mut out: Vec<Statement> = Vec::new();
                out.push(Statement::Break);
                proof {
                    assert(astmts_view(out@) =~= seq![astmt_view(out@[0])]);
                }
                Ok(out)
            },
            SimplifiedStatement::Continue => {
                let mut out: Vec<Statement> = Vec::new();
                out.push(Statement::Continue);
                proof {
                    assert(astmts_view(out@) =~= seq![astmt_view(out@[0])]);
                }
                Ok(out)
            },
            SimplifiedStatement::Declare(name, value) => {
                if !locals.can_declare() {
                    return Err(CompileError::InternalInvariantViolation);
                }
                let index = locals.declare(name.clone());
                let e = match self.translate_expression(value, locals) {
                    Ok(t) => t,
                    Err(err) => return Err(err),
                };
                let mut out: Vec<Statement> = Vec::new();
                out.push(Statement::LocalSet(index, e));
                proof {
                    assert(astmts_view(out@) =~= seq![astmt_view(out@[0])]);
                }
                Ok(out)
            },
            SimplifiedStatement::Assign(name, value) => {
                if locals.has(name) {
                    let id = locals.get_id(name.clone());
                    let e = match self.translate_expression(value, locals) {
                        Ok(t) => t,
                        Err(err) => return Err(err),
                    };
                    let mut out: Vec<Statement> = Vec::new();
                    out.push(Statement::LocalSet(id, e));
                    proof {
                        assert(astmts_view(out@) =~= seq![astmt_view(out@[0])]);
                    }
                    Ok(out)
                } else if self.global_variables.has(name) {
                    let id = self.global_variables.get_id(name.clone());
                    let e = match self.translate_expression(value, locals) {
                        Ok(t) => t,
                        Err(err) => return Err(err),
                    };
                    let mut out: Vec<Statement> = Vec::new();
                    out.push(Statement::GlobalSet(id, e));
                    proof {
                        assert(astmts_view(out@) =~= seq![astmt_view(out@[0])]);
                    }
                    Ok(out)
                } else {
                    if !self.global_variables.can_declare() {
                        return Err(CompileError::InternalInvariantViolation);
                    }
                    let id = self.global_variables.declare(name.clone());
                    let e = match self.translate_expression(value, locals) {
                        Ok(t) => t,
                        Err(err) => return Err(err),
                    };
                    let mut out: Vec<Statement> = Vec::new();
                    out.push(Statement::GlobalSet(id, e));
                    proof {
                        assert(astmts_view(out@) =~= seq![astmt_view(out@[0])]);
                    }
                    Ok(out)
                }
            },
            SimplifiedStatement::Call(name, args) => {
                let index = match scope_get_exec(&self.funcname_map, name) {
                    Some(i) => i,
                    None => return Err(CompileError::UnknownIdentifier),
                };
                let ts = match self.translate_args(args, locals) {
                    Ok(v) => v,
                    Err(e) => return Err(e),
                };
                let mut out: Vec<Statement> = Vec::new();
                out.push(Statement::Call(index, ts));
                proof {
                    assert(astmts_view(out@) =~= seq![astmt_view(out@[0])]);
                }
                Ok(out)
            },
            SimplifiedStatement::Return(value) => {
                let e = match self.translate_expression(value, locals) {
                    Ok(t) => t,
                    Err(err) => return Err(err),
                };
                let mut out: Vec<Statement> = Vec::new();
                out.push(Statement::Return(e));
                proof {
                    assert(astmts_view(out@) =~= seq![astmt_view(out@[0])]);
                }
                Ok(out)
            },
            SimplifiedStatement::Block(stmts) => {
                broadcast use crate::control_simplification::lemma_sstmts_view_len;
                broadcast use crate::control_simplification::lemma_sstmts_view_index;

                locals.enter_block();
                let ghost fm0 = scope_view(self.funcname_map@);
                let ghost g0 = self.global_variables@;
                let ghost l0 = locals@;
                let mut out: Vec<Statement> = Vec::new();
                let mut i: usize = 0;
                while i < stmts.len()
                    invariant
                        i <= stmts@.len(),
                        self.funcname_map == old(self).funcname_map,
                        self.functions == old(self).functions,
                        analyze_seq_spec(fm0, g0, l0, sstmts_view(stmts@.take(i as int))) == Ok::<
                            (VariableStoreView, VariableStoreView, Seq<StatementView>),
                            CompileError,
                        >((self.global_variables@, locals@, astmts_view(out@))),
                    decreases stmts@.len() - i,
                {
                    proof {
                        assert(sstmts_view(stmts@.take(i as int + 1)).drop_last() =~= sstmts_view(
                            stmts@.take(i as int),
                        ));
                    }
                    let mut items = match self.analyze_variables(&stmts[i], locals) {
                        Ok(v) => v,
                        Err(e) => {
                            proof {
                                lemma_analyze_seq_err(fm0, g0, l0, stmts@, i as int + 1, e);
                            }
                            return Err(e);
                        },
                    };
                    proof {
                        broadcast use lemma_astmts_view_add;

                    }
                    out.append(&mut items);
                    i = i + 1;
                }
                proof {
                    assert(stmts@.take(stmts@.len() as int) =~= stmts@);
                }
                locals.exit_block();
                Ok(out)
            },
        }
    }
}



/// Whether a name is reserved for a synthesized polyfill.
pub fn is_reserved_name_exec(n: &String) -> (r: bool)
    ensures
        r == is_reserved_name(n@),
{
    let pow: String = "#pow".to_owned();
    let lor: String = "#logic_or".to_owned();
    let lut: String = "#cordic_lut".to_owned();
    let ln: String = "#ln_cordic".to_owned();
    let exp: String = "#exp_cordic".to_owned();
    *n == pow || *n == lor || *n == lut || *n == ln || *n == exp
}

/// A failed prefix fails the whole parameter binding.
proof fn lemma_bind_args_err(l0: VariableStoreView, args: Seq<String>, i: int, e: CompileError)
    requires
        0 <= i <= args.len(),
        bind_args_spec(l0, names_view(args.take(i))) == Err::<VariableStoreView, CompileError>(e),
    ensures
        bind_args_spec(l0, names_view(args)) == Err::<VariableStoreView, CompileError>(e),
    decreases args.len() - i,
{
    if i < args.len() {
        assert(names_view(args.take(i + 1)).drop_last() =~= names_view(args.take(i)));
        lemma_bind_args_err(l0, args, i + 1, e);
    } else {
        assert(args.take(i) =~= args);
    }
}

/// A failed prefix fails the whole allocation pass.
proof fn lemma_alloc_pass_err(
    fm: ScopeView,
    ts: Seq<SimplifiedTopStatement>,
    i: int,
    e: CompileError,
)
    requires
        0 <= i <= ts.len(),
        alloc_pass_spec(fm, stops_view(ts.take(i))) == Err::<ScopeView, CompileError>(e),
    ensures
        alloc_pass_spec(fm, stops_view(ts)) == Err::<ScopeView, CompileError>(e),
    decreases ts.len() - i,
{
    broadcast use crate::control_simplification::lemma_stops_view_len;
    broadcast use crate::control_simplification::lemma_stops_view_index;

    if i < ts.len() {
        assert(stops_view(ts.take(i + 1)).drop_last() =~= stops_view(ts.take(i)));
        lemma_alloc_pass_err(fm, ts, i + 1, e);
    } else {
        assert(ts.take(i) =~= ts);
    }
}

/// A failed prefix fails the whole analysis pass.
proof fn lemma_analyze_pass_err(
    a: AnalysisView<StatementView>,
    ts: Seq<SimplifiedTopStatement>,
    i: int,
    e: CompileError,
)
    requires
        0 <= i <= ts.len(),
        analyze_pass_spec(a, stops_view(ts.take(i))) == Err::<
            (AnalysisView<StatementView>, Seq<SimplifiedStatementView>),
            CompileError,
        >(e),
    ensures
        analyze_pass_spec(a, stops_view(ts)) == Err::<
            (AnalysisView<StatementView>, Seq<SimplifiedStatementView>),
            CompileError,
        >(e),
    decreases ts.len() - i,
{
    broadcast use crate::control_simplification::lemma_stops_view_len;
    broadcast use crate::control_simplification::lemma_stops_view_index;

    if i < ts.len() {
        assert(stops_view(ts.take(i + 1)).drop_last() =~= stops_view(ts.take(i)));
        lemma_analyze_pass_err(a, ts, i + 1, e);
    } else {
        assert(ts.take(i) =~= ts);
    }
}

impl AnalysisResults<Statement> {
    /// Puts a finished function at its reserved index, growing the table
    /// with empty slots where it is shorter.
    #[verifier::loop_isolation(false)]
    fn place_function(&mut self, index: u32, f: Function<Statement>)
        ensures
            final(self).funcname_map == old(self).funcname_map,
            final(self).global_variables == old(self).global_variables,
            afnstable_view(final(self).functions@) == fns_place(
                afnstable_view(old(self).functions@),
                index as int,
                afunc_view(f),
            ),
    {
        let idx = index as usize;
        let ghost orig = self.functions@;
        while self.functions.len() < idx
            invariant
                self.funcname_map == old(self).funcname_map,
                self.global_variables == old(self).global_variables,
                self.functions@.len() >= orig.len(),
                orig.len() >= idx ==> self.functions@ == orig,
                orig.len() < idx ==> self.functions@.len() <= idx && self.functions@.take(
                    orig.len() as int,
                ) =~= orig && (forall|j: int|
                    orig.len() <= j < self.functions@.len() ==> self.functions@[j] is None),
            decreases idx - self.functions@.len(),
        {
            self.functions.push(None);
        }
        if self.functions.len() == idx {
            self.functions.push(Some(f));
            proof {
                assert(afnstable_view(self.functions@) =~= fns_place(
                    afnstable_view(orig),
                    index as int,
                    afunc_view(f),
                ));
            }
        } else {
            let _ = self.functions.remove(idx);
            self.functions.insert(idx, Some(f));
            proof {
                assert(self.functions@ =~= orig.update(idx as int, Some(f)));
                assert(afnstable_view(self.functions@) =~= fns_place(
                    afnstable_view(orig),
                    index as int,
                    afunc_view(f),
                ));
            }
        }
    }

    /// Analyzes one declared function: parameters bound first, the body
    /// resolved under a fresh local store, the result placed at the
    /// function's pre-allocated index.
    #[verifier::loop_isolation(false)]
    fn analyze_function(
        &mut self,
        name: String,
        args: Vec<String>,
        content: SimplifiedStatement,
    ) -> (r: Result<(), CompileError>)
        ensures
            final(self).funcname_map == old(self).funcname_map,
            (match r {
                Ok(()) => analyze_function_spec(
                    aview(*old(self)),
                    name@,
                    names_view(args@),
                    sstmt_view(content),
                ) == Ok::<AnalysisView<StatementView>, CompileError>(aview(*final(self))),
                Err(e) => analyze_function_spec(
                    aview(*old(self)),
                    name@,
                    names_view(args@),
                    sstmt_view(content),
                ) == Err::<AnalysisView<StatementView>, CompileError>(e),
            }),
    {
        let index = match scope_get_exec(&self.funcname_map, &name) {
            Some(i) => i,
            None => return Err(CompileError::InternalInvariantViolation),
        };
        let mut locals = VariableStore::new();
        let ghost l0 = VariableStoreView { index: 0, stores: seq![Seq::empty()] };
        proof {
            assert(locals@ =~~= l0);
        }
        let mut i: usize = 0;
        while i < args.len()
            invariant
                i <= args@.len(),
                bind_args_spec(l0, names_view(args@.take(i as int))) == Ok::<
                    VariableStoreView,
                    CompileError,
                >(locals@),
            decreases args@.len() - i,
        {
            proof {
                assert(names_view(args@.take(i as int + 1)).drop_last() =~= names_view(
                    args@.take(i as int),
                ));
            }
            if !locals.can_declare() {
                proof {
                    lemma_bind_args_err(
                        l0,
                        args@,
                        i as int + 1,
                        CompileError::InternalInvariantViolation,
                    );
                }
                return Err(CompileError::InternalInvariantViolation);
            }
            let _ = locals.declare(args[i].clone());
            i = i + 1;
        }
        proof {
            assert(args@.take(args@.len() as int) =~= args@);
        }
        let arguments = locals.count();
        let body = match self.analyze_variables(&content, &mut locals) {
            Ok(v) => v,
            Err(e) => return Err(e),
        };
        proof {
            lemma_analyze_index_monotone(
                scope_view(self.funcname_map@),
                old(self).global_variables@,
                bind_args_spec(l0, names_view(args@)).unwrap(),
                sstmt_view(content),
            );
        }
        let local_count = locals.count() - arguments;
        self.place_function(index, Function { arguments, local_count, body });
        proof {
            assert(aview(*self) =~~= analyze_function_spec(
                aview(*old(self)),
                name@,
                names_view(args@),
                sstmt_view(content),
            ).unwrap());
        }
        Ok(())
    }

    /// Analyzes a whole program: allocates every declared function name
    /// in source order, analyzes each declared function, then registers
    /// the synthetic `#main` holding every plain top-level statement.
    #[verifier::loop_isolation(false)]
    pub fn analyze_top(&mut self, program: Vec<SimplifiedTopStatement>) -> (r: Result<
        (),
        CompileError,
    >)
        ensures
            (match r {
                Ok(()) => analyze_top_spec(aview(*old(self)), stops_view(program@)) == Ok::<
                    AnalysisView<StatementView>,
                    CompileError,
                >(aview(*final(self))),
                Err(e) => analyze_top_spec(aview(*old(self)), stops_view(program@)) == Err::<
                    AnalysisView<StatementView>,
                    CompileError,
                >(e),
            }),
    {
        broadcast use crate::control_simplification::lemma_stops_view_len;
        broadcast use crate::control_simplification::lemma_stops_view_index;
        broadcast use crate::control_simplification::lemma_sstmts_view_len;
        broadcast use crate::control_simplification::lemma_sstmts_view_index;
        broadcast use crate::control_simplification::lemma_sstmts_view_push;

        let ghost a0 = aview(*self);
        let mut i: usize = 0;
        while i < program.len()
            invariant
                i <= program@.len(),
                self.global_variables == old(self).global_variables,
                self.functions == old(self).functions,
                alloc_pass_spec(a0.funcname_map, stops_view(program@.take(i as int))) == Ok::<
                    ScopeView,
                    CompileError,
                >(scope_view(self.funcname_map@)),
            decreases program@.len() - i,
        {
            proof {
                assert(stops_view(program@.take(i as int + 1)).drop_last() =~= stops_view(
                    program@.take(i as int),
                ));
            }
            match &program[i] {
                SimplifiedTopStatement::Statement(_) => {},
                SimplifiedTopStatement::DeclarationStatement { name, args: _, content: _ } => {
                    if is_reserved_name_exec(name) {
                        proof {
                            lemma_alloc_pass_err(
                                a0.funcname_map,
                                program@,
                                i as int + 1,
                                CompileError::UnsupportedConstruct,
                            );
                        }
                        return Err(CompileError::UnsupportedConstruct);
                    }
                    match self.allocate_index(name.clone()) {
                        Ok(()) => {},
                        Err(e) => {
                            proof {
                                lemma_alloc_pass_err(a0.funcname_map, program@, i as int + 1, e);
                            }
                            return Err(e);
                        },
                    }
                },
            }
            i = i + 1;
        }
        proof {
            assert(program@.take(program@.len() as int) =~= program@);
        }
        let ghost a1 = AnalysisView {
            global_variables: a0.global_variables,
            funcname_map: scope_view(self.funcname_map@),
            functions: a0.functions,
        };
        proof {
            assert(aview(*self) =~~= a1);
        }
        let ghost orig = program@;
        let mut program = program;
        let mut tops: Vec<SimplifiedStatement> = Vec::new();
        let mut i: usize = 0;
        while program.len() > 0
            invariant
                i <= orig.len(),
                program@ =~= orig.skip(i as int),
                analyze_pass_spec(a1, stops_view(orig.take(i as int))) == Ok::<
                    (AnalysisView<StatementView>, Seq<SimplifiedStatementView>),
                    CompileError,
                >((aview(*self), sstmts_view(tops@))),
            decreases program@.len(),
        {
            proof {
                assert(orig.take(i as int + 1).last() == orig[i as int]);
                assert(orig[i as int] == program@[0]);
                assert(stops_view(orig.take(i as int + 1)).drop_last() =~= stops_view(
                    orig.take(i as int),
                ));
            }
            let t = program.remove(0);
            match t {
                SimplifiedTopStatement::Statement(st) => {
                    tops.push(st);
                },
                SimplifiedTopStatement::DeclarationStatement { name, args, content } => {
                    match self.analyze_function(name, args, content) {
                        Ok(()) => {},
                        Err(e) => {
                            proof {
                                lemma_analyze_pass_err(a1, orig, i as int + 1, e);
                            }
                            return Err(e);
                        },
                    }
                },
            }
            proof {
                assert(program@ =~= orig.skip(i as int + 1));
            }
            i = i + 1;
        }
        proof {
            assert(orig.take(orig.len() as int) =~= orig);
            assert(i as int == orig.len());
        }
        let main_name: String = "#main".to_owned();
        match self.allocate_index(main_name.clone()) {
            Ok(()) => {},
            Err(e) => return Err(e),
        }
        let no_args: Vec<String> = Vec::new();
        proof {
            assert(names_view(no_args@) =~= Seq::<Seq<char>>::empty());
        }
        match self.analyze_function(main_name, no_args, SimplifiedStatement::Block(tops)) {
            Ok(()) => {},
            Err(e) => {
                return Err(e);
            },
        }
        Ok(())
    }
}

/// Scope analysis of a whole program, from a fresh container.
#[verifier::loop_isolation(false)]
pub fn top_analyze_variables(program: Vec<SimplifiedTopStatement>) -> (r: Result<
    AnalysisResults<Statement>,
    CompileError,
>)
    ensures
        (match r {
            Ok(a) => analyze_top_spec(analysis_empty_spec(), stops_view(program@)) == Ok::<
                AnalysisView<StatementView>,
                CompileError,
            >(aview(a)),
            Err(e) => analyze_top_spec(analysis_empty_spec(), stops_view(program@)) == Err::<
                AnalysisView<StatementView>,
                CompileError,
            >(e),
        }),
{
    let mut results = AnalysisResults::new();
    proof {
        assert(aview(results) =~~= analysis_empty_spec());
    }
    match results.analyze_top(program) {
        Ok(()) => Ok(results),
        Err(e) => Err(e),
    }
}


/// The scope-shadowing law: in any store where `name` is bound to some
/// outer index, a declaration of the same name inside a freshly entered
/// block resolves reads to the fresh index, the two indices differ, and
/// once the block exits reads resolve to the outer index again.
pub proof fn lemma_scope_shadowing(s: VariableStoreView, name: Seq<char>, outer: u32)
    requires
        store_get(s.stores, name) == Some(outer),
        outer < s.index,
        s.index < u32::MAX,
    ensures
        store_get(store_declare(store_enter(s), name).stores, name) == Some(s.index),
        store_get(store_exit(store_declare(store_enter(s), name)).stores, name) == Some(outer),
        s.index != outer,
{
    let entered = store_enter(s);
    let declared = store_declare(entered, name);
    assert(declared.stores.last() =~= Seq::empty().push((name, s.index)));
    assert(scope_get(declared.stores.last(), name) == Some(s.index));
    assert(store_exit(declared).stores =~= s.stores);
}


/// A well-formed name table: the entry at each position holds that
/// position as its index, so distinct names always map to distinct
/// indices.
pub open spec fn scope_dense_indices(fm: ScopeView) -> bool {
    forall|j: int| 0 <= j < fm.len() ==> (#[trigger] fm[j]).1 == j
}

/// No two entries of a name table share a name.
pub open spec fn scope_names_unique(fm: ScopeView) -> bool {
    forall|j: int, k: int|
        0 <= j < k < fm.len() ==> (#[trigger] fm[j]).0 != (#[trigger] fm[k]).0
}

/// No entry of a name table holds a reserved polyfill name.
pub open spec fn scope_reserved_free(fm: ScopeView) -> bool {
    forall|j: int| 0 <= j < fm.len() ==> !is_reserved_name((#[trigger] fm[j]).0)
}

/// A name resolves to nothing exactly when no entry holds it.
pub proof fn lemma_scope_get_absent(fm: ScopeView, name: Seq<char>)
    ensures
        (scope_get(fm, name) is None) <==> (forall|j: int|
            0 <= j < fm.len() ==> (#[trigger] fm[j]).0 != name),
    decreases fm,
{
    if fm.len() > 0 {
        lemma_scope_get_absent(fm.drop_last(), name);
        assert(fm.last() == fm[fm.len() - 1]);
        assert forall|j: int| 0 <= j < fm.len() - 1 implies fm.drop_last()[j] == fm[j] by {}
    }
}

/// Binding a fresh name leaves every other name's resolution unchanged.
pub proof fn lemma_scope_get_push_other(fm: ScopeView, x: (Seq<char>, u32), n: Seq<char>)
    requires
        n != x.0,
    ensures
        scope_get(fm.push(x), n) == scope_get(fm, n),
{
    assert(fm.push(x).drop_last() =~= fm);
}

/// Index allocation preserves the name table's well-formedness: the new
/// entry takes the next position as its index, under a name no earlier
/// entry holds.
pub proof fn lemma_alloc_index_wf(fm: ScopeView, name: Seq<char>)
    requires
        scope_dense_indices(fm),
        scope_names_unique(fm),
    ensures
        (match alloc_index_spec(fm, name) {
            Ok(f1) => scope_dense_indices(f1) && scope_names_unique(f1) && (
            scope_reserved_free(fm) && !is_reserved_name(name) ==> scope_reserved_free(f1)),
            Err(_) => true,
        }),
{
    if alloc_index_spec(fm, name) is Ok {
        lemma_scope_get_absent(fm, name);
        let f1 = fm.push((name, fm.len() as u32));
        assert forall|j: int, k: int| 0 <= j < k < f1.len() implies (#[trigger] f1[j]).0 != (
        #[trigger] f1[k]).0 by {
            if k == f1.len() - 1 {
                assert(f1[j] == fm[j]);
            }
        }
    }
}

/// The allocation pass preserves the name table's well-formedness and
/// never adds a reserved name.
pub proof fn lemma_alloc_pass_wf(fm: ScopeView, prog: Seq<SimplifiedTopStatementView>)
    requires
        scope_dense_indices(fm),
        scope_names_unique(fm),
        scope_reserved_free(fm),
    ensures
        (match alloc_pass_spec(fm, prog) {
            Ok(f1) => scope_dense_indices(f1) && scope_names_unique(f1) && scope_reserved_free(
                f1,
            ),
            Err(_) => true,
        }),
    decreases prog,
{
    if prog.len() > 0 {
        lemma_alloc_pass_wf(fm, prog.drop_last());
        if alloc_pass_spec(fm, prog.drop_last()) is Ok {
            let f1 = alloc_pass_spec(fm, prog.drop_last()).unwrap();
            match prog.last() {
                SimplifiedTopStatementView::Statement(_) => {},
                SimplifiedTopStatementView::DeclarationStatement { name, args: _, content: _ } => {
                    if !is_reserved_name(name) {
                        lemma_alloc_index_wf(f1, name);
                    }
                },
            }
        }
    }
}

/// The analysis pass never touches the name table.
pub proof fn lemma_analyze_pass_keeps_table(
    a: AnalysisView<StatementView>,
    prog: Seq<SimplifiedTopStatementView>,
)
    ensures
        (match analyze_pass_spec(a, prog) {
            Ok((a1, _)) => a1.funcname_map == a.funcname_map,
            Err(_) => true,
        }),
    decreases prog,
{
    if prog.len() > 0 {
        lemma_analyze_pass_keeps_table(a, prog.drop_last());
    }
}

/// The scope resolver hands every later stage a well-formed name table:
/// each entry's index is its position, no name repeats, and no reserved
/// polyfill name occurs.
pub proof fn lemma_analyze_top_table_wf(
    a: AnalysisView<StatementView>,
    prog: Seq<SimplifiedTopStatementView>,
)
    requires
        scope_dense_indices(a.funcname_map),
        scope_names_unique(a.funcname_map),
        scope_reserved_free(a.funcname_map),
    ensures
        (match analyze_top_spec(a, prog) {
            Ok(r) => scope_dense_indices(r.funcname_map) && scope_names_unique(r.funcname_map)
                && scope_reserved_free(r.funcname_map),
            Err(_) => true,
        }),
{
    lemma_alloc_pass_wf(a.funcname_map, prog);
    if analyze_top_spec(a, prog) is Ok {
        let fm1 = alloc_pass_spec(a.funcname_map, prog).unwrap();
        let a1 = AnalysisView {
            global_variables: a.global_variables,
            funcname_map: fm1,
            functions: a.functions,
        };
        lemma_analyze_pass_keeps_table(a1, prog);
        let (a2, tops) = analyze_pass_spec(a1, prog).unwrap();
        lemma_alloc_index_wf(a2.funcname_map, "#main"@);
        assert(!is_reserved_name("#main"@)) by {
            reveal_strlit("#main");
            reveal_strlit("#pow");
            reveal_strlit("#logic_or");
            reveal_strlit("#cordic_lut");
            reveal_strlit("#ln_cordic");
            reveal_strlit("#exp_cordic");
            assert("#main"@.len() == 5);
            assert("#pow"@.len() == 4);
            assert("#logic_or"@.len() == 9);
            assert("#cordic_lut"@.len() == 11);
            assert("#ln_cordic"@.len() == 10);
            assert("#exp_cordic"@.len() == 11);
        }
        let fm2 = alloc_index_spec(a2.funcname_map, "#main"@).unwrap();
        let a3 = AnalysisView {
            global_variables: a2.global_variables,
            funcname_map: fm2,
            functions: a2.functions,
        };
        assert(analyze_function_spec(
            a3,
            "#main"@,
            Seq::empty(),
            SimplifiedStatementView::Block(tops),
        ) is Ok ==> analyze_function_spec(
            a3,
            "#main"@,
            Seq::empty(),
            SimplifiedStatementView::Block(tops),
        ).unwrap().funcname_map == fm2);
    }
}

} // verus!
