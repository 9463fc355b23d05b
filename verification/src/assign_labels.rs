//! Branch labeling: every symbolic loop becomes an outer `Block` around
//! an inner `Loop` whose body ends with an unconditional branch to depth
//! zero — the back edge the target only takes on an explicit self
//! branch.  Inside a loop body, `Continue` branches to depth zero (the
//! loop) and `Break` to depth one (the wrapping block); descending into
//! any other nesting construct raises both depths by one level.
use crate::collapse_expressions::{
    Instruction as UnlabeledInstruction, InstructionView as UnlabeledInstructionView,
    uinstr_view, uinstrs_view, ufnstable_view, uview, lemma_uinstrs_view_len,
    lemma_uinstrs_view_index,
};
use crate::error::CompileError;
use crate::polyfill_ops::BinaryOp;
use crate::variable_analysis::{
    AnalysisResults, AnalysisView, Function, FunctionView, UnaryOp, scope_view,
};
use vstd::prelude::*;

verus! {

broadcast use {
    crate::seq_util::group_seq_facts,
    lemma_uinstrs_view_len,
    lemma_uinstrs_view_index,
};

/// A branch-resolved instruction: `Branch(depth)` is the only control
/// transfer, depth zero denoting the innermost enclosing labeled
/// construct.
#[derive(Debug, PartialEq)]
pub enum Instruction {
    Loop(Vec<Instruction>),
    Block(Vec<Instruction>),
    If { then_block: Vec<Instruction>, otherwise: Vec<Instruction> },
    Branch(u32),
    Const(String),
    LocalGet(u32),
    LocalSet(u32),
    GlobalGet(u32),
    GlobalSet(u32),
    Call(u32),
    Return,
    Drop,
    UnOp(UnaryOp),
    BinOp(BinaryOp),
}

/// The mathematical mirror of [`Instruction`].
pub enum InstructionView {
    Loop(Seq<InstructionView>),
    Block(Seq<InstructionView>),
    If { then_block: Seq<InstructionView>, otherwise: Seq<InstructionView> },
    Branch(u32),
    Const(Seq<char>),
    LocalGet(u32),
    LocalSet(u32),
    GlobalGet(u32),
    GlobalSet(u32),
    Call(u32),
    Return,
    Drop,
    UnOp(UnaryOp),
    BinOp(BinaryOp),
}

/// The mirror of one labeled instruction.
pub open spec fn linstr_view(i: Instruction) -> InstructionView
    decreases i,
{
    match i {
        Instruction::Loop(body) => InstructionView::Loop(linstrs_view(body@)),
        Instruction::Block(body) => InstructionView::Block(linstrs_view(body@)),
        Instruction::If { then_block, otherwise } => InstructionView::If {
            then_block: linstrs_view(then_block@),
            otherwise: linstrs_view(otherwise@),
        },
        Instruction::Branch(d) => InstructionView::Branch(d),
        Instruction::Const(t) => InstructionView::Const(t@),
        Instruction::LocalGet(i) => InstructionView::LocalGet(i),
        Instruction::LocalSet(i) => InstructionView::LocalSet(i),
        Instruction::GlobalGet(i) => InstructionView::GlobalGet(i),
        Instruction::GlobalSet(i) => InstructionView::GlobalSet(i),
        Instruction::Call(i) => InstructionView::Call(i),
        Instruction::Return => InstructionView::Return,
        Instruction::Drop => InstructionView::Drop,
        Instruction::UnOp(op) => InstructionView::UnOp(op),
        Instruction::BinOp(op) => InstructionView::BinOp(op),
    }
}

/// The mirror of a sequence of labeled instructions.
pub open spec fn linstrs_view(is: Seq<Instruction>) -> Seq<InstructionView>
    decreases is,
{
    if is.len() == 0 {
        Seq::empty()
    } else {
        linstrs_view(is.drop_last()).push(linstr_view(is.last()))
    }
}

/// Element-wise facts about [`linstrs_view`].
pub broadcast proof fn lemma_linstrs_view_len(is: Seq<Instruction>)
    ensures
        (#[trigger] linstrs_view(is)).len() == is.len(),
    decreases is.len(),
{
    if is.len() > 0 {
        lemma_linstrs_view_len(is.drop_last());
    }
}

/// [`linstrs_view`] read at one index.
pub broadcast proof fn lemma_linstrs_view_index(is: Seq<Instruction>, i: int)
    requires
        0 <= i < is.len(),
    ensures
        #[trigger] linstrs_view(is)[i] == linstr_view(is[i]),
    decreases is.len(),
{
    lemma_linstrs_view_len(is.drop_last());
    if i < is.len() - 1 {
        lemma_linstrs_view_index(is.drop_last(), i);
    }
}

/// [`linstrs_view`] of a pushed sequence.
pub broadcast proof fn lemma_linstrs_view_push(is: Seq<Instruction>, x: Instruction)
    ensures
        #[trigger] linstrs_view(is.push(x)) == linstrs_view(is).push(linstr_view(x)),
{
}

/// One instruction labeled under the break depth of its position: a loop
/// restarts its depths at zero inside a fresh block/loop pair and gains
/// its explicit back edge; `Break` and `Continue` resolve to their
/// depths; an if arm is a transparent container that deepens both by
/// one.  A nesting beyond the depth counter's range is fatal.
pub open spec fn add_labels_spec(i: UnlabeledInstructionView, break_label: u32) -> Result<
    InstructionView,
    CompileError,
>
    decreases i,
{
    match i {
        UnlabeledInstructionView::Loop(body) => match add_labels_seq_spec(body, 0) {
            Err(err) => Err(err),
            Ok(b) => Ok(
                InstructionView::Block(
                    seq![InstructionView::Loop(b.push(InstructionView::Branch(0)))],
                ),
            ),
        },
        UnlabeledInstructionView::If { then_block, otherwise } => {
            if break_label == u32::MAX {
                Err(CompileError::InternalInvariantViolation)
            } else {
                match add_labels_seq_spec(then_block, (break_label + 1) as u32) {
                    Err(err) => Err(err),
                    Ok(tb) => match add_labels_seq_spec(otherwise, (break_label + 1) as u32) {
                        Err(err) => Err(err),
                        Ok(ob) => Ok(InstructionView::If { then_block: tb, otherwise: ob }),
                    },
                }
            }
        },
        UnlabeledInstructionView::Break => if break_label == u32::MAX {
            Err(CompileError::InternalInvariantViolation)
        } else {
            Ok(InstructionView::Branch((break_label + 1) as u32))
        },
        UnlabeledInstructionView::Continue => Ok(InstructionView::Branch(break_label)),
        UnlabeledInstructionView::Const(t) => Ok(InstructionView::Const(t)),
        UnlabeledInstructionView::LocalGet(i) => Ok(InstructionView::LocalGet(i)),
        UnlabeledInstructionView::LocalSet(i) => Ok(InstructionView::LocalSet(i)),
        UnlabeledInstructionView::GlobalGet(i) => Ok(InstructionView::GlobalGet(i)),
        UnlabeledInstructionView::GlobalSet(i) => Ok(InstructionView::GlobalSet(i)),
        UnlabeledInstructionView::Call(i) => Ok(InstructionView::Call(i)),
        UnlabeledInstructionView::Return => Ok(InstructionView::Return),
        UnlabeledInstructionView::Drop => Ok(InstructionView::Drop),
        UnlabeledInstructionView::UnOp(op) => Ok(InstructionView::UnOp(op)),
        UnlabeledInstructionView::BinOp(op) => Ok(InstructionView::BinOp(op)),
    }
}

/// A sequence of instructions labeled under one break depth.
pub open spec fn add_labels_seq_spec(is: Seq<UnlabeledInstructionView>, break_label: u32) -> Result<
    Seq<InstructionView>,
    CompileError,
>
    decreases is,
{
    if is.len() == 0 {
        Ok(Seq::empty())
    } else {
        match add_labels_seq_spec(is.drop_last(), break_label) {
            Err(err) => Err(err),
            Ok(front) => match add_labels_spec(is.last(), break_label) {
                Err(err) => Err(err),
                Ok(x) => Ok(front.push(x)),
            },
        }
    }
}

/// A failed prefix fails the whole sequence.
proof fn lemma_add_labels_seq_err(
    is: Seq<UnlabeledInstructionView>,
    break_label: u32,
    i: int,
    e: CompileError,
)
    requires
        0 <= i <= is.len(),
        add_labels_seq_spec(is.take(i), break_label) == Err::<Seq<InstructionView>, CompileError>(
            e,
        ),
    ensures
        add_labels_seq_spec(is, break_label) == Err::<Seq<InstructionView>, CompileError>(e),
    decreases is.len() - i,
{
    if i < is.len() {
        lemma_add_labels_seq_err(is, break_label, i + 1, e);
    } else {
        assert(is.take(i) =~= is);
    }
}

/// Resolves the symbolic branches of one instruction.
#[verifier::loop_isolation(false)]
#[verifier::rlimit(30)]
fn add_labels_instr(instr: &UnlabeledInstruction, break_label: u32) -> (r: Result<
    Instruction,
    CompileError,
>)
    ensures
        (match r {
            Ok(t) => add_labels_spec(uinstr_view(*instr), break_label) == Ok::<
                InstructionView,
                CompileError,
            >(linstr_view(t)),
            Err(err) => add_labels_spec(uinstr_view(*instr), break_label) == Err::<
                InstructionView,
                CompileError,
            >(err),
        }),
    decreases *instr,
{
    broadcast use {lemma_linstrs_view_len, lemma_linstrs_view_index, lemma_linstrs_view_push};

    match instr {
        UnlabeledInstruction::Loop(body) => {
            let mut b = match add_labels_vec(body, 0) {
                Ok(v) => v,
                Err(err) => return Err(err),
            };
            let ghost bv = linstrs_view(b@);
            b.push(Instruction::Branch(0));
            let ghost b2 = b@;
            proof {
                assert(linstr_view(Instruction::Branch(0)) == InstructionView::Branch(0));
                assert(linstrs_view(b2) == bv.push(InstructionView::Branch(0)));
            }
            let mut outer: Vec<Instruction> = Vec::new();
            outer.push(Instruction::Loop(b));
            proof {
                assert(outer@[0] is Loop);
                assert(outer@[0]->Loop_0@ == b2);
                assert(linstrs_view(Seq::<Instruction>::empty()) =~= Seq::empty());
                assert(linstrs_view(outer@) =~= seq![
                    InstructionView::Loop(bv.push(InstructionView::Branch(0))),
                ]);
            }
            Ok(Instruction::Block(outer))
        },
        UnlabeledInstruction::If { then_block, otherwise } => {
            if break_label == u32::MAX {
                return Err(CompileError::InternalInvariantViolation);
            }
            let tb = match add_labels_vec(then_block, break_label + 1) {
                Ok(v) => v,
                Err(err) => return Err(err),
            };
            let ob = match add_labels_vec(otherwise, break_label + 1) {
                Ok(v) => v,
                Err(err) => return Err(err),
            };
            Ok(Instruction::If { then_block: tb, otherwise: ob })
        },
        UnlabeledInstruction::Break => {
            if break_label == u32::MAX {
                return Err(CompileError::InternalInvariantViolation);
            }
            Ok(Instruction::Branch(break_label + 1))
        },
        UnlabeledInstruction::Continue => Ok(Instruction::Branch(break_label)),
        UnlabeledInstruction::Const(t) => Ok(Instruction::Const(t.clone())),
        UnlabeledInstruction::LocalGet(i) => Ok(Instruction::LocalGet(*i)),
        UnlabeledInstruction::LocalSet(i) => Ok(Instruction::LocalSet(*i)),
        UnlabeledInstruction::GlobalGet(i) => Ok(Instruction::GlobalGet(*i)),
        UnlabeledInstruction::GlobalSet(i) => Ok(Instruction::GlobalSet(*i)),
        UnlabeledInstruction::Call(i) => Ok(Instruction::Call(*i)),
        UnlabeledInstruction::Return => Ok(Instruction::Return),
        UnlabeledInstruction::Drop => Ok(Instruction::Drop),
        UnlabeledInstruction::UnOp(op) => Ok(Instruction::UnOp(*op)),
        UnlabeledInstruction::BinOp(op) => Ok(Instruction::BinOp(*op)),
    }
}

/// Resolves the symbolic branches of a vector of instructions, in order.
#[verifier::loop_isolation(false)]
fn add_labels_vec(is: &Vec<UnlabeledInstruction>, break_label: u32) -> (r: Result<
    Vec<Instruction>,
    CompileError,
>)
    ensures
        (match r {
            Ok(ts) => add_labels_seq_spec(uinstrs_view(is@), break_label) == Ok::<
                Seq<InstructionView>,
                CompileError,
            >(linstrs_view(ts@)),
            Err(err) => add_labels_seq_spec(uinstrs_view(is@), break_label) == Err::<
                Seq<InstructionView>,
                CompileError,
            >(err),
        }),
    decreases *is,
{
    broadcast use {lemma_linstrs_view_len, lemma_linstrs_view_index, lemma_linstrs_view_push};

    let ghost iv = uinstrs_view(is@);
    let mut out: Vec<Instruction> = Vec::new();
    let mut i: usize = 0;
    proof {
        assert(iv.take(0) =~= Seq::empty());
        assert(linstrs_view(out@) =~= Seq::empty());
    }
    while i < is.len()
        invariant
            i <= is@.len(),
            add_labels_seq_spec(iv.take(i as int), break_label) == Ok::<
                Seq<InstructionView>,
                CompileError,
            >(linstrs_view(out@)),
        decreases is@.len() - i,
    {
        let x = match add_labels_instr(&is[i], break_label) {
            Ok(t) => t,
            Err(err) => {
                proof {
                    lemma_add_labels_seq_err(iv, break_label, i as int + 1, err);
                }
                return Err(err);
            },
        };
        out.push(x);
        i = i + 1;
    }
    proof {
        assert(iv.take(is@.len() as int) =~= iv);
    }
    Ok(out)
}

/// The mirror of a labeled function table.
pub open spec fn lfnstable_view(fs: Seq<Option<Function<Instruction>>>) -> Seq<
    Option<FunctionView<InstructionView>>,
> {
    Seq::new(
        fs.len(),
        |i: int| match fs[i] {
            Some(f) => Some(
                FunctionView {
                    arguments: f.arguments,
                    local_count: f.local_count,
                    body: linstrs_view(f.body@),
                },
            ),
            None => None,
        },
    )
}

/// The mirror of a labeled analysis container.
pub open spec fn lview(a: AnalysisResults<Instruction>) -> AnalysisView<InstructionView> {
    AnalysisView {
        global_variables: a.global_variables@,
        funcname_map: scope_view(a.funcname_map@),
        functions: lfnstable_view(a.functions@),
    }
}

/// The labeling of a whole analysis container: every function body
/// labeled from depth zero.
pub open spec fn assign_labels_spec(a: AnalysisView<UnlabeledInstructionView>) -> Result<
    AnalysisView<InstructionView>,
    CompileError,
>
    decreases a.functions.len(),
{
    match assign_labels_table_spec(a.functions) {
        Err(err) => Err(err),
        Ok(fs) => Ok(
            AnalysisView {
                global_variables: a.global_variables,
                funcname_map: a.funcname_map,
                functions: fs,
            },
        ),
    }
}

/// The labeling of a function table, slot by slot.
pub open spec fn assign_labels_table_spec(
    fs: Seq<Option<FunctionView<UnlabeledInstructionView>>>,
) -> Result<Seq<Option<FunctionView<InstructionView>>>, CompileError>
    decreases fs,
{
    if fs.len() == 0 {
        Ok(Seq::empty())
    } else {
        match assign_labels_table_spec(fs.drop_last()) {
            Err(err) => Err(err),
            Ok(front) => match fs.last() {
                None => Ok(front.push(None)),
                Some(f) => match add_labels_seq_spec(f.body, 0) {
                    Err(err) => Err(err),
                    Ok(body) => Ok(
                        front.push(
                            Some(
                                FunctionView {
                                    arguments: f.arguments,
                                    local_count: f.local_count,
                                    body,
                                },
                            ),
                        ),
                    ),
                },
            },
        }
    }
}

/// A failed prefix fails the whole table.
proof fn lemma_assign_labels_table_err(
    fs: Seq<Option<FunctionView<UnlabeledInstructionView>>>,
    i: int,
    e: CompileError,
)
    requires
        0 <= i <= fs.len(),
        assign_labels_table_spec(fs.take(i)) == Err::<
            Seq<Option<FunctionView<InstructionView>>>,
            CompileError,
        >(e),
    ensures
        assign_labels_table_spec(fs) == Err::<
            Seq<Option<FunctionView<InstructionView>>>,
            CompileError,
        >(e),
    decreases fs.len() - i,
{
    if i < fs.len() {
        lemma_assign_labels_table_err(fs, i + 1, e);
    } else {
        assert(fs.take(i) =~= fs);
    }
}

impl AnalysisResults<Instruction> {
    /// Labels every function body of a flattened program.
    #[verifier::loop_isolation(false)]
    pub fn from_unlabaled_analysis(analysis: AnalysisResults<UnlabeledInstruction>) -> (r: Result<
        Self,
        CompileError,
    >)
        ensures
            (match r {
                Ok(a) => assign_labels_spec(uview(analysis)) == Ok::<
                    AnalysisView<InstructionView>,
                    CompileError,
                >(lview(a)),
                Err(err) => assign_labels_spec(uview(analysis)) == Err::<
                    AnalysisView<InstructionView>,
                    CompileError,
                >(err),
            }),
    {
        let ghost orig = ufnstable_view(analysis.functions@);
        let AnalysisResults { global_variables, funcname_map, functions } = analysis;
        let mut functions = functions;
        let mut out: Vec<Option<Function<Instruction>>> = Vec::new();
        let ghost mut i: int = 0;
        proof {
            assert(orig.take(0) =~= Seq::<Option<FunctionView<UnlabeledInstructionView>>>::empty());
            assert(lfnstable_view(out@) =~= Seq::<Option<FunctionView<InstructionView>>>::empty());
        }
        while functions.len() > 0
            invariant
                0 <= i <= orig.len(),
                ufnstable_view(functions@) =~= orig.skip(i),
                functions@.len() == orig.len() - i,
                assign_labels_table_spec(orig.take(i)) == Ok::<
                    Seq<Option<FunctionView<InstructionView>>>,
                    CompileError,
                >(lfnstable_view(out@)),
            decreases functions@.len(),
        {
            proof {
                assert(orig[i] == ufnstable_view(functions@)[0]);
            }
            let ghost pf = functions@;
            let item = functions.remove(0);
            let ghost prev_out = out@;
            let labeled: Option<Function<Instruction>> = match item {
                Some(f) => {
                    let Function { arguments, local_count, body } = f;
                    let new_body = match add_labels_vec(&body, 0) {
                        Ok(v) => v,
                        Err(err) => {
                            proof {
                                lemma_assign_labels_table_err(orig, i + 1, err);
                            }
                            return Err(err);
                        },
                    };
                    Some(Function { arguments, local_count, body: new_body })
                },
                None => None,
            };
            out.push(labeled);
            proof {
                assert(lfnstable_view(out@) =~= lfnstable_view(prev_out).push(
                    match labeled {
                        Some(f) => Some(
                            FunctionView {
                                arguments: f.arguments,
                                local_count: f.local_count,
                                body: linstrs_view(f.body@),
                            },
                        ),
                        None => None,
                    },
                ));
                assert(ufnstable_view(functions@) =~= orig.skip(i + 1)) by {
                    assert(functions@ =~= pf.drop_first());
                    assert forall|j: int| 0 <= j < functions@.len() implies ufnstable_view(
                        functions@,
                    )[j] == orig.skip(i + 1)[j] by {
                        assert(functions@[j] == pf[j + 1]);
                        assert(ufnstable_view(pf)[j + 1] == orig.skip(i)[j + 1]);
                    }
                }
                i = i + 1;
            }
        }
        proof {
            assert(orig.take(orig.len() as int) =~= orig);
        }
        let r = AnalysisResults { global_variables, funcname_map, functions: out };
        proof {
            assert(lview(r) =~~= assign_labels_spec(
                AnalysisView {
                    global_variables: r.global_variables@,
                    funcname_map: scope_view(r.funcname_map@),
                    functions: orig,
                },
            ).unwrap());
        }
        Ok(r)
    }
}

/// The labeling stage as a free function.
pub fn assign_labels(program: AnalysisResults<UnlabeledInstruction>) -> (r: Result<
    AnalysisResults<Instruction>,
    CompileError,
>)
    ensures
        (match r {
            Ok(a) => assign_labels_spec(uview(program)) == Ok::<
                AnalysisView<InstructionView>,
                CompileError,
            >(lview(a)),
            Err(err) => assign_labels_spec(uview(program)) == Err::<
                AnalysisView<InstructionView>,
                CompileError,
            >(err),
        }),
{
    AnalysisResults::from_unlabaled_analysis(program)
}

/// The loop-lowering law: the labeled form of a loop is exactly one
/// block holding exactly one loop, the loop body's final instruction is
/// an unconditional branch to depth zero, a `Continue` in a loop body at
/// if-nesting depth `d` becomes a branch to depth `d`, and a `Break`
/// there becomes a branch to depth `d + 1`.
pub proof fn lemma_loop_lowering_shape(body: Seq<UnlabeledInstructionView>, d: u32)
    requires
        add_labels_spec(UnlabeledInstructionView::Loop(body), d) is Ok,
    ensures
        ({
            let labeled = add_labels_spec(UnlabeledInstructionView::Loop(body), d).unwrap();
            &&& labeled is Block
            &&& labeled->Block_0.len() == 1
            &&& labeled->Block_0[0] is Loop
            &&& labeled->Block_0[0]->Loop_0.last() == InstructionView::Branch(0)
        }),
        d < u32::MAX ==> add_labels_spec(UnlabeledInstructionView::Break, d) == Ok::<
            InstructionView,
            CompileError,
        >(InstructionView::Branch((d + 1) as u32)),
        add_labels_spec(UnlabeledInstructionView::Continue, d) == Ok::<
            InstructionView,
            CompileError,
        >(InstructionView::Branch(d)),
{
}

/// Descending into an if arm raises the break depth by exactly one: the
/// arms of an if are labeled under depth `d + 1` when the if stands at
/// depth `d`.
pub proof fn lemma_if_arm_depth(
    then_block: Seq<UnlabeledInstructionView>,
    otherwise: Seq<UnlabeledInstructionView>,
    d: u32,
)
    requires
        d < u32::MAX,
    ensures
        add_labels_spec(UnlabeledInstructionView::If { then_block, otherwise }, d) == (match (
            add_labels_seq_spec(then_block, (d + 1) as u32),
            add_labels_seq_spec(otherwise, (d + 1) as u32),
        ) {
            (Ok(tb), Ok(ob)) => Ok::<InstructionView, CompileError>(
                InstructionView::If { then_block: tb, otherwise: ob },
            ),
            (Err(e), _) => Err(e),
            (_, Err(e)) => Err(e),
        }),
{
}

} // verus!
