//! Final emission: the labeled instruction tree becomes the textual
//! module — one function type per function (arity-many float parameters,
//! one float result), the functions with their float locals and bodies,
//! a defensive trailing zero-and-return after every body, the mutable
//! float globals initialized to zero, and one export entry per
//! user-declared function and per global binding.
use crate::assign_labels::{
    Instruction, InstructionView, linstr_view, linstrs_view, lfnstable_view, lview,
    lemma_linstrs_view_len, lemma_linstrs_view_index,
};
use crate::error::CompileError;
use crate::polyfill_ops::BinaryOp;
use crate::variable_analysis::{
    AnalysisResults, AnalysisView, Function, FunctionView, ScopeView, UnaryOp, scope_view,
    store_flat,
};
use vstd::prelude::*;
use vstd::string::StringExecFns;

verus! {

broadcast use {
    crate::seq_util::group_seq_facts,
    lemma_linstrs_view_len,
    lemma_linstrs_view_index,
};

/// The text of one decimal digit.
pub open spec fn digit_str(d: nat) -> Seq<char> {
    if d == 0 {
        "0"@
    } else if d == 1 {
        "1"@
    } else if d == 2 {
        "2"@
    } else if d == 3 {
        "3"@
    } else if d == 4 {
        "4"@
    } else if d == 5 {
        "5"@
    } else if d == 6 {
        "6"@
    } else if d == 7 {
        "7"@
    } else if d == 8 {
        "8"@
    } else {
        "9"@
    }
}

/// The decimal text of a number.
pub open spec fn dec_digits(n: nat) -> Seq<char>
    decreases n,
{
    if n < 10 {
        digit_str(n)
    } else {
        dec_digits(n / 10) + digit_str(n % 10)
    }
}

/// `n` spaces.
pub open spec fn spaces(n: nat) -> Seq<char>
    decreases n,
{
    if n == 0 {
        Seq::empty()
    } else {
        spaces((n - 1) as nat) + " "@
    }
}

/// One emitted line: a newline, the current indentation, the text.
pub open spec fn line_spec(indent: int, text: Seq<char>) -> Seq<char> {
    "\n"@ + spaces(if indent >= 0 {
        indent as nat
    } else {
        0
    }) + text
}

/// The opcode of a unary operator with a one-line encoding.
pub open spec fn unop_text(op: UnaryOp) -> Seq<char> {
    match op {
        UnaryOp::NumericNegation => "f64.neg"@,
        UnaryOp::LogicNegation => "i32.eqz"@,
        UnaryOp::BitwiseNegation => "i32.xor"@,
        UnaryOp::IntToFloat => "f64.convert_i32_u"@,
        UnaryOp::FloatToInt => "i32.trunc_f64_u"@,
        UnaryOp::Sqrt => "f64.sqrt"@,
        UnaryOp::Floor => "f64.floor"@,
    }
}

/// The opcode of a binary operator.
pub open spec fn binop_text(op: BinaryOp) -> Seq<char> {
    match op {
        BinaryOp::Addition => "f64.add"@,
        BinaryOp::Substraction => "f64.sub"@,
        BinaryOp::Multiplication => "f64.mul"@,
        BinaryOp::Division => "f64.div"@,
        BinaryOp::IntAddition => "i32.add"@,
        BinaryOp::IntSubstraction => "i32.sub"@,
        BinaryOp::IntMultiplication => "i32.mul"@,
        BinaryOp::IntDivision => "i32.div"@,
        BinaryOp::Modulo => "i32.rem_u"@,
        BinaryOp::Lesser => "f64.lt"@,
        BinaryOp::LessEq => "f64.le"@,
        BinaryOp::Greater => "f64.gt"@,
        BinaryOp::GreaterEq => "f64.ge"@,
        BinaryOp::NotEqual => "f64.ne"@,
        BinaryOp::Equal => "f64.eq"@,
        BinaryOp::BitwiseAnd => "i32.and"@,
        BinaryOp::BitwiseOr => "i32.or"@,
        BinaryOp::LeftShift => "i32.shl"@,
        BinaryOp::RightShift => "i32.shr_u"@,
    }
}

/// The text of one instruction at an indentation: nesting constructs
/// open a line, indent their bodies two further columns, and close with
/// `end`; the bitwise negation is the one two-line encoding.  An
/// indentation past the counter's range is fatal.
pub open spec fn emit_instr_spec(i: InstructionView, indent: int) -> Result<
    Seq<char>,
    CompileError,
>
    decreases i,
{
    match i {
        InstructionView::Loop(body) => if indent > u32::MAX - 2 {
            Err(CompileError::InternalInvariantViolation)
        } else {
            match emit_instrs_spec(body, indent + 2) {
                Err(err) => Err(err),
                Ok(b) => Ok(line_spec(indent, "loop"@) + b + line_spec(indent, "end"@)),
            }
        },
        InstructionView::Block(body) => if indent > u32::MAX - 2 {
            Err(CompileError::InternalInvariantViolation)
        } else {
            match emit_instrs_spec(body, indent + 2) {
                Err(err) => Err(err),
                Ok(b) => Ok(line_spec(indent, "block"@) + b + line_spec(indent, "end"@)),
            }
        },
        InstructionView::If { then_block, otherwise } => if indent > u32::MAX - 2 {
            Err(CompileError::InternalInvariantViolation)
        } else {
            match emit_instrs_spec(then_block, indent + 2) {
                Err(err) => Err(err),
                Ok(tb) => match emit_instrs_spec(otherwise, indent + 2) {
                    Err(err) => Err(err),
                    Ok(ob) => Ok(
                        line_spec(indent, "if"@) + tb + line_spec(indent, "else"@) + ob
                            + line_spec(indent, "end"@),
                    ),
                },
            }
        },
        InstructionView::Branch(d) => Ok(line_spec(indent, "br "@ + dec_digits(d as nat))),
        InstructionView::Const(t) => Ok(line_spec(indent, "f64.const "@ + t)),
        InstructionView::LocalGet(x) => Ok(
            line_spec(indent, "local.get "@ + dec_digits(x as nat)),
        ),
        InstructionView::LocalSet(x) => Ok(
            line_spec(indent, "local.set "@ + dec_digits(x as nat)),
        ),
        InstructionView::GlobalGet(x) => Ok(
            line_spec(indent, "global.get "@ + dec_digits(x as nat)),
        ),
        InstructionView::GlobalSet(x) => Ok(
            line_spec(indent, "global.set "@ + dec_digits(x as nat)),
        ),
        InstructionView::Call(x) => Ok(line_spec(indent, "call "@ + dec_digits(x as nat))),
        InstructionView::Return => Ok(line_spec(indent, "return"@)),
        InstructionView::Drop => Ok(line_spec(indent, "drop"@)),
        InstructionView::UnOp(op) => match op {
            UnaryOp::BitwiseNegation => Ok(
                line_spec(indent, "i32.const 2147483647"@) + line_spec(indent, "i32.xor"@),
            ),
            _ => Ok(line_spec(indent, unop_text(op))),
        },
        InstructionView::BinOp(op) => Ok(line_spec(indent, binop_text(op))),
    }
}

/// The text of an instruction sequence, in order.
pub open spec fn emit_instrs_spec(is: Seq<InstructionView>, indent: int) -> Result<
    Seq<char>,
    CompileError,
>
    decreases is,
{
    if is.len() == 0 {
        Ok(Seq::empty())
    } else {
        match emit_instrs_spec(is.drop_last(), indent) {
            Err(err) => Err(err),
            Ok(front) => match emit_instr_spec(is.last(), indent) {
                Err(err) => Err(err),
                Ok(x) => Ok(front + x),
            },
        }
    }
}

/// `n` float value-type tokens.
pub open spec fn repeat_f64(n: nat) -> Seq<char>
    decreases n,
{
    if n == 0 {
        Seq::empty()
    } else {
        repeat_f64((n - 1) as nat) + " f64"@
    }
}

/// A function's type text: its parameters, when any, then the single
/// float result.
pub open spec fn functype_spec(arguments: u32) -> Seq<char> {
    (if arguments != 0 {
        " (param"@ + repeat_f64(arguments as nat) + ")"@
    } else {
        Seq::empty()
    }) + " (result f64)"@
}

/// A function's declared locals, when any.
pub open spec fn locals_spec(local_count: u32) -> Seq<char> {
    if local_count != 0 {
        "(local"@ + repeat_f64(local_count as nat) + ")"@
    } else {
        Seq::empty()
    }
}

/// The text of one function: header, type, locals, the body two columns
/// deeper, and an unconditional trailing zero-and-return whether or not
/// every path already returned.
pub open spec fn emit_function_spec(f: FunctionView<InstructionView>, type_index: int) -> Result<
    Seq<char>,
    CompileError,
> {
    match emit_instrs_spec(f.body, 4) {
        Err(err) => Err(err),
        Ok(b) => Ok(
            line_spec(2, "(func (type "@ + dec_digits(type_index as nat) + ")"@) + functype_spec(
                f.arguments,
            ) + locals_spec(f.local_count) + b + line_spec(4, "f64.const "@ + "0"@) + line_spec(
                4,
                "return"@,
            ) + line_spec(2, ")"@),
        ),
    }
}

/// The texts of a function list, each at its dense index.
pub open spec fn emit_functions_spec(fs: Seq<FunctionView<InstructionView>>) -> Result<
    Seq<char>,
    CompileError,
>
    decreases fs,
{
    if fs.len() == 0 {
        Ok(Seq::empty())
    } else {
        match emit_functions_spec(fs.drop_last()) {
            Err(err) => Err(err),
            Ok(front) => match emit_function_spec(fs.last(), fs.len() - 1) {
                Err(err) => Err(err),
                Ok(x) => Ok(front + x),
            },
        }
    }
}

/// One type entry per function.
pub open spec fn emit_types_spec(fs: Seq<FunctionView<InstructionView>>) -> Seq<char>
    decreases fs,
{
    if fs.len() == 0 {
        Seq::empty()
    } else {
        emit_types_spec(fs.drop_last()) + line_spec(2, "(type (func"@) + functype_spec(
            fs.last().arguments,
        ) + "))"@
    }
}

/// `count` mutable float globals, each initialized to zero.
pub open spec fn emit_globals_spec(count: nat) -> Seq<char>
    decreases count,
{
    if count == 0 {
        Seq::empty()
    } else {
        emit_globals_spec((count - 1) as nat) + line_spec(
            2,
            "(global (mut f64) (f64.const 0))"@,
        )
    }
}

/// One export entry per global binding, under its source name.
pub open spec fn global_exports_spec(entries: ScopeView) -> Seq<char>
    decreases entries,
{
    if entries.len() == 0 {
        Seq::empty()
    } else {
        global_exports_spec(entries.drop_last()) + line_spec(
            2,
            "(export \""@ + entries.last().0 + "\" (global "@ + dec_digits(
                entries.last().1 as nat,
            ) + "))"@,
        )
    }
}

/// Whether a name-table entry names a synthesized function rather than
/// a user declaration: the synthetic `#main` or a polyfill helper.  The
/// resolver rejects source declarations of every one of these, so the
/// names pick out exactly the synthesized entries.
pub open spec fn is_synthetic_name(n: Seq<char>) -> bool {
    n == "#main"@ || crate::variable_analysis::is_reserved_name(n)
}

/// One export entry per user-declared function, under its original
/// source name; the synthesized functions are not exported.
pub open spec fn func_exports_spec(entries: ScopeView) -> Seq<char>
    decreases entries,
{
    if entries.len() == 0 {
        Seq::empty()
    } else {
        func_exports_spec(entries.drop_last()) + (if is_synthetic_name(entries.last().0) {
            Seq::empty()
        } else {
            line_spec(
                2,
                "(export \""@ + entries.last().0 + "\" (func "@ + dec_digits(
                    entries.last().1 as nat,
                ) + "))"@,
            )
        })
    }
}

/// Whether every slot of the function table is filled.
pub open spec fn fns_dense(fs: Seq<Option<FunctionView<InstructionView>>>) -> bool {
    forall|i: int| 0 <= i < fs.len() ==> fs[i] is Some
}

/// The filled slots of a dense function table, in index order.
pub open spec fn funclist_of(fs: Seq<Option<FunctionView<InstructionView>>>) -> Seq<
    FunctionView<InstructionView>,
> {
    Seq::new(fs.len(), |i: int| fs[i].unwrap())
}

/// The whole module text: types, functions, globals and exports between
/// the opening and closing parentheses.  A gap in the function table is
/// fatal.
pub open spec fn emit_program_spec(a: AnalysisView<InstructionView>) -> Result<
    Seq<char>,
    CompileError,
> {
    if !fns_dense(a.functions) || a.functions.len() > u32::MAX {
        Err(CompileError::InternalInvariantViolation)
    } else {
        let fl = funclist_of(a.functions);
        match emit_functions_spec(fl) {
            Err(err) => Err(err),
            Ok(funcs_text) => Ok(
                line_spec(0, "(module"@) + emit_types_spec(fl) + funcs_text + emit_globals_spec(
                    a.global_variables.index as nat,
                ) + global_exports_spec(store_flat(a.global_variables.stores))
                    + func_exports_spec(a.funcname_map) + line_spec(0, ")"@),
            ),
        }
    }
}

/// The decimal text of a number, built digit by digit.
#[verifier::loop_isolation(false)]
pub fn dec_string(n: u32) -> (r: String)
    ensures
        r@ == dec_digits(n as nat),
    decreases n,
{
    let mut s: String = if n >= 10 {
        dec_string(n / 10)
    } else {
        String::new()
    };
    let d: &str = match n % 10 {
        0 => "0",
        1 => "1",
        2 => "2",
        3 => "3",
        4 => "4",
        5 => "5",
        6 => "6",
        7 => "7",
        8 => "8",
        _ => "9",
    };
    s.append(d);
    s
}

/// The running emitter: the text built so far and the current
/// indentation.
#[derive(Debug)]
pub struct WASMEmitter {
    indent: u32,
    emitted: String,
}

impl WASMEmitter {
    /// The text built so far.
    pub closed spec fn text(&self) -> Seq<char> {
        self.emitted@
    }

    /// The current indentation.
    pub closed spec fn spec_indent(&self) -> u32 {
        self.indent
    }

    /// A fresh emitter: no text, no indentation.
    pub fn new() -> (r: Self)
        ensures
            r.text() == Seq::<char>::empty(),
            r.spec_indent() == 0,
    {
        WASMEmitter { indent: 0, emitted: String::new() }
    }

    /// Appends text to the current line.
    pub fn emit_str(&mut self, s: &str)
        ensures
            final(self).text() == old(self).text() + s@,
            final(self).spec_indent() == old(self).spec_indent(),
    {
        self.emitted.append(s);
    }

    /// Opens a fresh line at the current indentation and writes text on
    /// it.
    #[verifier::loop_isolation(false)]
    pub fn emit_line(&mut self, s: &str)
        ensures
            final(self).text() == old(self).text() + line_spec(
                old(self).spec_indent() as int,
                s@,
            ),
            final(self).spec_indent() == old(self).spec_indent(),
    {
        self.emitted.append("\n");
        let mut k: u32 = 0;
        while k < self.indent
            invariant
                k <= self.indent,
                self.indent == old(self).indent,
                self.emitted@ == old(self).emitted@ + "\n"@ + spaces(k as nat),
            decreases self.indent - k,
        {
            self.emitted.append(" ");
            k = k + 1;
        }
        self.emitted.append(s);
        proof {
            assert(self.emitted@ =~= old(self).emitted@ + line_spec(
                old(self).indent as int,
                s@,
            ));
        }
    }

    /// Emits one instruction at the current indentation.
    #[verifier::loop_isolation(false)]
    #[verifier::rlimit(60)]
    pub fn emit_instruction(&mut self, instr: &Instruction) -> (r: Result<(), CompileError>)
        ensures
            final(self).spec_indent() == old(self).spec_indent(),
            (match r {
                Ok(()) => {
                    &&& emit_instr_spec(linstr_view(*instr), old(self).spec_indent() as int) is Ok
                    &&& final(self).text() == old(self).text() + emit_instr_spec(
                        linstr_view(*instr),
                        old(self).spec_indent() as int,
                    ).unwrap()
                },
                Err(err) => emit_instr_spec(linstr_view(*instr), old(self).spec_indent() as int)
                    == Err::<Seq<char>, CompileError>(err),
            }),
        decreases *instr, 1int,
    {
        match instr {
            Instruction::Loop(body) => {
                if self.indent > u32::MAX - 2 {
                    return Err(CompileError::InternalInvariantViolation);
                }
                self.emit_line("loop");
                self.indent = self.indent + 2;
                match self.emit_body(body) {
                    Ok(()) => {},
                    Err(err) => {
                        self.indent = self.indent - 2;
                        return Err(err);
                    },
                }
                self.indent = self.indent - 2;
                self.emit_line("end");
                Ok(())
            },
            Instruction::Block(body) => {
                if self.indent > u32::MAX - 2 {
                    return Err(CompileError::InternalInvariantViolation);
                }
                self.emit_line("block");
                self.indent = self.indent + 2;
                match self.emit_body(body) {
                    Ok(()) => {},
                    Err(err) => {
                        self.indent = self.indent - 2;
                        return Err(err);
                    },
                }
                self.indent = self.indent - 2;
                self.emit_line("end");
                Ok(())
            },
            Instruction::If { then_block, otherwise } => {
                if self.indent > u32::MAX - 2 {
                    return Err(CompileError::InternalInvariantViolation);
                }
                self.emit_line("if");
                self.indent = self.indent + 2;
                match self.emit_body(then_block) {
                    Ok(()) => {},
                    Err(err) => {
                        self.indent = self.indent - 2;
                        return Err(err);
                    },
                }
                self.indent = self.indent - 2;
                self.emit_line("else");
                self.indent = self.indent + 2;
                match self.emit_body(otherwise) {
                    Ok(()) => {},
                    Err(err) => {
                        self.indent = self.indent - 2;
                        return Err(err);
                    },
                }
                self.indent = self.indent - 2;
                self.emit_line("end");
                Ok(())
            },
            Instruction::Branch(d) => {
                let mut s: String = "br ".to_owned();
                s.append(dec_string(*d).as_str());
                self.emit_line(s.as_str());
                Ok(())
            },
            Instruction::Const(t) => {
                let mut s: String = "f64.const ".to_owned();
                s.append(t.as_str());
                self.emit_line(s.as_str());
                Ok(())
            },
            Instruction::LocalGet(x) => {
                let mut s: String = "local.get ".to_owned();
                s.append(dec_string(*x).as_str());
                self.emit_line(s.as_str());
                Ok(())
            },
            Instruction::LocalSet(x) => {
                let mut s: String = "local.set ".to_owned();
                s.append(dec_string(*x).as_str());
                self.emit_line(s.as_str());
                Ok(())
            },
            Instruction::GlobalGet(x) => {
                let mut s: String = "global.get ".to_owned();
                s.append(dec_string(*x).as_str());
                self.emit_line(s.as_str());
                Ok(())
            },
            Instruction::GlobalSet(x) => {
                let mut s: String = "global.set ".to_owned();
                s.append(dec_string(*x).as_str());
                self.emit_line(s.as_str());
                Ok(())
            },
            Instruction::Call(x) => {
                let mut s: String = "call ".to_owned();
                s.append(dec_string(*x).as_str());
                self.emit_line(s.as_str());
                Ok(())
            },
            Instruction::Return => {
                self.emit_line("return");
                Ok(())
            },
            Instruction::Drop => {
                self.emit_line("drop");
                Ok(())
            },
            Instruction::UnOp(op) => {
                match op {
                    UnaryOp::NumericNegation => self.emit_line("f64.neg"),
                    UnaryOp::LogicNegation => self.emit_line("i32.eqz"),
                    UnaryOp::BitwiseNegation => {
                        self.emit_line("i32.const 2147483647");
                        self.emit_line("i32.xor");
                    },
                    UnaryOp::IntToFloat => self.emit_line("f64.convert_i32_u"),
                    UnaryOp::FloatToInt => self.emit_line("i32.trunc_f64_u"),
                    UnaryOp::Sqrt => self.emit_line("f64.sqrt"),
                    UnaryOp::Floor => self.emit_line("f64.floor"),
                }
                Ok(())
            },
            Instruction::BinOp(op) => {
                match op {
                    BinaryOp::Addition => self.emit_line("f64.add"),
                    BinaryOp::Substraction => self.emit_line("f64.sub"),
                    BinaryOp::Multiplication => self.emit_line("f64.mul"),
                    BinaryOp::Division => self.emit_line("f64.div"),
                    BinaryOp::IntAddition => self.emit_line("i32.add"),
                    BinaryOp::IntSubstraction => self.emit_line("i32.sub"),
                    BinaryOp::IntMultiplication => self.emit_line("i32.mul"),
                    BinaryOp::IntDivision => self.emit_line("i32.div"),
                    BinaryOp::Modulo => self.emit_line("i32.rem_u"),
                    BinaryOp::Lesser => self.emit_line("f64.lt"),
                    BinaryOp::LessEq => self.emit_line("f64.le"),
                    BinaryOp::Greater => self.emit_line("f64.gt"),
                    BinaryOp::GreaterEq => self.emit_line("f64.ge"),
                    BinaryOp::NotEqual => self.emit_line("f64.ne"),
                    BinaryOp::Equal => self.emit_line("f64.eq"),
                    BinaryOp::BitwiseAnd => self.emit_line("i32.and"),
                    BinaryOp::BitwiseOr => self.emit_line("i32.or"),
                    BinaryOp::LeftShift => self.emit_line("i32.shl"),
                    BinaryOp::RightShift => self.emit_line("i32.shr_u"),
                }
                Ok(())
            },
        }
    }

    /// Emits a nesting construct's body, each instruction in order.
    #[verifier::loop_isolation(false)]
    fn emit_body(&mut self, body: &Vec<Instruction>) -> (r: Result<(), CompileError>)
        ensures
            final(self).spec_indent() == old(self).spec_indent(),
            (match r {
                Ok(()) => {
                    &&& emit_instrs_spec(linstrs_view(body@), old(self).spec_indent() as int)
                        is Ok
                    &&& final(self).text() == old(self).text() + emit_instrs_spec(
                        linstrs_view(body@),
                        old(self).spec_indent() as int,
                    ).unwrap()
                },
                Err(err) => emit_instrs_spec(linstrs_view(body@), old(self).spec_indent() as int)
                    == Err::<Seq<char>, CompileError>(err),
            }),
        decreases *body, 0int,
    {
        let ghost iv = linstrs_view(body@);
        let ghost ind = self.indent as int;
        let mut i: usize = 0;
        proof {
            assert(iv.take(0) =~= Seq::empty());
        }
        while i < body.len()
            invariant
                i <= body@.len(),
                self.spec_indent() == old(self).spec_indent(),
                emit_instrs_spec(iv.take(i as int), ind) is Ok,
                self.text() == old(self).text() + emit_instrs_spec(
                    iv.take(i as int),
                    ind,
                ).unwrap(),
            decreases body@.len() - i,
        {
            match self.emit_instruction(&body[i]) {
                Ok(()) => {},
                Err(err) => {
                    proof {
                        lemma_emit_instrs_err(iv, ind, i as int + 1, err);
                    }
                    return Err(err);
                },
            }
            i = i + 1;
        }
        proof {
            assert(iv.take(body@.len() as int) =~= iv);
        }
        Ok(())
    }
}

/// A failed prefix fails the whole sequence.
proof fn lemma_emit_instrs_err(is: Seq<InstructionView>, indent: int, i: int, e: CompileError)
    requires
        0 <= i <= is.len(),
        emit_instrs_spec(is.take(i), indent) == Err::<Seq<char>, CompileError>(e),
    ensures
        emit_instrs_spec(is, indent) == Err::<Seq<char>, CompileError>(e),
    decreases is.len() - i,
{
    if i < is.len() {
        lemma_emit_instrs_err(is, indent, i + 1, e);
    } else {
        assert(is.take(i) =~= is);
    }
}


impl WASMEmitter {
    /// Appends a function's type text to the current line.
    #[verifier::loop_isolation(false)]
    pub fn emit_func_type(&mut self, func: &Function<Instruction>)
        ensures
            final(self).text() == old(self).text() + functype_spec(func.arguments),
            final(self).spec_indent() == old(self).spec_indent(),
    {
        if func.arguments != 0 {
            self.emit_str(" (param");
            let mut k: u32 = 0;
            while k < func.arguments
                invariant
                    k <= func.arguments,
                    self.spec_indent() == old(self).spec_indent(),
                    self.text() == old(self).text() + " (param"@ + repeat_f64(k as nat),
                decreases func.arguments - k,
            {
                self.emit_str(" f64");
                k = k + 1;
            }
            self.emit_str(")");
        }
        self.emit_str(" (result f64)");
    }

    /// Appends a function's declared locals to the current line.
    #[verifier::loop_isolation(false)]
    pub fn emit_locals(&mut self, func: &Function<Instruction>)
        ensures
            final(self).text() == old(self).text() + locals_spec(func.local_count),
            final(self).spec_indent() == old(self).spec_indent(),
    {
        if func.local_count != 0 {
            self.emit_str("(local");
            let mut k: u32 = 0;
            while k < func.local_count
                invariant
                    k <= func.local_count,
                    self.spec_indent() == old(self).spec_indent(),
                    self.text() == old(self).text() + "(local"@ + repeat_f64(k as nat),
                decreases func.local_count - k,
            {
                self.emit_str(" f64");
                k = k + 1;
            }
            self.emit_str(")");
        }
    }

    /// Emits one function: header, type, locals, the body two columns
    /// deeper, and the defensive trailing zero and return.
    #[verifier::loop_isolation(false)]
    pub fn emit_function(&mut self, func: &Function<Instruction>, type_index: u32) -> (r: Result<
        (),
        CompileError,
    >)
        requires
            old(self).spec_indent() == 2,
        ensures
            final(self).spec_indent() == 2,
            (match r {
                Ok(()) => {
                    &&& emit_function_spec(lfunc_view(*func), type_index as int) is Ok
                    &&& final(self).text() == old(self).text() + emit_function_spec(
                        lfunc_view(*func),
                        type_index as int,
                    ).unwrap()
                },
                Err(err) => emit_function_spec(lfunc_view(*func), type_index as int) == Err::<
                    Seq<char>,
                    CompileError,
                >(err),
            }),
    {
        let mut s: String = "(func (type ".to_owned();
        s.append(dec_string(type_index).as_str());
        s.append(")");
        self.emit_line(s.as_str());
        self.emit_func_type(func);
        self.emit_locals(func);
        self.indent = self.indent + 2;
        match self.emit_body(&func.body) {
            Ok(()) => {},
            Err(err) => {
                self.indent = self.indent - 2;
                return Err(err);
            },
        }
        let zero = Instruction::Const("0".to_owned());
        match self.emit_instruction(&zero) {
            Ok(()) => {},
            Err(err) => {
                proof {
                    assert(false);
                }
                self.indent = self.indent - 2;
                return Err(err);
            },
        }
        match self.emit_instruction(&Instruction::Return) {
            Ok(()) => {},
            Err(err) => {
                proof {
                    assert(false);
                }
                self.indent = self.indent - 2;
                return Err(err);
            },
        }
        self.indent = self.indent - 2;
        self.emit_line(")");
        Ok(())
    }

    /// Emits one type entry per function.
    #[verifier::loop_isolation(false)]
    pub fn emit_types(&mut self, funclist: &Vec<Function<Instruction>>)
        requires
            old(self).spec_indent() == 2,
        ensures
            final(self).spec_indent() == 2,
            final(self).text() == old(self).text() + emit_types_spec(lfunclist_view(funclist@)),
    {
        let ghost fl = lfunclist_view(funclist@);
        let mut i: usize = 0;
        proof {
            assert(fl.take(0) =~= Seq::empty());
        }
        while i < funclist.len()
            invariant
                i <= funclist@.len(),
                self.spec_indent() == 2,
                self.text() == old(self).text() + emit_types_spec(fl.take(i as int)),
            decreases funclist@.len() - i,
        {
            self.emit_line("(type (func");
            self.emit_func_type(&funclist[i]);
            self.emit_str("))");
            proof {
                assert(self.text() =~= old(self).text() + emit_types_spec(
                    fl.take(i as int + 1),
                ));
            }
            i = i + 1;
        }
        proof {
            assert(fl.take(funclist@.len() as int) =~= fl);
        }
    }

    /// Emits every function at its dense index.
    #[verifier::loop_isolation(false)]
    pub fn emit_functions(&mut self, funclist: &Vec<Function<Instruction>>) -> (r: Result<
        (),
        CompileError,
    >)
        requires
            old(self).spec_indent() == 2,
            funclist@.len() <= u32::MAX,
        ensures
            final(self).spec_indent() == 2,
            (match r {
                Ok(()) => {
                    &&& emit_functions_spec(lfunclist_view(funclist@)) is Ok
                    &&& final(self).text() == old(self).text() + emit_functions_spec(
                        lfunclist_view(funclist@),
                    ).unwrap()
                },
                Err(err) => emit_functions_spec(lfunclist_view(funclist@)) == Err::<
                    Seq<char>,
                    CompileError,
                >(err),
            }),
    {
        let ghost fl = lfunclist_view(funclist@);
        let mut index: u32 = 0;
        let mut i: usize = 0;
        proof {
            assert(fl.take(0) =~= Seq::empty());
        }
        while i < funclist.len()
            invariant
                i <= funclist@.len(),
                index == i,
                self.spec_indent() == 2,
                emit_functions_spec(fl.take(i as int)) is Ok,
                self.text() == old(self).text() + emit_functions_spec(
                    fl.take(i as int),
                ).unwrap(),
            decreases funclist@.len() - i,
        {
            match self.emit_function(&funclist[i], index) {
                Ok(()) => {},
                Err(err) => {
                    proof {
                        lemma_emit_functions_err(fl, i as int + 1, err);
                    }
                    return Err(err);
                },
            }
            index = index + 1;
            i = i + 1;
        }
        proof {
            assert(fl.take(funclist@.len() as int) =~= fl);
        }
        Ok(())
    }

    /// Emits `count` mutable float globals, each initialized to zero.
    #[verifier::loop_isolation(false)]
    pub fn emit_globals(&mut self, count: u32)
        requires
            old(self).spec_indent() == 2,
        ensures
            final(self).spec_indent() == 2,
            final(self).text() == old(self).text() + emit_globals_spec(count as nat),
    {
        let mut k: u32 = 0;
        while k < count
            invariant
                k <= count,
                self.spec_indent() == 2,
                self.text() == old(self).text() + emit_globals_spec(k as nat),
            decreases count - k,
        {
            self.emit_line("(global (mut f64) (f64.const 0))");
            k = k + 1;
        }
    }

    /// Emits one export entry per global binding.
    #[verifier::loop_isolation(false)]
    pub fn emit_global_exports(&mut self, globals: Vec<(String, u32)>)
        requires
            old(self).spec_indent() == 2,
        ensures
            final(self).spec_indent() == 2,
            final(self).text() == old(self).text() + global_exports_spec(scope_view(globals@)),
    {
        let ghost gv = scope_view(globals@);
        let mut i: usize = 0;
        proof {
            assert(gv.take(0) =~= Seq::empty());
        }
        while i < globals.len()
            invariant
                i <= globals@.len(),
                self.spec_indent() == 2,
                self.text() == old(self).text() + global_exports_spec(gv.take(i as int)),
            decreases globals@.len() - i,
        {
            let mut s: String = "(export \"".to_owned();
            s.append(globals[i].0.as_str());
            s.append("\" (global ");
            s.append(dec_string(globals[i].1).as_str());
            s.append("))");
            self.emit_line(s.as_str());
            proof {
                assert(self.text() =~= old(self).text() + global_exports_spec(
                    gv.take(i as int + 1),
                ));
            }
            i = i + 1;
        }
        proof {
            assert(gv.take(globals@.len() as int) =~= gv);
        }
    }

    /// Emits one export entry per name-table entry.
    #[verifier::loop_isolation(false)]
    pub fn emit_func_exports(&mut self, funcnames: &Vec<(String, u32)>)
        requires
            old(self).spec_indent() == 2,
        ensures
            final(self).spec_indent() == 2,
            final(self).text() == old(self).text() + func_exports_spec(scope_view(funcnames@)),
    {
        let ghost fv = scope_view(funcnames@);
        let mut i: usize = 0;
        proof {
            assert(fv.take(0) =~= Seq::empty());
        }
        while i < funcnames.len()
            invariant
                i <= funcnames@.len(),
                self.spec_indent() == 2,
                self.text() == old(self).text() + func_exports_spec(fv.take(i as int)),
            decreases funcnames@.len() - i,
        {
            let main_name: String = "#main".to_owned();
            if !(funcnames[i].0 == main_name
                || crate::variable_analysis::is_reserved_name_exec(&funcnames[i].0)) {
                let mut s: String = "(export \"".to_owned();
                s.append(funcnames[i].0.as_str());
                s.append("\" (func ");
                s.append(dec_string(funcnames[i].1).as_str());
                s.append("))");
                self.emit_line(s.as_str());
            }
            proof {
                assert(self.text() =~= old(self).text() + func_exports_spec(
                    fv.take(i as int + 1),
                ));
            }
            i = i + 1;
        }
        proof {
            assert(fv.take(funcnames@.len() as int) =~= fv);
        }
    }

    /// Emits the whole module: types, functions, globals and exports.
    #[verifier::loop_isolation(false)]
    #[verifier::spinoff_prover]
    #[verifier::rlimit(100)]
    pub fn emit_program(program: AnalysisResults<Instruction>) -> (r: Result<
        String,
        CompileError,
    >)
        ensures
            (match r {
                Ok(s) => emit_program_spec(lview(program)) == Ok::<Seq<char>, CompileError>(s@),
                Err(err) => emit_program_spec(lview(program)) == Err::<Seq<char>, CompileError>(
                    err,
                ),
            }),
    {
        let ghost a = lview(program);
        let AnalysisResults { global_variables, funcname_map, functions } = program;
        let mut functions = functions;
        let mut funclist: Vec<Function<Instruction>> = Vec::new();
        let ghost mut i: int = 0;
        proof {
            assert(lfnstable_view(functions@) =~= a.functions.skip(0));
        }
        while functions.len() > 0
            invariant
                0 <= i <= a.functions.len(),
                lfnstable_view(functions@) =~= a.functions.skip(i),
                functions@.len() == a.functions.len() - i,
                funclist@.len() == i,
                forall|j: int| 0 <= j < i ==> a.functions[j] is Some,
                lfunclist_view(funclist@) =~= funclist_of(a.functions.take(i)),
            decreases functions@.len(),
        {
            proof {
                assert(a.functions[i] == lfnstable_view(functions@)[0]);
            }
            let ghost pf = functions@;
            let ghost prev = funclist@;
            let item = functions.remove(0);
            let f = match item {
                Some(f) => f,
                None => {
                    return Err(CompileError::InternalInvariantViolation);
                },
            };
            funclist.push(f);
            proof {
                assert(a.functions[i] == Some(lfunc_view(f)));
                assert(lfnstable_view(functions@) =~= a.functions.skip(i + 1)) by {
                    assert(functions@ =~= pf.drop_first());
                    assert forall|j: int| 0 <= j < functions@.len() implies lfnstable_view(
                        functions@,
                    )[j] == a.functions.skip(i + 1)[j] by {
                        assert(functions@[j] == pf[j + 1]);
                        assert(lfnstable_view(pf)[j + 1] == a.functions.skip(i)[j + 1]);
                    }
                }
                assert forall|j: int| 0 <= j < i + 1 implies lfunclist_view(funclist@)[j]
                    == funclist_of(a.functions.take(i + 1))[j] by {
                    if j < i {
                        assert(lfunclist_view(funclist@)[j] == lfunclist_view(prev)[j]);
                        assert(lfunclist_view(prev)[j] == funclist_of(a.functions.take(i))[j]);
                    } else {
                        assert(funclist@[j] == f);
                    }
                }
                assert(lfunclist_view(funclist@) =~= funclist_of(a.functions.take(i + 1)));
                i = i + 1;
            }
        }
        proof {
            assert(a.functions.take(a.functions.len() as int) =~= a.functions);
            assert(fns_dense(a.functions));
        }
        if funclist.len() > u32::MAX as usize {
            return Err(CompileError::InternalInvariantViolation);
        }
        let mut emitter = WASMEmitter::new();
        emitter.emit_line("(module");
        emitter.indent = emitter.indent + 2;
        match emitter.emit_functions_prelude(&funclist, global_variables, &funcname_map) {
            Ok(s) => Ok(s),
            Err(err) => Err(err),
        }
    }

    /// The module text after the opening line: types, functions,
    /// globals, exports and the closing parenthesis.
    #[verifier::loop_isolation(false)]
    fn emit_functions_prelude(
        &mut self,
        funclist: &Vec<Function<Instruction>>,
        global_variables: crate::variable_analysis::VariableStore,
        funcname_map: &Vec<(String, u32)>,
    ) -> (r: Result<String, CompileError>)
        requires
            old(self).spec_indent() == 2,
            funclist@.len() <= u32::MAX,
        ensures
            (match r {
                Ok(s) => {
                    &&& emit_functions_spec(lfunclist_view(funclist@)) is Ok
                    &&& s@ == old(self).text() + emit_types_spec(lfunclist_view(funclist@))
                        + emit_functions_spec(lfunclist_view(funclist@)).unwrap()
                        + emit_globals_spec(global_variables@.index as nat)
                        + global_exports_spec(store_flat(global_variables@.stores))
                        + func_exports_spec(scope_view(funcname_map@)) + line_spec(0, ")"@)
                },
                Err(err) => emit_functions_spec(lfunclist_view(funclist@)) == Err::<
                    Seq<char>,
                    CompileError,
                >(err),
            }),
    {
        self.emit_types(funclist);
        match self.emit_functions(funclist) {
            Ok(()) => {},
            Err(err) => return Err(err),
        }
        self.emit_globals(global_variables.count());
        let globals = global_variables.list_variables();
        self.emit_global_exports(globals);
        self.emit_func_exports(funcname_map);
        self.indent = self.indent - 2;
        self.emit_line(")");
        let WASMEmitter { indent: _, emitted } = self;
        Ok(emitted.clone())
    }
}

/// The mirror of one labeled function.
pub open spec fn lfunc_view(f: Function<Instruction>) -> FunctionView<InstructionView> {
    FunctionView {
        arguments: f.arguments,
        local_count: f.local_count,
        body: linstrs_view(f.body@),
    }
}

/// The mirror of a labeled function list.
pub open spec fn lfunclist_view(fs: Seq<Function<Instruction>>) -> Seq<
    FunctionView<InstructionView>,
> {
    Seq::new(fs.len(), |i: int| lfunc_view(fs[i]))
}

/// A failed prefix fails the whole function list.
proof fn lemma_emit_functions_err(fs: Seq<FunctionView<InstructionView>>, i: int, e: CompileError)
    requires
        0 <= i <= fs.len(),
        emit_functions_spec(fs.take(i)) == Err::<Seq<char>, CompileError>(e),
    ensures
        emit_functions_spec(fs) == Err::<Seq<char>, CompileError>(e),
    decreases fs.len() - i,
{
    if i < fs.len() {
        lemma_emit_functions_err(fs, i + 1, e);
    } else {
        assert(fs.take(i) =~= fs);
    }
}

/// The emission stage as a free function.
pub fn emit_wasm(program: AnalysisResults<Instruction>) -> (r: Result<String, CompileError>)
    ensures
        (match r {
            Ok(s) => emit_program_spec(lview(program)) == Ok::<Seq<char>, CompileError>(s@),
            Err(err) => emit_program_spec(lview(program)) == Err::<Seq<char>, CompileError>(err),
        }),
{
    WASMEmitter::emit_program(program)
}

} // verus!
