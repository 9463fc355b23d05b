use jsonlang_wasm::assign_labels::{Instruction as LabeledInstruction, assign_labels};
use jsonlang_wasm::codegen::emit_wasm;
use jsonlang_wasm::collapse_expressions::{Instruction as FlatInstruction, collapse_expressions};
use jsonlang_wasm::compile;
use jsonlang_wasm::control_simplification::top_simplify_control_structures;
use jsonlang_wasm::error::CompileError;
use jsonlang_wasm::fixup_types::fix_types;
use jsonlang_wasm::jsonlang::{
    BinaryOp, DeclarationStatement, Expression, JsonLang, Statement, TopStatement,
};
use jsonlang_wasm::polyfill_ops::{
    BinaryOp as TargetBinaryOp, Expression as TargetExpression, Statement as TargetStatement,
    polyfill_ops,
};
use jsonlang_wasm::variable_analysis::{
    AnalysisResults, Function, UnaryOp as ResolvedUnaryOp, VariableStore, top_analyze_variables,
};

fn lit(t: &str) -> Expression {
    Expression::NumericLiteral(t.to_string())
}

fn var(n: &str) -> Expression {
    Expression::VariableAccess(n.to_string())
}

fn pipeline_to_labeled(program: JsonLang) -> AnalysisResults<LabeledInstruction> {
    let simplified = top_simplify_control_structures(program).unwrap();
    let analyzed = top_analyze_variables(simplified).unwrap();
    let fixed = fix_types(analyzed);
    let filled = polyfill_ops(fixed).unwrap();
    let flat = collapse_expressions(filled);
    assign_labels(flat).unwrap()
}

#[test]
fn break_in_while_branches_out_two_levels() {
    // while (1) { break }: the break stands inside the loop's if arm, so
    // its branch must leave the if, the inner loop and the wrapping block
    let program = JsonLang {
        statements: vec![TopStatement::Statement(Statement::While {
            condition: Box::new(lit("1")),
            do_block: Box::new(Statement::Other("break".to_string())),
        })],
    };
    let labeled = pipeline_to_labeled(program);
    let main = labeled.functions[0].as_ref().unwrap();
    // Loop => Block[Loop[cond..., If{...}, Branch(0)]]
    let outer = match &main.body[0] {
        LabeledInstruction::Block(outer) => outer,
        other => panic!("expected wrapping block, got {:?}", other),
    };
    assert_eq!(outer.len(), 1);
    let loop_body = match &outer[0] {
        LabeledInstruction::Loop(body) => body,
        other => panic!("expected inner loop, got {:?}", other),
    };
    // the loop body ends with the materialized back edge
    assert_eq!(loop_body.last().unwrap(), &LabeledInstruction::Branch(0));
    // the if's then arm holds the break, resolved two levels out past the arm
    let (then_block, otherwise) = loop_body
        .iter()
        .find_map(|i| match i {
            LabeledInstruction::If { then_block, otherwise } => Some((then_block, otherwise)),
            _ => None,
        })
        .expect("expected an if inside the loop");
    assert_eq!(then_block[0], LabeledInstruction::Branch(2));
    // the while's exit arm is a break too
    assert_eq!(otherwise[0], LabeledInstruction::Branch(2));
}

#[test]
fn loop_lowering_wraps_block_around_loop_with_back_edge() {
    let mut results: AnalysisResults<FlatInstruction> = AnalysisResults {
        global_variables: VariableStore::new(),
        funcname_map: vec![("#main".to_string(), 0)],
        functions: vec![Some(Function {
            arguments: 0,
            local_count: 0,
            body: vec![FlatInstruction::Loop(vec![FlatInstruction::Break])],
        })],
    };
    let labeled = AnalysisResults::from_unlabaled_analysis(std::mem::replace(
        &mut results,
        AnalysisResults {
            global_variables: VariableStore::new(),
            funcname_map: vec![],
            functions: vec![],
        },
    ))
    .unwrap();
    let main = labeled.functions[0].as_ref().unwrap();
    assert_eq!(
        main.body,
        vec![LabeledInstruction::Block(vec![LabeledInstruction::Loop(vec![
            LabeledInstruction::Branch(1),
            LabeledInstruction::Branch(0),
        ])])]
    );
}

#[test]
fn logical_or_lowers_to_synthesized_helper() {
    // return 0 or 1: the or becomes a call to #logic_or, whose body
    // returns its second argument when the first is zero as an integer
    let program = JsonLang {
        statements: vec![TopStatement::Statement(Statement::Return {
            return_value: Box::new(Expression::BinaryOp {
                lhs: Box::new(lit("0")),
                op: BinaryOp::LogicalOr,
                rhs: Box::new(lit("1")),
            }),
        })],
    };
    let simplified = top_simplify_control_structures(program).unwrap();
    let analyzed = top_analyze_variables(simplified).unwrap();
    let fixed = fix_types(analyzed);
    let filled = polyfill_ops(fixed).unwrap();
    assert!(filled.funcname_map.contains(&("#logic_or".to_string(), 1)));
    let helper = filled.functions[1].as_ref().unwrap();
    assert_eq!(helper.arguments, 2);
    assert_eq!(helper.local_count, 0);
    match &helper.body[0] {
        TargetStatement::If { cond, then_block, otherwise } => {
            assert_eq!(
                *cond,
                TargetExpression::UnaryOp {
                    op: ResolvedUnaryOp::FloatToInt,
                    arg: Box::new(TargetExpression::LocalGet(0)),
                }
            );
            // int(a) != 0 returns a; else — here, with a = 0 — b
            assert_eq!(then_block[0], TargetStatement::Return(TargetExpression::LocalGet(0)));
            assert_eq!(otherwise[0], TargetStatement::Return(TargetExpression::LocalGet(1)));
        },
        other => panic!("expected the helper's if, got {:?}", other),
    }
    // the use site calls the helper with both operands already evaluated
    let main = filled.functions[0].as_ref().unwrap();
    match &main.body[0] {
        TargetStatement::Return(TargetExpression::FunctionCall(1, args)) => {
            assert_eq!(args.len(), 2);
        },
        other => panic!("expected a call of the helper, got {:?}", other),
    }
}

#[test]
fn logical_and_multiplies_by_zero_test() {
    let program = JsonLang {
        statements: vec![TopStatement::Statement(Statement::Return {
            return_value: Box::new(Expression::BinaryOp {
                lhs: Box::new(lit("2")),
                op: BinaryOp::LogicalAnd,
                rhs: Box::new(lit("3")),
            }),
        })],
    };
    let simplified = top_simplify_control_structures(program).unwrap();
    let analyzed = top_analyze_variables(simplified).unwrap();
    let fixed = fix_types(analyzed);
    let filled = polyfill_ops(fixed).unwrap();
    // no helper function is synthesized for `and`
    assert!(filled.funcname_map.iter().all(|(n, _)| n != "#logic_or" && n != "#pow"));
    let main = filled.functions[0].as_ref().unwrap();
    let shown = format!("{:?}", main.body[0]);
    assert!(shown.contains("Multiplication"), "{}", shown);
    assert!(shown.contains("NotEqual"), "{}", shown);
}

#[test]
fn exponentiation_splices_the_math_library() {
    // 2 ^ 3 inside #main: #pow is reserved right after the user functions
    // and the library lands at the three indices after it
    let program = JsonLang {
        statements: vec![TopStatement::Statement(Statement::Return {
            return_value: Box::new(Expression::BinaryOp {
                lhs: Box::new(lit("2")),
                op: BinaryOp::Exponentiation,
                rhs: Box::new(lit("3")),
            }),
        })],
    };
    let simplified = top_simplify_control_structures(program).unwrap();
    let analyzed = top_analyze_variables(simplified).unwrap();
    let fixed = fix_types(analyzed);
    let filled = polyfill_ops(fixed).unwrap();
    // #main is 0; the polyfills follow in order
    assert!(filled.funcname_map.contains(&("#pow".to_string(), 1)));
    assert!(filled.funcname_map.contains(&("#cordic_lut".to_string(), 2)));
    assert!(filled.funcname_map.contains(&("#ln_cordic".to_string(), 3)));
    assert!(filled.funcname_map.contains(&("#exp_cordic".to_string(), 4)));
    assert_eq!(filled.functions.len(), 5);
    for slot in &filled.functions {
        assert!(slot.is_some());
    }
    // #pow's body invokes the helpers at exactly base+2 and base+3
    let pow = filled.functions[1].as_ref().unwrap();
    assert_eq!(pow.arguments, 2);
    let shown = format!("{:?}", pow.body);
    assert!(shown.contains("FunctionCall(3"), "{}", shown);
    assert!(shown.contains("FunctionCall(4"), "{}", shown);
    // the spliced library is self-contained: no global access anywhere
    for slot in &filled.functions[1..] {
        let text = format!("{:?}", slot.as_ref().unwrap().body);
        assert!(!text.contains("Global"), "{}", text);
    }
}

#[test]
fn statement_call_discards_its_result() {
    let program = JsonLang {
        statements: vec![
            TopStatement::DeclarationStatement(DeclarationStatement {
                function: "f".to_string(),
                args: vec![],
                block: Statement::Return { return_value: Box::new(lit("1")) },
            }),
            TopStatement::Statement(Statement::Call { name: "f".to_string(), args: vec![] }),
        ],
    };
    let simplified = top_simplify_control_structures(program).unwrap();
    let analyzed = top_analyze_variables(simplified).unwrap();
    let fixed = fix_types(analyzed);
    let filled = polyfill_ops(fixed).unwrap();
    let flat = collapse_expressions(filled);
    let main = flat.functions[1].as_ref().unwrap();
    assert_eq!(main.body, vec![FlatInstruction::Call(0), FlatInstruction::Drop]);
}

#[test]
fn postfix_order_puts_operands_before_operator() {
    let program = JsonLang {
        statements: vec![TopStatement::Statement(Statement::Return {
            return_value: Box::new(Expression::BinaryOp {
                lhs: Box::new(lit("1")),
                op: BinaryOp::Addition,
                rhs: Box::new(lit("2")),
            }),
        })],
    };
    let simplified = top_simplify_control_structures(program).unwrap();
    let analyzed = top_analyze_variables(simplified).unwrap();
    let fixed = fix_types(analyzed);
    let filled = polyfill_ops(fixed).unwrap();
    let flat = collapse_expressions(filled);
    let main = flat.functions[0].as_ref().unwrap();
    assert_eq!(
        main.body,
        vec![
            FlatInstruction::Const("1".to_string()),
            FlatInstruction::Const("2".to_string()),
            FlatInstruction::BinOp(TargetBinaryOp::Addition),
            FlatInstruction::Return,
        ]
    );
}

#[test]
fn emitter_writes_the_exact_module_text() {
    let program: AnalysisResults<LabeledInstruction> = AnalysisResults {
        global_variables: VariableStore::new(),
        funcname_map: vec![("#main".to_string(), 0)],
        functions: vec![Some(Function {
            arguments: 0,
            local_count: 0,
            body: vec![
                LabeledInstruction::Const("7".to_string()),
                LabeledInstruction::Return,
            ],
        })],
    };
    let text = emit_wasm(program).unwrap();
    assert_eq!(
        text,
        "\n(module\
         \n  (type (func (result f64)))\
         \n  (func (type 0) (result f64)\
         \n    f64.const 7\
         \n    return\
         \n    f64.const 0\
         \n    return\
         \n  )\
         \n)"
    );
}

#[test]
fn emitter_rejects_a_gap_in_the_function_table() {
    let program: AnalysisResults<LabeledInstruction> = AnalysisResults {
        global_variables: VariableStore::new(),
        funcname_map: vec![("#main".to_string(), 1)],
        functions: vec![None, Some(Function { arguments: 0, local_count: 0, body: vec![] })],
    };
    assert_eq!(emit_wasm(program).unwrap_err(), CompileError::InternalInvariantViolation);
}

#[test]
fn bounded_loop_compiles_to_guarded_counting_loop() {
    // for v from 1 to 5 { set s = s + v } with the default step
    let program = JsonLang {
        statements: vec![
            TopStatement::Statement(Statement::Assign {
                set: "s".to_string(),
                value: Box::new(lit("0")),
            }),
            TopStatement::Statement(Statement::BoundedLoop {
                iterator: "v".to_string(),
                from: Box::new(lit("1")),
                to: Box::new(lit("5")),
                step: None,
                do_block: Box::new(Statement::Assign {
                    set: "s".to_string(),
                    value: Box::new(Expression::BinaryOp {
                        lhs: Box::new(var("s")),
                        op: BinaryOp::Addition,
                        rhs: Box::new(var("v")),
                    }),
                }),
            }),
        ],
    };
    let text = compile(program).unwrap();
    // the counting machinery of the lowered loop is all present
    assert!(text.contains("f64.const 1"), "{}", text);
    assert!(text.contains("f64.const 5"), "{}", text);
    assert!(text.contains("f64.gt"), "{}", text);
    assert!(text.contains("f64.add"), "{}", text);
    assert!(text.contains("block"), "{}", text);
    assert!(text.contains("loop"), "{}", text);
    // the guard's break leaves the if arm, the loop and the block
    assert!(text.contains("br 2"), "{}", text);
    // the global s is emitted and exported under its source name
    assert!(text.contains("(global (mut f64) (f64.const 0))"), "{}", text);
    assert!(text.contains("(export \"s\" (global 0))"), "{}", text);
}

#[test]
fn whole_pipeline_emits_a_module() {
    let program = JsonLang {
        statements: vec![
            TopStatement::DeclarationStatement(DeclarationStatement {
                function: "double".to_string(),
                args: vec!["x".to_string()],
                block: Statement::Return {
                    return_value: Box::new(Expression::BinaryOp {
                        lhs: Box::new(var("x")),
                        op: BinaryOp::Multiplication,
                        rhs: Box::new(lit("2")),
                    }),
                },
            }),
            TopStatement::Statement(Statement::Call {
                name: "double".to_string(),
                args: vec![lit("21")],
            }),
        ],
    };
    let text = compile(program).unwrap();
    assert!(text.starts_with("\n(module"), "{}", text);
    assert!(text.ends_with("\n)"), "{}", text);
    assert!(text.contains("(export \"double\" (func 0))"), "{}", text);
    // the synthetic #main is not a user declaration and is not exported
    assert!(!text.contains("#main"), "{}", text);
    assert!(text.contains("call 0"), "{}", text);
    assert!(text.contains("drop"), "{}", text);
}

#[test]
fn modulo_has_no_lowering() {
    let program = JsonLang {
        statements: vec![TopStatement::Statement(Statement::Return {
            return_value: Box::new(Expression::BinaryOp {
                lhs: Box::new(lit("7")),
                op: BinaryOp::Modulo,
                rhs: Box::new(lit("3")),
            }),
        })],
    };
    assert_eq!(compile(program).unwrap_err(), CompileError::InternalInvariantViolation);
}


fn collect_call_targets(instrs: &[LabeledInstruction], out: &mut Vec<u32>) {
    for i in instrs {
        match i {
            LabeledInstruction::Loop(body) => collect_call_targets(body, out),
            LabeledInstruction::Block(body) => collect_call_targets(body, out),
            LabeledInstruction::If { then_block, otherwise } => {
                collect_call_targets(then_block, out);
                collect_call_targets(otherwise, out);
            },
            LabeledInstruction::Call(t) => out.push(*t),
            _ => {},
        }
    }
}

#[test]
fn every_call_target_has_an_emitted_function() {
    // the exponentiation program yields the largest table: #main, #pow
    // and the three spliced library functions
    let program = JsonLang {
        statements: vec![TopStatement::Statement(Statement::Assign {
            set: "e".to_string(),
            value: Box::new(lit("3")),
        }), TopStatement::Statement(Statement::Return {
            return_value: Box::new(Expression::BinaryOp {
                lhs: Box::new(lit("2")),
                op: BinaryOp::Exponentiation,
                rhs: Box::new(var("e")),
            }),
        })],
    };
    let labeled = pipeline_to_labeled(program);
    let mut targets: Vec<u32> = Vec::new();
    for slot in &labeled.functions {
        // the table is dense: each slot is emitted as a function and type
        let f = slot.as_ref().expect("a table gap would fail emission");
        collect_call_targets(&f.body, &mut targets);
    }
    assert!(!targets.is_empty());
    for t in targets {
        assert!((t as usize) < labeled.functions.len());
        assert!(labeled.functions[t as usize].is_some());
    }
    // and the module emits without the gap error
    assert!(emit_wasm(labeled).is_ok());
}


#[test]
fn or_after_exponentiation_keeps_its_own_helper() {
    // (0 or 1) ^ 2: the exponentiation reserves the whole splice block
    // before the or allocates #logic_or, so the lookup table can never
    // land on the or helper's index
    let program = JsonLang {
        statements: vec![TopStatement::Statement(Statement::Return {
            return_value: Box::new(Expression::BinaryOp {
                lhs: Box::new(Expression::BinaryOp {
                    lhs: Box::new(lit("0")),
                    op: BinaryOp::LogicalOr,
                    rhs: Box::new(lit("1")),
                }),
                op: BinaryOp::Exponentiation,
                rhs: Box::new(lit("2")),
            }),
        })],
    };
    let simplified = top_simplify_control_structures(program).unwrap();
    let analyzed = top_analyze_variables(simplified).unwrap();
    let fixed = fix_types(analyzed);
    let filled = polyfill_ops(fixed).unwrap();
    // #main 0, then the reserved block, then #logic_or past it
    assert!(filled.funcname_map.contains(&("#pow".to_string(), 1)));
    assert!(filled.funcname_map.contains(&("#cordic_lut".to_string(), 2)));
    assert!(filled.funcname_map.contains(&("#ln_cordic".to_string(), 3)));
    assert!(filled.funcname_map.contains(&("#exp_cordic".to_string(), 4)));
    assert!(filled.funcname_map.contains(&("#logic_or".to_string(), 5)));
    // distinct names map to distinct indices
    for (j, (_, a)) in filled.funcname_map.iter().enumerate() {
        for (_, b) in filled.funcname_map.iter().skip(j + 1) {
            assert_ne!(a, b);
        }
    }
    // the or call targets the intact #logic_or helper, not the table
    let main = filled.functions[0].as_ref().unwrap();
    let shown = format!("{:?}", main.body[0]);
    assert!(shown.contains("FunctionCall(5"), "{}", shown);
    let helper = filled.functions[5].as_ref().unwrap();
    assert_eq!(helper.arguments, 2);
    match &helper.body[0] {
        TargetStatement::If { cond: _, then_block, otherwise } => {
            assert_eq!(then_block[0], TargetStatement::Return(TargetExpression::LocalGet(0)));
            assert_eq!(otherwise[0], TargetStatement::Return(TargetExpression::LocalGet(1)));
        },
        other => panic!("expected the or helper's if, got {:?}", other),
    }
}

#[test]
fn reserved_polyfill_names_cannot_be_declared() {
    for name in ["#pow", "#logic_or", "#cordic_lut", "#ln_cordic", "#exp_cordic"] {
        let program = JsonLang {
            statements: vec![TopStatement::DeclarationStatement(DeclarationStatement {
                function: name.to_string(),
                args: vec![],
                block: Statement::Return { return_value: Box::new(lit("1")) },
            })],
        };
        assert_eq!(compile(program).unwrap_err(), CompileError::UnsupportedConstruct);
    }
}
