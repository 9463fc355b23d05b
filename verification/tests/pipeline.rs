use jsonlang_wasm::control_simplification::{
    SimplifiedStatement, SimplifiedTopStatement, simplify_control_structures,
    top_simplify_control_structures,
};
use jsonlang_wasm::error::CompileError;
use jsonlang_wasm::jsonlang::{
    BinaryOp, DeclarationStatement, Expression, IfConditions, JsonLang, Statement, TopStatement,
};
use jsonlang_wasm::variable_analysis::{
    AnalysisResults, Statement as ResolvedStatement, Expression as ResolvedExpression,
    UnaryOp as ResolvedUnaryOp, VariableStore, top_analyze_variables,
};
use jsonlang_wasm::fixup_types::{fix_types, into_float, into_int};

fn lit(t: &str) -> Expression {
    Expression::NumericLiteral(t.to_string())
}

fn var(n: &str) -> Expression {
    Expression::VariableAccess(n.to_string())
}

#[test]
fn while_desugars_to_loop_of_if_break() {
    let w = Statement::While {
        condition: Box::new(lit("1")),
        do_block: Box::new(Statement::Other("break".to_string())),
    };
    let r = simplify_control_structures(w).unwrap();
    match r {
        SimplifiedStatement::Loop(inner) => match *inner {
            SimplifiedStatement::If { cond, then_block, otherwise } => {
                assert_eq!(cond, lit("1"));
                assert!(matches!(*then_block, SimplifiedStatement::Break));
                assert!(matches!(*otherwise, SimplifiedStatement::Break));
            },
            other => panic!("expected if inside loop, got {:?}", other),
        },
        other => panic!("expected loop, got {:?}", other),
    }
}

#[test]
fn bounded_loop_desugars_to_declare_loop_guard_step() {
    // for v from 1 to 5 { call f() } with the default step
    let s = Statement::BoundedLoop {
        iterator: "v".to_string(),
        from: Box::new(lit("1")),
        to: Box::new(lit("5")),
        step: None,
        do_block: Box::new(Statement::Call { name: "f".to_string(), args: vec![] }),
    };
    let r = simplify_control_structures(s).unwrap();
    let items = match r {
        SimplifiedStatement::Block(items) => items,
        other => panic!("expected block, got {:?}", other),
    };
    assert_eq!(items.len(), 2);
    assert_eq!(items[0], SimplifiedStatement::Declare("v".to_string(), lit("1")));
    let inner = match &items[1] {
        SimplifiedStatement::Loop(inner) => inner,
        other => panic!("expected loop, got {:?}", other),
    };
    let body = match &**inner {
        SimplifiedStatement::Block(body) => body,
        other => panic!("expected block, got {:?}", other),
    };
    assert_eq!(body.len(), 2);
    match &body[0] {
        SimplifiedStatement::If { cond, then_block, otherwise: _ } => {
            assert_eq!(
                *cond,
                Expression::BinaryOp {
                    lhs: Box::new(var("v")),
                    op: BinaryOp::Greater,
                    rhs: Box::new(lit("5")),
                }
            );
            assert!(matches!(**then_block, SimplifiedStatement::Break));
        },
        other => panic!("expected guard if, got {:?}", other),
    }
    assert_eq!(
        body[1],
        SimplifiedStatement::Assign(
            "v".to_string(),
            Expression::BinaryOp {
                lhs: Box::new(var("v")),
                op: BinaryOp::Addition,
                rhs: Box::new(lit("1")),
            }
        )
    );
}

#[test]
fn until_runs_body_before_test() {
    let s = Statement::Until {
        do_block: Box::new(Statement::Other("continue".to_string())),
        until: Box::new(lit("1")),
    };
    let r = simplify_control_structures(s).unwrap();
    match r {
        SimplifiedStatement::Loop(inner) => match *inner {
            SimplifiedStatement::Block(items) => {
                assert_eq!(items.len(), 2);
                assert!(matches!(items[0], SimplifiedStatement::Continue));
                assert!(matches!(items[1], SimplifiedStatement::If { .. }));
            },
            other => panic!("expected block, got {:?}", other),
        },
        other => panic!("expected loop, got {:?}", other),
    }
}

#[test]
fn stray_bare_string_is_unsupported() {
    let r = simplify_control_structures(Statement::Other("neither".to_string()));
    assert_eq!(r.unwrap_err(), CompileError::UnsupportedConstruct);
}

#[test]
fn shadowed_name_resolves_inner_then_outer_again() {
    let mut store = VariableStore::new();
    let outer = store.declare("x".to_string());
    store.enter_block();
    let inner = store.declare("x".to_string());
    assert_ne!(outer, inner);
    assert_eq!(store.get_id("x".to_string()), inner);
    store.exit_block();
    assert_eq!(store.get_id("x".to_string()), outer);
    // indices are never reused after the block exits
    assert_eq!(store.count(), 2);
}

#[test]
fn declare_or_get_reuses_bindings() {
    let mut store = VariableStore::new();
    let a = store.declare_or_get("g".to_string());
    let b = store.declare_or_get("g".to_string());
    assert_eq!(a, b);
    assert_eq!(store.count(), 1);
    assert!(store.has(&"g".to_string()));
    let listed = store.list_variables();
    assert_eq!(listed, vec![("g".to_string(), 0)]);
}

#[test]
fn duplicate_function_declaration_is_fatal() {
    let decl = |name: &str| {
        SimplifiedTopStatement::DeclarationStatement {
            name: name.to_string(),
            args: vec![],
            content: SimplifiedStatement::Block(vec![]),
        }
    };
    let r = top_analyze_variables(vec![decl("f"), decl("f")]);
    assert_eq!(r.unwrap_err(), CompileError::DuplicateDeclaration);
}

#[test]
fn global_read_before_any_write_is_fatal() {
    let prog = vec![SimplifiedTopStatement::Statement(SimplifiedStatement::Return(var("g")))];
    let r = top_analyze_variables(prog);
    assert_eq!(r.unwrap_err(), CompileError::UnknownIdentifier);
}

#[test]
fn unknown_callee_is_fatal() {
    let prog = vec![SimplifiedTopStatement::Statement(SimplifiedStatement::Call(
        "missing".to_string(),
        vec![],
    ))];
    let r = top_analyze_variables(prog);
    assert_eq!(r.unwrap_err(), CompileError::UnknownIdentifier);
}

#[test]
fn main_collects_top_statements_and_globals_are_created_on_write() {
    // set g = 2; declared after no local binding, so g becomes global 0
    let prog = vec![SimplifiedTopStatement::Statement(SimplifiedStatement::Assign(
        "g".to_string(),
        lit("2"),
    ))];
    let results = top_analyze_variables(prog).unwrap();
    // one function: the synthetic #main at index 0
    assert_eq!(results.funcname_map, vec![("#main".to_string(), 0)]);
    assert_eq!(results.functions.len(), 1);
    let main = results.functions[0].as_ref().unwrap();
    assert_eq!(main.arguments, 0);
    assert_eq!(main.local_count, 0);
    assert_eq!(
        main.body,
        vec![ResolvedStatement::GlobalSet(0, ResolvedExpression::NumericLiteral("2".to_string()))]
    );
    assert_eq!(results.global_variables.count(), 1);
}

#[test]
fn parameters_take_the_first_local_indices() {
    let prog = vec![
        SimplifiedTopStatement::DeclarationStatement {
            name: "f".to_string(),
            args: vec!["a".to_string(), "b".to_string()],
            content: SimplifiedStatement::Block(vec![
                SimplifiedStatement::Declare("c".to_string(), var("a")),
                SimplifiedStatement::Return(var("c")),
            ]),
        },
    ];
    let results = top_analyze_variables(prog).unwrap();
    let f = results.functions[0].as_ref().unwrap();
    assert_eq!(f.arguments, 2);
    assert_eq!(f.local_count, 1);
    assert_eq!(
        f.body,
        vec![
            ResolvedStatement::LocalSet(2, ResolvedExpression::LocalGet(0)),
            ResolvedStatement::Return(ResolvedExpression::LocalGet(2)),
        ]
    );
}

#[test]
fn comparison_under_float_demand_is_wrapped_once() {
    // return (1 < 2) — a float context around a boolean-producing comparison
    let prog = vec![SimplifiedTopStatement::Statement(SimplifiedStatement::Return(
        Expression::BinaryOp {
            lhs: Box::new(lit("1")),
            op: BinaryOp::Lesser,
            rhs: Box::new(lit("2")),
        },
    ))];
    let results = fix_types(top_analyze_variables(prog).unwrap());
    let main = results.functions[0].as_ref().unwrap();
    match &main.body[0] {
        ResolvedStatement::Return(e) => match e {
            ResolvedExpression::UnaryOp { op, arg } => {
                assert!(matches!(op, ResolvedUnaryOp::IntToFloat));
                assert!(matches!(
                    **arg,
                    ResolvedExpression::BinaryOp { .. }
                ));
            },
            other => panic!("expected one conversion, got {:?}", other),
        },
        other => panic!("expected return, got {:?}", other),
    }
}

#[test]
fn fixup_is_idempotent_on_a_fixed_tree() {
    let prog = vec![SimplifiedTopStatement::Statement(SimplifiedStatement::If {
        cond: Expression::BinaryOp {
            lhs: Box::new(lit("1")),
            op: BinaryOp::BitwiseAnd,
            rhs: Box::new(lit("3")),
        },
        then_block: Box::new(SimplifiedStatement::Return(lit("1"))),
        otherwise: Box::new(SimplifiedStatement::Return(lit("0"))),
    })];
    let once = fix_types(top_analyze_variables(prog).unwrap());
    let main_once = format!("{:?}", once.functions[0]);
    let twice = fix_types(once);
    let main_twice = format!("{:?}", twice.functions[0]);
    assert_eq!(main_once, main_twice);
}

#[test]
fn conversion_helpers_wrap_once() {
    let e = into_float(ResolvedExpression::LocalGet(0));
    assert_eq!(
        e,
        ResolvedExpression::UnaryOp {
            op: ResolvedUnaryOp::IntToFloat,
            arg: Box::new(ResolvedExpression::LocalGet(0)),
        }
    );
    let e2 = into_int(ResolvedExpression::LocalGet(1));
    assert_eq!(
        e2,
        ResolvedExpression::UnaryOp {
            op: ResolvedUnaryOp::FloatToInt,
            arg: Box::new(ResolvedExpression::LocalGet(1)),
        }
    );
}

#[test]
fn whole_front_end_on_a_small_program() {
    // declare f(a) { return a } ; call f(7)
    let program = JsonLang {
        statements: vec![
            TopStatement::DeclarationStatement(DeclarationStatement {
                function: "f".to_string(),
                args: vec!["a".to_string()],
                block: Statement::Return { return_value: Box::new(var("a")) },
            }),
            TopStatement::Statement(Statement::Call { name: "f".to_string(), args: vec![lit("7")] }),
        ],
    };
    let simplified = top_simplify_control_structures(program).unwrap();
    let analyzed = top_analyze_variables(simplified).unwrap();
    let fixed = fix_types(analyzed);
    assert_eq!(
        fixed.funcname_map,
        vec![("f".to_string(), 0), ("#main".to_string(), 1)]
    );
    assert_eq!(fixed.functions.len(), 2);
    let f = fixed.functions[0].as_ref().unwrap();
    assert_eq!(f.arguments, 1);
    let main = fixed.functions[1].as_ref().unwrap();
    assert_eq!(
        main.body,
        vec![ResolvedStatement::Call(
            0,
            vec![ResolvedExpression::NumericLiteral("7".to_string())]
        )]
    );
}

#[test]
fn if_elseif_else_folds_right() {
    let s = Statement::If {
        branches: vec![
            IfConditions { cond: lit("1"), then_block: Box::new(Statement::Other("break".to_string())) },
            IfConditions { cond: lit("2"), then_block: Box::new(Statement::Other("continue".to_string())) },
        ],
        else_branch: Some(Box::new(Statement::Other("break".to_string()))),
    };
    let r = simplify_control_structures(s).unwrap();
    match r {
        SimplifiedStatement::If { cond, then_block, otherwise } => {
            assert_eq!(cond, lit("1"));
            assert!(matches!(*then_block, SimplifiedStatement::Break));
            match *otherwise {
                SimplifiedStatement::If { cond: c2, then_block: t2, otherwise: o2 } => {
                    assert_eq!(c2, lit("2"));
                    assert!(matches!(*t2, SimplifiedStatement::Continue));
                    assert!(matches!(*o2, SimplifiedStatement::Break));
                },
                other => panic!("expected nested if, got {:?}", other),
            }
        },
        other => panic!("expected if, got {:?}", other),
    }
}

#[test]
fn allocate_index_rejects_duplicates() {
    let mut results: AnalysisResults<ResolvedStatement> = AnalysisResults::new();
    results.allocate_index("f".to_string()).unwrap();
    let r = results.allocate_index("f".to_string());
    assert_eq!(r.unwrap_err(), CompileError::DuplicateDeclaration);
    assert_eq!(results.funcname_map, vec![("f".to_string(), 0)]);
}
