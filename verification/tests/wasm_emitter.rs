use perry::hir::{
    BinaryOp, CompareOp, Expr, Global, HirFunction, HirModule, Param, Stmt, SwitchCase, UpdateOp,
};
use perry::wasm_code::{BlockKind, WasmInstr};
use perry::wasm_emit::ValType;
use perry::wasm_module::{compile_to_wasm, plan_wasm_module, runtime_import_name, try_compile_to_wasm, ExportKind};

fn validate(bytes: &[u8]) {
    let mut validator = wasmparser::Validator::new();
    if let Err(e) = validator.validate_all(bytes) {
        panic!("invalid module: {}", e);
    }
}

fn console_log(args: Vec<Expr>) -> Stmt {
    Stmt::Expr(Expr::NativeMethodCall {
        module: "console".to_string(),
        method: "log".to_string(),
        args,
    })
}

fn add_function() -> HirFunction {
    HirFunction {
        id: 1,
        name: "add".to_string(),
        params: vec![
            Param { id: 10, name: "a".to_string() },
            Param { id: 11, name: "b".to_string() },
        ],
        body: vec![Stmt::Return(Some(Expr::Binary {
            op: BinaryOp::Add,
            left: Box::new(Expr::LocalGet(10)),
            right: Box::new(Expr::LocalGet(11)),
        }))],
    }
}

fn sample_module() -> HirModule {
    HirModule {
        name: "main".to_string(),
        functions: vec![add_function()],
        globals: vec![Global { id: 5, name: "g".to_string(), init: Some(Expr::Integer(3)) }],
        init: vec![
            console_log(vec![Expr::String("hi".to_string())]),
            Stmt::Let {
                id: 20,
                name: "x".to_string(),
                init: Some(Expr::Call {
                    callee: Box::new(Expr::FuncRef(1)),
                    args: vec![Expr::Integer(1), Expr::Integer(2)],
                }),
            },
            console_log(vec![Expr::LocalGet(20), Expr::GlobalGet(5)]),
        ],
    }
}

#[test]
fn empty_program_is_a_valid_module() {
    let bytes = compile_to_wasm(&[]);
    assert_eq!(&bytes[0..8], &[0x00, 0x61, 0x73, 0x6D, 0x01, 0x00, 0x00, 0x00]);
    validate(&bytes);
}

#[test]
fn sample_program_is_a_valid_module() {
    let modules = vec![("main".to_string(), sample_module())];
    let bytes = compile_to_wasm(&modules);
    validate(&bytes);
    let checked = try_compile_to_wasm(&modules).expect("fits");
    assert_eq!(bytes, checked);
}

#[test]
fn plan_has_runtime_imports_first() {
    let plan = plan_wasm_module(&[("main".to_string(), sample_module())]);
    assert_eq!(plan.imports.len(), 25);
    assert_eq!(plan.imports[0].module, "rt");
    assert_eq!(plan.imports[0].name, "string_new");
    assert_eq!(plan.imports[0].type_idx, 1);
    assert_eq!(plan.imports[1].name, "console_log");
    assert_eq!(plan.imports[1].type_idx, 2);
    assert_eq!(plan.imports[24].name, "parse_float");
    assert_eq!(runtime_import_name(17), "math_random");
}

#[test]
fn plan_types_functions_and_exports() {
    let plan = plan_wasm_module(&[("main".to_string(), sample_module())]);
    // The eight runtime signatures; `(f64, f64) -> f64` is already among them.
    assert_eq!(plan.types.len(), 8);
    assert!(plan.types[3].params == vec![ValType::F64, ValType::F64]);
    assert!(plan.types[3].results == vec![ValType::F64]);
    // `__init_strings`, `add`, `_start`.
    assert_eq!(plan.functions, vec![0, 3, 0]);
    assert_eq!(plan.exports.len(), 2);
    assert_eq!(plan.exports[0].name, "_start");
    assert!(plan.exports[0].kind == ExportKind::Func);
    assert_eq!(plan.exports[0].index, 27);
    assert_eq!(plan.exports[1].name, "memory");
    assert!(plan.exports[1].kind == ExportKind::Memory);
    assert_eq!(plan.num_globals, 1);
    assert_eq!(plan.memory_pages, 1);
}

#[test]
fn plan_packs_string_literals() {
    let plan = plan_wasm_module(&[("main".to_string(), sample_module())]);
    assert_eq!(plan.data, b"hi".to_vec());
    assert!(plan.data_count);
    let init = &plan.code[0];
    assert!(init.locals.is_empty());
    assert!(init.instrs == vec![
        WasmInstr::I32Const(0),
        WasmInstr::I32Const(2),
        WasmInstr::Call(0),
        WasmInstr::End,
    ]);
}

#[test]
fn plan_compiles_user_function_body() {
    let plan = plan_wasm_module(&[("main".to_string(), sample_module())]);
    assert_eq!(plan.code.len(), 3);
    let add = &plan.code[1];
    assert!(add.locals.is_empty());
    assert!(add.instrs == vec![
        WasmInstr::LocalGet(0),
        WasmInstr::LocalGet(1),
        WasmInstr::Call(5),
        WasmInstr::Return,
        WasmInstr::F64Const(0x7FFC_0000_0000_0001),
        WasmInstr::End,
    ]);
}

#[test]
fn plan_start_calls_init_strings_then_globals() {
    let plan = plan_wasm_module(&[("main".to_string(), sample_module())]);
    let start = &plan.code[2];
    assert!(start.locals == vec![(1, ValType::F64)]);
    assert!(start.instrs[0] == WasmInstr::Call(25));
    // `g = 3`: the integer as a double, stored into global 0.
    assert!(start.instrs[1] == WasmInstr::F64Const(0x4008_0000_0000_0000));
    assert!(start.instrs[2] == WasmInstr::GlobalSet(0));
    // `console.log("hi")`: the string id 0 boxed with the string tag.
    assert!(start.instrs[3] == WasmInstr::F64Const(0x7FFF_0000_0000_0000));
    assert!(start.instrs[4] == WasmInstr::Call(1));
    assert!(*start.instrs.last().unwrap() == WasmInstr::End);
    // `add(1, 2)`: user function 0 has index 26, after the imports and `__init_strings`.
    assert!(start.instrs.contains(&WasmInstr::Call(26)));
    assert!(start.instrs.contains(&WasmInstr::LocalSet(0)));
}

fn literals_module() -> HirModule {
    HirModule {
        name: "m".to_string(),
        functions: vec![],
        globals: vec![],
        init: vec![
            console_log(vec![Expr::String("ab".to_string()), Expr::String("c".to_string())]),
            console_log(vec![Expr::String("ab".to_string())]),
        ],
    }
}

#[test]
fn repeated_literals_are_interned_once() {
    let plan = plan_wasm_module(&[("m".to_string(), literals_module())]);
    assert_eq!(plan.data, b"abc".to_vec());
    assert!(plan.code[0].instrs == vec![
        WasmInstr::I32Const(0),
        WasmInstr::I32Const(2),
        WasmInstr::Call(0),
        WasmInstr::I32Const(2),
        WasmInstr::I32Const(1),
        WasmInstr::Call(0),
        WasmInstr::End,
    ]);
    validate(&compile_to_wasm(&[("m".to_string(), literals_module())]));
}

fn plan_source() -> HirModule {
    HirModule {
        name: "loops".to_string(),
        functions: vec![HirFunction {
            id: 7,
            name: "count".to_string(),
            params: vec![Param { id: 1, name: "n".to_string() }],
            body: vec![
                Stmt::Let { id: 2, name: "i".to_string(), init: Some(Expr::Integer(0)) },
                Stmt::While {
                    condition: Expr::Compare {
                        op: CompareOp::Lt,
                        left: Box::new(Expr::LocalGet(2)),
                        right: Box::new(Expr::LocalGet(1)),
                    },
                    body: vec![Stmt::Expr(Expr::LocalSet(
                        2,
                        Box::new(Expr::Binary {
                            op: BinaryOp::Sub,
                            left: Box::new(Expr::LocalGet(2)),
                            right: Box::new(Expr::Integer(-1)),
                        }),
                    ))],
                },
                Stmt::Return(Some(Expr::LocalGet(2))),
            ],
        }],
        globals: vec![Global { id: 1, name: "__platform__".to_string(), init: None }],
        init: vec![Stmt::If {
            condition: Expr::Bool(true),
            then_branch: vec![console_log(vec![Expr::Integer(1)])],
            else_branch: Some(vec![console_log(vec![Expr::Null])]),
        }],
    }
}

#[test]
fn control_flow_program_is_a_valid_module() {
    let bytes = compile_to_wasm(&[("loops".to_string(), plan_source())]);
    validate(&bytes);
}

#[test]
fn platform_global_is_the_web() {
    let plan = plan_wasm_module(&[("loops".to_string(), plan_source())]);
    let start = &plan.code[2];
    assert!(start.instrs[1] == WasmInstr::F64Const(0x4014_0000_0000_0000));
    assert!(start.instrs[2] == WasmInstr::GlobalSet(0));
}

fn nesting(code: &[WasmInstr]) -> i64 {
    code.iter()
        .map(|i| match i {
            WasmInstr::Block(_) | WasmInstr::Loop(_) | WasmInstr::If(_) => 1,
            WasmInstr::End => -1,
            _ => 0,
        })
        .sum()
}

#[test]
fn every_body_closes_what_it_opens() {
    for m in [sample_module(), plan_source(), literals_module()] {
        let plan = plan_wasm_module(&[("m".to_string(), m)]);
        for body in &plan.code {
            let n = body.instrs.len();
            assert!(body.instrs[n - 1] == WasmInstr::End);
            assert_eq!(nesting(&body.instrs[..n - 1]), 0);
            for k in 0..n {
                assert!(nesting(&body.instrs[..k]) >= 0);
            }
        }
    }
}

fn no_result_function() -> HirFunction {
    HirFunction { id: 2, name: "noop".to_string(), params: vec![], body: vec![] }
}

#[test]
fn statement_calls_without_a_value_drop_nothing() {
    let module = HirModule {
        name: "main".to_string(),
        functions: vec![add_function(), no_result_function()],
        globals: vec![],
        init: vec![
            Stmt::Expr(Expr::Call { callee: Box::new(Expr::FuncRef(2)), args: vec![] }),
            Stmt::Expr(Expr::NativeMethodCall {
                module: "fs".to_string(),
                method: "readFileSync".to_string(),
                args: vec![],
            }),
            Stmt::Expr(Expr::Call {
                callee: Box::new(Expr::FuncRef(1)),
                args: vec![Expr::Integer(1), Expr::Integer(2)],
            }),
        ],
    };
    let modules = vec![("main".to_string(), module)];
    let plan = plan_wasm_module(&modules);
    let start = &plan.code[3];
    assert!(start.instrs == vec![
        WasmInstr::Call(25),
        WasmInstr::Call(27),
        WasmInstr::F64Const(0x3FF0_0000_0000_0000),
        WasmInstr::F64Const(0x4000_0000_0000_0000),
        WasmInstr::Call(26),
        WasmInstr::Drop,
        WasmInstr::End,
    ]);
    validate(&compile_to_wasm(&modules));
}

#[test]
fn literals_inside_sequences_and_math_are_interned() {
    let module = HirModule {
        name: "m".to_string(),
        functions: vec![],
        globals: vec![],
        init: vec![console_log(vec![
            Expr::Sequence(vec![Expr::String("a".to_string())]),
            Expr::MathFloor(Box::new(Expr::String("b".to_string()))),
            Expr::MathMax(vec![Expr::String("c".to_string()), Expr::String("a".to_string())]),
        ])],
    };
    let modules = vec![("m".to_string(), module)];
    let plan = plan_wasm_module(&modules);
    assert_eq!(plan.data, b"abc".to_vec());
    // "b" is boxed as string id 1, not as id 0 ("a").
    assert!(plan.code[1].instrs.contains(&WasmInstr::F64Const(0x7FFF_0000_0000_0001)));
    validate(&compile_to_wasm(&modules));
}

#[test]
fn let_in_for_header_gets_a_local() {
    let module = HirModule {
        name: "m".to_string(),
        functions: vec![HirFunction {
            id: 3,
            name: "spin".to_string(),
            params: vec![],
            body: vec![Stmt::For {
                init: Some(Box::new(Stmt::Let {
                    id: 9,
                    name: "i".to_string(),
                    init: Some(Expr::Integer(0)),
                })),
                condition: Some(Expr::Compare {
                    op: CompareOp::Lt,
                    left: Box::new(Expr::LocalGet(9)),
                    right: Box::new(Expr::Integer(3)),
                }),
                update: Some(Expr::Update { id: 9, op: UpdateOp::Increment, prefix: false }),
                body: vec![],
            }],
        }],
        globals: vec![],
        init: vec![],
    };
    let modules = vec![("m".to_string(), module)];
    let plan = plan_wasm_module(&modules);
    let body = &plan.code[1];
    assert!(body.locals == vec![(1, ValType::F64)]);
    assert!(body.instrs[0] == WasmInstr::F64Const(0));
    assert!(body.instrs[1] == WasmInstr::LocalSet(0));
    assert!(body.instrs[2] == WasmInstr::Block(BlockKind::Empty));
    validate(&compile_to_wasm(&modules));
}

#[test]
fn return_inside_switch_gives_a_result() {
    let module = HirModule {
        name: "m".to_string(),
        functions: vec![HirFunction {
            id: 4,
            name: "pick".to_string(),
            params: vec![],
            body: vec![Stmt::Switch {
                discriminant: Expr::Integer(0),
                cases: vec![SwitchCase { test: None, body: vec![Stmt::Return(None)] }],
            }],
        }],
        globals: vec![],
        init: vec![],
    };
    let modules = vec![("m".to_string(), module)];
    let plan = plan_wasm_module(&modules);
    let ty = plan.functions[1] as usize;
    assert!(plan.types[ty].params.is_empty());
    assert!(plan.types[ty].results == vec![ValType::F64]);
    validate(&compile_to_wasm(&modules));
}

#[test]
fn data_count_section_holds_one_segment() {
    let bytes = compile_to_wasm(&[("main".to_string(), sample_module())]);
    // Section id 12, payload size 1, count 1, right before the code section.
    assert!(bytes.windows(4).any(|w| w == [12, 1, 1, 10]));
}

#[test]
fn only_top_level_lets_get_start_locals() {
    let module = HirModule {
        name: "m".to_string(),
        functions: vec![],
        globals: vec![],
        init: vec![Stmt::For {
            init: Some(Box::new(Stmt::Let { id: 4, name: "i".to_string(), init: Some(Expr::Integer(0)) })),
            condition: Some(Expr::Compare {
                op: CompareOp::Lt,
                left: Box::new(Expr::LocalGet(4)),
                right: Box::new(Expr::Integer(2)),
            }),
            update: Some(Expr::Update { id: 4, op: UpdateOp::Increment, prefix: true }),
            body: vec![console_log(vec![Expr::LocalGet(4)])],
        }],
    };
    let modules = vec![("m".to_string(), module)];
    let plan = plan_wasm_module(&modules);
    let start = &plan.code[1];
    // The `let` in the loop header is not a top-level statement: it gets no
    // slot and its value is dropped.
    assert!(start.locals.is_empty());
    assert!(start.instrs[1] == WasmInstr::F64Const(0));
    assert!(start.instrs[2] == WasmInstr::Drop);
    validate(&compile_to_wasm(&modules));
}

#[test]
fn type_section_bytes_follow_the_entries() {
    let bytes = compile_to_wasm(&[]);
    // Section 1, 39 bytes: 8 types, the first `() -> ()`, then
    // `(i32, i32) -> ()`.
    assert_eq!(&bytes[8..19], &[1, 39, 8, 0x60, 0, 0, 0x60, 2, 0x7F, 0x7F, 0]);
}
