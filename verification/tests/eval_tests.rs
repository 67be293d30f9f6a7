//! Evaluator behaviour: scoping, control flow, functions, structs,
//! namespaces, imports, output and termination.

use iok_core::interpreter::{Interpreter, ModuleSrc, Stop};
use iok_core::object::Object;
use iok_core::lexer::{Lexer, Logger, Loc, ErrorType};
use iok_core::tree::{Tree, BinKind};
use std::rc::Rc;

fn chars(s: &str) -> Vec<char> {
    s.chars().collect()
}

fn nlit(x: f64) -> Tree {
    Tree::Number(x.to_bits())
}

fn ident(s: &str) -> Tree {
    Tree::Ident(chars(s))
}

fn fresh() -> Interpreter {
    Interpreter::new(chars("."), None, Rc::new(Vec::new()))
}

fn run(vm: &mut Interpreter, stmts: Vec<Tree>) -> Object {
    let mut last = Object::Null;
    for s in stmts {
        last = match vm.interpret(&s, 10_000) {
            Ok(v) => v,
            Err(_) => panic!("evaluation halted"),
        };
    }
    last
}

fn expect_num(o: &Object, want: f64) {
    match o {
        Object::Num(b) => assert_eq!(f64::from_bits(*b), want),
        _ => panic!("expected a number"),
    }
}

fn fn_decl(name: &str, args: Vec<Tree>, body: Vec<Tree>) -> Tree {
    Tree::Fn { name: chars(name), args, body: Rc::new(body) }
}

fn call(name: &str, args: Vec<Tree>) -> Tree {
    Tree::FnCall { name: chars(name), args }
}

#[test]
fn let_declares_and_ident_reads() {
    let mut vm = fresh();
    run(&mut vm, vec![Tree::Let(chars("x"), Box::new(nlit(1.0)))]);
    let x = vm.get_var(&chars("x")).expect("x must be bound");
    expect_num(&x, 1.0);
    assert!(vm.get_var(&chars("missing")).is_none());
}

#[test]
fn nested_block_shadows_without_mutating() {
    let mut vm = fresh();
    run(&mut vm, vec![
        Tree::Let(chars("x"), Box::new(nlit(1.0))),
        Tree::If {
            expr: Box::new(Tree::Bool(true)),
            body: vec![
                Tree::Let(chars("x"), Box::new(nlit(2.0))),
            ],
            els: vec![],
            els_ifs: vec![],
        },
    ]);
    let x = vm.get_var(&chars("x")).expect("x must be bound");
    expect_num(&x, 1.0);
}

#[test]
fn assigning_undeclared_yields_invalid_and_changes_nothing() {
    let mut vm = fresh();
    let r = run(&mut vm, vec![
        Tree::Assign(Box::new(ident("ghost_name")), Box::new(nlit(5.0))),
    ]);
    assert!(matches!(r, Object::Invalid));
    assert!(vm.get_var(&chars("ghost_name")).is_none());
}

#[test]
fn functions_are_immutable_once_declared() {
    let mut vm = fresh();
    let r = run(&mut vm, vec![
        fn_decl("f", vec![], vec![Tree::Ret(Box::new(nlit(1.0)))]),
        Tree::Assign(Box::new(ident("f")), Box::new(nlit(5.0))),
    ]);
    assert!(matches!(r, Object::Invalid));
}

#[test]
fn default_parameters_bind_positionally() {
    let mut vm = fresh();
    let decl = fn_decl(
        "f",
        vec![
            ident("a"),
            Tree::Assign(Box::new(ident("b")), Box::new(nlit(10.0))),
        ],
        vec![Tree::Ret(Box::new(Tree::BinOp(
            Box::new(ident("a")),
            BinKind::Plus,
            Box::new(ident("b")),
        )))],
    );
    let r = run(&mut vm, vec![decl, call("f", vec![nlit(5.0)])]);
    expect_num(&r, 15.0);
    let r2 = run(&mut vm, vec![call("f", vec![nlit(5.0), nlit(5.0)])]);
    expect_num(&r2, 10.0);
}

#[test]
fn while_return_stops_loop_and_call() {
    let mut vm = fresh();
    let decl = fn_decl(
        "g",
        vec![],
        vec![
            Tree::Let(chars("inner"), Box::new(nlit(1.0))),
            Tree::While {
                expr: Box::new(Tree::Bool(true)),
                body: vec![Tree::Ret(Box::new(nlit(42.0)))],
            },
            Tree::Ret(Box::new(nlit(0.0))),
        ],
    );
    let r = run(&mut vm, vec![decl, call("g", vec![])]);
    expect_num(&r, 42.0);
    assert!(vm.get_var(&chars("inner")).is_none());
}

#[test]
fn for_over_range_string_and_list() {
    let mut vm = fresh();
    run(&mut vm, vec![
        Tree::Let(chars("acc"), Box::new(nlit(0.0))),
        Tree::For {
            var: chars("i"),
            expr: Box::new(Tree::Range(Box::new(nlit(0.0)), Box::new(nlit(4.0)))),
            body: vec![Tree::Assign(
                Box::new(ident("acc")),
                Box::new(Tree::BinOp(
                    Box::new(ident("acc")),
                    BinKind::Plus,
                    Box::new(ident("i")),
                )),
            )],
        },
    ]);
    let acc = vm.get_var(&chars("acc")).expect("acc");
    expect_num(&acc, 0.0 + 1.0 + 2.0 + 3.0);

    let mut vm2 = fresh();
    run(&mut vm2, vec![
        Tree::Let(chars("s"), Box::new(Tree::Str(chars("")))),
        Tree::For {
            var: chars("c"),
            expr: Box::new(Tree::Str(chars("ab"))),
            body: vec![Tree::Assign(
                Box::new(ident("s")),
                Box::new(Tree::BinOp(
                    Box::new(ident("s")),
                    BinKind::Plus,
                    Box::new(ident("c")),
                )),
            )],
        },
    ]);
    match vm2.get_var(&chars("s")).expect("s") {
        Object::Str(cs) => assert_eq!(cs.iter().collect::<String>(), "ab"),
        _ => panic!("expected a string"),
    }
}

#[test]
fn struct_fields_and_methods() {
    let mut vm = fresh();
    let def = Tree::StructDef {
        name: chars("P"),
        fields: vec![
            Tree::Let(chars("x"), Box::new(nlit(0.0))),
            Tree::Let(chars("y"), Box::new(nlit(0.0))),
        ],
        methods: vec![fn_decl(
            "sum",
            vec![],
            vec![Tree::Ret(Box::new(Tree::BinOp(
                Box::new(Tree::MemberAccess {
                    target: Box::new(ident("self")),
                    member: Box::new(ident("x")),
                }),
                BinKind::Plus,
                Box::new(Tree::MemberAccess {
                    target: Box::new(ident("self")),
                    member: Box::new(ident("y")),
                }),
            )))],
        )],
    };
    let init = Tree::Let(
        chars("p"),
        Box::new(Tree::StructInit {
            name: chars("P"),
            fields: vec![
                (chars("x"), nlit(3.0)),
                (chars("y"), nlit(4.0)),
            ],
        }),
    );
    let call_sum = || Tree::MemberAccess {
        target: Box::new(ident("p")),
        member: Box::new(call("sum", vec![])),
    };
    let r = run(&mut vm, vec![def, init, call_sum()]);
    expect_num(&r, 7.0);
    let mutate = Tree::Assign(
        Box::new(Tree::MemberAccess {
            target: Box::new(ident("p")),
            member: Box::new(ident("x")),
        }),
        Box::new(nlit(10.0)),
    );
    let r2 = run(&mut vm, vec![mutate, call_sum()]);
    expect_num(&r2, 14.0);
}

#[test]
fn list_member_builtins() {
    let mut vm = fresh();
    run(&mut vm, vec![Tree::Let(
        chars("l"),
        Box::new(Tree::List(vec![nlit(1.0), nlit(2.0)])),
    )]);
    let len_call = || Tree::MemberAccess {
        target: Box::new(ident("l")),
        member: Box::new(call("len", vec![])),
    };
    expect_num(&run(&mut vm, vec![len_call()]), 2.0);
    let push_call = Tree::MemberAccess {
        target: Box::new(ident("l")),
        member: Box::new(call("push", vec![nlit(9.0)])),
    };
    run(&mut vm, vec![push_call]);
    expect_num(&run(&mut vm, vec![len_call()]), 3.0);
    let pop_call = Tree::MemberAccess {
        target: Box::new(ident("l")),
        member: Box::new(call("pop", vec![])),
    };
    expect_num(&run(&mut vm, vec![pop_call]), 9.0);
}

#[test]
fn nested_lvalue_assignment() {
    let mut vm = fresh();
    run(&mut vm, vec![
        Tree::Let(
            chars("a"),
            Box::new(Tree::List(vec![
                Tree::List(vec![nlit(1.0), nlit(2.0)]),
                nlit(3.0),
            ])),
        ),
        Tree::Assign(
            Box::new(Tree::ListCall(
                Box::new(Tree::ListCall(Box::new(ident("a")), Box::new(nlit(0.0)))),
                Box::new(nlit(1.0)),
            )),
            Box::new(nlit(7.0)),
        ),
    ]);
    let read = Tree::ListCall(
        Box::new(Tree::ListCall(Box::new(ident("a")), Box::new(nlit(0.0)))),
        Box::new(nlit(1.0)),
    );
    expect_num(&run(&mut vm, vec![read]), 7.0);
}

#[test]
fn write_collects_output_and_exit_halts() {
    let mut vm = fresh();
    run(&mut vm, vec![
        Tree::Write(Box::new(Tree::Str(chars("hi ")))),
        Tree::Write(Box::new(nlit(5.0))),
    ]);
    let out: Vec<String> = vm
        .take_output()
        .into_iter()
        .map(|c| c.iter().collect())
        .collect();
    assert_eq!(out, vec!["hi ".to_string(), "5".to_string()]);

    let mut vm2 = fresh();
    match vm2.interpret(&Tree::Exit(Box::new(nlit(3.0))), 100) {
        Err(Stop::Exit(code)) => assert_eq!(code, 3),
        _ => panic!("expected an exit demand"),
    }
    match vm2.interpret(&Tree::Exit(Box::new(Tree::Empty)), 100) {
        Err(Stop::Exit(code)) => assert_eq!(code, 0),
        _ => panic!("expected an exit demand"),
    }
    match vm2.interpret(&Tree::Exit(Box::new(Tree::Str(chars("x")))), 100) {
        Err(Stop::Exit(code)) => assert_eq!(code, -1),
        _ => panic!("expected an exit demand"),
    }
    match vm2.interpret(&call("exit", vec![]), 100) {
        Err(Stop::Exit(code)) => assert_eq!(code, -1),
        _ => panic!("expected an exit demand"),
    }
}

#[test]
fn unbounded_recursion_runs_out_of_budget() {
    let mut vm = fresh();
    let decl = fn_decl("r", vec![], vec![Tree::Ret(Box::new(call("r", vec![])))]);
    run(&mut vm, vec![decl]);
    match vm.interpret(&call("r", vec![]), 50) {
        Err(Stop::OutOfFuel) => {},
        _ => panic!("expected budget exhaustion"),
    }
}

#[test]
fn native_get_var_from_str() {
    let mut vm = fresh();
    run(&mut vm, vec![Tree::Let(chars("answer"), Box::new(nlit(41.0)))]);
    let r = run(&mut vm, vec![call(
        "__get_var_from_str",
        vec![Tree::Str(chars("answer"))],
    )]);
    expect_num(&r, 41.0);
}

fn module_table(src: Vec<(String, Vec<Tree>)>) -> Rc<Vec<(Vec<char>, ModuleSrc)>> {
    Rc::new(
        src.into_iter()
            .map(|(path, program)| {
                (
                    path.chars().collect(),
                    ModuleSrc { dir: chars("."), program },
                )
            })
            .collect(),
    )
}

#[test]
fn import_snapshots_are_independent() {
    let table = module_table(vec![(
        "STD/m.iok".to_string(),
        vec![Tree::Let(chars("x"), Box::new(nlit(1.0)))],
    )]);
    let mut vm = Interpreter::new(chars("."), Some(chars("STD")), table);
    run(&mut vm, vec![
        Tree::Import { path: Box::new(ident("m")), alias: Some(chars("a")) },
        Tree::Import { path: Box::new(ident("m")), alias: Some(chars("b")) },
        Tree::Assign(
            Box::new(Tree::MemberAccess {
                target: Box::new(ident("a")),
                member: Box::new(ident("x")),
            }),
            Box::new(nlit(99.0)),
        ),
    ]);
    let read_b = Tree::MemberAccess {
        target: Box::new(ident("b")),
        member: Box::new(ident("x")),
    };
    expect_num(&run(&mut vm, vec![read_b]), 1.0);
    let read_a = Tree::MemberAccess {
        target: Box::new(ident("a")),
        member: Box::new(ident("x")),
    };
    expect_num(&run(&mut vm, vec![read_a]), 99.0);
}

#[test]
fn unaliased_import_merges_bindings() {
    let table = module_table(vec![(
        "STD/m.iok".to_string(),
        vec![Tree::Let(chars("exported"), Box::new(nlit(8.0)))],
    )]);
    let mut vm = Interpreter::new(chars("."), Some(chars("STD")), table);
    run(&mut vm, vec![Tree::Import { path: Box::new(ident("m")), alias: None }]);
    let v = vm.get_var(&chars("exported")).expect("merged binding");
    expect_num(&v, 8.0);
}

#[test]
fn missing_module_is_fatal() {
    let mut vm = fresh();
    let t = Tree::Import { path: Box::new(ident("nowhere")), alias: None };
    match vm.interpret(&t, 10_000) {
        Err(Stop::Fatal) => {},
        _ => panic!("a missing module must abort the run"),
    }
}

#[test]
fn same_program_twice_gives_identical_output() {
    let program = || {
        vec![
            Tree::Let(chars("i"), Box::new(nlit(0.0))),
            Tree::While {
                expr: Box::new(Tree::CmpOp(
                    Box::new(ident("i")),
                    iok_core::tree::CmpKind::Less,
                    Box::new(nlit(3.0)),
                )),
                body: vec![
                    Tree::Write(Box::new(ident("i"))),
                    Tree::Assign(
                        Box::new(ident("i")),
                        Box::new(Tree::BinOp(
                            Box::new(ident("i")),
                            BinKind::Plus,
                            Box::new(nlit(1.0)),
                        )),
                    ),
                ],
            },
        ]
    };
    let mut vm1 = fresh();
    run(&mut vm1, program());
    let mut vm2 = fresh();
    run(&mut vm2, program());
    let o1: Vec<String> = vm1.take_output().into_iter().map(|c| c.iter().collect()).collect();
    let o2: Vec<String> = vm2.take_output().into_iter().map(|c| c.iter().collect()).collect();
    assert_eq!(o1, o2);
    assert_eq!(o1, vec!["0".to_string(), "1".to_string(), "2".to_string()]);
}

#[test]
fn lexer_cursor_and_logger_format() {
    let mut lx = Lexer::new(chars("ab"));
    assert_eq!(lx.pos, 0);
    assert_eq!(lx.curr_loc.x, 1);
    lx.next();
    assert_eq!(lx.pos, 1);
    assert_eq!(lx.curr_loc.x, 2);
    let msg = Logger::error(&chars("boom"), Loc { x: 4, y: 12 }, ErrorType::Parsing);
    let msg: String = msg.iter().collect();
    assert_eq!(msg, "Parsing Error:\n\tboom at line 12:4");
}

#[test]
fn struct_def_receiver_methods_and_default_fields() {
    let mut vm = fresh();
    let def = Tree::StructDef {
        name: chars("C"),
        fields: vec![Tree::Let(chars("k"), Box::new(nlit(6.0)))],
        methods: vec![fn_decl(
            "get_k",
            vec![],
            vec![Tree::Ret(Box::new(Tree::MemberAccess {
                target: Box::new(ident("self")),
                member: Box::new(ident("k")),
            }))],
        )],
    };
    run(&mut vm, vec![def]);
    let read_default = Tree::MemberAccess {
        target: Box::new(ident("C")),
        member: Box::new(ident("k")),
    };
    expect_num(&run(&mut vm, vec![read_default]), 6.0);
    let call_on_def = Tree::MemberAccess {
        target: Box::new(ident("C")),
        member: Box::new(call("get_k", vec![])),
    };
    expect_num(&run(&mut vm, vec![call_on_def]), 6.0);
}

#[test]
fn namespace_calls_splice_module_bindings() {
    let table = module_table(vec![(
        "STD/m.iok".to_string(),
        vec![
            Tree::Let(chars("base"), Box::new(nlit(100.0))),
            fn_decl(
                "plus_base",
                vec![ident("v")],
                vec![Tree::Ret(Box::new(Tree::BinOp(
                    Box::new(ident("v")),
                    BinKind::Plus,
                    Box::new(ident("base")),
                )))],
            ),
        ],
    )]);
    let mut vm = Interpreter::new(chars("."), Some(chars("STD")), table);
    run(&mut vm, vec![Tree::Import {
        path: Box::new(ident("m")),
        alias: Some(chars("m")),
    }]);
    let qualified = Tree::MemberAccess {
        target: Box::new(ident("m")),
        member: Box::new(call("plus_base", vec![nlit(5.0)])),
    };
    expect_num(&run(&mut vm, vec![qualified]), 105.0);
}

#[test]
fn dotted_import_binds_final_segment() {
    let table = module_table(vec![(
        "STD/a.iok".to_string(),
        vec![Tree::Let(chars("x"), Box::new(nlit(5.0)))],
    )]);
    let mut vm = Interpreter::new(chars("."), Some(chars("STD")), table);
    let dotted = Tree::MemberAccess {
        target: Box::new(ident("a")),
        member: Box::new(ident("x")),
    };
    run(&mut vm, vec![Tree::Import { path: Box::new(dotted), alias: None }]);
    let v = vm.get_var(&chars("x")).expect("final segment bound");
    expect_num(&v, 5.0);
}

#[test]
fn string_member_builtins() {
    let mut vm = fresh();
    run(&mut vm, vec![Tree::Let(chars("s"), Box::new(Tree::Str(chars("ab"))))]);
    let push_call = Tree::MemberAccess {
        target: Box::new(ident("s")),
        member: Box::new(call("push", vec![nlit(7.0)])),
    };
    run(&mut vm, vec![push_call]);
    match vm.get_var(&chars("s")).expect("s") {
        Object::Str(cs) => assert_eq!(cs.iter().collect::<String>(), "ab7"),
        _ => panic!("expected a string"),
    }
    let pop_call = Tree::MemberAccess {
        target: Box::new(ident("s")),
        member: Box::new(call("pop", vec![])),
    };
    match run(&mut vm, vec![pop_call]) {
        Object::Str(cs) => assert_eq!(cs.iter().collect::<String>(), "7"),
        _ => panic!("expected the popped character"),
    }
}

#[test]
fn malformed_parameter_refuses_declaration() {
    let mut vm = fresh();
    let bad = Tree::Fn {
        name: chars("broken"),
        args: vec![nlit(1.0)],
        body: Rc::new(vec![]),
    };
    let r = run(&mut vm, vec![bad]);
    assert!(matches!(r, Object::Invalid));
    assert!(vm.get_var(&chars("broken")).is_none());
}

#[test]
fn for_loop_return_propagates() {
    let mut vm = fresh();
    let decl = fn_decl(
        "first",
        vec![],
        vec![
            Tree::For {
                var: chars("c"),
                expr: Box::new(Tree::Str(chars("xyz"))),
                body: vec![Tree::Ret(Box::new(ident("c")))],
            },
            Tree::Ret(Box::new(Tree::Str(chars("none")))),
        ],
    );
    let r = run(&mut vm, vec![decl, call("first", vec![])]);
    match r {
        Object::Str(cs) => assert_eq!(cs.iter().collect::<String>(), "x"),
        _ => panic!("expected the first character"),
    }
}

#[test]
fn callee_sees_caller_frames_beneath_its_own() {
    let mut vm = fresh();
    let decl = fn_decl("reads_x", vec![], vec![Tree::Ret(Box::new(ident("x")))]);
    run(&mut vm, vec![decl, Tree::Let(chars("x"), Box::new(nlit(9.0)))]);
    expect_num(&run(&mut vm, vec![call("reads_x", vec![])]), 9.0);
}

#[test]
fn elsif_chain_takes_first_true_branch() {
    let mut vm = fresh();
    let branchy = |cond_a: bool, cond_b: bool| Tree::If {
        expr: Box::new(Tree::Bool(cond_a)),
        body: vec![nlit(1.0)],
        els: vec![nlit(3.0)],
        els_ifs: vec![Tree::ElsIf {
            expr: Box::new(Tree::Bool(cond_b)),
            body: vec![nlit(2.0)],
        }],
    };
    expect_num(&run(&mut vm, vec![branchy(true, true)]), 1.0);
    expect_num(&run(&mut vm, vec![branchy(false, true)]), 2.0);
    expect_num(&run(&mut vm, vec![branchy(false, false)]), 3.0);
}

#[test]
fn let_unwraps_return_sentinel_in_initializer() {
    let mut vm = fresh();
    run(&mut vm, vec![Tree::Let(
        chars("v"),
        Box::new(Tree::Ret(Box::new(nlit(4.0)))),
    )]);
    expect_num(&vm.get_var(&chars("v")).expect("v"), 4.0);
}

#[test]
fn assignment_evaluates_to_the_assigned_value() {
    let mut vm = fresh();
    run(&mut vm, vec![Tree::Let(chars("x"), Box::new(nlit(1.0)))]);
    let r = run(&mut vm, vec![Tree::Assign(
        Box::new(ident("x")),
        Box::new(nlit(2.0)),
    )]);
    expect_num(&r, 2.0);
    expect_num(&vm.get_var(&chars("x")).expect("x"), 2.0);
}

#[test]
fn write_native_prints_each_argument() {
    let mut vm = fresh();
    run(&mut vm, vec![call(
        "write",
        vec![Tree::Str(chars("a")), nlit(1.0), Tree::Empty],
    )]);
    let out: Vec<String> = vm
        .take_output()
        .into_iter()
        .map(|c| c.iter().collect())
        .collect();
    assert_eq!(out, vec!["a".to_string(), "1".to_string(), "null".to_string()]);
}

#[test]
fn range_needs_two_numbers() {
    let mut vm = fresh();
    let r = run(&mut vm, vec![Tree::Range(
        Box::new(Tree::Str(chars("a"))),
        Box::new(nlit(3.0)),
    )]);
    assert!(matches!(r, Object::Invalid));
}

#[test]
fn negative_index_reads_position_zero() {
    let mut vm = fresh();
    let r = run(&mut vm, vec![Tree::ListCall(
        Box::new(Tree::List(vec![nlit(7.0), nlit(8.0)])),
        Box::new(nlit(-1.0)),
    )]);
    expect_num(&r, 7.0);
}
