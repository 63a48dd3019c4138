use ts_native::ast::{
    AstArg, AstBinOp, AstDecl, AstDeclarator, AstEnumInit, AstEnumMember, AstExpr, AstForHead,
    AstFunction, AstItem, AstLit, AstObjPatProp, AstPat, AstProp, AstPropName, AstStmt,
    AstSwitchCase, AstUpdateOp, AstVarKind,
};
use ts_native::codegen::HirExpr;
use ts_native::hir::BinOp;
use ts_native::swc_transform::{
    extract_params, is_bare_main_call, transform_expr, transform_module, transform_stmt,
    transform_template, transform_var_declarator,
};

fn id(s: &str) -> AstExpr {
    AstExpr::Ident(s.to_string())
}

fn num(v: f64) -> AstExpr {
    AstExpr::Lit(AstLit::Num(v.to_bits()))
}

fn call(name: &str, args: Vec<AstExpr>) -> AstExpr {
    AstExpr::Call {
        callee: Some(Box::new(id(name))),
        args: args.into_iter().map(|expr| AstArg { spread: false, expr }).collect(),
    }
}

fn is_ident(h: &HirExpr, name: &str) -> bool {
    matches!(h, HirExpr::Identifier(n) if n == name)
}

fn is_number(h: &HirExpr, v: f64) -> bool {
    matches!(h, HirExpr::Number(b) if *b == v.to_bits())
}

#[test]
fn top_level_code_goes_into_a_new_main() {
    let items = vec![AstItem::Stmt(AstStmt::Expr(call("print", vec![num(42.0)])))];
    let out = transform_module(&items);
    assert_eq!(out.len(), 1);
    match &out[0] {
        HirExpr::Function { name, params, body } => {
            assert_eq!(name, "main");
            assert!(params.is_empty());
            assert_eq!(body.len(), 1);
            match &body[0] {
                HirExpr::ExprStmt(inner) => match inner.as_ref() {
                    HirExpr::Call { callee, args } => {
                        assert!(is_ident(callee, "print"));
                        assert!(is_number(&args[0], 42.0));
                    }
                    _ => panic!("expected a call"),
                },
                _ => panic!("expected a statement"),
            }
        }
        _ => panic!("expected main"),
    }
}

#[test]
fn top_level_code_joins_an_existing_main_without_the_bare_call() {
    let main_fn = AstDecl::Fn {
        name: "main".to_string(),
        declare: false,
        function: AstFunction { params: vec![], body: Some(vec![AstStmt::Return(None)]) },
    };
    let items = vec![
        AstItem::Stmt(AstStmt::Decl(main_fn)),
        AstItem::Stmt(AstStmt::Expr(call("main", vec![]))),
        AstItem::Stmt(AstStmt::Expr(call("tick", vec![]))),
    ];
    let out = transform_module(&items);
    assert_eq!(out.len(), 1);
    match &out[0] {
        HirExpr::Function { name, body, .. } => {
            assert_eq!(name, "main");
            assert_eq!(body.len(), 2);
            assert!(matches!(&body[0], HirExpr::Return(None)));
            assert!(!is_bare_main_call(&body[1]));
        }
        _ => panic!("expected main"),
    }
}

#[test]
fn module_without_code_still_has_main() {
    let items = vec![AstItem::OtherModuleDecl];
    let out = transform_module(&items);
    assert_eq!(out.len(), 1);
    assert!(matches!(&out[0], HirExpr::Function { name, body, .. } if name == "main" && body.is_empty()));
}

#[test]
fn ambient_functions_are_dropped() {
    let decl = AstDecl::Fn {
        name: "ext".to_string(),
        declare: true,
        function: AstFunction { params: vec![], body: None },
    };
    assert!(transform_stmt(&AstStmt::Decl(decl)).is_none());
}

#[test]
fn nullish_coalescing_becomes_a_presence_test() {
    let e = AstExpr::Bin { op: AstBinOp::NullishCoalescing, left: Box::new(id("a")), right: Box::new(id("b")) };
    match transform_expr(&e) {
        HirExpr::Ternary { cond, then_expr, else_expr } => {
            assert!(matches!(cond.as_ref(), HirExpr::Binary { op: BinOp::And, .. }));
            assert!(is_ident(&then_expr, "a"));
            assert!(is_ident(&else_expr, "b"));
        }
        _ => panic!("expected a conditional"),
    }
}

#[test]
fn increment_and_decrement_become_assignments() {
    let e = AstExpr::Update { op: AstUpdateOp::PlusPlus, prefix: true, arg: Box::new(id("i")) };
    match transform_expr(&e) {
        HirExpr::Assign { target, value } => {
            assert!(is_ident(&target, "i"));
            match value.as_ref() {
                HirExpr::Binary { op: BinOp::Add, left, right } => {
                    assert!(is_ident(left, "i"));
                    assert!(is_number(right, 1.0));
                }
                _ => panic!("expected i + 1"),
            }
        }
        _ => panic!("expected an assignment"),
    }
    let post = AstExpr::Update { op: AstUpdateOp::MinusMinus, prefix: false, arg: Box::new(id("i")) };
    match transform_expr(&post) {
        HirExpr::Assign { target, value } => {
            assert!(is_ident(&target, "i"));
            assert!(matches!(value.as_ref(), HirExpr::Binary { op: BinOp::Sub, .. }));
        }
        _ => panic!("expected an assignment"),
    }
}

#[test]
fn spread_arguments_go_through_apply() {
    let e = AstExpr::Call {
        callee: Some(Box::new(id("f"))),
        args: vec![AstArg { spread: false, expr: num(1.0) }, AstArg { spread: true, expr: id("rest") }],
    };
    match transform_expr(&e) {
        HirExpr::Call { callee, args } => {
            assert!(is_ident(&callee, "js_function_apply"));
            assert!(is_ident(&args[0], "f"));
            match &args[1] {
                HirExpr::Call { callee, args } => {
                    assert!(is_ident(callee, "js_array_concat"));
                    assert!(matches!(&args[0], HirExpr::Array(v) if v.len() == 1));
                    assert!(matches!(&args[1], HirExpr::Call { callee, .. } if is_ident(callee, "js_array_spread")));
                }
                _ => panic!("expected a concatenation"),
            }
        }
        _ => panic!("expected a call"),
    }
}

#[test]
fn template_pieces_join_with_plus() {
    let t = transform_template(&vec!["Hi ".to_string(), "".to_string()], &vec![id("name")]);
    match t {
        HirExpr::Binary { op: BinOp::Add, left, right } => {
            assert!(matches!(left.as_ref(), HirExpr::String(s) if s == "Hi "));
            assert!(is_ident(&right, "name"));
        }
        _ => panic!("expected a concatenation"),
    }
    assert!(matches!(transform_template(&vec!["".to_string()], &vec![]), HirExpr::String(s) if s.is_empty()));
}

#[test]
fn object_literal_entries() {
    let e = AstExpr::Object(vec![
        AstProp::KeyValue { key: AstPropName::Ident("a".to_string()), value: Box::new(num(1.0)) },
        AstProp::Other,
        AstProp::Shorthand("b".to_string()),
        AstProp::Spread(Box::new(id("o"))),
        AstProp::KeyValue { key: AstPropName::Computed(Box::new(id("k"))), value: Box::new(num(2.0)) },
    ]);
    match transform_expr(&e) {
        HirExpr::Object(props) => {
            let keys: Vec<&str> = props.iter().map(|p| p.0.as_str()).collect();
            assert_eq!(keys, vec!["a", "b", "_spread_2", "_computed_3"]);
            assert!(is_ident(&props[1].1, "b"));
            match &props[3].1 {
                HirExpr::Call { callee, args } => {
                    assert!(is_ident(callee, "js_object_set_computed"));
                    assert!(is_number(&args[0], 3.0));
                    assert!(is_ident(&args[1], "k"));
                }
                _ => panic!("expected a computed set"),
            }
        }
        _ => panic!("expected an object"),
    }
}

#[test]
fn for_of_becomes_a_counting_loop() {
    let s = AstStmt::ForOf {
        left: AstForHead::VarDecl(Some(AstPat::Ident("x".to_string()))),
        right: id("xs"),
        body: Box::new(AstStmt::Block(vec![AstStmt::Expr(call("print", vec![id("x")]))])),
    };
    match transform_stmt(&s).unwrap() {
        HirExpr::Block(stmts) => {
            assert_eq!(stmts.len(), 2);
            assert!(matches!(&stmts[0], HirExpr::Var { name, .. } if name == "_len_x"));
            match &stmts[1] {
                HirExpr::For { init: Some(init), body, .. } => {
                    assert!(matches!(init.as_ref(), HirExpr::Var { name, is_mut: true, .. } if name == "_i_x"));
                    assert_eq!(body.len(), 2);
                    assert!(matches!(&body[0], HirExpr::Var { name, .. } if name == "x"));
                }
                _ => panic!("expected a loop"),
            }
        }
        _ => panic!("expected a block"),
    }
}

#[test]
fn switch_becomes_an_if_chain() {
    let s = AstStmt::Switch {
        disc: id("v"),
        cases: vec![
            AstSwitchCase { test: Some(num(1.0)), cons: vec![AstStmt::Break] },
            AstSwitchCase { test: Some(num(2.0)), cons: vec![AstStmt::Continue] },
        ],
    };
    match transform_stmt(&s).unwrap() {
        HirExpr::If { cond, then_body, else_body: Some(rest) } => {
            assert!(matches!(cond.as_ref(), HirExpr::Binary { op: BinOp::Eq, .. }));
            assert!(matches!(&then_body[0], HirExpr::Break));
            assert_eq!(rest.len(), 1);
            assert!(matches!(&rest[0], HirExpr::If { else_body: None, .. }));
        }
        _ => panic!("expected an if"),
    }
}

#[test]
fn default_and_rest_parameters() {
    let params = vec![
        AstPat::Ident("a".to_string()),
        AstPat::Assign { left: Box::new(AstPat::Ident("b".to_string())), right: Box::new(num(5.0)) },
        AstPat::Rest(Box::new(AstPat::Ident("more".to_string()))),
    ];
    let (names, inits) = extract_params(&params);
    assert_eq!(names, vec!["a".to_string(), "b".to_string()]);
    assert_eq!(inits.len(), 2);
    assert!(matches!(&inits[0], HirExpr::If { .. }));
    match &inits[1] {
        HirExpr::Var { name, init: Some(init), .. } => {
            assert_eq!(name, "more");
            match init.as_ref() {
                HirExpr::Call { callee, args } => {
                    assert!(is_ident(callee, "js_array_from_args"));
                    assert!(is_number(&args[0], 2.0));
                }
                _ => panic!("expected a call"),
            }
        }
        _ => panic!("expected a variable"),
    }
}

#[test]
fn array_destructuring_reads_by_position() {
    let d = AstDeclarator {
        name: AstPat::Array(vec![None, Some(AstPat::Ident("y".to_string()))]),
        init: Some(id("pair")),
    };
    match transform_var_declarator(&d, &AstVarKind::Const) {
        HirExpr::Block(stmts) => {
            assert!(matches!(&stmts[0], HirExpr::Var { name, is_mut: false, .. } if name == "_destr_arr_1"));
            match &stmts[1] {
                HirExpr::Var { name, init: Some(init), is_mut } => {
                    assert_eq!(name, "y");
                    assert!(!*is_mut);
                    assert!(matches!(init.as_ref(), HirExpr::Index { index, .. } if is_number(index, 1.0)));
                }
                _ => panic!("expected a binding"),
            }
        }
        _ => panic!("expected a block"),
    }
}

#[test]
fn object_destructuring_with_default() {
    let d = AstDeclarator {
        name: AstPat::Object(vec![AstObjPatProp::Assign { key: "x".to_string(), value: Some(Box::new(num(0.0))) }]),
        init: Some(id("p")),
    };
    match transform_var_declarator(&d, &AstVarKind::Let) {
        HirExpr::Block(stmts) => {
            assert!(matches!(&stmts[0], HirExpr::Var { name, .. } if name == "_destr_x"));
            assert!(matches!(&stmts[1], HirExpr::Var { name, is_mut: true, init: Some(i) }
                if name == "x" && matches!(i.as_ref(), HirExpr::Ternary { .. })));
        }
        _ => panic!("expected a block"),
    }
}

#[test]
fn enums_become_named_constants() {
    let decl = AstDecl::Enum {
        name: "Color".to_string(),
        is_const: false,
        members: vec![
            AstEnumMember { name: "Red".to_string(), init: AstEnumInit::Auto(0.0f64.to_bits()) },
            AstEnumMember { name: "Green".to_string(), init: AstEnumInit::Expr(num(5.0)) },
        ],
    };
    match transform_stmt(&AstStmt::Decl(decl)).unwrap() {
        HirExpr::Block(stmts) => {
            assert!(matches!(&stmts[0], HirExpr::Var { name, init: Some(i), .. } if name == "Color_Red" && is_number(i, 0.0)));
            assert!(matches!(&stmts[1], HirExpr::Var { name, init: Some(i), .. } if name == "Color_Green" && is_number(i, 5.0)));
        }
        _ => panic!("expected a block"),
    }
}
