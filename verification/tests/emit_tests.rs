use ts_native::codegen::{property_key, HirExpr, ARRAY_TAG, TRUE, UNDEFINED};
use ts_native::emit::{function_steps, NumOp, Op};
use ts_native::hir::{BinOp, UnaryOp};
use ts_native::lowering::{function_signatures, CallTable};

fn ident(s: &str) -> HirExpr {
    HirExpr::Identifier(s.to_string())
}

fn num(v: f64) -> HirExpr {
    HirExpr::Number(v.to_bits())
}

fn bin(op: BinOp, l: HirExpr, r: HirExpr) -> HirExpr {
    HirExpr::Binary { op, left: Box::new(l), right: Box::new(r) }
}

fn ret(e: HirExpr) -> HirExpr {
    HirExpr::Return(Some(Box::new(e)))
}

fn call(callee: HirExpr, args: Vec<HirExpr>) -> HirExpr {
    HirExpr::Call { callee: Box::new(callee), args }
}

fn steps(params: &[&str], body: Vec<HirExpr>, program: &Vec<HirExpr>) -> Vec<Op> {
    let params: Vec<String> = params.iter().map(|p| p.to_string()).collect();
    let table = CallTable { functions: function_signatures(program), externals: vec![] };
    function_steps(&params, &body, &table)
}

fn import(name: &str, nparams: usize, fallback: u64) -> Op {
    Op::Import { name: name.to_string(), nparams, fallback }
}

fn effect(name: &str, nparams: usize, has_result: bool) -> Op {
    Op::Effect { name: name.to_string(), nparams, has_result }
}

#[test]
fn add_function_returns_the_sum_of_its_parameters() {
    let body = vec![ret(bin(BinOp::Add, ident("a"), ident("b")))];
    let s = steps(&["a", "b"], body, &vec![]);
    assert_eq!(s, vec![Op::Load(0), Op::Load(1), Op::Binary { helper: Some("js_add".to_string()), inline: NumOp::Add }, Op::Return]);
}

#[test]
fn body_without_return_ends_with_return_undefined() {
    let body = vec![HirExpr::Var { name: "x".to_string(), init: Some(Box::new(num(1.0))), is_mut: false }];
    let s = steps(&[], body, &vec![]);
    assert_eq!(
        s,
        vec![Op::Const(1.0f64.to_bits()), Op::Define(0), Op::Const(UNDEFINED), Op::Return]
    );
}

#[test]
fn statements_after_a_return_are_not_emitted() {
    let body = vec![ret(num(1.0)), ret(num(2.0))];
    let s = steps(&[], body, &vec![]);
    assert_eq!(s, vec![Op::Const(1.0f64.to_bits()), Op::Return]);
}

#[test]
fn new_variables_take_the_next_slot_and_a_repeated_name_is_rebound() {
    let var = |n: &str, v: f64| HirExpr::Var {
        name: n.to_string(),
        init: Some(Box::new(num(v))),
        is_mut: true,
    };
    let body = vec![var("x", 1.0), var("y", 2.0), var("x", 3.0), ret(ident("x"))];
    let s = steps(&["p"], body, &vec![]);
    assert_eq!(
        s,
        vec![
            Op::Const(1.0f64.to_bits()),
            Op::Define(1),
            Op::Const(2.0f64.to_bits()),
            Op::Define(2),
            Op::Const(3.0f64.to_bits()),
            Op::Define(3),
            Op::Load(3),
            Op::Return,
        ]
    );
}

#[test]
fn unknown_identifier_reads_undefined() {
    let s = steps(&[], vec![ret(ident("nowhere"))], &vec![]);
    assert_eq!(s, vec![Op::Const(UNDEFINED), Op::Return]);
}

#[test]
fn user_call_pads_missing_arguments() {
    let program = vec![HirExpr::Function {
        name: "f".to_string(),
        params: vec!["a".to_string(), "b".to_string(), "c".to_string()],
        body: vec![],
    }];
    let s = steps(&[], vec![ret(call(ident("f"), vec![num(1.0)]))], &program);
    assert_eq!(
        s,
        vec![
            Op::Const(1.0f64.to_bits()),
            Op::CallUser { name: "f".to_string(), nargs: 1, arity: 3 },
            Op::Return,
        ]
    );
}

#[test]
fn print_puts_spaces_between_arguments_and_a_newline_after() {
    let body = vec![HirExpr::ExprStmt(Box::new(call(ident("print"), vec![num(1.0), num(2.0)])))];
    let s = steps(&[], body, &vec![]);
    assert_eq!(
        s,
        vec![
            Op::Const(1.0f64.to_bits()),
            effect("js_print", 1, true),
            effect("js_print_space", 0, true),
            Op::Const(2.0f64.to_bits()),
            effect("js_print", 1, true),
            effect("js_print_newline", 0, true),
            Op::Const(UNDEFINED),
            Op::Drop,
            Op::Const(UNDEFINED),
            Op::Return,
        ]
    );
}

#[test]
fn math_call_takes_only_its_argument() {
    let callee = HirExpr::Property { object: Box::new(ident("Math")), name: "sqrt".to_string() };
    let s = steps(&[], vec![ret(call(callee, vec![num(4.0), num(9.0)]))], &vec![]);
    assert_eq!(s, vec![Op::Const(4.0f64.to_bits()), import("js_math_sqrt", 1, 0), Op::Return]);
}

#[test]
fn unresolved_method_call_gives_undefined_with_a_warning() {
    let callee = HirExpr::Property { object: Box::new(ident("list")), name: "push".to_string() };
    let s = steps(&["list"], vec![ret(call(callee, vec![num(5.0)]))], &vec![]);
    assert_eq!(s, vec![Op::Unresolved { name: "list.push".to_string() }, Op::Return]);
}

#[test]
fn plugin_function_calls_its_symbol() {
    let params: Vec<String> = vec![];
    let body = vec![ret(call(ident("http_get"), vec![HirExpr::String("u".to_string())]))];
    let table = CallTable {
        functions: vec![],
        externals: vec![("http_get".to_string(), "c_http_get".to_string())],
    };
    let s = function_steps(&params, &body, &table);
    assert_eq!(s, vec![Op::Str("u".to_string()), import("c_http_get", 1, UNDEFINED), Op::Return]);
}

#[test]
fn and_evaluates_its_right_side_only_under_a_branch() {
    let e = bin(BinOp::And, ident("a"), call(ident("js_side"), vec![]));
    let s = steps(&["a"], vec![ret(e)], &vec![]);
    assert_eq!(
        s,
        vec![
            Op::Load(0),
            Op::LogicBegin { and: true },
            import("js_side", 0, UNDEFINED),
            Op::LogicEnd,
            Op::Return,
        ]
    );
    let o = bin(BinOp::Or, ident("a"), num(2.0));
    let s = steps(&["a"], vec![ret(o)], &vec![]);
    assert_eq!(s[1], Op::LogicBegin { and: false });
}

#[test]
fn break_and_continue_jump_and_end_the_body() {
    let body = vec![
        HirExpr::If { cond: Box::new(ident("c")), then_body: vec![HirExpr::Continue], else_body: None },
        HirExpr::Break,
        HirExpr::Assign { target: Box::new(ident("c")), value: Box::new(num(1.0)) },
    ];
    let stmt = HirExpr::While { cond: Box::new(ident("c")), body };
    let s = steps(&["c"], vec![stmt], &vec![]);
    assert_eq!(
        s,
        vec![
            Op::WhileBegin,
            Op::Load(0),
            Op::WhileTest,
            Op::Load(0),
            Op::IfBegin,
            Op::Continue,
            Op::IfElse { then_ends: true },
            Op::IfEnd { then_ends: true, else_ends: false },
            Op::Break,
            Op::WhileEnd { body_ends: true },
            Op::Const(UNDEFINED),
            Op::Return,
        ]
    );
}

#[test]
fn arithmetic_names_its_runtime_helper_and_fallback() {
    let s = steps(&["a", "b"], vec![ret(bin(BinOp::Mod, ident("a"), ident("b")))], &vec![]);
    assert_eq!(
        s[2],
        Op::Binary { helper: Some("js_mod".to_string()), inline: NumOp::Undefined }
    );
    let s = steps(&["a"], vec![ret(HirExpr::Unary { op: UnaryOp::Not, operand: Box::new(ident("a")) })], &vec![]);
    assert_eq!(s, vec![Op::Load(0), Op::IsZero, Op::Return]);
}

#[test]
fn property_reads_use_length_or_the_hashed_key() {
    let len = HirExpr::Property { object: Box::new(ident("o")), name: "length".to_string() };
    let s = steps(&["o"], vec![ret(len)], &vec![]);
    assert_eq!(s, vec![Op::Load(0), import("js_property_length", 1, UNDEFINED), Op::Return]);
    let field = HirExpr::Property { object: Box::new(ident("o")), name: "x".to_string() };
    let s = steps(&["o"], vec![ret(field)], &vec![]);
    assert_eq!(
        s,
        vec![
            Op::Load(0),
            Op::Const(property_key("x")),
            import("js_object_get", 2, UNDEFINED),
            Op::Return,
        ]
    );
}

#[test]
fn array_and_object_literals() {
    let arr = HirExpr::Array(vec![num(1.0), HirExpr::Boolean(true)]);
    let s = steps(&[], vec![ret(arr)], &vec![]);
    assert_eq!(
        s,
        vec![
            Op::ArrayBegin { len: 2, placeholder: ARRAY_TAG | 2 },
            Op::Const(1.0f64.to_bits()),
            Op::ArrayPush,
            Op::Const(TRUE),
            Op::ArrayPush,
            Op::ArrayEnd,
            Op::Return,
        ]
    );
    let obj = HirExpr::Object(vec![("k".to_string(), num(7.0))]);
    let s = steps(&[], vec![ret(obj)], &vec![]);
    assert_eq!(
        s,
        vec![
            Op::ObjectBegin,
            Op::ObjectKey(property_key("k")),
            Op::Const(7.0f64.to_bits()),
            Op::ObjectSet,
            Op::ObjectEnd,
            Op::Return,
        ]
    );
}

#[test]
fn if_records_which_branches_end_the_path() {
    let stmt = HirExpr::If {
        cond: Box::new(ident("c")),
        then_body: vec![ret(num(1.0))],
        else_body: None,
    };
    let s = steps(&["c"], vec![stmt], &vec![]);
    assert_eq!(
        s,
        vec![
            Op::Load(0),
            Op::IfBegin,
            Op::Const(1.0f64.to_bits()),
            Op::Return,
            Op::IfElse { then_ends: true },
            Op::IfEnd { then_ends: true, else_ends: false },
            Op::Const(UNDEFINED),
            Op::Return,
        ]
    );
}

#[test]
fn while_loop_and_assignment() {
    let stmt = HirExpr::While {
        cond: Box::new(bin(BinOp::Gt, ident("x"), num(0.0))),
        body: vec![HirExpr::Assign {
            target: Box::new(ident("x")),
            value: Box::new(bin(BinOp::Sub, ident("x"), num(1.0))),
        }],
    };
    let s = steps(&["x"], vec![stmt], &vec![]);
    assert_eq!(
        s,
        vec![
            Op::WhileBegin,
            Op::Load(0),
            Op::Const(0.0f64.to_bits()),
            Op::Binary { helper: None, inline: NumOp::Greater },
            Op::WhileTest,
            Op::Load(0),
            Op::Const(1.0f64.to_bits()),
            Op::Binary { helper: None, inline: NumOp::Sub },
            Op::Store(0),
            Op::WhileEnd { body_ends: false },
            Op::Const(UNDEFINED),
            Op::Return,
        ]
    );
}

#[test]
fn throw_calls_the_runtime_and_returns_undefined() {
    let s = steps(&[], vec![HirExpr::Throw(None)], &vec![]);
    assert_eq!(
        s,
        vec![Op::Const(UNDEFINED), effect("js_throw", 1, false), Op::Const(UNDEFINED), Op::Return]
    );
}

#[test]
fn try_catch_binds_the_exception_in_a_new_slot() {
    let stmt = HirExpr::TryCatch {
        try_body: vec![],
        catch_param: Some("e".to_string()),
        catch_body: Some(vec![ret(ident("e"))]),
        finally_body: None,
    };
    let s = steps(&[], vec![stmt], &vec![]);
    assert_eq!(
        s,
        vec![
            Op::TryBegin,
            effect("js_try_end", 0, false),
            effect("js_clear_exception", 0, false),
            Op::TryLeave,
            Op::CatchBegin,
            Op::BindException(0),
            effect("js_clear_exception", 0, false),
            Op::Load(0),
            Op::Return,
            effect("js_try_end", 0, false),
            Op::TryLeave,
            Op::FinallyBegin,
            Op::TryEnd,
            Op::Const(UNDEFINED),
            Op::Return,
        ]
    );
}

fn stack_effect(op: &Op) -> i64 {
    match op {
        Op::Const(_) | Op::Str(_) | Op::Load(_) | Op::ArrayBegin { .. } | Op::ObjectBegin
        | Op::ObjectKey(_) | Op::Unresolved { .. } => 1,
        Op::Define(_) | Op::Store(_) | Op::Drop | Op::Binary { .. } | Op::GetIndex | Op::ArrayPush
        | Op::Return | Op::IfBegin | Op::WhileTest | Op::ForTest | Op::TernaryBegin
        | Op::TernaryElse | Op::LogicBegin { .. } => -1,
        Op::Import { nparams, .. } => 1 - *nparams as i64,
        Op::Effect { nparams, .. } => -(*nparams as i64),
        Op::CallUser { nargs, .. } => 1 - *nargs as i64,
        Op::SetIndex => -3,
        Op::SetProperty(_) | Op::ObjectSet => -2,
        _ => 0,
    }
}

#[test]
fn emitted_steps_leave_the_stack_balanced() {
    let program = vec![HirExpr::Function {
        name: "g".to_string(),
        params: vec!["a".to_string()],
        body: vec![],
    }];
    let body = vec![
        HirExpr::Var {
            name: "o".to_string(),
            init: Some(Box::new(HirExpr::Object(vec![("k".to_string(), HirExpr::Array(vec![num(1.0)]))]))),
            is_mut: true,
        },
        HirExpr::Assign {
            target: Box::new(HirExpr::Index { object: Box::new(ident("o")), index: Box::new(num(0.0)) }),
            value: Box::new(HirExpr::Ternary {
                cond: Box::new(ident("o")),
                then_expr: Box::new(call(ident("g"), vec![])),
                else_expr: Box::new(HirExpr::String("s".to_string())),
            }),
        },
        HirExpr::For {
            init: None,
            cond: Some(Box::new(bin(BinOp::Lt, ident("o"), num(3.0)))),
            update: None,
            body: vec![HirExpr::ExprStmt(Box::new(call(ident("print"), vec![ident("o")])))],
        },
        HirExpr::TryCatch {
            try_body: vec![HirExpr::Throw(Some(Box::new(num(1.0))))],
            catch_param: Some("e".to_string()),
            catch_body: Some(vec![]),
            finally_body: Some(vec![ret(ident("e"))]),
        },
    ];
    let s = steps(&[], body, &program);
    let mut height: i64 = 0;
    for op in &s {
        height += stack_effect(op);
        assert!(height >= 0);
    }
    assert_eq!(height, 0);
}
