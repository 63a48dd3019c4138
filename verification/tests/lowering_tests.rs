use ts_native::codegen::{HirExpr, FALSE, UNDEFINED};
use ts_native::lowering::{
    array_placeholder, function_signatures, lookup_arity, plan_call, plan_property_read,
    stmt_terminates, CallPlan, CallTable, PropertyRead,
};
use ts_native::numbers::double_bits_of;
use ts_native::text::decimal_text;

fn ident(s: &str) -> HirExpr {
    HirExpr::Identifier(s.to_string())
}

fn table(functions: &Vec<(String, usize)>) -> CallTable {
    CallTable { functions: functions.clone(), externals: vec![] }
}

fn prop(o: &str, n: &str) -> HirExpr {
    HirExpr::Property { object: Box::new(ident(o)), name: n.to_string() }
}

#[test]
fn print_and_console_log_print() {
    let sigs: Vec<(String, usize)> = vec![];
    assert!(matches!(plan_call(&ident("print"), 3, &table(&sigs)), CallPlan::Print));
    assert!(matches!(plan_call(&prop("console", "error"), 1, &table(&sigs)), CallPlan::Print));
}

#[test]
fn math_calls_need_their_arguments() {
    let sigs: Vec<(String, usize)> = vec![];
    assert!(matches!(plan_call(&prop("Math", "sin"), 1, &table(&sigs)),
        CallPlan::Import { ref c_name, arity: 1, fallback: 0 } if c_name == "js_math_sin"));
    assert!(matches!(plan_call(&prop("Math", "sin"), 0, &table(&sigs)), CallPlan::Constant(0)));
    assert!(matches!(plan_call(&ident("Math.pow"), 1, &table(&sigs)), CallPlan::Constant(0)));
    assert!(matches!(plan_call(&ident("Math.floor"), 2, &table(&sigs)),
        CallPlan::Import { ref c_name, arity: 1, .. } if c_name == "js_math_floor"));
    assert!(matches!(plan_call(&prop("Array", "isArray"), 0, &table(&sigs)), CallPlan::Constant(f) if f == FALSE));
}

#[test]
fn user_functions_are_padded_to_their_parameters() {
    let program = vec![
        HirExpr::Function { name: "add".to_string(), params: vec!["a".to_string(), "b".to_string()], body: vec![] },
        HirExpr::Break,
    ];
    let sigs = function_signatures(&program);
    assert_eq!(sigs, vec![("add".to_string(), 2)]);
    assert_eq!(lookup_arity(&sigs, "add"), Some(2));
    assert_eq!(lookup_arity(&sigs, "sub"), None);
    assert!(matches!(plan_call(&ident("add"), 1, &table(&sigs)), CallPlan::User { arity: 2 }));
    assert!(matches!(plan_call(&ident("add"), 3, &table(&sigs)), CallPlan::User { arity: 3 }));
}

#[test]
fn unresolved_calls_are_reported_not_named() {
    let sigs: Vec<(String, usize)> = vec![];
    assert!(matches!(plan_call(&ident("tick"), 2, &table(&sigs)),
        CallPlan::Unresolved { ref name } if name == "tick"));
    assert!(matches!(plan_call(&prop("foo", "bar"), 1, &table(&sigs)),
        CallPlan::Unresolved { ref name } if name == "foo.bar"));
    let nested = HirExpr::Property { object: Box::new(prop("a", "b")), name: "c".to_string() };
    assert!(matches!(plan_call(&nested, 0, &table(&sigs)),
        CallPlan::Unresolved { ref name } if name == "a.b.c"));
    assert!(matches!(plan_call(&ident("js_print"), 1, &table(&sigs)),
        CallPlan::Import { ref c_name, arity: 1, fallback } if c_name == "js_print" && fallback == UNDEFINED));
    assert!(matches!(plan_call(&HirExpr::Null, 0, &table(&sigs)), CallPlan::Constant(u) if u == UNDEFINED));
}

#[test]
fn plugin_functions_resolve_to_their_symbols() {
    let t = CallTable {
        functions: vec![],
        externals: vec![
            ("http_get".to_string(), "c_http_get".to_string()),
            ("fs.read".to_string(), "c_fs_read".to_string()),
        ],
    };
    assert!(matches!(plan_call(&ident("http_get"), 1, &t),
        CallPlan::Import { ref c_name, arity: 1, fallback } if c_name == "c_http_get" && fallback == UNDEFINED));
    assert!(matches!(plan_call(&prop("fs", "read"), 2, &t),
        CallPlan::Import { ref c_name, arity: 2, .. } if c_name == "c_fs_read"));
    // Built-in names come before the plugins' map.
    assert!(matches!(plan_call(&ident("print"), 1, &t), CallPlan::Print));
}

#[test]
fn conversions_and_dom_calls() {
    let sigs: Vec<(String, usize)> = vec![];
    assert!(matches!(plan_call(&ident("parseInt"), 1, &table(&sigs)), CallPlan::Passthrough));
    assert!(matches!(plan_call(&ident("String"), 0, &table(&sigs)), CallPlan::Constant(u) if u == UNDEFINED));
    assert!(matches!(plan_call(&ident("Boolean"), 1, &table(&sigs)), CallPlan::Truthiness));
    assert!(matches!(plan_call(&ident("browser.render"), 0, &table(&sigs)),
        CallPlan::ImportVoid { ref c_name, arity: 0 } if c_name == "js_browser_render"));
    assert!(matches!(plan_call(&ident("element.textContent"), 1, &table(&sigs)), CallPlan::Constant(u) if u == UNDEFINED));
}

#[test]
fn return_and_throw_end_the_path() {
    let body = vec![
        HirExpr::ExprStmt(Box::new(ident("x"))),
        HirExpr::Return(None),
        HirExpr::Throw(None),
    ];
    assert!(!stmt_terminates(&body[0]));
    assert!(stmt_terminates(&body[1]));
    assert!(ts_native::lowering::list_terminates(&body));
    assert!(!ts_native::lowering::list_terminates(&vec![HirExpr::ExprStmt(Box::new(ident("x")))]));
    assert!(stmt_terminates(&HirExpr::Break));
    assert!(stmt_terminates(&HirExpr::Continue));
    assert!(ts_native::lowering::list_terminates(&vec![HirExpr::Break]));
    let both = HirExpr::If {
        cond: Box::new(ident("x")),
        then_body: vec![HirExpr::Return(None)],
        else_body: Some(vec![HirExpr::Throw(None)]),
    };
    assert!(stmt_terminates(&both));
    let one_side = HirExpr::If { cond: Box::new(ident("x")), then_body: vec![HirExpr::Return(None)], else_body: None };
    assert!(!stmt_terminates(&one_side));
    assert!(stmt_terminates(&HirExpr::ExprStmt(Box::new(HirExpr::Return(None)))));
}

#[test]
fn property_reads_and_placeholders() {
    assert!(matches!(plan_property_read("length"), PropertyRead::Length));
    assert!(matches!(plan_property_read("x"), PropertyRead::Keyed(k) if k == ts_native::codegen::property_key("x")));
    assert_eq!(array_placeholder(3), 0x7FFB_0000_0000_0003);
}

#[test]
fn integers_as_doubles() {
    assert_eq!(double_bits_of(0), 0);
    assert_eq!(double_bits_of(1), 1.0f64.to_bits());
    assert_eq!(double_bits_of(3), 3.0f64.to_bits());
    assert_eq!(double_bits_of(1000), 1000.0f64.to_bits());
    assert_eq!(double_bits_of((1u64 << 53) + 1), ((1u64 << 53) as f64).to_bits());
    assert_eq!(double_bits_of((1u64 << 53) + 3), (((1u64 << 53) + 4) as f64).to_bits());
    assert_eq!(double_bits_of(u64::MAX), (u64::MAX as f64).to_bits());
    for n in [5u64, 17, 123_456_789, 1 << 60, (1 << 60) + 12345] {
        assert_eq!(double_bits_of(n), (n as f64).to_bits());
    }
}

#[test]
fn decimal_texts() {
    assert_eq!(decimal_text(0), "0");
    assert_eq!(decimal_text(120), "120");
    assert_eq!(decimal_text(u64::MAX), "18446744073709551615");
}
