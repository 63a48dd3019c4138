use ts_native::hir::HirExpr;
use ts_native::ts_parser::{parse, tokenize, ParseError, TokenKind};

#[test]
fn test_parse_number() {
    let result = parse("let x = 42;");
    assert!(result.is_ok());
}

#[test]
fn test_parse_function() {
    let result = parse("function add(a, b) { return a + b; }");
    assert!(result.is_ok());
    let hir = result.unwrap();
    assert_eq!(hir.len(), 1);
    if let HirExpr::Function { name, params, .. } = &hir[0] {
        assert_eq!(name, "add");
        assert_eq!(params.len(), 2);
    } else {
        panic!("Expected Function");
    }
}

#[test]
fn test_parse_if_else() {
    let result = parse("if (x > 0) { print(x); } else { print(0); }");
    assert!(result.is_ok());
}

#[test]
fn test_parse_while() {
    let result = parse("while (x > 0) { x = x - 1; }");
    assert!(result.is_ok());
}

#[test]
fn test_parse_for() {
    let result = parse("for (let i = 0; i < 10; i = i + 1) { print(i); }");
    assert!(result.is_ok());
}

#[test]
fn test_parse_array() {
    let result = parse("let arr = [1, 2, 3];");
    assert!(result.is_ok());
}

#[test]
fn test_parse_object() {
    let result = parse("let obj = {x: 10, y: 20};");
    assert!(result.is_ok());
}

#[test]
fn test_parse_string() {
    let result = parse("let s = \"hello\";");
    assert!(result.is_ok());
}

#[test]
fn test_parse_break_continue() {
    let result = parse("while (true) { if (x > 0) { break; } continue; }");
    assert!(result.is_ok());
}

#[test]
fn test_parse_typeof() {
    let result = parse("let t = typeof x;");
    assert!(result.is_ok());
}

#[test]
fn test_parse_ternary() {
    let result = parse("let y = x > 0 ? x : 0;");
    assert!(result.is_ok());
}

#[test]
fn tokens_of_a_declaration() {
    let kinds: Vec<TokenKind> = tokenize("let x = 42;").iter().map(|t| t.kind).collect();
    assert_eq!(kinds, vec![TokenKind::Let, TokenKind::Ident, TokenKind::Assign, TokenKind::Number, TokenKind::Semicolon, TokenKind::Eof]);
}

#[test]
fn token_stream_ends_with_eof_even_when_empty() {
    let toks = tokenize("");
    assert_eq!(toks.len(), 1);
    assert_eq!(toks[0].kind, TokenKind::Eof);
}

#[test]
fn comments_are_skipped() {
    let kinds: Vec<TokenKind> = tokenize("// note\nx /* block */ + 1").iter().map(|t| t.kind).collect();
    assert_eq!(kinds, vec![TokenKind::Ident, TokenKind::Plus, TokenKind::Number, TokenKind::Eof]);
}

#[test]
fn non_ascii_letters_stay_in_one_identifier() {
    let toks = tokenize("café");
    assert_eq!(toks.len(), 2);
    assert_eq!(toks[0].kind, TokenKind::Ident);
    assert_eq!(toks[0].text, "café");
}

#[test]
fn declaration_lowers_to_var_with_number_text() {
    let hir = parse("let x = 42;").unwrap();
    assert_eq!(hir.len(), 1);
    match &hir[0] {
        HirExpr::Var { name, init: Some(init), is_mut } => {
            assert_eq!(name, "x");
            assert!(*is_mut);
            assert!(matches!(init.as_ref(), HirExpr::Number(t) if t == "42"));
        }
        _ => panic!("expected a variable"),
    }
}

#[test]
fn const_declaration_is_immutable() {
    let hir = parse("const k = 1;").unwrap();
    assert!(matches!(&hir[0], HirExpr::Var { is_mut: false, .. }));
}

#[test]
fn missing_function_name_is_an_error() {
    assert_eq!(parse("function (a) { }").err(), Some(ParseError::ExpectedFunctionName));
}

#[test]
fn unclosed_parameter_list_is_an_error() {
    assert_eq!(parse("function f(a, b").err(), Some(ParseError::UnclosedParameters));
}

#[test]
fn stray_token_is_an_error() {
    assert!(matches!(parse("let x = );"), Err(ParseError::UnexpectedToken(TokenKind::RParen))));
}

#[test]
fn each_parse_error_has_an_input() {
    assert_eq!(parse("let = 1;").err(), Some(ParseError::ExpectedVariableName));
    assert_eq!(parse("a.1;").err(), Some(ParseError::ExpectedPropertyName));
    assert_eq!(parse("let o = {1: 2};").err(), Some(ParseError::ExpectedObjectKey));
    assert_eq!(parse("let o = {a 2};").err(), Some(ParseError::Expected(TokenKind::Colon, TokenKind::Number)));
    assert_eq!(parse("if x) {}").err(), Some(ParseError::Expected(TokenKind::LParen, TokenKind::Ident)));
}
