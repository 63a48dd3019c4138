use ts_native::syntax_check::{
    check_items, generate_markdown, syntax_list, CheckDecl, CheckItem, CheckStmt, Pos,
};

#[test]
fn syntax_table_lists_supported_and_unsupported_forms() {
    let items = syntax_list();
    assert_eq!(items.len(), 64);
    assert_eq!(items[0].name, "function declaration");
    assert!(items[0].supported);
    let class = items.iter().find(|i| i.name == "class").unwrap();
    assert!(!class.supported);
    assert_eq!(class.category, "面向对象");
}

#[test]
fn markdown_table_has_a_row_per_form() {
    let md = generate_markdown();
    assert!(md.starts_with("# ts-native 语法支持列表\n\n| 语法 | 状态 | 示例 | 分类 |\n|------|------|------|------|\n"));
    assert!(md.contains("| function declaration | ✅ | `function foo() {}` | 函数 |\n"));
    assert!(md.contains("| class | ❌ | `class Foo {}` | 面向对象 |\n"));
    assert_eq!(md.lines().count(), 4 + 64);
}

#[test]
fn check_reports_unsupported_forms_in_nested_statements() {
    let at = |line: usize, col: usize| Pos { line, col };
    let items = vec![
        CheckItem::DefaultClass(at(1, 0)),
        CheckItem::Stmt(CheckStmt::If {
            cons: Box::new(CheckStmt::Block(vec![CheckStmt::Labeled(at(3, 4))])),
            alt: Some(Box::new(CheckStmt::Decl(CheckDecl::Namespace(at(5, 2))))),
        }),
        CheckItem::Stmt(CheckStmt::ForIn),
        CheckItem::Stmt(CheckStmt::Decl(CheckDecl::Fn { is_async: true, is_generator: false, at: at(7, 0) })),
        CheckItem::Stmt(CheckStmt::Decl(CheckDecl::Fn { is_async: false, is_generator: false, at: at(8, 0) })),
        CheckItem::Stmt(CheckStmt::Switch(vec![vec![], vec![CheckStmt::With(at(9, 1))]])),
        CheckItem::Stmt(CheckStmt::Try {
            block: vec![CheckStmt::Decl(CheckDecl::TypeAlias(at(11, 0)))],
            handler: Some(vec![CheckStmt::Decl(CheckDecl::Class(at(12, 3)))]),
            finalizer: Some(vec![CheckStmt::Simple]),
        }),
        CheckItem::OtherModuleDecl,
    ];
    let found: Vec<(String, usize, usize)> =
        check_items(&items).into_iter().map(|u| (u.name, u.line, u.col)).collect();
    assert_eq!(
        found,
        vec![
            ("class".to_string(), 1, 0),
            ("labeled statement".to_string(), 3, 4),
            ("namespace".to_string(), 5, 2),
            ("async/await".to_string(), 7, 0),
            ("with statement".to_string(), 9, 1),
            ("type alias (body)".to_string(), 11, 0),
            ("class".to_string(), 12, 3),
        ]
    );
}

#[test]
fn check_finds_nothing_in_plain_code() {
    let items = vec![
        CheckItem::Stmt(CheckStmt::Simple),
        CheckItem::Stmt(CheckStmt::While(Box::new(CheckStmt::Decl(CheckDecl::Other)))),
    ];
    assert!(check_items(&items).is_empty());
}

#[test]
fn markdown_marks_the_forms_the_compiler_rejects() {
    let md = generate_markdown();
    assert!(md.contains("| enum | ❌ | `enum E { A, B }` | 声明 |\n"));
    assert!(md.contains("| optional chaining | ❌ | `obj?.key?.method()` | 表达式 |\n"));
    assert!(md.contains("| destructuring | ❌ | `let { a, b } = obj;` | 声明 |\n"));
}
