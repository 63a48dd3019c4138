use crate::text::joined;
use vstd::prelude::*;

verus! {

broadcast use vstd::std_specs::vec::axiom_vec_decreases_to_view;

/// One line of the table of TypeScript forms: its name, whether the
/// compiler handles it, an example and its category.
pub struct SyntaxItem {
    pub name: &'static str,
    pub supported: bool,
    pub example: &'static str,
    pub category: &'static str,
}

/// A form the compiler does not handle, found at a line and column of a
/// source.
pub struct UnsupportedSyntax {
    pub name: String,
    pub line: usize,
    pub col: usize,
}

/// The mathematical form of a table line.
pub open spec fn row(name: Seq<char>, supported: bool, example: Seq<char>, category: Seq<char>) -> (
    Seq<char>,
    bool,
    Seq<char>,
    Seq<char>,
) {
    (name, supported, example, category)
}

/// The table of TypeScript forms and whether each is handled.
pub open spec fn syntax_table() -> Seq<(Seq<char>, bool, Seq<char>, Seq<char>)> {
    seq![
        row("function declaration"@, true, "function foo() {}"@, "函数"@),
        row("function expression"@, true, "let f = function() {}"@, "函数"@),
        row("arrow function"@, true, "(x) => x + 1"@, "函数"@),
        row("return"@, true, "return x;"@, "控制流"@),
        row("if/else"@, true, "if (x) {} else {}"@, "控制流"@),
        row("while"@, true, "while (x) {}"@, "控制流"@),
        row("for"@, true, "for (let i=0; i<n; i++) {}"@, "控制流"@),
        row("for...in"@, true, "for (let k in obj) {}"@, "控制流"@),
        row("for...of"@, true, "for (let x of arr) {}"@, "控制流"@),
        row("break/continue"@, true, "break; continue;"@, "控制流"@),
        row("try/catch/finally"@, true, "try {} catch(e) {} finally {}"@, "控制流"@),
        row("throw"@, true, "throw new Error()"@, "控制流"@),
        row("ternary (?:)"@, true, "x ? a : b"@, "表达式"@),
        row("let/const/var"@, true, "let x = 1; const y = 2;"@, "声明"@),
        row("assignment"@, true, "x = 1; x += 2;"@, "表达式"@),
        row("binary operators"@, true, "+, -, *, /, %, ==, <, >, &&, ||"@, "表达式"@),
        row("unary operators"@, true, "-x, !x, typeof x"@, "表达式"@),
        row("increment/decrement"@, true, "x++; x--;"@, "表达式"@),
        row("string literal"@, true, "\"hello\", 'world'"@, "字面量"@),
        row("template literal"@, true, "`hello ${name}`"@, "字面量"@),
        row("number literal"@, true, "42, 3.14, 0xFF"@, "字面量"@),
        row("boolean literal"@, true, "true, false"@, "字面量"@),
        row("null/undefined"@, true, "null, undefined"@, "字面量"@),
        row("array literal"@, true, "[1, 2, 3]"@, "字面量"@),
        row("object literal"@, true, "{ key: value }"@, "字面量"@),
        row("property access"@, true, "obj.key, obj[0]"@, "表达式"@),
        row("function call"@, true, "foo(1, 2)"@, "表达式"@),
        row("method call"@, true, "obj.method()"@, "表达式"@),
        row("import declaration"@, true, "import { x } from 'mod'"@, "模块"@),
        row("export declaration"@, true, "export function foo() {}"@, "模块"@),
        row("declare function"@, true, "declare function foo(): void;"@, "TS扩展"@),
        row("interface (declare only)"@, true, "interface Config { x: number }"@, "TS扩展"@),
        row("type annotation"@, true, "let x: number = 1;"@, "TS扩展"@),
        row("as type assertion"@, true, "x as number"@, "TS扩展"@),
        row("typeof operator"@, true, "typeof x"@, "表达式"@),
        row("console.log/print"@, true, "console.log(x), print(x)"@, "内置"@),
        row("Math methods"@, true, "Math.sin, Math.random, ..."@, "内置"@),
        row("JSON.parse/stringify"@, true, "JSON.parse(s), JSON.stringify(o)"@, "内置"@),
        row("Date.now"@, true, "Date.now()"@, "内置"@),
        row("parseInt/parseFloat"@, true, "parseInt(s)"@, "内置"@),
        row("class"@, false, "class Foo {}"@, "面向对象"@),
        row("class inheritance"@, false, "class Bar extends Foo {}"@, "面向对象"@),
        row("decorator"@, false, "@decorator class Foo {}"@, "面向对象"@),
        row("enum"@, false, "enum E { A, B }"@, "声明"@),
        row("async/await"@, false, "async function f() { await p }"@, "异步"@),
        row("generator"@, false, "function* g() { yield 1 }"@, "函数"@),
        row("Promise"@, false, "new Promise((r) => r(1))"@, "异步"@),
        row("namespace"@, false, "namespace N { }"@, "TS扩展"@),
        row("abstract class"@, false, "abstract class A {}"@, "面向对象"@),
        row("with statement"@, false, "with (obj) { }"@, "遗留"@),
        row("labeled statement"@, false, "label: for (;;) { break label; }"@, "控制流"@),
        row("switch"@, true, "switch(x) { case 1: break; }"@, "控制流"@),
        row("do...while"@, true, "do {} while (x)"@, "控制流"@),
        row("new expression"@, false, "new Foo()"@, "表达式"@),
        row("delete/void/in"@, false, "delete obj.key; void 0; x in obj"@, "表达式"@),
        row("spread/rest"@, false, "...args, fn(...a)"@, "表达式"@),
        row("destructuring"@, false, "let { a, b } = obj;"@, "声明"@),
        row("default param"@, false, "function f(x = 1) {}"@, "函数"@),
        row("computed property"@, false, "{ [key]: value }"@, "表达式"@),
        row("optional chaining"@, false, "obj?.key?.method()"@, "表达式"@),
        row("nullish coalescing"@, true, "x ?? y"@, "表达式"@),
        row("regex literal"@, false, "/pattern/flags"@, "字面量"@),
        row("satisfies operator"@, false, "x as const satisfies T"@, "TS扩展"@),
        row("type alias (body)"@, false, "type T = { a: number }"@, "TS扩展"@)
    ]
}

/// The mathematical form of the table lines.
pub open spec fn items_view(v: Seq<SyntaxItem>) -> Seq<(Seq<char>, bool, Seq<char>, Seq<char>)> {
    v.map_values(|i: SyntaxItem| row(i.name@, i.supported, i.example@, i.category@))
}

/// The table of TypeScript forms and whether each is handled.
pub fn syntax_list() -> (r: Vec<SyntaxItem>)
    ensures
        items_view(r@) == syntax_table(),
{
    let mut v: Vec<SyntaxItem> = Vec::new();
    v.push(SyntaxItem { name: "function declaration", supported: true, example: "function foo() {}", category: "函数" });
    v.push(SyntaxItem { name: "function expression", supported: true, example: "let f = function() {}", category: "函数" });
    v.push(SyntaxItem { name: "arrow function", supported: true, example: "(x) => x + 1", category: "函数" });
    v.push(SyntaxItem { name: "return", supported: true, example: "return x;", category: "控制流" });
    v.push(SyntaxItem { name: "if/else", supported: true, example: "if (x) {} else {}", category: "控制流" });
    v.push(SyntaxItem { name: "while", supported: true, example: "while (x) {}", category: "控制流" });
    v.push(SyntaxItem { name: "for", supported: true, example: "for (let i=0; i<n; i++) {}", category: "控制流" });
    v.push(SyntaxItem { name: "for...in", supported: true, example: "for (let k in obj) {}", category: "控制流" });
    v.push(SyntaxItem { name: "for...of", supported: true, example: "for (let x of arr) {}", category: "控制流" });
    v.push(SyntaxItem { name: "break/continue", supported: true, example: "break; continue;", category: "控制流" });
    v.push(SyntaxItem { name: "try/catch/finally", supported: true, example: "try {} catch(e) {} finally {}", category: "控制流" });
    v.push(SyntaxItem { name: "throw", supported: true, example: "throw new Error()", category: "控制流" });
    v.push(SyntaxItem { name: "ternary (?:)", supported: true, example: "x ? a : b", category: "表达式" });
    v.push(SyntaxItem { name: "let/const/var", supported: true, example: "let x = 1; const y = 2;", category: "声明" });
    v.push(SyntaxItem { name: "assignment", supported: true, example: "x = 1; x += 2;", category: "表达式" });
    v.push(SyntaxItem { name: "binary operators", supported: true, example: "+, -, *, /, %, ==, <, >, &&, ||", category: "表达式" });
    v.push(SyntaxItem { name: "unary operators", supported: true, example: "-x, !x, typeof x", category: "表达式" });
    v.push(SyntaxItem { name: "increment/decrement", supported: true, example: "x++; x--;", category: "表达式" });
    v.push(SyntaxItem { name: "string literal", supported: true, example: "\"hello\", 'world'", category: "字面量" });
    v.push(SyntaxItem { name: "template literal", supported: true, example: "`hello ${name}`", category: "字面量" });
    v.push(SyntaxItem { name: "number literal", supported: true, example: "42, 3.14, 0xFF", category: "字面量" });
    v.push(SyntaxItem { name: "boolean literal", supported: true, example: "true, false", category: "字面量" });
    v.push(SyntaxItem { name: "null/undefined", supported: true, example: "null, undefined", category: "字面量" });
    v.push(SyntaxItem { name: "array literal", supported: true, example: "[1, 2, 3]", category: "字面量" });
    v.push(SyntaxItem { name: "object literal", supported: true, example: "{ key: value }", category: "字面量" });
    v.push(SyntaxItem { name: "property access", supported: true, example: "obj.key, obj[0]", category: "表达式" });
    v.push(SyntaxItem { name: "function call", supported: true, example: "foo(1, 2)", category: "表达式" });
    v.push(SyntaxItem { name: "method call", supported: true, example: "obj.method()", category: "表达式" });
    v.push(SyntaxItem { name: "import declaration", supported: true, example: "import { x } from 'mod'", category: "模块" });
    v.push(SyntaxItem { name: "export declaration", supported: true, example: "export function foo() {}", category: "模块" });
    v.push(SyntaxItem { name: "declare function", supported: true, example: "declare function foo(): void;", category: "TS扩展" });
    v.push(SyntaxItem { name: "interface (declare only)", supported: true, example: "interface Config { x: number }", category: "TS扩展" });
    v.push(SyntaxItem { name: "type annotation", supported: true, example: "let x: number = 1;", category: "TS扩展" });
    v.push(SyntaxItem { name: "as type assertion", supported: true, example: "x as number", category: "TS扩展" });
    v.push(SyntaxItem { name: "typeof operator", supported: true, example: "typeof x", category: "表达式" });
    v.push(SyntaxItem { name: "console.log/print", supported: true, example: "console.log(x), print(x)", category: "内置" });
    v.push(SyntaxItem { name: "Math methods", supported: true, example: "Math.sin, Math.random, ...", category: "内置" });
    v.push(SyntaxItem { name: "JSON.parse/stringify", supported: true, example: "JSON.parse(s), JSON.stringify(o)", category: "内置" });
    v.push(SyntaxItem { name: "Date.now", supported: true, example: "Date.now()", category: "内置" });
    v.push(SyntaxItem { name: "parseInt/parseFloat", supported: true, example: "parseInt(s)", category: "内置" });
    v.push(SyntaxItem { name: "class", supported: false, example: "class Foo {}", category: "面向对象" });
    v.push(SyntaxItem { name: "class inheritance", supported: false, example: "class Bar extends Foo {}", category: "面向对象" });
    v.push(SyntaxItem { name: "decorator", supported: false, example: "@decorator class Foo {}", category: "面向对象" });
    v.push(SyntaxItem { name: "enum", supported: false, example: "enum E { A, B }", category: "声明" });
    v.push(SyntaxItem { name: "async/await", supported: false, example: "async function f() { await p }", category: "异步" });
    v.push(SyntaxItem { name: "generator", supported: false, example: "function* g() { yield 1 }", category: "函数" });
    v.push(SyntaxItem { name: "Promise", supported: false, example: "new Promise((r) => r(1))", category: "异步" });
    v.push(SyntaxItem { name: "namespace", supported: false, example: "namespace N { }", category: "TS扩展" });
    v.push(SyntaxItem { name: "abstract class", supported: false, example: "abstract class A {}", category: "面向对象" });
    v.push(SyntaxItem { name: "with statement", supported: false, example: "with (obj) { }", category: "遗留" });
    v.push(SyntaxItem { name: "labeled statement", supported: false, example: "label: for (;;) { break label; }", category: "控制流" });
    v.push(SyntaxItem { name: "switch", supported: true, example: "switch(x) { case 1: break; }", category: "控制流" });
    v.push(SyntaxItem { name: "do...while", supported: true, example: "do {} while (x)", category: "控制流" });
    v.push(SyntaxItem { name: "new expression", supported: false, example: "new Foo()", category: "表达式" });
    v.push(SyntaxItem { name: "delete/void/in", supported: false, example: "delete obj.key; void 0; x in obj", category: "表达式" });
    v.push(SyntaxItem { name: "spread/rest", supported: false, example: "...args, fn(...a)", category: "表达式" });
    v.push(SyntaxItem { name: "destructuring", supported: false, example: "let { a, b } = obj;", category: "声明" });
    v.push(SyntaxItem { name: "default param", supported: false, example: "function f(x = 1) {}", category: "函数" });
    v.push(SyntaxItem { name: "computed property", supported: false, example: "{ [key]: value }", category: "表达式" });
    v.push(SyntaxItem { name: "optional chaining", supported: false, example: "obj?.key?.method()", category: "表达式" });
    v.push(SyntaxItem { name: "nullish coalescing", supported: true, example: "x ?? y", category: "表达式" });
    v.push(SyntaxItem { name: "regex literal", supported: false, example: "/pattern/flags", category: "字面量" });
    v.push(SyntaxItem { name: "satisfies operator", supported: false, example: "x as const satisfies T", category: "TS扩展" });
    v.push(SyntaxItem { name: "type alias (body)", supported: false, example: "type T = { a: number }", category: "TS扩展" });
    assert(items_view(v@) =~= syntax_table());
    v
}

/// The status mark of a table line.
pub open spec fn status_mark(supported: bool) -> Seq<char> {
    if supported {
        "✅"@
    } else {
        "❌"@
    }
}

/// The Markdown row of one table line.
pub open spec fn markdown_row(r: (Seq<char>, bool, Seq<char>, Seq<char>)) -> Seq<char> {
    "| "@ + r.0 + " | "@ + status_mark(r.1) + " | `"@ + r.2 + "` | "@ + r.3 + " |\n"@
}

/// The Markdown rows of table lines, one after another.
pub open spec fn markdown_rows(rows: Seq<(Seq<char>, bool, Seq<char>, Seq<char>)>) -> Seq<char>
    decreases rows.len(),
{
    if rows.len() == 0 {
        Seq::empty()
    } else {
        markdown_rows(rows.drop_last()) + markdown_row(rows.last())
    }
}

/// The heading and column header of the Markdown table.
pub open spec fn markdown_head() -> Seq<char> {
    "# ts-native 语法支持列表\n\n"@ + "| 语法 | 状态 | 示例 | 分类 |\n"@ + "|------|------|------|------|\n"@
}

fn row_text(item: &SyntaxItem) -> (s: String)
    ensures
        s@ == markdown_row(row(item.name@, item.supported, item.example@, item.category@)),
{
    let status = if item.supported { "✅" } else { "❌" };
    let a = joined("| ", item.name);
    let b = joined(a.as_str(), " | ");
    let c = joined(b.as_str(), status);
    let d = joined(c.as_str(), " | `");
    let e = joined(d.as_str(), item.example);
    let f = joined(e.as_str(), "` | ");
    let g = joined(f.as_str(), item.category);
    joined(g.as_str(), " |\n")
}

/// The table of TypeScript forms as a Markdown document.
pub fn generate_markdown() -> (md: String)
    ensures
        md@ == markdown_head() + markdown_rows(syntax_table()),
{
    let items = syntax_list();
    let h1 = joined("# ts-native 语法支持列表\n\n", "| 语法 | 状态 | 示例 | 分类 |\n");
    let mut md = joined(h1.as_str(), "|------|------|------|------|\n");
    let ghost rows = items_view(items@);
    let mut i: usize = 0;
    while i < items.len()
        invariant
            i <= items@.len(),
            rows == items_view(items@),
            md@ == markdown_head() + markdown_rows(rows.take(i as int)),
        decreases items@.len() - i,
    {
        let line = row_text(&items[i]);
        proof {
            assert(rows.take(i + 1).drop_last() =~= rows.take(i as int));
            assert(rows[i as int] == row(items@[i as int].name@, items@[i as int].supported, items@[i as int].example@, items@[i as int].category@));
        }
        md = joined(md.as_str(), line.as_str());
        proof {
            assert(md@ =~= markdown_head() + markdown_rows(rows.take(i + 1)));
        }
        i = i + 1;
    }
    assert(rows.take(i as int) =~= rows);
    md
}

/// A line and column of the source, as the source map gives them.
#[derive(Clone, Copy)]
pub struct Pos {
    pub line: usize,
    pub col: usize,
}

/// The statements as far as the syntax check reads them: the forms it
/// reports, with their positions, and the nested statements it enters.
pub enum CheckStmt {
    Block(Vec<CheckStmt>),
    Decl(CheckDecl),
    If { cons: Box<CheckStmt>, alt: Option<Box<CheckStmt>> },
    While(Box<CheckStmt>),
    DoWhile(Box<CheckStmt>),
    For(Box<CheckStmt>),
    /// A `for...in` loop (its body is not entered).
    ForIn,
    /// A `for...of` loop (its body is not entered).
    ForOf,
    /// The statements of each case.
    Switch(Vec<Vec<CheckStmt>>),
    Try { block: Vec<CheckStmt>, handler: Option<Vec<CheckStmt>>, finalizer: Option<Vec<CheckStmt>> },
    With(Pos),
    Labeled(Pos),
    /// A statement without nested statements (expression, `return`,
    /// `break`, `continue`, `throw`, empty, `debugger`).
    Simple,
}

/// The declarations as far as the syntax check reads them.
pub enum CheckDecl {
    Class(Pos),
    /// A function declaration, `async` or a generator or neither (its
    /// body is not entered).
    Fn { is_async: bool, is_generator: bool, at: Pos },
    Namespace(Pos),
    TypeAlias(Pos),
    Using(Pos),
    /// A variable, interface or enum declaration.
    Other,
}

/// The module items as far as the syntax check reads them.
pub enum CheckItem {
    Stmt(CheckStmt),
    /// `export default class`.
    DefaultClass(Pos),
    /// Any other import or export (an exported declaration is not entered).
    OtherModuleDecl,
}

/// One finding: the form's name, its line and its column.
pub open spec fn finding(name: Seq<char>, p: Pos) -> Seq<(Seq<char>, usize, usize)> {
    seq![(name, p.line, p.col)]
}

/// The findings of a declaration.
pub open spec fn decl_findings(d: CheckDecl) -> Seq<(Seq<char>, usize, usize)> {
    match d {
        CheckDecl::Class(p) => finding("class"@, p),
        CheckDecl::Namespace(p) => finding("namespace"@, p),
        CheckDecl::TypeAlias(p) => finding("type alias (body)"@, p),
        CheckDecl::Using(p) => finding("using declaration"@, p),
        CheckDecl::Fn { is_async, is_generator, at } => (if is_async {
            finding("async/await"@, at)
        } else {
            Seq::empty()
        }) + (if is_generator {
            finding("generator"@, at)
        } else {
            Seq::empty()
        }),
        _ => Seq::empty(),
    }
}

/// The findings of a statement, in source order.
pub open spec fn stmt_findings(s: CheckStmt) -> Seq<(Seq<char>, usize, usize)>
    decreases s,
{
    match s {
        CheckStmt::Block(v) => stmts_findings(v@),
        CheckStmt::Decl(d) => decl_findings(d),
        CheckStmt::If { cons, alt } => stmt_findings(*cons) + match alt {
            Some(a) => stmt_findings(*a),
            None => Seq::empty(),
        },
        CheckStmt::While(b) => stmt_findings(*b),
        CheckStmt::DoWhile(b) => stmt_findings(*b),
        CheckStmt::For(b) => stmt_findings(*b),
        CheckStmt::Switch(cases) => cases_findings(cases@),
        CheckStmt::Try { block, handler, finalizer } => stmts_findings(block@) + match handler {
            Some(h) => stmts_findings(h@),
            None => Seq::empty(),
        } + match finalizer {
            Some(f) => stmts_findings(f@),
            None => Seq::empty(),
        },
        CheckStmt::With(p) => finding("with statement"@, p),
        CheckStmt::Labeled(p) => finding("labeled statement"@, p),
        _ => Seq::empty(),
    }
}

/// The findings of a list of statements.
pub open spec fn stmts_findings(v: Seq<CheckStmt>) -> Seq<(Seq<char>, usize, usize)>
    decreases v,
{
    if v.len() == 0 {
        Seq::empty()
    } else {
        stmts_findings(v.subrange(0, v.len() - 1)) + stmt_findings(v[v.len() - 1])
    }
}

/// The findings of the cases of a `switch`.
pub open spec fn cases_findings(v: Seq<Vec<CheckStmt>>) -> Seq<(Seq<char>, usize, usize)>
    decreases v,
{
    if v.len() == 0 {
        Seq::empty()
    } else {
        cases_findings(v.subrange(0, v.len() - 1)) + stmts_findings(v[v.len() - 1]@)
    }
}

/// The findings of a module item.
pub open spec fn item_findings(it: CheckItem) -> Seq<(Seq<char>, usize, usize)> {
    match it {
        CheckItem::Stmt(s) => stmt_findings(s),
        CheckItem::DefaultClass(p) => finding("class"@, p),
        CheckItem::OtherModuleDecl => Seq::empty(),
    }
}

/// The findings of a module.
pub open spec fn module_findings(items: Seq<CheckItem>) -> Seq<(Seq<char>, usize, usize)>
    decreases items.len(),
{
    if items.len() == 0 {
        Seq::empty()
    } else {
        module_findings(items.drop_last()) + item_findings(items.last())
    }
}

/// The mathematical form of a list of findings.
pub open spec fn findings_view(v: Seq<UnsupportedSyntax>) -> Seq<(Seq<char>, usize, usize)> {
    v.map_values(|u: UnsupportedSyntax| (u.name@, u.line, u.col))
}

fn report(out: &mut Vec<UnsupportedSyntax>, name: &str, p: Pos)
    ensures
        findings_view(final(out)@) == findings_view(old(out)@) + finding(name@, p),
{
    out.push(UnsupportedSyntax { name: crate::text::owned(name), line: p.line, col: p.col });
    assert(findings_view(out@) =~= findings_view(old(out)@) + finding(name@, p));
}

fn check_decl(d: &CheckDecl, out: &mut Vec<UnsupportedSyntax>)
    ensures
        findings_view(final(out)@) == findings_view(old(out)@) + decl_findings(*d),
{
    match d {
        CheckDecl::Class(p) => report(out, "class", *p),
        CheckDecl::Namespace(p) => report(out, "namespace", *p),
        CheckDecl::TypeAlias(p) => report(out, "type alias (body)", *p),
        CheckDecl::Using(p) => report(out, "using declaration", *p),
        CheckDecl::Fn { is_async, is_generator, at } => {
            let ghost start = findings_view(out@);
            if *is_async {
                report(out, "async/await", *at);
            }
            if *is_generator {
                report(out, "generator", *at);
            }
            assert(findings_view(out@) =~= start + decl_findings(*d));
        },
        _ => {
            assert(findings_view(out@) =~= findings_view(old(out)@) + decl_findings(*d));
        },
    }
}

fn check_stmt(s: &CheckStmt, out: &mut Vec<UnsupportedSyntax>)
    ensures
        findings_view(final(out)@) == findings_view(old(out)@) + stmt_findings(*s),
    decreases s,
{
    let ghost start = findings_view(out@);
    match s {
        CheckStmt::Block(v) => check_stmts(v, out),
        CheckStmt::Decl(d) => check_decl(d, out),
        CheckStmt::If { cons, alt } => {
            check_stmt(cons, out);
            match alt {
                Some(a) => check_stmt(a, out),
                None => {},
            }
        },
        CheckStmt::While(b) => check_stmt(b, out),
        CheckStmt::DoWhile(b) => check_stmt(b, out),
        CheckStmt::For(b) => check_stmt(b, out),
        CheckStmt::Switch(cases) => check_cases(cases, out),
        CheckStmt::Try { block, handler, finalizer } => {
            check_stmts(block, out);
            match handler {
                Some(h) => check_stmts(h, out),
                None => {},
            }
            match finalizer {
                Some(f) => check_stmts(f, out),
                None => {},
            }
        },
        CheckStmt::With(p) => report(out, "with statement", *p),
        CheckStmt::Labeled(p) => report(out, "labeled statement", *p),
        _ => {},
    }
    assert(findings_view(out@) =~= start + stmt_findings(*s));
}

fn check_cases(cases: &Vec<Vec<CheckStmt>>, out: &mut Vec<UnsupportedSyntax>)
    ensures
        findings_view(final(out)@) == findings_view(old(out)@) + cases_findings(cases@),
    decreases cases,
{
    let ghost start = findings_view(out@);
    let mut i: usize = 0;
    assert(cases_findings(cases@.take(0)) =~= Seq::empty());
    while i < cases.len()
        invariant
            i <= cases@.len(),
            findings_view(out@) == start + cases_findings(cases@.take(i as int)),
        decreases cases@.len() - i,
    {
        check_stmts(&cases[i], out);
        proof {
            let next = cases@.take(i + 1);
            assert(next.subrange(0, next.len() - 1) =~= cases@.take(i as int));
            assert(next[next.len() - 1] == cases@[i as int]);
        }
        i = i + 1;
    }
    assert(cases@.take(i as int) =~= cases@);
}

fn check_stmts(v: &Vec<CheckStmt>, out: &mut Vec<UnsupportedSyntax>)
    ensures
        findings_view(final(out)@) == findings_view(old(out)@) + stmts_findings(v@),
    decreases v,
{
    let ghost start = findings_view(out@);
    let mut i: usize = 0;
    assert(stmts_findings(v@.take(0)) =~= Seq::empty());
    while i < v.len()
        invariant
            i <= v@.len(),
            findings_view(out@) == start + stmts_findings(v@.take(i as int)),
        decreases v@.len() - i,
    {
        check_stmt(&v[i], out);
        proof {
            let next = v@.take(i + 1);
            assert(next.subrange(0, next.len() - 1) =~= v@.take(i as int));
            assert(next[next.len() - 1] == v@[i as int]);
        }
        i = i + 1;
    }
    assert(v@.take(i as int) =~= v@);
}

/// The forms of a module that the compiler does not handle, in source
/// order: classes (also `export default class`), `async` and generator
/// function declarations, namespaces, type aliases,
/// `using` declarations, `with` and labeled statements, found in the
/// module's statements and, nested, in blocks, `if` branches, `while`,
/// `do` and `for` bodies, `switch` cases and `try` parts.
pub fn check_items(items: &Vec<CheckItem>) -> (r: Vec<UnsupportedSyntax>)
    ensures
        findings_view(r@) == module_findings(items@),
{
    let mut out: Vec<UnsupportedSyntax> = Vec::new();
    let mut i: usize = 0;
    assert(findings_view(out@) =~= Seq::empty());
    while i < items.len()
        invariant
            i <= items@.len(),
            findings_view(out@) == module_findings(items@.take(i as int)),
        decreases items@.len() - i,
    {
        proof {
            assert(items@.take(i + 1).drop_last() =~= items@.take(i as int));
        }
        match &items[i] {
            CheckItem::Stmt(s) => check_stmt(s, &mut out),
            CheckItem::DefaultClass(p) => report(&mut out, "class", *p),
            CheckItem::OtherModuleDecl => {
                assert(findings_view(out@) =~= findings_view(out@) + Seq::empty());
            },
        }
        i = i + 1;
    }
    assert(items@.take(i as int) =~= items@);
    out
}

/// Every finding of `a` is also a finding of `b`.
pub open spec fn reported_within(
    a: Seq<(Seq<char>, usize, usize)>,
    b: Seq<(Seq<char>, usize, usize)>,
) -> bool {
    forall|i: int| 0 <= i < a.len() ==> b.contains(#[trigger] a[i])
}

proof fn lemma_within_concat(
    a: Seq<(Seq<char>, usize, usize)>,
    b: Seq<(Seq<char>, usize, usize)>,
    c: Seq<(Seq<char>, usize, usize)>,
)
    ensures
        reported_within(a, b) ==> reported_within(a, b + c),
        reported_within(a, c) ==> reported_within(a, b + c),
        reported_within(a, a),
{
    assert forall|i: int| 0 <= i < a.len() && reported_within(a, b) implies (b + c).contains(
        #[trigger] a[i],
    ) by {
        let j = choose|j: int| 0 <= j < b.len() && b[j] == a[i];
        assert((b + c)[j] == a[i]);
    }
    assert forall|i: int| 0 <= i < a.len() && reported_within(a, c) implies (b + c).contains(
        #[trigger] a[i],
    ) by {
        let j = choose|j: int| 0 <= j < c.len() && c[j] == a[i];
        assert((b + c)[b.len() + j] == a[i]);
    }
    assert forall|i: int| 0 <= i < a.len() implies a.contains(#[trigger] a[i]) by {
        assert(a[i] == a[i]);
    }
}

proof fn lemma_stmts_within(v: Seq<CheckStmt>, k: int)
    requires
        0 <= k < v.len(),
    ensures
        reported_within(stmt_findings(v[k]), stmts_findings(v)),
    decreases v.len(),
{
    let init = v.subrange(0, v.len() - 1);
    let last = stmt_findings(v[v.len() - 1]);
    assert(stmts_findings(v) == stmts_findings(init) + last);
    if k == v.len() - 1 {
        lemma_within_concat(last, stmts_findings(init), last);
    } else {
        lemma_stmts_within(init, k);
        assert(init[k] == v[k]);
        lemma_within_concat(stmt_findings(v[k]), stmts_findings(init), last);
    }
}

proof fn lemma_within_trans(
    a: Seq<(Seq<char>, usize, usize)>,
    b: Seq<(Seq<char>, usize, usize)>,
    c: Seq<(Seq<char>, usize, usize)>,
)
    requires
        reported_within(a, b),
        reported_within(b, c),
    ensures
        reported_within(a, c),
{
    assert forall|i: int| 0 <= i < a.len() implies c.contains(#[trigger] a[i]) by {
        let j = choose|j: int| 0 <= j < b.len() && b[j] == a[i];
        assert(c.contains(b[j]));
    }
}

proof fn lemma_cases_within(cases: Seq<Vec<CheckStmt>>, c: int, k: int)
    requires
        0 <= c < cases.len(),
        0 <= k < cases[c]@.len(),
    ensures
        reported_within(stmt_findings(cases[c]@[k]), cases_findings(cases)),
    decreases cases.len(),
{
    let init = cases.subrange(0, cases.len() - 1);
    let last = stmts_findings(cases[cases.len() - 1]@);
    assert(cases_findings(cases) == cases_findings(init) + last);
    lemma_stmts_within(cases[c]@, k);
    if c == cases.len() - 1 {
        lemma_within_concat(last, cases_findings(init), last);
        lemma_within_trans(stmt_findings(cases[c]@[k]), last, cases_findings(cases));
    } else {
        lemma_cases_within(init, c, k);
        assert(init[c] == cases[c]);
        lemma_within_concat(stmt_findings(cases[c]@[k]), cases_findings(init), last);
    }
}

/// Nothing nested is missed: every finding inside the body of a loop
/// (`while`, `do ... while`, `for`), a branch of an `if`, a statement of a
/// block, of a `try` block, handler or `finally` block, or of a `switch`
/// case is a finding of the statement that encloses it.
pub proof fn law_nested_findings_reported(
    body: Box<CheckStmt>,
    alt: Option<Box<CheckStmt>>,
    v: Vec<CheckStmt>,
    handler: Option<Vec<CheckStmt>>,
    finalizer: Option<Vec<CheckStmt>>,
    cases: Vec<Vec<CheckStmt>>,
)
    ensures
        reported_within(stmt_findings(*body), stmt_findings(CheckStmt::While(body))),
        reported_within(stmt_findings(*body), stmt_findings(CheckStmt::DoWhile(body))),
        reported_within(stmt_findings(*body), stmt_findings(CheckStmt::For(body))),
        reported_within(stmt_findings(*body), stmt_findings(CheckStmt::If { cons: body, alt })),
        alt matches Some(a) ==> reported_within(
            stmt_findings(*a),
            stmt_findings(CheckStmt::If { cons: body, alt }),
        ),
        forall|k: int|
            0 <= k < v@.len() ==> reported_within(
                #[trigger] stmt_findings(v@[k]),
                stmt_findings(CheckStmt::Block(v)),
            ),
        forall|k: int|
            0 <= k < v@.len() ==> reported_within(
                #[trigger] stmt_findings(v@[k]),
                stmt_findings(CheckStmt::Try { block: v, handler, finalizer }),
            ),
        handler matches Some(h) ==> forall|k: int|
            0 <= k < h@.len() ==> reported_within(
                #[trigger] stmt_findings(h@[k]),
                stmt_findings(CheckStmt::Try { block: v, handler, finalizer }),
            ),
        finalizer matches Some(f) ==> forall|k: int|
            0 <= k < f@.len() ==> reported_within(
                #[trigger] stmt_findings(f@[k]),
                stmt_findings(CheckStmt::Try { block: v, handler, finalizer }),
            ),
        forall|c: int, k: int|
            0 <= c < cases@.len() && 0 <= k < cases@[c]@.len() ==> reported_within(
                #[trigger] stmt_findings(cases@[c]@[k]),
                stmt_findings(CheckStmt::Switch(cases)),
            ),
{
    let b = stmt_findings(*body);
    lemma_within_concat(b, b, b);
    let alt_f = match alt {
        Some(a) => stmt_findings(*a),
        None => Seq::empty(),
    };
    lemma_within_concat(b, b, alt_f);
    lemma_within_concat(alt_f, b, alt_f);
    let tb = stmts_findings(v@);
    let th = match handler {
        Some(h) => stmts_findings(h@),
        None => Seq::empty(),
    };
    let tf = match finalizer {
        Some(f) => stmts_findings(f@),
        None => Seq::empty(),
    };
    let t = stmt_findings(CheckStmt::Try { block: v, handler, finalizer });
    assert(t == tb + th + tf);
    assert forall|k: int| 0 <= k < v@.len() implies reported_within(
        #[trigger] stmt_findings(v@[k]),
        stmt_findings(CheckStmt::Block(v)),
    ) && reported_within(stmt_findings(v@[k]), t) by {
        lemma_stmts_within(v@, k);
        lemma_within_concat(stmt_findings(v@[k]), tb, th);
        lemma_within_concat(stmt_findings(v@[k]), tb + th, tf);
    }
    if handler is Some {
        let h = handler->0;
        assert forall|k: int| 0 <= k < h@.len() implies reported_within(
            #[trigger] stmt_findings(h@[k]),
            t,
        ) by {
            lemma_stmts_within(h@, k);
            lemma_within_concat(stmt_findings(h@[k]), tb, th);
            lemma_within_concat(stmt_findings(h@[k]), tb + th, tf);
        }
    }
    if finalizer is Some {
        let f = finalizer->0;
        assert forall|k: int| 0 <= k < f@.len() implies reported_within(
            #[trigger] stmt_findings(f@[k]),
            t,
        ) by {
            lemma_stmts_within(f@, k);
            lemma_within_concat(stmt_findings(f@[k]), tb + th, tf);
        }
    }
    assert forall|c: int, k: int| 0 <= c < cases@.len() && 0 <= k < cases@[c]@.len() implies reported_within(
        #[trigger] stmt_findings(cases@[c]@[k]),
        stmt_findings(CheckStmt::Switch(cases)),
    ) by {
        lemma_cases_within(cases@, c, k);
    }
}

/// Each unsupported form is reported under its name at its own line and
/// column: a class (declared or `export default`), a namespace, a type
/// alias, a `using` declaration, a `with` or labeled statement, an `async`
/// function and a generator.
pub proof fn law_forms_reported(p: Pos, is_async: bool, is_generator: bool)
    ensures
        stmt_findings(CheckStmt::Decl(CheckDecl::Class(p))).contains(("class"@, p.line, p.col)),
        item_findings(CheckItem::DefaultClass(p)).contains(("class"@, p.line, p.col)),
        stmt_findings(CheckStmt::Decl(CheckDecl::Namespace(p))).contains(
            ("namespace"@, p.line, p.col),
        ),
        stmt_findings(CheckStmt::Decl(CheckDecl::TypeAlias(p))).contains(
            ("type alias (body)"@, p.line, p.col),
        ),
        stmt_findings(CheckStmt::Decl(CheckDecl::Using(p))).contains(
            ("using declaration"@, p.line, p.col),
        ),
        stmt_findings(CheckStmt::With(p)).contains(("with statement"@, p.line, p.col)),
        stmt_findings(CheckStmt::Labeled(p)).contains(("labeled statement"@, p.line, p.col)),
        is_async ==> stmt_findings(
            CheckStmt::Decl(CheckDecl::Fn { is_async, is_generator, at: p }),
        ).contains(("async/await"@, p.line, p.col)),
        is_generator ==> stmt_findings(
            CheckStmt::Decl(CheckDecl::Fn { is_async, is_generator, at: p }),
        ).contains(("generator"@, p.line, p.col)),
        !is_async && !is_generator ==> stmt_findings(
            CheckStmt::Decl(CheckDecl::Fn { is_async, is_generator, at: p }),
        ).len() == 0,
{
    let f = stmt_findings(CheckStmt::Decl(CheckDecl::Fn { is_async, is_generator, at: p }));
    let a = if is_async { finding("async/await"@, p) } else { Seq::empty() };
    let g = if is_generator { finding("generator"@, p) } else { Seq::empty() };
    assert(f == a + g);
    if is_async {
        assert(f[0] == ("async/await"@, p.line, p.col));
    }
    if is_generator {
        assert(f[a.len() as int] == ("generator"@, p.line, p.col));
    }
    assert(stmt_findings(CheckStmt::Decl(CheckDecl::Class(p)))[0] == ("class"@, p.line, p.col));
    assert(item_findings(CheckItem::DefaultClass(p))[0] == ("class"@, p.line, p.col));
    assert(stmt_findings(CheckStmt::Decl(CheckDecl::Namespace(p)))[0] == ("namespace"@, p.line, p.col));
    assert(stmt_findings(CheckStmt::Decl(CheckDecl::TypeAlias(p)))[0] == (
        "type alias (body)"@,
        p.line,
        p.col,
    ));
    assert(stmt_findings(CheckStmt::Decl(CheckDecl::Using(p)))[0] == (
        "using declaration"@,
        p.line,
        p.col,
    ));
    assert(stmt_findings(CheckStmt::With(p))[0] == ("with statement"@, p.line, p.col));
    assert(stmt_findings(CheckStmt::Labeled(p))[0] == ("labeled statement"@, p.line, p.col));
}

/// Every finding of a module item is a finding of the module.
pub proof fn law_item_findings_reported(items: Seq<CheckItem>, k: int)
    requires
        0 <= k < items.len(),
    ensures
        reported_within(item_findings(items[k]), module_findings(items)),
    decreases items.len(),
{
    let init = items.drop_last();
    let last = item_findings(items.last());
    assert(module_findings(items) == module_findings(init) + last);
    if k == items.len() - 1 {
        lemma_within_concat(last, module_findings(init), last);
    } else {
        law_item_findings_reported(init, k);
        assert(init[k] == items[k]);
        lemma_within_concat(item_findings(items[k]), module_findings(init), last);
    }
}

} // verus!
