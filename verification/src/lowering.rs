use crate::codegen::{HirExpr, FALSE, UNDEFINED};
use crate::text::{chars_of, contains_char, has_prefix, joined, owned, starts_with, str_eq, string_of};
use vstd::prelude::*;

verus! {

broadcast use vstd::std_specs::vec::axiom_vec_decreases_to_view;

/// How the back end lowers one call expression.
pub enum CallPlan {
    /// Call the program's own function, passing `arity` values: the
    /// arguments, then `undefined` for each missing parameter.
    User { arity: usize },
    /// Print each argument, a space between two, then a newline; the value
    /// is `undefined`.
    Print,
    /// Call the runtime import `c_name` with the first `arity` arguments and
    /// take its result; `fallback` where the import cannot be declared.
    Import { c_name: String, arity: usize, fallback: u64 },
    /// Call the runtime import `c_name` with the first `arity` arguments for
    /// its effect; the value is `undefined`.
    ImportVoid { c_name: String, arity: usize },
    /// The value of the first argument, unchanged.
    Passthrough,
    /// 1.0 where the first argument differs from 0.0, else 0.0.
    Truthiness,
    /// A constant; no argument is evaluated.
    Constant(u64),
    /// A call that neither the program, the built-in set nor a plugin
    /// resolves: nothing is called, the value is `undefined`, and a warning
    /// names the callee.
    Unresolved { name: String },
}

/// The mathematical form of a `CallPlan`.
pub ghost enum PlanView {
    User { arity: nat },
    Print,
    Import { c_name: Seq<char>, arity: nat, fallback: u64 },
    ImportVoid { c_name: Seq<char>, arity: nat },
    Passthrough,
    Truthiness,
    Constant(u64),
    Unresolved { name: Seq<char> },
}

impl View for CallPlan {
    type V = PlanView;

    open spec fn view(&self) -> PlanView {
        match self {
            CallPlan::User { arity } => PlanView::User { arity: *arity as nat },
            CallPlan::Print => PlanView::Print,
            CallPlan::Import { c_name, arity, fallback } => PlanView::Import {
                c_name: c_name@,
                arity: *arity as nat,
                fallback: *fallback,
            },
            CallPlan::ImportVoid { c_name, arity } => PlanView::ImportVoid {
                c_name: c_name@,
                arity: *arity as nat,
            },
            CallPlan::Passthrough => PlanView::Passthrough,
            CallPlan::Truthiness => PlanView::Truthiness,
            CallPlan::Constant(v) => PlanView::Constant(*v),
            CallPlan::Unresolved { name } => PlanView::Unresolved { name: name@ },
        }
    }
}

/// The symbol a plugin gives for the TypeScript name `name`, the last
/// entry for it counting.
pub open spec fn external_symbol(ext: Seq<(Seq<char>, Seq<char>)>, name: Seq<char>) -> Option<
    Seq<char>,
>
    decreases ext.len(),
{
    if ext.len() == 0 {
        None
    } else if ext.last().0 == name {
        Some(ext.last().1)
    } else {
        external_symbol(ext.drop_last(), name)
    }
}

/// A call that nothing built in resolves: through a plugin's symbol where
/// one names it, directly where the name is a runtime symbol (`js_...`),
/// else unresolved.
pub open spec fn fallback_plan(name: Seq<char>, nargs: nat, ext: Seq<(Seq<char>, Seq<char>)>) -> PlanView {
    match external_symbol(ext, name) {
        Some(c) => PlanView::Import { c_name: c, arity: nargs, fallback: UNDEFINED },
        None => if has_prefix(name, "js_"@) {
            PlanView::Import { c_name: name, arity: nargs, fallback: UNDEFINED }
        } else {
            PlanView::Unresolved { name }
        },
    }
}

/// A runtime call that needs `arity` arguments: with fewer, the fallback
/// constant takes its place.
pub open spec fn import_plan(c_name: Seq<char>, arity: nat, nargs: nat, fallback: u64) -> PlanView {
    if nargs >= arity {
        PlanView::Import { c_name, arity, fallback }
    } else {
        PlanView::Constant(fallback)
    }
}

/// The six one-argument `Math` functions the runtime provides.
pub open spec fn is_unary_math(name: Seq<char>) -> bool {
    name == "sin"@ || name == "cos"@ || name == "sqrt"@ || name == "abs"@ || name == "floor"@
        || name == "ceil"@
}

/// How a call of the global `name` (not one of the program's functions)
/// with `nargs` arguments is lowered.
pub open spec fn global_call_plan(name: Seq<char>, nargs: nat, ext: Seq<(Seq<char>, Seq<char>)>) -> PlanView {
    if name == "print"@ || name == "console.log"@ {
        PlanView::Print
    } else if name.len() > 5 && name.take(5) == "Math."@ && is_unary_math(name.skip(5)) {
        import_plan("js_math_"@ + name.skip(5), 1, nargs, 0)
    } else if name == "Math.pow"@ {
        import_plan("js_math_pow"@, 2, nargs, 0)
    } else if name == "document.createElement"@ {
        import_plan("js_dom_create_element"@, 1, nargs, 0)
    } else if name == "element.appendChild"@ {
        import_plan("js_dom_append_child"@, 2, nargs, 0)
    } else if name == "element.textContent"@ {
        if nargs >= 2 {
            PlanView::ImportVoid { c_name: "js_dom_set_text_content"@, arity: 2 }
        } else {
            PlanView::Constant(UNDEFINED)
        }
    } else if name == "browser.setHTML"@ {
        if nargs >= 1 {
            PlanView::ImportVoid { c_name: "js_browser_set_html"@, arity: 1 }
        } else {
            PlanView::Constant(UNDEFINED)
        }
    } else if name == "browser.render"@ {
        PlanView::ImportVoid { c_name: "js_browser_render"@, arity: 0 }
    } else if name == "parseInt"@ || name == "parseFloat"@ || name == "Number"@ {
        if nargs >= 1 {
            PlanView::Passthrough
        } else {
            PlanView::Constant(0)
        }
    } else if name == "String"@ {
        if nargs >= 1 {
            PlanView::Passthrough
        } else {
            PlanView::Constant(UNDEFINED)
        }
    } else if name == "Boolean"@ {
        if nargs >= 1 {
            PlanView::Truthiness
        } else {
            PlanView::Constant(FALSE)
        }
    } else {
        fallback_plan(name, nargs, ext)
    }
}

/// The dotted name of a method callee `object.name`, as far as the object
/// is a name or a property of a name.
pub open spec fn callee_full_name(object: HirExpr, name: Seq<char>) -> Seq<char> {
    match object {
        HirExpr::Identifier(o) => o@ + "."@ + name,
        HirExpr::Property { object: inner, name: iname } => match *inner {
            HirExpr::Identifier(o) => o@ + "."@ + iname@ + "."@ + name,
            _ => iname@ + "."@ + name,
        },
        _ => name,
    }
}

/// How a call of the method `name` on a receiver whose dotted name is
/// `full` is lowered.
pub open spec fn method_call_plan(
    full: Seq<char>,
    name: Seq<char>,
    nargs: nat,
    ext: Seq<(Seq<char>, Seq<char>)>,
) -> PlanView {
    if full == "console.log"@ || full == "console.error"@ || full == "console.warn"@ {
        PlanView::Print
    } else if full == "Math."@ + name && is_unary_math(name) {
        import_plan("js_math_"@ + name, 1, nargs, 0)
    } else if full == "Math.pow"@ {
        import_plan("js_math_pow"@, 2, nargs, 0)
    } else if full == "Math.random"@ {
        PlanView::Import { c_name: "js_math_random"@, arity: 0, fallback: 0 }
    } else if full == "Date.now"@ {
        PlanView::Import { c_name: "js_date_now"@, arity: 0, fallback: 0 }
    } else if full == "JSON.stringify"@ {
        import_plan("js_json_stringify"@, 1, nargs, UNDEFINED)
    } else if full == "JSON.parse"@ {
        import_plan("js_json_parse"@, 1, nargs, UNDEFINED)
    } else if full == "Object.keys"@ {
        import_plan("js_object_keys"@, 1, nargs, UNDEFINED)
    } else if full == "Object.values"@ {
        import_plan("js_object_values"@, 1, nargs, UNDEFINED)
    } else if full == "Object.assign"@ {
        import_plan("js_object_assign"@, 2, nargs, UNDEFINED)
    } else if full == "Array.isArray"@ {
        import_plan("js_array_is_array"@, 1, nargs, FALSE)
    } else {
        fallback_plan(full, nargs, ext)
    }
}

/// The parameter count under which `name` was declared last among the
/// program's function signatures, if it was.
pub open spec fn declared_arity(sigs: Seq<(Seq<char>, nat)>, name: Seq<char>) -> Option<nat>
    decreases sigs.len(),
{
    if sigs.len() == 0 {
        None
    } else if sigs.last().0 == name {
        Some(sigs.last().1)
    } else {
        declared_arity(sigs.drop_last(), name)
    }
}

/// The mathematical form of a list of signatures.
pub open spec fn sigs_view(sigs: Seq<(String, usize)>) -> Seq<(Seq<char>, nat)> {
    sigs.map_values(|p: (String, usize)| (p.0@, p.1 as nat))
}

/// How a call of `callee` with `nargs` arguments is lowered, given the
/// signatures of the program's functions.
pub open spec fn call_plan(callee: HirExpr, nargs: nat, table: TableView) -> PlanView {
    match callee {
        HirExpr::Identifier(n) => match declared_arity(table.functions, n@) {
            Some(k) => PlanView::User { arity: if k > nargs { k } else { nargs } },
            None => global_call_plan(n@, nargs, table.externals),
        },
        HirExpr::Property { object, name } => method_call_plan(
            callee_full_name(*object, name@),
            name@,
            nargs,
            table.externals,
        ),
        _ => PlanView::Constant(UNDEFINED),
    }
}

/// What the back end resolves calls against: the signatures of the
/// program's functions (see `function_signatures`) and the plugins' map
/// from TypeScript names to runtime symbols.
pub struct CallTable {
    pub functions: Vec<(String, usize)>,
    pub externals: Vec<(String, String)>,
}

/// The mathematical form of a `CallTable`.
pub ghost struct TableView {
    pub functions: Seq<(Seq<char>, nat)>,
    pub externals: Seq<(Seq<char>, Seq<char>)>,
}

/// The mathematical form of a list of name pairs.
pub open spec fn pairs_view(v: Seq<(String, String)>) -> Seq<(Seq<char>, Seq<char>)> {
    v.map_values(|p: (String, String)| (p.0@, p.1@))
}

impl View for CallTable {
    type V = TableView;

    open spec fn view(&self) -> TableView {
        TableView { functions: sigs_view(self.functions@), externals: pairs_view(self.externals@) }
    }
}

/// The symbol a plugin gives for `name`, the last entry counting.
pub fn lookup_external(ext: &Vec<(String, String)>, name: &str) -> (r: Option<String>)
    ensures
        match r {
            Some(c) => external_symbol(pairs_view(ext@), name@) == Some(c@),
            None => external_symbol(pairs_view(ext@), name@) is None,
        },
{
    let mut i: usize = ext.len();
    assert(ext@.take(i as int) =~= ext@);
    while i > 0
        invariant
            i <= ext@.len(),
            external_symbol(pairs_view(ext@), name@) == external_symbol(
                pairs_view(ext@.take(i as int)),
                name@,
            ),
        decreases i,
    {
        proof {
            assert(pairs_view(ext@.take(i as int)).drop_last() =~= pairs_view(ext@.take(i - 1)));
        }
        if str_eq(ext[i - 1].0.as_str(), name) {
            return Some(ext[i - 1].1.clone());
        }
        i = i - 1;
    }
    None
}

/// The plan for a call nothing built in resolves.
fn plan_fallback(name: &str, nargs: usize, ext: &Vec<(String, String)>) -> (r: CallPlan)
    ensures
        r@ == fallback_plan(name@, nargs as nat, pairs_view(ext@)),
{
    match lookup_external(ext, name) {
        Some(c) => CallPlan::Import { c_name: c, arity: nargs, fallback: UNDEFINED },
        None => if starts_with(name, "js_") {
            CallPlan::Import { c_name: owned(name), arity: nargs, fallback: UNDEFINED }
        } else {
            CallPlan::Unresolved { name: owned(name) }
        },
    }
}

/// The name and parameter count of each function of a program, in order.
pub open spec fn signatures(program: Seq<HirExpr>) -> Seq<(Seq<char>, nat)>
    decreases program.len(),
{
    if program.len() == 0 {
        Seq::empty()
    } else {
        let rest = signatures(program.drop_last());
        match program.last() {
            HirExpr::Function { name, params, .. } => rest.push((name@, params@.len())),
            _ => rest,
        }
    }
}

/// The signatures of the functions of a program, in order: the first pass
/// of the back end, which declares each of them.
pub fn function_signatures(program: &Vec<HirExpr>) -> (r: Vec<(String, usize)>)
    ensures
        sigs_view(r@) == signatures(program@),
{
    let mut out: Vec<(String, usize)> = Vec::new();
    let mut i: usize = 0;
    while i < program.len()
        invariant
            i <= program@.len(),
            sigs_view(out@) == signatures(program@.take(i as int)),
        decreases program@.len() - i,
    {
        proof {
            assert(program@.take(i + 1).drop_last() =~= program@.take(i as int));
        }
        match &program[i] {
            HirExpr::Function { name, params, .. } => {
                out.push((name.clone(), params.len()));
            },
            _ => {},
        }
        i = i + 1;
        assert(sigs_view(out@) =~= signatures(program@.take(i as int)));
    }
    assert(program@.take(i as int) =~= program@);
    out
}

/// The parameter count of the function last declared as `name`.
pub fn lookup_arity(sigs: &Vec<(String, usize)>, name: &str) -> (r: Option<usize>)
    ensures
        match r {
            Some(k) => declared_arity(sigs_view(sigs@), name@) == Some(k as nat),
            None => declared_arity(sigs_view(sigs@), name@) is None,
        },
{
    let mut i: usize = sigs.len();
    assert(sigs@.take(i as int) =~= sigs@);
    while i > 0
        invariant
            i <= sigs@.len(),
            declared_arity(sigs_view(sigs@), name@) == declared_arity(
                sigs_view(sigs@.take(i as int)),
                name@,
            ),
        decreases i,
    {
        proof {
            assert(sigs_view(sigs@.take(i as int)).drop_last() =~= sigs_view(
                sigs@.take(i - 1),
            ));
        }
        if str_eq(sigs[i - 1].0.as_str(), name) {
            return Some(sigs[i - 1].1);
        }
        i = i - 1;
    }
    None
}

fn import_or(c_name: &str, arity: usize, nargs: usize, fallback: u64) -> (r: CallPlan)
    ensures
        r@ == import_plan(c_name@, arity as nat, nargs as nat, fallback),
{
    if nargs >= arity {
        CallPlan::Import { c_name: owned(c_name), arity, fallback }
    } else {
        CallPlan::Constant(fallback)
    }
}

fn unary_math(name: &str) -> (r: bool)
    ensures
        r == is_unary_math(name@),
{
    str_eq(name, "sin") || str_eq(name, "cos") || str_eq(name, "sqrt") || str_eq(name, "abs")
        || str_eq(name, "floor") || str_eq(name, "ceil")
}

/// The characters of `s` from position `start` on.
fn suffix_from(s: &str, start: usize) -> (r: String)
    requires
        start <= s@.len(),
    ensures
        r@ == s@.skip(start as int),
{
    let cs = chars_of(s);
    let mut out: Vec<char> = Vec::new();
    let mut i: usize = start;
    while i < cs.len()
        invariant
            start <= i <= cs@.len(),
            cs@ == s@,
            out@ == cs@.subrange(start as int, i as int),
        decreases cs@.len() - i,
    {
        out.push(cs[i]);
        i = i + 1;
        assert(out@ =~= cs@.subrange(start as int, i as int));
    }
    assert(cs@.subrange(start as int, i as int) =~= s@.skip(start as int));
    string_of(&out)
}

/// How a call of the global `name` with `nargs` arguments is lowered.
pub fn plan_global_call(name: &str, nargs: usize, ext: &Vec<(String, String)>) -> (r: CallPlan)
    ensures
        r@ == global_call_plan(name@, nargs as nat, pairs_view(ext@)),
{
    proof {
        reveal_strlit("print");
        reveal_strlit("console.log");
        reveal_strlit("Math.");
        reveal_strlit("Math.pow");
        reveal_strlit("js_math_");
    }
    if str_eq(name, "print") || str_eq(name, "console.log") {
        return CallPlan::Print;
    }
    let cs = chars_of(name);
    if cs.len() > 5 && starts_with(name, "Math.") {
        let tail = suffix_from(name, 5);
        if unary_math(tail.as_str()) {
            let c_name = joined("js_math_", tail.as_str());
            return import_or(c_name.as_str(), 1, nargs, 0);
        }
    }
    if str_eq(name, "Math.pow") {
        import_or("js_math_pow", 2, nargs, 0)
    } else if str_eq(name, "document.createElement") {
        import_or("js_dom_create_element", 1, nargs, 0)
    } else if str_eq(name, "element.appendChild") {
        import_or("js_dom_append_child", 2, nargs, 0)
    } else if str_eq(name, "element.textContent") {
        if nargs >= 2 {
            CallPlan::ImportVoid { c_name: owned("js_dom_set_text_content"), arity: 2 }
        } else {
            CallPlan::Constant(UNDEFINED)
        }
    } else if str_eq(name, "browser.setHTML") {
        if nargs >= 1 {
            CallPlan::ImportVoid { c_name: owned("js_browser_set_html"), arity: 1 }
        } else {
            CallPlan::Constant(UNDEFINED)
        }
    } else if str_eq(name, "browser.render") {
        CallPlan::ImportVoid { c_name: owned("js_browser_render"), arity: 0 }
    } else if str_eq(name, "parseInt") || str_eq(name, "parseFloat") || str_eq(name, "Number") {
        if nargs >= 1 {
            CallPlan::Passthrough
        } else {
            CallPlan::Constant(0)
        }
    } else if str_eq(name, "String") {
        if nargs >= 1 {
            CallPlan::Passthrough
        } else {
            CallPlan::Constant(UNDEFINED)
        }
    } else if str_eq(name, "Boolean") {
        if nargs >= 1 {
            CallPlan::Truthiness
        } else {
            CallPlan::Constant(FALSE)
        }
    } else {
        plan_fallback(name, nargs, ext)
    }
}

/// The dotted name of the method callee `object.name`.
pub fn full_callee_name(object: &HirExpr, name: &str) -> (r: String)
    ensures
        r@ == callee_full_name(*object, name@),
{
    match object {
        HirExpr::Identifier(o) => {
            let a = joined(o.as_str(), ".");
            joined(a.as_str(), name)
        },
        HirExpr::Property { object: inner, name: iname } => match &**inner {
            HirExpr::Identifier(o) => {
                let a = joined(o.as_str(), ".");
                let b = joined(a.as_str(), iname.as_str());
                let c = joined(b.as_str(), ".");
                joined(c.as_str(), name)
            },
            _ => {
                let a = joined(iname.as_str(), ".");
                joined(a.as_str(), name)
            },
        },
        _ => owned(name),
    }
}

/// How a call of the method `name` on a receiver with dotted name `full`
/// is lowered.
pub fn plan_method_call(full: &str, name: &str, nargs: usize, ext: &Vec<(String, String)>) -> (r: CallPlan)
    ensures
        r@ == method_call_plan(full@, name@, nargs as nat, pairs_view(ext@)),
{
    proof {
        reveal_strlit("Math.");
        reveal_strlit("js_math_");
    }
    if str_eq(full, "console.log") || str_eq(full, "console.error") || str_eq(full, "console.warn") {
        return CallPlan::Print;
    }
    let math_name = joined("Math.", name);
    if str_eq(full, math_name.as_str()) && unary_math(name) {
        let c_name = joined("js_math_", name);
        return import_or(c_name.as_str(), 1, nargs, 0);
    }
    if str_eq(full, "Math.pow") {
        import_or("js_math_pow", 2, nargs, 0)
    } else if str_eq(full, "Math.random") {
        CallPlan::Import { c_name: owned("js_math_random"), arity: 0, fallback: 0 }
    } else if str_eq(full, "Date.now") {
        CallPlan::Import { c_name: owned("js_date_now"), arity: 0, fallback: 0 }
    } else if str_eq(full, "JSON.stringify") {
        import_or("js_json_stringify", 1, nargs, UNDEFINED)
    } else if str_eq(full, "JSON.parse") {
        import_or("js_json_parse", 1, nargs, UNDEFINED)
    } else if str_eq(full, "Object.keys") {
        import_or("js_object_keys", 1, nargs, UNDEFINED)
    } else if str_eq(full, "Object.values") {
        import_or("js_object_values", 1, nargs, UNDEFINED)
    } else if str_eq(full, "Object.assign") {
        import_or("js_object_assign", 2, nargs, UNDEFINED)
    } else if str_eq(full, "Array.isArray") {
        import_or("js_array_is_array", 1, nargs, FALSE)
    } else {
        plan_fallback(full, nargs, ext)
    }
}

/// How a call of `callee` with `nargs` arguments is lowered, given the
/// signatures of the program's functions (see `function_signatures`).
pub fn plan_call(callee: &HirExpr, nargs: usize, table: &CallTable) -> (r: CallPlan)
    ensures
        r@ == call_plan(*callee, nargs as nat, table@),
{
    match callee {
        HirExpr::Identifier(n) => match lookup_arity(&table.functions, n.as_str()) {
            Some(k) => CallPlan::User {
                arity: if k > nargs {
                    k
                } else {
                    nargs
                },
            },
            None => plan_global_call(n.as_str(), nargs, &table.externals),
        },
        HirExpr::Property { object, name } => {
            let full = full_callee_name(object, name.as_str());
            plan_method_call(full.as_str(), name.as_str(), nargs, &table.externals)
        },
        _ => CallPlan::Constant(UNDEFINED),
    }
}

/// Whether lowering the statement `e` ends the current path (a `return`,
/// `throw`, `break` or `continue` on every way through it), so that nothing after it in the
/// same body is emitted.
pub open spec fn terminates(e: HirExpr) -> bool
    decreases e,
{
    match e {
        HirExpr::Return(_) => true,
        HirExpr::Throw(_) => true,
        HirExpr::Break => true,
        HirExpr::Continue => true,
        HirExpr::If { then_body, else_body, .. } => any_terminates(then_body@) && match else_body {
            Some(b) => any_terminates(b@),
            None => false,
        },
        HirExpr::Block(v) => any_terminates(v@),
        HirExpr::TryCatch { try_body, .. } => any_terminates(try_body@),
        HirExpr::ExprStmt(inner) => match *inner {
            HirExpr::Assign { .. } | HirExpr::Var { .. } | HirExpr::Return(_) | HirExpr::Break
            | HirExpr::Continue | HirExpr::Throw(_) => terminates(*inner),
            _ => false,
        },
        _ => false,
    }
}

/// Some statement of `s` ends the path.
pub open spec fn any_terminates(s: Seq<HirExpr>) -> bool
    decreases s,
{
    if s.len() == 0 {
        false
    } else {
        any_terminates(s.subrange(0, s.len() - 1)) || terminates(s[s.len() - 1])
    }
}

/// `any_terminates` holds exactly when some element ends the path.
pub proof fn lemma_any_terminates(s: Seq<HirExpr>)
    ensures
        any_terminates(s) <==> exists|i: int| 0 <= i < s.len() && #[trigger] terminates(s[i]),
    decreases s.len(),
{
    if s.len() > 0 {
        let p = s.subrange(0, s.len() - 1);
        assert(any_terminates(s) == (any_terminates(p) || terminates(s[s.len() - 1])));
        lemma_any_terminates(p);
        if any_terminates(p) {
            let i = choose|i: int| 0 <= i < p.len() && #[trigger] terminates(p[i]);
            assert(s[i] == p[i]);
        }
        if exists|i: int| 0 <= i < s.len() && #[trigger] terminates(s[i]) {
            let i = choose|i: int| 0 <= i < s.len() && #[trigger] terminates(s[i]);
            if i < s.len() - 1 {
                assert(p[i] == s[i]);
            }
        }
    }
}

/// Whether the statement `e` ends the path.
pub fn stmt_terminates(e: &HirExpr) -> (r: bool)
    ensures
        r == terminates(*e),
    decreases e,
{
    match e {
        HirExpr::Return(_) => true,
        HirExpr::Throw(_) => true,
        HirExpr::Break => true,
        HirExpr::Continue => true,
        HirExpr::If { then_body, else_body, .. } => {
            let t = list_terminates(then_body);
            let f = match else_body {
                Some(b) => list_terminates(b),
                None => false,
            };
            t && f
        },
        HirExpr::Block(v) => list_terminates(v),
        HirExpr::TryCatch { try_body, .. } => list_terminates(try_body),
        HirExpr::ExprStmt(inner) => match &**inner {
            HirExpr::Assign { .. } | HirExpr::Var { .. } | HirExpr::Return(_) | HirExpr::Break
            | HirExpr::Continue | HirExpr::Throw(_) => stmt_terminates(inner),
            _ => false,
        },
        _ => false,
    }
}

/// Whether some statement of `v` ends the path.
pub fn list_terminates(v: &Vec<HirExpr>) -> (r: bool)
    ensures
        r == any_terminates(v@),
    decreases v,
{
    let mut i: usize = 0;
    while i < v.len()
        invariant
            i <= v@.len(),
            forall|k: int| 0 <= k < i ==> !#[trigger] terminates(v@[k]),
        decreases v@.len() - i,
    {
        if stmt_terminates(&v[i]) {
            proof {
                lemma_any_terminates(v@);
            }
            assert(terminates(v@[i as int]));
            return true;
        }
        i = i + 1;
    }
    proof {
        lemma_any_terminates(v@);
    }
    false
}

/// How a property read is lowered: `length` through its own runtime call,
/// any other name through the object lookup with the name's boxed key.
pub enum PropertyRead {
    Length,
    Keyed(u64),
}

/// How reading the property `name` is lowered.
pub fn plan_property_read(name: &str) -> (r: PropertyRead)
    ensures
        name@ == "length"@ ==> r is Length,
        name@ != "length"@ ==> r == PropertyRead::Keyed(crate::codegen::spec_property_key(name)),
{
    if str_eq(name, "length") {
        PropertyRead::Length
    } else {
        PropertyRead::Keyed(crate::codegen::property_key(name))
    }
}

/// The value an array literal of `len` elements stands for where the
/// runtime's array constructor cannot be declared: the array tag with the
/// low 48 bits of the length.
pub fn array_placeholder(len: usize) -> (r: u64)
    ensures
        r == (crate::codegen::ARRAY_TAG | (len as u64 & 0x0000_FFFF_FFFF_FFFF)),
{
    crate::codegen::ARRAY_TAG | (len as u64 & 0x0000_FFFF_FFFF_FFFF)
}

} // verus!
