use crate::codegen::HirExpr;
use crate::hir::{names_view, BinOp, UnaryOp};
use crate::ir::SpecIr;
use vstd::prelude::*;

verus! {

// Constructors of the back end's IR, each stating the mathematical form of
// what it builds in terms of the forms of its parts.

/// The mathematical form of an optional expression.
pub open spec fn opt_ir(o: Option<HirExpr>) -> Option<SpecIr> {
    match o {
        Some(x) => Some(x.view()),
        None => None,
    }
}

/// The mathematical form of an optional name.
pub open spec fn opt_text(o: Option<String>) -> Option<Seq<char>> {
    match o {
        Some(x) => Some(x@),
        None => None,
    }
}

/// An optional form, boxed.
pub open spec fn box_opt(o: Option<SpecIr>) -> Option<Box<SpecIr>> {
    match o {
        Some(x) => Some(Box::new(x)),
        None => None,
    }
}

/// The mathematical form of an optional list of expressions.
pub open spec fn opt_list(o: Option<Vec<HirExpr>>) -> Option<Seq<SpecIr>> {
    match o {
        Some(v) => Some(HirExpr::list_view(v)),
        None => None,
    }
}

proof fn lemma_opt_view(o: Option<HirExpr>)
    ensures
        HirExpr::opt_view(
            match o {
                Some(x) => Some(Box::new(x)),
                None => None,
            },
        ) == box_opt(opt_ir(o)),
{
}

fn boxed(o: Option<HirExpr>) -> (r: Option<Box<HirExpr>>)
    ensures
        HirExpr::opt_view(r) == box_opt(opt_ir(o)),
{
    proof {
        lemma_opt_view(o);
    }
    match o {
        Some(x) => Some(Box::new(x)),
        None => None,
    }
}

pub fn mk_ident(s: String) -> (r: HirExpr)
    ensures
        r.view() == SpecIr::Identifier(s@),
{
    HirExpr::Identifier(s)
}

pub fn mk_number(bits: u64) -> (r: HirExpr)
    ensures
        r.view() == SpecIr::Number(bits),
{
    HirExpr::Number(bits)
}

pub fn mk_undefined() -> (r: HirExpr)
    ensures
        r.view() == SpecIr::Undefined,
{
    HirExpr::Undefined
}

pub fn mk_null() -> (r: HirExpr)
    ensures
        r.view() == SpecIr::Null,
{
    HirExpr::Null
}

pub fn mk_binary(op: BinOp, l: HirExpr, r: HirExpr) -> (e: HirExpr)
    ensures
        e.view() == (SpecIr::Binary { op, left: Box::new(l.view()), right: Box::new(r.view()) }),
{
    HirExpr::Binary { op, left: Box::new(l), right: Box::new(r) }
}

pub fn mk_unary(op: UnaryOp, x: HirExpr) -> (e: HirExpr)
    ensures
        e.view() == (SpecIr::Unary { op, operand: Box::new(x.view()) }),
{
    HirExpr::Unary { op, operand: Box::new(x) }
}

pub fn mk_typeof(x: HirExpr) -> (e: HirExpr)
    ensures
        e.view() == SpecIr::Typeof(Box::new(x.view())),
{
    HirExpr::Typeof(Box::new(x))
}

pub fn mk_call(c: HirExpr, args: Vec<HirExpr>) -> (e: HirExpr)
    ensures
        e.view() == (SpecIr::Call { callee: Box::new(c.view()), args: HirExpr::list_view(args) }),
{
    HirExpr::Call { callee: Box::new(c), args }
}

pub fn mk_ternary(c: HirExpr, t: HirExpr, f: HirExpr) -> (e: HirExpr)
    ensures
        e.view() == (SpecIr::Ternary {
            cond: Box::new(c.view()),
            then_expr: Box::new(t.view()),
            else_expr: Box::new(f.view()),
        }),
{
    HirExpr::Ternary { cond: Box::new(c), then_expr: Box::new(t), else_expr: Box::new(f) }
}

pub fn mk_function(name: String, params: Vec<String>, body: Vec<HirExpr>) -> (e: HirExpr)
    ensures
        e.view() == (SpecIr::Function {
            name: name@,
            params: names_view(params@),
            body: HirExpr::list_view(body),
        }),
{
    HirExpr::Function { name, params, body }
}

pub fn mk_return(x: Option<HirExpr>) -> (e: HirExpr)
    ensures
        e.view() == SpecIr::Return(box_opt(opt_ir(x))),
{
    HirExpr::Return(boxed(x))
}

pub fn mk_var(name: String, init: Option<HirExpr>, is_mut: bool) -> (e: HirExpr)
    ensures
        e.view() == (SpecIr::Var { name: name@, init: box_opt(opt_ir(init)), is_mut }),
{
    HirExpr::Var { name, init: boxed(init), is_mut }
}

pub fn mk_if(cond: HirExpr, then_body: Vec<HirExpr>, else_body: Option<Vec<HirExpr>>) -> (e: HirExpr)
    ensures
        e.view() == (SpecIr::If {
            cond: Box::new(cond.view()),
            then_body: HirExpr::list_view(then_body),
            else_body: opt_list(else_body),
        }),
{
    HirExpr::If { cond: Box::new(cond), then_body, else_body }
}

pub fn mk_while(cond: HirExpr, body: Vec<HirExpr>) -> (e: HirExpr)
    ensures
        e.view() == (SpecIr::While { cond: Box::new(cond.view()), body: HirExpr::list_view(body) }),
{
    HirExpr::While { cond: Box::new(cond), body }
}

pub fn mk_for(
    init: Option<HirExpr>,
    cond: Option<HirExpr>,
    update: Option<HirExpr>,
    body: Vec<HirExpr>,
) -> (e: HirExpr)
    ensures
        e.view() == (SpecIr::For {
            init: box_opt(opt_ir(init)),
            cond: box_opt(opt_ir(cond)),
            update: box_opt(opt_ir(update)),
            body: HirExpr::list_view(body),
        }),
{
    HirExpr::For { init: boxed(init), cond: boxed(cond), update: boxed(update), body }
}

pub fn mk_block(v: Vec<HirExpr>) -> (e: HirExpr)
    ensures
        e.view() == SpecIr::Block(HirExpr::list_view(v)),
{
    HirExpr::Block(v)
}

pub fn mk_assign(target: HirExpr, value: HirExpr) -> (e: HirExpr)
    ensures
        e.view() == (SpecIr::Assign { target: Box::new(target.view()), value: Box::new(value.view()) }),
{
    HirExpr::Assign { target: Box::new(target), value: Box::new(value) }
}

pub fn mk_array(v: Vec<HirExpr>) -> (e: HirExpr)
    ensures
        e.view() == SpecIr::Array(HirExpr::list_view(v)),
{
    HirExpr::Array(v)
}

pub fn mk_index(object: HirExpr, index: HirExpr) -> (e: HirExpr)
    ensures
        e.view() == (SpecIr::Index { object: Box::new(object.view()), index: Box::new(index.view()) }),
{
    HirExpr::Index { object: Box::new(object), index: Box::new(index) }
}

pub fn mk_object(v: Vec<(String, HirExpr)>) -> (e: HirExpr)
    ensures
        e.view() == SpecIr::Object(HirExpr::pairs_view(v)),
{
    HirExpr::Object(v)
}

pub fn mk_property(object: HirExpr, name: String) -> (e: HirExpr)
    ensures
        e.view() == (SpecIr::Property { object: Box::new(object.view()), name: name@ }),
{
    HirExpr::Property { object: Box::new(object), name }
}

pub fn mk_try(
    try_body: Vec<HirExpr>,
    catch_param: Option<String>,
    catch_body: Option<Vec<HirExpr>>,
    finally_body: Option<Vec<HirExpr>>,
) -> (e: HirExpr)
    ensures
        e.view() == (SpecIr::TryCatch {
            try_body: HirExpr::list_view(try_body),
            catch_param: opt_text(catch_param),
            catch_body: opt_list(catch_body),
            finally_body: opt_list(finally_body),
        }),
{
    HirExpr::TryCatch { try_body, catch_param, catch_body, finally_body }
}

pub fn mk_throw(x: Option<HirExpr>) -> (e: HirExpr)
    ensures
        e.view() == SpecIr::Throw(box_opt(opt_ir(x))),
{
    HirExpr::Throw(boxed(x))
}

pub fn mk_expr_stmt(x: HirExpr) -> (e: HirExpr)
    ensures
        e.view() == SpecIr::ExprStmt(Box::new(x.view())),
{
    HirExpr::ExprStmt(Box::new(x))
}

pub fn mk_break() -> (e: HirExpr)
    ensures
        e.view() == SpecIr::Break,
{
    HirExpr::Break
}

pub fn mk_continue() -> (e: HirExpr)
    ensures
        e.view() == SpecIr::Continue,
{
    HirExpr::Continue
}

} // verus!
