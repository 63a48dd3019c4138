use crate::codegen::{fnv1a, HirExpr, ARRAY_TAG, FALSE, NULL, STRING_TAG, TRUE, UNDEFINED};
use crate::hir::{BinOp, UnaryOp};
use crate::lowering::{
    any_terminates, call_plan, declared_arity, lookup_arity, plan_call, sigs_view, CallPlan,
    CallTable, PlanView, TableView,
};
use crate::text::{owned, str_eq};
use vstd::prelude::*;

verus! {

broadcast use vstd::std_specs::vec::axiom_vec_decreases_to_view;

/// One step of the code the back end emits for a function, on a stack of
/// values: the back end walks the IR once and records these steps; the
/// code generator replays them, one builder call or a few per step.
#[derive(Debug, Clone, PartialEq, Eq)]
pub enum Op {
    /// Push the double with these IEEE-754 bits.
    Const(u64),
    /// Push the runtime string made from this literal's static data.
    Str(String),
    /// Push the value of variable slot `k`.
    Load(usize),
    /// Pop a value into a fresh declaration of slot `k`.
    Define(usize),
    /// Pop a value into slot `k`.
    Store(usize),
    /// Pop a value and discard it.
    Drop,
    /// Pop the right, then the left operand; push what the runtime helper
    /// gives back for them where it is named and can be declared, else the
    /// result of the in-line operation.
    Binary { helper: Option<String>, inline: NumOp },
    /// Pop a value; push 1.0 where it equals 0.0, else 0.0.
    IsZero,
    /// Pop a value; push its negation.
    Negate,
    /// Pop a value; push 1.0 where it differs from 0.0, else 0.0.
    NonZero,
    /// Pop `nparams` arguments and push what the runtime import `name`
    /// gives back for them, or `fallback` where the import cannot be declared.
    Import { name: String, nparams: usize, fallback: u64 },
    /// Pop `nparams` arguments and call the runtime import `name` for its
    /// effect; `has_result` tells whether its signature has a result.
    Effect { name: String, nparams: usize, has_result: bool },
    /// Pop `nargs` arguments, add `undefined` up to `arity` of them and push
    /// what the program's function `name` gives back.
    CallUser { name: String, nargs: usize, arity: usize },
    /// Push `undefined` for a call nothing resolves, and warn that `name`
    /// is unresolved.
    Unresolved { name: String },
    /// Pop an index and an array; push the element (the index where the
    /// runtime's reader cannot be declared).
    GetIndex,
    /// Pop an index, an array and a value; store the value there.
    SetIndex,
    /// Pop an object and a value; store the value under the boxed key.
    SetProperty(u64),
    /// Push a new array (`placeholder` where the constructor cannot be
    /// declared, and then skip to the matching `ArrayEnd`).
    ArrayBegin { len: usize, placeholder: u64 },
    /// Pop an element and the array; push the array with the element added.
    ArrayPush,
    ArrayEnd,
    /// Push a new object (`undefined`, skipping to the matching `ObjectEnd`,
    /// where the constructor cannot be declared).
    ObjectBegin,
    /// Push a boxed property key.
    ObjectKey(u64),
    /// Pop a value and a key; store them in the object below.
    ObjectSet,
    ObjectEnd,
    /// Pop a value and return it.
    Return,
    /// Pop the condition and enter the `then` branch.
    IfBegin,
    /// Leave the `then` branch (jumping on unless it ended the path) and
    /// enter the `else` branch.
    IfElse { then_ends: bool },
    /// Leave the `else` branch and continue after the `if`, unless both
    /// branches ended the path.
    IfEnd { then_ends: bool, else_ends: bool },
    /// Open a loop; the condition follows.
    WhileBegin,
    /// Pop the condition; enter the body.
    WhileTest,
    /// Close the body (jumping back to the condition unless the body ended
    /// the path) and continue after the loop.
    WhileEnd { body_ends: bool },
    /// Open a `for` loop; the condition follows, if any.
    ForBegin,
    /// Pop the condition; enter the body.
    ForTest,
    /// Enter the body of a loop without condition.
    ForSkipTest,
    /// Close the body (jumping on to the update unless the body ended the
    /// path); the update follows.
    ForUpdate { body_ends: bool },
    /// Close the update and continue after the loop.
    ForEnd,
    /// Leave the innermost loop.
    Break,
    /// Go on with the innermost loop's next round (its update, for a `for`).
    Continue,
    /// Pop the left operand of `&&` (`and`) or `||` and branch on whether it
    /// is truthy: the right operand's steps follow and run only where the
    /// left operand does not decide the result; where it does, the left
    /// value is the result.
    LogicBegin { and: bool },
    /// Pop the right operand's value; push the result of the `&&` or `||`.
    LogicEnd,
    /// Pop the condition and enter the first branch.
    TernaryBegin,
    /// Pop the first branch's value and enter the second.
    TernaryElse,
    /// Pop the second branch's value; push the one taken.
    TernaryEnd,
    /// Enter a `try` block (through the runtime's `js_try_begin`).
    TryBegin,
    /// Jump to the `finally` part.
    TryLeave,
    /// Enter the handler.
    CatchBegin,
    /// Bind the pending exception to a fresh slot `k`.
    BindException(usize),
    /// Enter the `finally` part.
    FinallyBegin,
    /// Continue after the whole statement.
    TryEnd,
}

/// The mathematical form of an `Op`.
pub ghost enum OpV {
    Const(u64),
    Str(Seq<char>),
    Load(usize),
    Define(usize),
    Store(usize),
    Drop,
    Binary { helper: Option<Seq<char>>, inline: NumOp },
    IsZero,
    Negate,
    NonZero,
    Import { name: Seq<char>, nparams: usize, fallback: u64 },
    Effect { name: Seq<char>, nparams: usize, has_result: bool },
    CallUser { name: Seq<char>, nargs: usize, arity: usize },
    Unresolved { name: Seq<char> },
    GetIndex,
    SetIndex,
    SetProperty(u64),
    ArrayBegin { len: usize, placeholder: u64 },
    ArrayPush,
    ArrayEnd,
    ObjectBegin,
    ObjectKey(u64),
    ObjectSet,
    ObjectEnd,
    Return,
    IfBegin,
    IfElse { then_ends: bool },
    IfEnd { then_ends: bool, else_ends: bool },
    WhileBegin,
    WhileTest,
    WhileEnd { body_ends: bool },
    ForBegin,
    ForTest,
    ForSkipTest,
    ForUpdate { body_ends: bool },
    ForEnd,
    Break,
    Continue,
    LogicBegin { and: bool },
    LogicEnd,
    TernaryBegin,
    TernaryElse,
    TernaryEnd,
    TryBegin,
    TryLeave,
    CatchBegin,
    BindException(usize),
    FinallyBegin,
    TryEnd,
}

/// An operation on two doubles done in line.
#[derive(Debug, Clone, Copy, PartialEq, Eq, Structural)]
pub enum NumOp {
    Add,
    Sub,
    Mul,
    Div,
    /// The value `undefined`, whatever the operands.
    Undefined,
    /// 1.0 where the comparison holds, else 0.0.
    Equal,
    NotEqual,
    Less,
    LessEq,
    Greater,
    GreaterEq,
    /// On the operands converted to 64-bit integers (saturating), the
    /// result converted back.
    BitAnd,
    BitOr,
    BitXor,
    Shl,
    /// Logical shift right.
    Shr,
}

/// The step of a binary operator other than `&&` and `||`: `+`, `%`,
/// `==` and `!=` go through the runtime (`js_add`, `js_mod`, `js_eq`,
/// `js_neq`) with an in-line fallback; the others are done in line.
pub open spec fn binary_step(op: BinOp) -> OpV {
    match op {
        BinOp::Add => OpV::Binary { helper: Some("js_add"@), inline: NumOp::Add },
        BinOp::Sub => OpV::Binary { helper: None, inline: NumOp::Sub },
        BinOp::Mul => OpV::Binary { helper: None, inline: NumOp::Mul },
        BinOp::Div => OpV::Binary { helper: None, inline: NumOp::Div },
        BinOp::Mod => OpV::Binary { helper: Some("js_mod"@), inline: NumOp::Undefined },
        BinOp::Eq => OpV::Binary { helper: Some("js_eq"@), inline: NumOp::Equal },
        BinOp::Ne => OpV::Binary { helper: Some("js_neq"@), inline: NumOp::NotEqual },
        BinOp::Lt => OpV::Binary { helper: None, inline: NumOp::Less },
        BinOp::Le => OpV::Binary { helper: None, inline: NumOp::LessEq },
        BinOp::Gt => OpV::Binary { helper: None, inline: NumOp::Greater },
        BinOp::Ge => OpV::Binary { helper: None, inline: NumOp::GreaterEq },
        BinOp::BitAnd => OpV::Binary { helper: None, inline: NumOp::BitAnd },
        BinOp::BitOr => OpV::Binary { helper: None, inline: NumOp::BitOr },
        BinOp::BitXor => OpV::Binary { helper: None, inline: NumOp::BitXor },
        BinOp::Shl => OpV::Binary { helper: None, inline: NumOp::Shl },
        BinOp::Shr => OpV::Binary { helper: None, inline: NumOp::Shr },
        _ => OpV::Binary { helper: None, inline: NumOp::Undefined },
    }
}

/// The steps of a unary operator: `!` tests for zero, `-` negates, `+`
/// and the increment forms leave the value as it is.
pub open spec fn unary_steps(op: UnaryOp) -> Seq<OpV> {
    match op {
        UnaryOp::Not => seq![OpV::IsZero],
        UnaryOp::Neg => seq![OpV::Negate],
        _ => Seq::empty(),
    }
}

fn binary_op_step(op: BinOp) -> (r: Op)
    ensures
        r@ == binary_step(op),
{
    match op {
        BinOp::Add => Op::Binary { helper: Some(owned("js_add")), inline: NumOp::Add },
        BinOp::Sub => Op::Binary { helper: None, inline: NumOp::Sub },
        BinOp::Mul => Op::Binary { helper: None, inline: NumOp::Mul },
        BinOp::Div => Op::Binary { helper: None, inline: NumOp::Div },
        BinOp::Mod => Op::Binary { helper: Some(owned("js_mod")), inline: NumOp::Undefined },
        BinOp::Eq => Op::Binary { helper: Some(owned("js_eq")), inline: NumOp::Equal },
        BinOp::Ne => Op::Binary { helper: Some(owned("js_neq")), inline: NumOp::NotEqual },
        BinOp::Lt => Op::Binary { helper: None, inline: NumOp::Less },
        BinOp::Le => Op::Binary { helper: None, inline: NumOp::LessEq },
        BinOp::Gt => Op::Binary { helper: None, inline: NumOp::Greater },
        BinOp::Ge => Op::Binary { helper: None, inline: NumOp::GreaterEq },
        BinOp::BitAnd => Op::Binary { helper: None, inline: NumOp::BitAnd },
        BinOp::BitOr => Op::Binary { helper: None, inline: NumOp::BitOr },
        BinOp::BitXor => Op::Binary { helper: None, inline: NumOp::BitXor },
        BinOp::Shl => Op::Binary { helper: None, inline: NumOp::Shl },
        BinOp::Shr => Op::Binary { helper: None, inline: NumOp::Shr },
        _ => Op::Binary { helper: None, inline: NumOp::Undefined },
    }
}

impl View for Op {
    type V = OpV;

    open spec fn view(&self) -> OpV {
        match self {
            Op::Const(b) => OpV::Const(*b),
            Op::Str(s) => OpV::Str(s@),
            Op::Load(k) => OpV::Load(*k),
            Op::Define(k) => OpV::Define(*k),
            Op::Store(k) => OpV::Store(*k),
            Op::Drop => OpV::Drop,
            Op::Binary { helper, inline } => OpV::Binary {
                helper: match helper {
                    Some(h) => Some(h@),
                    None => None,
                },
                inline: *inline,
            },
            Op::IsZero => OpV::IsZero,
            Op::Negate => OpV::Negate,
            Op::NonZero => OpV::NonZero,
            Op::Import { name, nparams, fallback } => OpV::Import {
                name: name@,
                nparams: *nparams,
                fallback: *fallback,
            },
            Op::Effect { name, nparams, has_result } => OpV::Effect {
                name: name@,
                nparams: *nparams,
                has_result: *has_result,
            },
            Op::CallUser { name, nargs, arity } => OpV::CallUser {
                name: name@,
                nargs: *nargs,
                arity: *arity,
            },
            Op::Unresolved { name } => OpV::Unresolved { name: name@ },
            Op::GetIndex => OpV::GetIndex,
            Op::SetIndex => OpV::SetIndex,
            Op::SetProperty(k) => OpV::SetProperty(*k),
            Op::ArrayBegin { len, placeholder } => OpV::ArrayBegin {
                len: *len,
                placeholder: *placeholder,
            },
            Op::ArrayPush => OpV::ArrayPush,
            Op::ArrayEnd => OpV::ArrayEnd,
            Op::ObjectBegin => OpV::ObjectBegin,
            Op::ObjectKey(k) => OpV::ObjectKey(*k),
            Op::ObjectSet => OpV::ObjectSet,
            Op::ObjectEnd => OpV::ObjectEnd,
            Op::Return => OpV::Return,
            Op::IfBegin => OpV::IfBegin,
            Op::IfElse { then_ends } => OpV::IfElse { then_ends: *then_ends },
            Op::IfEnd { then_ends, else_ends } => OpV::IfEnd {
                then_ends: *then_ends,
                else_ends: *else_ends,
            },
            Op::WhileBegin => OpV::WhileBegin,
            Op::WhileTest => OpV::WhileTest,
            Op::WhileEnd { body_ends } => OpV::WhileEnd { body_ends: *body_ends },
            Op::ForBegin => OpV::ForBegin,
            Op::ForTest => OpV::ForTest,
            Op::ForSkipTest => OpV::ForSkipTest,
            Op::ForUpdate { body_ends } => OpV::ForUpdate { body_ends: *body_ends },
            Op::Break => OpV::Break,
            Op::Continue => OpV::Continue,
            Op::LogicBegin { and } => OpV::LogicBegin { and: *and },
            Op::LogicEnd => OpV::LogicEnd,
            Op::ForEnd => OpV::ForEnd,
            Op::TernaryBegin => OpV::TernaryBegin,
            Op::TernaryElse => OpV::TernaryElse,
            Op::TernaryEnd => OpV::TernaryEnd,
            Op::TryBegin => OpV::TryBegin,
            Op::TryLeave => OpV::TryLeave,
            Op::CatchBegin => OpV::CatchBegin,
            Op::BindException(k) => OpV::BindException(*k),
            Op::FinallyBegin => OpV::FinallyBegin,
            Op::TryEnd => OpV::TryEnd,
        }
    }
}

/// The mathematical form of a list of steps.
pub open spec fn ops_view(v: Seq<Op>) -> Seq<OpV> {
    v.map_values(|o: Op| o@)
}

/// Appends one step.
fn put(out: &mut Vec<Op>, op: Op)
    ensures
        ops_view(final(out)@) == ops_view(old(out)@).push(op@),
{
    let ghost v = op@;
    out.push(op);
    assert(ops_view(out@) =~= ops_view(old(out)@).push(v));
}

/// The boxed key of a property name given by its characters.
pub open spec fn name_key(name: Seq<char>) -> u64 {
    STRING_TAG | (fnv1a(vstd::utf8::encode_utf8(name)) & 0x0000_FFFF_FFFF_FFFF)
}

/// The boxed key of a property name.
fn key_of(name: &str) -> (k: u64)
    ensures
        k == name_key(name@),
{
    crate::codegen::property_key(name)
}

/// The name of a callee that is a plain identifier.
pub open spec fn callee_name(c: HirExpr) -> Seq<char> {
    match c {
        HirExpr::Identifier(n) => n@,
        _ => Seq::empty(),
    }
}

/// The one step of a runtime call whose value is kept.
pub open spec fn import_op(name: Seq<char>, nparams: usize, fallback: u64) -> OpV {
    OpV::Import { name, nparams, fallback }
}

/// The one step of a runtime call made for its effect.
pub open spec fn effect_op(name: Seq<char>, nparams: usize, has_result: bool) -> OpV {
    OpV::Effect { name, nparams, has_result }
}

/// The steps that evaluate an expression, leaving its value on the stack,
/// given the variable slots in scope and the program's signatures.
pub open spec fn expr_ops(
    e: HirExpr,
    vars: Seq<(Seq<char>, nat)>,
    sigs: TableView,
) -> Seq<OpV>
    decreases e,
{
    match e {
        HirExpr::Number(b) => seq![OpV::Const(b)],
        HirExpr::Boolean(t) => seq![OpV::Const(if t { TRUE } else { FALSE })],
        HirExpr::Null => seq![OpV::Const(NULL)],
        HirExpr::Undefined => seq![OpV::Const(UNDEFINED)],
        HirExpr::String(s) => seq![OpV::Str(s@)],
        HirExpr::Identifier(n) => match declared_arity(vars, n@) {
            Some(k) => seq![OpV::Load(k as usize)],
            None => seq![OpV::Const(UNDEFINED)],
        },
        HirExpr::Binary { op, left, right } => if op is And || op is Or {
            expr_ops(*left, vars, sigs) + seq![OpV::LogicBegin { and: op is And }] + expr_ops(
                *right,
                vars,
                sigs,
            ) + seq![OpV::LogicEnd]
        } else {
            expr_ops(*left, vars, sigs) + expr_ops(*right, vars, sigs) + seq![binary_step(op)]
        },
        HirExpr::Unary { op, operand } => expr_ops(*operand, vars, sigs) + unary_steps(op),
        HirExpr::Typeof(x) => expr_ops(*x, vars, sigs) + seq![import_op("js_typeof"@, 1, UNDEFINED)],
        HirExpr::Call { callee, args } => match call_plan(*callee, args@.len(), sigs) {
            PlanView::User { arity } => exprs_ops(args@, vars, sigs) + seq![
                OpV::CallUser {
                    name: callee_name(*callee),
                    nargs: args@.len() as usize,
                    arity: arity as usize,
                },
            ],
            PlanView::Print => print_ops(args@, vars, sigs) + seq![
                effect_op("js_print_newline"@, 0, true),
                OpV::Const(UNDEFINED),
            ],
            PlanView::Import { c_name, arity, fallback } => (if arity < args@.len() {
                exprs_ops(args@.take(arity as int), vars, sigs)
            } else {
                exprs_ops(args@, vars, sigs)
            }) + seq![import_op(c_name, arity as usize, fallback)],
            PlanView::ImportVoid { c_name, arity } => (if arity < args@.len() {
                exprs_ops(args@.take(arity as int), vars, sigs)
            } else {
                exprs_ops(args@, vars, sigs)
            }) + seq![effect_op(c_name, arity as usize, false), OpV::Const(UNDEFINED)],
            PlanView::Passthrough => if args@.len() > 0 {
                expr_ops(args@[0], vars, sigs)
            } else {
                Seq::empty()
            },
            PlanView::Truthiness => if args@.len() > 0 {
                expr_ops(args@[0], vars, sigs) + seq![OpV::NonZero]
            } else {
                Seq::empty()
            },
            PlanView::Constant(c) => seq![OpV::Const(c)],
            PlanView::Unresolved { name } => seq![OpV::Unresolved { name }],
        },
        HirExpr::Ternary { cond, then_expr, else_expr } => expr_ops(*cond, vars, sigs) + seq![
            OpV::TernaryBegin,
        ] + expr_ops(*then_expr, vars, sigs) + seq![OpV::TernaryElse] + expr_ops(
            *else_expr,
            vars,
            sigs,
        ) + seq![OpV::TernaryEnd],
        HirExpr::Array(v) => seq![
            OpV::ArrayBegin {
                len: v@.len() as usize,
                placeholder: ARRAY_TAG | (v@.len() as u64 & 0x0000_FFFF_FFFF_FFFF),
            },
        ] + elements_ops(v@, vars, sigs) + seq![OpV::ArrayEnd],
        HirExpr::Index { object, index } => expr_ops(*object, vars, sigs) + expr_ops(
            *index,
            vars,
            sigs,
        ) + seq![OpV::GetIndex],
        HirExpr::Object(v) => seq![OpV::ObjectBegin] + props_ops(v@, vars, sigs) + seq![
            OpV::ObjectEnd,
        ],
        HirExpr::Property { object, name } => expr_ops(*object, vars, sigs) + if name@
            == "length"@ {
            seq![import_op("js_property_length"@, 1, UNDEFINED)]
        } else {
            seq![OpV::Const(name_key(name@)), import_op("js_object_get"@, 2, UNDEFINED)]
        },
        HirExpr::ExprStmt(x) => expr_ops(*x, vars, sigs),
        _ => seq![OpV::Const(UNDEFINED)],
    }
}

/// The steps that evaluate a list of expressions in order.
pub open spec fn exprs_ops(
    s: Seq<HirExpr>,
    vars: Seq<(Seq<char>, nat)>,
    sigs: TableView,
) -> Seq<OpV>
    decreases s,
{
    if s.len() == 0 {
        Seq::empty()
    } else {
        exprs_ops(s.subrange(0, s.len() - 1), vars, sigs) + expr_ops(s[s.len() - 1], vars, sigs)
    }
}

/// The steps that print each argument, with a space between two.
pub open spec fn print_ops(
    s: Seq<HirExpr>,
    vars: Seq<(Seq<char>, nat)>,
    sigs: TableView,
) -> Seq<OpV>
    decreases s,
{
    if s.len() == 0 {
        Seq::empty()
    } else if s.len() == 1 {
        expr_ops(s[0], vars, sigs) + seq![effect_op("js_print"@, 1, true)]
    } else {
        print_ops(s.subrange(0, s.len() - 1), vars, sigs) + seq![
            effect_op("js_print_space"@, 0, true),
        ] + expr_ops(s[s.len() - 1], vars, sigs) + seq![effect_op("js_print"@, 1, true)]
    }
}

/// The steps that add each element to a new array.
pub open spec fn elements_ops(
    s: Seq<HirExpr>,
    vars: Seq<(Seq<char>, nat)>,
    sigs: TableView,
) -> Seq<OpV>
    decreases s,
{
    if s.len() == 0 {
        Seq::empty()
    } else {
        elements_ops(s.subrange(0, s.len() - 1), vars, sigs) + expr_ops(s[s.len() - 1], vars, sigs)
            + seq![OpV::ArrayPush]
    }
}

/// The steps that store each property of an object literal.
pub open spec fn props_ops(
    s: Seq<(String, HirExpr)>,
    vars: Seq<(Seq<char>, nat)>,
    sigs: TableView,
) -> Seq<OpV>
    decreases s,
{
    if s.len() == 0 {
        Seq::empty()
    } else {
        props_ops(s.subrange(0, s.len() - 1), vars, sigs) + seq![
            OpV::ObjectKey(name_key(s[s.len() - 1].0@)),
        ] + expr_ops(s[s.len() - 1].1, vars, sigs) + seq![OpV::ObjectSet]
    }
}

/// Appends the steps that evaluate `e` with the variable slots `vars` and
/// the program's signatures `sigs`.
pub fn emit_expr(
    e: &HirExpr,
    vars: &Vec<(String, usize)>,
    sigs: &CallTable,
    out: &mut Vec<Op>,
)
    ensures
        ops_view(final(out)@) == ops_view(old(out)@) + expr_ops(
            *e,
            sigs_view(vars@),
            sigs@,
        ),
    decreases e, 1nat,
{
    let ghost start = ops_view(out@);
    let ghost vs = sigs_view(vars@);
    let ghost ss = sigs@;
    match e {
        HirExpr::Number(b) => put(out, Op::Const(*b)),
        HirExpr::Boolean(t) => put(
            out,
            Op::Const(
                if *t {
                    TRUE
                } else {
                    FALSE
                },
            ),
        ),
        HirExpr::Null => put(out, Op::Const(NULL)),
        HirExpr::Undefined => put(out, Op::Const(UNDEFINED)),
        HirExpr::String(s) => put(out, Op::Str(s.clone())),
        HirExpr::Identifier(n) => match lookup_arity(vars, n.as_str()) {
            Some(k) => put(out, Op::Load(k)),
            None => put(out, Op::Const(UNDEFINED)),
        },
        HirExpr::Binary { op, left, right } => match op {
            BinOp::And | BinOp::Or => {
                emit_expr(left, vars, sigs, out);
                put(out, Op::LogicBegin { and: *op == BinOp::And });
                emit_expr(right, vars, sigs, out);
                put(out, Op::LogicEnd);
            },
            _ => {
                emit_expr(left, vars, sigs, out);
                emit_expr(right, vars, sigs, out);
                put(out, binary_op_step(*op));
            },
        },
        HirExpr::Unary { op, operand } => {
            emit_expr(operand, vars, sigs, out);
            match op {
                UnaryOp::Not => put(out, Op::IsZero),
                UnaryOp::Neg => put(out, Op::Negate),
                _ => {},
            }
        },
        HirExpr::Typeof(x) => {
            emit_expr(x, vars, sigs, out);
            put(out, Op::Import { name: owned("js_typeof"), nparams: 1, fallback: UNDEFINED });
        },
        HirExpr::Call { .. } => emit_call(e, vars, sigs, out),
        HirExpr::Ternary { cond, then_expr, else_expr } => {
            emit_expr(cond, vars, sigs, out);
            put(out, Op::TernaryBegin);
            emit_expr(then_expr, vars, sigs, out);
            put(out, Op::TernaryElse);
            emit_expr(else_expr, vars, sigs, out);
            put(out, Op::TernaryEnd);
        },
        HirExpr::Array(v) => {
            put(
                out,
                Op::ArrayBegin {
                    len: v.len(),
                    placeholder: crate::lowering::array_placeholder(v.len()),
                },
            );
            emit_elements(v, vars, sigs, out);
            put(out, Op::ArrayEnd);
        },
        HirExpr::Index { object, index } => {
            emit_expr(object, vars, sigs, out);
            emit_expr(index, vars, sigs, out);
            put(out, Op::GetIndex);
        },
        HirExpr::Object(v) => {
            put(out, Op::ObjectBegin);
            emit_props(v, vars, sigs, out);
            put(out, Op::ObjectEnd);
        },
        HirExpr::Property { object, name } => {
            emit_expr(object, vars, sigs, out);
            match crate::lowering::plan_property_read(name.as_str()) {
                crate::lowering::PropertyRead::Length => put(
                    out,
                    Op::Import { name: owned("js_property_length"), nparams: 1, fallback: UNDEFINED },
                ),
                crate::lowering::PropertyRead::Keyed(k) => {
                    put(out, Op::Const(k));
                    put(
                        out,
                        Op::Import { name: owned("js_object_get"), nparams: 2, fallback: UNDEFINED },
                    );
                },
            }
        },
        HirExpr::ExprStmt(x) => emit_expr(x, vars, sigs, out),
        _ => put(out, Op::Const(UNDEFINED)),
    }
    assert(ops_view(out@) =~= start + expr_ops(*e, vs, ss));
}

/// Appends the steps that evaluate the first `n` expressions of `v`.
fn emit_exprs(
    v: &Vec<HirExpr>,
    n: usize,
    vars: &Vec<(String, usize)>,
    sigs: &CallTable,
    out: &mut Vec<Op>,
)
    requires
        n <= v@.len(),
    ensures
        ops_view(final(out)@) == ops_view(old(out)@) + exprs_ops(
            v@.take(n as int),
            sigs_view(vars@),
            sigs@,
        ),
    decreases v, 0nat,
{
    let ghost start = ops_view(out@);
    let ghost vs = sigs_view(vars@);
    let ghost ss = sigs@;
    let mut i: usize = 0;
    assert(exprs_ops(v@.take(0), vs, ss) =~= Seq::empty());
    while i < n
        invariant
            i <= n <= v@.len(),
            vs == sigs_view(vars@),
            ss == sigs@,
            ops_view(out@) == start + exprs_ops(v@.take(i as int), vs, ss),
        decreases n - i,
    {
        emit_expr(&v[i], vars, sigs, out);
        proof {
            let next = v@.take(i + 1);
            assert(next.subrange(0, next.len() - 1) =~= v@.take(i as int));
            assert(next[next.len() - 1] == v@[i as int]);
        }
        i = i + 1;
    }
}

/// Appends the steps that print each argument, a space between two.
fn emit_print(
    v: &Vec<HirExpr>,
    vars: &Vec<(String, usize)>,
    sigs: &CallTable,
    out: &mut Vec<Op>,
)
    ensures
        ops_view(final(out)@) == ops_view(old(out)@) + print_ops(
            v@,
            sigs_view(vars@),
            sigs@,
        ),
    decreases v, 0nat,
{
    let ghost start = ops_view(out@);
    let ghost vs = sigs_view(vars@);
    let ghost ss = sigs@;
    let mut i: usize = 0;
    assert(print_ops(v@.take(0), vs, ss) =~= Seq::empty());
    while i < v.len()
        invariant
            i <= v@.len(),
            vs == sigs_view(vars@),
            ss == sigs@,
            ops_view(out@) == start + print_ops(v@.take(i as int), vs, ss) + (if i > 0 && i
                < v@.len() {
                seq![effect_op("js_print_space"@, 0, true)]
            } else {
                Seq::empty()
            }),
        decreases v@.len() - i,
    {
        let ghost before = ops_view(out@);
        emit_expr(&v[i], vars, sigs, out);
        put(out, Op::Effect { name: owned("js_print"), nparams: 1, has_result: true });
        proof {
            let next = v@.take(i + 1);
            assert(next[next.len() - 1] == v@[i as int]);
            if i > 0 {
                assert(next.subrange(0, next.len() - 1) =~= v@.take(i as int));
            } else {
                assert(next[0] == v@[0]);
            }
            assert(ops_view(out@) =~= start + print_ops(next, vs, ss));
        }
        if i + 1 < v.len() {
            put(out, Op::Effect { name: owned("js_print_space"), nparams: 0, has_result: true });
        }
        i = i + 1;
    }
    assert(v@.take(i as int) =~= v@);
    assert(ops_view(out@) =~= start + print_ops(v@, vs, ss));
}

/// Appends the steps that add each element of `v` to the array below.
fn emit_elements(
    v: &Vec<HirExpr>,
    vars: &Vec<(String, usize)>,
    sigs: &CallTable,
    out: &mut Vec<Op>,
)
    ensures
        ops_view(final(out)@) == ops_view(old(out)@) + elements_ops(
            v@,
            sigs_view(vars@),
            sigs@,
        ),
    decreases v, 0nat,
{
    let ghost start = ops_view(out@);
    let ghost vs = sigs_view(vars@);
    let ghost ss = sigs@;
    let mut i: usize = 0;
    assert(elements_ops(v@.take(0), vs, ss) =~= Seq::empty());
    while i < v.len()
        invariant
            i <= v@.len(),
            vs == sigs_view(vars@),
            ss == sigs@,
            ops_view(out@) == start + elements_ops(v@.take(i as int), vs, ss),
        decreases v@.len() - i,
    {
        emit_expr(&v[i], vars, sigs, out);
        put(out, Op::ArrayPush);
        proof {
            let next = v@.take(i + 1);
            assert(next.subrange(0, next.len() - 1) =~= v@.take(i as int));
            assert(next[next.len() - 1] == v@[i as int]);
            assert(ops_view(out@) =~= start + elements_ops(next, vs, ss));
        }
        i = i + 1;
    }
    assert(v@.take(i as int) =~= v@);
}

/// Appends the steps that store each property of `v` in the object below.
fn emit_props(
    v: &Vec<(String, HirExpr)>,
    vars: &Vec<(String, usize)>,
    sigs: &CallTable,
    out: &mut Vec<Op>,
)
    ensures
        ops_view(final(out)@) == ops_view(old(out)@) + props_ops(
            v@,
            sigs_view(vars@),
            sigs@,
        ),
    decreases v, 0nat,
{
    let ghost start = ops_view(out@);
    let ghost vs = sigs_view(vars@);
    let ghost ss = sigs@;
    let mut i: usize = 0;
    assert(props_ops(v@.take(0), vs, ss) =~= Seq::empty());
    while i < v.len()
        invariant
            i <= v@.len(),
            vs == sigs_view(vars@),
            ss == sigs@,
            ops_view(out@) == start + props_ops(v@.take(i as int), vs, ss),
        decreases v@.len() - i,
    {
        let (key, value) = &v[i];
        put(out, Op::ObjectKey(key_of(key.as_str())));
        emit_expr(value, vars, sigs, out);
        put(out, Op::ObjectSet);
        proof {
            let next = v@.take(i + 1);
            assert(next.subrange(0, next.len() - 1) =~= v@.take(i as int));
            assert(next[next.len() - 1] == v@[i as int]);
            assert(ops_view(out@) =~= start + props_ops(next, vs, ss));
        }
        i = i + 1;
    }
    assert(v@.take(i as int) =~= v@);
}

/// Appends the steps of a call expression `e`.
fn emit_call(
    e: &HirExpr,
    vars: &Vec<(String, usize)>,
    sigs: &CallTable,
    out: &mut Vec<Op>,
)
    requires
        e is Call,
    ensures
        ops_view(final(out)@) == ops_view(old(out)@) + expr_ops(
            *e,
            sigs_view(vars@),
            sigs@,
        ),
    decreases e, 0nat,
{
    let ghost start = ops_view(out@);
    let ghost vs = sigs_view(vars@);
    let ghost ss = sigs@;
    match e {
        HirExpr::Call { callee, args } => {
            let plan = plan_call(callee, args.len(), sigs);
            match plan {
                CallPlan::User { arity } => {
                    emit_exprs(args, args.len(), vars, sigs, out);
                    assert(args@.take(args@.len() as int) =~= args@);
                    let name = match &**callee {
                        HirExpr::Identifier(n) => n.clone(),
                        _ => String::new(),
                    };
                    put(out, Op::CallUser { name, nargs: args.len(), arity });
                },
                CallPlan::Print => {
                    emit_print(args, vars, sigs, out);
                    put(
                        out,
                        Op::Effect { name: owned("js_print_newline"), nparams: 0, has_result: true },
                    );
                    put(out, Op::Const(UNDEFINED));
                },
                CallPlan::Import { c_name, arity, fallback } => {
                    if arity < args.len() {
                        emit_exprs(args, arity, vars, sigs, out);
                    } else {
                        emit_exprs(args, args.len(), vars, sigs, out);
                        assert(args@.take(args@.len() as int) =~= args@);
                    }
                    put(out, Op::Import { name: c_name, nparams: arity, fallback });
                },
                CallPlan::ImportVoid { c_name, arity } => {
                    if arity < args.len() {
                        emit_exprs(args, arity, vars, sigs, out);
                    } else {
                        emit_exprs(args, args.len(), vars, sigs, out);
                        assert(args@.take(args@.len() as int) =~= args@);
                    }
                    put(out, Op::Effect { name: c_name, nparams: arity, has_result: false });
                    put(out, Op::Const(UNDEFINED));
                },
                CallPlan::Passthrough => {
                    if args.len() > 0 {
                        emit_expr(&args[0], vars, sigs, out);
                    }
                },
                CallPlan::Truthiness => {
                    if args.len() > 0 {
                        emit_expr(&args[0], vars, sigs, out);
                        put(out, Op::NonZero);
                    }
                },
                CallPlan::Constant(c) => put(out, Op::Const(c)),
                CallPlan::Unresolved { name } => put(out, Op::Unresolved { name }),
            }
            assert(ops_view(out@) =~= start + expr_ops(*e, vs, ss));
        },
        _ => {},
    }
}

/// The position of the last entry for `name` in a name table; -1 where
/// there is none.
pub open spec fn last_position(vars: Seq<(Seq<char>, nat)>, name: Seq<char>) -> int
    decreases vars.len(),
{
    if vars.len() == 0 {
        -1
    } else if vars.last().0 == name {
        vars.len() - 1
    } else {
        last_position(vars.drop_last(), name)
    }
}

/// The table with `name` bound to `slot`: its entry replaced where it has
/// one, else a new entry at the end.
pub open spec fn bind(vars: Seq<(Seq<char>, nat)>, name: Seq<char>, slot: nat) -> Seq<
    (Seq<char>, nat),
> {
    let k = last_position(vars, name);
    if k >= 0 {
        vars.update(k, (name, slot))
    } else {
        vars.push((name, slot))
    }
}

/// Binds `name` to `slot` in the table.
fn bind_slot(vars: &mut Vec<(String, usize)>, name: &String, slot: usize)
    ensures
        sigs_view(final(vars)@) == bind(sigs_view(old(vars)@), name@, slot as nat),
{
    let ghost t = sigs_view(vars@);
    let mut i: usize = vars.len();
    assert(vars@.take(i as int) =~= vars@);
    while i > 0
        invariant
            i <= vars@.len(),
            vars@ == old(vars)@,
            t == sigs_view(vars@),
            last_position(t, name@) == last_position(sigs_view(vars@.take(i as int)), name@),
        decreases i,
    {
        proof {
            assert(sigs_view(vars@.take(i as int)).drop_last() =~= sigs_view(vars@.take(i - 1)));
        }
        if str_eq(vars[i - 1].0.as_str(), name.as_str()) {
            vars.set(i - 1, (name.clone(), slot));
            assert(sigs_view(vars@) =~= t.update(i - 1, (name@, slot as nat)));
            return;
        }
        i = i - 1;
    }
    vars.push((name.clone(), slot));
    assert(sigs_view(vars@) =~= t.push((name@, slot as nat)));
}

/// The steps that compute an optional value, `undefined` where it is absent.
pub open spec fn value_ops(
    v: Option<Box<HirExpr>>,
    vars: Seq<(Seq<char>, nat)>,
    sigs: TableView,
) -> Seq<OpV> {
    match v {
        Some(x) => expr_ops(*x, vars, sigs),
        None => seq![OpV::Const(UNDEFINED)],
    }
}

/// The steps that store a value already on the stack into `target`.
pub open spec fn store_ops(
    target: HirExpr,
    vars: Seq<(Seq<char>, nat)>,
    sigs: TableView,
) -> Seq<OpV> {
    match target {
        HirExpr::Identifier(n) => match declared_arity(vars, n@) {
            Some(k) => seq![OpV::Store(k as usize)],
            None => seq![OpV::Drop],
        },
        HirExpr::Index { object, index } => expr_ops(*object, vars, sigs) + expr_ops(
            *index,
            vars,
            sigs,
        ) + seq![OpV::SetIndex],
        HirExpr::Property { object, name } => expr_ops(*object, vars, sigs) + seq![
            OpV::SetProperty(name_key(name@)),
        ],
        _ => seq![OpV::Drop],
    }
}

/// The steps of a statement, and the variable slots after it.
pub open spec fn stmt_ops(
    s: HirExpr,
    vars: Seq<(Seq<char>, nat)>,
    sigs: TableView,
) -> (Seq<OpV>, Seq<(Seq<char>, nat)>)
    decreases s,
{
    match s {
        HirExpr::Return(v) => (value_ops(v, vars, sigs) + seq![OpV::Return], vars),
        HirExpr::Var { name, init, .. } => (
            value_ops(init, vars, sigs) + seq![OpV::Define(vars.len() as usize)],
            bind(vars, name@, vars.len()),
        ),
        HirExpr::If { cond, then_body, else_body } => {
            let t = stmts_ops(then_body@, vars, sigs);
            let f = opt_stmts_ops(else_body, t.1, sigs);
            let te = any_terminates(then_body@);
            let fe = match else_body {
                Some(b) => any_terminates(b@),
                None => false,
            };
            (
                expr_ops(*cond, vars, sigs) + seq![OpV::IfBegin] + t.0 + seq![
                    OpV::IfElse { then_ends: te },
                ] + f.0 + seq![OpV::IfEnd { then_ends: te, else_ends: fe }],
                f.1,
            )
        },
        HirExpr::While { cond, body } => {
            let b = stmts_ops(body@, vars, sigs);
            (
                seq![OpV::WhileBegin] + expr_ops(*cond, vars, sigs) + seq![OpV::WhileTest] + b.0
                    + seq![OpV::WhileEnd { body_ends: any_terminates(body@) }],
                b.1,
            )
        },
        HirExpr::For { init, cond, update, body } => {
            let i = match init {
                Some(x) => stmt_ops(*x, vars, sigs),
                None => (Seq::empty(), vars),
            };
            let c = match cond {
                Some(x) => expr_ops(*x, i.1, sigs) + seq![OpV::ForTest],
                None => seq![OpV::ForSkipTest],
            };
            let b = stmts_ops(body@, i.1, sigs);
            let u = match update {
                Some(x) => stmt_ops(*x, b.1, sigs),
                None => (Seq::empty(), b.1),
            };
            (
                i.0 + seq![OpV::ForBegin] + c + b.0 + seq![
                    OpV::ForUpdate { body_ends: any_terminates(body@) },
                ] + u.0 + seq![OpV::ForEnd],
                u.1,
            )
        },
        HirExpr::Block(v) => stmts_ops(v@, vars, sigs),
        HirExpr::Break => (seq![OpV::Break], vars),
        HirExpr::Continue => (seq![OpV::Continue], vars),
        HirExpr::Assign { target, value } => (
            expr_ops(*value, vars, sigs) + store_ops(*target, vars, sigs),
            vars,
        ),
        HirExpr::TryCatch { try_body, catch_param, catch_body, finally_body } => {
            let t = stmts_ops(try_body@, vars, sigs);
            let leave = if any_terminates(try_body@) {
                Seq::empty()
            } else {
                seq![
                    effect_op("js_try_end"@, 0, false),
                    effect_op("js_clear_exception"@, 0, false),
                    OpV::TryLeave,
                ]
            };
            let h = handler_ops(catch_param, catch_body, t.1, sigs);
            let f = opt_stmts_ops(finally_body, h.1, sigs);
            (
                seq![OpV::TryBegin] + t.0 + leave + seq![OpV::CatchBegin] + h.0 + seq![
                    effect_op("js_try_end"@, 0, false),
                    OpV::TryLeave,
                    OpV::FinallyBegin,
                ] + f.0 + seq![OpV::TryEnd],
                f.1,
            )
        },
        HirExpr::Throw(v) => (
            value_ops(v, vars, sigs) + seq![
                effect_op("js_throw"@, 1, false),
                OpV::Const(UNDEFINED),
                OpV::Return,
            ],
            vars,
        ),
        HirExpr::ExprStmt(x) => match *x {
            HirExpr::Assign { .. } | HirExpr::Var { .. } | HirExpr::Return(_) | HirExpr::Break
            | HirExpr::Continue | HirExpr::Throw(_) => stmt_ops(*x, vars, sigs),
            _ => (expr_ops(*x, vars, sigs) + seq![OpV::Drop], vars),
        },
        _ => (expr_ops(s, vars, sigs) + seq![OpV::Drop], vars),
    }
}

/// The steps of an optional list of statements (none where absent).
pub open spec fn opt_stmts_ops(
    b: Option<Vec<HirExpr>>,
    vars: Seq<(Seq<char>, nat)>,
    sigs: TableView,
) -> (Seq<OpV>, Seq<(Seq<char>, nat)>)
    decreases b,
{
    match b {
        Some(v) => stmts_ops(v@, vars, sigs),
        None => (Seq::empty(), vars),
    }
}

/// The steps of a `catch` handler: the exception bound to a fresh slot
/// where the handler names it, the pending exception cleared, then the
/// handler's statements; nothing where there is no handler.
pub open spec fn handler_ops(
    param: Option<String>,
    body: Option<Vec<HirExpr>>,
    vars: Seq<(Seq<char>, nat)>,
    sigs: TableView,
) -> (Seq<OpV>, Seq<(Seq<char>, nat)>)
    decreases body,
{
    match body {
        Some(b) => {
            let bound = match param {
                Some(p) => (seq![OpV::BindException(vars.len() as usize)], bind(vars, p@, vars.len())),
                None => (Seq::empty(), vars),
            };
            let c = stmts_ops(b@, bound.1, sigs);
            (bound.0 + seq![effect_op("js_clear_exception"@, 0, false)] + c.0, c.1)
        },
        None => (Seq::empty(), vars),
    }
}

/// The steps of a list of statements up to and including the first that
/// ends the path (nothing after it is reached), and the slots after them.
pub open spec fn stmts_ops(
    s: Seq<HirExpr>,
    vars: Seq<(Seq<char>, nat)>,
    sigs: TableView,
) -> (Seq<OpV>, Seq<(Seq<char>, nat)>)
    decreases s,
{
    if s.len() == 0 {
        (Seq::empty(), vars)
    } else {
        let first = stmt_ops(s[0], vars, sigs);
        if crate::lowering::terminates(s[0]) {
            first
        } else {
            let rest = stmts_ops(s.subrange(1, s.len() as int), first.1, sigs);
            (first.0 + rest.0, rest.1)
        }
    }
}


/// Appends the steps of an optional value (`undefined` where absent).
fn emit_value(
    v: &Option<Box<HirExpr>>,
    vars: &Vec<(String, usize)>,
    sigs: &CallTable,
    out: &mut Vec<Op>,
)
    ensures
        ops_view(final(out)@) == ops_view(old(out)@) + value_ops(
            *v,
            sigs_view(vars@),
            sigs@,
        ),
{
    match v {
        Some(x) => emit_expr(x, vars, sigs, out),
        None => put(out, Op::Const(UNDEFINED)),
    }
}

/// Appends the steps of the statement `s`, updating the variable slots.
pub fn emit_stmt(
    s: &HirExpr,
    vars: &mut Vec<(String, usize)>,
    sigs: &CallTable,
    out: &mut Vec<Op>,
)
    ensures
        ops_view(final(out)@) == ops_view(old(out)@) + stmt_ops(
            *s,
            sigs_view(old(vars)@),
            sigs@,
        ).0,
        sigs_view(final(vars)@) == stmt_ops(*s, sigs_view(old(vars)@), sigs@).1,
    decreases s, 1nat,
{
    let ghost start = ops_view(out@);
    let ghost vs = sigs_view(vars@);
    let ghost ss = sigs@;
    match s {
        HirExpr::Return(v) => {
            emit_value(v, vars, sigs, out);
            put(out, Op::Return);
        },
        HirExpr::Var { name, init, .. } => {
            emit_value(init, vars, sigs, out);
            let k = vars.len();
            put(out, Op::Define(k));
            bind_slot(vars, name, k);
        },
        HirExpr::If { .. } => emit_if(s, vars, sigs, out),
        HirExpr::While { cond, body } => {
            put(out, Op::WhileBegin);
            emit_expr(cond, vars, sigs, out);
            put(out, Op::WhileTest);
            emit_stmts_from(body, 0, vars, sigs, out);
            assert(body@.subrange(0, body@.len() as int) =~= body@);
            put(out, Op::WhileEnd { body_ends: crate::lowering::list_terminates(body) });
        },
        HirExpr::For { .. } => emit_for(s, vars, sigs, out),
        HirExpr::Block(v) => {
            emit_stmts_from(v, 0, vars, sigs, out);
            assert(v@.subrange(0, v@.len() as int) =~= v@);
        },
        HirExpr::Break => put(out, Op::Break),
        HirExpr::Continue => put(out, Op::Continue),
        HirExpr::Assign { target, value } => {
            emit_expr(value, vars, sigs, out);
            emit_store(target, vars, sigs, out);
        },
        HirExpr::TryCatch { .. } => emit_try(s, vars, sigs, out),
        HirExpr::Throw(v) => {
            emit_value(v, vars, sigs, out);
            put(out, Op::Effect { name: owned("js_throw"), nparams: 1, has_result: false });
            put(out, Op::Const(UNDEFINED));
            put(out, Op::Return);
        },
        HirExpr::ExprStmt(x) => match &**x {
            HirExpr::Assign { .. } | HirExpr::Var { .. } | HirExpr::Return(_) | HirExpr::Break
            | HirExpr::Continue | HirExpr::Throw(_) => emit_stmt(x, vars, sigs, out),
            _ => {
                emit_expr(x, vars, sigs, out);
                put(out, Op::Drop);
            },
        },
        _ => {
            emit_expr(s, vars, sigs, out);
            put(out, Op::Drop);
        },
    }
    assert(ops_view(out@) =~= start + stmt_ops(*s, vs, ss).0);
}

/// Appends the steps that store the value on the stack into `target`.
fn emit_store(
    target: &HirExpr,
    vars: &Vec<(String, usize)>,
    sigs: &CallTable,
    out: &mut Vec<Op>,
)
    ensures
        ops_view(final(out)@) == ops_view(old(out)@) + store_ops(
            *target,
            sigs_view(vars@),
            sigs@,
        ),
{
    let ghost start = ops_view(out@);
    match target {
        HirExpr::Identifier(n) => match lookup_arity(vars, n.as_str()) {
            Some(k) => put(out, Op::Store(k)),
            None => put(out, Op::Drop),
        },
        HirExpr::Index { object, index } => {
            emit_expr(object, vars, sigs, out);
            emit_expr(index, vars, sigs, out);
            put(out, Op::SetIndex);
        },
        HirExpr::Property { object, name } => {
            emit_expr(object, vars, sigs, out);
            put(out, Op::SetProperty(key_of(name.as_str())));
        },
        _ => put(out, Op::Drop),
    }
    assert(ops_view(out@) =~= start + store_ops(*target, sigs_view(vars@), sigs@));
}

/// Appends the steps of the statements of `v` from position `i` up to and
/// including the first that ends the path.
fn emit_stmts_from(
    v: &Vec<HirExpr>,
    i: usize,
    vars: &mut Vec<(String, usize)>,
    sigs: &CallTable,
    out: &mut Vec<Op>,
)
    requires
        i <= v@.len(),
    ensures
        ops_view(final(out)@) == ops_view(old(out)@) + stmts_ops(
            v@.subrange(i as int, v@.len() as int),
            sigs_view(old(vars)@),
            sigs@,
        ).0,
        sigs_view(final(vars)@) == stmts_ops(
            v@.subrange(i as int, v@.len() as int),
            sigs_view(old(vars)@),
            sigs@,
        ).1,
    decreases v, v@.len() - i,
{
    let ghost start = ops_view(out@);
    let ghost vs = sigs_view(vars@);
    let ghost ss = sigs@;
    let ghost rest = v@.subrange(i as int, v@.len() as int);
    if i < v.len() {
        assert(rest[0] == v@[i as int]);
        emit_stmt(&v[i], vars, sigs, out);
        if !crate::lowering::stmt_terminates(&v[i]) {
            emit_stmts_from(v, i + 1, vars, sigs, out);
            assert(rest.subrange(1, rest.len() as int) =~= v@.subrange(i + 1, v@.len() as int));
            assert(ops_view(out@) =~= start + stmts_ops(rest, vs, ss).0);
        }
    } else {
        assert(rest.len() == 0);
        assert(ops_view(out@) =~= start);
    }
}


/// Appends the steps of an `if` statement.
#[verifier::rlimit(50)]
fn emit_if(
    s: &HirExpr,
    vars: &mut Vec<(String, usize)>,
    sigs: &CallTable,
    out: &mut Vec<Op>,
)
    requires
        s is If,
    ensures
        ops_view(final(out)@) == ops_view(old(out)@) + stmt_ops(
            *s,
            sigs_view(old(vars)@),
            sigs@,
        ).0,
        sigs_view(final(vars)@) == stmt_ops(*s, sigs_view(old(vars)@), sigs@).1,
    decreases s, 0nat,
{
    let ghost start = ops_view(out@);
    let ghost vs = sigs_view(vars@);
    let ghost ss = sigs@;
    match s {
        HirExpr::If { cond, then_body, else_body } => {
            emit_expr(cond, vars, sigs, out);
            put(out, Op::IfBegin);
            emit_stmts_from(then_body, 0, vars, sigs, out);
            assert(then_body@.subrange(0, then_body@.len() as int) =~= then_body@);
            let then_ends = crate::lowering::list_terminates(then_body);
            put(out, Op::IfElse { then_ends });
            emit_opt_stmts(else_body, vars, sigs, out);
            let else_ends = match else_body {
                Some(b) => crate::lowering::list_terminates(b),
                None => false,
            };
            put(out, Op::IfEnd { then_ends, else_ends });
            assert(ops_view(out@) =~= start + stmt_ops(*s, vs, ss).0);
        },
        _ => {},
    }
}

/// Appends the steps of a `for` statement.
#[verifier::rlimit(50)]
fn emit_for(
    s: &HirExpr,
    vars: &mut Vec<(String, usize)>,
    sigs: &CallTable,
    out: &mut Vec<Op>,
)
    requires
        s is For,
    ensures
        ops_view(final(out)@) == ops_view(old(out)@) + stmt_ops(
            *s,
            sigs_view(old(vars)@),
            sigs@,
        ).0,
        sigs_view(final(vars)@) == stmt_ops(*s, sigs_view(old(vars)@), sigs@).1,
    decreases s, 0nat,
{
    let ghost start = ops_view(out@);
    let ghost vs = sigs_view(vars@);
    let ghost ss = sigs@;
    match s {
        HirExpr::For { init, cond, update, body } => {
            match init {
                Some(x) => emit_stmt(x, vars, sigs, out),
                None => {},
            }
            put(out, Op::ForBegin);
            match cond {
                Some(x) => {
                    emit_expr(x, vars, sigs, out);
                    put(out, Op::ForTest);
                },
                None => put(out, Op::ForSkipTest),
            }
            emit_stmts_from(body, 0, vars, sigs, out);
            assert(body@.subrange(0, body@.len() as int) =~= body@);
            put(out, Op::ForUpdate { body_ends: crate::lowering::list_terminates(body) });
            match update {
                Some(x) => emit_stmt(x, vars, sigs, out),
                None => {},
            }
            put(out, Op::ForEnd);
            assert(ops_view(out@) =~= start + stmt_ops(*s, vs, ss).0);
        },
        _ => {},
    }
}

/// Appends the steps of an optional list of statements.
fn emit_opt_stmts(
    b: &Option<Vec<HirExpr>>,
    vars: &mut Vec<(String, usize)>,
    sigs: &CallTable,
    out: &mut Vec<Op>,
)
    ensures
        ops_view(final(out)@) == ops_view(old(out)@) + opt_stmts_ops(
            *b,
            sigs_view(old(vars)@),
            sigs@,
        ).0,
        sigs_view(final(vars)@) == opt_stmts_ops(*b, sigs_view(old(vars)@), sigs@).1,
    decreases b, 0nat,
{
    match b {
        Some(v) => {
            emit_stmts_from(v, 0, vars, sigs, out);
            assert(v@.subrange(0, v@.len() as int) =~= v@);
        },
        None => {
            assert(ops_view(out@) =~= ops_view(old(out)@) + Seq::<OpV>::empty());
        },
    }
}

/// Appends the steps of a `catch` handler.
fn emit_handler(
    param: &Option<String>,
    body: &Option<Vec<HirExpr>>,
    vars: &mut Vec<(String, usize)>,
    sigs: &CallTable,
    out: &mut Vec<Op>,
)
    ensures
        ops_view(final(out)@) == ops_view(old(out)@) + handler_ops(
            *param,
            *body,
            sigs_view(old(vars)@),
            sigs@,
        ).0,
        sigs_view(final(vars)@) == handler_ops(
            *param,
            *body,
            sigs_view(old(vars)@),
            sigs@,
        ).1,
    decreases body, 0nat,
{
    let ghost start = ops_view(out@);
    let ghost vs = sigs_view(vars@);
    let ghost ss = sigs@;
    match body {
        Some(b) => {
            match param {
                Some(p) => {
                    let k = vars.len();
                    put(out, Op::BindException(k));
                    bind_slot(vars, p, k);
                },
                None => {},
            }
            put(out, Op::Effect { name: owned("js_clear_exception"), nparams: 0, has_result: false });
            emit_stmts_from(b, 0, vars, sigs, out);
            assert(b@.subrange(0, b@.len() as int) =~= b@);
        },
        None => {},
    }
    assert(ops_view(out@) =~= start + handler_ops(*param, *body, vs, ss).0);
}

/// Appends the steps of a `try` statement.
#[verifier::rlimit(50)]
fn emit_try(
    s: &HirExpr,
    vars: &mut Vec<(String, usize)>,
    sigs: &CallTable,
    out: &mut Vec<Op>,
)
    requires
        s is TryCatch,
    ensures
        ops_view(final(out)@) == ops_view(old(out)@) + stmt_ops(
            *s,
            sigs_view(old(vars)@),
            sigs@,
        ).0,
        sigs_view(final(vars)@) == stmt_ops(*s, sigs_view(old(vars)@), sigs@).1,
    decreases s, 0nat,
{
    let ghost start = ops_view(out@);
    let ghost vs = sigs_view(vars@);
    let ghost ss = sigs@;
    match s {
        HirExpr::TryCatch { try_body, catch_param, catch_body, finally_body } => {
            put(out, Op::TryBegin);
            emit_stmts_from(try_body, 0, vars, sigs, out);
            assert(try_body@.subrange(0, try_body@.len() as int) =~= try_body@);
            if !crate::lowering::list_terminates(try_body) {
                put(out, Op::Effect { name: owned("js_try_end"), nparams: 0, has_result: false });
                put(
                    out,
                    Op::Effect { name: owned("js_clear_exception"), nparams: 0, has_result: false },
                );
                put(out, Op::TryLeave);
            }
            put(out, Op::CatchBegin);
            emit_handler(catch_param, catch_body, vars, sigs, out);
            put(out, Op::Effect { name: owned("js_try_end"), nparams: 0, has_result: false });
            put(out, Op::TryLeave);
            put(out, Op::FinallyBegin);
            emit_opt_stmts(finally_body, vars, sigs, out);
            put(out, Op::TryEnd);
            assert(ops_view(out@) =~= start + stmt_ops(*s, vs, ss).0);
        },
        _ => {},
    }
}

/// The slots of a function's parameters: parameter `i` in slot `i`, a
/// repeated name keeping the last of its slots.
pub open spec fn param_slots(params: Seq<String>) -> Seq<(Seq<char>, nat)>
    decreases params.len(),
{
    if params.len() == 0 {
        Seq::empty()
    } else {
        bind(param_slots(params.drop_last()), params.last()@, (params.len() - 1) as nat)
    }
}

/// The steps of a function body: its statements up to and including the
/// first that ends the path, then `return undefined` where none does.
pub open spec fn function_ops(
    params: Seq<String>,
    body: Seq<HirExpr>,
    sigs: TableView,
) -> Seq<OpV> {
    stmts_ops(body, param_slots(params), sigs).0 + if any_terminates(body) {
        Seq::empty()
    } else {
        seq![OpV::Const(UNDEFINED), OpV::Return]
    }
}

/// The steps of the function with parameters `params` and body `body`,
/// given the program's signatures (see `function_signatures`).
pub fn function_steps(
    params: &Vec<String>,
    body: &Vec<HirExpr>,
    sigs: &CallTable,
) -> (r: Vec<Op>)
    ensures
        ops_view(r@) == function_ops(params@, body@, sigs@),
{
    let mut vars: Vec<(String, usize)> = Vec::new();
    let mut i: usize = 0;
    assert(sigs_view(vars@) =~= param_slots(params@.take(0)));
    while i < params.len()
        invariant
            i <= params@.len(),
            sigs_view(vars@) == param_slots(params@.take(i as int)),
        decreases params@.len() - i,
    {
        bind_slot(&mut vars, &params[i], i);
        proof {
            assert(params@.take(i + 1).drop_last() =~= params@.take(i as int));
        }
        i = i + 1;
    }
    assert(params@.take(i as int) =~= params@);
    let mut out: Vec<Op> = Vec::new();
    assert(ops_view(out@) =~= Seq::empty());
    emit_stmts_from(body, 0, &mut vars, sigs, &mut out);
    assert(body@.subrange(0, body@.len() as int) =~= body@);
    if !crate::lowering::list_terminates(body) {
        put(&mut out, Op::Const(UNDEFINED));
        put(&mut out, Op::Return);
    }
    assert(ops_view(out@) =~= function_ops(params@, body@, sigs@));
    out
}

/// How a step changes the height of the value stack.
pub open spec fn stack_effect(o: OpV) -> int {
    match o {
        OpV::Const(_) | OpV::Str(_) | OpV::Load(_) | OpV::ArrayBegin { .. } | OpV::ObjectBegin
        | OpV::ObjectKey(_) | OpV::Unresolved { .. } => 1,
        OpV::Define(_) | OpV::Store(_) | OpV::Drop | OpV::Binary { .. } | OpV::GetIndex
        | OpV::ArrayPush | OpV::Return | OpV::IfBegin | OpV::WhileTest | OpV::ForTest
        | OpV::TernaryBegin | OpV::TernaryElse | OpV::LogicBegin { .. } => -1,
        OpV::Import { nparams, .. } => 1 - nparams,
        OpV::Effect { nparams, .. } => 0 - nparams,
        OpV::CallUser { nargs, .. } => 1 - nargs,
        OpV::SetIndex => -3,
        OpV::SetProperty(_) | OpV::ObjectSet => -2,
        _ => 0,
    }
}

/// How a list of steps changes the height of the value stack.
pub open spec fn net_effect(s: Seq<OpV>) -> int
    decreases s.len(),
{
    if s.len() == 0 {
        0
    } else {
        net_effect(s.drop_last()) + stack_effect(s.last())
    }
}

/// The effect of two lists run one after the other is the sum.
pub proof fn lemma_net_concat(a: Seq<OpV>, b: Seq<OpV>)
    ensures
        net_effect(a + b) == net_effect(a) + net_effect(b),
    decreases b.len(),
{
    if b.len() == 0 {
        assert(a + b =~= a);
    } else {
        assert((a + b).drop_last() =~= a + b.drop_last());
        lemma_net_concat(a, b.drop_last());
    }
}

proof fn lemma_net3(a: Seq<OpV>, b: Seq<OpV>, c: Seq<OpV>)
    ensures
        net_effect(a + b + c) == net_effect(a) + net_effect(b) + net_effect(c),
{
    lemma_net_concat(a, b);
    lemma_net_concat(a + b, c);
}

proof fn lemma_net_one(o: OpV)
    ensures
        net_effect(seq![o]) == stack_effect(o),
{
    reveal_with_fuel(net_effect, 2);
    assert(seq![o].drop_last() =~= Seq::<OpV>::empty());
    assert(seq![o].last() == o);
}

/// What the call planner promises about the arguments a plan uses.
proof fn lemma_plan_arguments(c: HirExpr, n: nat, sigs: TableView)
    ensures
        call_plan(c, n, sigs) matches PlanView::Import { arity, .. } ==> arity <= n,
        call_plan(c, n, sigs) matches PlanView::ImportVoid { arity, .. } ==> arity <= n,
        call_plan(c, n, sigs) is Passthrough ==> n >= 1,
        call_plan(c, n, sigs) is Truthiness ==> n >= 1,
{
}

proof fn lemma_exprs_net(s: Seq<HirExpr>, vars: Seq<(Seq<char>, nat)>, sigs: TableView)
    ensures
        net_effect(exprs_ops(s, vars, sigs)) == s.len(),
    decreases s, 0nat,
{
    if s.len() > 0 {
        lemma_exprs_net(s.subrange(0, s.len() - 1), vars, sigs);
        law_expr_pushes_one(s[s.len() - 1], vars, sigs);
        lemma_net_concat(
            exprs_ops(s.subrange(0, s.len() - 1), vars, sigs),
            expr_ops(s[s.len() - 1], vars, sigs),
        );
    }
}

proof fn lemma_print_net(s: Seq<HirExpr>, vars: Seq<(Seq<char>, nat)>, sigs: TableView)
    ensures
        net_effect(print_ops(s, vars, sigs)) == 0,
    decreases s, 0nat,
{
    let p = effect_op("js_print"@, 1, true);
    lemma_net_one(p);
    if s.len() == 1 {
        law_expr_pushes_one(s[0], vars, sigs);
        lemma_net_concat(expr_ops(s[0], vars, sigs), seq![p]);
    } else if s.len() > 1 {
        let sp = effect_op("js_print_space"@, 0, true);
        lemma_net_one(sp);
        lemma_print_net(s.subrange(0, s.len() - 1), vars, sigs);
        law_expr_pushes_one(s[s.len() - 1], vars, sigs);
        let a = print_ops(s.subrange(0, s.len() - 1), vars, sigs);
        let x = expr_ops(s[s.len() - 1], vars, sigs);
        lemma_net3(a, seq![sp], x);
        lemma_net_concat(a + seq![sp] + x, seq![p]);
    }
}

proof fn lemma_elements_net(
    s: Seq<HirExpr>,
    vars: Seq<(Seq<char>, nat)>,
    sigs: TableView,
)
    ensures
        net_effect(elements_ops(s, vars, sigs)) == 0,
    decreases s, 0nat,
{
    if s.len() > 0 {
        lemma_elements_net(s.subrange(0, s.len() - 1), vars, sigs);
        law_expr_pushes_one(s[s.len() - 1], vars, sigs);
        lemma_net_one(OpV::ArrayPush);
        lemma_net3(
            elements_ops(s.subrange(0, s.len() - 1), vars, sigs),
            expr_ops(s[s.len() - 1], vars, sigs),
            seq![OpV::ArrayPush],
        );
    }
}

proof fn lemma_props_net(
    s: Seq<(String, HirExpr)>,
    vars: Seq<(Seq<char>, nat)>,
    sigs: TableView,
)
    ensures
        net_effect(props_ops(s, vars, sigs)) == 0,
    decreases s, 0nat,
{
    if s.len() > 0 {
        let a = props_ops(s.subrange(0, s.len() - 1), vars, sigs);
        let k = seq![OpV::ObjectKey(name_key(s[s.len() - 1].0@))];
        let x = expr_ops(s[s.len() - 1].1, vars, sigs);
        lemma_props_net(s.subrange(0, s.len() - 1), vars, sigs);
        law_expr_pushes_one(s[s.len() - 1].1, vars, sigs);
        lemma_net_one(OpV::ObjectKey(name_key(s[s.len() - 1].0@)));
        lemma_net_one(OpV::ObjectSet);
        lemma_net3(a, k, x);
        lemma_net_concat(a + k + x, seq![OpV::ObjectSet]);
    }
}

proof fn lemma_binary_net(e: HirExpr, vars: Seq<(Seq<char>, nat)>, sigs: TableView)
    requires
        e is Binary,
    ensures
        net_effect(expr_ops(e, vars, sigs)) == 1,
    decreases e, 0nat,
{
    match e {
        HirExpr::Binary { op, left, right } => {
            law_expr_pushes_one(*left, vars, sigs);
            law_expr_pushes_one(*right, vars, sigs);
            let l = expr_ops(*left, vars, sigs);
            let r = expr_ops(*right, vars, sigs);
            if op is And || op is Or {
                let b = OpV::LogicBegin { and: op is And };
                lemma_net_one(b);
                lemma_net_one(OpV::LogicEnd);
                lemma_net3(l, seq![b], r);
                lemma_net_concat(l + seq![b] + r, seq![OpV::LogicEnd]);
            } else {
                lemma_net_one(binary_step(op));
                lemma_net3(l, r, seq![binary_step(op)]);
            }
        },
        _ => {},
    }
}

/// The steps of an expression leave exactly one more value on the stack:
/// its value.
pub proof fn law_expr_pushes_one(
    e: HirExpr,
    vars: Seq<(Seq<char>, nat)>,
    sigs: TableView,
)
    ensures
        net_effect(expr_ops(e, vars, sigs)) == 1,
    decreases e, 1nat,
{
    reveal_with_fuel(net_effect, 4);
    match e {
        HirExpr::Binary { .. } => lemma_binary_net(e, vars, sigs),
        HirExpr::Unary { op, operand } => {
            law_expr_pushes_one(*operand, vars, sigs);
            lemma_net_one(OpV::IsZero);
            lemma_net_one(OpV::Negate);
            lemma_net_concat(expr_ops(*operand, vars, sigs), unary_steps(op));
        },
        HirExpr::Typeof(x) => {
            law_expr_pushes_one(*x, vars, sigs);
            let i = import_op("js_typeof"@, 1, UNDEFINED);
            lemma_net_one(i);
            lemma_net_concat(expr_ops(*x, vars, sigs), seq![i]);
        },
        HirExpr::Call { .. } => {
            lemma_call_net(e, vars, sigs);
        },
        HirExpr::Ternary { cond, then_expr, else_expr } => {
            law_expr_pushes_one(*cond, vars, sigs);
            law_expr_pushes_one(*then_expr, vars, sigs);
            law_expr_pushes_one(*else_expr, vars, sigs);
            let c = expr_ops(*cond, vars, sigs);
            let t = expr_ops(*then_expr, vars, sigs);
            let f = expr_ops(*else_expr, vars, sigs);
            lemma_net_one(OpV::TernaryBegin);
            lemma_net_one(OpV::TernaryElse);
            lemma_net_one(OpV::TernaryEnd);
            lemma_net3(c, seq![OpV::TernaryBegin], t);
            lemma_net3(c + seq![OpV::TernaryBegin] + t, seq![OpV::TernaryElse], f);
            lemma_net_concat(
                c + seq![OpV::TernaryBegin] + t + seq![OpV::TernaryElse] + f,
                seq![OpV::TernaryEnd],
            );
        },
        HirExpr::Array(v) => {
            let b = OpV::ArrayBegin {
                len: v@.len() as usize,
                placeholder: ARRAY_TAG | (v@.len() as u64 & 0x0000_FFFF_FFFF_FFFF),
            };
            lemma_elements_net(v@, vars, sigs);
            lemma_net_one(b);
            lemma_net_one(OpV::ArrayEnd);
            lemma_net3(seq![b], elements_ops(v@, vars, sigs), seq![OpV::ArrayEnd]);
        },
        HirExpr::Index { object, index } => {
            law_expr_pushes_one(*object, vars, sigs);
            law_expr_pushes_one(*index, vars, sigs);
            lemma_net_one(OpV::GetIndex);
            lemma_net3(expr_ops(*object, vars, sigs), expr_ops(*index, vars, sigs), seq![OpV::GetIndex]);
        },
        HirExpr::Object(v) => {
            lemma_props_net(v@, vars, sigs);
            lemma_net_one(OpV::ObjectBegin);
            lemma_net_one(OpV::ObjectEnd);
            lemma_net3(seq![OpV::ObjectBegin], props_ops(v@, vars, sigs), seq![OpV::ObjectEnd]);
        },
        HirExpr::Property { object, name } => {
            law_expr_pushes_one(*object, vars, sigs);
            let tail = if name@ == "length"@ {
                seq![import_op("js_property_length"@, 1, UNDEFINED)]
            } else {
                seq![OpV::Const(name_key(name@)), import_op("js_object_get"@, 2, UNDEFINED)]
            };
            lemma_net_concat(expr_ops(*object, vars, sigs), tail);
        },
        HirExpr::ExprStmt(x) => {
            law_expr_pushes_one(*x, vars, sigs);
        },
        _ => {},
    }
}

proof fn lemma_call_net(e: HirExpr, vars: Seq<(Seq<char>, nat)>, sigs: TableView)
    requires
        e is Call,
    ensures
        net_effect(expr_ops(e, vars, sigs)) == 1,
    decreases e, 0nat,
{
    reveal_with_fuel(net_effect, 3);
    let callee = *e->callee;
    let args = e->args;
    let n = args@.len();
    assert(args.len() == n);
    lemma_plan_arguments(callee, n, sigs);
    match call_plan(callee, n, sigs) {
        PlanView::User { arity } => {
            lemma_exprs_net(args@, vars, sigs);
            let o = OpV::CallUser { name: callee_name(callee), nargs: n as usize, arity: arity as usize };
            lemma_net_one(o);
            lemma_net_concat(exprs_ops(args@, vars, sigs), seq![o]);
        },
        PlanView::Print => {
            lemma_print_net(args@, vars, sigs);
            let tail = seq![effect_op("js_print_newline"@, 0, true), OpV::Const(UNDEFINED)];
            lemma_net_concat(print_ops(args@, vars, sigs), tail);
        },
        PlanView::Import { c_name, arity, fallback } => {
            let a = if arity < n {
                args@.take(arity as int)
            } else {
                args@
            };
            lemma_exprs_net(a, vars, sigs);
            let o = import_op(c_name, arity as usize, fallback);
            lemma_net_one(o);
            lemma_net_concat(exprs_ops(a, vars, sigs), seq![o]);
        },
        PlanView::ImportVoid { c_name, arity } => {
            let a = if arity < n {
                args@.take(arity as int)
            } else {
                args@
            };
            lemma_exprs_net(a, vars, sigs);
            let tail = seq![effect_op(c_name, arity as usize, false), OpV::Const(UNDEFINED)];
            lemma_net_concat(exprs_ops(a, vars, sigs), tail);
        },
        PlanView::Passthrough => {
            law_expr_pushes_one(args@[0], vars, sigs);
        },
        PlanView::Truthiness => {
            law_expr_pushes_one(args@[0], vars, sigs);
            lemma_net_one(OpV::NonZero);
            lemma_net_concat(expr_ops(args@[0], vars, sigs), seq![OpV::NonZero]);
        },
        PlanView::Constant(c) => {},
        PlanView::Unresolved { name } => lemma_net_one(OpV::Unresolved { name }),
    }
}

proof fn lemma_value_net(v: Option<Box<HirExpr>>, vars: Seq<(Seq<char>, nat)>, sigs: TableView)
    ensures
        net_effect(value_ops(v, vars, sigs)) == 1,
{
    match v {
        Some(x) => law_expr_pushes_one(*x, vars, sigs),
        None => lemma_net_one(OpV::Const(UNDEFINED)),
    }
}

proof fn lemma_store_net(t: HirExpr, vars: Seq<(Seq<char>, nat)>, sigs: TableView)
    ensures
        net_effect(store_ops(t, vars, sigs)) == -1,
{
    reveal_with_fuel(net_effect, 2);
    match t {
        HirExpr::Identifier(n) => {},
        HirExpr::Index { object, index } => {
            law_expr_pushes_one(*object, vars, sigs);
            law_expr_pushes_one(*index, vars, sigs);
            lemma_net_one(OpV::SetIndex);
            lemma_net3(expr_ops(*object, vars, sigs), expr_ops(*index, vars, sigs), seq![OpV::SetIndex]);
        },
        HirExpr::Property { object, name } => {
            law_expr_pushes_one(*object, vars, sigs);
            lemma_net_one(OpV::SetProperty(name_key(name@)));
            lemma_net_concat(expr_ops(*object, vars, sigs), seq![OpV::SetProperty(name_key(name@))]);
        },
        _ => {},
    }
}

proof fn lemma_opt_stmts_net(
    b: Option<Vec<HirExpr>>,
    vars: Seq<(Seq<char>, nat)>,
    sigs: TableView,
)
    ensures
        net_effect(opt_stmts_ops(b, vars, sigs).0) == 0,
    decreases b, 0nat,
{
    match b {
        Some(v) => lemma_stmts_net(v@, vars, sigs),
        None => {},
    }
}

proof fn lemma_handler_net(
    param: Option<String>,
    body: Option<Vec<HirExpr>>,
    vars: Seq<(Seq<char>, nat)>,
    sigs: TableView,
)
    ensures
        net_effect(handler_ops(param, body, vars, sigs).0) == 0,
    decreases body, 0nat,
{
    reveal_with_fuel(net_effect, 2);
    match body {
        Some(b) => {
            let bound = match param {
                Some(p) => (seq![OpV::BindException(vars.len() as usize)], bind(vars, p@, vars.len())),
                None => (Seq::<OpV>::empty(), vars),
            };
            let c = stmts_ops(b@, bound.1, sigs);
            let clear = effect_op("js_clear_exception"@, 0, false);
            lemma_stmts_net(b@, bound.1, sigs);
            lemma_net_one(clear);
            lemma_net_one(OpV::BindException(vars.len() as usize));
            lemma_net3(bound.0, seq![clear], c.0);
        },
        None => {},
    }
}

proof fn lemma_stmts_net(s: Seq<HirExpr>, vars: Seq<(Seq<char>, nat)>, sigs: TableView)
    ensures
        net_effect(stmts_ops(s, vars, sigs).0) == 0,
    decreases s, 0nat,
{
    if s.len() > 0 {
        let first = stmt_ops(s[0], vars, sigs);
        law_stmt_balanced(s[0], vars, sigs);
        lemma_stmts_net(s.subrange(1, s.len() as int), first.1, sigs);
        lemma_net_concat(first.0, stmts_ops(s.subrange(1, s.len() as int), first.1, sigs).0);
    }
}


/// The steps of a statement leave the value stack as they found it.
pub proof fn law_stmt_balanced(
    s: HirExpr,
    vars: Seq<(Seq<char>, nat)>,
    sigs: TableView,
)
    ensures
        net_effect(stmt_ops(s, vars, sigs).0) == 0,
    decreases s, 1nat,
{
    reveal_with_fuel(net_effect, 2);
    match s {
        HirExpr::Return(v) => {
            lemma_value_net(v, vars, sigs);
            lemma_net_one(OpV::Return);
            lemma_net_concat(value_ops(v, vars, sigs), seq![OpV::Return]);
        },
        HirExpr::Var { name, init, .. } => {
            lemma_value_net(init, vars, sigs);
            lemma_net_one(OpV::Define(vars.len() as usize));
            lemma_net_concat(value_ops(init, vars, sigs), seq![OpV::Define(vars.len() as usize)]);
        },
        HirExpr::If { .. } => lemma_if_net(s, vars, sigs),
        HirExpr::While { cond, body } => {
            let b = stmts_ops(body@, vars, sigs);
            law_expr_pushes_one(*cond, vars, sigs);
            lemma_stmts_net(body@, vars, sigs);
            lemma_net_one(OpV::WhileBegin);
            lemma_net_one(OpV::WhileTest);
            lemma_net_one(OpV::WhileEnd { body_ends: any_terminates(body@) });
            lemma_net3(seq![OpV::WhileBegin], expr_ops(*cond, vars, sigs), seq![OpV::WhileTest]);
            lemma_net3(
                seq![OpV::WhileBegin] + expr_ops(*cond, vars, sigs) + seq![OpV::WhileTest],
                b.0,
                seq![OpV::WhileEnd { body_ends: any_terminates(body@) }],
            );
        },
        HirExpr::For { .. } => lemma_for_net(s, vars, sigs),
        HirExpr::Block(v) => lemma_stmts_net(v@, vars, sigs),
        HirExpr::Break => lemma_net_one(OpV::Break),
        HirExpr::Continue => lemma_net_one(OpV::Continue),
        HirExpr::Assign { target, value } => {
            law_expr_pushes_one(*value, vars, sigs);
            lemma_store_net(*target, vars, sigs);
            lemma_net_concat(expr_ops(*value, vars, sigs), store_ops(*target, vars, sigs));
        },
        HirExpr::TryCatch { .. } => lemma_try_net(s, vars, sigs),
        HirExpr::Throw(v) => {
            lemma_value_net(v, vars, sigs);
            let tail = seq![effect_op("js_throw"@, 1, false), OpV::Const(UNDEFINED), OpV::Return];
            lemma_net_triple(effect_op("js_throw"@, 1, false), OpV::Const(UNDEFINED), OpV::Return);
            lemma_net_concat(value_ops(v, vars, sigs), tail);
        },
        HirExpr::ExprStmt(x) => {
            match *x {
                HirExpr::Assign { .. } | HirExpr::Var { .. } | HirExpr::Return(_) | HirExpr::Break
                | HirExpr::Continue | HirExpr::Throw(_) => law_stmt_balanced(*x, vars, sigs),
                _ => {
                    law_expr_pushes_one(*x, vars, sigs);
                    lemma_net_one(OpV::Drop);
                    lemma_net_concat(expr_ops(*x, vars, sigs), seq![OpV::Drop]);
                },
            }
        },
        _ => {
            law_expr_pushes_one(s, vars, sigs);
            lemma_net_one(OpV::Drop);
            lemma_net_concat(expr_ops(s, vars, sigs), seq![OpV::Drop]);
        },
    }
}

proof fn lemma_if_net(s: HirExpr, vars: Seq<(Seq<char>, nat)>, sigs: TableView)
    requires
        s is If,
    ensures
        net_effect(stmt_ops(s, vars, sigs).0) == 0,
    decreases s, 0nat,
{
    match s {
        HirExpr::If { cond, then_body, else_body } => {
            let t = stmts_ops(then_body@, vars, sigs);
            let f = opt_stmts_ops(else_body, t.1, sigs);
            let te = any_terminates(then_body@);
            let fe = match else_body {
                Some(b) => any_terminates(b@),
                None => false,
            };
            let c = expr_ops(*cond, vars, sigs);
            law_expr_pushes_one(*cond, vars, sigs);
            lemma_stmts_net(then_body@, vars, sigs);
            lemma_opt_stmts_net(else_body, t.1, sigs);
            lemma_net_one(OpV::IfBegin);
            lemma_net_one(OpV::IfElse { then_ends: te });
            lemma_net_one(OpV::IfEnd { then_ends: te, else_ends: fe });
            lemma_net3(c, seq![OpV::IfBegin], t.0);
            lemma_net3(c + seq![OpV::IfBegin] + t.0, seq![OpV::IfElse { then_ends: te }], f.0);
            lemma_net_concat(
                c + seq![OpV::IfBegin] + t.0 + seq![OpV::IfElse { then_ends: te }] + f.0,
                seq![OpV::IfEnd { then_ends: te, else_ends: fe }],
            );
        },
        _ => {},
    }
}

proof fn lemma_for_net(s: HirExpr, vars: Seq<(Seq<char>, nat)>, sigs: TableView)
    requires
        s is For,
    ensures
        net_effect(stmt_ops(s, vars, sigs).0) == 0,
    decreases s, 0nat,
{
    match s {
        HirExpr::For { init, cond, update, body } => {
            let i = match init {
                Some(x) => stmt_ops(*x, vars, sigs),
                None => (Seq::empty(), vars),
            };
            match init {
                Some(x) => law_stmt_balanced(*x, vars, sigs),
                None => {},
            }
            let c = match cond {
                Some(x) => expr_ops(*x, i.1, sigs) + seq![OpV::ForTest],
                None => seq![OpV::ForSkipTest],
            };
            lemma_net_one(OpV::ForTest);
            lemma_net_one(OpV::ForSkipTest);
            match cond {
                Some(x) => {
                    law_expr_pushes_one(*x, i.1, sigs);
                    lemma_net_concat(expr_ops(*x, i.1, sigs), seq![OpV::ForTest]);
                },
                None => {},
            }
            let b = stmts_ops(body@, i.1, sigs);
            lemma_stmts_net(body@, i.1, sigs);
            let u = match update {
                Some(x) => stmt_ops(*x, b.1, sigs),
                None => (Seq::empty(), b.1),
            };
            match update {
                Some(x) => law_stmt_balanced(*x, b.1, sigs),
                None => {},
            }
            lemma_net_one(OpV::ForBegin);
            lemma_net_one(OpV::ForUpdate { body_ends: any_terminates(body@) });
            lemma_net_one(OpV::ForEnd);
            lemma_net3(i.0, seq![OpV::ForBegin], c);
            lemma_net3(i.0 + seq![OpV::ForBegin] + c, b.0, seq![OpV::ForUpdate { body_ends: any_terminates(body@) }]);
            lemma_net3(i.0 + seq![OpV::ForBegin] + c + b.0 + seq![OpV::ForUpdate { body_ends: any_terminates(body@) }], u.0, seq![OpV::ForEnd]);
        },
        _ => {},
    }
}

proof fn lemma_net_triple(a: OpV, b: OpV, c: OpV)
    ensures
        net_effect(seq![a, b, c]) == stack_effect(a) + stack_effect(b) + stack_effect(c),
{
    reveal_with_fuel(net_effect, 4);
    assert(seq![a, b, c].drop_last() =~= seq![a, b]);
    assert(seq![a, b].drop_last() =~= seq![a]);
    assert(seq![a].drop_last() =~= Seq::<OpV>::empty());
}

#[verifier::rlimit(50)]
proof fn lemma_try_net(s: HirExpr, vars: Seq<(Seq<char>, nat)>, sigs: TableView)
    requires
        s is TryCatch,
    ensures
        net_effect(stmt_ops(s, vars, sigs).0) == 0,
    decreases s, 0nat,
{
    match s {
        HirExpr::TryCatch { try_body, catch_param, catch_body, finally_body } => {
            let t = stmts_ops(try_body@, vars, sigs);
            lemma_stmts_net(try_body@, vars, sigs);
            let leave = if any_terminates(try_body@) {
                Seq::empty()
            } else {
                seq![
                    effect_op("js_try_end"@, 0, false),
                    effect_op("js_clear_exception"@, 0, false),
                    OpV::TryLeave,
                ]
            };
            let h = handler_ops(catch_param, catch_body, t.1, sigs);
            lemma_handler_net(catch_param, catch_body, t.1, sigs);
            let f = opt_stmts_ops(finally_body, h.1, sigs);
            lemma_opt_stmts_net(finally_body, h.1, sigs);
            let mid = seq![effect_op("js_try_end"@, 0, false), OpV::TryLeave, OpV::FinallyBegin];
            lemma_net_triple(effect_op("js_try_end"@, 0, false), OpV::TryLeave, OpV::FinallyBegin);
            lemma_net_triple(
                effect_op("js_try_end"@, 0, false),
                effect_op("js_clear_exception"@, 0, false),
                OpV::TryLeave,
            );
            lemma_net_one(OpV::TryBegin);
            lemma_net_one(OpV::CatchBegin);
            lemma_net_one(OpV::TryEnd);
            lemma_net3(seq![OpV::TryBegin], t.0, leave);
            lemma_net3(seq![OpV::TryBegin] + t.0 + leave, seq![OpV::CatchBegin], h.0);
            lemma_net3(seq![OpV::TryBegin] + t.0 + leave + seq![OpV::CatchBegin] + h.0, mid, f.0);
            lemma_net_concat(
                seq![OpV::TryBegin] + t.0 + leave + seq![OpV::CatchBegin] + h.0 + mid + f.0,
                seq![OpV::TryEnd],
            );
        },
        _ => {},
    }
}

/// The steps the back end emits for a function leave the value stack as
/// they found it: what each statement pushes is consumed within it.
pub proof fn law_function_steps_balanced(
    params: Seq<String>,
    body: Seq<HirExpr>,
    sigs: TableView,
)
    ensures
        net_effect(function_ops(params, body, sigs)) == 0,
{
    reveal_with_fuel(net_effect, 3);
    let vars = param_slots(params);
    lemma_stmts_net(body, vars, sigs);
    let tail = if any_terminates(body) {
        Seq::empty()
    } else {
        seq![OpV::Const(UNDEFINED), OpV::Return]
    };
    lemma_net_concat(stmts_ops(body, vars, sigs).0, tail);
}

/// How many values a step reads from the stack: those it pops and, for
/// `ObjectSet`, the object below them.
pub open spec fn stack_demand(o: OpV) -> int {
    match o {
        OpV::Define(_) | OpV::Store(_) | OpV::Drop | OpV::IsZero | OpV::Negate | OpV::NonZero | OpV::Return
        | OpV::IfBegin | OpV::WhileTest | OpV::ForTest | OpV::TernaryBegin | OpV::TernaryElse
        | OpV::TernaryEnd | OpV::LogicBegin { .. } | OpV::LogicEnd => 1,
        OpV::Binary { .. } | OpV::GetIndex | OpV::ArrayPush | OpV::SetProperty(_) => 2,
        OpV::Import { nparams, .. } => nparams as int,
        OpV::Effect { nparams, .. } => nparams as int,
        OpV::CallUser { nargs, .. } => nargs as int,
        OpV::SetIndex | OpV::ObjectSet => 3,
        _ => 0,
    }
}

/// The larger of two integers.
pub open spec fn larger(x: int, y: int) -> int {
    if x > y {
        x
    } else {
        y
    }
}

/// The least stack height from which the steps run without any step
/// reading below the bottom of the stack.
pub open spec fn stack_need(s: Seq<OpV>) -> int
    decreases s.len(),
{
    if s.len() == 0 {
        0
    } else {
        larger(stack_need(s.drop_last()), stack_demand(s.last()) - net_effect(s.drop_last()))
    }
}

proof fn lemma_need_floor(a: Seq<OpV>)
    ensures
        stack_need(a) >= 0,
        stack_need(a) >= 0 - net_effect(a),
    decreases a.len(),
{
    if a.len() > 0 {
        lemma_need_floor(a.drop_last());
    }
}

/// Running two lists one after the other: the effects add up, and the
/// second list's need counts from where the first left the stack.
proof fn lemma_chain(a: Seq<OpV>, b: Seq<OpV>)
    ensures
        net_effect(a + b) == net_effect(a) + net_effect(b),
        stack_need(a + b) == larger(stack_need(a), stack_need(b) - net_effect(a)),
    decreases b.len(),
{
    lemma_net_concat(a, b);
    if b.len() == 0 {
        assert(a + b =~= a);
        lemma_need_floor(a);
    } else {
        assert((a + b).drop_last() =~= a + b.drop_last());
        assert((a + b).last() == b.last());
        lemma_chain(a, b.drop_last());
        lemma_net_concat(a, b.drop_last());
    }
}

proof fn lemma_one(o: OpV)
    ensures
        net_effect(seq![o]) == stack_effect(o),
        stack_need(seq![o]) == larger(0, stack_demand(o)),
{
    reveal_with_fuel(stack_need, 2);
    reveal_with_fuel(net_effect, 2);
    lemma_net_one(o);
    assert(seq![o].drop_last() =~= Seq::<OpV>::empty());
    assert(seq![o].last() == o);
}

proof fn lemma_exprs_need(s: Seq<HirExpr>, vars: Seq<(Seq<char>, nat)>, sigs: TableView)
    ensures
        stack_need(exprs_ops(s, vars, sigs)) == 0,
        net_effect(exprs_ops(s, vars, sigs)) == s.len(),
    decreases s, 0nat,
{
    lemma_exprs_net(s, vars, sigs);
    if s.len() > 0 {
        lemma_exprs_need(s.subrange(0, s.len() - 1), vars, sigs);
        law_expr_reads_within(s[s.len() - 1], vars, sigs);
        law_expr_pushes_one(s[s.len() - 1], vars, sigs);
        lemma_chain(
            exprs_ops(s.subrange(0, s.len() - 1), vars, sigs),
            expr_ops(s[s.len() - 1], vars, sigs),
        );
    }
}

proof fn lemma_print_need(s: Seq<HirExpr>, vars: Seq<(Seq<char>, nat)>, sigs: TableView)
    ensures
        stack_need(print_ops(s, vars, sigs)) == 0,
    decreases s, 0nat,
{
    lemma_print_net(s, vars, sigs);
    let p = effect_op("js_print"@, 1, true);
    lemma_one(p);
    if s.len() == 1 {
        law_expr_reads_within(s[0], vars, sigs);
        law_expr_pushes_one(s[0], vars, sigs);
        lemma_chain(expr_ops(s[0], vars, sigs), seq![p]);
    } else if s.len() > 1 {
        let sp = effect_op("js_print_space"@, 0, true);
        lemma_one(sp);
        lemma_print_need(s.subrange(0, s.len() - 1), vars, sigs);
        lemma_print_net(s.subrange(0, s.len() - 1), vars, sigs);
        law_expr_reads_within(s[s.len() - 1], vars, sigs);
        law_expr_pushes_one(s[s.len() - 1], vars, sigs);
        let a = print_ops(s.subrange(0, s.len() - 1), vars, sigs);
        let x = expr_ops(s[s.len() - 1], vars, sigs);
        lemma_chain(a, seq![sp]);
        lemma_chain(a + seq![sp], x);
        lemma_chain(a + seq![sp] + x, seq![p]);
    }
}

proof fn lemma_elements_need(
    s: Seq<HirExpr>,
    vars: Seq<(Seq<char>, nat)>,
    sigs: TableView,
)
    ensures
        stack_need(elements_ops(s, vars, sigs)) <= 1,
    decreases s, 0nat,
{
    lemma_elements_net(s, vars, sigs);
    if s.len() > 0 {
        let a = elements_ops(s.subrange(0, s.len() - 1), vars, sigs);
        let x = expr_ops(s[s.len() - 1], vars, sigs);
        lemma_elements_need(s.subrange(0, s.len() - 1), vars, sigs);
        lemma_elements_net(s.subrange(0, s.len() - 1), vars, sigs);
        law_expr_reads_within(s[s.len() - 1], vars, sigs);
        law_expr_pushes_one(s[s.len() - 1], vars, sigs);
        lemma_one(OpV::ArrayPush);
        lemma_chain(a, x);
        lemma_chain(a + x, seq![OpV::ArrayPush]);
    }
}

proof fn lemma_props_need(
    s: Seq<(String, HirExpr)>,
    vars: Seq<(Seq<char>, nat)>,
    sigs: TableView,
)
    ensures
        stack_need(props_ops(s, vars, sigs)) <= 1,
    decreases s, 0nat,
{
    lemma_props_net(s, vars, sigs);
    if s.len() > 0 {
        let a = props_ops(s.subrange(0, s.len() - 1), vars, sigs);
        let ko = OpV::ObjectKey(name_key(s[s.len() - 1].0@));
        let x = expr_ops(s[s.len() - 1].1, vars, sigs);
        lemma_props_need(s.subrange(0, s.len() - 1), vars, sigs);
        lemma_props_net(s.subrange(0, s.len() - 1), vars, sigs);
        law_expr_reads_within(s[s.len() - 1].1, vars, sigs);
        law_expr_pushes_one(s[s.len() - 1].1, vars, sigs);
        lemma_one(ko);
        lemma_one(OpV::ObjectSet);
        lemma_chain(a, seq![ko]);
        lemma_chain(a + seq![ko], x);
        lemma_chain(a + seq![ko] + x, seq![OpV::ObjectSet]);
    }
}

/// The steps of an expression never read below the height at which they
/// start: they run from any stack, the empty one included.
pub proof fn law_expr_reads_within(
    e: HirExpr,
    vars: Seq<(Seq<char>, nat)>,
    sigs: TableView,
)
    ensures
        stack_need(expr_ops(e, vars, sigs)) == 0,
    decreases e, 1nat,
{
    match e {
        HirExpr::Binary { op, left, right } => {
            let l = expr_ops(*left, vars, sigs);
            let r = expr_ops(*right, vars, sigs);
            law_expr_reads_within(*left, vars, sigs);
            law_expr_reads_within(*right, vars, sigs);
            law_expr_pushes_one(*left, vars, sigs);
            law_expr_pushes_one(*right, vars, sigs);
            if op is And || op is Or {
                let b = OpV::LogicBegin { and: op is And };
                lemma_one(b);
                lemma_one(OpV::LogicEnd);
                lemma_chain(l, seq![b]);
                lemma_chain(l + seq![b], r);
                lemma_chain(l + seq![b] + r, seq![OpV::LogicEnd]);
            } else {
                lemma_one(binary_step(op));
                lemma_chain(l, r);
                lemma_chain(l + r, seq![binary_step(op)]);
            }
        },
        HirExpr::Unary { op, operand } => {
            let x = expr_ops(*operand, vars, sigs);
            law_expr_reads_within(*operand, vars, sigs);
            law_expr_pushes_one(*operand, vars, sigs);
            lemma_one(OpV::IsZero);
            lemma_one(OpV::Negate);
            lemma_need_floor(Seq::<OpV>::empty());
            lemma_chain(x, unary_steps(op));
        },
        HirExpr::Typeof(x) => {
            let i = import_op("js_typeof"@, 1, UNDEFINED);
            law_expr_reads_within(*x, vars, sigs);
            law_expr_pushes_one(*x, vars, sigs);
            lemma_one(i);
            lemma_chain(expr_ops(*x, vars, sigs), seq![i]);
        },
        HirExpr::Call { .. } => lemma_call_need(e, vars, sigs),
        HirExpr::Ternary { cond, then_expr, else_expr } => {
            let c = expr_ops(*cond, vars, sigs);
            let t = expr_ops(*then_expr, vars, sigs);
            let f = expr_ops(*else_expr, vars, sigs);
            law_expr_reads_within(*cond, vars, sigs);
            law_expr_reads_within(*then_expr, vars, sigs);
            law_expr_reads_within(*else_expr, vars, sigs);
            law_expr_pushes_one(*cond, vars, sigs);
            law_expr_pushes_one(*then_expr, vars, sigs);
            law_expr_pushes_one(*else_expr, vars, sigs);
            lemma_one(OpV::TernaryBegin);
            lemma_one(OpV::TernaryElse);
            lemma_one(OpV::TernaryEnd);
            lemma_chain(c, seq![OpV::TernaryBegin]);
            lemma_chain(c + seq![OpV::TernaryBegin], t);
            lemma_chain(c + seq![OpV::TernaryBegin] + t, seq![OpV::TernaryElse]);
            lemma_chain(c + seq![OpV::TernaryBegin] + t + seq![OpV::TernaryElse], f);
            lemma_chain(
                c + seq![OpV::TernaryBegin] + t + seq![OpV::TernaryElse] + f,
                seq![OpV::TernaryEnd],
            );
        },
        HirExpr::Array(v) => {
            let b = OpV::ArrayBegin {
                len: v@.len() as usize,
                placeholder: ARRAY_TAG | (v@.len() as u64 & 0x0000_FFFF_FFFF_FFFF),
            };
            let x = elements_ops(v@, vars, sigs);
            lemma_elements_need(v@, vars, sigs);
            lemma_elements_net(v@, vars, sigs);
            lemma_one(b);
            lemma_one(OpV::ArrayEnd);
            lemma_chain(seq![b], x);
            lemma_chain(seq![b] + x, seq![OpV::ArrayEnd]);
        },
        HirExpr::Index { object, index } => {
            let o = expr_ops(*object, vars, sigs);
            let i = expr_ops(*index, vars, sigs);
            law_expr_reads_within(*object, vars, sigs);
            law_expr_reads_within(*index, vars, sigs);
            law_expr_pushes_one(*object, vars, sigs);
            law_expr_pushes_one(*index, vars, sigs);
            lemma_one(OpV::GetIndex);
            lemma_chain(o, i);
            lemma_chain(o + i, seq![OpV::GetIndex]);
        },
        HirExpr::Object(v) => {
            let x = props_ops(v@, vars, sigs);
            lemma_props_need(v@, vars, sigs);
            lemma_props_net(v@, vars, sigs);
            lemma_one(OpV::ObjectBegin);
            lemma_one(OpV::ObjectEnd);
            lemma_chain(seq![OpV::ObjectBegin], x);
            lemma_chain(seq![OpV::ObjectBegin] + x, seq![OpV::ObjectEnd]);
        },
        HirExpr::Property { object, name } => {
            let o = expr_ops(*object, vars, sigs);
            law_expr_reads_within(*object, vars, sigs);
            law_expr_pushes_one(*object, vars, sigs);
            if name@ == "length"@ {
                let i = import_op("js_property_length"@, 1, UNDEFINED);
                lemma_one(i);
                lemma_chain(o, seq![i]);
            } else {
                let k = OpV::Const(name_key(name@));
                let i = import_op("js_object_get"@, 2, UNDEFINED);
                lemma_one(k);
                lemma_one(i);
                lemma_chain(seq![k], seq![i]);
                assert(seq![k] + seq![i] =~= seq![k, i]);
                lemma_chain(o, seq![k, i]);
            }
        },
        HirExpr::ExprStmt(x) => law_expr_reads_within(*x, vars, sigs),
        HirExpr::Identifier(n) => {
            lemma_one(OpV::Const(UNDEFINED));
            match declared_arity(vars, n@) {
                Some(k) => lemma_one(OpV::Load(k as usize)),
                None => {},
            }
        },
        HirExpr::Number(b) => lemma_one(OpV::Const(b)),
        HirExpr::Boolean(t) => lemma_one(OpV::Const(if t { TRUE } else { FALSE })),
        HirExpr::String(x) => lemma_one(OpV::Str(x@)),
        _ => lemma_one(OpV::Const(if e is Null { NULL } else { UNDEFINED })),
    }
}

proof fn lemma_call_need(e: HirExpr, vars: Seq<(Seq<char>, nat)>, sigs: TableView)
    requires
        e is Call,
    ensures
        stack_need(expr_ops(e, vars, sigs)) == 0,
    decreases e, 0nat,
{
    let callee = *e->callee;
    let args = e->args;
    let n = args@.len();
    assert(args.len() == n);
    lemma_plan_arguments(callee, n, sigs);
    match call_plan(callee, n, sigs) {
        PlanView::User { arity } => {
            lemma_exprs_need(args@, vars, sigs);
            let o = OpV::CallUser { name: callee_name(callee), nargs: n as usize, arity: arity as usize };
            lemma_one(o);
            lemma_chain(exprs_ops(args@, vars, sigs), seq![o]);
        },
        PlanView::Print => {
            lemma_print_need(args@, vars, sigs);
            lemma_print_net(args@, vars, sigs);
            let nl = effect_op("js_print_newline"@, 0, true);
            lemma_one(nl);
            lemma_one(OpV::Const(UNDEFINED));
            lemma_chain(seq![nl], seq![OpV::Const(UNDEFINED)]);
            assert(seq![nl] + seq![OpV::Const(UNDEFINED)] =~= seq![nl, OpV::Const(UNDEFINED)]);
            lemma_chain(print_ops(args@, vars, sigs), seq![nl, OpV::Const(UNDEFINED)]);
        },
        PlanView::Import { c_name, arity, fallback } => {
            let a = if arity < n {
                args@.take(arity as int)
            } else {
                args@
            };
            lemma_exprs_need(a, vars, sigs);
            let o = import_op(c_name, arity as usize, fallback);
            lemma_one(o);
            lemma_chain(exprs_ops(a, vars, sigs), seq![o]);
        },
        PlanView::ImportVoid { c_name, arity } => {
            let a = if arity < n {
                args@.take(arity as int)
            } else {
                args@
            };
            lemma_exprs_need(a, vars, sigs);
            let o = effect_op(c_name, arity as usize, false);
            lemma_one(o);
            lemma_one(OpV::Const(UNDEFINED));
            lemma_chain(seq![o], seq![OpV::Const(UNDEFINED)]);
            assert(seq![o] + seq![OpV::Const(UNDEFINED)] =~= seq![o, OpV::Const(UNDEFINED)]);
            lemma_chain(exprs_ops(a, vars, sigs), seq![o, OpV::Const(UNDEFINED)]);
        },
        PlanView::Passthrough => {
            law_expr_reads_within(args@[0], vars, sigs);
        },
        PlanView::Truthiness => {
            law_expr_reads_within(args@[0], vars, sigs);
            law_expr_pushes_one(args@[0], vars, sigs);
            lemma_one(OpV::NonZero);
            lemma_chain(expr_ops(args@[0], vars, sigs), seq![OpV::NonZero]);
        },
        PlanView::Constant(c) => lemma_one(OpV::Const(c)),
        PlanView::Unresolved { name } => lemma_one(OpV::Unresolved { name }),
    }
}

proof fn lemma_three(a: OpV, b: OpV, c: OpV)
    ensures
        net_effect(seq![a, b, c]) == stack_effect(a) + stack_effect(b) + stack_effect(c),
        stack_need(seq![a, b, c]) == stack_need(seq![a] + seq![b] + seq![c]),
{
    lemma_net_triple(a, b, c);
    assert(seq![a] + seq![b] + seq![c] =~= seq![a, b, c]);
}

proof fn lemma_value_need(v: Option<Box<HirExpr>>, vars: Seq<(Seq<char>, nat)>, sigs: TableView)
    ensures
        stack_need(value_ops(v, vars, sigs)) == 0,
        net_effect(value_ops(v, vars, sigs)) == 1,
{
    lemma_value_net(v, vars, sigs);
    match v {
        Some(x) => law_expr_reads_within(*x, vars, sigs),
        None => lemma_one(OpV::Const(UNDEFINED)),
    }
}

proof fn lemma_store_need(t: HirExpr, vars: Seq<(Seq<char>, nat)>, sigs: TableView)
    ensures
        stack_need(store_ops(t, vars, sigs)) <= 1,
        net_effect(store_ops(t, vars, sigs)) == -1,
{
    lemma_store_net(t, vars, sigs);
    lemma_one(OpV::Drop);
    match t {
        HirExpr::Identifier(n) => {
            match declared_arity(vars, n@) {
                Some(k) => lemma_one(OpV::Store(k as usize)),
                None => {},
            }
        },
        HirExpr::Index { object, index } => {
            let o = expr_ops(*object, vars, sigs);
            let i = expr_ops(*index, vars, sigs);
            law_expr_reads_within(*object, vars, sigs);
            law_expr_reads_within(*index, vars, sigs);
            law_expr_pushes_one(*object, vars, sigs);
            law_expr_pushes_one(*index, vars, sigs);
            lemma_one(OpV::SetIndex);
            lemma_chain(o, i);
            lemma_chain(o + i, seq![OpV::SetIndex]);
        },
        HirExpr::Property { object, name } => {
            let o = expr_ops(*object, vars, sigs);
            law_expr_reads_within(*object, vars, sigs);
            law_expr_pushes_one(*object, vars, sigs);
            lemma_one(OpV::SetProperty(name_key(name@)));
            lemma_chain(o, seq![OpV::SetProperty(name_key(name@))]);
        },
        _ => {},
    }
}

proof fn lemma_stmts_need(s: Seq<HirExpr>, vars: Seq<(Seq<char>, nat)>, sigs: TableView)
    ensures
        stack_need(stmts_ops(s, vars, sigs).0) == 0,
        net_effect(stmts_ops(s, vars, sigs).0) == 0,
    decreases s, 0nat,
{
    lemma_stmts_net(s, vars, sigs);
    if s.len() > 0 {
        let first = stmt_ops(s[0], vars, sigs);
        let rest = stmts_ops(s.subrange(1, s.len() as int), first.1, sigs);
        law_stmt_reads_within(s[0], vars, sigs);
        law_stmt_balanced(s[0], vars, sigs);
        lemma_stmts_need(s.subrange(1, s.len() as int), first.1, sigs);
        lemma_chain(first.0, rest.0);
    }
}

proof fn lemma_opt_stmts_need(
    b: Option<Vec<HirExpr>>,
    vars: Seq<(Seq<char>, nat)>,
    sigs: TableView,
)
    ensures
        stack_need(opt_stmts_ops(b, vars, sigs).0) == 0,
        net_effect(opt_stmts_ops(b, vars, sigs).0) == 0,
    decreases b, 0nat,
{
    match b {
        Some(v) => lemma_stmts_need(v@, vars, sigs),
        None => {},
    }
}


proof fn lemma_handler_need(
    param: Option<String>,
    body: Option<Vec<HirExpr>>,
    vars: Seq<(Seq<char>, nat)>,
    sigs: TableView,
)
    ensures
        stack_need(handler_ops(param, body, vars, sigs).0) == 0,
    decreases body, 0nat,
{
    match body {
        Some(b) => {
            let bound = match param {
                Some(p) => (seq![OpV::BindException(vars.len() as usize)], bind(vars, p@, vars.len())),
                None => (Seq::<OpV>::empty(), vars),
            };
            let c = stmts_ops(b@, bound.1, sigs);
            let clear = effect_op("js_clear_exception"@, 0, false);
            lemma_stmts_need(b@, bound.1, sigs);
            lemma_one(clear);
            lemma_one(OpV::BindException(vars.len() as usize));
            lemma_need_floor(Seq::<OpV>::empty());
            lemma_chain(bound.0, seq![clear]);
            lemma_chain(bound.0 + seq![clear], c.0);
        },
        None => {},
    }
}

/// The steps of a statement never read below the height at which they
/// start.
pub proof fn law_stmt_reads_within(
    s: HirExpr,
    vars: Seq<(Seq<char>, nat)>,
    sigs: TableView,
)
    ensures
        stack_need(stmt_ops(s, vars, sigs).0) == 0,
    decreases s, 1nat,
{
    match s {
        HirExpr::Return(v) => {
            lemma_value_need(v, vars, sigs);
            lemma_one(OpV::Return);
            lemma_chain(value_ops(v, vars, sigs), seq![OpV::Return]);
        },
        HirExpr::Var { name, init, .. } => {
            lemma_value_need(init, vars, sigs);
            lemma_one(OpV::Define(vars.len() as usize));
            lemma_chain(value_ops(init, vars, sigs), seq![OpV::Define(vars.len() as usize)]);
        },
        HirExpr::If { .. } => lemma_if_need(s, vars, sigs),
        HirExpr::While { cond, body } => {
            let c = expr_ops(*cond, vars, sigs);
            let b = stmts_ops(body@, vars, sigs);
            law_expr_reads_within(*cond, vars, sigs);
            law_expr_pushes_one(*cond, vars, sigs);
            lemma_stmts_need(body@, vars, sigs);
            lemma_one(OpV::WhileBegin);
            lemma_one(OpV::WhileTest);
            lemma_one(OpV::WhileEnd { body_ends: any_terminates(body@) });
            lemma_chain(seq![OpV::WhileBegin], c);
            lemma_chain(seq![OpV::WhileBegin] + c, seq![OpV::WhileTest]);
            lemma_chain(seq![OpV::WhileBegin] + c + seq![OpV::WhileTest], b.0);
            lemma_chain(seq![OpV::WhileBegin] + c + seq![OpV::WhileTest] + b.0, seq![OpV::WhileEnd { body_ends: any_terminates(body@) }]);
        },
        HirExpr::For { .. } => lemma_for_need(s, vars, sigs),
        HirExpr::Block(v) => lemma_stmts_need(v@, vars, sigs),
        HirExpr::Break => lemma_one(OpV::Break),
        HirExpr::Continue => lemma_one(OpV::Continue),
        HirExpr::Assign { target, value } => {
            lemma_value_need(Some(value), vars, sigs);
            lemma_store_need(*target, vars, sigs);
            lemma_chain(expr_ops(*value, vars, sigs), store_ops(*target, vars, sigs));
        },
        HirExpr::TryCatch { .. } => lemma_try_need(s, vars, sigs),
        HirExpr::Throw(v) => {
            let t = effect_op("js_throw"@, 1, false);
            lemma_value_need(v, vars, sigs);
            lemma_one(t);
            lemma_one(OpV::Const(UNDEFINED));
            lemma_one(OpV::Return);
            lemma_three(t, OpV::Const(UNDEFINED), OpV::Return);
            lemma_chain(seq![t], seq![OpV::Const(UNDEFINED)]);
            lemma_chain(seq![t] + seq![OpV::Const(UNDEFINED)], seq![OpV::Return]);
            lemma_chain(value_ops(v, vars, sigs), seq![t, OpV::Const(UNDEFINED), OpV::Return]);
        },
        HirExpr::ExprStmt(x) => {
            match *x {
                HirExpr::Assign { .. } | HirExpr::Var { .. } | HirExpr::Return(_) | HirExpr::Break
                | HirExpr::Continue | HirExpr::Throw(_) => law_stmt_reads_within(*x, vars, sigs),
                _ => {
                    law_expr_reads_within(*x, vars, sigs);
                    law_expr_pushes_one(*x, vars, sigs);
                    lemma_one(OpV::Drop);
                    lemma_chain(expr_ops(*x, vars, sigs), seq![OpV::Drop]);
                },
            }
        },
        _ => {
            law_expr_reads_within(s, vars, sigs);
            law_expr_pushes_one(s, vars, sigs);
            lemma_one(OpV::Drop);
            lemma_chain(expr_ops(s, vars, sigs), seq![OpV::Drop]);
        },
    }
}

proof fn lemma_if_need(s: HirExpr, vars: Seq<(Seq<char>, nat)>, sigs: TableView)
    requires
        s is If,
    ensures
        stack_need(stmt_ops(s, vars, sigs).0) == 0,
    decreases s, 0nat,
{
    match s {
        HirExpr::If { cond, then_body, else_body } => {
            let t = stmts_ops(then_body@, vars, sigs);
            let f = opt_stmts_ops(else_body, t.1, sigs);
            let te = any_terminates(then_body@);
            let fe = match else_body {
                Some(b) => any_terminates(b@),
                None => false,
            };
            let c = expr_ops(*cond, vars, sigs);
            let b1 = OpV::IfBegin;
            let b2 = OpV::IfElse { then_ends: te };
            let b3 = OpV::IfEnd { then_ends: te, else_ends: fe };
            law_expr_reads_within(*cond, vars, sigs);
            law_expr_pushes_one(*cond, vars, sigs);
            lemma_stmts_need(then_body@, vars, sigs);
            lemma_opt_stmts_need(else_body, t.1, sigs);
            lemma_one(b1);
            lemma_one(b2);
            lemma_one(b3);
            lemma_chain(c, seq![b1]);
            lemma_chain(c + seq![b1], t.0);
            lemma_chain(c + seq![b1] + t.0, seq![b2]);
            lemma_chain(c + seq![b1] + t.0 + seq![b2], f.0);
            lemma_chain(c + seq![b1] + t.0 + seq![b2] + f.0, seq![b3]);
        },
        _ => {},
    }
}

proof fn lemma_for_need(s: HirExpr, vars: Seq<(Seq<char>, nat)>, sigs: TableView)
    requires
        s is For,
    ensures
        stack_need(stmt_ops(s, vars, sigs).0) == 0,
    decreases s, 0nat,
{
    match s {
        HirExpr::For { init, cond, update, body } => {
            let i = match init {
                Some(x) => stmt_ops(*x, vars, sigs),
                None => (Seq::empty(), vars),
            };
            lemma_need_floor(Seq::<OpV>::empty());
            match init {
                Some(x) => {
                    law_stmt_reads_within(*x, vars, sigs);
                    law_stmt_balanced(*x, vars, sigs);
                },
                None => {},
            }
            let c = match cond {
                Some(x) => expr_ops(*x, i.1, sigs) + seq![OpV::ForTest],
                None => seq![OpV::ForSkipTest],
            };
            lemma_one(OpV::ForTest);
            lemma_one(OpV::ForSkipTest);
            match cond {
                Some(x) => {
                    law_expr_reads_within(*x, i.1, sigs);
                    law_expr_pushes_one(*x, i.1, sigs);
                    lemma_chain(expr_ops(*x, i.1, sigs), seq![OpV::ForTest]);
                },
                None => {},
            }
            let b = stmts_ops(body@, i.1, sigs);
            lemma_stmts_need(body@, i.1, sigs);
            let u = match update {
                Some(x) => stmt_ops(*x, b.1, sigs),
                None => (Seq::empty(), b.1),
            };
            match update {
                Some(x) => {
                    law_stmt_reads_within(*x, b.1, sigs);
                    law_stmt_balanced(*x, b.1, sigs);
                },
                None => {},
            }
            lemma_one(OpV::ForBegin);
            lemma_one(OpV::ForUpdate { body_ends: any_terminates(body@) });
            lemma_one(OpV::ForEnd);
            lemma_chain(i.0, seq![OpV::ForBegin]);
            lemma_chain(i.0 + seq![OpV::ForBegin], c);
            lemma_chain(i.0 + seq![OpV::ForBegin] + c, b.0);
            lemma_chain(i.0 + seq![OpV::ForBegin] + c + b.0, seq![OpV::ForUpdate { body_ends: any_terminates(body@) }]);
            lemma_chain(i.0 + seq![OpV::ForBegin] + c + b.0 + seq![OpV::ForUpdate { body_ends: any_terminates(body@) }], u.0);
            lemma_chain(
                i.0 + seq![OpV::ForBegin] + c + b.0 + seq![OpV::ForUpdate { body_ends: any_terminates(body@) }] + u.0,
                seq![OpV::ForEnd],
            );
        },
        _ => {},
    }
}

#[verifier::rlimit(50)]
proof fn lemma_try_need(s: HirExpr, vars: Seq<(Seq<char>, nat)>, sigs: TableView)
    requires
        s is TryCatch,
    ensures
        stack_need(stmt_ops(s, vars, sigs).0) == 0,
    decreases s, 0nat,
{
    match s {
        HirExpr::TryCatch { try_body, catch_param, catch_body, finally_body } => {
            let t = stmts_ops(try_body@, vars, sigs);
            lemma_stmts_need(try_body@, vars, sigs);
            let e1 = effect_op("js_try_end"@, 0, false);
            let e2 = effect_op("js_clear_exception"@, 0, false);
            let leave = if any_terminates(try_body@) {
                Seq::empty()
            } else {
                seq![e1, e2, OpV::TryLeave]
            };
            lemma_one(e1);
            lemma_one(e2);
            lemma_one(OpV::TryLeave);
            lemma_one(OpV::FinallyBegin);
            lemma_need_floor(Seq::<OpV>::empty());
            lemma_three(e1, e2, OpV::TryLeave);
            lemma_chain(seq![e1], seq![e2]);
            lemma_chain(seq![e1] + seq![e2], seq![OpV::TryLeave]);
            lemma_three(e1, OpV::TryLeave, OpV::FinallyBegin);
            lemma_chain(seq![e1], seq![OpV::TryLeave]);
            lemma_chain(seq![e1] + seq![OpV::TryLeave], seq![OpV::FinallyBegin]);
            let h = handler_ops(catch_param, catch_body, t.1, sigs);
            lemma_handler_need(catch_param, catch_body, t.1, sigs);
            lemma_handler_net(catch_param, catch_body, t.1, sigs);
            let f = opt_stmts_ops(finally_body, h.1, sigs);
            lemma_opt_stmts_need(finally_body, h.1, sigs);
            let mid = seq![e1, OpV::TryLeave, OpV::FinallyBegin];
            lemma_one(OpV::TryBegin);
            lemma_one(OpV::CatchBegin);
            lemma_one(OpV::TryEnd);
            let p1 = seq![OpV::TryBegin];
            lemma_chain(p1, t.0);
            lemma_chain(p1 + t.0, leave);
            lemma_chain(p1 + t.0 + leave, seq![OpV::CatchBegin]);
            lemma_chain(p1 + t.0 + leave + seq![OpV::CatchBegin], h.0);
            lemma_chain(p1 + t.0 + leave + seq![OpV::CatchBegin] + h.0, mid);
            lemma_chain(p1 + t.0 + leave + seq![OpV::CatchBegin] + h.0 + mid, f.0);
            lemma_chain(
                p1 + t.0 + leave + seq![OpV::CatchBegin] + h.0 + mid + f.0,
                seq![OpV::TryEnd],
            );
        },
        _ => {},
    }
}

/// The steps the back end emits for a function never read below the
/// bottom of the stack: replayed from an empty stack, every step finds
/// the values it takes.
pub proof fn law_function_steps_read_within(
    params: Seq<String>,
    body: Seq<HirExpr>,
    sigs: TableView,
)
    ensures
        stack_need(function_ops(params, body, sigs)) == 0,
{
    let vars = param_slots(params);
    lemma_stmts_need(body, vars, sigs);
    lemma_one(OpV::Const(UNDEFINED));
    lemma_one(OpV::Return);
    lemma_need_floor(Seq::<OpV>::empty());
    lemma_chain(seq![OpV::Const(UNDEFINED)], seq![OpV::Return]);
    assert(seq![OpV::Const(UNDEFINED)] + seq![OpV::Return] =~= seq![OpV::Const(UNDEFINED), OpV::Return]);
    let tail = if any_terminates(body) {
        Seq::empty()
    } else {
        seq![OpV::Const(UNDEFINED), OpV::Return]
    };
    lemma_chain(stmts_ops(body, vars, sigs).0, tail);
}

/// The step of each arithmetic, comparison and bitwise operator: `+`
/// calls the runtime's `js_add` (strings join) with a float addition in
/// reserve, `%` calls `js_mod`, `==` and `!=` call `js_eq` and `js_neq`
/// with a float comparison in reserve, and the others are the float or
/// integer instruction of the same meaning; `!` tests for zero and unary
/// `-` negates.
pub proof fn law_operator_steps()
    ensures
        binary_step(BinOp::Add) == (OpV::Binary { helper: Some("js_add"@), inline: NumOp::Add }),
        binary_step(BinOp::Sub) == (OpV::Binary { helper: None, inline: NumOp::Sub }),
        binary_step(BinOp::Mul) == (OpV::Binary { helper: None, inline: NumOp::Mul }),
        binary_step(BinOp::Div) == (OpV::Binary { helper: None, inline: NumOp::Div }),
        binary_step(BinOp::Mod) == (OpV::Binary { helper: Some("js_mod"@), inline: NumOp::Undefined }),
        binary_step(BinOp::Eq) == (OpV::Binary { helper: Some("js_eq"@), inline: NumOp::Equal }),
        binary_step(BinOp::Ne) == (OpV::Binary { helper: Some("js_neq"@), inline: NumOp::NotEqual }),
        binary_step(BinOp::Lt) == (OpV::Binary { helper: None, inline: NumOp::Less }),
        binary_step(BinOp::Le) == (OpV::Binary { helper: None, inline: NumOp::LessEq }),
        binary_step(BinOp::Gt) == (OpV::Binary { helper: None, inline: NumOp::Greater }),
        binary_step(BinOp::Ge) == (OpV::Binary { helper: None, inline: NumOp::GreaterEq }),
        binary_step(BinOp::BitAnd) == (OpV::Binary { helper: None, inline: NumOp::BitAnd }),
        binary_step(BinOp::BitOr) == (OpV::Binary { helper: None, inline: NumOp::BitOr }),
        binary_step(BinOp::BitXor) == (OpV::Binary { helper: None, inline: NumOp::BitXor }),
        binary_step(BinOp::Shl) == (OpV::Binary { helper: None, inline: NumOp::Shl }),
        binary_step(BinOp::Shr) == (OpV::Binary { helper: None, inline: NumOp::Shr }),
        unary_steps(UnaryOp::Not) == seq![OpV::IsZero],
        unary_steps(UnaryOp::Neg) == seq![OpV::Negate],
{
}

} // verus!
