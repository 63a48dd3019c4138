use crate::ast::{AstItem, AstArg, AstArrowBody, AstAssignOp, AstAssignTarget, AstBinOp, AstDecl, AstDeclarator, AstEnumInit, AstEnumMember, AstExpr, AstForHead, AstForInit, AstFunction, AstLit, AstMemberProp, AstObjPatProp, AstPat, AstProp, AstPropName, AstStmt, AstSwitchCase, AstUnaryOp, AstVarKind};
use crate::hir::BinOp;
use crate::hir::UnaryOp;
use crate::ir::SpecIr;
use crate::numbers::double_bits;
use crate::text::decimal;
use vstd::prelude::*;

verus! {

broadcast use vstd::std_specs::vec::axiom_vec_decreases_to_view;

// What lowering a TypeScript module to the back end's IR gives, stated over
// the source AST. Lists are lowered element by element (`Seq::new`), and
// the elements that yield nothing are then dropped (`flatten_opts`).

/// The elements of `s` that are present, in order.
pub open spec fn flatten_opts<A>(s: Seq<Option<A>>) -> Seq<A>
    decreases s.len(),
{
    if s.len() == 0 {
        Seq::empty()
    } else {
        flatten_opts(s.drop_last()) + opt_seq(s.last())
    }
}

/// An optional value as a sequence of zero or one element.
pub open spec fn opt_seq<A>(o: Option<A>) -> Seq<A> {
    match o {
        Some(x) => seq![x],
        None => Seq::empty(),
    }
}

/// The present values of a sequence of pairs of optional values, in order.
pub open spec fn flatten_pairs<A>(s: Seq<(Option<A>, Option<A>)>) -> Seq<A>
    decreases s.len(),
{
    if s.len() == 0 {
        Seq::empty()
    } else {
        flatten_pairs(s.drop_last()) + opt_seq(s.last().0) + opt_seq(s.last().1)
    }
}

/// The number `n` as a double.
pub open spec fn num(n: nat) -> SpecIr {
    SpecIr::Number(double_bits(n) as u64)
}

pub open spec fn ident(name: Seq<char>) -> SpecIr {
    SpecIr::Identifier(name)
}

/// A call of the runtime function `name`.
pub open spec fn runtime_call(name: Seq<char>, args: Seq<SpecIr>) -> SpecIr {
    SpecIr::Call { callee: Box::new(ident(name)), args }
}

pub open spec fn binary(op: BinOp, l: SpecIr, r: SpecIr) -> SpecIr {
    SpecIr::Binary { op, left: Box::new(l), right: Box::new(r) }
}

/// `v != null && v != undefined`.
pub open spec fn is_present(v: SpecIr) -> SpecIr {
    binary(BinOp::And, binary(BinOp::Ne, v, SpecIr::Null), binary(BinOp::Ne, v, SpecIr::Undefined))
}

/// `v == undefined ? dflt : v`.
pub open spec fn or_default(v: SpecIr, dflt: SpecIr) -> SpecIr {
    SpecIr::Ternary {
        cond: Box::new(binary(BinOp::Eq, v, SpecIr::Undefined)),
        then_expr: Box::new(dflt),
        else_expr: Box::new(v),
    }
}

/// The runtime concatenation of non-empty `parts`, from the left.
pub open spec fn concat_chain(parts: Seq<SpecIr>) -> SpecIr
    decreases parts.len(),
{
    if parts.len() <= 1 {
        parts[0]
    } else {
        runtime_call("js_array_concat"@, seq![concat_chain(parts.drop_last()), parts.last()])
    }
}

/// The array built from the spread pieces `parts`.
pub open spec fn spread_array(parts: Seq<SpecIr>) -> SpecIr {
    if parts.len() == 0 {
        SpecIr::Array(Seq::empty())
    } else {
        concat_chain(parts)
    }
}

/// The `+` of non-empty `parts`, from the left.
pub open spec fn add_chain(parts: Seq<SpecIr>) -> SpecIr
    decreases parts.len(),
{
    if parts.len() <= 1 {
        parts[0]
    } else {
        binary(BinOp::Add, add_chain(parts.drop_last()), parts.last())
    }
}

/// The string built from the template pieces `parts`.
pub open spec fn template_value(parts: Seq<SpecIr>) -> SpecIr {
    if parts.len() == 0 {
        SpecIr::String(Seq::empty())
    } else {
        add_chain(parts)
    }
}

pub open spec fn lower_lit(l: AstLit) -> SpecIr {
    match l {
        AstLit::Str(s) => SpecIr::String(s@),
        AstLit::Bool(b) => SpecIr::Boolean(b),
        AstLit::Null => SpecIr::Null,
        AstLit::Num(bits) => SpecIr::Number(bits),
        AstLit::Other => SpecIr::Undefined,
    }
}

/// The IR operator of a binary operator; the ones the IR lacks become `==`.
pub open spec fn lower_binop(op: AstBinOp) -> BinOp {
    match op {
        AstBinOp::Add => BinOp::Add,
        AstBinOp::Sub => BinOp::Sub,
        AstBinOp::Mul => BinOp::Mul,
        AstBinOp::Div => BinOp::Div,
        AstBinOp::Mod => BinOp::Mod,
        AstBinOp::EqEq => BinOp::Eq,
        AstBinOp::EqEqEq => BinOp::Eq,
        AstBinOp::NotEq => BinOp::Ne,
        AstBinOp::NotEqEq => BinOp::Ne,
        AstBinOp::Lt => BinOp::Lt,
        AstBinOp::LtEq => BinOp::Le,
        AstBinOp::Gt => BinOp::Gt,
        AstBinOp::GtEq => BinOp::Ge,
        AstBinOp::LogicalAnd => BinOp::And,
        AstBinOp::LogicalOr => BinOp::Or,
        AstBinOp::BitAnd => BinOp::BitAnd,
        AstBinOp::BitOr => BinOp::BitOr,
        AstBinOp::BitXor => BinOp::BitXor,
        AstBinOp::LShift => BinOp::Shl,
        AstBinOp::RShift => BinOp::Shr,
        _ => BinOp::Eq,
    }
}

/// The operator that a compound assignment applies, if it is one.
pub open spec fn compound_op(op: AstAssignOp) -> Option<BinOp> {
    match op {
        AstAssignOp::AddAssign => Some(BinOp::Add),
        AstAssignOp::SubAssign => Some(BinOp::Sub),
        AstAssignOp::MulAssign => Some(BinOp::Mul),
        AstAssignOp::DivAssign => Some(BinOp::Div),
        AstAssignOp::ModAssign => Some(BinOp::Mod),
        AstAssignOp::BitAndAssign => Some(BinOp::BitAnd),
        AstAssignOp::BitOrAssign => Some(BinOp::BitOr),
        AstAssignOp::BitXorAssign => Some(BinOp::BitXor),
        AstAssignOp::LShiftAssign => Some(BinOp::Shl),
        AstAssignOp::RShiftAssign => Some(BinOp::Shr),
        _ => None,
    }
}

/// The name a pattern binds first, if any.
pub open spec fn pat_name(p: AstPat) -> Option<Seq<char>>
    decreases p,
{
    match p {
        AstPat::Ident(n) => Some(n@),
        AstPat::Array(elems) => if elems@.len() > 0 {
            match elems@[0] {
                Some(q) => pat_name(q),
                None => None,
            }
        } else {
            None
        },
        AstPat::Object(props) => if props@.len() > 0 {
            match props@[0] {
                AstObjPatProp::KeyValue { key, .. } => match key {
                    AstPropName::Ident(n) => Some(n@),
                    AstPropName::Str(n) => Some(n@),
                    _ => None,
                },
                AstObjPatProp::Assign { key, .. } => Some(key@),
                AstObjPatProp::Rest(_) => None,
            }
        } else {
            None
        },
        AstPat::Rest(q) => pat_name(*q),
        AstPat::Assign { left, .. } => pat_name(*left),
        AstPat::Expr(_) => None,
        AstPat::Invalid => None,
    }
}

/// The name a pattern binds, or `dflt`.
pub open spec fn pat_name_or(p: AstPat, dflt: Seq<char>) -> Seq<char> {
    match pat_name(p) {
        Some(n) => n,
        None => dflt,
    }
}

/// The key text of a non-computed property name.
pub open spec fn plain_key(k: AstPropName) -> Option<Seq<char>> {
    match k {
        AstPropName::Ident(n) => Some(n@),
        AstPropName::Str(n) => Some(n@),
        AstPropName::Num(n) => Some(n@),
        AstPropName::BigInt(n) => Some(n@),
        AstPropName::Computed(_) => None,
    }
}

/// Whether an object-literal member yields an entry.
pub open spec fn prop_kept(p: AstProp) -> bool {
    !(p is Other)
}

/// How many of the first `i` members of an object literal yield an entry.
pub open spec fn kept_before(props: Seq<AstProp>, i: int) -> nat
    decreases i,
{
    if i <= 0 {
        0
    } else {
        kept_before(props, i - 1) + if prop_kept(props[i - 1]) {
            1nat
        } else {
            0nat
        }
    }
}

/// The loop variable named by the head of a `for .. in` or `for .. of`.
pub open spec fn head_name(h: AstForHead) -> Seq<char> {
    match h {
        AstForHead::VarDecl(Some(p)) => pat_name_or(p, Seq::empty()),
        AstForHead::VarDecl(None) => Seq::empty(),
        AstForHead::Pat(p) => pat_name_or(p, Seq::empty()),
        AstForHead::Using => "_using"@,
    }
}

/// Whether an array element is a spread.
pub open spec fn is_spread_elem(e: Option<AstArg>) -> bool {
    match e {
        Some(a) => a.spread,
        None => false,
    }
}

/// Whether the declarations are mutable.
pub open spec fn kind_is_mut(k: AstVarKind) -> bool {
    !(k is Const)
}

/// The statement made of a list of lowered declarators: the one itself,
/// or a block of them.
pub open spec fn single_or_block(stmts: Seq<SpecIr>) -> SpecIr {
    if stmts.len() == 1 {
        stmts[0]
    } else {
        SpecIr::Block(stmts)
    }
}

/// The optional statement made of lowered declarations: none for none.
pub open spec fn opt_single_or_block(stmts: Seq<SpecIr>) -> Option<SpecIr> {
    if stmts.len() == 0 {
        None
    } else {
        Some(single_or_block(stmts))
    }
}

/// `var name = init;` as the IR writes it.
pub open spec fn var(name: Seq<char>, init: Option<SpecIr>, is_mut: bool) -> SpecIr {
    SpecIr::Var {
        name,
        init: match init {
            Some(x) => Some(Box::new(x)),
            None => None,
        },
        is_mut,
    }
}

/// Lowering of an expression.
pub open spec fn lower_expr(e: AstExpr) -> SpecIr
    decreases e, 0nat,
{
    match e {
        AstExpr::Lit(l) => lower_lit(l),
        AstExpr::Ident(n) => ident(n@),
        AstExpr::Bin { op, left, right } => {
            let l = lower_expr(*left);
            let r = lower_expr(*right);
            match op {
                AstBinOp::NullishCoalescing => SpecIr::Ternary {
                    cond: Box::new(is_present(l)),
                    then_expr: Box::new(l),
                    else_expr: Box::new(r),
                },
                AstBinOp::In => runtime_call("js_in"@, seq![l, r]),
                _ => binary(lower_binop(op), l, r),
            }
        },
        AstExpr::Unary { op, arg } => {
            let v = lower_expr(*arg);
            match op {
                AstUnaryOp::Bang => SpecIr::Unary { op: UnaryOp::Not, operand: Box::new(v) },
                AstUnaryOp::Minus => SpecIr::Unary { op: UnaryOp::Neg, operand: Box::new(v) },
                AstUnaryOp::TypeOf => SpecIr::Typeof(Box::new(v)),
                AstUnaryOp::Void => SpecIr::Undefined,
                _ => v,
            }
        },
        AstExpr::Update { op, arg, .. } => {
            let t = lower_expr(*arg);
            SpecIr::Assign {
                target: Box::new(t),
                value: Box::new(
                    binary(
                        if op is PlusPlus {
                            BinOp::Add
                        } else {
                            BinOp::Sub
                        },
                        t,
                        num(1),
                    ),
                ),
            }
        },
        AstExpr::Assign { op, left, right } => {
            let v = lower_expr(*right);
            let t = lower_target(left);
            match compound_op(op) {
                Some(bop) => SpecIr::Assign { target: Box::new(t), value: Box::new(binary(bop, t, v)) },
                None => SpecIr::Assign { target: Box::new(t), value: Box::new(v) },
            }
        },
        AstExpr::Call { callee, args } => {
            let c = match callee {
                Some(x) => lower_expr(*x),
                None => SpecIr::Undefined,
            };
            if exists|i: int| 0 <= i < args@.len() && (#[trigger] args@[i]).spread {
                runtime_call("js_function_apply"@, seq![c, spread_array(spread_parts(args))])
            } else {
                SpecIr::Call { callee: Box::new(c), args: lower_args(args) }
            }
        },
        AstExpr::Member { obj, prop } => member_access(lower_expr(*obj), prop),
        AstExpr::Cond { test, cons, alt } => SpecIr::Ternary {
            cond: Box::new(lower_expr(*test)),
            then_expr: Box::new(lower_expr(*cons)),
            else_expr: Box::new(lower_expr(*alt)),
        },
        AstExpr::Arrow { params, body } => {
            let steps = param_steps(params);
            let b = match body {
                AstArrowBody::Block(stmts) => flatten_opts(stmt_opts(stmts)),
                AstArrowBody::Expr(x) => seq![SpecIr::Return(Some(Box::new(lower_expr(*x))))],
            };
            SpecIr::Function {
                name: "anonymous"@,
                params: param_names(steps),
                body: param_inits(steps) + b,
            }
        },
        AstExpr::Fn { ident: name, params, body } => SpecIr::Function {
            name: match name {
                Some(n) => n@,
                None => "anonymous"@,
            },
            params: flatten_opts(Seq::new(params@.len(), |i: int| pat_name(params@[i]))),
            body: match body {
                Some(b) => flatten_opts(stmt_opts(b)),
                None => Seq::empty(),
            },
        },
        AstExpr::Array(elems) => if exists|i: int|
            0 <= i < elems@.len() && #[trigger] is_spread_elem(elems@[i]) {
            spread_array(flatten_opts(array_parts(elems)))
        } else {
            SpecIr::Array(flatten_opts(array_plain(elems)))
        },
        AstExpr::Object(props) => SpecIr::Object(flatten_opts(object_entries(props))),
        AstExpr::Tpl { quasis, exprs } => template_value(flatten_pairs(template_parts(quasis, exprs))),
        AstExpr::TaggedTpl { quasis, exprs } => template_value(
            flatten_pairs(template_parts(quasis, exprs)),
        ),
        AstExpr::Sequence(v) => if v@.len() > 0 {
            lower_expr(v@[v@.len() - 1])
        } else {
            SpecIr::Undefined
        },
        AstExpr::Paren(x) => lower_expr(*x),
        AstExpr::New { callee, args } => SpecIr::Call {
            callee: Box::new(lower_expr(*callee)),
            args: match args {
                Some(a) => lower_args(a),
                None => Seq::empty(),
            },
        },
        AstExpr::TypeWrapper(x) => lower_expr(*x),
        AstExpr::Await(x) => lower_expr(*x),
        AstExpr::OptMember { obj, prop } => {
            let o = lower_expr(*obj);
            SpecIr::Ternary {
                cond: Box::new(is_present(o)),
                then_expr: Box::new(member_access(o, prop)),
                else_expr: Box::new(SpecIr::Undefined),
            }
        },
        AstExpr::OptCall { callee, args } => {
            let c = lower_expr(*callee);
            SpecIr::Ternary {
                cond: Box::new(is_present(c)),
                then_expr: Box::new(SpecIr::Call { callee: Box::new(c), args: lower_args(args) }),
                else_expr: Box::new(SpecIr::Undefined),
            }
        },
        AstExpr::Other => SpecIr::Undefined,
    }
}

/// `o.name` or `o[index]`.
pub open spec fn member_access(o: SpecIr, prop: AstMemberProp) -> SpecIr
    decreases prop, 0nat,
{
    match prop {
        AstMemberProp::Ident(n) => SpecIr::Property { object: Box::new(o), name: n@ },
        AstMemberProp::Computed(x) => SpecIr::Index {
            object: Box::new(o),
            index: Box::new(lower_expr(*x)),
        },
        AstMemberProp::Private => SpecIr::Undefined,
    }
}

/// Lowering of an assignment target.
pub open spec fn lower_target(t: AstAssignTarget) -> SpecIr
    decreases t, 0nat,
{
    match t {
        AstAssignTarget::Ident(n) => ident(n@),
        AstAssignTarget::Member { obj, prop } => member_access(lower_expr(*obj), prop),
        AstAssignTarget::Wrapped(x) => lower_expr(*x),
        AstAssignTarget::OptMember { obj, prop } => match prop {
            AstMemberProp::Ident(n) => SpecIr::Property {
                object: Box::new(lower_expr(*obj)),
                name: n@,
            },
            _ => SpecIr::Undefined,
        },
        AstAssignTarget::Other => SpecIr::Undefined,
        AstAssignTarget::ArrayPat => ident("_destr_arr_assign"@),
        AstAssignTarget::ObjectPat => ident("_destr_obj_assign"@),
    }
}

/// The lowered arguments, spread or not.
pub open spec fn lower_args(args: Vec<AstArg>) -> Seq<SpecIr>
    decreases args, 0nat,
{
    Seq::new(
        args@.len(),
        |i: int|
            if 0 <= i < args@.len() {
                lower_expr(args@[i].expr)
            } else {
                SpecIr::Undefined
            },
    )
}

/// The lowered expressions of a list.
pub open spec fn lower_exprs(v: Vec<AstExpr>) -> Seq<SpecIr>
    decreases v, 0nat,
{
    Seq::new(
        v@.len(),
        |i: int|
            if 0 <= i < v@.len() {
                lower_expr(v@[i])
            } else {
                SpecIr::Undefined
            },
    )
}

/// The piece of an argument list with spreads: the spread value through
/// the runtime, a plain one as a one-element array.
pub open spec fn spread_piece(a: AstArg) -> SpecIr
    decreases a, 0nat,
{
    if a.spread {
        runtime_call("js_array_spread"@, seq![lower_expr(a.expr)])
    } else {
        SpecIr::Array(seq![lower_expr(a.expr)])
    }
}

pub open spec fn spread_parts(args: Vec<AstArg>) -> Seq<SpecIr>
    decreases args, 0nat,
{
    Seq::new(
        args@.len(),
        |i: int|
            if 0 <= i < args@.len() {
                spread_piece(args@[i])
            } else {
                SpecIr::Undefined
            },
    )
}

/// The pieces of an array literal with spreads; holes yield nothing.
pub open spec fn array_parts(elems: Vec<Option<AstArg>>) -> Seq<Option<SpecIr>>
    decreases elems, 0nat,
{
    Seq::new(
        elems@.len(),
        |i: int|
            if 0 <= i < elems@.len() {
                match elems@[i] {
                    Some(a) => Some(spread_piece(a)),
                    None => None,
                }
            } else {
                None
            },
    )
}

/// The elements of an array literal without spreads; holes yield nothing.
pub open spec fn array_plain(elems: Vec<Option<AstArg>>) -> Seq<Option<SpecIr>>
    decreases elems, 0nat,
{
    Seq::new(
        elems@.len(),
        |i: int|
            if 0 <= i < elems@.len() {
                match elems@[i] {
                    Some(a) => Some(lower_expr(a.expr)),
                    None => None,
                }
            } else {
                None
            },
    )
}

/// The entry an object-literal member yields, given how many entries come
/// before it.
pub open spec fn prop_entry(p: AstProp, before: nat) -> Option<(Seq<char>, SpecIr)>
    decreases p, 0nat,
{
    match p {
        AstProp::KeyValue { key, value } => {
            let v = lower_expr(*value);
            match key {
                AstPropName::Computed(k) => Some(
                    (
                        "_computed_"@ + decimal(before),
                        runtime_call(
                            "js_object_set_computed"@,
                            seq![num(before), lower_expr(*k), v],
                        ),
                    ),
                ),
                _ => Some((plain_key(key).unwrap(), v)),
            }
        },
        AstProp::Shorthand(n) => Some((n@, ident(n@))),
        AstProp::Other => None,
        AstProp::Spread(x) => Some(
            ("_spread_"@ + decimal(before), runtime_call("js_object_spread"@, seq![lower_expr(*x)])),
        ),
    }
}

pub open spec fn object_entries(props: Vec<AstProp>) -> Seq<Option<(Seq<char>, SpecIr)>>
    decreases props, 0nat,
{
    Seq::new(
        props@.len(),
        |i: int|
            if 0 <= i < props@.len() {
                prop_entry(props@[i], kept_before(props@, i))
            } else {
                None
            },
    )
}

/// Each raw piece of a template (when not empty) and the expression after
/// it (where there is one).
pub open spec fn template_parts(quasis: Vec<String>, exprs: Vec<AstExpr>) -> Seq<
    (Option<SpecIr>, Option<SpecIr>),
>
    decreases exprs, 0nat,
{
    Seq::new(
        quasis@.len(),
        |i: int|
            (
                if 0 <= i < quasis@.len() && quasis@[i]@.len() > 0 {
                    Some(SpecIr::String(quasis@[i]@))
                } else {
                    None
                },
                if 0 <= i < exprs@.len() {
                    Some(lower_expr(exprs@[i]))
                } else {
                    None
                },
            ),
    )
}

/// What the parameter at position `i` contributes: its name (if it has a
/// place in the parameter list) and a statement run on entry (a default
/// value, or the collection of the rest arguments).
pub open spec fn param_step(p: AstPat, i: nat) -> (Option<Seq<char>>, Option<SpecIr>)
    decreases p, 0nat,
{
    match p {
        AstPat::Assign { left, right } => match pat_name(*left) {
            Some(n) => (
                Some(n),
                Some(
                    SpecIr::If {
                        cond: Box::new(binary(BinOp::Eq, ident(n), SpecIr::Undefined)),
                        then_body: seq![
                            SpecIr::ExprStmt(
                                Box::new(
                                    SpecIr::Assign {
                                        target: Box::new(ident(n)),
                                        value: Box::new(lower_expr(*right)),
                                    },
                                ),
                            ),
                        ],
                        else_body: None,
                    },
                ),
            ),
            None => (Some("_"@), None),
        },
        AstPat::Rest(arg) => match pat_name(*arg) {
            Some(n) => (None, Some(var(n, Some(runtime_call("js_array_from_args"@, seq![num(i)])), false))),
            None => (None, None),
        },
        _ => (Some(pat_name_or(p, "_"@)), None),
    }
}

pub open spec fn param_steps(params: Vec<AstPat>) -> Seq<(Option<Seq<char>>, Option<SpecIr>)>
    decreases params, 0nat,
{
    Seq::new(
        params@.len(),
        |i: int|
            if 0 <= i < params@.len() {
                param_step(params@[i], i as nat)
            } else {
                (None, None)
            },
    )
}

/// The parameter names of the parameter contributions.
pub open spec fn param_names(steps: Seq<(Option<Seq<char>>, Option<SpecIr>)>) -> Seq<Seq<char>> {
    flatten_opts(Seq::new(steps.len(), |i: int| steps[i].0))
}

/// The entry statements of the parameter contributions.
pub open spec fn param_inits(steps: Seq<(Option<Seq<char>>, Option<SpecIr>)>) -> Seq<SpecIr> {
    flatten_opts(Seq::new(steps.len(), |i: int| steps[i].1))
}

/// The name an object-pattern key reads: its text, or the name a computed
/// key consisting of a bare identifier gives; none for other computed keys.
pub open spec fn pattern_key(key: AstPropName) -> Option<Seq<char>> {
    match key {
        AstPropName::Computed(x) => match *x {
            AstExpr::Ident(n) => Some(n@),
            _ => None,
        },
        _ => plain_key(key),
    }
}

/// The lowered expression a pattern carries: the default value of
/// `x = default`, the target of an expression pattern; else `undefined`.
pub open spec fn pattern_default(p: AstPat) -> SpecIr
    decreases p, 0nat,
{
    match p {
        AstPat::Assign { right, .. } => lower_expr(*right),
        AstPat::Expr(x) => lower_expr(*x),
        _ => SpecIr::Undefined,
    }
}

/// The binding of the property `name` of the temporary `tmp` to the
/// pattern `value` (whose lowered default is `dflt`).
pub open spec fn key_value_binding(
    name: Option<Seq<char>>,
    value: AstPat,
    dflt: SpecIr,
    tmp: Seq<char>,
    is_mut: bool,
) -> Option<SpecIr> {
    match name {
        None => None,
        Some(pn) => {
            let access = SpecIr::Property { object: Box::new(ident(tmp)), name: pn };
            match value {
                AstPat::Ident(n) => Some(var(n@, Some(access), is_mut)),
                AstPat::Assign { left, .. } => Some(
                    var(pat_name_or(*left, pn), Some(or_default(access, dflt)), is_mut),
                ),
                _ => Some(var(pn, Some(access), is_mut)),
            }
        },
    }
}

/// The lowered default value of a shorthand pattern member, if it has one.
pub open spec fn lower_default(v: Option<Box<AstExpr>>) -> Option<SpecIr>
    decreases v, 0nat,
{
    match v {
        Some(d) => Some(lower_expr(*d)),
        None => None,
    }
}

/// The binding of the property `key` of the temporary `tmp` to the name
/// `key`, with the lowered default `dflt` where there is one.
pub open spec fn shorthand_binding(key: Seq<char>, dflt: Option<SpecIr>, tmp: Seq<char>, is_mut: bool) -> Option<SpecIr> {
    let access = SpecIr::Property { object: Box::new(ident(tmp)), name: key };
    Some(
        var(
            key,
            Some(
                match dflt {
                    Some(d) => or_default(access, d),
                    None => access,
                },
            ),
            is_mut,
        ),
    )
}

/// The statement a member of an object pattern binds from the temporary
/// `tmp`, if any.
pub open spec fn obj_pat_step(p: AstObjPatProp, tmp: Seq<char>, is_mut: bool) -> Option<SpecIr>
    decreases p, 0nat,
{
    match p {
        AstObjPatProp::KeyValue { key, value } => key_value_binding(
            pattern_key(key),
            *value,
            pattern_default(*value),
            tmp,
            is_mut,
        ),
        AstObjPatProp::Assign { key, value } => shorthand_binding(key@, lower_default(value), tmp, is_mut),
        AstObjPatProp::Rest(arg) => match pat_name(*arg) {
            Some(n) => Some(var(n, Some(ident(tmp)), is_mut)),
            None => None,
        },
    }
}

pub open spec fn obj_pat_steps(props: Vec<AstObjPatProp>, tmp: Seq<char>, is_mut: bool) -> Seq<
    Option<SpecIr>,
>
    decreases props, 0nat,
{
    Seq::new(
        props@.len(),
        |i: int|
            if 0 <= i < props@.len() {
                obj_pat_step(props@[i], tmp, is_mut)
            } else {
                None
            },
    )
}

/// The statement the element `p` at position `i` of an array pattern binds
/// from the temporary `tmp` (with `lowered` the expression it carries).
pub open spec fn element_binding(p: AstPat, lowered: SpecIr, i: nat, tmp: Seq<char>, is_mut: bool) -> Option<
    SpecIr,
> {
    let access = SpecIr::Index { object: Box::new(ident(tmp)), index: Box::new(num(i)) };
    match p {
        AstPat::Ident(n) => Some(var(n@, Some(access), is_mut)),
        AstPat::Assign { left, .. } => Some(
            var(pat_name_or(*left, "_arr"@ + decimal(i)), Some(or_default(access, lowered)), is_mut),
        ),
        AstPat::Rest(arg) => match pat_name(*arg) {
            Some(n) => Some(
                var(n, Some(runtime_call("js_array_slice"@, seq![ident(tmp), num(i)])), is_mut),
            ),
            None => None,
        },
        AstPat::Expr(_) => Some(SpecIr::Assign { target: Box::new(lowered), value: Box::new(access) }),
        _ => None,
    }
}

/// The statement an element at position `i` of an array pattern binds
/// from the temporary `tmp`, if any.
pub open spec fn arr_pat_step(e: Option<AstPat>, i: nat, tmp: Seq<char>, is_mut: bool) -> Option<
    SpecIr,
>
    decreases e, 0nat,
{
    match e {
        None => None,
        Some(p) => element_binding(p, pattern_default(p), i, tmp, is_mut),
    }
}

pub open spec fn arr_pat_steps(elems: Vec<Option<AstPat>>, tmp: Seq<char>, is_mut: bool) -> Seq<
    Option<SpecIr>,
>
    decreases elems, 0nat,
{
    Seq::new(
        elems@.len(),
        |i: int|
            if 0 <= i < elems@.len() {
                arr_pat_step(elems@[i], i as nat, tmp, is_mut)
            } else {
                None
            },
    )
}

/// The position of the first element of an array pattern that is not a
/// hole, or 0.
pub open spec fn first_present(elems: Seq<Option<AstPat>>) -> nat {
    let k = first_present_from(elems, 0);
    if k < elems.len() {
        k
    } else {
        0
    }
}

/// The position of the first element at or after `k` that is not a hole,
/// or the length.
pub open spec fn first_present_from(elems: Seq<Option<AstPat>>, k: int) -> nat
    decreases elems.len() - k,
{
    if k >= elems.len() {
        elems.len()
    } else if k >= 0 && elems[k] is Some {
        k as nat
    } else {
        first_present_from(elems, k + 1)
    }
}

/// The temporary holding the value destructured by an object pattern.
pub open spec fn object_temp(p: AstPat) -> Seq<char> {
    "_destr_"@ + pat_name_or(p, "tmp"@)
}

/// The temporary holding the value destructured by an array pattern.
pub open spec fn array_temp(elems: Seq<Option<AstPat>>) -> Seq<char> {
    "_destr_arr_"@ + decimal(first_present(elems))
}

/// The temporary `tmp` declared with the value, then the bindings.
pub open spec fn destructure(tmp: Seq<char>, init: Option<SpecIr>, bindings: Seq<SpecIr>) -> SpecIr {
    single_or_block(seq![var(tmp, init, false)] + bindings)
}

/// The lowered initializer of a declarator.
pub open spec fn lower_init(init: Option<AstExpr>) -> Option<SpecIr>
    decreases init, 0nat,
{
    match init {
        Some(x) => Some(lower_expr(x)),
        None => None,
    }
}

/// Lowering of one variable declarator.
pub open spec fn lower_declarator(d: AstDeclarator, is_mut: bool) -> SpecIr
    decreases d, 0nat,
{
    match d.name {
        AstPat::Object(props) => destructure(
            object_temp(d.name),
            lower_init(d.init),
            flatten_opts(obj_pat_steps(props, object_temp(d.name), is_mut)),
        ),
        AstPat::Array(elems) => destructure(
            array_temp(elems@),
            lower_init(d.init),
            flatten_opts(arr_pat_steps(elems, array_temp(elems@), is_mut)),
        ),
        _ => var(pat_name_or(d.name, Seq::empty()), lower_init(d.init), is_mut),
    }
}

pub open spec fn lower_declarators(decls: Vec<AstDeclarator>, is_mut: bool) -> Seq<SpecIr>
    decreases decls, 0nat,
{
    Seq::new(
        decls@.len(),
        |i: int|
            if 0 <= i < decls@.len() {
                lower_declarator(decls@[i], is_mut)
            } else {
                SpecIr::Undefined
            },
    )
}

/// A function with the given name: its parameter names, then the entry
/// statements of its parameters followed by its lowered body.
pub open spec fn lower_function(f: AstFunction, name: Seq<char>) -> SpecIr
    decreases f, 0nat,
{
    let steps = param_steps(f.params);
    SpecIr::Function {
        name,
        params: param_names(steps),
        body: param_inits(steps) + match f.body {
            Some(b) => flatten_opts(stmt_opts(b)),
            None => Seq::empty(),
        },
    }
}

/// The variable an enum member becomes.
pub open spec fn enum_member_var(m: AstEnumMember, enum_name: Seq<char>) -> SpecIr
    decreases m, 0nat,
{
    var(
        enum_name + "_"@ + m.name@,
        Some(
            match m.init {
                AstEnumInit::Expr(x) => lower_expr(x),
                AstEnumInit::Auto(bits) => SpecIr::Number(bits),
            },
        ),
        false,
    )
}

pub open spec fn enum_vars(members: Vec<AstEnumMember>, enum_name: Seq<char>) -> Seq<SpecIr>
    decreases members, 0nat,
{
    Seq::new(
        members@.len(),
        |i: int|
            if 0 <= i < members@.len() {
                enum_member_var(members@[i], enum_name)
            } else {
                SpecIr::Undefined
            },
    )
}

/// Lowering of a declaration; none for one that yields no code.
pub open spec fn lower_decl(d: AstDecl) -> Option<SpecIr>
    decreases d, 0nat,
{
    match d {
        AstDecl::Fn { name, declare, function } => if declare {
            None
        } else {
            Some(lower_function(function, name@))
        },
        AstDecl::Var { kind, decls } => opt_single_or_block(lower_declarators(decls, kind_is_mut(kind))),
        AstDecl::Enum { name, is_const, members } => if is_const {
            None
        } else {
            opt_single_or_block(enum_vars(members, name@))
        },
        AstDecl::Other => None,
    }
}

/// Lowering of the initializer of a `for` loop.
pub open spec fn lower_for_init(i: AstForInit) -> SpecIr
    decreases i, 0nat,
{
    match i {
        AstForInit::Var { kind, decls } => single_or_block(lower_declarators(decls, kind_is_mut(kind))),
        AstForInit::Expr(x) => SpecIr::ExprStmt(Box::new(lower_expr(x))),
    }
}

/// The lowered statements of each statement of a list.
pub open spec fn stmt_opts(stmts: Vec<AstStmt>) -> Seq<Option<SpecIr>>
    decreases stmts, 0nat,
{
    Seq::new(
        stmts@.len(),
        |i: int|
            if 0 <= i < stmts@.len() {
                lower_stmt(stmts@[i])
            } else {
                None
            },
    )
}

/// The statements a loop or branch body lowers to: a block's own
/// statements, or the one statement.
pub open spec fn body_stmts(s: AstStmt) -> Seq<SpecIr>
    decreases s, 1nat,
{
    match s {
        AstStmt::Block(stmts) => flatten_opts(stmt_opts(stmts)),
        _ => opt_seq(lower_stmt(s)),
    }
}

/// The loop `for (let idx = 0; idx < bound; idx = idx + 1) { first; body }`.
pub open spec fn counting_loop(idx: Seq<char>, bound: Seq<char>, first: SpecIr, body: Seq<SpecIr>) -> SpecIr {
    SpecIr::For {
        init: Some(Box::new(var(idx, Some(num(0)), true))),
        cond: Some(Box::new(binary(BinOp::Lt, ident(idx), ident(bound)))),
        update: Some(
            Box::new(
                SpecIr::Assign {
                    target: Box::new(ident(idx)),
                    value: Box::new(binary(BinOp::Add, ident(idx), num(1))),
                },
            ),
        ),
        body: seq![first] + body,
    }
}

/// The lowered test and body of each case of a `switch`.
pub open spec fn switch_cases(cases: Vec<AstSwitchCase>) -> Seq<(Option<SpecIr>, Seq<SpecIr>)>
    decreases cases, 0nat,
{
    Seq::new(
        cases@.len(),
        |i: int|
            if 0 <= i < cases@.len() {
                (
                    match cases@[i].test {
                        Some(t) => Some(lower_expr(t)),
                        None => None,
                    },
                    flatten_opts(stmt_opts(cases@[i].cons)),
                )
            } else {
                (None, Seq::empty())
            },
    )
}

/// The chain of `if`s a `switch` on `d` becomes, built from its last case
/// to its first: a case with a test tests `d == test` and falls to the
/// chain after it; a `default` case drops the chain after it.
pub open spec fn switch_chain(d: SpecIr, cases: Seq<(Option<SpecIr>, Seq<SpecIr>)>) -> Option<SpecIr>
    decreases cases.len(),
{
    if cases.len() == 0 {
        None
    } else {
        let rest = switch_chain(d, cases.drop_first());
        match cases[0].0 {
            Some(t) => Some(
                SpecIr::If {
                    cond: Box::new(binary(BinOp::Eq, d, t)),
                    then_body: cases[0].1,
                    else_body: match rest {
                        Some(p) => Some(seq![p]),
                        None => None,
                    },
                },
            ),
            None => Some(SpecIr::Block(cases[0].1)),
        }
    }
}

/// Lowering of a statement; none for one that yields no code.
pub open spec fn lower_stmt(s: AstStmt) -> Option<SpecIr>
    decreases s, 0nat,
{
    match s {
        AstStmt::Decl(d) => lower_decl(d),
        AstStmt::Expr(x) => Some(SpecIr::ExprStmt(Box::new(lower_expr(x)))),
        AstStmt::Block(stmts) => Some(SpecIr::Block(flatten_opts(stmt_opts(stmts)))),
        AstStmt::If { test, cons, alt } => Some(
            SpecIr::If {
                cond: Box::new(lower_expr(test)),
                then_body: body_stmts(*cons),
                else_body: match alt {
                    Some(a) => Some(body_stmts(*a)),
                    None => None,
                },
            },
        ),
        AstStmt::While { test, body } => Some(
            SpecIr::While { cond: Box::new(lower_expr(test)), body: body_stmts(*body) },
        ),
        AstStmt::DoWhile { test, body } => {
            let b = body_stmts(*body);
            Some(
                SpecIr::Block(
                    seq![SpecIr::Block(b), SpecIr::While { cond: Box::new(lower_expr(test)), body: b }],
                ),
            )
        },
        AstStmt::For { init, test, update, body } => Some(
            SpecIr::For {
                init: match init {
                    Some(i) => Some(Box::new(lower_for_init(i))),
                    None => None,
                },
                cond: match test {
                    Some(t) => Some(Box::new(lower_expr(t))),
                    None => None,
                },
                update: match update {
                    Some(u) => Some(Box::new(SpecIr::ExprStmt(Box::new(lower_expr(u))))),
                    None => None,
                },
                body: body_stmts(*body),
            },
        ),
        AstStmt::ForIn { left, right, body } => {
            let v = head_name(left);
            let keys = "_keys_"@ + v;
            let keys_len = "_keys_len_"@ + v;
            let idx = "_i_"@ + v;
            Some(
                SpecIr::Block(
                    seq![
                        var(keys, Some(runtime_call("js_object_keys"@, seq![lower_expr(right)])), false),
                        var(
                            keys_len,
                            Some(SpecIr::Property { object: Box::new(ident(keys)), name: "length"@ }),
                            false,
                        ),
                        counting_loop(
                            idx,
                            keys_len,
                            var(
                                v,
                                Some(
                                    SpecIr::Index {
                                        object: Box::new(ident(keys)),
                                        index: Box::new(ident(idx)),
                                    },
                                ),
                                false,
                            ),
                            body_stmts(*body),
                        ),
                    ],
                ),
            )
        },
        AstStmt::ForOf { left, right, body } => {
            let v = head_name(left);
            let it = lower_expr(right);
            let len_var = "_len_"@ + v;
            let idx = "_i_"@ + v;
            Some(
                SpecIr::Block(
                    seq![
                        var(len_var, Some(SpecIr::Property { object: Box::new(it), name: "length"@ }), false),
                        counting_loop(
                            idx,
                            len_var,
                            var(
                                v,
                                Some(SpecIr::Index { object: Box::new(it), index: Box::new(ident(idx)) }),
                                false,
                            ),
                            body_stmts(*body),
                        ),
                    ],
                ),
            )
        },
        AstStmt::Return(x) => Some(
            SpecIr::Return(
                match x {
                    Some(v) => Some(Box::new(lower_expr(v))),
                    None => None,
                },
            ),
        ),
        AstStmt::Break => Some(SpecIr::Break),
        AstStmt::Continue => Some(SpecIr::Continue),
        AstStmt::Throw(x) => Some(SpecIr::Throw(Some(Box::new(lower_expr(x))))),
        AstStmt::Try { block, handler, finalizer } => Some(
            SpecIr::TryCatch {
                try_body: flatten_opts(stmt_opts(block)),
                catch_param: match handler {
                    Some(h) => match h.param {
                        Some(p) => pat_name(p),
                        None => None,
                    },
                    None => None,
                },
                catch_body: match handler {
                    Some(h) => Some(flatten_opts(stmt_opts(h.body))),
                    None => None,
                },
                finally_body: match finalizer {
                    Some(f) => Some(flatten_opts(stmt_opts(f))),
                    None => None,
                },
            },
        ),
        AstStmt::Switch { disc, cases } => switch_chain(lower_expr(disc), switch_cases(cases)),
        AstStmt::Other => None,
    }
}

/// A lowered function named `main`.
pub open spec fn is_main(h: SpecIr) -> bool {
    h matches SpecIr::Function { name, .. } && name == "main"@
}

/// A lowered statement that only calls `main()` without arguments.
pub open spec fn bare_main_call(h: SpecIr) -> bool {
    h matches SpecIr::ExprStmt(inner) && match *inner {
        SpecIr::Call { callee, args } => args.len() == 0 && match *callee {
            SpecIr::Identifier(n) => n == "main"@,
            _ => false,
        },
        _ => false,
    }
}

/// The functions and the top-level statements of a module after one more
/// item.
#[verifier::opaque]
pub open spec fn module_step(acc: (Seq<SpecIr>, Seq<SpecIr>), item: AstItem) -> (Seq<SpecIr>, Seq<SpecIr>) {
    match item {
        AstItem::ExportDecl(d) => match d {
            AstDecl::Fn { name, declare, function } => if declare {
                acc
            } else {
                (acc.0.push(lower_function(function, name@)), acc.1)
            },
            AstDecl::Var { kind, decls } => (acc.0, acc.1 + lower_declarators(decls, kind_is_mut(kind))),
            _ => acc,
        },
        AstItem::ExportDefaultFn(f) => (acc.0.push(lower_function(f, "default"@)), acc.1),
        AstItem::OtherModuleDecl => acc,
        AstItem::Stmt(st) => match lower_stmt(st) {
            Some(h) => if h is Function {
                (acc.0.push(h), acc.1)
            } else {
                (acc.0, acc.1.push(h))
            },
            None => acc,
        },
    }
}

/// The functions and the top-level statements of a module, in order.
pub open spec fn module_parts(items: Seq<AstItem>) -> (Seq<SpecIr>, Seq<SpecIr>)
    decreases items.len(),
{
    if items.len() == 0 {
        (Seq::empty(), Seq::empty())
    } else {
        module_step(module_parts(items.drop_last()), items.last())
    }
}

/// The position of the first function named `main` at or after `k`, or
/// the length.
pub open spec fn first_main_from(fs: Seq<SpecIr>, k: int) -> nat
    decreases fs.len() - k,
{
    if k >= fs.len() {
        fs.len()
    } else if k >= 0 && is_main(fs[k]) {
        k as nat
    } else {
        first_main_from(fs, k + 1)
    }
}

/// The top-level statements that stay: all but bare `main()` calls.
pub open spec fn kept_top(top: Seq<SpecIr>) -> Seq<SpecIr> {
    flatten_opts(
        Seq::new(
            top.len(),
            |i: int|
                if bare_main_call(top[i]) {
                    None
                } else {
                    Some(top[i])
                },
        ),
    )
}

/// A function with `more` added at the end of its body.
pub open spec fn extend_body(f: SpecIr, more: Seq<SpecIr>) -> SpecIr {
    match f {
        SpecIr::Function { name, params, body } => SpecIr::Function { name, params, body: body + more },
        _ => f,
    }
}

/// The functions of a module with its top-level code placed in `main`: the
/// top-level statements (bare `main()` calls left out) go at the end of
/// the first `main`, or into a new `main` when there is none.
pub open spec fn assemble(fs: Seq<SpecIr>, top: Seq<SpecIr>) -> Seq<SpecIr> {
    let m = first_main_from(fs, 0);
    if m < fs.len() {
        if top.len() > 0 {
            fs.update(m as int, extend_body(fs[m as int], kept_top(top)))
        } else {
            fs
        }
    } else {
        fs.push(SpecIr::Function { name: "main"@, params: Seq::empty(), body: kept_top(top) })
    }
}

/// Lowering of a module: its functions, with the top-level code in `main`.
pub open spec fn lower_module(items: Seq<AstItem>) -> Seq<SpecIr> {
    assemble(module_parts(items).0, module_parts(items).1)
}

} // verus!
