use crate::ast::{
    AstArg, AstArrowBody, AstAssignOp, AstAssignTarget, AstBinOp, AstDecl, AstDeclarator,
    AstEnumInit, AstEnumMember, AstExpr, AstForHead, AstForInit, AstFunction, AstItem, AstLit,
    AstMemberProp, AstObjPatProp, AstPat, AstProp, AstPropName, AstStmt, AstSwitchCase, AstUnaryOp,
    AstUpdateOp, AstVarKind,
};
use crate::codegen::HirExpr;
use crate::hir::{names_view, BinOp, UnaryOp};
use crate::ir::{lemma_list_view_push, lemma_pairs_view_push, SpecIr};
use crate::ir_build::{
    mk_array, mk_assign, mk_binary, mk_block, mk_break, mk_call, mk_continue, mk_expr_stmt, mk_for,
    mk_function, mk_ident, mk_if, mk_index, mk_null, mk_number, mk_property, mk_return, mk_ternary,
    mk_throw, mk_try, mk_typeof, mk_unary, mk_undefined, mk_var, mk_while, opt_ir, opt_text,
};
use crate::lower_model::{add_chain, arr_pat_step, arr_pat_steps, array_parts, array_plain, array_temp, assemble, bare_main_call, binary, body_stmts, compound_op, concat_chain, counting_loop, destructure, element_binding, enum_member_var, enum_vars, extend_body, first_main_from, first_present, first_present_from, flatten_opts, flatten_pairs, head_name, ident, is_main, is_present, is_spread_elem, kept_before, kept_top, key_value_binding, kind_is_mut, lower_args, lower_binop, lower_decl, lower_declarator, lower_declarators, lower_default, lower_expr, lower_exprs, lower_for_init, lower_function, lower_init, lower_lit, lower_module, lower_stmt, lower_target, member_access, module_parts, module_step, num, obj_pat_step, obj_pat_steps, object_entries, object_temp, opt_seq, opt_single_or_block, or_default, param_inits, param_names, param_step, param_steps, pat_name, pat_name_or, pattern_default, pattern_key, plain_key, prop_entry, prop_kept, runtime_call, shorthand_binding, single_or_block, spread_array, spread_parts, spread_piece, stmt_opts, switch_cases, switch_chain, template_parts, template_value, var};
use crate::numbers::double_bits_of;
use crate::text::{decimal_text, joined, owned, str_eq};
use vstd::prelude::*;
use vstd::string::StrSliceExecFns;

verus! {

broadcast use vstd::std_specs::vec::axiom_vec_decreases_to_view;

/// Dropping the absent elements of a prefix one element longer adds that
/// element, if present.
pub proof fn lemma_flatten_take<A>(s: Seq<Option<A>>, i: int)
    requires
        0 <= i < s.len(),
    ensures
        flatten_opts(s.take(i + 1)) == flatten_opts(s.take(i)) + opt_seq(s[i]),
{
    assert(s.take(i + 1).drop_last() =~= s.take(i));
}

proof fn lemma_take_all<A>(s: Seq<A>)
    ensures
        s.take(s.len() as int) == s,
{
    assert(s.take(s.len() as int) =~= s);
}

fn one(a: HirExpr) -> (r: Vec<HirExpr>)
    ensures
        HirExpr::list_view(r) == seq![a.view()],
{
    let mut v: Vec<HirExpr> = Vec::new();
    v.push(a);
    assert(HirExpr::list_view(v) =~= seq![a.view()]);
    v
}

fn two(a: HirExpr, b: HirExpr) -> (r: Vec<HirExpr>)
    ensures
        HirExpr::list_view(r) == seq![a.view(), b.view()],
{
    let mut v: Vec<HirExpr> = Vec::new();
    v.push(a);
    v.push(b);
    assert(HirExpr::list_view(v) =~= seq![a.view(), b.view()]);
    v
}

fn three(a: HirExpr, b: HirExpr, c: HirExpr) -> (r: Vec<HirExpr>)
    ensures
        HirExpr::list_view(r) == seq![a.view(), b.view(), c.view()],
{
    let mut v: Vec<HirExpr> = Vec::new();
    v.push(a);
    v.push(b);
    v.push(c);
    assert(HirExpr::list_view(v) =~= seq![a.view(), b.view(), c.view()]);
    v
}

fn ident_expr(s: &str) -> (r: HirExpr)
    ensures
        r.view() == ident(s@),
{
    mk_ident(owned(s))
}

fn num_expr(n: u64) -> (r: HirExpr)
    ensures
        r.view() == num(n as nat),
{
    HirExpr::Number(double_bits_of(n))
}

fn bin(op: BinOp, l: HirExpr, r: HirExpr) -> (e: HirExpr)
    ensures
        e.view() == binary(op, l.view(), r.view()),
{
    mk_binary(op, l, r)
}

fn rt_call(name: &str, args: Vec<HirExpr>) -> (e: HirExpr)
    ensures
        e.view() == runtime_call(name@, HirExpr::list_view(args)),
{
    mk_call(ident_expr(name), args)
}

fn present(v: &HirExpr) -> (e: HirExpr)
    ensures
        e.view() == is_present(v.view()),
{
    let a = bin(BinOp::Ne, v.duplicate(), mk_null());
    let b = bin(BinOp::Ne, v.duplicate(), mk_undefined());
    bin(BinOp::And, a, b)
}

fn defaulted(v: HirExpr, d: HirExpr) -> (e: HirExpr)
    ensures
        e.view() == or_default(v.view(), d.view()),
{
    let test = bin(BinOp::Eq, v.duplicate(), mk_undefined());
    mk_ternary(test, d, v)
}

fn var_stmt(name: String, init: Option<HirExpr>, is_mut: bool) -> (e: HirExpr)
    ensures
        e.view() == var(name@, opt_ir(init), is_mut),
{
    mk_var(name, init, is_mut)
}

/// Lowering of a literal.
pub fn transform_lit(l: &AstLit) -> (r: HirExpr)
    ensures
        r.view() == lower_lit(*l),
{
    match l {
        AstLit::Str(s) => HirExpr::String(s.clone()),
        AstLit::Bool(b) => HirExpr::Boolean(*b),
        AstLit::Null => HirExpr::Null,
        AstLit::Num(bits) => HirExpr::Number(*bits),
        AstLit::Other => HirExpr::Undefined,
    }
}

/// The IR operator of a binary operator.
pub fn transform_binop(op: &AstBinOp) -> (r: BinOp)
    ensures
        r == lower_binop(*op),
{
    match op {
        AstBinOp::Add => BinOp::Add,
        AstBinOp::Sub => BinOp::Sub,
        AstBinOp::Mul => BinOp::Mul,
        AstBinOp::Div => BinOp::Div,
        AstBinOp::Mod => BinOp::Mod,
        AstBinOp::EqEq => BinOp::Eq,
        AstBinOp::EqEqEq => BinOp::Eq,
        AstBinOp::NotEq => BinOp::Ne,
        AstBinOp::NotEqEq => BinOp::Ne,
        AstBinOp::Lt => BinOp::Lt,
        AstBinOp::LtEq => BinOp::Le,
        AstBinOp::Gt => BinOp::Gt,
        AstBinOp::GtEq => BinOp::Ge,
        AstBinOp::LogicalAnd => BinOp::And,
        AstBinOp::LogicalOr => BinOp::Or,
        AstBinOp::BitAnd => BinOp::BitAnd,
        AstBinOp::BitOr => BinOp::BitOr,
        AstBinOp::BitXor => BinOp::BitXor,
        AstBinOp::LShift => BinOp::Shl,
        AstBinOp::RShift => BinOp::Shr,
        _ => BinOp::Eq,
    }
}

fn compound(op: &AstAssignOp) -> (r: Option<BinOp>)
    ensures
        r == compound_op(*op),
{
    match op {
        AstAssignOp::AddAssign => Some(BinOp::Add),
        AstAssignOp::SubAssign => Some(BinOp::Sub),
        AstAssignOp::MulAssign => Some(BinOp::Mul),
        AstAssignOp::DivAssign => Some(BinOp::Div),
        AstAssignOp::ModAssign => Some(BinOp::Mod),
        AstAssignOp::BitAndAssign => Some(BinOp::BitAnd),
        AstAssignOp::BitOrAssign => Some(BinOp::BitOr),
        AstAssignOp::BitXorAssign => Some(BinOp::BitXor),
        AstAssignOp::LShiftAssign => Some(BinOp::Shl),
        AstAssignOp::RShiftAssign => Some(BinOp::Shr),
        _ => None,
    }
}

/// The name a pattern binds first, if any.
pub fn pat_ident_name(p: &AstPat) -> (r: Option<String>)
    ensures
        opt_text(r) == pat_name(*p),
    decreases p,
{
    match p {
        AstPat::Ident(n) => Some(n.clone()),
        AstPat::Array(elems) => if elems.len() > 0 {
            match &elems[0] {
                Some(q) => pat_ident_name(q),
                None => None,
            }
        } else {
            None
        },
        AstPat::Object(props) => if props.len() > 0 {
            match &props[0] {
                AstObjPatProp::KeyValue { key, .. } => match key {
                    AstPropName::Ident(n) => Some(n.clone()),
                    AstPropName::Str(n) => Some(n.clone()),
                    _ => None,
                },
                AstObjPatProp::Assign { key, .. } => Some(key.clone()),
                AstObjPatProp::Rest(_) => None,
            }
        } else {
            None
        },
        AstPat::Rest(q) => pat_ident_name(q),
        AstPat::Assign { left, .. } => pat_ident_name(left),
        AstPat::Expr(_) => None,
        AstPat::Invalid => None,
    }
}

fn pat_ident_name_or(p: &AstPat, dflt: &str) -> (r: String)
    ensures
        r@ == pat_name_or(*p, dflt@),
{
    match pat_ident_name(p) {
        Some(n) => n,
        None => owned(dflt),
    }
}

fn pat_ident_name_or_empty(p: &AstPat) -> (r: String)
    ensures
        r@ == pat_name_or(*p, Seq::empty()),
{
    match pat_ident_name(p) {
        Some(n) => n,
        None => String::new(),
    }
}

fn plain_key_text(k: &AstPropName) -> (r: Option<String>)
    ensures
        opt_text(r) == plain_key(*k),
{
    match k {
        AstPropName::Ident(n) => Some(n.clone()),
        AstPropName::Str(n) => Some(n.clone()),
        AstPropName::Num(n) => Some(n.clone()),
        AstPropName::BigInt(n) => Some(n.clone()),
        AstPropName::Computed(_) => None,
    }
}

/// Lowering of an expression.
pub fn transform_expr(e: &AstExpr) -> (r: HirExpr)
    ensures
        r.view() == lower_expr(*e),
    decreases e, 1nat,
{
    match e {
        AstExpr::Lit(_) => lower_leaf(e),
        AstExpr::Ident(_) => lower_leaf(e),
        AstExpr::Bin { .. } => lower_bin(e),
        AstExpr::Unary { .. } => lower_unary(e),
        AstExpr::Update { .. } => lower_update(e),
        AstExpr::Assign { .. } => lower_assign(e),
        AstExpr::Call { .. } => lower_call(e),
        AstExpr::Member { .. } => lower_member(e),
        AstExpr::Cond { .. } => lower_cond(e),
        AstExpr::Arrow { .. } => lower_arrow(e),
        AstExpr::Fn { .. } => lower_fn(e),
        AstExpr::Array(_) => lower_array(e),
        AstExpr::Object(_) => lower_object(e),
        AstExpr::Tpl { .. } => lower_template(e),
        AstExpr::TaggedTpl { .. } => lower_template(e),
        AstExpr::Sequence(_) => lower_sequence(e),
        AstExpr::Paren(_) => lower_wrapped(e),
        AstExpr::New { .. } => lower_new(e),
        AstExpr::TypeWrapper(_) => lower_wrapped(e),
        AstExpr::Await(_) => lower_wrapped(e),
        AstExpr::OptMember { .. } => lower_opt_member(e),
        AstExpr::OptCall { .. } => lower_opt_call(e),
        AstExpr::Other => lower_leaf(e),
    }
}

fn lower_leaf(e: &AstExpr) -> (r: HirExpr)
    requires
        e is Lit || e is Ident || e is Other,
    ensures
        r.view() == lower_expr(*e),
{
    match e {
        AstExpr::Lit(l) => transform_lit(l),
        AstExpr::Ident(n) => mk_ident(n.clone()),
        _ => mk_undefined(),
    }
}

fn lower_wrapped(e: &AstExpr) -> (r: HirExpr)
    requires
        e is Paren || e is TypeWrapper || e is Await,
    ensures
        r.view() == lower_expr(*e),
    decreases e, 0nat,
{
    match e {
        AstExpr::Paren(x) => transform_expr(x),
        AstExpr::TypeWrapper(x) => transform_expr(x),
        AstExpr::Await(x) => transform_expr(x),
        _ => HirExpr::Undefined,
    }
}

fn lower_bin(e: &AstExpr) -> (r: HirExpr)
    requires
        e is Bin,
    ensures
        r.view() == lower_expr(*e),
    decreases e, 0nat,
{
    match e {
        AstExpr::Bin { op, left, right } => {
            let l = transform_expr(left);
            let r = transform_expr(right);
            match op {
                AstBinOp::NullishCoalescing => {
                    let cond = present(&l);
                    mk_ternary(cond, l, r)
                },
                AstBinOp::In => rt_call("js_in", two(l, r)),
                _ => bin(transform_binop(op), l, r),
            }
        },
        _ => HirExpr::Undefined,
    }
}

fn lower_unary(e: &AstExpr) -> (r: HirExpr)
    requires
        e is Unary,
    ensures
        r.view() == lower_expr(*e),
    decreases e, 0nat,
{
    match e {
        AstExpr::Unary { op, arg } => {
            let v = transform_expr(arg);
            match op {
                AstUnaryOp::Bang => mk_unary(UnaryOp::Not, v),
                AstUnaryOp::Minus => mk_unary(UnaryOp::Neg, v),
                AstUnaryOp::TypeOf => mk_typeof(v),
                AstUnaryOp::Void => mk_undefined(),
                _ => v,
            }
        },
        _ => HirExpr::Undefined,
    }
}

fn lower_update(e: &AstExpr) -> (r: HirExpr)
    requires
        e is Update,
    ensures
        r.view() == lower_expr(*e),
    decreases e, 0nat,
{
    match e {
        AstExpr::Update { op, arg, .. } => {
            let t = transform_expr(arg);
            let bop = match op {
                AstUpdateOp::PlusPlus => BinOp::Add,
                AstUpdateOp::MinusMinus => BinOp::Sub,
            };
            let value = bin(bop, t.duplicate(), num_expr(1));
            mk_assign(t, value)
        },
        _ => HirExpr::Undefined,
    }
}

fn lower_assign(e: &AstExpr) -> (r: HirExpr)
    requires
        e is Assign,
    ensures
        r.view() == lower_expr(*e),
    decreases e, 0nat,
{
    match e {
        AstExpr::Assign { op, left, right } => {
            let v = transform_expr(right);
            let t = transform_assign_target(left);
            match compound(op) {
                Some(bop) => {
                    let value = bin(bop, t.duplicate(), v);
                    mk_assign(t, value)
                },
                None => mk_assign(t, v),
            }
        },
        _ => HirExpr::Undefined,
    }
}

fn lower_call(e: &AstExpr) -> (r: HirExpr)
    requires
        e is Call,
    ensures
        r.view() == lower_expr(*e),
    decreases e, 0nat,
{
    match e {
        AstExpr::Call { callee, args } => {
            let c = match callee {
                Some(x) => transform_expr(x),
                None => mk_undefined(),
            };
            if has_spread_arg(args) {
                let arr = spread_array_of(spread_pieces(args));
                rt_call("js_function_apply", two(c, arr))
            } else {
                mk_call(c, transform_args(args))
            }
        },
        _ => HirExpr::Undefined,
    }
}

fn lower_member(e: &AstExpr) -> (r: HirExpr)
    requires
        e is Member,
    ensures
        r.view() == lower_expr(*e),
    decreases e, 0nat,
{
    match e {
        AstExpr::Member { obj, prop } => {
            let o = transform_expr(obj);
            member(o, prop)
        },
        _ => HirExpr::Undefined,
    }
}

fn lower_cond(e: &AstExpr) -> (r: HirExpr)
    requires
        e is Cond,
    ensures
        r.view() == lower_expr(*e),
    decreases e, 0nat,
{
    match e {
        AstExpr::Cond { test, cons, alt } => HirExpr::Ternary {
            cond: Box::new(transform_expr(test)),
            then_expr: Box::new(transform_expr(cons)),
            else_expr: Box::new(transform_expr(alt)),
        },
        _ => HirExpr::Undefined,
    }
}

fn lower_arrow(e: &AstExpr) -> (r: HirExpr)
    requires
        e is Arrow,
    ensures
        r.view() == lower_expr(*e),
    decreases e, 0nat,
{
    match e {
        AstExpr::Arrow { params, body } => {
            let (names, mut inits) = extract_params(params);
            let mut b = match body {
                AstArrowBody::Block(stmts) => transform_block_stmts(stmts),
                AstArrowBody::Expr(x) => one(mk_return(Some(transform_expr(x)))),
            };
            let ghost iv = HirExpr::list_view(inits);
            let ghost bv = HirExpr::list_view(b);
            inits.append(&mut b);
            proof {
                assert(HirExpr::list_view(inits) =~= iv + bv);
            }
            mk_function(owned("anonymous"), names, inits)
        },
        _ => HirExpr::Undefined,
    }
}

fn lower_fn(e: &AstExpr) -> (r: HirExpr)
    requires
        e is Fn,
    ensures
        r.view() == lower_expr(*e),
    decreases e, 0nat,
{
    match e {
        AstExpr::Fn { ident: name, params, body } => {
            let n = match name {
                Some(x) => x.clone(),
                None => owned("anonymous"),
            };
            let ps = bound_names(params);
            let b = match body {
                Some(stmts) => transform_block_stmts(stmts),
                None => Vec::new(),
            };
            proof {
                if body is None {
                    assert(HirExpr::list_view(b) =~= Seq::<SpecIr>::empty());
                }
            }
            mk_function(n, ps, b)
        },
        _ => HirExpr::Undefined,
    }
}

fn lower_array(e: &AstExpr) -> (r: HirExpr)
    requires
        e is Array,
    ensures
        r.view() == lower_expr(*e),
    decreases e, 0nat,
{
    match e {
        AstExpr::Array(elems) => {
            if has_spread_elem(elems) {
                spread_array_of(array_pieces(elems))
            } else {
                mk_array(array_elements(elems))
            }
        },
        _ => HirExpr::Undefined,
    }
}

fn lower_object(e: &AstExpr) -> (r: HirExpr)
    requires
        e is Object,
    ensures
        r.view() == lower_expr(*e),
    decreases e, 0nat,
{
    match e {
        AstExpr::Object(props) => crate::ir_build::mk_object(object_properties(props)),
        _ => HirExpr::Undefined,
    }
}

fn lower_template(e: &AstExpr) -> (r: HirExpr)
    requires
        e is Tpl || e is TaggedTpl,
    ensures
        r.view() == lower_expr(*e),
    decreases e, 0nat,
{
    match e {
        AstExpr::Tpl { quasis, exprs } => transform_template(quasis, exprs),
        AstExpr::TaggedTpl { quasis, exprs } => transform_template(quasis, exprs),
        _ => HirExpr::Undefined,
    }
}

fn lower_sequence(e: &AstExpr) -> (r: HirExpr)
    requires
        e is Sequence,
    ensures
        r.view() == lower_expr(*e),
    decreases e, 0nat,
{
    match e {
        AstExpr::Sequence(v) => if v.len() > 0 {
            transform_expr(&v[v.len() - 1])
        } else {
            HirExpr::Undefined
        },
        _ => HirExpr::Undefined,
    }
}

fn lower_new(e: &AstExpr) -> (r: HirExpr)
    requires
        e is New,
    ensures
        r.view() == lower_expr(*e),
    decreases e, 0nat,
{
    match e {
        AstExpr::New { callee, args } => {
            let c = transform_expr(callee);
            let a = match args {
                Some(a) => transform_args(a),
                None => Vec::new(),
            };
            proof {
                if args is None {
                    assert(HirExpr::list_view(a) =~= Seq::<SpecIr>::empty());
                }
            }
            mk_call(c, a)
        },
        _ => HirExpr::Undefined,
    }
}

fn lower_opt_member(e: &AstExpr) -> (r: HirExpr)
    requires
        e is OptMember,
    ensures
        r.view() == lower_expr(*e),
    decreases e, 0nat,
{
    match e {
        AstExpr::OptMember { obj, prop } => {
            let o = transform_expr(obj);
            let cond = present(&o);
            let access = member(o, prop);
            mk_ternary(cond, access, mk_undefined())
        },
        _ => HirExpr::Undefined,
    }
}

fn lower_opt_call(e: &AstExpr) -> (r: HirExpr)
    requires
        e is OptCall,
    ensures
        r.view() == lower_expr(*e),
    decreases e, 0nat,
{
    match e {
        AstExpr::OptCall { callee, args } => {
            let c = transform_expr(callee);
            let cond = present(&c);
            let call = mk_call(c, transform_args(args));
            mk_ternary(cond, call, mk_undefined())
        },
        _ => HirExpr::Undefined,
    }
}

/// `o.name` or `o[index]` for a member property.
fn member(o: HirExpr, prop: &AstMemberProp) -> (r: HirExpr)
    ensures
        r.view() == member_access(o.view(), *prop),
    decreases prop, 0nat,
{
    match prop {
        AstMemberProp::Ident(n) => mk_property(o, n.clone()),
        AstMemberProp::Computed(x) => mk_index(o, transform_expr(x)),
        AstMemberProp::Private => mk_undefined(),
    }
}

/// Lowering of an assignment target.
pub fn transform_assign_target(t: &AstAssignTarget) -> (r: HirExpr)
    ensures
        r.view() == lower_target(*t),
    decreases t, 0nat,
{
    match t {
        AstAssignTarget::Ident(n) => mk_ident(n.clone()),
        AstAssignTarget::Member { obj, prop } => {
            let o = transform_expr(obj);
            member(o, prop)
        },
        AstAssignTarget::Wrapped(x) => transform_expr(x),
        AstAssignTarget::OptMember { obj, prop } => match prop {
            AstMemberProp::Ident(n) => mk_property(transform_expr(obj), n.clone()),
            _ => HirExpr::Undefined,
        },
        AstAssignTarget::Other => HirExpr::Undefined,
        AstAssignTarget::ArrayPat => ident_expr("_destr_arr_assign"),
        AstAssignTarget::ObjectPat => ident_expr("_destr_obj_assign"),
    }
}

fn has_spread_arg(args: &Vec<AstArg>) -> (r: bool)
    ensures
        r == exists|i: int| 0 <= i < args@.len() && (#[trigger] args@[i]).spread,
{
    let mut i: usize = 0;
    while i < args.len()
        invariant
            i <= args@.len(),
            forall|k: int| 0 <= k < i ==> !(#[trigger] args@[k]).spread,
        decreases args@.len() - i,
    {
        if args[i].spread {
            return true;
        }
        i = i + 1;
    }
    false
}

fn has_spread_elem(elems: &Vec<Option<AstArg>>) -> (r: bool)
    ensures
        r == exists|i: int| 0 <= i < elems@.len() && #[trigger] is_spread_elem(elems@[i]),
{
    let mut i: usize = 0;
    while i < elems.len()
        invariant
            i <= elems@.len(),
            forall|k: int| 0 <= k < i ==> !#[trigger] is_spread_elem(elems@[k]),
        decreases elems@.len() - i,
    {
        match &elems[i] {
            Some(a) => {
                if a.spread {
                    assert(is_spread_elem(elems@[i as int]));
                    return true;
                }
            },
            None => {},
        }
        i = i + 1;
    }
    false
}

/// The lowered arguments of a call.
fn transform_args(args: &Vec<AstArg>) -> (r: Vec<HirExpr>)
    ensures
        HirExpr::list_view(r) == lower_args(*args),
    decreases args, 0nat,
{
    let mut out: Vec<HirExpr> = Vec::new();
    let mut i: usize = 0;
    while i < args.len()
        invariant
            i <= args@.len(),
            HirExpr::list_view(out) == lower_args(*args).take(i as int),
        decreases args@.len() - i,
    {
        let x = transform_expr(&args[i].expr);
        let ghost before = out;
        out.push(x);
        proof {
            lemma_list_view_push(before, out, x);
            assert(lower_args(*args).take(i + 1) =~= lower_args(*args).take(i as int).push(
                x.view(),
            ));
        }
        i = i + 1;
    }
    proof {
        lemma_take_all(lower_args(*args));
    }
    out
}

fn spread_piece_of(a: &AstArg) -> (r: HirExpr)
    ensures
        r.view() == spread_piece(*a),
    decreases a, 0nat,
{
    let x = transform_expr(&a.expr);
    if a.spread {
        rt_call("js_array_spread", one(x))
    } else {
        mk_array(one(x))
    }
}

fn spread_pieces(args: &Vec<AstArg>) -> (r: Vec<HirExpr>)
    ensures
        HirExpr::list_view(r) == spread_parts(*args),
    decreases args, 0nat,
{
    let mut out: Vec<HirExpr> = Vec::new();
    let mut i: usize = 0;
    while i < args.len()
        invariant
            i <= args@.len(),
            HirExpr::list_view(out) == spread_parts(*args).take(i as int),
        decreases args@.len() - i,
    {
        let x = spread_piece_of(&args[i]);
        let ghost before = out;
        out.push(x);
        proof {
            lemma_list_view_push(before, out, x);
            assert(spread_parts(*args).take(i + 1) =~= spread_parts(*args).take(i as int).push(
                x.view(),
            ));
        }
        i = i + 1;
    }
    proof {
        lemma_take_all(spread_parts(*args));
    }
    out
}

fn array_pieces(elems: &Vec<Option<AstArg>>) -> (r: Vec<HirExpr>)
    ensures
        HirExpr::list_view(r) == flatten_opts(array_parts(*elems)),
    decreases elems, 0nat,
{
    let mut out: Vec<HirExpr> = Vec::new();
    let mut i: usize = 0;
    while i < elems.len()
        invariant
            i <= elems@.len(),
            HirExpr::list_view(out) == flatten_opts(array_parts(*elems).take(i as int)),
        decreases elems@.len() - i,
    {
        proof {
            lemma_flatten_take(array_parts(*elems), i as int);
        }
        match &elems[i] {
            Some(a) => {
                let x = spread_piece_of(a);
                let ghost before = out;
                out.push(x);
                proof {
                    lemma_list_view_push(before, out, x);
                }
            },
            None => {},
        }
        i = i + 1;
    }
    proof {
        lemma_take_all(array_parts(*elems));
    }
    out
}

fn array_elements(elems: &Vec<Option<AstArg>>) -> (r: Vec<HirExpr>)
    ensures
        HirExpr::list_view(r) == flatten_opts(array_plain(*elems)),
    decreases elems, 0nat,
{
    let mut out: Vec<HirExpr> = Vec::new();
    let mut i: usize = 0;
    while i < elems.len()
        invariant
            i <= elems@.len(),
            HirExpr::list_view(out) == flatten_opts(array_plain(*elems).take(i as int)),
        decreases elems@.len() - i,
    {
        proof {
            lemma_flatten_take(array_plain(*elems), i as int);
        }
        match &elems[i] {
            Some(a) => {
                let x = transform_expr(&a.expr);
                let ghost before = out;
                out.push(x);
                proof {
                    lemma_list_view_push(before, out, x);
                }
            },
            None => {},
        }
        i = i + 1;
    }
    proof {
        lemma_take_all(array_plain(*elems));
    }
    out
}

/// The array built from spread pieces: empty, the one piece, or the
/// runtime concatenation of the pieces from the left.
fn spread_array_of(parts: Vec<HirExpr>) -> (r: HirExpr)
    ensures
        r.view() == spread_array(HirExpr::list_view(parts)),
{
    let ghost pv = HirExpr::list_view(parts);
    if parts.len() == 0 {
        proof {
            assert(HirExpr::list_view(parts) =~= Seq::<SpecIr>::empty());
        }
        return mk_array(parts);
    }
    let mut rest = parts;
    let first = rest.remove(0);
    let mut acc = first;
    let mut i: usize = 0;
    assert(pv.take(1).drop_last() =~= Seq::<SpecIr>::empty());
    while i < rest.len()
        invariant
            pv.len() == rest@.len() + 1,
            i <= rest@.len(),
            forall|k: int| 0 <= k < rest@.len() ==> (#[trigger] rest@[k]).view() == pv[k + 1],
            acc.view() == concat_chain(pv.take(i + 1)),
        decreases rest@.len() - i,
    {
        let next = rest[i].duplicate();
        proof {
            let p = pv.take(i + 2);
            assert(p.drop_last() =~= pv.take(i + 1));
            assert(p.last() == pv[i + 1]);
        }
        acc = rt_call("js_array_concat", two(acc, next));
        i = i + 1;
    }
    proof {
        lemma_take_all(pv);
    }
    acc
}

/// The parameter names of a function expression (patterns binding no
/// name are left out).
fn bound_names(params: &Vec<AstPat>) -> (r: Vec<String>)
    ensures
        names_view(r@) == flatten_opts(Seq::new(params@.len(), |i: int| pat_name(params@[i]))),
{
    let ghost s = Seq::new(params@.len(), |i: int| pat_name(params@[i]));
    let mut out: Vec<String> = Vec::new();
    let mut i: usize = 0;
    while i < params.len()
        invariant
            i <= params@.len(),
            s == Seq::new(params@.len(), |i: int| pat_name(params@[i])),
            names_view(out@) == flatten_opts(s.take(i as int)),
        decreases params@.len() - i,
    {
        proof {
            lemma_flatten_take(s, i as int);
        }
        match pat_ident_name(&params[i]) {
            Some(n) => {
                let ghost before = out@;
                out.push(n);
                assert(names_view(out@) =~= names_view(before).push(n@));
            },
            None => {},
        }
        i = i + 1;
    }
    proof {
        lemma_take_all(s);
    }
    out
}

/// The entries of an object literal.
fn object_properties(props: &Vec<AstProp>) -> (r: Vec<(String, HirExpr)>)
    ensures
        HirExpr::pairs_view(r) == flatten_opts(object_entries(*props)),
    decreases props, 0nat,
{
    let mut out: Vec<(String, HirExpr)> = Vec::new();
    let mut i: usize = 0;
    while i < props.len()
        invariant
            i <= props@.len(),
            HirExpr::pairs_view(out) == flatten_opts(object_entries(*props).take(i as int)),
            out@.len() == kept_before(props@, i as int),
        decreases props@.len() - i,
    {
        proof {
            lemma_flatten_take(object_entries(*props), i as int);
        }
        let before_count = out.len();
        match prop_entry_of(&props[i], before_count) {
            Some(kv) => {
                let ghost before = out;
                let (k, v) = kv;
                out.push((k, v));
                proof {
                    lemma_pairs_view_push(before, out, k, v);
                }
            },
            None => {},
        }
        i = i + 1;
    }
    proof {
        lemma_take_all(object_entries(*props));
    }
    out
}

/// The entry an object-literal member yields, `before` entries in.
fn prop_entry_of(p: &AstProp, before: usize) -> (r: Option<(String, HirExpr)>)
    ensures
        prop_entry(*p, before as nat) == match r {
            Some(kv) => Some((kv.0@, kv.1.view())),
            None => None,
        },
        (r is Some) == prop_kept(*p),
    decreases p, 0nat,
{
    match p {
        AstProp::KeyValue { key, value } => {
            let v = transform_expr(value);
            match key {
                AstPropName::Computed(k) => {
                    let kx = transform_expr(k);
                    let name = joined("_computed_", decimal_text(before as u64).as_str());
                    let call = rt_call("js_object_set_computed", three(num_expr(before as u64), kx, v));
                    Some((name, call))
                },
                _ => {
                    let name = match plain_key_text(key) {
                        Some(n) => n,
                        None => owned(""),
                    };
                    Some((name, v))
                },
            }
        },
        AstProp::Shorthand(n) => Some((n.clone(), HirExpr::Identifier(n.clone()))),
        AstProp::Other => None,
        AstProp::Spread(x) => {
            let v = transform_expr(x);
            let name = joined("_spread_", decimal_text(before as u64).as_str());
            Some((name, rt_call("js_object_spread", one(v))))
        },
    }
}

/// Lowering of a template: its non-empty raw pieces and the expressions
/// between them, joined with `+` from the left; an empty string if there
/// is nothing.
pub fn transform_template(quasis: &Vec<String>, exprs: &Vec<AstExpr>) -> (r: HirExpr)
    ensures
        r.view() == template_value(flatten_pairs(template_parts(*quasis, *exprs))),
    decreases exprs, 0nat,
{
    let ghost tp = template_parts(*quasis, *exprs);
    let mut parts: Vec<HirExpr> = Vec::new();
    let mut i: usize = 0;
    while i < quasis.len()
        invariant
            i <= quasis@.len(),
            tp == template_parts(*quasis, *exprs),
            HirExpr::list_view(parts) == flatten_pairs(tp.take(i as int)),
        decreases quasis@.len() - i,
    {
        proof {
            assert(tp.take(i + 1).drop_last() =~= tp.take(i as int));
        }
        let ghost before = parts;
        if quasis[i].as_str().unicode_len() > 0 {
            let q = HirExpr::String(quasis[i].clone());
            let ghost b0 = parts;
            parts.push(q);
            proof {
                lemma_list_view_push(b0, parts, q);
            }
        }
        let ghost mid = parts;
        if i < exprs.len() {
            let x = transform_expr(&exprs[i]);
            let ghost b1 = parts;
            parts.push(x);
            proof {
                lemma_list_view_push(b1, parts, x);
            }
        }
        proof {
            assert(HirExpr::list_view(mid) == HirExpr::list_view(before) + opt_seq(tp[i as int].0));
            assert(HirExpr::list_view(parts) == HirExpr::list_view(mid) + opt_seq(tp[i as int].1));
            assert(flatten_pairs(tp.take(i + 1)) == flatten_pairs(tp.take(i as int)) + opt_seq(
                tp[i as int].0,
            ) + opt_seq(tp[i as int].1));
        }
        i = i + 1;
    }
    proof {
        lemma_take_all(tp);
    }
    join_with_add(parts)
}

/// The `+` of `parts` from the left; an empty string for none.
fn join_with_add(parts: Vec<HirExpr>) -> (r: HirExpr)
    ensures
        r.view() == template_value(HirExpr::list_view(parts)),
{
    let ghost pv = HirExpr::list_view(parts);
    if parts.len() == 0 {
        return HirExpr::String(String::new());
    }
    let mut rest = parts;
    let first = rest.remove(0);
    let mut acc = first;
    let mut i: usize = 0;
    assert(pv.take(1).drop_last() =~= Seq::<SpecIr>::empty());
    while i < rest.len()
        invariant
            pv.len() == rest@.len() + 1,
            i <= rest@.len(),
            forall|k: int| 0 <= k < rest@.len() ==> (#[trigger] rest@[k]).view() == pv[k + 1],
            acc.view() == add_chain(pv.take(i + 1)),
        decreases rest@.len() - i,
    {
        let next = rest[i].duplicate();
        proof {
            let p = pv.take(i + 2);
            assert(p.drop_last() =~= pv.take(i + 1));
            assert(p.last() == pv[i + 1]);
        }
        acc = bin(BinOp::Add, acc, next);
        i = i + 1;
    }
    proof {
        lemma_take_all(pv);
    }
    acc
}

/// The parameter names and entry statements of a prefix of the parameter
/// contributions grow by one contribution at a time.
proof fn lemma_param_take(steps: Seq<(Option<Seq<char>>, Option<SpecIr>)>, i: int)
    requires
        0 <= i < steps.len(),
    ensures
        param_names(steps.take(i + 1)) == param_names(steps.take(i)) + opt_seq(steps[i].0),
        param_inits(steps.take(i + 1)) == param_inits(steps.take(i)) + opt_seq(steps[i].1),
{
    let a = Seq::new(steps.take(i + 1).len(), |j: int| steps.take(i + 1)[j].0);
    let b = Seq::new(steps.take(i).len(), |j: int| steps.take(i)[j].0);
    assert(a.drop_last() =~= b);
    let c = Seq::new(steps.take(i + 1).len(), |j: int| steps.take(i + 1)[j].1);
    let d = Seq::new(steps.take(i).len(), |j: int| steps.take(i)[j].1);
    assert(c.drop_last() =~= d);
}

fn param_step_of(p: &AstPat, i: usize) -> (r: (Option<String>, Option<HirExpr>))
    ensures
        param_step(*p, i as nat) == (opt_text(r.0), opt_ir(r.1)),
    decreases p, 0nat,
{
    match p {
        AstPat::Assign { left, right } => match pat_ident_name(left) {
            Some(n) => {
                let test = bin(BinOp::Eq, mk_ident(n.clone()), mk_undefined());
                let assign = mk_assign(mk_ident(n.clone()), transform_expr(right));
                let check = mk_if(test, one(mk_expr_stmt(assign)), None);
                (Some(n), Some(check))
            },
            None => (Some(owned("_")), None),
        },
        AstPat::Rest(arg) => match pat_ident_name(arg) {
            Some(n) => {
                let init = rt_call("js_array_from_args", one(num_expr(i as u64)));
                (None, Some(var_stmt(n, Some(init), false)))
            },
            None => (None, None),
        },
        _ => (Some(pat_ident_name_or(p, "_")), None),
    }
}

/// The parameter names of a function and the statements its parameters
/// run on entry (default values, the collection of rest arguments).
pub fn extract_params(params: &Vec<AstPat>) -> (r: (Vec<String>, Vec<HirExpr>))
    ensures
        names_view(r.0@) == param_names(param_steps(*params)),
        HirExpr::list_view(r.1) == param_inits(param_steps(*params)),
    decreases params, 0nat,
{
    let ghost steps = param_steps(*params);
    let mut names: Vec<String> = Vec::new();
    let mut inits: Vec<HirExpr> = Vec::new();
    let mut i: usize = 0;
    while i < params.len()
        invariant
            i <= params@.len(),
            steps == param_steps(*params),
            names_view(names@) == param_names(steps.take(i as int)),
            HirExpr::list_view(inits) == param_inits(steps.take(i as int)),
        decreases params@.len() - i,
    {
        proof {
            lemma_param_take(steps, i as int);
        }
        let (n, x) = param_step_of(&params[i], i);
        match n {
            Some(n) => {
                let ghost before = names@;
                names.push(n);
                assert(names_view(names@) =~= names_view(before).push(n@));
            },
            None => {},
        }
        match x {
            Some(x) => {
                let ghost before = inits;
                inits.push(x);
                proof {
                    lemma_list_view_push(before, inits, x);
                }
            },
            None => {},
        }
        i = i + 1;
    }
    proof {
        lemma_take_all(steps);
    }
    (names, inits)
}

/// Lowering of a function with the given name.
pub fn transform_fn_expr(f: &AstFunction, name: &str) -> (r: HirExpr)
    ensures
        r.view() == lower_function(*f, name@),
    decreases f, 0nat,
{
    let (params, mut inits) = extract_params(&f.params);
    let mut body = match &f.body {
        Some(stmts) => transform_block_stmts(stmts),
        None => Vec::new(),
    };
    proof {
        if f.body is None {
            assert(HirExpr::list_view(body) =~= Seq::<SpecIr>::empty());
        }
    }
    let ghost iv = HirExpr::list_view(inits);
    let ghost bv = HirExpr::list_view(body);
    inits.append(&mut body);
    proof {
        assert(HirExpr::list_view(inits) =~= iv + bv);
    }
    mk_function(owned(name), params, inits)
}

/// Lowering of a function declaration; none for an ambient one.
pub fn transform_fn_decl(name: &String, declare: bool, f: &AstFunction) -> (r: Option<HirExpr>)
    ensures
        opt_ir(r) == if declare {
            None
        } else {
            Some(lower_function(*f, name@))
        },
    decreases f, 1nat,
{
    if declare {
        None
    } else {
        Some(transform_fn_expr(f, name.as_str()))
    }
}

/// One statement, or a block of the statements.
fn single_or_block_of(v: Vec<HirExpr>) -> (r: HirExpr)
    ensures
        r.view() == single_or_block(HirExpr::list_view(v)),
{
    if v.len() == 1 {
        let mut w = v;
        w.remove(0)
    } else {
        mk_block(v)
    }
}

fn opt_single_or_block_of(v: Vec<HirExpr>) -> (r: Option<HirExpr>)
    ensures
        opt_ir(r) == opt_single_or_block(HirExpr::list_view(v)),
{
    if v.len() == 0 {
        None
    } else {
        Some(single_or_block_of(v))
    }
}

fn kind_mut(k: &AstVarKind) -> (r: bool)
    ensures
        r == kind_is_mut(*k),
{
    match k {
        AstVarKind::Const => false,
        _ => true,
    }
}

fn first_present_index(elems: &Vec<Option<AstPat>>) -> (r: usize)
    ensures
        r as nat == first_present(elems@),
{
    let mut i: usize = 0;
    while i < elems.len()
        invariant
            i <= elems@.len(),
            first_present_from(elems@, 0) == first_present_from(elems@, i as int),
        decreases elems@.len() - i,
    {
        if elems[i].is_some() {
            return i;
        }
        i = i + 1;
    }
    0
}

fn obj_pat_step_of(p: &AstObjPatProp, tmp: &String, is_mut: bool) -> (r: Option<HirExpr>)
    ensures
        opt_ir(r) == obj_pat_step(*p, tmp@, is_mut),
    decreases p, 1nat,
{
    match p {
        AstObjPatProp::KeyValue { .. } => obj_key_value_step(p, tmp, is_mut),
        AstObjPatProp::Assign { .. } => obj_assign_step(p, tmp, is_mut),
        AstObjPatProp::Rest(arg) => match pat_ident_name(arg) {
            Some(n) => Some(var_stmt(n, Some(mk_ident(tmp.clone())), is_mut)),
            None => None,
        },
    }
}

fn pattern_key_text(key: &AstPropName) -> (r: Option<String>)
    ensures
        opt_text(r) == pattern_key(*key),
{
    match key {
        AstPropName::Computed(x) => match &**x {
            AstExpr::Ident(n) => Some(n.clone()),
            _ => None,
        },
        _ => plain_key_text(key),
    }
}

/// The lowered expression a pattern carries.
fn pattern_default_of(p: &AstPat) -> (r: HirExpr)
    ensures
        r.view() == pattern_default(*p),
    decreases p, 1nat,
{
    match p {
        AstPat::Assign { right, .. } => transform_expr(right),
        AstPat::Expr(x) => transform_expr(x),
        _ => mk_undefined(),
    }
}

fn key_value_binding_of(
    name: Option<String>,
    value: &AstPat,
    dflt: HirExpr,
    tmp: &String,
    is_mut: bool,
) -> (r: Option<HirExpr>)
    ensures
        opt_ir(r) == key_value_binding(opt_text(name), *value, dflt.view(), tmp@, is_mut),
{
    match name {
        None => None,
        Some(pn) => {
            let access = mk_property(mk_ident(tmp.clone()), pn.clone());
            match value {
                AstPat::Ident(n) => Some(var_stmt(n.clone(), Some(access), is_mut)),
                AstPat::Assign { left, .. } => {
                    let v = match pat_ident_name(left) {
                        Some(x) => x,
                        None => pn,
                    };
                    Some(var_stmt(v, Some(defaulted(access, dflt)), is_mut))
                },
                _ => Some(var_stmt(pn, Some(access), is_mut)),
            }
        },
    }
}

fn obj_key_value_step(p: &AstObjPatProp, tmp: &String, is_mut: bool) -> (r: Option<HirExpr>)
    requires
        p is KeyValue,
    ensures
        opt_ir(r) == obj_pat_step(*p, tmp@, is_mut),
    decreases p, 0nat,
{
    match p {
        AstObjPatProp::KeyValue { key, value } => {
            let name = pattern_key_text(key);
            let dflt = pattern_default_of(value);
            key_value_binding_of(name, value, dflt, tmp, is_mut)
        },
        _ => None,
    }
}

fn lower_default_of(v: &Option<Box<AstExpr>>) -> (r: Option<HirExpr>)
    ensures
        opt_ir(r) == lower_default(*v),
    decreases v, 1nat,
{
    match v {
        Some(d) => Some(transform_expr(d)),
        None => None,
    }
}

fn shorthand_binding_of(key: &String, dflt: Option<HirExpr>, tmp: &String, is_mut: bool) -> (r: Option<HirExpr>)
    ensures
        opt_ir(r) == shorthand_binding(key@, opt_ir(dflt), tmp@, is_mut),
{
    let access = mk_property(mk_ident(tmp.clone()), key.clone());
    let init = match dflt {
        Some(d) => defaulted(access, d),
        None => access,
    };
    Some(var_stmt(key.clone(), Some(init), is_mut))
}

fn obj_assign_step(p: &AstObjPatProp, tmp: &String, is_mut: bool) -> (r: Option<HirExpr>)
    requires
        p is Assign,
    ensures
        opt_ir(r) == obj_pat_step(*p, tmp@, is_mut),
    decreases p, 0nat,
{
    match p {
        AstObjPatProp::Assign { key, value } => {
            let dflt = lower_default_of(value);
            shorthand_binding_of(key, dflt, tmp, is_mut)
        },
        _ => None,
    }
}

fn obj_pat_stmts(props: &Vec<AstObjPatProp>, tmp: &String, is_mut: bool) -> (r: Vec<HirExpr>)
    ensures
        HirExpr::list_view(r) == flatten_opts(obj_pat_steps(*props, tmp@, is_mut)),
    decreases props, 0nat,
{
    let ghost st = obj_pat_steps(*props, tmp@, is_mut);
    let mut out: Vec<HirExpr> = Vec::new();
    let mut i: usize = 0;
    while i < props.len()
        invariant
            i <= props@.len(),
            st == obj_pat_steps(*props, tmp@, is_mut),
            HirExpr::list_view(out) == flatten_opts(st.take(i as int)),
        decreases props@.len() - i,
    {
        proof {
            lemma_flatten_take(st, i as int);
        }
        match obj_pat_step_of(&props[i], tmp, is_mut) {
            Some(x) => {
                let ghost before = out;
                out.push(x);
                proof {
                    lemma_list_view_push(before, out, x);
                }
            },
            None => {},
        }
        i = i + 1;
    }
    proof {
        lemma_take_all(st);
    }
    out
}

fn element_binding_of(p: &AstPat, lowered: HirExpr, i: usize, tmp: &String, is_mut: bool) -> (r: Option<HirExpr>)
    ensures
        opt_ir(r) == element_binding(*p, lowered.view(), i as nat, tmp@, is_mut),
{
    let access = mk_index(mk_ident(tmp.clone()), num_expr(i as u64));
    match p {
        AstPat::Ident(n) => Some(var_stmt(n.clone(), Some(access), is_mut)),
        AstPat::Assign { left, .. } => {
            let dflt = joined("_arr", decimal_text(i as u64).as_str());
            let v = pat_ident_name_or(left, dflt.as_str());
            Some(var_stmt(v, Some(defaulted(access, lowered)), is_mut))
        },
        AstPat::Rest(arg) => match pat_ident_name(arg) {
            Some(n) => {
                let init = rt_call("js_array_slice", two(mk_ident(tmp.clone()), num_expr(i as u64)));
                Some(var_stmt(n, Some(init), is_mut))
            },
            None => None,
        },
        AstPat::Expr(_) => Some(mk_assign(lowered, access)),
        _ => None,
    }
}

fn arr_pat_step_of(e: &Option<AstPat>, i: usize, tmp: &String, is_mut: bool) -> (r: Option<HirExpr>)
    ensures
        opt_ir(r) == arr_pat_step(*e, i as nat, tmp@, is_mut),
    decreases e, 0nat,
{
    match e {
        None => None,
        Some(p) => {
            let lowered = pattern_default_of(p);
            element_binding_of(p, lowered, i, tmp, is_mut)
        },
    }
}

fn arr_pat_stmts(elems: &Vec<Option<AstPat>>, tmp: &String, is_mut: bool) -> (r: Vec<HirExpr>)
    ensures
        HirExpr::list_view(r) == flatten_opts(arr_pat_steps(*elems, tmp@, is_mut)),
    decreases elems, 0nat,
{
    let ghost st = arr_pat_steps(*elems, tmp@, is_mut);
    let mut out: Vec<HirExpr> = Vec::new();
    let mut i: usize = 0;
    while i < elems.len()
        invariant
            i <= elems@.len(),
            st == arr_pat_steps(*elems, tmp@, is_mut),
            HirExpr::list_view(out) == flatten_opts(st.take(i as int)),
        decreases elems@.len() - i,
    {
        proof {
            lemma_flatten_take(st, i as int);
        }
        match arr_pat_step_of(&elems[i], i, tmp, is_mut) {
            Some(x) => {
                let ghost before = out;
                out.push(x);
                proof {
                    lemma_list_view_push(before, out, x);
                }
            },
            None => {},
        }
        i = i + 1;
    }
    proof {
        lemma_take_all(st);
    }
    out
}

fn destructure_of(tmp: String, init: Option<HirExpr>, bindings: Vec<HirExpr>) -> (r: HirExpr)
    ensures
        r.view() == destructure(tmp@, opt_ir(init), HirExpr::list_view(bindings)),
{
    let mut stmts = one(var_stmt(tmp, init, false));
    let mut rest = bindings;
    let ghost a = HirExpr::list_view(stmts);
    let ghost b = HirExpr::list_view(rest);
    stmts.append(&mut rest);
    proof {
        assert(HirExpr::list_view(stmts) =~= a + b);
    }
    single_or_block_of(stmts)
}

fn declarator_init(init: &Option<AstExpr>) -> (r: Option<HirExpr>)
    ensures
        opt_ir(r) == lower_init(*init),
    decreases init, 1nat,
{
    match init {
        Some(x) => Some(transform_expr(x)),
        None => None,
    }
}

/// Lowering of a variable declarator: a plain binding, or a temporary
/// holding the value followed by one binding per destructured name.
fn declarator(d: &AstDeclarator, is_mut: bool) -> (r: HirExpr)
    ensures
        r.view() == lower_declarator(*d, is_mut),
    decreases d, 1nat,
{
    match &d.name {
        AstPat::Object(_) => object_declarator(d, is_mut),
        AstPat::Array(_) => array_declarator(d, is_mut),
        _ => plain_declarator(d, is_mut),
    }
}

fn plain_declarator(d: &AstDeclarator, is_mut: bool) -> (r: HirExpr)
    requires
        !(d.name is Object || d.name is Array),
    ensures
        r.view() == lower_declarator(*d, is_mut),
    decreases d, 0nat,
{
    let init = declarator_init(&d.init);
    var_stmt(pat_ident_name_or_empty(&d.name), init, is_mut)
}

fn object_declarator(d: &AstDeclarator, is_mut: bool) -> (r: HirExpr)
    requires
        d.name is Object,
    ensures
        r.view() == lower_declarator(*d, is_mut),
    decreases d, 0nat,
{
    let init = declarator_init(&d.init);
    match &d.name {
        AstPat::Object(props) => {
            let tmp = joined("_destr_", pat_ident_name_or(&d.name, "tmp").as_str());
            let bindings = obj_pat_stmts(props, &tmp, is_mut);
            destructure_of(tmp, init, bindings)
        },
        _ => mk_undefined(),
    }
}

fn array_declarator(d: &AstDeclarator, is_mut: bool) -> (r: HirExpr)
    requires
        d.name is Array,
    ensures
        r.view() == lower_declarator(*d, is_mut),
    decreases d, 0nat,
{
    let init = declarator_init(&d.init);
    match &d.name {
        AstPat::Array(elems) => {
            let pos = first_present_index(elems);
            let tmp = joined("_destr_arr_", decimal_text(pos as u64).as_str());
            let bindings = arr_pat_stmts(elems, &tmp, is_mut);
            destructure_of(tmp, init, bindings)
        },
        _ => mk_undefined(),
    }
}

/// Lowering of a variable declarator of the given kind.
pub fn transform_var_declarator(d: &AstDeclarator, kind: &AstVarKind) -> (r: HirExpr)
    ensures
        r.view() == lower_declarator(*d, kind_is_mut(*kind)),
{
    declarator(d, kind_mut(kind))
}

fn declarators(decls: &Vec<AstDeclarator>, is_mut: bool) -> (r: Vec<HirExpr>)
    ensures
        HirExpr::list_view(r) == lower_declarators(*decls, is_mut),
    decreases decls, 0nat,
{
    let mut out: Vec<HirExpr> = Vec::new();
    let mut i: usize = 0;
    while i < decls.len()
        invariant
            i <= decls@.len(),
            HirExpr::list_view(out) == lower_declarators(*decls, is_mut).take(i as int),
        decreases decls@.len() - i,
    {
        let x = declarator(&decls[i], is_mut);
        let ghost before = out;
        out.push(x);
        proof {
            lemma_list_view_push(before, out, x);
            assert(lower_declarators(*decls, is_mut).take(i + 1) =~= lower_declarators(
                *decls,
                is_mut,
            ).take(i as int).push(x.view()));
        }
        i = i + 1;
    }
    proof {
        lemma_take_all(lower_declarators(*decls, is_mut));
    }
    out
}

/// Lowering of an enum: one constant per member, named after the enum and
/// the member; none for a `const` enum or one without members.
pub fn transform_enum(name: &String, is_const: bool, members: &Vec<AstEnumMember>) -> (r: Option<HirExpr>)
    ensures
        opt_ir(r) == if is_const {
            None
        } else {
            opt_single_or_block(enum_vars(*members, name@))
        },
    decreases members, 0nat,
{
    if is_const {
        return None;
    }
    let prefix = joined(name.as_str(), "_");
    let mut out: Vec<HirExpr> = Vec::new();
    let mut i: usize = 0;
    while i < members.len()
        invariant
            i <= members@.len(),
            prefix@ == name@ + "_"@,
            HirExpr::list_view(out) == enum_vars(*members, name@).take(i as int),
        decreases members@.len() - i,
    {
        let m = &members[i];
        let value = match &m.init {
            AstEnumInit::Expr(x) => transform_expr(x),
            AstEnumInit::Auto(bits) => mk_number(*bits),
        };
        let x = var_stmt(joined(prefix.as_str(), m.name.as_str()), Some(value), false);
        let ghost before = out;
        out.push(x);
        proof {
            lemma_list_view_push(before, out, x);
            assert(enum_vars(*members, name@).take(i + 1) =~= enum_vars(*members, name@).take(
                i as int,
            ).push(x.view()));
        }
        i = i + 1;
    }
    proof {
        lemma_take_all(enum_vars(*members, name@));
    }
    opt_single_or_block_of(out)
}

/// Lowering of a declaration; none for one that yields no code.
pub fn transform_decl(d: &AstDecl) -> (r: Option<HirExpr>)
    ensures
        opt_ir(r) == lower_decl(*d),
    decreases d, 0nat,
{
    match d {
        AstDecl::Fn { name, declare, function } => transform_fn_decl(name, *declare, function),
        AstDecl::Var { kind, decls } => opt_single_or_block_of(declarators(decls, kind_mut(kind))),
        AstDecl::Enum { name, is_const, members } => transform_enum(name, *is_const, members),
        AstDecl::Other => None,
    }
}

/// Lowering of the initializer of a `for` loop.
pub fn transform_for_init(i: &AstForInit) -> (r: HirExpr)
    ensures
        r.view() == lower_for_init(*i),
    decreases i, 0nat,
{
    match i {
        AstForInit::Var { kind, decls } => single_or_block_of(declarators(decls, kind_mut(kind))),
        AstForInit::Expr(x) => mk_expr_stmt(transform_expr(x)),
    }
}

/// An expression as a statement.
pub fn transform_expr_as_stmt(e: &AstExpr) -> (r: HirExpr)
    ensures
        r.view() == SpecIr::ExprStmt(Box::new(lower_expr(*e))),
    decreases e, 2nat,
{
    mk_expr_stmt(transform_expr(e))
}

/// Lowering of a list of statements; statements that yield no code are
/// left out.
pub fn transform_block_stmts(stmts: &Vec<AstStmt>) -> (r: Vec<HirExpr>)
    ensures
        HirExpr::list_view(r) == flatten_opts(stmt_opts(*stmts)),
    decreases stmts, 0nat,
{
    let ghost so = stmt_opts(*stmts);
    let mut out: Vec<HirExpr> = Vec::new();
    let mut i: usize = 0;
    while i < stmts.len()
        invariant
            i <= stmts@.len(),
            so == stmt_opts(*stmts),
            HirExpr::list_view(out) == flatten_opts(so.take(i as int)),
        decreases stmts@.len() - i,
    {
        proof {
            lemma_flatten_take(so, i as int);
        }
        match transform_stmt(&stmts[i]) {
            Some(x) => {
                let ghost before = out;
                out.push(x);
                proof {
                    lemma_list_view_push(before, out, x);
                }
            },
            None => {},
        }
        i = i + 1;
    }
    proof {
        lemma_take_all(so);
    }
    out
}

/// The statements a loop or branch body lowers to.
pub fn transform_stmt_as_vec(s: &AstStmt) -> (r: Vec<HirExpr>)
    ensures
        HirExpr::list_view(r) == body_stmts(*s),
    decreases s, 2nat,
{
    match s {
        AstStmt::Block(stmts) => transform_block_stmts(stmts),
        _ => match transform_stmt(s) {
            Some(x) => one(x),
            None => {
                let v: Vec<HirExpr> = Vec::new();
                assert(HirExpr::list_view(v) =~= Seq::<SpecIr>::empty());
                v
            },
        },
    }
}

fn head_name_of(h: &AstForHead) -> (r: String)
    ensures
        r@ == head_name(*h),
{
    match h {
        AstForHead::VarDecl(Some(p)) => pat_ident_name_or_empty(p),
        AstForHead::VarDecl(None) => String::new(),
        AstForHead::Pat(p) => pat_ident_name_or_empty(p),
        AstForHead::Using => owned("_using"),
    }
}

fn counting_loop_of(idx: &String, bound: &String, first: HirExpr, body: Vec<HirExpr>) -> (r: HirExpr)
    ensures
        r.view() == counting_loop(idx@, bound@, first.view(), HirExpr::list_view(body)),
{
    let init = var_stmt(idx.clone(), Some(num_expr(0)), true);
    let cond = bin(BinOp::Lt, mk_ident(idx.clone()), mk_ident(bound.clone()));
    let step = bin(BinOp::Add, mk_ident(idx.clone()), num_expr(1));
    let update = mk_assign(mk_ident(idx.clone()), step);
    let mut all = one(first);
    let mut rest = body;
    let ghost a = HirExpr::list_view(all);
    let ghost b = HirExpr::list_view(rest);
    all.append(&mut rest);
    proof {
        assert(HirExpr::list_view(all) =~= a + b);
    }
    mk_for(Some(init), Some(cond), Some(update), all)
}

fn for_in(s: &AstStmt) -> (r: HirExpr)
    requires
        s is ForIn,
    ensures
        Some(r.view()) == lower_stmt(*s),
    decreases s, 0nat,
{
    let (left, right, body) = match s {
        AstStmt::ForIn { left, right, body } => (left, right, body),
        _ => {
            return HirExpr::Undefined;
        },
    };
    let v = head_name_of(left);
    let keys = joined("_keys_", v.as_str());
    let keys_len = joined("_keys_len_", v.as_str());
    let idx = joined("_i_", v.as_str());
    let obj = transform_expr(right);
    let body_vec = transform_stmt_as_vec(body);
    let s1 = var_stmt(keys.clone(), Some(rt_call("js_object_keys", one(obj))), false);
    let len_of = mk_property(mk_ident(keys.clone()), owned("length"));
    let s2 = var_stmt(keys_len.clone(), Some(len_of), false);
    let item = mk_index(mk_ident(keys.clone()), mk_ident(idx.clone()));
    let first = var_stmt(v, Some(item), false);
    let lp = counting_loop_of(&idx, &keys_len, first, body_vec);
    mk_block(three(s1, s2, lp))
}

fn for_of(s: &AstStmt) -> (r: HirExpr)
    requires
        s is ForOf,
    ensures
        Some(r.view()) == lower_stmt(*s),
    decreases s, 0nat,
{
    let (left, right, body) = match s {
        AstStmt::ForOf { left, right, body } => (left, right, body),
        _ => {
            return HirExpr::Undefined;
        },
    };
    let v = head_name_of(left);
    let len_var = joined("_len_", v.as_str());
    let idx = joined("_i_", v.as_str());
    let it = transform_expr(right);
    let body_vec = transform_stmt_as_vec(body);
    let len_of = mk_property(it.duplicate(), owned("length"));
    let s1 = var_stmt(len_var.clone(), Some(len_of), false);
    let item = mk_index(it, mk_ident(idx.clone()));
    let first = var_stmt(v, Some(item), false);
    let lp = counting_loop_of(&idx, &len_var, first, body_vec);
    mk_block(two(s1, lp))
}

fn switch_cases_of(cases: &Vec<AstSwitchCase>) -> (r: Vec<(Option<HirExpr>, Vec<HirExpr>)>)
    ensures
        r@.len() == cases@.len(),
        forall|k: int|
            0 <= k < r@.len() ==> (opt_ir((#[trigger] r@[k]).0), HirExpr::list_view(r@[k].1))
                == switch_cases(*cases)[k],
    decreases cases, 0nat,
{
    let mut out: Vec<(Option<HirExpr>, Vec<HirExpr>)> = Vec::new();
    let mut i: usize = 0;
    while i < cases.len()
        invariant
            i <= cases@.len(),
            out@.len() == i,
            forall|k: int|
                0 <= k < i ==> (opt_ir((#[trigger] out@[k]).0), HirExpr::list_view(out@[k].1))
                    == switch_cases(*cases)[k],
        decreases cases@.len() - i,
    {
        let c = &cases[i];
        let t = match &c.test {
            Some(x) => Some(transform_expr(x)),
            None => None,
        };
        let b = transform_block_stmts(&c.cons);
        out.push((t, b));
        i = i + 1;
    }
    out
}

/// The `if` chain of a `switch` on `d`, built from the last case to the
/// first.
fn switch_chain_of(d: &HirExpr, cases: Vec<(Option<HirExpr>, Vec<HirExpr>)>) -> (r: Option<HirExpr>)
    ensures
        opt_ir(r) == switch_chain(
            d.view(),
            Seq::new(cases@.len(), |k: int| (opt_ir(cases@[k].0), HirExpr::list_view(cases@[k].1))),
        ),
{
    let ghost cv = Seq::new(cases@.len(), |k: int| (opt_ir(cases@[k].0), HirExpr::list_view(cases@[k].1)));
    let ghost n = cases@.len();
    let mut rest = cases;
    let mut chain: Option<HirExpr> = None;
    assert(cv.skip(n as int) =~= Seq::<(Option<SpecIr>, Seq<SpecIr>)>::empty());
    while rest.len() > 0
        invariant
            rest@.len() <= n,
            cv.len() == n,
            forall|k: int|
                0 <= k < rest@.len() ==> (opt_ir((#[trigger] rest@[k]).0), HirExpr::list_view(
                    rest@[k].1,
                )) == cv[k],
            opt_ir(chain) == switch_chain(d.view(), cv.skip(rest@.len() as int)),
        decreases rest@.len(),
    {
        let ghost k = rest@.len() - 1;
        let (t, body) = rest.pop().unwrap();
        proof {
            assert(cv.skip(k).drop_first() =~= cv.skip(k + 1));
            assert(cv.skip(k)[0] == cv[k]);
        }
        chain = match t {
            Some(test) => {
                let cond = bin(BinOp::Eq, d.duplicate(), test);
                let else_body = match chain {
                    Some(prev) => Some(one(prev)),
                    None => None,
                };
                Some(mk_if(cond, body, else_body))
            },
            None => Some(mk_block(body)),
        };
    }
    assert(cv.skip(0) =~= cv);
    chain
}

/// Lowering of a statement; none for one that yields no code.
pub fn transform_stmt(s: &AstStmt) -> (r: Option<HirExpr>)
    ensures
        opt_ir(r) == lower_stmt(*s),
    decreases s, 1nat,
{
    match s {
        AstStmt::If { .. } => Some(lower_if(s)),
        AstStmt::While { .. } => Some(lower_while(s)),
        AstStmt::DoWhile { .. } => Some(lower_do_while(s)),
        AstStmt::For { .. } => Some(lower_for(s)),
        AstStmt::ForIn { .. } => Some(for_in(s)),
        AstStmt::ForOf { .. } => Some(for_of(s)),
        AstStmt::Try { .. } => Some(lower_try(s)),
        AstStmt::Switch { .. } => lower_switch(s),
        _ => lower_simple_stmt(s),
    }
}

fn lower_simple_stmt(s: &AstStmt) -> (r: Option<HirExpr>)
    requires
        !(s is If || s is While || s is DoWhile || s is For || s is ForIn || s is ForOf || s is Try
            || s is Switch),
    ensures
        opt_ir(r) == lower_stmt(*s),
    decreases s, 0nat,
{
    match s {
        AstStmt::Decl(d) => transform_decl(d),
        AstStmt::Expr(x) => Some(transform_expr_as_stmt(x)),
        AstStmt::Block(stmts) => Some(mk_block(transform_block_stmts(stmts))),
        AstStmt::Return(x) => {
            let v = match x {
                Some(v) => Some(transform_expr(v)),
                None => None,
            };
            Some(mk_return(v))
        },
        AstStmt::Break => Some(mk_break()),
        AstStmt::Continue => Some(mk_continue()),
        AstStmt::Throw(x) => Some(mk_throw(Some(transform_expr(x)))),
        _ => None,
    }
}

fn lower_if(s: &AstStmt) -> (r: HirExpr)
    requires
        s is If,
    ensures
        Some(r.view()) == lower_stmt(*s),
    decreases s, 0nat,
{
    match s {
        AstStmt::If { test, cons, alt } => {
            let cond = transform_expr(test);
            let then_body = transform_stmt_as_vec(cons);
            let else_body = match alt {
                Some(a) => Some(transform_stmt_as_vec(a)),
                None => None,
            };
            mk_if(cond, then_body, else_body)
        },
        _ => HirExpr::Undefined,
    }
}

fn lower_while(s: &AstStmt) -> (r: HirExpr)
    requires
        s is While,
    ensures
        Some(r.view()) == lower_stmt(*s),
    decreases s, 0nat,
{
    match s {
        AstStmt::While { test, body } => {
            let cond = transform_expr(test);
            mk_while(cond, transform_stmt_as_vec(body))
        },
        _ => HirExpr::Undefined,
    }
}

fn lower_do_while(s: &AstStmt) -> (r: HirExpr)
    requires
        s is DoWhile,
    ensures
        Some(r.view()) == lower_stmt(*s),
    decreases s, 0nat,
{
    match s {
        AstStmt::DoWhile { test, body } => {
            let cond = transform_expr(test);
            let b = transform_stmt_as_vec(body);
            let first = mk_block(HirExpr::duplicate_list(&b));
            let lp = mk_while(cond, b);
            mk_block(two(first, lp))
        },
        _ => HirExpr::Undefined,
    }
}

fn lower_for(s: &AstStmt) -> (r: HirExpr)
    requires
        s is For,
    ensures
        Some(r.view()) == lower_stmt(*s),
    decreases s, 0nat,
{
    match s {
        AstStmt::For { init, test, update, body } => {
            let i = match init {
                Some(x) => Some(transform_for_init(x)),
                None => None,
            };
            let c = match test {
                Some(x) => Some(transform_expr(x)),
                None => None,
            };
            let u = match update {
                Some(x) => Some(transform_expr_as_stmt(x)),
                None => None,
            };
            mk_for(i, c, u, transform_stmt_as_vec(body))
        },
        _ => HirExpr::Undefined,
    }
}

fn lower_try(s: &AstStmt) -> (r: HirExpr)
    requires
        s is Try,
    ensures
        Some(r.view()) == lower_stmt(*s),
    decreases s, 0nat,
{
    match s {
        AstStmt::Try { block, handler, finalizer } => {
            let try_body = transform_block_stmts(block);
            let (catch_param, catch_body) = match handler {
                Some(h) => {
                    let p = match &h.param {
                        Some(p) => pat_ident_name(p),
                        None => None,
                    };
                    (p, Some(transform_block_stmts(&h.body)))
                },
                None => (None, None),
            };
            let finally_body = match finalizer {
                Some(f) => Some(transform_block_stmts(f)),
                None => None,
            };
            mk_try(try_body, catch_param, catch_body, finally_body)
        },
        _ => HirExpr::Undefined,
    }
}

fn lower_switch(s: &AstStmt) -> (r: Option<HirExpr>)
    requires
        s is Switch,
    ensures
        opt_ir(r) == lower_stmt(*s),
    decreases s, 0nat,
{
    match s {
        AstStmt::Switch { disc, cases } => {
            let d = transform_expr(disc);
            let cs = switch_cases_of(cases);
            proof {
                assert(Seq::new(cs@.len(), |k: int| (opt_ir(cs@[k].0), HirExpr::list_view(cs@[k].1)))
                    =~= switch_cases(*cases));
            }
            switch_chain_of(&d, cs)
        },
        _ => None,
    }
}

/// Whether a lowered statement only calls `main()` without arguments.
pub fn is_bare_main_call(h: &HirExpr) -> (r: bool)
    ensures
        r == bare_main_call(h.view()),
{
    match h {
        HirExpr::ExprStmt(inner) => {
            let ghost iv = inner.view();
            match &**inner {
                HirExpr::Call { callee, args } => {
                    assert(iv == SpecIr::Call { callee: Box::new(callee.view()), args: HirExpr::list_view(*args) });
                    if args.len() != 0 {
                        return false;
                    }
                    match &**callee {
                        HirExpr::Identifier(n) => {
                            assert(callee.view() == SpecIr::Identifier(n@));
                            str_eq(n.as_str(), "main")
                        },
                        _ => {
                            assert(!(callee.view() is Identifier));
                            false
                        },
                    }
                },
                _ => {
                    assert(!(iv is Call));
                    false
                },
            }
        },
        _ => false,
    }
}

fn is_function(h: &HirExpr) -> (r: bool)
    ensures
        r == (h.view() is Function),
{
    match h {
        HirExpr::Function { .. } => true,
        _ => false,
    }
}

fn is_main_fn(h: &HirExpr) -> (r: bool)
    ensures
        r == is_main(h.view()),
{
    match h {
        HirExpr::Function { name, .. } => str_eq(name.as_str(), "main"),
        _ => false,
    }
}

proof fn lemma_list_view_set(v: Vec<HirExpr>, w: Vec<HirExpr>, m: int, x: HirExpr)
    requires
        0 <= m < v@.len(),
        w@ == v@.update(m, x),
    ensures
        HirExpr::list_view(w) == HirExpr::list_view(v).update(m, x.view()),
{
    assert(HirExpr::list_view(w) =~= HirExpr::list_view(v).update(m, x.view()));
}

/// The top-level statements without the bare `main()` calls.
fn keep_top(top: &Vec<HirExpr>) -> (r: Vec<HirExpr>)
    ensures
        HirExpr::list_view(r) == kept_top(HirExpr::list_view(*top)),
{
    let ghost tv = HirExpr::list_view(*top);
    let ghost s = Seq::new(
        tv.len(),
        |i: int|
            if bare_main_call(tv[i]) {
                None
            } else {
                Some(tv[i])
            },
    );
    let mut out: Vec<HirExpr> = Vec::new();
    let mut i: usize = 0;
    while i < top.len()
        invariant
            i <= top@.len(),
            tv == HirExpr::list_view(*top),
            s.len() == tv.len(),
            forall|k: int| 0 <= k < s.len() ==> #[trigger] s[k] == (if bare_main_call(tv[k]) {
                None
            } else {
                Some(tv[k])
            }),
            HirExpr::list_view(out) == flatten_opts(s.take(i as int)),
        decreases top@.len() - i,
    {
        proof {
            lemma_flatten_take(s, i as int);
            assert(tv[i as int] == top@[i as int].view());
        }
        if !is_bare_main_call(&top[i]) {
            let x = top[i].duplicate();
            let ghost before = out;
            out.push(x);
            proof {
                lemma_list_view_push(before, out, x);
            }
        }
        i = i + 1;
    }
    proof {
        lemma_take_all(s);
    }
    out
}

/// The functions and top-level statements of a module, item by item.
fn collect_items(items: &Vec<AstItem>) -> (r: (Vec<HirExpr>, Vec<HirExpr>))
    ensures
        (HirExpr::list_view(r.0), HirExpr::list_view(r.1)) == module_parts(items@),
{
    let mut functions: Vec<HirExpr> = Vec::new();
    let mut top: Vec<HirExpr> = Vec::new();
    let mut i: usize = 0;
    assert(HirExpr::list_view(functions) =~= Seq::<SpecIr>::empty());
    assert(HirExpr::list_view(top) =~= Seq::<SpecIr>::empty());
    while i < items.len()
        invariant
            i <= items@.len(),
            (HirExpr::list_view(functions), HirExpr::list_view(top)) == module_parts(
                items@.take(i as int),
            ),
        decreases items@.len() - i,
    {
        proof {
            assert(items@.take(i + 1).drop_last() =~= items@.take(i as int));
            reveal(module_step);
        }
        let ghost fv = HirExpr::list_view(functions);
        let ghost tv = HirExpr::list_view(top);
        match &items[i] {
            AstItem::ExportDecl(d) => match d {
                AstDecl::Fn { name, declare, function } => {
                    if !*declare {
                        let f = transform_fn_expr(function, name.as_str());
                        let ghost before = functions;
                        functions.push(f);
                        proof {
                            lemma_list_view_push(before, functions, f);
                        }
                    }
                },
                AstDecl::Var { kind, decls } => {
                    let mut more = declarators(decls, kind_mut(kind));
                    let ghost mv = HirExpr::list_view(more);
                    top.append(&mut more);
                    assert(HirExpr::list_view(top) =~= tv + mv);
                },
                _ => {},
            },
            AstItem::ExportDefaultFn(f) => {
                let x = transform_fn_expr(f, "default");
                let ghost before = functions;
                functions.push(x);
                proof {
                    lemma_list_view_push(before, functions, x);
                }
            },
            AstItem::OtherModuleDecl => {},
            AstItem::Stmt(st) => match transform_stmt(st) {
                Some(h) => {
                    if is_function(&h) {
                        let ghost before = functions;
                        functions.push(h);
                        proof {
                            lemma_list_view_push(before, functions, h);
                        }
                    } else {
                        let ghost before = top;
                        top.push(h);
                        proof {
                            lemma_list_view_push(before, top, h);
                        }
                    }
                },
                None => {},
            },
        }
        proof {
            assert(HirExpr::list_view(functions) =~= module_parts(items@.take(i + 1)).0);
            assert(HirExpr::list_view(top) =~= module_parts(items@.take(i + 1)).1);
        }
        i = i + 1;
    }
    proof {
        lemma_take_all(items@);
    }
    (functions, top)
}

/// The position of the first function named `main`, or the length.
fn first_main_index(fs: &Vec<HirExpr>) -> (m: usize)
    ensures
        m as nat == first_main_from(HirExpr::list_view(*fs), 0),
{
    let ghost fv = HirExpr::list_view(*fs);
    let mut m: usize = 0;
    while m < fs.len()
        invariant
            m <= fs@.len(),
            fv == HirExpr::list_view(*fs),
            first_main_from(fv, 0) == first_main_from(fv, m as int),
        decreases fs@.len() - m,
    {
        if is_main_fn(&fs[m]) {
            assert(fv[m as int] == fs@[m as int].view());
            return m;
        }
        assert(fv[m as int] == fs@[m as int].view());
        m = m + 1;
    }
    m
}

/// The functions with `kept` added at the end of the body of the one at
/// position `m`.
fn with_extended_main(functions: Vec<HirExpr>, m: usize, kept: Vec<HirExpr>) -> (r: Vec<HirExpr>)
    requires
        m < functions@.len(),
        is_main(HirExpr::list_view(functions)[m as int]),
    ensures
        HirExpr::list_view(r) == HirExpr::list_view(functions).update(
            m as int,
            extend_body(HirExpr::list_view(functions)[m as int], HirExpr::list_view(kept)),
        ),
{
    let mut functions = functions;
    let ghost fv = HirExpr::list_view(functions);
    assert(fv[m as int] == functions@[m as int].view());
    let nf = match &functions[m] {
        HirExpr::Function { name, params, body } => {
            let mut b = HirExpr::duplicate_list(body);
            let mut k = kept;
            let ghost bv = HirExpr::list_view(b);
            let ghost kv = HirExpr::list_view(k);
            b.append(&mut k);
            assert(HirExpr::list_view(b) =~= bv + kv);
            let ps = params.clone();
            assert(names_view(ps@) =~= names_view(params@)) by {
                assert forall|j: int| 0 <= j < ps@.len() implies ps@[j]@ == params@[j]@ by {
                    assert(cloned::<String>(params@[j], ps@[j]));
                }
            }
            mk_function(name.clone(), ps, b)
        },
        _ => mk_undefined(),
    };
    let ghost before = functions;
    functions.set(m, nf);
    proof {
        lemma_list_view_set(before, functions, m as int, nf);
    }
    functions
}

/// Lowering of a module: its functions, with the top-level code placed in
/// `main` (at the end of the first `main`, or in a new one).
pub fn transform_module(items: &Vec<AstItem>) -> (r: Vec<HirExpr>)
    ensures
        HirExpr::list_view(r) == lower_module(items@),
{
    let (functions, top) = collect_items(items);
    let m = first_main_index(&functions);
    let kept = keep_top(&top);
    if m < functions.len() {
        proof {
            let fv = HirExpr::list_view(functions);
            assert(is_main(fv[m as int])) by {
                lemma_first_main(fv, 0);
            }
        }
        if top.len() > 0 {
            with_extended_main(functions, m, kept)
        } else {
            functions
        }
    } else {
        let no_params: Vec<String> = Vec::new();
        assert(names_view(no_params@) =~= Seq::<Seq<char>>::empty());
        let main_fn = mk_function(owned("main"), no_params, kept);
        let mut fs = functions;
        let ghost before = fs;
        fs.push(main_fn);
        proof {
            lemma_list_view_push(before, fs, main_fn);
        }
        fs
    }
}

proof fn lemma_first_main(fs: Seq<SpecIr>, k: int)
    requires
        0 <= k,
        first_main_from(fs, k) < fs.len(),
    ensures
        is_main(fs[first_main_from(fs, k) as int]),
    decreases fs.len() - k,
{
    if k < fs.len() && !is_main(fs[k]) {
        lemma_first_main(fs, k + 1);
    }
}

} // verus!
