use crate::codegen::{spec_property_key, HirExpr, FALSE, UNDEFINED};
use crate::ast::{AstAssignOp, AstAssignTarget, AstBinOp, AstExpr, AstUnaryOp, AstUpdateOp};
use crate::hir::{BinOp, UnaryOp};
use crate::ir::SpecIr;
use crate::linker::union_in_order;
use crate::lower_model::{assemble, binary, lower_expr, lower_target, lower_function, module_step, bare_main_call, extend_body, first_main_from, flatten_opts, is_main, kept_top, lower_module, module_parts};
use crate::emit::{function_ops, param_slots, stmt_ops, stmts_ops, OpV};
use crate::lowering::{any_terminates, call_plan, declared_arity, lemma_any_terminates, terminates, PlanView, TableView};
use crate::runtime::{
    high_tag, lemma_encode_utf8_concat, lemma_string_hash_concat, read_index, read_key,
    undefined_fill, JsString,
};
use vstd::arithmetic::power::pow;
use crate::swc_transform::lemma_flatten_take;
use vstd::prelude::*;
use vstd::string::StringSliceAdditionalSpecFns;

verus! {

/// An object read of a key just written gives the value written; every
/// other key reads as it did before the write.
pub proof fn law_object_read_after_write(m: Map<u64, u64>, key: u64, value: u64, other: u64)
    ensures
        read_key(m.insert(key, value), key) == value,
        other != key ==> read_key(m.insert(key, value), other) == read_key(m, other),
{
}

/// After a push, a read at the old length gives the pushed value and the
/// earlier slots read as before.
pub proof fn law_array_read_after_push(data: Seq<u64>, value: u64, i: int)
    ensures
        read_index(data.push(value), data.len() as int) == value,
        0 <= i < data.len() ==> read_index(data.push(value), i) == read_index(data, i),
{
}

/// After a store at `index` (inside the array, or past its end with the
/// gap filled with `undefined`), a read at `index` gives the stored value,
/// the old slots other than `index` read as before, and the gap reads as
/// `undefined`.
pub proof fn law_array_read_after_set(data: Seq<u64>, index: int, value: u64, i: int)
    requires
        0 <= index,
    ensures
        index < data.len() ==> read_index(data.update(index, value), index) == value,
        index < data.len() && i != index ==> read_index(data.update(index, value), i)
            == read_index(data, i),
        index >= data.len() ==> read_index(
            (data + undefined_fill((index - data.len()) as nat)).push(value),
            index,
        ) == value,
        index >= data.len() && 0 <= i < data.len() ==> read_index(
            (data + undefined_fill((index - data.len()) as nat)).push(value),
            i,
        ) == read_index(data, i),
        index >= data.len() && data.len() <= i < index ==> read_index(
            (data + undefined_fill((index - data.len()) as nat)).push(value),
            i,
        ) == UNDEFINED,
{
    if index >= data.len() {
        let grown = (data + undefined_fill((index - data.len()) as nat)).push(value);
        assert(grown.len() == index + 1);
        if 0 <= i < data.len() {
            assert(grown[i] == data[i]);
        }
        if data.len() <= i < index {
            assert(grown[i] == undefined_fill((index - data.len()) as nat)[i - data.len()]);
        }
    }
}

/// Merging lists in order of first mention keeps a duplicate-free list
/// duplicate-free, keeps what it held in front, and holds exactly what
/// either list holds.
pub proof fn law_union_in_order(acc: Seq<Seq<char>>, items: Seq<Seq<char>>, x: Seq<char>)
    requires
        acc.no_duplicates(),
    ensures
        union_in_order(acc, items).no_duplicates(),
        union_in_order(acc, items).len() >= acc.len(),
        union_in_order(acc, items).take(acc.len() as int) == acc,
        union_in_order(acc, items).contains(x) <==> (acc.contains(x) || items.contains(x)),
    decreases items.len(),
{
    if items.len() == 0 {
        assert(acc.take(acc.len() as int) =~= acc);
    } else {
        let rest = items.drop_last();
        let last = items.last();
        law_union_in_order(acc, rest, x);
        let r = union_in_order(acc, rest);
        assert(items.contains(x) <==> (rest.contains(x) || x == last)) by {
            if items.contains(x) && x != last {
                let k = choose|k: int| 0 <= k < items.len() && items[k] == x;
                assert(rest[k] == x);
            }
            if rest.contains(x) {
                let k = choose|k: int| 0 <= k < rest.len() && rest[k] == x;
                assert(items[k] == x);
            }
            if x == last {
                assert(items[items.len() - 1] == x);
            }
        }
        if !r.contains(last) {
            let p = r.push(last);
            assert forall|a: int, b: int| 0 <= a < b < p.len() implies p[a] != p[b] by {
                if b == p.len() - 1 {
                    assert(p[a] == r[a]);
                }
            }
            assert(p.take(acc.len() as int) =~= r.take(acc.len() as int));
            assert(p.contains(x) <==> (r.contains(x) || x == last)) by {
                if p.contains(x) && x != last {
                    let k = choose|k: int| 0 <= k < p.len() && p[k] == x;
                    assert(r[k] == x);
                }
                if r.contains(x) {
                    let k = choose|k: int| 0 <= k < r.len() && r[k] == x;
                    assert(p[k] == x);
                }
                if x == last {
                    assert(p[p.len() - 1] == x);
                }
            }
        }
    }
}

/// A property key is a boxed string: it carries the string tag.
pub proof fn law_property_key_is_string(name: &str)
    ensures
        high_tag(spec_property_key(name)) == 0x7FFC,
{
    let h = crate::codegen::fnv1a(name.spec_bytes());
    assert((0x7FFC_0000_0000_0000u64 | (h & 0x0000_FFFF_FFFF_FFFFu64)) >> 48 == 0x7FFC) by (bit_vector);
}

/// A call of one of the program's own functions passes at least as many
/// values as the function has parameters and at least as many as the
/// call has arguments.
pub proof fn law_user_call_arity(name: String, nargs: nat, sigs: TableView)
    requires
        declared_arity(sigs.functions, name@) is Some,
    ensures
        call_plan(HirExpr::Identifier(name), nargs, sigs) matches PlanView::User { arity }
            && arity >= nargs && arity >= declared_arity(sigs.functions, name@).unwrap(),
{
}

proof fn lemma_first_main_at(fs: Seq<SpecIr>, k: int)
    requires
        0 <= k,
    ensures
        first_main_from(fs, k) <= fs.len(),
        first_main_from(fs, k) < fs.len() ==> first_main_from(fs, k) >= k && is_main(
            fs[first_main_from(fs, k) as int],
        ),
    decreases fs.len() - k,
{
    if k < fs.len() && !is_main(fs[k]) {
        lemma_first_main_at(fs, k + 1);
    }
}

/// The top-level statements kept for `main` hold no bare `main()` call.
pub proof fn law_no_bare_main_call_kept(top: Seq<SpecIr>, j: int)
    requires
        0 <= j < kept_top(top).len(),
    ensures
        !bare_main_call(kept_top(top)[j]),
{
    let s = Seq::new(top.len(), |i: int| if bare_main_call(top[i]) { None } else { Some(top[i]) });
    assert(s.take(top.len() as int) =~= s);
    lemma_kept_clean(s, top.len() as int, j);
}

proof fn lemma_kept_clean(s: Seq<Option<SpecIr>>, n: int, j: int)
    requires
        0 <= n <= s.len(),
        forall|i: int| 0 <= i < s.len() ==> (#[trigger] s[i] matches Some(h) ==> !bare_main_call(h)),
        0 <= j < flatten_opts(s.take(n)).len(),
    ensures
        !bare_main_call(flatten_opts(s.take(n))[j]),
    decreases n,
{
    if n > 0 {
        lemma_flatten_take(s, n - 1);
        let prev = flatten_opts(s.take(n - 1));
        if j < prev.len() {
            lemma_kept_clean(s, n - 1, j);
        } else {
            assert(s[n - 1] matches Some(h) ==> !bare_main_call(h));
        }
    }
}

/// Placing the top-level code always leaves a function named `main`.
pub proof fn law_assemble_has_main(fs: Seq<SpecIr>, top: Seq<SpecIr>)
    ensures
        exists|i: int| 0 <= i < assemble(fs, top).len() && #[trigger] is_main(assemble(fs, top)[i]),
{
    let m = first_main_from(fs, 0);
    lemma_first_main_at(fs, 0);
    let out = assemble(fs, top);
    if m < fs.len() {
        if top.len() > 0 {
            assert(out[m as int] == extend_body(fs[m as int], kept_top(top)));
        }
        assert(is_main(out[m as int]));
    } else {
        assert(is_main(out[fs.len() as int]));
    }
}

/// Every lowered module has a function named `main`: the first one the
/// source declares, or one made for the top-level code.
pub proof fn law_module_has_main(items: Seq<crate::ast::AstItem>)
    ensures
        exists|i: int| 0 <= i < lower_module(items).len() && #[trigger] is_main(lower_module(items)[i]),
{
    let fs = module_parts(items).0;
    let top = module_parts(items).1;
    law_assemble_has_main(fs, top);
    let out = lower_module(items);
    assert(out == assemble(fs, top));
    let i = choose|i: int| 0 <= i < assemble(fs, top).len() && #[trigger] is_main(assemble(fs, top)[i]);
    assert(is_main(out[i]));
}

/// After a plugin is registered, each TypeScript name it provides maps to
/// the plugin's symbol, and every other name keeps its earlier mapping (or
/// stays unmapped).
pub proof fn law_registry_register(
    before: Map<Seq<char>, Seq<char>>,
    ext: crate::extension::Extension,
    name: Seq<char>,
)
    ensures
        ext.symbol_map().contains_key(name) ==> before.union_prefer_right(ext.symbol_map()).contains_key(
            name,
        ) && before.union_prefer_right(ext.symbol_map())[name] == ext.symbol_map()[name],
        !ext.symbol_map().contains_key(name) ==> (before.union_prefer_right(
            ext.symbol_map(),
        ).contains_key(name) == before.contains_key(name)) && (before.contains_key(name)
            ==> before.union_prefer_right(ext.symbol_map())[name] == before[name]),
{
}
/// A function whose body does not end the path on its own returns
/// `undefined`: its steps end with pushing `undefined` and returning it.
pub proof fn law_implicit_return_undefined(
    params: Seq<String>,
    body: Seq<HirExpr>,
    sigs: TableView,
)
    requires
        !any_terminates(body),
    ensures
        ({
            let ops = function_ops(params, body, sigs);
            &&& ops.len() >= 2
            &&& ops[ops.len() - 2] == OpV::Const(UNDEFINED)
            &&& ops[ops.len() - 1] == OpV::Return
        }),
{
}

proof fn lemma_until_prefix(
    s: Seq<HirExpr>,
    k: int,
    vars: Seq<(Seq<char>, nat)>,
    sigs: TableView,
)
    requires
        0 <= k < s.len(),
        terminates(s[k]),
    ensures
        stmts_ops(s, vars, sigs) == stmts_ops(s.take(k + 1), vars, sigs),
    decreases k,
{
    let t = s.take(k + 1);
    assert(t[0] == s[0]);
    if !terminates(s[0]) {
        let first = stmt_ops(s[0], vars, sigs);
        let rest = s.subrange(1, s.len() as int);
        assert(rest[k - 1] == s[k]);
        lemma_until_prefix(rest, k - 1, first.1, sigs);
        assert(rest.take(k) =~= t.subrange(1, t.len() as int));
    }
}

/// Statements after the first one that ends the path (a `return` or a
/// `throw` on every way through it) are not emitted: the function's
/// steps are those of the body cut just after that statement.
pub proof fn law_code_after_end_dropped(
    params: Seq<String>,
    body: Seq<HirExpr>,
    k: int,
    sigs: TableView,
)
    requires
        0 <= k < body.len(),
        terminates(body[k]),
    ensures
        function_ops(params, body, sigs) == function_ops(params, body.take(k + 1), sigs),
{
    lemma_until_prefix(body, k, param_slots(params), sigs);
    lemma_any_terminates(body);
    lemma_any_terminates(body.take(k + 1));
    assert(body.take(k + 1)[k] == body[k]);
}

/// Joining two strings: the byte length of the result is the sum of the
/// two byte lengths, and its hash is the first hash times `31` to the power
/// of the second byte length, plus the second hash, modulo 2^32.
pub proof fn law_concat_length_and_hash(
    a: Seq<char>,
    b: Seq<char>,
    sa: JsString,
    sb: JsString,
    joined: JsString,
)
    requires
        sa.holds(a),
        sb.holds(b),
        joined.holds(a + b),
        vstd::utf8::encode_utf8(a).len() + vstd::utf8::encode_utf8(b).len() <= u32::MAX,
    ensures
        joined.len == sa.len + sb.len,
        joined.hash as int == (sa.hash as int * pow(31, sb.len as nat) + sb.hash as int)
            % 0x1_0000_0000,
{
    lemma_encode_utf8_concat(a, b);
    lemma_string_hash_concat(vstd::utf8::encode_utf8(a), vstd::utf8::encode_utf8(b));
}

proof fn lemma_parts_are_functions(items: Seq<crate::ast::AstItem>)
    ensures
        forall|i: int| 0 <= i < module_parts(items).0.len() ==> (#[trigger] module_parts(items).0[i]) is Function,
    decreases items.len(),
{
    if items.len() > 0 {
        lemma_parts_are_functions(items.drop_last());
        reveal(module_step);
        let acc = module_parts(items.drop_last());
        assert(module_parts(items) == module_step(acc, items.last()));
        assert forall|i: int| 0 <= i < module_parts(items).0.len() implies (#[trigger] module_parts(items).0[i]) is Function by {
            if i < acc.0.len() {
            } else {
                match items.last() {
                    crate::ast::AstItem::ExportDecl(d) => match d {
                        crate::ast::AstDecl::Fn { name, declare, function } => {
                            assert(lower_function(function, name@) is Function);
                        },
                        _ => {},
                    },
                    crate::ast::AstItem::ExportDefaultFn(f) => {
                        assert(lower_function(f, "default"@) is Function);
                    },
                    _ => {},
                }
            }
        }
    }
}

/// Every element of a lowered module is a function: top-level code only
/// ever lands inside `main`.
pub proof fn law_module_only_functions(items: Seq<crate::ast::AstItem>)
    ensures
        forall|i: int| 0 <= i < lower_module(items).len() ==> (#[trigger] lower_module(items)[i]) is Function,
{
    let fs = module_parts(items).0;
    let top = module_parts(items).1;
    lemma_parts_are_functions(items);
    let out = lower_module(items);
    assert(out == assemble(fs, top));
    let m = first_main_from(fs, 0);
    assert forall|i: int| 0 <= i < out.len() implies (#[trigger] out[i]) is Function by {
        if m < fs.len() && top.len() > 0 && i == m {
            assert(fs[m as int] is Function);
            assert(out[i] == extend_body(fs[m as int], kept_top(top)));
        }
    }
}

proof fn lemma_no_main_from(fs: Seq<SpecIr>, k: int, j: int)
    requires
        0 <= k <= j < fs.len(),
        first_main_from(fs, k) == fs.len(),
    ensures
        !is_main(fs[j]),
    decreases j - k,
{
    if k < j {
        assert(!is_main(fs[k]));
        lemma_no_main_from(fs, k + 1, j);
    }
}

/// When the source declares at most one function named `main`, its
/// lowering holds exactly one: that one, or the one made for the
/// top-level code.
pub proof fn law_module_single_main(items: Seq<crate::ast::AstItem>)
    requires
        forall|i: int, j: int|
            0 <= i < j < module_parts(items).0.len() && #[trigger] is_main(module_parts(items).0[i])
                ==> !#[trigger] is_main(module_parts(items).0[j]),
    ensures
        exists|i: int| 0 <= i < lower_module(items).len() && #[trigger] is_main(lower_module(items)[i]),
        forall|i: int, j: int|
            0 <= i < lower_module(items).len() && 0 <= j < lower_module(items).len()
                && #[trigger] is_main(lower_module(items)[i]) && #[trigger] is_main(
                lower_module(items)[j],
            ) ==> i == j,
{
    law_module_has_main(items);
    let fs = module_parts(items).0;
    let top = module_parts(items).1;
    let out = lower_module(items);
    assert(out == assemble(fs, top));
    let m = first_main_from(fs, 0);
    lemma_first_main_at(fs, 0);
    assert forall|i: int, j: int|
        0 <= i < out.len() && 0 <= j < out.len() && #[trigger] is_main(out[i]) && #[trigger] is_main(
            out[j],
        ) implies i == j by {
        if m < fs.len() {
            assert(out.len() == fs.len());
            if top.len() > 0 {
                assert(is_main(extend_body(fs[m as int], kept_top(top))) == is_main(fs[m as int]));
                assert(is_main(fs[i]) && is_main(fs[j]));
            } else {
                assert(is_main(fs[i]) && is_main(fs[j]));
            }
            if i < j {
                assert(!is_main(fs[j]));
            } else if j < i {
                assert(!is_main(fs[i]));
            }
        } else {
            if i < fs.len() {
                lemma_no_main_from(fs, 0, i);
                assert(out[i] == fs[i]);
            }
            if j < fs.len() {
                lemma_no_main_from(fs, 0, j);
                assert(out[j] == fs[j]);
            }
        }
    }
}

/// A binary expression lowers to the IR operator of the same meaning,
/// applied to its lowered operands in order: arithmetic to arithmetic,
/// `==`/`===` to equality, `!=`/`!==` to inequality, each of `<`, `<=`,
/// `>`, `>=` to its own comparison, `&&`/`||` to the logical operators and
/// the bitwise operators and shifts to theirs.
pub proof fn law_binary_operator_meaning(
    op: AstBinOp,
    left: Box<AstExpr>,
    right: Box<AstExpr>,
)
    ensures
        ({
            let l = lower_expr(*left);
            let r = lower_expr(*right);
            let e = lower_expr(AstExpr::Bin { op, left, right });
            &&& op == AstBinOp::Add ==> e == binary(BinOp::Add, l, r)
            &&& op == AstBinOp::Sub ==> e == binary(BinOp::Sub, l, r)
            &&& op == AstBinOp::Mul ==> e == binary(BinOp::Mul, l, r)
            &&& op == AstBinOp::Div ==> e == binary(BinOp::Div, l, r)
            &&& op == AstBinOp::Mod ==> e == binary(BinOp::Mod, l, r)
            &&& op == AstBinOp::EqEq ==> e == binary(BinOp::Eq, l, r)
            &&& op == AstBinOp::EqEqEq ==> e == binary(BinOp::Eq, l, r)
            &&& op == AstBinOp::NotEq ==> e == binary(BinOp::Ne, l, r)
            &&& op == AstBinOp::NotEqEq ==> e == binary(BinOp::Ne, l, r)
            &&& op == AstBinOp::Lt ==> e == binary(BinOp::Lt, l, r)
            &&& op == AstBinOp::LtEq ==> e == binary(BinOp::Le, l, r)
            &&& op == AstBinOp::Gt ==> e == binary(BinOp::Gt, l, r)
            &&& op == AstBinOp::GtEq ==> e == binary(BinOp::Ge, l, r)
            &&& op == AstBinOp::LogicalAnd ==> e == binary(BinOp::And, l, r)
            &&& op == AstBinOp::LogicalOr ==> e == binary(BinOp::Or, l, r)
            &&& op == AstBinOp::BitAnd ==> e == binary(BinOp::BitAnd, l, r)
            &&& op == AstBinOp::BitOr ==> e == binary(BinOp::BitOr, l, r)
            &&& op == AstBinOp::BitXor ==> e == binary(BinOp::BitXor, l, r)
            &&& op == AstBinOp::LShift ==> e == binary(BinOp::Shl, l, r)
            &&& op == AstBinOp::RShift ==> e == binary(BinOp::Shr, l, r)
        }),
{
}

/// A compound assignment `t op= v` lowers to `t = t op v` with the
/// operator of the same meaning; a plain `t = v` stays an assignment of
/// `v`.
pub proof fn law_compound_assignment_meaning(
    op: AstAssignOp,
    left: AstAssignTarget,
    right: Box<AstExpr>,
)
    ensures
        ({
            let t = lower_target(left);
            let v = lower_expr(*right);
            let e = lower_expr(AstExpr::Assign { op, left, right });
            let upd = |o: BinOp| SpecIr::Assign { target: Box::new(t), value: Box::new(binary(o, t, v)) };
            &&& op == AstAssignOp::Assign ==> e == SpecIr::Assign { target: Box::new(t), value: Box::new(v) }
            &&& op == AstAssignOp::AddAssign ==> e == upd(BinOp::Add)
            &&& op == AstAssignOp::SubAssign ==> e == upd(BinOp::Sub)
            &&& op == AstAssignOp::MulAssign ==> e == upd(BinOp::Mul)
            &&& op == AstAssignOp::DivAssign ==> e == upd(BinOp::Div)
            &&& op == AstAssignOp::ModAssign ==> e == upd(BinOp::Mod)
            &&& op == AstAssignOp::BitAndAssign ==> e == upd(BinOp::BitAnd)
            &&& op == AstAssignOp::BitOrAssign ==> e == upd(BinOp::BitOr)
            &&& op == AstAssignOp::BitXorAssign ==> e == upd(BinOp::BitXor)
            &&& op == AstAssignOp::LShiftAssign ==> e == upd(BinOp::Shl)
            &&& op == AstAssignOp::RShiftAssign ==> e == upd(BinOp::Shr)
        }),
{
}

/// `x++` and `++x` lower to `x = x + 1`, `x--` and `--x` to `x = x - 1`
/// (the number 1 as the bits of the double 1.0); `!e` lowers to logical
/// not, `-e` to negation, `typeof e` to a type query and `void e` to
/// `undefined`.
pub proof fn law_unary_and_update_meaning(prefix: bool, arg: Box<AstExpr>)
    ensures
        ({
            let t = lower_expr(*arg);
            let one = SpecIr::Number(0x3FF0_0000_0000_0000);
            &&& lower_expr(AstExpr::Update { op: AstUpdateOp::PlusPlus, prefix, arg }) == (SpecIr::Assign {
                target: Box::new(t),
                value: Box::new(binary(BinOp::Add, t, one)),
            })
            &&& lower_expr(AstExpr::Update { op: AstUpdateOp::MinusMinus, prefix, arg }) == (SpecIr::Assign {
                target: Box::new(t),
                value: Box::new(binary(BinOp::Sub, t, one)),
            })
            &&& lower_expr(AstExpr::Unary { op: AstUnaryOp::Bang, arg }) == (SpecIr::Unary {
                op: UnaryOp::Not,
                operand: Box::new(t),
            })
            &&& lower_expr(AstExpr::Unary { op: AstUnaryOp::Minus, arg }) == (SpecIr::Unary {
                op: UnaryOp::Neg,
                operand: Box::new(t),
            })
            &&& lower_expr(AstExpr::Unary { op: AstUnaryOp::TypeOf, arg }) == SpecIr::Typeof(Box::new(t))
            &&& lower_expr(AstExpr::Unary { op: AstUnaryOp::Void, arg }) == SpecIr::Undefined
        }),
{
    vstd::arithmetic::power2::lemma2_to64();
    vstd::arithmetic::power2::lemma2_to64_rest();
    assert(crate::numbers::top_bit(1) == 0);
    assert(vstd::arithmetic::power2::pow2(52) == 0x10_0000_0000_0000);
    assert(crate::numbers::rounded_significand(1, 0) == 0x10_0000_0000_0000);
    assert(crate::numbers::double_bits(1) == 0x3FF0_0000_0000_0000) by (nonlinear_arith)
        requires
            crate::numbers::rounded_significand(1, 0) == 0x10_0000_0000_0000,
            vstd::arithmetic::power2::pow2(52) == 0x10_0000_0000_0000,
            crate::numbers::top_bit(1) == 0,
    ;
}

/// The callee `o.n`.
pub open spec fn method_callee(o: String, n: String) -> HirExpr {
    HirExpr::Property { object: Box::new(HirExpr::Identifier(o)), name: n }
}

proof fn lemma_seq_ne(a: Seq<char>, b: Seq<char>, k: int)
    requires
        0 <= k < a.len(),
        k < b.len(),
        a[k] != b[k],
    ensures
        a != b,
{
}

proof fn lemma_method_object_keys(o: String, n: String, nargs: nat, table: TableView)
    requires
        o@ == "Object"@,
        n@ == "keys"@,
        nargs >= 1,
    ensures
        call_plan(method_callee(o, n), nargs, table) == (PlanView::Import {
            c_name: "js_object_keys"@,
            arity: 1,
            fallback: UNDEFINED,
        }),
{
    reveal_strlit(".");
    reveal_strlit("Date.now");
    reveal_strlit("JSON.parse");
    reveal_strlit("JSON.stringify");
    reveal_strlit("Math.");
    reveal_strlit("Math.pow");
    reveal_strlit("Math.random");
    reveal_strlit("Object");
    reveal_strlit("Object.keys");
    reveal_strlit("console.error");
    reveal_strlit("console.log");
    reveal_strlit("console.warn");
    reveal_strlit("js_object_keys");
    reveal_strlit("keys");
    assert(o@ + "."@ + n@ =~= "Object.keys"@);
    assert("Object.keys"@[0] == 'O');
    assert("console.log"@[0] == 'c');
    lemma_seq_ne("Object.keys"@, "console.log"@, 0);
    assert("Object.keys"@ != "console.error"@);
    assert("Object.keys"@ != "console.warn"@);
    assert(("Math."@ + n@)[0] == 'M');
    assert("Object.keys"@[0] == 'O');
    lemma_seq_ne("Object.keys"@, "Math."@ + n@, 0);
    assert("Object.keys"@ != "Math.pow"@);
    assert("Object.keys"@[0] == 'O');
    assert("Math.random"@[0] == 'M');
    lemma_seq_ne("Object.keys"@, "Math.random"@, 0);
    assert("Object.keys"@ != "Date.now"@);
    assert("Object.keys"@ != "JSON.stringify"@);
    assert("Object.keys"@ != "JSON.parse"@);
}

proof fn lemma_method_object_values(o: String, n: String, nargs: nat, table: TableView)
    requires
        o@ == "Object"@,
        n@ == "values"@,
        nargs >= 1,
    ensures
        call_plan(method_callee(o, n), nargs, table) == (PlanView::Import {
            c_name: "js_object_values"@,
            arity: 1,
            fallback: UNDEFINED,
        }),
{
    reveal_strlit(".");
    reveal_strlit("Date.now");
    reveal_strlit("JSON.parse");
    reveal_strlit("JSON.stringify");
    reveal_strlit("Math.");
    reveal_strlit("Math.pow");
    reveal_strlit("Math.random");
    reveal_strlit("Object");
    reveal_strlit("Object.keys");
    reveal_strlit("Object.values");
    reveal_strlit("console.error");
    reveal_strlit("console.log");
    reveal_strlit("console.warn");
    reveal_strlit("js_object_values");
    reveal_strlit("values");
    assert(o@ + "."@ + n@ =~= "Object.values"@);
    assert("Object.values"@ != "console.log"@);
    assert("Object.values"@[0] == 'O');
    assert("console.error"@[0] == 'c');
    lemma_seq_ne("Object.values"@, "console.error"@, 0);
    assert("Object.values"@ != "console.warn"@);
    assert(("Math."@ + n@)[0] == 'M');
    assert("Object.values"@[0] == 'O');
    lemma_seq_ne("Object.values"@, "Math."@ + n@, 0);
    assert("Object.values"@ != "Math.pow"@);
    assert("Object.values"@ != "Math.random"@);
    assert("Object.values"@ != "Date.now"@);
    assert("Object.values"@ != "JSON.stringify"@);
    assert("Object.values"@ != "JSON.parse"@);
    assert("Object.values"@ != "Object.keys"@);
}

proof fn lemma_method_object_assign(o: String, n: String, nargs: nat, table: TableView)
    requires
        o@ == "Object"@,
        n@ == "assign"@,
        nargs >= 2,
    ensures
        call_plan(method_callee(o, n), nargs, table) == (PlanView::Import {
            c_name: "js_object_assign"@,
            arity: 2,
            fallback: UNDEFINED,
        }),
{
    reveal_strlit(".");
    reveal_strlit("Date.now");
    reveal_strlit("JSON.parse");
    reveal_strlit("JSON.stringify");
    reveal_strlit("Math.");
    reveal_strlit("Math.pow");
    reveal_strlit("Math.random");
    reveal_strlit("Object");
    reveal_strlit("Object.assign");
    reveal_strlit("Object.keys");
    reveal_strlit("Object.values");
    reveal_strlit("assign");
    reveal_strlit("console.error");
    reveal_strlit("console.log");
    reveal_strlit("console.warn");
    reveal_strlit("js_object_assign");
    assert(o@ + "."@ + n@ =~= "Object.assign"@);
    assert("Object.assign"@ != "console.log"@);
    assert("Object.assign"@[0] == 'O');
    assert("console.error"@[0] == 'c');
    lemma_seq_ne("Object.assign"@, "console.error"@, 0);
    assert("Object.assign"@ != "console.warn"@);
    assert(("Math."@ + n@)[0] == 'M');
    assert("Object.assign"@[0] == 'O');
    lemma_seq_ne("Object.assign"@, "Math."@ + n@, 0);
    assert("Object.assign"@ != "Math.pow"@);
    assert("Object.assign"@ != "Math.random"@);
    assert("Object.assign"@ != "Date.now"@);
    assert("Object.assign"@ != "JSON.stringify"@);
    assert("Object.assign"@ != "JSON.parse"@);
    assert("Object.assign"@ != "Object.keys"@);
    assert("Object.assign"@[7] == 'a');
    assert("Object.values"@[7] == 'v');
    lemma_seq_ne("Object.assign"@, "Object.values"@, 7);
}

proof fn lemma_method_json_stringify(o: String, n: String, nargs: nat, table: TableView)
    requires
        o@ == "JSON"@,
        n@ == "stringify"@,
        nargs >= 1,
    ensures
        call_plan(method_callee(o, n), nargs, table) == (PlanView::Import {
            c_name: "js_json_stringify"@,
            arity: 1,
            fallback: UNDEFINED,
        }),
{
    reveal_strlit(".");
    reveal_strlit("Date.now");
    reveal_strlit("JSON");
    reveal_strlit("JSON.stringify");
    reveal_strlit("Math.");
    reveal_strlit("Math.pow");
    reveal_strlit("Math.random");
    reveal_strlit("console.error");
    reveal_strlit("console.log");
    reveal_strlit("console.warn");
    reveal_strlit("js_json_stringify");
    reveal_strlit("stringify");
    assert(o@ + "."@ + n@ =~= "JSON.stringify"@);
    assert("JSON.stringify"@ != "console.log"@);
    assert("JSON.stringify"@ != "console.error"@);
    assert("JSON.stringify"@ != "console.warn"@);
    assert(("Math."@ + n@)[0] == 'M');
    assert("JSON.stringify"@[0] == 'J');
    lemma_seq_ne("JSON.stringify"@, "Math."@ + n@, 0);
    assert("JSON.stringify"@ != "Math.pow"@);
    assert("JSON.stringify"@ != "Math.random"@);
    assert("JSON.stringify"@ != "Date.now"@);
}

proof fn lemma_method_json_parse(o: String, n: String, nargs: nat, table: TableView)
    requires
        o@ == "JSON"@,
        n@ == "parse"@,
        nargs >= 1,
    ensures
        call_plan(method_callee(o, n), nargs, table) == (PlanView::Import {
            c_name: "js_json_parse"@,
            arity: 1,
            fallback: UNDEFINED,
        }),
{
    reveal_strlit(".");
    reveal_strlit("Date.now");
    reveal_strlit("JSON");
    reveal_strlit("JSON.parse");
    reveal_strlit("JSON.stringify");
    reveal_strlit("Math.");
    reveal_strlit("Math.pow");
    reveal_strlit("Math.random");
    reveal_strlit("console.error");
    reveal_strlit("console.log");
    reveal_strlit("console.warn");
    reveal_strlit("js_json_parse");
    reveal_strlit("parse");
    assert(o@ + "."@ + n@ =~= "JSON.parse"@);
    assert("JSON.parse"@ != "console.log"@);
    assert("JSON.parse"@ != "console.error"@);
    assert("JSON.parse"@ != "console.warn"@);
    assert(("Math."@ + n@)[0] == 'M');
    assert("JSON.parse"@[0] == 'J');
    lemma_seq_ne("JSON.parse"@, "Math."@ + n@, 0);
    assert("JSON.parse"@ != "Math.pow"@);
    assert("JSON.parse"@ != "Math.random"@);
    assert("JSON.parse"@ != "Date.now"@);
    assert("JSON.parse"@ != "JSON.stringify"@);
}

proof fn lemma_method_array_isarray(o: String, n: String, nargs: nat, table: TableView)
    requires
        o@ == "Array"@,
        n@ == "isArray"@,
        nargs >= 1,
    ensures
        call_plan(method_callee(o, n), nargs, table) == (PlanView::Import {
            c_name: "js_array_is_array"@,
            arity: 1,
            fallback: FALSE,
        }),
{
    reveal_strlit(".");
    reveal_strlit("Array");
    reveal_strlit("Array.isArray");
    reveal_strlit("Date.now");
    reveal_strlit("JSON.parse");
    reveal_strlit("JSON.stringify");
    reveal_strlit("Math.");
    reveal_strlit("Math.pow");
    reveal_strlit("Math.random");
    reveal_strlit("Object.assign");
    reveal_strlit("Object.keys");
    reveal_strlit("Object.values");
    reveal_strlit("console.error");
    reveal_strlit("console.log");
    reveal_strlit("console.warn");
    reveal_strlit("isArray");
    reveal_strlit("js_array_is_array");
    assert(o@ + "."@ + n@ =~= "Array.isArray"@);
    assert("Array.isArray"@ != "console.log"@);
    assert("Array.isArray"@[0] == 'A');
    assert("console.error"@[0] == 'c');
    lemma_seq_ne("Array.isArray"@, "console.error"@, 0);
    assert("Array.isArray"@ != "console.warn"@);
    assert(("Math."@ + n@)[0] == 'M');
    assert("Array.isArray"@[0] == 'A');
    lemma_seq_ne("Array.isArray"@, "Math."@ + n@, 0);
    assert("Array.isArray"@ != "Math.pow"@);
    assert("Array.isArray"@ != "Math.random"@);
    assert("Array.isArray"@ != "Date.now"@);
    assert("Array.isArray"@ != "JSON.stringify"@);
    assert("Array.isArray"@ != "JSON.parse"@);
    assert("Array.isArray"@ != "Object.keys"@);
    assert("Array.isArray"@[0] == 'A');
    assert("Object.values"@[0] == 'O');
    lemma_seq_ne("Array.isArray"@, "Object.values"@, 0);
    assert("Array.isArray"@[0] == 'A');
    assert("Object.assign"@[0] == 'O');
    lemma_seq_ne("Array.isArray"@, "Object.assign"@, 0);
}

proof fn lemma_method_math_pow(o: String, n: String, nargs: nat, table: TableView)
    requires
        o@ == "Math"@,
        n@ == "pow"@,
        nargs >= 2,
    ensures
        call_plan(method_callee(o, n), nargs, table) == (PlanView::Import {
            c_name: "js_math_pow"@,
            arity: 2,
            fallback: 0,
        }),
{
    reveal_strlit(".");
    reveal_strlit("Math");
    reveal_strlit("Math.");
    reveal_strlit("Math.pow");
    reveal_strlit("abs");
    reveal_strlit("ceil");
    reveal_strlit("console.error");
    reveal_strlit("console.log");
    reveal_strlit("console.warn");
    reveal_strlit("cos");
    reveal_strlit("floor");
    reveal_strlit("js_math_pow");
    reveal_strlit("pow");
    reveal_strlit("sin");
    reveal_strlit("sqrt");
    assert(o@ + "."@ + n@ =~= "Math.pow"@);
    assert("Math.pow"@ != "console.log"@);
    assert("Math.pow"@ != "console.error"@);
    assert("Math.pow"@ != "console.warn"@);
    assert(o@ + "."@ + n@ =~= "Math."@ + n@);
    assert("pow"@[0] == 'p');
    assert("sin"@[0] == 's');
    lemma_seq_ne("pow"@, "sin"@, 0);
    assert("pow"@[0] == 'p');
    assert("cos"@[0] == 'c');
    lemma_seq_ne("pow"@, "cos"@, 0);
    assert("pow"@ != "sqrt"@);
    assert("pow"@[0] == 'p');
    assert("abs"@[0] == 'a');
    lemma_seq_ne("pow"@, "abs"@, 0);
    assert("pow"@ != "floor"@);
    assert("pow"@ != "ceil"@);
}

proof fn lemma_method_math_sin(o: String, n: String, nargs: nat, table: TableView)
    requires
        o@ == "Math"@,
        n@ == "sin"@,
        nargs >= 1,
    ensures
        call_plan(method_callee(o, n), nargs, table) == (PlanView::Import {
            c_name: "js_math_sin"@,
            arity: 1,
            fallback: 0,
        }),
{
    reveal_strlit(".");
    reveal_strlit("Math");
    reveal_strlit("Math.");
    reveal_strlit("Math.sin");
    reveal_strlit("console.error");
    reveal_strlit("console.log");
    reveal_strlit("console.warn");
    reveal_strlit("js_math_");
    reveal_strlit("js_math_sin");
    reveal_strlit("sin");
    assert(o@ + "."@ + n@ =~= "Math.sin"@);
    assert("Math.sin"@ != "console.log"@);
    assert("Math.sin"@ != "console.error"@);
    assert("Math.sin"@ != "console.warn"@);
    assert(o@ + "."@ + n@ =~= "Math."@ + n@);
    assert("js_math_"@ + n@ =~= "js_math_sin"@);
}

proof fn lemma_method_math_cos(o: String, n: String, nargs: nat, table: TableView)
    requires
        o@ == "Math"@,
        n@ == "cos"@,
        nargs >= 1,
    ensures
        call_plan(method_callee(o, n), nargs, table) == (PlanView::Import {
            c_name: "js_math_cos"@,
            arity: 1,
            fallback: 0,
        }),
{
    reveal_strlit(".");
    reveal_strlit("Math");
    reveal_strlit("Math.");
    reveal_strlit("Math.cos");
    reveal_strlit("console.error");
    reveal_strlit("console.log");
    reveal_strlit("console.warn");
    reveal_strlit("cos");
    reveal_strlit("js_math_");
    reveal_strlit("js_math_cos");
    assert(o@ + "."@ + n@ =~= "Math.cos"@);
    assert("Math.cos"@ != "console.log"@);
    assert("Math.cos"@ != "console.error"@);
    assert("Math.cos"@ != "console.warn"@);
    assert(o@ + "."@ + n@ =~= "Math."@ + n@);
    assert("js_math_"@ + n@ =~= "js_math_cos"@);
}

proof fn lemma_method_math_sqrt(o: String, n: String, nargs: nat, table: TableView)
    requires
        o@ == "Math"@,
        n@ == "sqrt"@,
        nargs >= 1,
    ensures
        call_plan(method_callee(o, n), nargs, table) == (PlanView::Import {
            c_name: "js_math_sqrt"@,
            arity: 1,
            fallback: 0,
        }),
{
    reveal_strlit(".");
    reveal_strlit("Math");
    reveal_strlit("Math.");
    reveal_strlit("Math.sqrt");
    reveal_strlit("console.error");
    reveal_strlit("console.log");
    reveal_strlit("console.warn");
    reveal_strlit("js_math_");
    reveal_strlit("js_math_sqrt");
    reveal_strlit("sqrt");
    assert(o@ + "."@ + n@ =~= "Math.sqrt"@);
    assert("Math.sqrt"@ != "console.log"@);
    assert("Math.sqrt"@ != "console.error"@);
    assert("Math.sqrt"@ != "console.warn"@);
    assert(o@ + "."@ + n@ =~= "Math."@ + n@);
    assert("js_math_"@ + n@ =~= "js_math_sqrt"@);
}

proof fn lemma_method_math_abs(o: String, n: String, nargs: nat, table: TableView)
    requires
        o@ == "Math"@,
        n@ == "abs"@,
        nargs >= 1,
    ensures
        call_plan(method_callee(o, n), nargs, table) == (PlanView::Import {
            c_name: "js_math_abs"@,
            arity: 1,
            fallback: 0,
        }),
{
    reveal_strlit(".");
    reveal_strlit("Math");
    reveal_strlit("Math.");
    reveal_strlit("Math.abs");
    reveal_strlit("abs");
    reveal_strlit("console.error");
    reveal_strlit("console.log");
    reveal_strlit("console.warn");
    reveal_strlit("js_math_");
    reveal_strlit("js_math_abs");
    assert(o@ + "."@ + n@ =~= "Math.abs"@);
    assert("Math.abs"@ != "console.log"@);
    assert("Math.abs"@ != "console.error"@);
    assert("Math.abs"@ != "console.warn"@);
    assert(o@ + "."@ + n@ =~= "Math."@ + n@);
    assert("js_math_"@ + n@ =~= "js_math_abs"@);
}

proof fn lemma_method_math_floor(o: String, n: String, nargs: nat, table: TableView)
    requires
        o@ == "Math"@,
        n@ == "floor"@,
        nargs >= 1,
    ensures
        call_plan(method_callee(o, n), nargs, table) == (PlanView::Import {
            c_name: "js_math_floor"@,
            arity: 1,
            fallback: 0,
        }),
{
    reveal_strlit(".");
    reveal_strlit("Math");
    reveal_strlit("Math.");
    reveal_strlit("Math.floor");
    reveal_strlit("console.error");
    reveal_strlit("console.log");
    reveal_strlit("console.warn");
    reveal_strlit("floor");
    reveal_strlit("js_math_");
    reveal_strlit("js_math_floor");
    assert(o@ + "."@ + n@ =~= "Math.floor"@);
    assert("Math.floor"@ != "console.log"@);
    assert("Math.floor"@ != "console.error"@);
    assert("Math.floor"@ != "console.warn"@);
    assert(o@ + "."@ + n@ =~= "Math."@ + n@);
    assert("js_math_"@ + n@ =~= "js_math_floor"@);
}

proof fn lemma_method_math_ceil(o: String, n: String, nargs: nat, table: TableView)
    requires
        o@ == "Math"@,
        n@ == "ceil"@,
        nargs >= 1,
    ensures
        call_plan(method_callee(o, n), nargs, table) == (PlanView::Import {
            c_name: "js_math_ceil"@,
            arity: 1,
            fallback: 0,
        }),
{
    reveal_strlit(".");
    reveal_strlit("Math");
    reveal_strlit("Math.");
    reveal_strlit("Math.ceil");
    reveal_strlit("ceil");
    reveal_strlit("console.error");
    reveal_strlit("console.log");
    reveal_strlit("console.warn");
    reveal_strlit("js_math_");
    reveal_strlit("js_math_ceil");
    assert(o@ + "."@ + n@ =~= "Math.ceil"@);
    assert("Math.ceil"@ != "console.log"@);
    assert("Math.ceil"@ != "console.error"@);
    assert("Math.ceil"@ != "console.warn"@);
    assert(o@ + "."@ + n@ =~= "Math."@ + n@);
    assert("js_math_"@ + n@ =~= "js_math_ceil"@);
}

proof fn lemma_method_math_random(o: String, n: String, nargs: nat, table: TableView)
    requires
        o@ == "Math"@,
        n@ == "random"@,
    ensures
        call_plan(method_callee(o, n), nargs, table) == (PlanView::Import {
            c_name: "js_math_random"@,
            arity: 0,
            fallback: 0,
        }),
{
    reveal_strlit(".");
    reveal_strlit("Math");
    reveal_strlit("Math.");
    reveal_strlit("Math.pow");
    reveal_strlit("Math.random");
    reveal_strlit("abs");
    reveal_strlit("ceil");
    reveal_strlit("console.error");
    reveal_strlit("console.log");
    reveal_strlit("console.warn");
    reveal_strlit("cos");
    reveal_strlit("floor");
    reveal_strlit("js_math_random");
    reveal_strlit("random");
    reveal_strlit("sin");
    reveal_strlit("sqrt");
    assert(o@ + "."@ + n@ =~= "Math.random"@);
    assert("Math.random"@[0] == 'M');
    assert("console.log"@[0] == 'c');
    lemma_seq_ne("Math.random"@, "console.log"@, 0);
    assert("Math.random"@ != "console.error"@);
    assert("Math.random"@ != "console.warn"@);
    assert(o@ + "."@ + n@ =~= "Math."@ + n@);
    assert("random"@ != "sin"@);
    assert("random"@ != "cos"@);
    assert("random"@ != "sqrt"@);
    assert("random"@ != "abs"@);
    assert("random"@ != "floor"@);
    assert("random"@ != "ceil"@);
    assert("Math.random"@ != "Math.pow"@);
}

proof fn lemma_method_date_now(o: String, n: String, nargs: nat, table: TableView)
    requires
        o@ == "Date"@,
        n@ == "now"@,
    ensures
        call_plan(method_callee(o, n), nargs, table) == (PlanView::Import {
            c_name: "js_date_now"@,
            arity: 0,
            fallback: 0,
        }),
{
    reveal_strlit(".");
    reveal_strlit("Date");
    reveal_strlit("Date.now");
    reveal_strlit("Math.");
    reveal_strlit("Math.pow");
    reveal_strlit("Math.random");
    reveal_strlit("console.error");
    reveal_strlit("console.log");
    reveal_strlit("console.warn");
    reveal_strlit("js_date_now");
    reveal_strlit("now");
    assert(o@ + "."@ + n@ =~= "Date.now"@);
    assert("Date.now"@ != "console.log"@);
    assert("Date.now"@ != "console.error"@);
    assert("Date.now"@ != "console.warn"@);
    assert(("Math."@ + n@)[0] == 'M');
    assert("Date.now"@[0] == 'D');
    lemma_seq_ne("Date.now"@, "Math."@ + n@, 0);
    assert("Date.now"@[0] == 'D');
    assert("Math.pow"@[0] == 'M');
    lemma_seq_ne("Date.now"@, "Math.pow"@, 0);
    assert("Date.now"@ != "Math.random"@);
}

proof fn lemma_method_console_log(o: String, n: String, nargs: nat, table: TableView)
    requires
        o@ == "console"@,
        n@ == "log"@,
    ensures
        call_plan(method_callee(o, n), nargs, table) == PlanView::Print,
{
    reveal_strlit(".");
    reveal_strlit("console");
    reveal_strlit("console.log");
    reveal_strlit("log");
    assert(o@ + "."@ + n@ =~= "console.log"@);
}

proof fn lemma_method_console_error(o: String, n: String, nargs: nat, table: TableView)
    requires
        o@ == "console"@,
        n@ == "error"@,
    ensures
        call_plan(method_callee(o, n), nargs, table) == PlanView::Print,
{
    reveal_strlit(".");
    reveal_strlit("console");
    reveal_strlit("console.error");
    reveal_strlit("console.log");
    reveal_strlit("error");
    assert(o@ + "."@ + n@ =~= "console.error"@);
    assert("console.error"@ != "console.log"@);
}

proof fn lemma_method_console_warn(o: String, n: String, nargs: nat, table: TableView)
    requires
        o@ == "console"@,
        n@ == "warn"@,
    ensures
        call_plan(method_callee(o, n), nargs, table) == PlanView::Print,
{
    reveal_strlit(".");
    reveal_strlit("console");
    reveal_strlit("console.error");
    reveal_strlit("console.log");
    reveal_strlit("console.warn");
    reveal_strlit("warn");
    assert(o@ + "."@ + n@ =~= "console.warn"@);
    assert("console.warn"@ != "console.log"@);
    assert("console.warn"@ != "console.error"@);
}

/// The runtime symbol of each built-in method: `Object.keys` calls
/// `js_object_keys`, `Object.values` calls `js_object_values`, and so on
/// through `Object.assign`, `JSON.stringify`, `JSON.parse`,
/// `Array.isArray`, `Math.pow`, the one-argument `Math` functions,
/// `Math.random` and `Date.now`, whatever the program's functions and the
/// plugins name, given at least the method's arguments; `console.log`,
/// `console.error` and `console.warn` print.
pub proof fn law_builtin_method_symbols(o: String, n: String, nargs: nat, table: TableView)
    ensures
        ({
            let plan = call_plan(method_callee(o, n), nargs, table);
            &&& o@ == "Object"@ && n@ == "keys"@ && nargs >= 1 ==> plan == (PlanView::Import {
                c_name: "js_object_keys"@,
                arity: 1,
                fallback: UNDEFINED,
            })
            &&& o@ == "Object"@ && n@ == "values"@ && nargs >= 1 ==> plan == (PlanView::Import {
                c_name: "js_object_values"@,
                arity: 1,
                fallback: UNDEFINED,
            })
            &&& o@ == "Object"@ && n@ == "assign"@ && nargs >= 2 ==> plan == (PlanView::Import {
                c_name: "js_object_assign"@,
                arity: 2,
                fallback: UNDEFINED,
            })
            &&& o@ == "JSON"@ && n@ == "stringify"@ && nargs >= 1 ==> plan == (PlanView::Import {
                c_name: "js_json_stringify"@,
                arity: 1,
                fallback: UNDEFINED,
            })
            &&& o@ == "JSON"@ && n@ == "parse"@ && nargs >= 1 ==> plan == (PlanView::Import {
                c_name: "js_json_parse"@,
                arity: 1,
                fallback: UNDEFINED,
            })
            &&& o@ == "Array"@ && n@ == "isArray"@ && nargs >= 1 ==> plan == (PlanView::Import {
                c_name: "js_array_is_array"@,
                arity: 1,
                fallback: FALSE,
            })
            &&& o@ == "Math"@ && n@ == "pow"@ && nargs >= 2 ==> plan == (PlanView::Import {
                c_name: "js_math_pow"@,
                arity: 2,
                fallback: 0,
            })
            &&& o@ == "Math"@ && n@ == "sin"@ && nargs >= 1 ==> plan == (PlanView::Import {
                c_name: "js_math_sin"@,
                arity: 1,
                fallback: 0,
            })
            &&& o@ == "Math"@ && n@ == "cos"@ && nargs >= 1 ==> plan == (PlanView::Import {
                c_name: "js_math_cos"@,
                arity: 1,
                fallback: 0,
            })
            &&& o@ == "Math"@ && n@ == "sqrt"@ && nargs >= 1 ==> plan == (PlanView::Import {
                c_name: "js_math_sqrt"@,
                arity: 1,
                fallback: 0,
            })
            &&& o@ == "Math"@ && n@ == "abs"@ && nargs >= 1 ==> plan == (PlanView::Import {
                c_name: "js_math_abs"@,
                arity: 1,
                fallback: 0,
            })
            &&& o@ == "Math"@ && n@ == "floor"@ && nargs >= 1 ==> plan == (PlanView::Import {
                c_name: "js_math_floor"@,
                arity: 1,
                fallback: 0,
            })
            &&& o@ == "Math"@ && n@ == "ceil"@ && nargs >= 1 ==> plan == (PlanView::Import {
                c_name: "js_math_ceil"@,
                arity: 1,
                fallback: 0,
            })
            &&& o@ == "Math"@ && n@ == "random"@ ==> plan == (PlanView::Import {
                c_name: "js_math_random"@,
                arity: 0,
                fallback: 0,
            })
            &&& o@ == "Date"@ && n@ == "now"@ ==> plan == (PlanView::Import {
                c_name: "js_date_now"@,
                arity: 0,
                fallback: 0,
            })
            &&& o@ == "console"@ && n@ == "log"@ ==> plan == PlanView::Print
            &&& o@ == "console"@ && n@ == "error"@ ==> plan == PlanView::Print
            &&& o@ == "console"@ && n@ == "warn"@ ==> plan == PlanView::Print
        }),
{
    if o@ == "Object"@ && n@ == "keys"@ && nargs >= 1 {
        lemma_method_object_keys(o, n, nargs, table);
    }
    if o@ == "Object"@ && n@ == "values"@ && nargs >= 1 {
        lemma_method_object_values(o, n, nargs, table);
    }
    if o@ == "Object"@ && n@ == "assign"@ && nargs >= 2 {
        lemma_method_object_assign(o, n, nargs, table);
    }
    if o@ == "JSON"@ && n@ == "stringify"@ && nargs >= 1 {
        lemma_method_json_stringify(o, n, nargs, table);
    }
    if o@ == "JSON"@ && n@ == "parse"@ && nargs >= 1 {
        lemma_method_json_parse(o, n, nargs, table);
    }
    if o@ == "Array"@ && n@ == "isArray"@ && nargs >= 1 {
        lemma_method_array_isarray(o, n, nargs, table);
    }
    if o@ == "Math"@ && n@ == "pow"@ && nargs >= 2 {
        lemma_method_math_pow(o, n, nargs, table);
    }
    if o@ == "Math"@ && n@ == "sin"@ && nargs >= 1 {
        lemma_method_math_sin(o, n, nargs, table);
    }
    if o@ == "Math"@ && n@ == "cos"@ && nargs >= 1 {
        lemma_method_math_cos(o, n, nargs, table);
    }
    if o@ == "Math"@ && n@ == "sqrt"@ && nargs >= 1 {
        lemma_method_math_sqrt(o, n, nargs, table);
    }
    if o@ == "Math"@ && n@ == "abs"@ && nargs >= 1 {
        lemma_method_math_abs(o, n, nargs, table);
    }
    if o@ == "Math"@ && n@ == "floor"@ && nargs >= 1 {
        lemma_method_math_floor(o, n, nargs, table);
    }
    if o@ == "Math"@ && n@ == "ceil"@ && nargs >= 1 {
        lemma_method_math_ceil(o, n, nargs, table);
    }
    if o@ == "Math"@ && n@ == "random"@ {
        lemma_method_math_random(o, n, nargs, table);
    }
    if o@ == "Date"@ && n@ == "now"@ {
        lemma_method_date_now(o, n, nargs, table);
    }
    if o@ == "console"@ && n@ == "log"@ {
        lemma_method_console_log(o, n, nargs, table);
    }
    if o@ == "console"@ && n@ == "error"@ {
        lemma_method_console_error(o, n, nargs, table);
    }
    if o@ == "console"@ && n@ == "warn"@ {
        lemma_method_console_warn(o, n, nargs, table);
    }
}

} // verus!
