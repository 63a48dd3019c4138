pub use crate::hir::{BinOp, UnaryOp};
use crate::text::{contains_string, str_eq, texts};
use vstd::prelude::*;
use vstd::string::StringSliceAdditionalSpecFns;

verus! {

broadcast use vstd::std_specs::vec::axiom_vec_decreases_to_view;

/// NaN-boxed `undefined`.
pub const UNDEFINED: u64 = 0x7FFF_8000_0000_0001;
/// NaN-boxed `null`.
pub const NULL: u64 = 0x7FFF_8000_0000_0002;
/// NaN-boxed `true`.
pub const TRUE: u64 = 0x7FFF_0000_0000_0001;
/// NaN-boxed `false`.
pub const FALSE: u64 = 0x7FFF_0000_0000_0000;
/// Tag of a boxed string reference (high 16 bits).
pub const STRING_TAG: u64 = 0x7FFC_0000_0000_0000;
/// Tag of a boxed array reference (high 16 bits).
pub const ARRAY_TAG: u64 = 0x7FFB_0000_0000_0000;
/// Tag of a boxed object reference (high 16 bits).
pub const OBJECT_TAG: u64 = 0x7FFA_0000_0000_0000;

/// Event-type codes understood by the runtime.
pub const EVENT_CLICK: u64 = 1;
pub const EVENT_KEYDOWN: u64 = 2;
pub const EVENT_KEYUP: u64 = 3;
pub const EVENT_MOUSEMOVE: u64 = 4;
pub const EVENT_CHANGE: u64 = 5;
pub const EVENT_SUBMIT: u64 = 6;
pub const EVENT_FOCUS: u64 = 7;
pub const EVENT_BLUR: u64 = 8;
pub const EVENT_CHANGE_VALUE: u64 = 9;

/// The event code of a DOM event name; 0 for a name the runtime resolves.
pub open spec fn event_code(name: Seq<char>) -> u64 {
    if name == "click"@ {
        EVENT_CLICK
    } else if name == "keydown"@ {
        EVENT_KEYDOWN
    } else if name == "keyup"@ {
        EVENT_KEYUP
    } else if name == "mousemove"@ {
        EVENT_MOUSEMOVE
    } else if name == "change"@ {
        EVENT_CHANGE
    } else if name == "submit"@ {
        EVENT_SUBMIT
    } else if name == "focus"@ {
        EVENT_FOCUS
    } else if name == "blur"@ {
        EVENT_BLUR
    } else if name == "changeValue"@ {
        EVENT_CHANGE_VALUE
    } else {
        0
    }
}

/// The event code of a DOM event name.
pub fn map_event_type(event_name: &str) -> (code: u64)
    ensures
        code == event_code(event_name@),
{
    if str_eq(event_name, "click") {
        EVENT_CLICK
    } else if str_eq(event_name, "keydown") {
        EVENT_KEYDOWN
    } else if str_eq(event_name, "keyup") {
        EVENT_KEYUP
    } else if str_eq(event_name, "mousemove") {
        EVENT_MOUSEMOVE
    } else if str_eq(event_name, "change") {
        EVENT_CHANGE
    } else if str_eq(event_name, "submit") {
        EVENT_SUBMIT
    } else if str_eq(event_name, "focus") {
        EVENT_FOCUS
    } else if str_eq(event_name, "blur") {
        EVENT_BLUR
    } else if str_eq(event_name, "changeValue") {
        EVENT_CHANGE_VALUE
    } else {
        0
    }
}

/// The FNV-1a 64-bit hash: from the offset basis, for each byte
/// xor it in, then multiply by the FNV prime, modulo 2^64.
pub open spec fn fnv1a(bytes: Seq<u8>) -> u64
    decreases bytes.len(),
{
    if bytes.len() == 0 {
        0xcbf29ce484222325
    } else {
        (((fnv1a(bytes.drop_last()) ^ (bytes.last() as u64)) as nat * 0x100000001b3nat)
            % 0x1_0000_0000_0000_0000nat) as u64
    }
}

/// FNV-1a hash of a property name's UTF-8 bytes.
pub fn fnv1a_64(name: &str) -> (h: u64)
    ensures
        h == fnv1a(name.spec_bytes()),
{
    let bytes = name.as_bytes();
    let mut hash: u64 = 0xcbf29ce484222325;
    let mut i: usize = 0;
    while i < bytes.len()
        invariant
            i <= bytes@.len(),
            bytes@ == name.spec_bytes(),
            hash == fnv1a(bytes@.subrange(0, i as int)),
        decreases bytes@.len() - i,
    {
        let byte = bytes[i];
        proof {
            let next = bytes@.subrange(0, i + 1);
            assert(next.drop_last() =~= bytes@.subrange(0, i as int));
            assert(next.last() == byte);
        }
        hash = hash ^ (byte as u64);
        hash = hash.wrapping_mul(0x100000001b3);
        i = i + 1;
    }
    assert(bytes@.subrange(0, i as int) =~= bytes@);
    hash
}

/// The boxed key under which a property name is stored: the string tag
/// with the low 48 bits of the name's hash.
pub open spec fn spec_property_key(name: &str) -> u64 {
    STRING_TAG | (fnv1a(name.spec_bytes()) & 0x0000_FFFF_FFFF_FFFF)
}

/// The boxed key of a property name.
pub fn property_key(name: &str) -> (k: u64)
    ensures
        k == spec_property_key(name),
{
    STRING_TAG | (fnv1a_64(name) & 0x0000_FFFF_FFFF_FFFF)
}

/// The IR that the back end compiles: the front-end forms plus `try`,
/// `throw` and expression statements. A number holds its IEEE-754 bits.
pub enum HirExpr {
    Number(u64),
    Boolean(bool),
    String(String),
    Null,
    Undefined,
    Identifier(String),
    Binary { op: BinOp, left: Box<HirExpr>, right: Box<HirExpr> },
    Unary { op: UnaryOp, operand: Box<HirExpr> },
    Typeof(Box<HirExpr>),
    Call { callee: Box<HirExpr>, args: Vec<HirExpr> },
    Ternary { cond: Box<HirExpr>, then_expr: Box<HirExpr>, else_expr: Box<HirExpr> },
    Function { name: String, params: Vec<String>, body: Vec<HirExpr> },
    Return(Option<Box<HirExpr>>),
    Var { name: String, init: Option<Box<HirExpr>>, is_mut: bool },
    If { cond: Box<HirExpr>, then_body: Vec<HirExpr>, else_body: Option<Vec<HirExpr>> },
    While { cond: Box<HirExpr>, body: Vec<HirExpr> },
    For {
        init: Option<Box<HirExpr>>,
        cond: Option<Box<HirExpr>>,
        update: Option<Box<HirExpr>>,
        body: Vec<HirExpr>,
    },
    Block(Vec<HirExpr>),
    Break,
    Continue,
    Assign { target: Box<HirExpr>, value: Box<HirExpr> },
    Array(Vec<HirExpr>),
    Index { object: Box<HirExpr>, index: Box<HirExpr> },
    Object(Vec<(String, HirExpr)>),
    Property { object: Box<HirExpr>, name: String },
    TryCatch {
        try_body: Vec<HirExpr>,
        catch_param: Option<String>,
        catch_body: Option<Vec<HirExpr>>,
        finally_body: Option<Vec<HirExpr>>,
    },
    Throw(Option<Box<HirExpr>>),
    ExprStmt(Box<HirExpr>),
}

/// The string literals that occur in `e` (object keys and property names
/// are not literals).
pub open spec fn strings_in(e: HirExpr) -> Set<Seq<char>>
    decreases e,
{
    match e {
        HirExpr::String(s) => set![s@],
        HirExpr::Binary { left, right, .. } => strings_in(*left) + strings_in(*right),
        HirExpr::Unary { operand, .. } => strings_in(*operand),
        HirExpr::Typeof(x) => strings_in(*x),
        HirExpr::Call { callee, args } => strings_in(*callee) + strings_in_seq(args@),
        HirExpr::Ternary { cond, then_expr, else_expr } => strings_in(*cond) + strings_in(
            *then_expr,
        ) + strings_in(*else_expr),
        HirExpr::Function { body, .. } => strings_in_seq(body@),
        HirExpr::Return(v) => strings_in_opt(v),
        HirExpr::Var { init, .. } => strings_in_opt(init),
        HirExpr::If { cond, then_body, else_body } => strings_in(*cond) + strings_in_seq(
            then_body@,
        ) + match else_body {
            Some(b) => strings_in_seq(b@),
            None => Set::empty(),
        },
        HirExpr::While { cond, body } => strings_in(*cond) + strings_in_seq(body@),
        HirExpr::For { init, cond, update, body } => strings_in_opt(init) + strings_in_opt(cond)
            + strings_in_opt(update) + strings_in_seq(body@),
        HirExpr::Block(v) => strings_in_seq(v@),
        HirExpr::Assign { target, value } => strings_in(*target) + strings_in(*value),
        HirExpr::Array(v) => strings_in_seq(v@),
        HirExpr::Index { object, index } => strings_in(*object) + strings_in(*index),
        HirExpr::Object(v) => strings_in_values(v@),
        HirExpr::Property { object, .. } => strings_in(*object),
        HirExpr::TryCatch { try_body, catch_body, finally_body, .. } => strings_in_seq(try_body@)
            + match catch_body {
            Some(b) => strings_in_seq(b@),
            None => Set::empty(),
        } + match finally_body {
            Some(b) => strings_in_seq(b@),
            None => Set::empty(),
        },
        HirExpr::Throw(v) => strings_in_opt(v),
        HirExpr::ExprStmt(x) => strings_in(*x),
        _ => Set::empty(),
    }
}

/// The string literals in an optional expression.
pub open spec fn strings_in_opt(e: Option<Box<HirExpr>>) -> Set<Seq<char>>
    decreases e,
{
    match e {
        Some(x) => strings_in(*x),
        None => Set::empty(),
    }
}

/// The string literals in a list of expressions.
pub open spec fn strings_in_seq(s: Seq<HirExpr>) -> Set<Seq<char>>
    decreases s,
{
    if s.len() == 0 {
        Set::empty()
    } else {
        strings_in_seq(s.subrange(0, s.len() - 1)) + strings_in(s[s.len() - 1])
    }
}

/// The string literals in the values of a list of properties.
pub open spec fn strings_in_values(s: Seq<(String, HirExpr)>) -> Set<Seq<char>>
    decreases s,
{
    if s.len() == 0 {
        Set::empty()
    } else {
        strings_in_values(s.subrange(0, s.len() - 1)) + strings_in(s[s.len() - 1].1)
    }
}

/// The distinct string literals of a program, each stored once.
pub struct StringPool {
    strings: Vec<String>,
}

impl StringPool {
    /// The texts in the pool.
    pub closed spec fn contents(&self) -> Set<Seq<char>> {
        texts(self.strings@).to_set()
    }

    /// The texts in the order they were first added.
    pub closed spec fn entries(&self) -> Seq<Seq<char>> {
        texts(self.strings@)
    }

    /// No text is stored twice.
    pub closed spec fn wf(&self) -> bool {
        texts(self.strings@).no_duplicates()
    }

    pub fn new() -> (r: Self)
        ensures
            r.wf(),
            r.contents() == Set::<Seq<char>>::empty(),
            r.entries() == Seq::<Seq<char>>::empty(),
    {
        let r = StringPool { strings: Vec::new() };
        assert(texts(r.strings@) =~= Seq::empty());
        assert(r.contents() =~= Set::<Seq<char>>::empty());
        r
    }

    /// The stored strings, in the order they were first added.
    pub fn strings(&self) -> (r: &Vec<String>)
        ensures
            texts(r@) == self.entries(),
    {
        &self.strings
    }

    /// Adds a text unless it is stored already.
    pub fn insert(&mut self, s: &String)
        requires
            old(self).wf(),
        ensures
            final(self).wf(),
            final(self).contents() == old(self).contents().insert(s@),
    {
        if !contains_string(&self.strings, s) {
            let ghost before = texts(self.strings@);
            self.strings.push(s.clone());
            assert(texts(self.strings@) =~= before.push(s@));
            assert(self.contents() =~= before.to_set().insert(s@)) by {
                assert forall|x: Seq<char>| #[trigger] texts(self.strings@).contains(x) == (
                before.contains(x) || x == s@) by {
                    if texts(self.strings@).contains(x) {
                        let k = choose|k: int|
                            0 <= k < texts(self.strings@).len() && texts(self.strings@)[k] == x;
                        if k < before.len() {
                            assert(before[k] == x);
                        }
                    }
                    if before.contains(x) {
                        let k = choose|k: int| 0 <= k < before.len() && before[k] == x;
                        assert(texts(self.strings@)[k] == x);
                    }
                    assert(texts(self.strings@)[before.len() as int] == s@);
                }
            }
        } else {
            assert(self.contents() =~= self.contents().insert(s@));
        }
    }
}

/// Adds every string literal of `e` to the pool.
pub fn collect_strings(pool: &mut StringPool, e: &HirExpr)
    requires
        old(pool).wf(),
    ensures
        final(pool).wf(),
        final(pool).contents() == old(pool).contents() + strings_in(*e),
    decreases e,
{
    let ghost start = pool.contents();
    match e {
        HirExpr::String(s) => {
            pool.insert(s);
            assert(pool.contents() =~= start + strings_in(*e));
        },
        HirExpr::Binary { left, right, .. } => {
            collect_strings(pool, left);
            collect_strings(pool, right);
            assert(pool.contents() =~= start + strings_in(*e));
        },
        HirExpr::Unary { operand, .. } => {
            collect_strings(pool, operand);
        },
        HirExpr::Typeof(x) => {
            collect_strings(pool, x);
        },
        HirExpr::Call { callee, args } => {
            collect_strings(pool, callee);
            collect_strings_list(pool, args);
            assert(pool.contents() =~= start + strings_in(*e));
        },
        HirExpr::Ternary { cond, then_expr, else_expr } => {
            collect_strings(pool, cond);
            collect_strings(pool, then_expr);
            collect_strings(pool, else_expr);
            assert(pool.contents() =~= start + strings_in(*e));
        },
        HirExpr::Function { body, .. } => {
            collect_strings_list(pool, body);
        },
        HirExpr::Return(v) => {
            collect_strings_opt(pool, v);
        },
        HirExpr::Var { init, .. } => {
            collect_strings_opt(pool, init);
        },
        HirExpr::If { cond, then_body, else_body } => {
            collect_strings(pool, cond);
            collect_strings_list(pool, then_body);
            match else_body {
                Some(b) => collect_strings_list(pool, b),
                None => {},
            }
            assert(pool.contents() =~= start + strings_in(*e));
        },
        HirExpr::While { cond, body } => {
            collect_strings(pool, cond);
            collect_strings_list(pool, body);
            assert(pool.contents() =~= start + strings_in(*e));
        },
        HirExpr::For { init, cond, update, body } => {
            collect_strings_opt(pool, init);
            collect_strings_opt(pool, cond);
            collect_strings_opt(pool, update);
            collect_strings_list(pool, body);
            assert(pool.contents() =~= start + strings_in(*e));
        },
        HirExpr::Block(v) => {
            collect_strings_list(pool, v);
        },
        HirExpr::Assign { target, value } => {
            collect_strings(pool, target);
            collect_strings(pool, value);
            assert(pool.contents() =~= start + strings_in(*e));
        },
        HirExpr::Array(v) => {
            collect_strings_list(pool, v);
        },
        HirExpr::Index { object, index } => {
            collect_strings(pool, object);
            collect_strings(pool, index);
            assert(pool.contents() =~= start + strings_in(*e));
        },
        HirExpr::Object(v) => {
            collect_strings_values(pool, v);
        },
        HirExpr::Property { object, .. } => {
            collect_strings(pool, object);
        },
        HirExpr::TryCatch { try_body, catch_body, finally_body, .. } => {
            collect_strings_list(pool, try_body);
            match catch_body {
                Some(b) => collect_strings_list(pool, b),
                None => {},
            }
            match finally_body {
                Some(b) => collect_strings_list(pool, b),
                None => {},
            }
            assert(pool.contents() =~= start + strings_in(*e));
        },
        HirExpr::Throw(v) => {
            collect_strings_opt(pool, v);
        },
        HirExpr::ExprStmt(x) => {
            collect_strings(pool, x);
        },
        _ => {
            assert(pool.contents() =~= start + strings_in(*e));
        },
    }
}

fn collect_strings_opt(pool: &mut StringPool, e: &Option<Box<HirExpr>>)
    requires
        old(pool).wf(),
    ensures
        final(pool).wf(),
        final(pool).contents() == old(pool).contents() + strings_in_opt(*e),
    decreases e,
{
    match e {
        Some(x) => collect_strings(pool, x),
        None => {
            assert(pool.contents() =~= pool.contents() + Set::empty());
        },
    }
}

fn collect_strings_list(pool: &mut StringPool, v: &Vec<HirExpr>)
    requires
        old(pool).wf(),
    ensures
        final(pool).wf(),
        final(pool).contents() == old(pool).contents() + strings_in_seq(v@),
    decreases v,
{
    let ghost start = pool.contents();
    let mut i: usize = 0;
    assert(strings_in_seq(v@.subrange(0, 0)) =~= Set::empty());
    while i < v.len()
        invariant
            pool.wf(),
            i <= v@.len(),
            start == old(pool).contents(),
            pool.contents() == start + strings_in_seq(v@.subrange(0, i as int)),
        decreases v@.len() - i,
    {
        collect_strings(pool, &v[i]);
        proof {
            let next = v@.subrange(0, i + 1);
            assert(next.subrange(0, next.len() - 1) =~= v@.subrange(0, i as int));
            assert(next[next.len() - 1] == v@[i as int]);
        }
        i = i + 1;
        assert(pool.contents() =~= start + strings_in_seq(v@.subrange(0, i as int)));
    }
    assert(v@.subrange(0, i as int) =~= v@);
}

fn collect_strings_values(pool: &mut StringPool, v: &Vec<(String, HirExpr)>)
    requires
        old(pool).wf(),
    ensures
        final(pool).wf(),
        final(pool).contents() == old(pool).contents() + strings_in_values(v@),
    decreases v,
{
    let ghost start = pool.contents();
    let mut i: usize = 0;
    assert(strings_in_values(v@.subrange(0, 0)) =~= Set::empty());
    while i < v.len()
        invariant
            pool.wf(),
            i <= v@.len(),
            start == old(pool).contents(),
            pool.contents() == start + strings_in_values(v@.subrange(0, i as int)),
        decreases v@.len() - i,
    {
        collect_strings(pool, &v[i].1);
        proof {
            let next = v@.subrange(0, i + 1);
            assert(next.subrange(0, next.len() - 1) =~= v@.subrange(0, i as int));
            assert(next[next.len() - 1] == v@[i as int]);
        }
        i = i + 1;
        assert(pool.contents() =~= start + strings_in_values(v@.subrange(0, i as int)));
    }
    assert(v@.subrange(0, i as int) =~= v@);
}

} // verus!
