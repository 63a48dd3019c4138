use crate::codegen::HirExpr;
use crate::hir::{names_view, BinOp, UnaryOp};
use vstd::prelude::*;

verus! {

broadcast use vstd::std_specs::vec::axiom_vec_decreases_to_view;

/// The mathematical form of a `HirExpr`: texts as character sequences,
/// lists as sequences.
pub ghost enum SpecIr {
    Number(u64),
    Boolean(bool),
    String(Seq<char>),
    Null,
    Undefined,
    Identifier(Seq<char>),
    Binary { op: BinOp, left: Box<SpecIr>, right: Box<SpecIr> },
    Unary { op: UnaryOp, operand: Box<SpecIr> },
    Typeof(Box<SpecIr>),
    Call { callee: Box<SpecIr>, args: Seq<SpecIr> },
    Ternary { cond: Box<SpecIr>, then_expr: Box<SpecIr>, else_expr: Box<SpecIr> },
    Function { name: Seq<char>, params: Seq<Seq<char>>, body: Seq<SpecIr> },
    Return(Option<Box<SpecIr>>),
    Var { name: Seq<char>, init: Option<Box<SpecIr>>, is_mut: bool },
    If { cond: Box<SpecIr>, then_body: Seq<SpecIr>, else_body: Option<Seq<SpecIr>> },
    While { cond: Box<SpecIr>, body: Seq<SpecIr> },
    For {
        init: Option<Box<SpecIr>>,
        cond: Option<Box<SpecIr>>,
        update: Option<Box<SpecIr>>,
        body: Seq<SpecIr>,
    },
    Block(Seq<SpecIr>),
    Break,
    Continue,
    Assign { target: Box<SpecIr>, value: Box<SpecIr> },
    Array(Seq<SpecIr>),
    Index { object: Box<SpecIr>, index: Box<SpecIr> },
    Object(Seq<(Seq<char>, SpecIr)>),
    Property { object: Box<SpecIr>, name: Seq<char> },
    TryCatch {
        try_body: Seq<SpecIr>,
        catch_param: Option<Seq<char>>,
        catch_body: Option<Seq<SpecIr>>,
        finally_body: Option<Seq<SpecIr>>,
    },
    Throw(Option<Box<SpecIr>>),
    ExprStmt(Box<SpecIr>),
}


impl HirExpr {
    /// The mathematical form of a list of expressions.
    pub open spec fn list_view(v: Vec<HirExpr>) -> Seq<SpecIr>
        decreases v,
    {
        Seq::new(
            v@.len(),
            |i: int|
                if 0 <= i < v@.len() {
                    v@[i].view()
                } else {
                    SpecIr::Null
                },
        )
    }

    /// The mathematical form of a list of properties.
    pub open spec fn pairs_view(v: Vec<(String, HirExpr)>) -> Seq<(Seq<char>, SpecIr)>
        decreases v,
    {
        Seq::new(
            v@.len(),
            |i: int|
                if 0 <= i < v@.len() {
                    (v@[i].0@, v@[i].1.view())
                } else {
                    (Seq::empty(), SpecIr::Null)
                },
        )
    }

    pub open spec fn opt_view(e: Option<Box<HirExpr>>) -> Option<Box<SpecIr>>
        decreases e,
    {
        match e {
            Some(b) => Some(Box::new(b.view())),
            None => None,
        }
    }

    /// The mathematical form of this expression.
    pub open spec fn view(self) -> SpecIr
        decreases self,
    {
        match self {
            HirExpr::Number(b) => SpecIr::Number(b),
            HirExpr::Boolean(b) => SpecIr::Boolean(b),
            HirExpr::String(s) => SpecIr::String(s@),
            HirExpr::Null => SpecIr::Null,
            HirExpr::Undefined => SpecIr::Undefined,
            HirExpr::Identifier(s) => SpecIr::Identifier(s@),
            HirExpr::Binary { op, left, right } => SpecIr::Binary {
                op,
                left: Box::new(left.view()),
                right: Box::new(right.view()),
            },
            HirExpr::Unary { op, operand } => SpecIr::Unary {
                op,
                operand: Box::new(operand.view()),
            },
            HirExpr::Typeof(e) => SpecIr::Typeof(Box::new(e.view())),
            HirExpr::Call { callee, args } => SpecIr::Call {
                callee: Box::new(callee.view()),
                args: Self::list_view(args),
            },
            HirExpr::Ternary { cond, then_expr, else_expr } => SpecIr::Ternary {
                cond: Box::new(cond.view()),
                then_expr: Box::new(then_expr.view()),
                else_expr: Box::new(else_expr.view()),
            },
            HirExpr::Function { name, params, body } => SpecIr::Function {
                name: name@,
                params: names_view(params@),
                body: Self::list_view(body),
            },
            HirExpr::Return(v) => SpecIr::Return(Self::opt_view(v)),
            HirExpr::Var { name, init, is_mut } => SpecIr::Var {
                name: name@,
                init: Self::opt_view(init),
                is_mut,
            },
            HirExpr::If { cond, then_body, else_body } => SpecIr::If {
                cond: Box::new(cond.view()),
                then_body: Self::list_view(then_body),
                else_body: match else_body {
                    Some(b) => Some(Self::list_view(b)),
                    None => None,
                },
            },
            HirExpr::While { cond, body } => SpecIr::While {
                cond: Box::new(cond.view()),
                body: Self::list_view(body),
            },
            HirExpr::For { init, cond, update, body } => SpecIr::For {
                init: Self::opt_view(init),
                cond: Self::opt_view(cond),
                update: Self::opt_view(update),
                body: Self::list_view(body),
            },
            HirExpr::Block(v) => SpecIr::Block(Self::list_view(v)),
            HirExpr::Break => SpecIr::Break,
            HirExpr::Continue => SpecIr::Continue,
            HirExpr::Assign { target, value } => SpecIr::Assign {
                target: Box::new(target.view()),
                value: Box::new(value.view()),
            },
            HirExpr::Array(v) => SpecIr::Array(Self::list_view(v)),
            HirExpr::Index { object, index } => SpecIr::Index {
                object: Box::new(object.view()),
                index: Box::new(index.view()),
            },
            HirExpr::Object(v) => SpecIr::Object(Self::pairs_view(v)),
            HirExpr::Property { object, name } => SpecIr::Property {
                object: Box::new(object.view()),
                name: name@,
            },
            HirExpr::TryCatch { try_body, catch_param, catch_body, finally_body } => SpecIr::TryCatch {
                try_body: Self::list_view(try_body),
                catch_param: match catch_param {
                    Some(p) => Some(p@),
                    None => None,
                },
                catch_body: match catch_body {
                    Some(b) => Some(Self::list_view(b)),
                    None => None,
                },
                finally_body: match finally_body {
                    Some(b) => Some(Self::list_view(b)),
                    None => None,
                },
            },
            HirExpr::Throw(v) => SpecIr::Throw(Self::opt_view(v)),
            HirExpr::ExprStmt(e) => SpecIr::ExprStmt(Box::new(e.view())),
        }
    }
}

pub proof fn lemma_list_view_push(v: Vec<HirExpr>, w: Vec<HirExpr>, e: HirExpr)
    requires
        w@ == v@.push(e),
    ensures
        HirExpr::list_view(w) == HirExpr::list_view(v).push(e.view()),
{
    assert(HirExpr::list_view(w) =~= HirExpr::list_view(v).push(e.view()));
}

pub proof fn lemma_pairs_view_push(v: Vec<(String, HirExpr)>, w: Vec<(String, HirExpr)>, k: String, e: HirExpr)
    requires
        w@ == v@.push((k, e)),
    ensures
        HirExpr::pairs_view(w) == HirExpr::pairs_view(v).push((k@, e.view())),
{
    assert(HirExpr::pairs_view(w) =~= HirExpr::pairs_view(v).push((k@, e.view())));
}

pub proof fn lemma_list_view_empty(v: Vec<HirExpr>)
    requires
        v@.len() == 0,
    ensures
        HirExpr::list_view(v) == Seq::<SpecIr>::empty(),
{
    assert(HirExpr::list_view(v) =~= Seq::<SpecIr>::empty());
}

impl HirExpr {
    /// A copy of a list of expressions.
    pub fn duplicate_list(v: &Vec<HirExpr>) -> (r: Vec<HirExpr>)
        ensures
            HirExpr::list_view(r) == HirExpr::list_view(*v),
        decreases v,
    {
        let mut out: Vec<HirExpr> = Vec::new();
        let mut i: usize = 0;
        while i < v.len()
            invariant
                i <= v@.len(),
                out@.len() == i,
                forall|j: int| 0 <= j < i ==> #[trigger] out@[j].view() == v@[j].view(),
            decreases v@.len() - i,
        {
            let e = v[i].duplicate();
            out.push(e);
            i = i + 1;
        }
        assert forall|j: int| 0 <= j < out@.len() implies #[trigger] HirExpr::list_view(out)[j]
            == HirExpr::list_view(*v)[j] by {
            assert(out@[j].view() == v@[j].view());
        }
        assert(HirExpr::list_view(out) =~= HirExpr::list_view(*v));
        out
    }

    /// A copy of this expression.
    pub fn duplicate(&self) -> (r: HirExpr)
        ensures
            r.view() == self.view(),
        decreases self,
    {
        match self {
            HirExpr::Number(b) => HirExpr::Number(*b),
            HirExpr::Boolean(b) => HirExpr::Boolean(*b),
            HirExpr::String(s) => HirExpr::String(s.clone()),
            HirExpr::Null => HirExpr::Null,
            HirExpr::Undefined => HirExpr::Undefined,
            HirExpr::Identifier(s) => HirExpr::Identifier(s.clone()),
            HirExpr::Binary { op, left, right } => HirExpr::Binary {
                op: *op,
                left: Box::new(left.duplicate()),
                right: Box::new(right.duplicate()),
            },
            HirExpr::Unary { op, operand } => HirExpr::Unary {
                op: *op,
                operand: Box::new(operand.duplicate()),
            },
            HirExpr::Typeof(e) => HirExpr::Typeof(Box::new(e.duplicate())),
            HirExpr::Call { callee, args } => HirExpr::Call {
                callee: Box::new(callee.duplicate()),
                args: Self::duplicate_list(args),
            },
            HirExpr::Ternary { cond, then_expr, else_expr } => HirExpr::Ternary {
                cond: Box::new(cond.duplicate()),
                then_expr: Box::new(then_expr.duplicate()),
                else_expr: Box::new(else_expr.duplicate()),
            },
            HirExpr::Function { name, params, body } => {
                let ps = params.clone();
                assert(names_view(ps@) =~= names_view(params@)) by {
                    assert forall|j: int| 0 <= j < ps@.len() implies ps@[j]@ == params@[j]@ by {
                        assert(cloned::<String>(params@[j], ps@[j]));
                    }
                }
                HirExpr::Function {
                    name: name.clone(),
                    params: ps,
                    body: Self::duplicate_list(body),
                }
            },
            HirExpr::Return(v) => HirExpr::Return(Self::duplicate_opt(v)),
            HirExpr::Var { name, init, is_mut } => HirExpr::Var {
                name: name.clone(),
                init: Self::duplicate_opt(init),
                is_mut: *is_mut,
            },
            HirExpr::If { cond, then_body, else_body } => HirExpr::If {
                cond: Box::new(cond.duplicate()),
                then_body: Self::duplicate_list(then_body),
                else_body: match else_body {
                    Some(b) => Some(Self::duplicate_list(b)),
                    None => None,
                },
            },
            HirExpr::While { cond, body } => HirExpr::While {
                cond: Box::new(cond.duplicate()),
                body: Self::duplicate_list(body),
            },
            HirExpr::For { init, cond, update, body } => HirExpr::For {
                init: Self::duplicate_opt(init),
                cond: Self::duplicate_opt(cond),
                update: Self::duplicate_opt(update),
                body: Self::duplicate_list(body),
            },
            HirExpr::Block(v) => HirExpr::Block(Self::duplicate_list(v)),
            HirExpr::Break => HirExpr::Break,
            HirExpr::Continue => HirExpr::Continue,
            HirExpr::Assign { target, value } => HirExpr::Assign {
                target: Box::new(target.duplicate()),
                value: Box::new(value.duplicate()),
            },
            HirExpr::Array(v) => HirExpr::Array(Self::duplicate_list(v)),
            HirExpr::Index { object, index } => HirExpr::Index {
                object: Box::new(object.duplicate()),
                index: Box::new(index.duplicate()),
            },
            HirExpr::Object(v) => HirExpr::Object(Self::duplicate_pairs(v)),
            HirExpr::Property { object, name } => HirExpr::Property {
                object: Box::new(object.duplicate()),
                name: name.clone(),
            },
            HirExpr::TryCatch { try_body, catch_param, catch_body, finally_body } => HirExpr::TryCatch {
                try_body: Self::duplicate_list(try_body),
                catch_param: match catch_param {
                    Some(p) => Some(p.clone()),
                    None => None,
                },
                catch_body: match catch_body {
                    Some(b) => Some(Self::duplicate_list(b)),
                    None => None,
                },
                finally_body: match finally_body {
                    Some(b) => Some(Self::duplicate_list(b)),
                    None => None,
                },
            },
            HirExpr::Throw(v) => HirExpr::Throw(Self::duplicate_opt(v)),
            HirExpr::ExprStmt(e) => HirExpr::ExprStmt(Box::new(e.duplicate())),
        }
    }

    fn duplicate_pairs(v: &Vec<(String, HirExpr)>) -> (r: Vec<(String, HirExpr)>)
        ensures
            HirExpr::pairs_view(r) == HirExpr::pairs_view(*v),
        decreases v,
    {
        let mut out: Vec<(String, HirExpr)> = Vec::new();
        let mut i: usize = 0;
        while i < v.len()
            invariant
                i <= v@.len(),
                out@.len() == i,
                forall|j: int|
                    0 <= j < i ==> (#[trigger] out@[j]).0@ == v@[j].0@ && out@[j].1.view()
                        == v@[j].1.view(),
            decreases v@.len() - i,
        {
            let k = v[i].0.clone();
            let e = v[i].1.duplicate();
            out.push((k, e));
            i = i + 1;
        }
        assert forall|j: int| 0 <= j < out@.len() implies #[trigger] HirExpr::pairs_view(out)[j]
            == HirExpr::pairs_view(*v)[j] by {
            assert(out@[j].0@ == v@[j].0@);
        }
        assert(HirExpr::pairs_view(out) =~= HirExpr::pairs_view(*v));
        out
    }

    fn duplicate_opt(e: &Option<Box<HirExpr>>) -> (r: Option<Box<HirExpr>>)
        ensures
            HirExpr::opt_view(r) == HirExpr::opt_view(*e),
        decreases e,
    {
        match e {
            Some(b) => Some(Box::new(b.duplicate())),
            None => None,
        }
    }
}

} // verus!
