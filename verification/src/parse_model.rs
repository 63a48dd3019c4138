use crate::hir::{BinOp, SpecHir, UnaryOp};
use crate::ts_parser::{SpecToken, TokenKind};
use vstd::prelude::*;

verus! {

// The parser as functions on token sequences. Each function reads from a
// position and gives the tree it builds and the position after it, or
// `None` where the source is rejected.
/// The kind of the token at `p`; `Eof` past the end.
pub open spec fn kind_at(ts: Seq<SpecToken>, p: int) -> TokenKind {
    if 0 <= p < ts.len() {
        ts[p].kind
    } else {
        TokenKind::Eof
    }
}

/// The text of the token at `p`.
pub open spec fn text_at(ts: Seq<SpecToken>, p: int) -> Seq<char> {
    if 0 <= p < ts.len() {
        ts[p].text
    } else {
        Seq::empty()
    }
}

/// The token at `p` has kind `k`; reading goes on after it.
pub open spec fn expect(ts: Seq<SpecToken>, p: int, k: TokenKind) -> Option<int> {
    if kind_at(ts, p) == k {
        Some(p + 1)
    } else {
        None
    }
}

/// Skips a `;` at `p`, if there is one.
pub open spec fn skip_semicolon(ts: Seq<SpecToken>, p: int) -> int {
    if kind_at(ts, p) == TokenKind::Semicolon {
        p + 1
    } else {
        p
    }
}

/// Skips a `,` at `p`, if there is one.
pub open spec fn skip_comma(ts: Seq<SpecToken>, p: int) -> int {
    if kind_at(ts, p) == TokenKind::Comma {
        p + 1
    } else {
        p
    }
}

/// Reading moved forward from `p` to `q` and stayed within the tokens.
pub open spec fn forward(ts: Seq<SpecToken>, p: int, q: int) -> bool {
    p < q <= ts.len()
}

/// `e += v` and the like: `e = e op v`.
pub open spec fn compound(target: SpecHir, op: BinOp, value: SpecHir) -> SpecHir {
    SpecHir::Assign {
        target: Box::new(target),
        value: Box::new(SpecHir::Binary { op, left: Box::new(target), right: Box::new(value) }),
    }
}

/// The literal `1` that `++` and `--` add and subtract.
pub open spec fn one() -> SpecHir {
    SpecHir::Number(seq!['1'])
}

/// A primary expression: a literal, a name with its postfix operations,
/// a parenthesised expression, an array or an object.
pub open spec fn primary(ts: Seq<SpecToken>, p: int) -> Option<(SpecHir, int)>
    decreases ts.len() - p, 1nat,
{
    let k = kind_at(ts, p);
    if k == TokenKind::Eof {
        None
    } else {
        let q = p + 1;
        match k {
            TokenKind::Number => Some((SpecHir::Number(text_at(ts, p)), q)),
            TokenKind::Str => Some((SpecHir::String(text_at(ts, p)), q)),
            TokenKind::Bool(b) => Some((SpecHir::Boolean(b), q)),
            TokenKind::Null => Some((SpecHir::Null, q)),
            TokenKind::Undefined => Some((SpecHir::Undefined, q)),
            TokenKind::Ident => postfix(ts, q, SpecHir::Identifier(text_at(ts, p))),
            TokenKind::LParen => match expr(ts, q) {
                Some((e, r)) => if forward(ts, q, r) {
                    match expect(ts, r, TokenKind::RParen) {
                        Some(s) => Some((e, s)),
                        None => None,
                    }
                } else {
                    None
                },
                None => None,
            },
            TokenKind::LBracket => match elements(ts, q, Seq::empty()) {
                Some((es, r)) => if q <= r <= ts.len() {
                    match expect(ts, r, TokenKind::RBracket) {
                        Some(s) => Some((SpecHir::Array(es), s)),
                        None => None,
                    }
                } else {
                    None
                },
                None => None,
            },
            TokenKind::LBrace => match properties(ts, q, Seq::empty()) {
                Some((ps, r)) => if q <= r <= ts.len() {
                    match expect(ts, r, TokenKind::RBrace) {
                        Some(s) => Some((SpecHir::Object(ps), s)),
                        None => None,
                    }
                } else {
                    None
                },
                None => None,
            },
            _ => None,
        }
    }
}

/// Calls, indexing, member access, `++` and `--` after a name.
pub open spec fn postfix(ts: Seq<SpecToken>, p: int, e: SpecHir) -> Option<(SpecHir, int)>
    decreases ts.len() - p, 0nat,
{
    if p > ts.len() {
        None
    } else {
        let k = kind_at(ts, p);
        let q = p + 1;
        if k == TokenKind::LParen {
            match arguments(ts, q, Seq::empty()) {
                Some((args, r)) => if q <= r <= ts.len() {
                    match expect(ts, r, TokenKind::RParen) {
                        Some(s) => postfix(ts, s, SpecHir::Call { callee: Box::new(e), args }),
                        None => None,
                    }
                } else {
                    None
                },
                None => None,
            }
        } else if k == TokenKind::LBracket {
            match expr(ts, q) {
                Some((i, r)) => if forward(ts, q, r) {
                    match expect(ts, r, TokenKind::RBracket) {
                        Some(s) => postfix(
                            ts,
                            s,
                            SpecHir::Index { object: Box::new(e), index: Box::new(i) },
                        ),
                        None => None,
                    }
                } else {
                    None
                },
                None => None,
            }
        } else if k == TokenKind::Dot {
            if kind_at(ts, q) == TokenKind::Ident {
                postfix(
                    ts,
                    q + 1,
                    SpecHir::Property { object: Box::new(e), name: text_at(ts, q) },
                )
            } else {
                None
            }
        } else if k == TokenKind::PlusPlus {
            postfix(ts, q, compound(e, BinOp::Add, one()))
        } else if k == TokenKind::MinusMinus {
            postfix(ts, q, compound(e, BinOp::Sub, one()))
        } else {
            Some((e, p))
        }
    }
}

/// Call arguments up to `)`: expressions, each optionally followed by `,`.
pub open spec fn arguments(ts: Seq<SpecToken>, p: int, acc: Seq<SpecHir>) -> Option<(Seq<SpecHir>, int)>
    decreases ts.len() - p, 19nat,
{
    if p > ts.len() {
        None
    } else if kind_at(ts, p) == TokenKind::RParen {
        Some((acc, p))
    } else {
        match expr(ts, p) {
            Some((e, r)) => if forward(ts, p, r) {
                arguments(ts, skip_comma(ts, r), acc.push(e))
            } else {
                None
            },
            None => None,
        }
    }
}

/// Array elements up to `]`.
pub open spec fn elements(ts: Seq<SpecToken>, p: int, acc: Seq<SpecHir>) -> Option<(Seq<SpecHir>, int)>
    decreases ts.len() - p, 19nat,
{
    if p > ts.len() {
        None
    } else if kind_at(ts, p) == TokenKind::RBracket {
        Some((acc, p))
    } else {
        match expr(ts, p) {
            Some((e, r)) => if forward(ts, p, r) {
                elements(ts, skip_comma(ts, r), acc.push(e))
            } else {
                None
            },
            None => None,
        }
    }
}

/// Object properties up to `}`: `name: value` or `"name": value`.
pub open spec fn properties(ts: Seq<SpecToken>, p: int, acc: Seq<(Seq<char>, SpecHir)>) -> Option<
    (Seq<(Seq<char>, SpecHir)>, int),
>
    decreases ts.len() - p, 0nat,
{
    if p > ts.len() {
        None
    } else {
        let k = kind_at(ts, p);
        if k == TokenKind::RBrace {
            Some((acc, p))
        } else if k == TokenKind::Ident || k == TokenKind::Str {
            match expect(ts, p + 1, TokenKind::Colon) {
                Some(q) => match expr(ts, q) {
                    Some((v, r)) => if forward(ts, q, r) {
                        properties(ts, skip_comma(ts, r), acc.push((text_at(ts, p), v)))
                    } else {
                        None
                    },
                    None => None,
                },
                None => None,
            }
        } else {
            None
        }
    }
}

/// `typeof`, `!` and unary `-` before an operand.
pub open spec fn unary(ts: Seq<SpecToken>, p: int) -> Option<(SpecHir, int)>
    decreases ts.len() - p, 2nat,
{
    let k = kind_at(ts, p);
    if k == TokenKind::Typeof {
        match unary(ts, p + 1) {
            Some((e, r)) => Some((SpecHir::Typeof(Box::new(e)), r)),
            None => None,
        }
    } else if k == TokenKind::Not {
        match unary(ts, p + 1) {
            Some((e, r)) => Some((SpecHir::Unary { op: UnaryOp::Not, operand: Box::new(e) }, r)),
            None => None,
        }
    } else if k == TokenKind::Minus {
        match unary(ts, p + 1) {
            Some((e, r)) => Some((SpecHir::Unary { op: UnaryOp::Neg, operand: Box::new(e) }, r)),
            None => None,
        }
    } else {
        primary(ts, p)
    }
}

/// The operator of a multiplicative token.
pub open spec fn multiplicative_op(k: TokenKind) -> Option<BinOp> {
    if k == TokenKind::Star {
        Some(BinOp::Mul)
    } else if k == TokenKind::Slash {
        Some(BinOp::Div)
    } else if k == TokenKind::Percent {
        Some(BinOp::Mod)
    } else {
        None
    }
}

/// The operator of an additive token.
pub open spec fn additive_op(k: TokenKind) -> Option<BinOp> {
    if k == TokenKind::Plus {
        Some(BinOp::Add)
    } else if k == TokenKind::Minus {
        Some(BinOp::Sub)
    } else {
        None
    }
}

/// The operator of a comparison token.
pub open spec fn comparison_op(k: TokenKind) -> Option<BinOp> {
    if k == TokenKind::Lt {
        Some(BinOp::Lt)
    } else if k == TokenKind::Le {
        Some(BinOp::Le)
    } else if k == TokenKind::Gt {
        Some(BinOp::Gt)
    } else if k == TokenKind::Ge {
        Some(BinOp::Ge)
    } else {
        None
    }
}

/// The operator of an equality token.
pub open spec fn equality_op(k: TokenKind) -> Option<BinOp> {
    if k == TokenKind::EqEqEq {
        Some(BinOp::Eq)
    } else if k == TokenKind::NotEqEq {
        Some(BinOp::Ne)
    } else {
        None
    }
}

/// The operator of a `&&` token.
pub open spec fn and_op(k: TokenKind) -> Option<BinOp> {
    if k == TokenKind::AndAnd {
        Some(BinOp::And)
    } else {
        None
    }
}

/// The operator of a `||` token.
pub open spec fn or_op(k: TokenKind) -> Option<BinOp> {
    if k == TokenKind::OrOr {
        Some(BinOp::Or)
    } else {
        None
    }
}

/// Binary operator levels, from the tightest.
pub open spec fn level_op(level: nat, k: TokenKind) -> Option<BinOp> {
    if level == 0 {
        multiplicative_op(k)
    } else if level == 1 {
        additive_op(k)
    } else if level == 2 {
        comparison_op(k)
    } else if level == 3 {
        equality_op(k)
    } else if level == 4 {
        and_op(k)
    } else {
        or_op(k)
    }
}

/// An operand of binary level `level` (0 = multiplicative ... 5 = `||`).
pub open spec fn operand(ts: Seq<SpecToken>, p: int, level: nat) -> Option<(SpecHir, int)>
    decreases ts.len() - p, 3 + 2 * level,
{
    if level == 0 || level > 5 {
        unary(ts, p)
    } else {
        binary(ts, p, (level - 1) as nat)
    }
}

/// A left-associative chain of operands joined by the operators of `level`.
pub open spec fn binary(ts: Seq<SpecToken>, p: int, level: nat) -> Option<(SpecHir, int)>
    decreases ts.len() - p, 4 + 2 * level,
{
    if level > 5 {
        None
    } else {
        match operand(ts, p, level) {
            Some((l, r)) => if forward(ts, p, r) {
                binary_rest(ts, r, level, l)
            } else {
                None
            },
            None => None,
        }
    }
}

/// Further `op operand` pairs of `level` after the left operand `left`.
pub open spec fn binary_rest(ts: Seq<SpecToken>, p: int, level: nat, left: SpecHir) -> Option<
    (SpecHir, int),
>
    decreases ts.len() - p, 0nat,
{
    if level > 5 || p > ts.len() {
        None
    } else {
        match level_op(level, kind_at(ts, p)) {
            Some(op) => match operand(ts, p + 1, level) {
                Some((r, s)) => if forward(ts, p + 1, s) {
                    binary_rest(
                        ts,
                        s,
                        level,
                        SpecHir::Binary { op, left: Box::new(left), right: Box::new(r) },
                    )
                } else {
                    None
                },
                None => None,
            },
            None => Some((left, p)),
        }
    }
}

/// `cond ? a : b`, right-associative.
pub open spec fn ternary(ts: Seq<SpecToken>, p: int) -> Option<(SpecHir, int)>
    decreases ts.len() - p, 16nat,
{
    match binary(ts, p, 5) {
        Some((c, r)) => if forward(ts, p, r) {
            if kind_at(ts, r) == TokenKind::Question {
                match expr(ts, r + 1) {
                    Some((a, s)) => if forward(ts, r + 1, s) {
                        match expect(ts, s, TokenKind::Colon) {
                            Some(t) => match ternary(ts, t) {
                                Some((b, u)) => Some(
                                    (
                                        SpecHir::Ternary {
                                            cond: Box::new(c),
                                            then_expr: Box::new(a),
                                            else_expr: Box::new(b),
                                        },
                                        u,
                                    ),
                                ),
                                None => None,
                            },
                            None => None,
                        }
                    } else {
                        None
                    },
                    None => None,
                }
            } else {
                Some((c, r))
            }
        } else {
            None
        },
        None => None,
    }
}

/// The operator that a compound assignment token applies.
pub open spec fn compound_op(k: TokenKind) -> Option<BinOp> {
    if k == TokenKind::PlusAssign {
        Some(BinOp::Add)
    } else if k == TokenKind::MinusAssign {
        Some(BinOp::Sub)
    } else if k == TokenKind::StarAssign {
        Some(BinOp::Mul)
    } else if k == TokenKind::SlashAssign {
        Some(BinOp::Div)
    } else {
        None
    }
}

/// `target = value` and `target op= value`, right-associative.
pub open spec fn assignment(ts: Seq<SpecToken>, p: int) -> Option<(SpecHir, int)>
    decreases ts.len() - p, 17nat,
{
    match ternary(ts, p) {
        Some((l, r)) => if forward(ts, p, r) {
            let k = kind_at(ts, r);
            if k == TokenKind::Assign {
                match assignment(ts, r + 1) {
                    Some((v, s)) => Some(
                        (SpecHir::Assign { target: Box::new(l), value: Box::new(v) }, s),
                    ),
                    None => None,
                }
            } else {
                match compound_op(k) {
                    Some(op) => match assignment(ts, r + 1) {
                        Some((v, s)) => Some((compound(l, op, v), s)),
                        None => None,
                    },
                    None => Some((l, r)),
                }
            }
        } else {
            None
        },
        None => None,
    }
}

/// An expression.
pub open spec fn expr(ts: Seq<SpecToken>, p: int) -> Option<(SpecHir, int)>
    decreases ts.len() - p, 18nat,
{
    assignment(ts, p)
}

/// A statement; `None` for an empty statement `;`.
pub open spec fn stmt(ts: Seq<SpecToken>, p: int) -> Option<(Option<SpecHir>, int)>
    decreases ts.len() - p, 30nat,
{
    let k = kind_at(ts, p);
    if k == TokenKind::Fn {
        some_stmt(function(ts, p))
    } else if k == TokenKind::Let || k == TokenKind::Const {
        some_stmt(var(ts, p))
    } else if k == TokenKind::Return {
        some_stmt(return_stmt(ts, p))
    } else if k == TokenKind::If {
        some_stmt(if_stmt(ts, p))
    } else if k == TokenKind::While {
        some_stmt(while_stmt(ts, p))
    } else if k == TokenKind::For {
        some_stmt(for_stmt(ts, p))
    } else if k == TokenKind::LBrace {
        some_stmt(block(ts, p))
    } else if k == TokenKind::Break {
        Some((Some(SpecHir::Break), skip_semicolon(ts, p + 1)))
    } else if k == TokenKind::Continue {
        Some((Some(SpecHir::Continue), skip_semicolon(ts, p + 1)))
    } else if k == TokenKind::Semicolon {
        Some((None, p + 1))
    } else {
        match expr(ts, p) {
            Some((e, r)) => Some((Some(e), skip_semicolon(ts, r))),
            None => None,
        }
    }
}

/// A parsed statement seen as one that may be absent.
pub open spec fn some_stmt(r: Option<(SpecHir, int)>) -> Option<(Option<SpecHir>, int)> {
    match r {
        Some((e, q)) => Some((Some(e), q)),
        None => None,
    }
}

/// `function name(params) { body }`.
pub open spec fn function(ts: Seq<SpecToken>, p: int) -> Option<(SpecHir, int)>
    decreases ts.len() - p, 25nat,
{
    match expect(ts, p, TokenKind::Fn) {
        Some(p1) => if kind_at(ts, p1) == TokenKind::Ident {
            match expect(ts, p1 + 1, TokenKind::LParen) {
                Some(p3) => match params(ts, p3, Seq::empty()) {
                    Some((ps, p4)) => if p3 <= p4 <= ts.len() {
                        match expect(ts, p4, TokenKind::RParen) {
                            Some(p5) => match block_stmts(ts, p5) {
                                Some((body, p6)) => Some(
                                    (
                                        SpecHir::Function {
                                            name: text_at(ts, p1),
                                            params: ps,
                                            body,
                                        },
                                        p6,
                                    ),
                                ),
                                None => None,
                            },
                            None => None,
                        }
                    } else {
                        None
                    },
                    None => None,
                },
                None => None,
            }
        } else {
            None
        },
        None => None,
    }
}

/// Parameter names up to `)`; tokens that are not names are skipped, a
/// `,` after each is optional. An unclosed list is rejected.
pub open spec fn params(ts: Seq<SpecToken>, p: int, acc: Seq<Seq<char>>) -> Option<
    (Seq<Seq<char>>, int),
>
    decreases ts.len() - p,
{
    let k = kind_at(ts, p);
    if k == TokenKind::RParen {
        Some((acc, p))
    } else if k == TokenKind::Eof {
        None
    } else {
        params(
            ts,
            skip_comma(ts, p + 1),
            if k == TokenKind::Ident {
                acc.push(text_at(ts, p))
            } else {
                acc
            },
        )
    }
}

/// `let name = value;` or `const name = value;`, the value and `;` optional.
pub open spec fn var(ts: Seq<SpecToken>, p: int) -> Option<(SpecHir, int)>
    decreases ts.len() - p, 25nat,
{
    let is_mut = kind_at(ts, p) == TokenKind::Let;
    let p1 = p + 1;
    if kind_at(ts, p1) == TokenKind::Ident {
        let p2 = p1 + 1;
        if kind_at(ts, p2) == TokenKind::Assign {
            match expr(ts, p2 + 1) {
                Some((e, r)) => Some(
                    (
                        SpecHir::Var {
                            name: text_at(ts, p1),
                            init: Some(Box::new(e)),
                            is_mut,
                        },
                        skip_semicolon(ts, r),
                    ),
                ),
                None => None,
            }
        } else {
            Some(
                (
                    SpecHir::Var { name: text_at(ts, p1), init: None, is_mut },
                    skip_semicolon(ts, p2),
                ),
            )
        }
    } else {
        None
    }
}

/// `return value;`, the value and `;` optional.
pub open spec fn return_stmt(ts: Seq<SpecToken>, p: int) -> Option<(SpecHir, int)>
    decreases ts.len() - p, 25nat,
{
    match expect(ts, p, TokenKind::Return) {
        Some(p1) => {
            let k = kind_at(ts, p1);
            if k != TokenKind::Semicolon && k != TokenKind::RBrace {
                match expr(ts, p1) {
                    Some((e, r)) => Some(
                        (SpecHir::Return(Some(Box::new(e))), skip_semicolon(ts, r)),
                    ),
                    None => None,
                }
            } else {
                Some((SpecHir::Return(None), skip_semicolon(ts, p1)))
            }
        },
        None => None,
    }
}

/// `(cond)` after a keyword: the condition and the position after `)`.
pub open spec fn condition(ts: Seq<SpecToken>, p: int) -> Option<(SpecHir, int)>
    decreases ts.len() - p, 20nat,
{
    match expect(ts, p, TokenKind::LParen) {
        Some(p1) => match expr(ts, p1) {
            Some((c, r)) => match expect(ts, r, TokenKind::RParen) {
                Some(s) => Some((c, s)),
                None => None,
            },
            None => None,
        },
        None => None,
    }
}

/// `if (cond) { ... } else { ... }`, the `else` part optional.
pub open spec fn if_stmt(ts: Seq<SpecToken>, p: int) -> Option<(SpecHir, int)>
    decreases ts.len() - p, 25nat,
{
    match expect(ts, p, TokenKind::If) {
        Some(p1) => match condition(ts, p1) {
            Some((c, p2)) => if forward(ts, p1, p2) {
                match block_stmts(ts, p2) {
                    Some((then_body, p3)) => if p2 <= p3 <= ts.len() {
                        if kind_at(ts, p3) == TokenKind::Else {
                            match block_stmts(ts, p3 + 1) {
                                Some((else_body, p4)) => Some(
                                    (
                                        SpecHir::If {
                                            cond: Box::new(c),
                                            then_body,
                                            else_body: Some(else_body),
                                        },
                                        p4,
                                    ),
                                ),
                                None => None,
                            }
                        } else {
                            Some(
                                (SpecHir::If { cond: Box::new(c), then_body, else_body: None }, p3),
                            )
                        }
                    } else {
                        None
                    },
                    None => None,
                }
            } else {
                None
            },
            None => None,
        },
        None => None,
    }
}

/// `while (cond) { ... }`.
pub open spec fn while_stmt(ts: Seq<SpecToken>, p: int) -> Option<(SpecHir, int)>
    decreases ts.len() - p, 25nat,
{
    match expect(ts, p, TokenKind::While) {
        Some(p1) => match condition(ts, p1) {
            Some((c, p2)) => if forward(ts, p1, p2) {
                match block_stmts(ts, p2) {
                    Some((body, p3)) => Some((SpecHir::While { cond: Box::new(c), body }, p3)),
                    None => None,
                }
            } else {
                None
            },
            None => None,
        },
        None => None,
    }
}

/// The initialiser of a `for`: a declaration, an expression with an
/// optional `;`, or nothing before a `;` (which is then consumed).
pub open spec fn for_init(ts: Seq<SpecToken>, p: int) -> Option<(Option<SpecHir>, int)>
    decreases ts.len() - p, 26nat,
{
    let k = kind_at(ts, p);
    if k == TokenKind::Let || k == TokenKind::Const {
        some_stmt(var(ts, p))
    } else if k != TokenKind::Semicolon {
        match expr(ts, p) {
            Some((e, r)) => Some((Some(e), skip_semicolon(ts, r))),
            None => None,
        }
    } else {
        match expect(ts, p, TokenKind::Semicolon) {
            Some(q) => Some((None, q)),
            None => None,
        }
    }
}

/// An optional expression before a token of kind `end`, which is consumed.
pub open spec fn optional_expr(ts: Seq<SpecToken>, p: int, end: TokenKind) -> Option<
    (Option<SpecHir>, int),
>
    decreases ts.len() - p, 26nat,
{
    if kind_at(ts, p) != end {
        match expr(ts, p) {
            Some((e, r)) => match expect(ts, r, end) {
                Some(s) => Some((Some(e), s)),
                None => None,
            },
            None => None,
        }
    } else {
        match expect(ts, p, end) {
            Some(s) => Some((None, s)),
            None => None,
        }
    }
}

/// An optional expression as a boxed tree.
pub open spec fn boxed(e: Option<SpecHir>) -> Option<Box<SpecHir>> {
    match e {
        Some(x) => Some(Box::new(x)),
        None => None,
    }
}

/// `for (init; cond; update) { ... }`, each of the three parts optional.
pub open spec fn for_stmt(ts: Seq<SpecToken>, p: int) -> Option<(SpecHir, int)>
    decreases ts.len() - p, 27nat,
{
    match expect(ts, p, TokenKind::For) {
        Some(p1) => match expect(ts, p1, TokenKind::LParen) {
            Some(p2) => match for_init(ts, p2) {
                Some((init, p3)) => if forward(ts, p2, p3) {
                    match optional_expr(ts, p3, TokenKind::Semicolon) {
                        Some((cond, p4)) => if forward(ts, p3, p4) {
                            match optional_expr(ts, p4, TokenKind::RParen) {
                                Some((update, p5)) => if forward(ts, p4, p5) {
                                    match block_stmts(ts, p5) {
                                        Some((body, p6)) => Some(
                                            (
                                                SpecHir::For {
                                                    init: boxed(init),
                                                    cond: boxed(cond),
                                                    update: boxed(update),
                                                    body,
                                                },
                                                p6,
                                            ),
                                        ),
                                        None => None,
                                    }
                                } else {
                                    None
                                },
                                None => None,
                            }
                        } else {
                            None
                        },
                        None => None,
                    }
                } else {
                    None
                },
                None => None,
            },
            None => None,
        },
        None => None,
    }
}

/// A block statement: `{` then a braced statement list (so `{{ ... }}`).
pub open spec fn block(ts: Seq<SpecToken>, p: int) -> Option<(SpecHir, int)>
    decreases ts.len() - p, 25nat,
{
    match expect(ts, p, TokenKind::LBrace) {
        Some(p1) => match block_stmts(ts, p1) {
            Some((ss, p2)) => Some((SpecHir::Block(ss), p2)),
            None => None,
        },
        None => None,
    }
}

/// `{ statements }`.
pub open spec fn block_stmts(ts: Seq<SpecToken>, p: int) -> Option<(Seq<SpecHir>, int)>
    decreases ts.len() - p, 24nat,
{
    match expect(ts, p, TokenKind::LBrace) {
        Some(p1) => match stmt_list(ts, p1, Seq::empty()) {
            Some((ss, p2)) => if p1 <= p2 <= ts.len() {
                match expect(ts, p2, TokenKind::RBrace) {
                    Some(p3) => Some((ss, p3)),
                    None => None,
                }
            } else {
                None
            },
            None => None,
        },
        None => None,
    }
}

/// Statements up to `}`.
pub open spec fn stmt_list(ts: Seq<SpecToken>, p: int, acc: Seq<SpecHir>) -> Option<
    (Seq<SpecHir>, int),
>
    decreases ts.len() - p, 31nat,
{
    if p > ts.len() {
        None
    } else if kind_at(ts, p) == TokenKind::RBrace {
        Some((acc, p))
    } else {
        match stmt(ts, p) {
            Some((o, r)) => if forward(ts, p, r) {
                stmt_list(
                    ts,
                    r,
                    match o {
                        Some(e) => acc.push(e),
                        None => acc,
                    },
                )
            } else {
                None
            },
            None => None,
        }
    }
}

/// Statements up to the end of the input.
pub open spec fn module_items(ts: Seq<SpecToken>, p: int, acc: Seq<SpecHir>) -> Option<
    (Seq<SpecHir>, int),
>
    decreases ts.len() - p, 31nat,
{
    if p > ts.len() {
        None
    } else if kind_at(ts, p) == TokenKind::Eof {
        Some((acc, p))
    } else {
        match stmt(ts, p) {
            Some((o, r)) => if forward(ts, p, r) {
                module_items(
                    ts,
                    r,
                    match o {
                        Some(e) => acc.push(e),
                        None => acc,
                    },
                )
            } else {
                None
            },
            None => None,
        }
    }
}

/// The statements of a whole token sequence read from position `p`.
pub open spec fn parse_tokens(ts: Seq<SpecToken>, p: int) -> Option<Seq<SpecHir>> {
    match module_items(ts, p, Seq::empty()) {
        Some((items, _)) => Some(items),
        None => None,
    }
}

/// Each binary operator token gives the operator of the same meaning, at
/// its own precedence level (from the tightest: `* / %`, `+ -`,
/// `< <= > >=`, `=== !==`, `&&`, `||`), and no other token is a binary
/// operator at any level.
pub proof fn law_operator_tokens(level: nat, k: TokenKind)
    ensures
        level_op(0, TokenKind::Star) == Some(crate::hir::BinOp::Mul),
        level_op(0, TokenKind::Slash) == Some(crate::hir::BinOp::Div),
        level_op(0, TokenKind::Percent) == Some(crate::hir::BinOp::Mod),
        level_op(1, TokenKind::Plus) == Some(crate::hir::BinOp::Add),
        level_op(1, TokenKind::Minus) == Some(crate::hir::BinOp::Sub),
        level_op(2, TokenKind::Lt) == Some(crate::hir::BinOp::Lt),
        level_op(2, TokenKind::Le) == Some(crate::hir::BinOp::Le),
        level_op(2, TokenKind::Gt) == Some(crate::hir::BinOp::Gt),
        level_op(2, TokenKind::Ge) == Some(crate::hir::BinOp::Ge),
        level_op(3, TokenKind::EqEqEq) == Some(crate::hir::BinOp::Eq),
        level_op(3, TokenKind::NotEqEq) == Some(crate::hir::BinOp::Ne),
        level_op(4, TokenKind::AndAnd) == Some(crate::hir::BinOp::And),
        level_op(5, TokenKind::OrOr) == Some(crate::hir::BinOp::Or),
        level_op(level, k) is Some ==> (level == 0 && (k == TokenKind::Star || k == TokenKind::Slash
            || k == TokenKind::Percent)) || (level == 1 && (k == TokenKind::Plus || k
            == TokenKind::Minus)) || (level == 2 && (k == TokenKind::Lt || k == TokenKind::Le || k
            == TokenKind::Gt || k == TokenKind::Ge)) || (level == 3 && (k == TokenKind::EqEqEq || k
            == TokenKind::NotEqEq)) || (level == 4 && k == TokenKind::AndAnd) || (level >= 5 && k
            == TokenKind::OrOr),
{
}

/// An operator token followed by an operand joins the tree read so far and
/// that operand under the token's operator, and the chain goes on after
/// the operand.
pub proof fn law_operator_joins(
    ts: Seq<SpecToken>,
    p: int,
    level: nat,
    left: SpecHir,
    right: SpecHir,
    after: int,
)
    requires
        level <= 5,
        p <= ts.len(),
        level_op(level, kind_at(ts, p)) is Some,
        operand(ts, p + 1, level) == Some((right, after)),
        forward(ts, p + 1, after),
    ensures
        binary_rest(ts, p, level, left) == binary_rest(
            ts,
            after,
            level,
            SpecHir::Binary {
                op: level_op(level, kind_at(ts, p))->0,
                left: Box::new(left),
                right: Box::new(right),
            },
        ),
{
}

} // verus!
