use crate::hir::{lemma_list_view_empty, lemma_list_view_push, lemma_pairs_view_push, names_view, BinOp, HirExpr, SpecHir, UnaryOp};
use crate::parse_model::{
    assignment, binary, binary_rest, block, block_stmts, condition, expect, expr, for_init,
    for_stmt, function, if_stmt, kind_at, level_op, module_items, operand, optional_expr, params,
    parse_tokens, postfix, primary, return_stmt, stmt, stmt_list, ternary, text_at, unary, var,
    while_stmt, arguments, elements, properties, skip_comma, skip_semicolon, compound, compound_op,
    one, forward, some_stmt, boxed,
};
use crate::text::{chars_of, str_eq, string_of};
use vstd::prelude::*;

verus! {

/// What a token is; names, numbers and strings carry their text beside it.
#[derive(Debug, Clone, Copy, PartialEq, Eq, Structural)]
pub enum TokenKind {
    Fn,
    Let,
    Const,
    If,
    Else,
    While,
    For,
    Return,
    Typeof,
    Break,
    Continue,
    Ident,
    Number,
    Str,
    Bool(bool),
    Null,
    Undefined,
    LParen,
    RParen,
    LBrace,
    RBrace,
    LBracket,
    RBracket,
    Plus,
    Minus,
    Star,
    Slash,
    Percent,
    EqEqEq,
    NotEqEq,
    Lt,
    Le,
    Gt,
    Ge,
    AndAnd,
    OrOr,
    Not,
    Assign,
    PlusAssign,
    MinusAssign,
    StarAssign,
    SlashAssign,
    PlusPlus,
    MinusMinus,
    Question,
    Comma,
    Semicolon,
    Colon,
    Dot,
    Eof,
}

/// A token: its kind and, for names, numbers and strings, its text
/// (empty for the other kinds).
pub struct Token {
    pub kind: TokenKind,
    pub text: String,
}

/// The mathematical form of a token.
pub ghost struct SpecToken {
    pub kind: TokenKind,
    pub text: Seq<char>,
}

impl Token {
    pub open spec fn view(self) -> SpecToken {
        SpecToken { kind: self.kind, text: self.text@ }
    }
}

/// The views of a list of tokens.
pub open spec fn tokens_view(v: Seq<Token>) -> Seq<SpecToken> {
    v.map_values(|t: Token| t@)
}

/// Whether a character is alphabetic or numeric in the Unicode sense
/// (`char::is_alphanumeric`).
pub uninterp spec fn char_alnum(c: char) -> bool;

/// `char::is_alphanumeric`: the contract names its result and adds only what
/// the documentation plainly gives, that among ASCII characters exactly the
/// letters and digits are alphanumeric (the Unicode Alphabetic and Numeric
/// properties beyond ASCII are not restated).
#[verifier::external_body]
fn is_alphanumeric(c: char) -> (b: bool)
    ensures
        b == char_alnum(c),
        c <= '\x7F' ==> (b <==> (('a' <= c && c <= 'z') || ('A' <= c && c <= 'Z') || ('0' <= c
            && c <= '9'))),
{
    c.is_alphanumeric()
}

/// A character that continues a name.
pub open spec fn is_ident_char(c: char) -> bool {
    char_alnum(c) || c == '_'
}

/// A character that continues a number literal.
pub open spec fn is_number_char(c: char) -> bool {
    ('0' <= c && c <= '9') || c == '.'
}

/// The first position at or after `j` whose character fails `f`, or the end.
pub open spec fn scan_while(s: Seq<char>, j: int, f: spec_fn(char) -> bool) -> int
    decreases s.len() - j,
{
    if j < 0 || j >= s.len() || !f(s[j]) {
        j
    } else {
        scan_while(s, j + 1, f)
    }
}

/// Characters that continue a name.
pub open spec fn ident_pred() -> spec_fn(char) -> bool {
    |c: char| is_ident_char(c)
}

/// Characters that continue a number literal.
pub open spec fn number_pred() -> spec_fn(char) -> bool {
    |c: char| is_number_char(c)
}

/// Characters other than `q`.
pub open spec fn other_than(q: char) -> spec_fn(char) -> bool {
    |c: char| c != q
}

/// Where a `//` comment whose text starts at `j` ends: after its newline.
pub open spec fn line_comment_end(s: Seq<char>, j: int) -> int {
    let k = scan_while(s, j, other_than('\n'));
    if k < s.len() {
        k + 1
    } else {
        k
    }
}

/// Where a `/*` comment whose text starts at `j` ends: after the first `*/`.
pub open spec fn block_comment_end(s: Seq<char>, j: int) -> int
    decreases s.len() - j,
{
    if j < 0 || j >= s.len() {
        j
    } else if s[j] == '*' && j + 1 < s.len() && s[j + 1] == '/' {
        j + 2
    } else {
        block_comment_end(s, j + 1)
    }
}

/// The token kind of a word: a keyword or a name.
pub open spec fn word_kind(w: Seq<char>) -> TokenKind {
    if w == "function"@ {
        TokenKind::Fn
    } else if w == "let"@ {
        TokenKind::Let
    } else if w == "const"@ {
        TokenKind::Const
    } else if w == "if"@ {
        TokenKind::If
    } else if w == "else"@ {
        TokenKind::Else
    } else if w == "while"@ {
        TokenKind::While
    } else if w == "for"@ {
        TokenKind::For
    } else if w == "return"@ {
        TokenKind::Return
    } else if w == "typeof"@ {
        TokenKind::Typeof
    } else if w == "break"@ {
        TokenKind::Break
    } else if w == "continue"@ {
        TokenKind::Continue
    } else if w == "true"@ {
        TokenKind::Bool(true)
    } else if w == "false"@ {
        TokenKind::Bool(false)
    } else if w == "null"@ {
        TokenKind::Null
    } else if w == "undefined"@ {
        TokenKind::Undefined
    } else {
        TokenKind::Ident
    }
}

/// A token without text.
pub open spec fn bare(kind: TokenKind) -> Option<SpecToken> {
    Some(SpecToken { kind, text: Seq::empty() })
}

/// The token (if any) read at position `i`, and where reading goes on.
pub open spec fn lex_step(s: Seq<char>, i: int) -> (Option<SpecToken>, int) {
    let c = s[i];
    let n1: Option<char> = if i + 1 < s.len() { Some(s[i + 1]) } else { None };
    let n2: Option<char> = if i + 2 < s.len() { Some(s[i + 2]) } else { None };
    if c == ' ' || c == '\t' || c == '\n' || c == '\r' {
        (None, i + 1)
    } else if c == '(' {
        (bare(TokenKind::LParen), i + 1)
    } else if c == ')' {
        (bare(TokenKind::RParen), i + 1)
    } else if c == '{' {
        (bare(TokenKind::LBrace), i + 1)
    } else if c == '}' {
        (bare(TokenKind::RBrace), i + 1)
    } else if c == '[' {
        (bare(TokenKind::LBracket), i + 1)
    } else if c == ']' {
        (bare(TokenKind::RBracket), i + 1)
    } else if c == ',' {
        (bare(TokenKind::Comma), i + 1)
    } else if c == ';' {
        (bare(TokenKind::Semicolon), i + 1)
    } else if c == ':' {
        (bare(TokenKind::Colon), i + 1)
    } else if c == '.' {
        (bare(TokenKind::Dot), i + 1)
    } else if c == '+' {
        if n1 == Some('=') {
            (bare(TokenKind::PlusAssign), i + 2)
        } else if n1 == Some('+') {
            (bare(TokenKind::PlusPlus), i + 2)
        } else {
            (bare(TokenKind::Plus), i + 1)
        }
    } else if c == '-' {
        if n1 == Some('=') {
            (bare(TokenKind::MinusAssign), i + 2)
        } else if n1 == Some('-') {
            (bare(TokenKind::MinusMinus), i + 2)
        } else {
            (bare(TokenKind::Minus), i + 1)
        }
    } else if c == '*' {
        if n1 == Some('=') {
            (bare(TokenKind::StarAssign), i + 2)
        } else {
            (bare(TokenKind::Star), i + 1)
        }
    } else if c == '/' {
        if n1 == Some('=') {
            (bare(TokenKind::SlashAssign), i + 2)
        } else if n1 == Some('/') {
            (None, line_comment_end(s, i + 1))
        } else if n1 == Some('*') {
            (None, block_comment_end(s, i + 2))
        } else {
            (bare(TokenKind::Slash), i + 1)
        }
    } else if c == '%' {
        (bare(TokenKind::Percent), i + 1)
    } else if c == '=' {
        if n1 == Some('=') {
            (bare(TokenKind::EqEqEq), if n2 == Some('=') { i + 3 } else { i + 2 })
        } else {
            (bare(TokenKind::Assign), i + 1)
        }
    } else if c == '!' {
        if n1 == Some('=') {
            (bare(TokenKind::NotEqEq), if n2 == Some('=') { i + 3 } else { i + 2 })
        } else {
            (bare(TokenKind::Not), i + 1)
        }
    } else if c == '<' {
        if n1 == Some('=') {
            (bare(TokenKind::Le), i + 2)
        } else {
            (bare(TokenKind::Lt), i + 1)
        }
    } else if c == '>' {
        if n1 == Some('=') {
            (bare(TokenKind::Ge), i + 2)
        } else {
            (bare(TokenKind::Gt), i + 1)
        }
    } else if c == '&' {
        if n1 == Some('&') {
            (bare(TokenKind::AndAnd), i + 2)
        } else {
            (None, i + 1)
        }
    } else if c == '|' {
        if n1 == Some('|') {
            (bare(TokenKind::OrOr), i + 2)
        } else {
            (None, i + 1)
        }
    } else if c == '?' {
        (bare(TokenKind::Question), i + 1)
    } else if c == '"' || c == '\'' {
        let k = scan_while(s, i + 1, other_than(c));
        (
            Some(SpecToken { kind: TokenKind::Str, text: s.subrange(i + 1, k) }),
            if k < s.len() { k + 1 } else { k },
        )
    } else if '0' <= c && c <= '9' {
        let k = scan_while(s, i, number_pred());
        (Some(SpecToken { kind: TokenKind::Number, text: s.subrange(i, k) }), k)
    } else if ('a' <= c && c <= 'z') || ('A' <= c && c <= 'Z') || c == '_' {
        let k = scan_while(s, i, ident_pred());
        let w = s.subrange(i, k);
        let kind = word_kind(w);
        (
            Some(SpecToken { kind, text: if kind == TokenKind::Ident { w } else { Seq::empty() } }),
            k,
        )
    } else {
        (None, i + 1)
    }
}

/// The keywords read as their own tokens: `function`, `let`, `const`,
/// `if`, `else`, `while`, `for`, `return`, `typeof`, `break`, `continue`,
/// the two booleans, `null` and `undefined`.
pub proof fn law_keywords()
    ensures
        word_kind("function"@) == TokenKind::Fn,
        word_kind("let"@) == TokenKind::Let,
        word_kind("const"@) == TokenKind::Const,
        word_kind("if"@) == TokenKind::If,
        word_kind("else"@) == TokenKind::Else,
        word_kind("while"@) == TokenKind::While,
        word_kind("for"@) == TokenKind::For,
        word_kind("return"@) == TokenKind::Return,
        word_kind("typeof"@) == TokenKind::Typeof,
        word_kind("break"@) == TokenKind::Break,
        word_kind("continue"@) == TokenKind::Continue,
        word_kind("true"@) == TokenKind::Bool(true),
        word_kind("false"@) == TokenKind::Bool(false),
        word_kind("null"@) == TokenKind::Null,
        word_kind("undefined"@) == TokenKind::Undefined,
{
    reveal_strlit("function");
    reveal_strlit("let");
    reveal_strlit("const");
    reveal_strlit("if");
    reveal_strlit("else");
    reveal_strlit("while");
    reveal_strlit("for");
    reveal_strlit("return");
    reveal_strlit("typeof");
    reveal_strlit("break");
    reveal_strlit("continue");
    reveal_strlit("true");
    reveal_strlit("false");
    reveal_strlit("null");
    reveal_strlit("undefined");
    assert("function"@.len() == 8);
    assert("let"@.len() == 3);
    assert("const"@.len() == 5);
    assert("if"@.len() == 2);
    assert("else"@.len() == 4);
    assert("while"@.len() == 5);
    assert("for"@.len() == 3);
    assert("return"@.len() == 6);
    assert("typeof"@.len() == 6);
    assert("break"@.len() == 5);
    assert("continue"@.len() == 8);
    assert("true"@.len() == 4);
    assert("false"@.len() == 5);
    assert("null"@.len() == 4);
    assert("undefined"@.len() == 9);
    assert("while"@[0] == 'w' && "const"@[0] == 'c');
    assert("for"@[0] == 'f' && "let"@[0] == 'l');
    assert("typeof"@[0] == 't' && "return"@[0] == 'r');
    assert("break"@[0] == 'b' && "const"@[0] == 'c');
    assert("break"@[0] == 'b' && "while"@[0] == 'w');
    assert("continue"@[0] == 'c' && "function"@[0] == 'f');
    assert("true"@[0] == 't' && "else"@[0] == 'e');
    assert("false"@[0] == 'f' && "const"@[0] == 'c');
    assert("false"@[0] == 'f' && "while"@[0] == 'w');
    assert("false"@[0] == 'f' && "break"@[0] == 'b');
    assert("null"@[0] == 'n' && "else"@[0] == 'e');
    assert("null"@[0] == 'n' && "true"@[0] == 't');
}

/// The operator characters read as the tokens of the same meaning: `<=`
/// and `>=` as two-character tokens, `<` and `>` alone otherwise, `==` or
/// `===` as strict equality, `!=` or `!==` as strict inequality, `&&`,
/// `||`, and `*`, `%`, `/`, `+`, `-` where no `=` (or a repeated sign, or a
/// comment opener) follows.
pub proof fn law_operator_chars(s: Seq<char>, i: int)
    requires
        0 <= i < s.len(),
    ensures
        ({
            let next = if i + 1 < s.len() { Some(s[i + 1]) } else { None };
            let after = if i + 2 < s.len() { Some(s[i + 2]) } else { None };
            &&& s[i] == '<' && next == Some('=') ==> lex_step(s, i) == (bare(TokenKind::Le), i + 2)
            &&& s[i] == '<' && next != Some('=') ==> lex_step(s, i) == (bare(TokenKind::Lt), i + 1)
            &&& s[i] == '>' && next == Some('=') ==> lex_step(s, i) == (bare(TokenKind::Ge), i + 2)
            &&& s[i] == '>' && next != Some('=') ==> lex_step(s, i) == (bare(TokenKind::Gt), i + 1)
            &&& s[i] == '=' && next == Some('=') ==> lex_step(s, i) == (
                bare(TokenKind::EqEqEq),
                if after == Some('=') { i + 3 } else { i + 2 },
            )
            &&& s[i] == '!' && next == Some('=') ==> lex_step(s, i) == (
                bare(TokenKind::NotEqEq),
                if after == Some('=') { i + 3 } else { i + 2 },
            )
            &&& s[i] == '&' && next == Some('&') ==> lex_step(s, i) == (bare(TokenKind::AndAnd), i + 2)
            &&& s[i] == '|' && next == Some('|') ==> lex_step(s, i) == (bare(TokenKind::OrOr), i + 2)
            &&& s[i] == '*' && next != Some('=') ==> lex_step(s, i) == (bare(TokenKind::Star), i + 1)
            &&& s[i] == '%' ==> lex_step(s, i) == (bare(TokenKind::Percent), i + 1)
            &&& s[i] == '/' && next != Some('=') && next != Some('/') && next != Some('*')
                ==> lex_step(s, i) == (bare(TokenKind::Slash), i + 1)
            &&& s[i] == '+' && next != Some('=') && next != Some('+') ==> lex_step(s, i) == (
                bare(TokenKind::Plus),
                i + 1,
            )
            &&& s[i] == '-' && next != Some('=') && next != Some('-') ==> lex_step(s, i) == (
                bare(TokenKind::Minus),
                i + 1,
            )
        }),
{
}

/// The tokens of `s` from position `i` on, ending with `Eof`.
pub open spec fn tokens_from(s: Seq<char>, i: int) -> Seq<SpecToken>
    decreases s.len() - i,
{
    if i < 0 || i >= s.len() {
        seq![SpecToken { kind: TokenKind::Eof, text: Seq::empty() }]
    } else {
        let (t, j) = lex_step(s, i);
        if j <= i || j > s.len() {
            seq![SpecToken { kind: TokenKind::Eof, text: Seq::empty() }]
        } else {
            match t {
                Some(tok) => seq![tok] + tokens_from(s, j),
                None => tokens_from(s, j),
            }
        }
    }
}

/// The tokens of a source text, ending with `Eof`.
pub open spec fn spec_tokenize(s: Seq<char>) -> Seq<SpecToken> {
    tokens_from(s, 0)
}

/// The view of an optional token.
pub open spec fn opt_token_view(t: Option<Token>) -> Option<SpecToken> {
    match t {
        Some(tok) => Some(tok@),
        None => None,
    }
}

/// The characters `cs[from..to]`.
fn slice_chars(cs: &Vec<char>, from: usize, to: usize) -> (r: Vec<char>)
    requires
        from <= to <= cs@.len(),
    ensures
        r@ == cs@.subrange(from as int, to as int),
{
    let mut out: Vec<char> = Vec::new();
    let mut k = from;
    while k < to
        invariant
            from <= k <= to <= cs@.len(),
            out@ == cs@.subrange(from as int, k as int),
        decreases to - k,
    {
        out.push(cs[k]);
        k = k + 1;
        assert(out@ =~= cs@.subrange(from as int, k as int));
    }
    out
}

fn scan_ident(cs: &Vec<char>, j: usize) -> (k: usize)
    requires
        j <= cs@.len(),
    ensures
        k == scan_while(cs@, j as int, ident_pred()),
        j <= k <= cs@.len(),
{
    let mut k = j;
    while k < cs.len() && (is_alphanumeric(cs[k]) || cs[k] == '_')
        invariant
            j <= k <= cs@.len(),
            scan_while(cs@, j as int, ident_pred()) == scan_while(cs@, k as int, ident_pred()),
        decreases cs@.len() - k,
    {
        k = k + 1;
    }
    k
}

fn scan_number(cs: &Vec<char>, j: usize) -> (k: usize)
    requires
        j <= cs@.len(),
    ensures
        k == scan_while(cs@, j as int, number_pred()),
        j <= k <= cs@.len(),
{
    let mut k = j;
    while k < cs.len() && (('0' <= cs[k] && cs[k] <= '9') || cs[k] == '.')
        invariant
            j <= k <= cs@.len(),
            scan_while(cs@, j as int, number_pred()) == scan_while(cs@, k as int, number_pred()),
        decreases cs@.len() - k,
    {
        k = k + 1;
    }
    k
}

fn scan_until(cs: &Vec<char>, j: usize, stop: char) -> (k: usize)
    requires
        j <= cs@.len(),
    ensures
        k == scan_while(cs@, j as int, other_than(stop)),
        j <= k <= cs@.len(),
{
    let mut k = j;
    while k < cs.len() && cs[k] != stop
        invariant
            j <= k <= cs@.len(),
            scan_while(cs@, j as int, other_than(stop)) == scan_while(
                cs@,
                k as int,
                other_than(stop),
            ),
        decreases cs@.len() - k,
    {
        k = k + 1;
    }
    k
}

fn scan_block_comment(cs: &Vec<char>, j: usize) -> (k: usize)
    requires
        j <= cs@.len(),
    ensures
        k == block_comment_end(cs@, j as int),
        j <= k <= cs@.len(),
{
    let mut k = j;
    while k < cs.len()
        invariant
            j <= k <= cs@.len(),
            block_comment_end(cs@, j as int) == block_comment_end(cs@, k as int),
        decreases cs@.len() - k,
    {
        if cs[k] == '*' && k + 1 < cs.len() && cs[k + 1] == '/' {
            return k + 2;
        }
        k = k + 1;
    }
    k
}

/// The token kind of a word, with the text kept only for a name.
fn word_token(w: String) -> (t: Token)
    ensures
        t.kind == word_kind(w@),
        t.text@ == (if t.kind == TokenKind::Ident { w@ } else { Seq::empty() }),
{
    let kind = if str_eq(w.as_str(), "function") {
        TokenKind::Fn
    } else if str_eq(w.as_str(), "let") {
        TokenKind::Let
    } else if str_eq(w.as_str(), "const") {
        TokenKind::Const
    } else if str_eq(w.as_str(), "if") {
        TokenKind::If
    } else if str_eq(w.as_str(), "else") {
        TokenKind::Else
    } else if str_eq(w.as_str(), "while") {
        TokenKind::While
    } else if str_eq(w.as_str(), "for") {
        TokenKind::For
    } else if str_eq(w.as_str(), "return") {
        TokenKind::Return
    } else if str_eq(w.as_str(), "typeof") {
        TokenKind::Typeof
    } else if str_eq(w.as_str(), "break") {
        TokenKind::Break
    } else if str_eq(w.as_str(), "continue") {
        TokenKind::Continue
    } else if str_eq(w.as_str(), "true") {
        TokenKind::Bool(true)
    } else if str_eq(w.as_str(), "false") {
        TokenKind::Bool(false)
    } else if str_eq(w.as_str(), "null") {
        TokenKind::Null
    } else if str_eq(w.as_str(), "undefined") {
        TokenKind::Undefined
    } else {
        TokenKind::Ident
    };
    match kind {
        TokenKind::Ident => Token { kind, text: w },
        _ => Token { kind, text: String::new() },
    }
}

fn bare_token(kind: TokenKind) -> (t: Option<Token>)
    ensures
        opt_token_view(t) == bare(kind),
{
    Some(Token { kind, text: String::new() })
}

/// The token (if any) read at position `i`, and where reading goes on.
fn lex_at(cs: &Vec<char>, i: usize) -> (r: (Option<Token>, usize))
    requires
        i < cs@.len(),
    ensures
        opt_token_view(r.0) == lex_step(cs@, i as int).0,
        r.1 == lex_step(cs@, i as int).1,
        i < r.1 <= cs@.len(),
{
    let c = cs[i];
    let n = cs.len();
    let n1: Option<char> = if i + 1 < n { Some(cs[i + 1]) } else { None };
    let n2: Option<char> = if i + 1 < n && i + 2 < n { Some(cs[i + 2]) } else { None };
    if c == ' ' || c == '\t' || c == '\n' || c == '\r' {
        (None, i + 1)
    } else if c == '(' {
        (bare_token(TokenKind::LParen), i + 1)
    } else if c == ')' {
        (bare_token(TokenKind::RParen), i + 1)
    } else if c == '{' {
        (bare_token(TokenKind::LBrace), i + 1)
    } else if c == '}' {
        (bare_token(TokenKind::RBrace), i + 1)
    } else if c == '[' {
        (bare_token(TokenKind::LBracket), i + 1)
    } else if c == ']' {
        (bare_token(TokenKind::RBracket), i + 1)
    } else if c == ',' {
        (bare_token(TokenKind::Comma), i + 1)
    } else if c == ';' {
        (bare_token(TokenKind::Semicolon), i + 1)
    } else if c == ':' {
        (bare_token(TokenKind::Colon), i + 1)
    } else if c == '.' {
        (bare_token(TokenKind::Dot), i + 1)
    } else if c == '+' {
        if n1 == Some('=') {
            (bare_token(TokenKind::PlusAssign), i + 2)
        } else if n1 == Some('+') {
            (bare_token(TokenKind::PlusPlus), i + 2)
        } else {
            (bare_token(TokenKind::Plus), i + 1)
        }
    } else if c == '-' {
        if n1 == Some('=') {
            (bare_token(TokenKind::MinusAssign), i + 2)
        } else if n1 == Some('-') {
            (bare_token(TokenKind::MinusMinus), i + 2)
        } else {
            (bare_token(TokenKind::Minus), i + 1)
        }
    } else if c == '*' {
        if n1 == Some('=') {
            (bare_token(TokenKind::StarAssign), i + 2)
        } else {
            (bare_token(TokenKind::Star), i + 1)
        }
    } else if c == '/' {
        if n1 == Some('=') {
            (bare_token(TokenKind::SlashAssign), i + 2)
        } else if n1 == Some('/') {
            let k = scan_until(cs, i + 1, '\n');
            (None, if k < n { k + 1 } else { k })
        } else if n1 == Some('*') {
            (None, scan_block_comment(cs, i + 2))
        } else {
            (bare_token(TokenKind::Slash), i + 1)
        }
    } else if c == '%' {
        (bare_token(TokenKind::Percent), i + 1)
    } else if c == '=' {
        if n1 == Some('=') {
            (bare_token(TokenKind::EqEqEq), if n2 == Some('=') { i + 3 } else { i + 2 })
        } else {
            (bare_token(TokenKind::Assign), i + 1)
        }
    } else if c == '!' {
        if n1 == Some('=') {
            (bare_token(TokenKind::NotEqEq), if n2 == Some('=') { i + 3 } else { i + 2 })
        } else {
            (bare_token(TokenKind::Not), i + 1)
        }
    } else if c == '<' {
        if n1 == Some('=') {
            (bare_token(TokenKind::Le), i + 2)
        } else {
            (bare_token(TokenKind::Lt), i + 1)
        }
    } else if c == '>' {
        if n1 == Some('=') {
            (bare_token(TokenKind::Ge), i + 2)
        } else {
            (bare_token(TokenKind::Gt), i + 1)
        }
    } else if c == '&' {
        if n1 == Some('&') {
            (bare_token(TokenKind::AndAnd), i + 2)
        } else {
            (None, i + 1)
        }
    } else if c == '|' {
        if n1 == Some('|') {
            (bare_token(TokenKind::OrOr), i + 2)
        } else {
            (None, i + 1)
        }
    } else if c == '?' {
        (bare_token(TokenKind::Question), i + 1)
    } else if c == '"' || c == '\'' {
        let k = scan_until(cs, i + 1, c);
        let text = string_of(&slice_chars(cs, i + 1, k));
        (Some(Token { kind: TokenKind::Str, text }), if k < n { k + 1 } else { k })
    } else if '0' <= c && c <= '9' {
        let k = scan_number(cs, i + 1);
        let text = string_of(&slice_chars(cs, i, k));
        (Some(Token { kind: TokenKind::Number, text }), k)
    } else if ('a' <= c && c <= 'z') || ('A' <= c && c <= 'Z') || c == '_' {
        let k = if c == '_' || is_alphanumeric(c) {
            scan_ident(cs, i + 1)
        } else {
            i
        };
        let w = string_of(&slice_chars(cs, i, k));
        (Some(word_token(w)), k)
    } else {
        (None, i + 1)
    }
}

/// Splits a source text into tokens; the last token is `Eof`.
pub fn tokenize(source: &str) -> (r: Vec<Token>)
    ensures
        tokens_view(r@) == spec_tokenize(source@),
{
    let cs = chars_of(source);
    let mut tokens: Vec<Token> = Vec::new();
    let mut i: usize = 0;
    while i < cs.len()
        invariant
            i <= cs@.len(),
            cs@ == source@,
            tokens_view(tokens@) + tokens_from(cs@, i as int) == spec_tokenize(cs@),
        decreases cs@.len() - i,
    {
        let (t, j) = lex_at(&cs, i);
        let ghost before = tokens_view(tokens@);
        match t {
            Some(tok) => {
                tokens.push(tok);
                assert(tokens_view(tokens@) =~= before.push(tok@));
                assert(before + tokens_from(cs@, i as int) =~= tokens_view(tokens@) + tokens_from(
                    cs@,
                    j as int,
                ));
            },
            None => {},
        }
        i = j;
    }
    let ghost before = tokens_view(tokens@);
    tokens.push(Token { kind: TokenKind::Eof, text: String::new() });
    assert(tokens_view(tokens@) =~= before + tokens_from(cs@, i as int));
    tokens
}

/// Only the last token is `Eof`, and there is one.
pub open spec fn eof_terminated(ts: Seq<SpecToken>) -> bool {
    &&& ts.len() > 0
    &&& ts.last().kind == TokenKind::Eof
    &&& forall|i: int| 0 <= i < ts.len() - 1 ==> #[trigger] ts[i].kind != TokenKind::Eof
}

pub proof fn lemma_lex_step_not_eof(s: Seq<char>, i: int)
    requires
        0 <= i < s.len(),
    ensures
        lex_step(s, i).0 matches Some(t) ==> t.kind != TokenKind::Eof,
{
}

pub proof fn lemma_tokens_eof_terminated(s: Seq<char>, i: int)
    ensures
        eof_terminated(tokens_from(s, i)),
    decreases s.len() - i,
{
    if 0 <= i < s.len() {
        let (t, j) = lex_step(s, i);
        if j > i && j <= s.len() {
            lemma_tokens_eof_terminated(s, j);
            lemma_lex_step_not_eof(s, i);
            let rest = tokens_from(s, j);
            if let Some(tok) = t {
                let all = seq![tok] + rest;
                assert forall|k: int| 0 <= k < all.len() - 1 implies #[trigger] all[k].kind
                    != TokenKind::Eof by {
                    if k > 0 {
                        assert(all[k] == rest[k - 1]);
                    }
                }
            }
        }
    }
}

/// Why a source text was rejected.
#[derive(Debug, Clone, Copy, PartialEq, Eq, Structural)]
pub enum ParseError {
    /// A token of one kind was required and another was found.
    Expected(TokenKind, TokenKind),
    /// `function` is not followed by a name.
    ExpectedFunctionName,
    /// `let` or `const` is not followed by a name.
    ExpectedVariableName,
    /// `.` is not followed by a name.
    ExpectedPropertyName,
    /// An object literal holds something other than `name: value`.
    ExpectedObjectKey,
    /// A token that cannot start an expression.
    UnexpectedToken(TokenKind),
    /// The input ends inside a parameter list.
    UnclosedParameters,
}

/// A recursive-descent parser over the tokens of one source text.
pub struct Parser {
    tokens: Vec<Token>,
    pos: usize,
}

/// The parser read one tree from `old`: the result and the position
/// reached agree with `model`, and reading went forward.
pub open spec fn parsed_one(old: Parser, new: Parser, model: Option<(SpecHir, int)>, r: Result<HirExpr, ParseError>) -> bool {
    &&& new.wf()
    &&& new.tokens_spec() == old.tokens_spec()
    &&& new.position() >= old.position()
    &&& match r {
        Ok(e) => model == Some((e.view(), new.position())) && new.position() > old.position(),
        Err(_) => model is None,
    }
}

/// The view of an optional statement.
pub open spec fn opt_hir_view(o: Option<HirExpr>) -> Option<SpecHir> {
    match o {
        Some(e) => Some(e.view()),
        None => None,
    }
}

/// As `parsed_one`, for a statement that may be empty.
pub open spec fn parsed_stmt(old: Parser, new: Parser, model: Option<(Option<SpecHir>, int)>, r: Result<Option<HirExpr>, ParseError>) -> bool {
    &&& new.wf()
    &&& new.tokens_spec() == old.tokens_spec()
    &&& new.position() >= old.position()
    &&& match r {
        Ok(o) => model == Some((opt_hir_view(o), new.position())) && new.position()
            > old.position(),
        Err(_) => model is None,
    }
}

/// As `parsed_one`, for a list of statements.
pub open spec fn parsed_list(old: Parser, new: Parser, model: Option<(Seq<SpecHir>, int)>, r: Result<Vec<HirExpr>, ParseError>) -> bool {
    &&& new.wf()
    &&& new.tokens_spec() == old.tokens_spec()
    &&& new.position() >= old.position()
    &&& match r {
        Ok(v) => model == Some((HirExpr::list_view(v), new.position())) && new.position()
            > old.position(),
        Err(_) => model is None,
    }
}

impl Parser {
    /// The tokens, as read by the tokenizer.
    pub closed spec fn tokens_spec(&self) -> Seq<SpecToken> {
        tokens_view(self.tokens@)
    }

    /// The position of the next token to read.
    pub closed spec fn position(&self) -> int {
        self.pos as int
    }

    /// The tokens end with their only `Eof`, and the position is on a token.
    pub closed spec fn wf(&self) -> bool {
        &&& eof_terminated(self.tokens_spec())
        &&& self.pos < self.tokens@.len()
    }

    /// A parser at the first token of `source`.
    pub fn new(source: &str) -> (r: Self)
        ensures
            r.wf(),
            r.tokens_spec() == spec_tokenize(source@),
            r.position() == 0,
    {
        let tokens = tokenize(source);
        proof {
            lemma_tokens_eof_terminated(source@, 0);
        }
        Parser { tokens, pos: 0 }
    }

    fn peek(&self) -> (k: TokenKind)
        requires
            self.wf(),
        ensures
            k == kind_at(self.tokens_spec(), self.position()),
    {
        self.tokens[self.pos].kind
    }

    fn peek_text(&self) -> (t: String)
        requires
            self.wf(),
        ensures
            t@ == text_at(self.tokens_spec(), self.position()),
    {
        self.tokens[self.pos].text.clone()
    }

    /// Moves past the current token; the `Eof` token is never passed.
    fn advance(&mut self)
        requires
            old(self).wf(),
        ensures
            final(self).wf(),
            final(self).tokens_spec() == old(self).tokens_spec(),
            kind_at(old(self).tokens_spec(), old(self).position()) != TokenKind::Eof ==> final(self).position()
                == old(self).position() + 1,
            final(self).position() >= old(self).position(),
    {
        if self.pos < self.tokens.len() - 1 {
            self.pos = self.pos + 1;
        }
    }

    /// Reads a token of kind `k`.
    fn expect(&mut self, k: TokenKind) -> (r: Result<(), ParseError>)
        requires
            old(self).wf(),
            k != TokenKind::Eof,
        ensures
            final(self).wf(),
            final(self).tokens_spec() == old(self).tokens_spec(),
            final(self).position() >= old(self).position(),
            r is Ok <==> expect(old(self).tokens_spec(), old(self).position(), k) is Some,
            r is Ok ==> final(self).position() == old(self).position() + 1,
    {
        let found = self.peek();
        self.advance();
        if found != k {
            return Err(ParseError::Expected(k, found));
        }
        Ok(())
    }

    /// Calls, indexing, member access, `++` and `--` after `e`.
    fn parse_postfix(&mut self, e: HirExpr) -> (r: Result<HirExpr, ParseError>)
        requires
            old(self).wf(),
        ensures
            final(self).wf(),
            final(self).tokens_spec() == old(self).tokens_spec(),
            final(self).position() >= old(self).position(),
            match r {
                Ok(x) => postfix(old(self).tokens_spec(), old(self).position(), e.view()) == Some(
                    (x.view(), final(self).position()),
                ),
                Err(_) => postfix(old(self).tokens_spec(), old(self).position(), e.view()) is None,
            },
        decreases old(self).tokens_spec().len() - old(self).position(), 0nat,
    {
        let ghost ts = self.tokens_spec();
        let ghost p0 = self.position();
        let mut expr = e;
        loop
            invariant
                self.wf(),
                self.tokens_spec() == ts,
                ts == old(self).tokens_spec(),
                p0 == old(self).position(),
                self.position() >= p0,
                postfix(ts, p0, e.view()) == postfix(ts, self.position(), expr.view()),
            decreases ts.len() - self.position(),
        {
            let k = self.peek();
            let ghost p = self.position();
            if k == TokenKind::LParen {
                self.advance();
                let args = match self.parse_arguments() {
                    Ok(a) => a,
                    Err(err) => return Err(err),
                };
                match self.expect(TokenKind::RParen) {
                    Ok(()) => {},
                    Err(err) => return Err(err),
                }
                expr = HirExpr::Call { callee: Box::new(expr), args };
            } else if k == TokenKind::LBracket {
                self.advance();
                let index = match self.parse_expr() {
                    Ok(i) => i,
                    Err(err) => return Err(err),
                };
                match self.expect(TokenKind::RBracket) {
                    Ok(()) => {},
                    Err(err) => return Err(err),
                }
                expr = HirExpr::Index { object: Box::new(expr), index: Box::new(index) };
            } else if k == TokenKind::Dot {
                self.advance();
                if self.peek() != TokenKind::Ident {
                    return Err(ParseError::ExpectedPropertyName);
                }
                let name = self.peek_text();
                self.advance();
                expr = HirExpr::Property { object: Box::new(expr), name };
            } else if k == TokenKind::PlusPlus || k == TokenKind::MinusMinus {
                self.advance();
                let op = if k == TokenKind::PlusPlus { BinOp::Add } else { BinOp::Sub };
                let one_text = crate::text::owned("1");
                proof {
                    reveal_strlit("1");
                    assert(one_text@ =~= seq!['1']);
                }
                let target = expr.duplicate();
                let ghost ev = expr.view();
                let num = HirExpr::Number(one_text);
                assert(num.view() == one());
                let value = HirExpr::Binary { op, left: Box::new(expr), right: Box::new(num) };
                assert(value.view() == SpecHir::Binary {
                    op,
                    left: Box::new(ev),
                    right: Box::new(one()),
                });
                expr = HirExpr::Assign { target: Box::new(target), value: Box::new(value) };
                assert(expr.view() == compound(ev, op, one()));
            } else {
                return Ok(expr);
            }
        }
    }

    /// Call arguments up to `)`.
    fn parse_arguments(&mut self) -> (r: Result<Vec<HirExpr>, ParseError>)
        requires
            old(self).wf(),
        ensures
            final(self).wf(),
            final(self).tokens_spec() == old(self).tokens_spec(),
            final(self).position() >= old(self).position(),
            match r {
                Ok(v) => arguments(old(self).tokens_spec(), old(self).position(), Seq::empty())
                    == Some((HirExpr::list_view(v), final(self).position())),
                Err(_) => arguments(old(self).tokens_spec(), old(self).position(), Seq::empty()) is None,
            },
        decreases old(self).tokens_spec().len() - old(self).position(), 19nat,
    {
        let ghost ts = self.tokens_spec();
        let ghost p0 = self.position();
        let mut args: Vec<HirExpr> = Vec::new();
        proof {
            lemma_list_view_empty(args);
        }
        while self.peek() != TokenKind::RParen
            invariant
                self.wf(),
                self.tokens_spec() == ts,
                ts == old(self).tokens_spec(),
                p0 == old(self).position(),
                self.position() >= p0,
                arguments(ts, p0, Seq::empty()) == arguments(
                    ts,
                    self.position(),
                    HirExpr::list_view(args),
                ),
            decreases ts.len() - self.position(),
        {
            let ghost p = self.position();
            let ghost before = args;
            let e = match self.parse_expr() {
                Ok(e) => e,
                Err(err) => return Err(err),
            };
            let ghost r = self.position();
            if self.peek() == TokenKind::Comma {
                self.advance();
            }
            proof {
                assert(self.position() == skip_comma(ts, r));
            }
            args.push(e);
            proof {
                lemma_list_view_push(before, args, e);
            }
        }
        Ok(args)
    }

    /// Array elements up to `]`.
    fn parse_elements(&mut self) -> (r: Result<Vec<HirExpr>, ParseError>)
        requires
            old(self).wf(),
        ensures
            final(self).wf(),
            final(self).tokens_spec() == old(self).tokens_spec(),
            final(self).position() >= old(self).position(),
            match r {
                Ok(v) => elements(old(self).tokens_spec(), old(self).position(), Seq::empty())
                    == Some((HirExpr::list_view(v), final(self).position())),
                Err(_) => elements(old(self).tokens_spec(), old(self).position(), Seq::empty()) is None,
            },
        decreases old(self).tokens_spec().len() - old(self).position(), 19nat,
    {
        let ghost ts = self.tokens_spec();
        let ghost p0 = self.position();
        let mut items: Vec<HirExpr> = Vec::new();
        proof {
            lemma_list_view_empty(items);
        }
        while self.peek() != TokenKind::RBracket
            invariant
                self.wf(),
                self.tokens_spec() == ts,
                ts == old(self).tokens_spec(),
                p0 == old(self).position(),
                self.position() >= p0,
                elements(ts, p0, Seq::empty()) == elements(
                    ts,
                    self.position(),
                    HirExpr::list_view(items),
                ),
            decreases ts.len() - self.position(),
        {
            let ghost before = items;
            let e = match self.parse_expr() {
                Ok(e) => e,
                Err(err) => return Err(err),
            };
            let ghost r = self.position();
            if self.peek() == TokenKind::Comma {
                self.advance();
            }
            proof {
                assert(self.position() == skip_comma(ts, r));
            }
            items.push(e);
            proof {
                lemma_list_view_push(before, items, e);
            }
        }
        Ok(items)
    }

    /// Object properties up to `}`.
    fn parse_properties(&mut self) -> (r: Result<Vec<(String, HirExpr)>, ParseError>)
        requires
            old(self).wf(),
        ensures
            final(self).wf(),
            final(self).tokens_spec() == old(self).tokens_spec(),
            final(self).position() >= old(self).position(),
            match r {
                Ok(v) => properties(old(self).tokens_spec(), old(self).position(), Seq::empty())
                    == Some((HirExpr::pairs_view(v), final(self).position())),
                Err(_) => properties(old(self).tokens_spec(), old(self).position(), Seq::empty())
                    is None,
            },
        decreases old(self).tokens_spec().len() - old(self).position(), 0nat,
    {
        let ghost ts = self.tokens_spec();
        let ghost p0 = self.position();
        let mut props: Vec<(String, HirExpr)> = Vec::new();
        assert(HirExpr::pairs_view(props) =~= Seq::empty());
        while self.peek() != TokenKind::RBrace
            invariant
                self.wf(),
                self.tokens_spec() == ts,
                ts == old(self).tokens_spec(),
                p0 == old(self).position(),
                self.position() >= p0,
                properties(ts, p0, Seq::empty()) == properties(
                    ts,
                    self.position(),
                    HirExpr::pairs_view(props),
                ),
            decreases ts.len() - self.position(),
        {
            let ghost before = props;
            let k = self.peek();
            if k != TokenKind::Ident && k != TokenKind::Str {
                return Err(ParseError::ExpectedObjectKey);
            }
            let key = self.peek_text();
            self.advance();
            match self.expect(TokenKind::Colon) {
                Ok(()) => {},
                Err(err) => return Err(err),
            }
            let value = match self.parse_expr() {
                Ok(v) => v,
                Err(err) => return Err(err),
            };
            let ghost r = self.position();
            if self.peek() == TokenKind::Comma {
                self.advance();
            }
            proof {
                assert(self.position() == skip_comma(ts, r));
            }
            props.push((key, value));
            proof {
                lemma_pairs_view_push(before, props, key, value);
            }
        }
        Ok(props)
    }

    /// A literal, a name with its postfix operations, a parenthesised
    /// expression, an array or an object.
    fn parse_primary(&mut self) -> (r: Result<HirExpr, ParseError>)
        requires
            old(self).wf(),
        ensures
            parsed_one(*old(self), *final(self), primary(old(self).tokens_spec(), old(self).position()), r),
        decreases old(self).tokens_spec().len() - old(self).position(), 1nat,
    {
        let k = self.peek();
        match k {
            TokenKind::Number => {
                let t = self.peek_text();
                self.advance();
                Ok(HirExpr::Number(t))
            },
            TokenKind::Str => {
                let t = self.peek_text();
                self.advance();
                Ok(HirExpr::String(t))
            },
            TokenKind::Bool(b) => {
                self.advance();
                Ok(HirExpr::Boolean(b))
            },
            TokenKind::Null => {
                self.advance();
                Ok(HirExpr::Null)
            },
            TokenKind::Undefined => {
                self.advance();
                Ok(HirExpr::Undefined)
            },
            TokenKind::Ident => {
                let t = self.peek_text();
                self.advance();
                self.parse_postfix(HirExpr::Identifier(t))
            },
            TokenKind::LParen => {
                self.advance();
                let e = match self.parse_expr() {
                    Ok(e) => e,
                    Err(err) => return Err(err),
                };
                match self.expect(TokenKind::RParen) {
                    Ok(()) => Ok(e),
                    Err(err) => Err(err),
                }
            },
            TokenKind::LBracket => {
                self.advance();
                let items = match self.parse_elements() {
                    Ok(v) => v,
                    Err(err) => return Err(err),
                };
                match self.expect(TokenKind::RBracket) {
                    Ok(()) => Ok(HirExpr::Array(items)),
                    Err(err) => Err(err),
                }
            },
            TokenKind::LBrace => {
                self.advance();
                let props = match self.parse_properties() {
                    Ok(v) => v,
                    Err(err) => return Err(err),
                };
                match self.expect(TokenKind::RBrace) {
                    Ok(()) => Ok(HirExpr::Object(props)),
                    Err(err) => Err(err),
                }
            },
            _ => Err(ParseError::UnexpectedToken(k)),
        }
    }

    /// `typeof`, `!` and unary `-` before an operand.
    fn parse_unary(&mut self) -> (r: Result<HirExpr, ParseError>)
        requires
            old(self).wf(),
        ensures
            parsed_one(*old(self), *final(self), unary(old(self).tokens_spec(), old(self).position()), r),
        decreases old(self).tokens_spec().len() - old(self).position(), 2nat,
    {
        let k = self.peek();
        if k == TokenKind::Typeof {
            self.advance();
            let operand = match self.parse_unary() {
                Ok(e) => e,
                Err(err) => return Err(err),
            };
            return Ok(HirExpr::Typeof(Box::new(operand)));
        }
        let op = if k == TokenKind::Not {
            UnaryOp::Not
        } else if k == TokenKind::Minus {
            UnaryOp::Neg
        } else {
            return self.parse_primary();
        };
        self.advance();
        let operand = match self.parse_unary() {
            Ok(e) => e,
            Err(err) => return Err(err),
        };
        Ok(HirExpr::Unary { op, operand: Box::new(operand) })
    }

    /// A left-associative chain at binary level `level` (0 = multiplicative,
    /// 1 = additive, 2 = comparison, 3 = equality, 4 = `&&`, 5 = `||`).
    fn parse_binary(&mut self, level: u8) -> (r: Result<HirExpr, ParseError>)
        requires
            old(self).wf(),
            level <= 5,
        ensures
            parsed_one(
                *old(self),
                *final(self),
                binary(old(self).tokens_spec(), old(self).position(), level as nat),
                r,
            ),
        decreases old(self).tokens_spec().len() - old(self).position(), 4 + 2 * level,
    {
        let ghost ts = self.tokens_spec();
        let ghost p0 = self.position();
        let first = if level == 0 {
            self.parse_unary()
        } else {
            self.parse_binary(level - 1)
        };
        let mut left = match first {
            Ok(e) => e,
            Err(err) => return Err(err),
        };
        loop
            invariant
                self.wf(),
                self.tokens_spec() == ts,
                ts == old(self).tokens_spec(),
                p0 == old(self).position(),
                self.position() > p0,
                level <= 5,
                binary(ts, p0, level as nat) == binary_rest(
                    ts,
                    self.position(),
                    level as nat,
                    left.view(),
                ),
            decreases ts.len() - self.position(),
        {
            let ghost p = self.position();
            let op = match binary_level_op(level, self.peek()) {
                Some(op) => op,
                None => return Ok(left),
            };
            self.advance();
            assert(self.position() == p + 1);
            assert(operand(ts, p + 1, level as nat) == if level == 0 {
                unary(ts, p + 1)
            } else {
                binary(ts, p + 1, (level - 1) as nat)
            });
            let right = if level == 0 {
                self.parse_unary()
            } else {
                self.parse_binary(level - 1)
            };
            let right = match right {
                Ok(e) => e,
                Err(err) => return Err(err),
            };
            let ghost l0 = left.view();
            left = HirExpr::Binary { op, left: Box::new(left), right: Box::new(right) };
            assert(binary_rest(ts, p, level as nat, l0) == binary_rest(
                ts,
                self.position(),
                level as nat,
                left.view(),
            ));
        }
    }

    /// `cond ? a : b`.
    fn parse_ternary(&mut self) -> (r: Result<HirExpr, ParseError>)
        requires
            old(self).wf(),
        ensures
            parsed_one(*old(self), *final(self), ternary(old(self).tokens_spec(), old(self).position()), r),
        decreases old(self).tokens_spec().len() - old(self).position(), 16nat,
    {
        let cond = match self.parse_binary(5) {
            Ok(e) => e,
            Err(err) => return Err(err),
        };
        if self.peek() == TokenKind::Question {
            self.advance();
            let then_expr = match self.parse_expr() {
                Ok(e) => e,
                Err(err) => return Err(err),
            };
            match self.expect(TokenKind::Colon) {
                Ok(()) => {},
                Err(err) => return Err(err),
            }
            let else_expr = match self.parse_ternary() {
                Ok(e) => e,
                Err(err) => return Err(err),
            };
            Ok(HirExpr::Ternary {
                cond: Box::new(cond),
                then_expr: Box::new(then_expr),
                else_expr: Box::new(else_expr),
            })
        } else {
            Ok(cond)
        }
    }

    /// `target = value` and `target op= value`.
    fn parse_assignment(&mut self) -> (r: Result<HirExpr, ParseError>)
        requires
            old(self).wf(),
        ensures
            parsed_one(*old(self), *final(self), assignment(old(self).tokens_spec(), old(self).position()), r),
        decreases old(self).tokens_spec().len() - old(self).position(), 17nat,
    {
        let left = match self.parse_ternary() {
            Ok(e) => e,
            Err(err) => return Err(err),
        };
        let ghost ts = self.tokens_spec();
        let ghost p0 = old(self).position();
        let ghost r0 = self.position();
        let k = self.peek();
        if k == TokenKind::Assign {
            self.advance();
            let right = match self.parse_assignment() {
                Ok(e) => e,
                Err(err) => return Err(err),
            };
            return Ok(HirExpr::Assign { target: Box::new(left), value: Box::new(right) });
        }
        let op = if k == TokenKind::PlusAssign {
            BinOp::Add
        } else if k == TokenKind::MinusAssign {
            BinOp::Sub
        } else if k == TokenKind::StarAssign {
            BinOp::Mul
        } else if k == TokenKind::SlashAssign {
            BinOp::Div
        } else {
            return Ok(left);
        };
        assert(compound_op(k) == Some(op));
        self.advance();
        assert(self.position() == r0 + 1);
        let right = match self.parse_assignment() {
            Ok(e) => e,
            Err(err) => return Err(err),
        };
        let target = left.duplicate();
        assert(assignment(ts, p0) == Some((compound(left.view(), op, right.view()), self.position())));
        let ghost lv = left.view();
        let ghost rv = right.view();
        let value = HirExpr::Binary { op, left: Box::new(left), right: Box::new(right) };
        assert(value.view() == SpecHir::Binary { op, left: Box::new(lv), right: Box::new(rv) });
        let result = HirExpr::Assign { target: Box::new(target), value: Box::new(value) };
        assert(result.view() == compound(lv, op, rv));
        assert(self.position() > p0);
        Ok(result)
    }

    /// An expression.
    fn parse_expr(&mut self) -> (r: Result<HirExpr, ParseError>)
        requires
            old(self).wf(),
        ensures
            parsed_one(*old(self), *final(self), expr(old(self).tokens_spec(), old(self).position()), r),
        decreases old(self).tokens_spec().len() - old(self).position(), 18nat,
    {
        self.parse_assignment()
    }

    /// A statement; `None` for an empty statement `;`.
    fn parse_stmt(&mut self) -> (r: Result<Option<HirExpr>, ParseError>)
        requires
            old(self).wf(),
        ensures
            parsed_stmt(*old(self), *final(self), stmt(old(self).tokens_spec(), old(self).position()), r),
        decreases old(self).tokens_spec().len() - old(self).position(), 30nat,
    {
        let k = self.peek();
        let ghost ts = self.tokens_spec();
        let ghost p0 = self.position();
        if k == TokenKind::Fn {
            match self.parse_function() {
                Ok(e) => Ok(Some(e)),
                Err(err) => Err(err),
            }
        } else if k == TokenKind::Let || k == TokenKind::Const {
            match self.parse_var() {
                Ok(e) => Ok(Some(e)),
                Err(err) => Err(err),
            }
        } else if k == TokenKind::Return {
            match self.parse_return() {
                Ok(e) => Ok(Some(e)),
                Err(err) => Err(err),
            }
        } else if k == TokenKind::If {
            match self.parse_if() {
                Ok(e) => Ok(Some(e)),
                Err(err) => Err(err),
            }
        } else if k == TokenKind::While {
            match self.parse_while() {
                Ok(e) => Ok(Some(e)),
                Err(err) => Err(err),
            }
        } else if k == TokenKind::For {
            match self.parse_for() {
                Ok(e) => Ok(Some(e)),
                Err(err) => Err(err),
            }
        } else if k == TokenKind::LBrace {
            match self.parse_block() {
                Ok(e) => Ok(Some(e)),
                Err(err) => Err(err),
            }
        } else if k == TokenKind::Break || k == TokenKind::Continue {
            self.advance();
            if self.peek() == TokenKind::Semicolon {
                self.advance();
            }
            assert(self.position() == skip_semicolon(ts, p0 + 1));
            if k == TokenKind::Break {
                Ok(Some(HirExpr::Break))
            } else {
                Ok(Some(HirExpr::Continue))
            }
        } else if k == TokenKind::Semicolon {
            self.advance();
            Ok(None)
        } else {
            let e = match self.parse_expr() {
                Ok(e) => e,
                Err(err) => return Err(err),
            };
            let ghost r = self.position();
            if self.peek() == TokenKind::Semicolon {
                self.advance();
            }
            assert(self.position() == skip_semicolon(ts, r));
            Ok(Some(e))
        }
    }

    /// `function name(params) { body }`.
    fn parse_function(&mut self) -> (r: Result<HirExpr, ParseError>)
        requires
            old(self).wf(),
        ensures
            parsed_one(*old(self), *final(self), function(old(self).tokens_spec(), old(self).position()), r),
        decreases old(self).tokens_spec().len() - old(self).position(), 25nat,
    {
        let ghost ts = self.tokens_spec();
        match self.expect(TokenKind::Fn) {
            Ok(()) => {},
            Err(err) => return Err(err),
        }
        let ghost p1 = self.position();
        if self.peek() != TokenKind::Ident {
            self.advance();
            return Err(ParseError::ExpectedFunctionName);
        }
        let name = self.peek_text();
        self.advance();
        assert(self.position() == p1 + 1);
        match self.expect(TokenKind::LParen) {
            Ok(()) => {},
            Err(err) => return Err(err),
        }
        let ghost p3 = self.position();
        let mut names: Vec<String> = Vec::new();
        assert(names_view(names@) =~= Seq::empty());
        loop
            invariant
                self.wf(),
                self.tokens_spec() == ts,
                ts == old(self).tokens_spec(),
                expect(ts, old(self).position(), TokenKind::Fn) == Some(p1),
                kind_at(ts, p1) == TokenKind::Ident,
                name@ == text_at(ts, p1),
                expect(ts, p1 + 1, TokenKind::LParen) == Some(p3),
                self.position() >= p3,
                params(ts, p3, Seq::empty()) == params(ts, self.position(), names_view(names@)),
            ensures
                kind_at(ts, self.position()) == TokenKind::RParen,
            decreases ts.len() - self.position(),
        {
            let k = self.peek();
            if k == TokenKind::RParen {
                break;
            }
            if k == TokenKind::Eof {
                return Err(ParseError::UnclosedParameters);
            }
            let ghost p = self.position();
            if k == TokenKind::Ident {
                let t = self.peek_text();
                let ghost before = names@;
                names.push(t);
                assert(names_view(names@) =~= names_view(before).push(t@));
            }
            self.advance();
            if self.peek() == TokenKind::Comma {
                self.advance();
            }
            assert(self.position() == skip_comma(ts, p + 1));
        }
        let ghost p4 = self.position();
        match self.expect(TokenKind::RParen) {
            Ok(()) => {},
            Err(err) => return Err(err),
        }
        let body = match self.parse_block_stmts() {
            Ok(b) => b,
            Err(err) => return Err(err),
        };
        Ok(HirExpr::Function { name, params: names, body })
    }

    /// `let name = value;` or `const name = value;`.
    fn parse_var(&mut self) -> (r: Result<HirExpr, ParseError>)
        requires
            old(self).wf(),
            kind_at(old(self).tokens_spec(), old(self).position()) != TokenKind::Eof,
        ensures
            parsed_one(*old(self), *final(self), var(old(self).tokens_spec(), old(self).position()), r),
        decreases old(self).tokens_spec().len() - old(self).position(), 25nat,
    {
        let ghost ts = self.tokens_spec();
        let is_mut = self.peek() == TokenKind::Let;
        self.advance();
        if self.peek() != TokenKind::Ident {
            self.advance();
            return Err(ParseError::ExpectedVariableName);
        }
        let name = self.peek_text();
        self.advance();
        let init = if self.peek() == TokenKind::Assign {
            self.advance();
            match self.parse_expr() {
                Ok(e) => {
                    let b = Some(Box::new(e));
                    assert(HirExpr::opt_view(b) == Some(Box::new(e.view())));
                    b
                },
                Err(err) => return Err(err),
            }
        } else {
            assert(HirExpr::opt_view(None) == None::<Box<SpecHir>>);
            None
        };
        let ghost r = self.position();
        if self.peek() == TokenKind::Semicolon {
            self.advance();
        }
        assert(self.position() == skip_semicolon(ts, r));
        Ok(HirExpr::Var { name, init, is_mut })
    }

    /// `return value;`.
    fn parse_return(&mut self) -> (r: Result<HirExpr, ParseError>)
        requires
            old(self).wf(),
        ensures
            parsed_one(*old(self), *final(self), return_stmt(old(self).tokens_spec(), old(self).position()), r),
        decreases old(self).tokens_spec().len() - old(self).position(), 25nat,
    {
        let ghost ts = self.tokens_spec();
        match self.expect(TokenKind::Return) {
            Ok(()) => {},
            Err(err) => return Err(err),
        }
        let k = self.peek();
        let val = if k != TokenKind::Semicolon && k != TokenKind::RBrace {
            match self.parse_expr() {
                Ok(e) => {
                    let b = Some(Box::new(e));
                    assert(HirExpr::opt_view(b) == Some(Box::new(e.view())));
                    b
                },
                Err(err) => return Err(err),
            }
        } else {
            assert(HirExpr::opt_view(None) == None::<Box<SpecHir>>);
            None
        };
        let ghost r = self.position();
        if self.peek() == TokenKind::Semicolon {
            self.advance();
        }
        assert(self.position() == skip_semicolon(ts, r));
        Ok(HirExpr::Return(val))
    }

    /// `(cond)`.
    fn parse_condition(&mut self) -> (r: Result<HirExpr, ParseError>)
        requires
            old(self).wf(),
        ensures
            parsed_one(*old(self), *final(self), condition(old(self).tokens_spec(), old(self).position()), r),
        decreases old(self).tokens_spec().len() - old(self).position(), 20nat,
    {
        match self.expect(TokenKind::LParen) {
            Ok(()) => {},
            Err(err) => return Err(err),
        }
        let c = match self.parse_expr() {
            Ok(e) => e,
            Err(err) => return Err(err),
        };
        match self.expect(TokenKind::RParen) {
            Ok(()) => Ok(c),
            Err(err) => Err(err),
        }
    }

    /// `if (cond) { ... } else { ... }`.
    fn parse_if(&mut self) -> (r: Result<HirExpr, ParseError>)
        requires
            old(self).wf(),
        ensures
            parsed_one(*old(self), *final(self), if_stmt(old(self).tokens_spec(), old(self).position()), r),
        decreases old(self).tokens_spec().len() - old(self).position(), 25nat,
    {
        match self.expect(TokenKind::If) {
            Ok(()) => {},
            Err(err) => return Err(err),
        }
        let cond = match self.parse_condition() {
            Ok(e) => e,
            Err(err) => return Err(err),
        };
        let then_body = match self.parse_block_stmts() {
            Ok(b) => b,
            Err(err) => return Err(err),
        };
        let else_body = if self.peek() == TokenKind::Else {
            self.advance();
            match self.parse_block_stmts() {
                Ok(b) => Some(b),
                Err(err) => return Err(err),
            }
        } else {
            None
        };
        Ok(HirExpr::If { cond: Box::new(cond), then_body, else_body })
    }

    /// `while (cond) { ... }`.
    fn parse_while(&mut self) -> (r: Result<HirExpr, ParseError>)
        requires
            old(self).wf(),
        ensures
            parsed_one(*old(self), *final(self), while_stmt(old(self).tokens_spec(), old(self).position()), r),
        decreases old(self).tokens_spec().len() - old(self).position(), 25nat,
    {
        match self.expect(TokenKind::While) {
            Ok(()) => {},
            Err(err) => return Err(err),
        }
        let cond = match self.parse_condition() {
            Ok(e) => e,
            Err(err) => return Err(err),
        };
        let body = match self.parse_block_stmts() {
            Ok(b) => b,
            Err(err) => return Err(err),
        };
        Ok(HirExpr::While { cond: Box::new(cond), body })
    }

    /// The initialiser of a `for`.
    fn parse_for_init(&mut self) -> (r: Result<Option<HirExpr>, ParseError>)
        requires
            old(self).wf(),
        ensures
            parsed_stmt(*old(self), *final(self), for_init(old(self).tokens_spec(), old(self).position()), r),
        decreases old(self).tokens_spec().len() - old(self).position(), 26nat,
    {
        let ghost ts = self.tokens_spec();
        let k = self.peek();
        if k == TokenKind::Let || k == TokenKind::Const {
            match self.parse_var() {
                Ok(e) => Ok(Some(e)),
                Err(err) => Err(err),
            }
        } else if k != TokenKind::Semicolon {
            let e = match self.parse_expr() {
                Ok(e) => e,
                Err(err) => return Err(err),
            };
            let ghost r = self.position();
            if self.peek() == TokenKind::Semicolon {
                self.advance();
            }
            assert(self.position() == skip_semicolon(ts, r));
            Ok(Some(e))
        } else {
            match self.expect(TokenKind::Semicolon) {
                Ok(()) => Ok(None),
                Err(err) => Err(err),
            }
        }
    }

    /// An optional expression, then a token of kind `end`.
    fn parse_optional_expr(&mut self, end: TokenKind) -> (r: Result<Option<HirExpr>, ParseError>)
        requires
            old(self).wf(),
            end != TokenKind::Eof,
        ensures
            parsed_stmt(
                *old(self),
                *final(self),
                optional_expr(old(self).tokens_spec(), old(self).position(), end),
                r,
            ),
        decreases old(self).tokens_spec().len() - old(self).position(), 26nat,
    {
        let e = if self.peek() != end {
            match self.parse_expr() {
                Ok(e) => Some(e),
                Err(err) => return Err(err),
            }
        } else {
            None
        };
        match self.expect(end) {
            Ok(()) => Ok(e),
            Err(err) => Err(err),
        }
    }

    /// `for (init; cond; update) { ... }`.
    fn parse_for(&mut self) -> (r: Result<HirExpr, ParseError>)
        requires
            old(self).wf(),
        ensures
            parsed_one(*old(self), *final(self), for_stmt(old(self).tokens_spec(), old(self).position()), r),
        decreases old(self).tokens_spec().len() - old(self).position(), 27nat,
    {
        match self.expect(TokenKind::For) {
            Ok(()) => {},
            Err(err) => return Err(err),
        }
        match self.expect(TokenKind::LParen) {
            Ok(()) => {},
            Err(err) => return Err(err),
        }
        let init = match self.parse_for_init() {
            Ok(i) => i,
            Err(err) => return Err(err),
        };
        let cond = match self.parse_optional_expr(TokenKind::Semicolon) {
            Ok(c) => c,
            Err(err) => return Err(err),
        };
        let update = match self.parse_optional_expr(TokenKind::RParen) {
            Ok(u) => u,
            Err(err) => return Err(err),
        };
        let body = match self.parse_block_stmts() {
            Ok(b) => b,
            Err(err) => return Err(err),
        };
        let init = box_opt(init);
        let cond = box_opt(cond);
        let update = box_opt(update);
        Ok(HirExpr::For { init, cond, update, body })
    }

    /// `{` then a braced statement list.
    fn parse_block(&mut self) -> (r: Result<HirExpr, ParseError>)
        requires
            old(self).wf(),
        ensures
            parsed_one(*old(self), *final(self), block(old(self).tokens_spec(), old(self).position()), r),
        decreases old(self).tokens_spec().len() - old(self).position(), 25nat,
    {
        match self.expect(TokenKind::LBrace) {
            Ok(()) => {},
            Err(err) => return Err(err),
        }
        match self.parse_block_stmts() {
            Ok(stmts) => Ok(HirExpr::Block(stmts)),
            Err(err) => Err(err),
        }
    }

    /// `{ statements }`.
    fn parse_block_stmts(&mut self) -> (r: Result<Vec<HirExpr>, ParseError>)
        requires
            old(self).wf(),
        ensures
            parsed_list(*old(self), *final(self), block_stmts(old(self).tokens_spec(), old(self).position()), r),
        decreases old(self).tokens_spec().len() - old(self).position(), 24nat,
    {
        let ghost ts = self.tokens_spec();
        let ghost p0 = self.position();
        match self.expect(TokenKind::LBrace) {
            Ok(()) => {},
            Err(err) => return Err(err),
        }
        let ghost p1 = self.position();
        let mut stmts: Vec<HirExpr> = Vec::new();
        proof {
            lemma_list_view_empty(stmts);
        }
        while self.peek() != TokenKind::RBrace
            invariant
                self.wf(),
                self.tokens_spec() == ts,
                self.position() >= p1,
                p1 == p0 + 1,
                p0 == old(self).position(),
                ts == old(self).tokens_spec(),
                stmt_list(ts, p1, Seq::empty()) == stmt_list(
                    ts,
                    self.position(),
                    HirExpr::list_view(stmts),
                ),
            decreases ts.len() - self.position(),
        {
            let ghost before = stmts;
            match self.parse_stmt() {
                Ok(Some(s)) => {
                    stmts.push(s);
                    proof {
                        lemma_list_view_push(before, stmts, s);
                    }
                },
                Ok(None) => {},
                Err(err) => return Err(err),
            }
        }
        match self.expect(TokenKind::RBrace) {
            Ok(()) => Ok(stmts),
            Err(err) => Err(err),
        }
    }

    /// Parses statements up to the end of the input.
    pub fn parse_module(&mut self) -> (r: Result<Vec<HirExpr>, ParseError>)
        requires
            old(self).wf(),
        ensures
            final(self).wf(),
            final(self).tokens_spec() == old(self).tokens_spec(),
            match r {
                Ok(v) => parse_tokens(old(self).tokens_spec(), old(self).position()) == Some(
                    HirExpr::list_view(v),
                ),
                Err(_) => parse_tokens(old(self).tokens_spec(), old(self).position()) is None,
            },
    {
        let ghost ts = self.tokens_spec();
        let ghost p0 = self.position();
        let mut stmts: Vec<HirExpr> = Vec::new();
        proof {
            lemma_list_view_empty(stmts);
        }
        while self.peek() != TokenKind::Eof
            invariant
                self.wf(),
                self.tokens_spec() == ts,
                self.position() >= p0,
                p0 == old(self).position(),
                ts == old(self).tokens_spec(),
                module_items(ts, p0, Seq::empty()) == module_items(
                    ts,
                    self.position(),
                    HirExpr::list_view(stmts),
                ),
            decreases ts.len() - self.position(),
        {
            let ghost before = stmts;
            match self.parse_stmt() {
                Ok(Some(s)) => {
                    stmts.push(s);
                    proof {
                        lemma_list_view_push(before, stmts, s);
                    }
                },
                Ok(None) => {},
                Err(err) => return Err(err),
            }
        }
        Ok(stmts)
    }
}

/// Parses a whole source text into statements.
pub fn parse(source: &str) -> (r: Result<Vec<HirExpr>, ParseError>)
    ensures
        match r {
            Ok(v) => parse_tokens(spec_tokenize(source@), 0) == Some(HirExpr::list_view(v)),
            Err(_) => parse_tokens(spec_tokenize(source@), 0) is None,
        },
{
    let mut parser = Parser::new(source);
    parser.parse_module()
}

/// An optional expression, boxed.
fn box_opt(e: Option<HirExpr>) -> (r: Option<Box<HirExpr>>)
    ensures
        HirExpr::opt_view(r) == boxed(opt_hir_view(e)),
{
    match e {
        Some(x) => {
            let b = Some(Box::new(x));
            assert(HirExpr::opt_view(b) == Some(Box::new(x.view())));
            b
        },
        None => {
            assert(HirExpr::opt_view(None) == None::<Box<SpecHir>>);
            None
        },
    }
}

/// The operator of binary level `level` that a token of kind `k` stands for.
fn binary_level_op(level: u8, k: TokenKind) -> (r: Option<BinOp>)
    ensures
        r == level_op(level as nat, k),
{
    if level == 0 {
        if k == TokenKind::Star {
            Some(BinOp::Mul)
        } else if k == TokenKind::Slash {
            Some(BinOp::Div)
        } else if k == TokenKind::Percent {
            Some(BinOp::Mod)
        } else {
            None
        }
    } else if level == 1 {
        if k == TokenKind::Plus {
            Some(BinOp::Add)
        } else if k == TokenKind::Minus {
            Some(BinOp::Sub)
        } else {
            None
        }
    } else if level == 2 {
        if k == TokenKind::Lt {
            Some(BinOp::Lt)
        } else if k == TokenKind::Le {
            Some(BinOp::Le)
        } else if k == TokenKind::Gt {
            Some(BinOp::Gt)
        } else if k == TokenKind::Ge {
            Some(BinOp::Ge)
        } else {
            None
        }
    } else if level == 3 {
        if k == TokenKind::EqEqEq {
            Some(BinOp::Eq)
        } else if k == TokenKind::NotEqEq {
            Some(BinOp::Ne)
        } else {
            None
        }
    } else if level == 4 {
        if k == TokenKind::AndAnd {
            Some(BinOp::And)
        } else {
            None
        }
    } else if k == TokenKind::OrOr {
        Some(BinOp::Or)
    } else {
        None
    }
}

} // verus!
