use vstd::prelude::*;

verus! {

/// A TypeScript module as the standard parser reads it, reduced to what the
/// lowering to the back end's IR looks at. Each variant stands for one form
/// of the source; forms that the lowering treats alike share a variant.

/// A literal.
pub enum AstLit {
    Str(String),
    Bool(bool),
    Null,
    /// A number (or big integer) literal: the IEEE-754 bits of its value.
    Num(u64),
    /// A regular expression or JSX text.
    Other,
}

/// A binary operator.
pub enum AstBinOp {
    Add,
    Sub,
    Mul,
    Div,
    Mod,
    EqEq,
    EqEqEq,
    NotEq,
    NotEqEq,
    Lt,
    LtEq,
    Gt,
    GtEq,
    LogicalAnd,
    LogicalOr,
    BitAnd,
    BitOr,
    BitXor,
    LShift,
    RShift,
    NullishCoalescing,
    In,
    /// `>>>`, `**`, `instanceof`.
    Other,
}

/// A prefix operator.
pub enum AstUnaryOp {
    Bang,
    Minus,
    Plus,
    TypeOf,
    Void,
    /// `~`, `delete`.
    Other,
}

/// `++` or `--`.
pub enum AstUpdateOp {
    PlusPlus,
    MinusMinus,
}

/// An assignment operator.
pub enum AstAssignOp {
    Assign,
    AddAssign,
    SubAssign,
    MulAssign,
    DivAssign,
    ModAssign,
    BitAndAssign,
    BitOrAssign,
    BitXorAssign,
    LShiftAssign,
    RShiftAssign,
    /// `**=`, `>>>=`, `&&=`, `||=`, `??=`.
    Other,
}

/// An argument or array element, possibly spread.
pub struct AstArg {
    pub spread: bool,
    pub expr: AstExpr,
}

/// The property part of a member expression.
pub enum AstMemberProp {
    Ident(String),
    Computed(Box<AstExpr>),
    Private,
}

/// A property key.
pub enum AstPropName {
    Ident(String),
    Str(String),
    /// A numeric key: the text of its value.
    Num(String),
    /// A big-integer key: the text of its value.
    BigInt(String),
    Computed(Box<AstExpr>),
}

/// A member of an object literal.
pub enum AstProp {
    KeyValue { key: AstPropName, value: Box<AstExpr> },
    Shorthand(String),
    /// A getter, setter, method or shorthand with a default.
    Other,
    Spread(Box<AstExpr>),
}

/// The body of an arrow function.
pub enum AstArrowBody {
    Block(Vec<AstStmt>),
    Expr(Box<AstExpr>),
}

/// The target of an assignment.
pub enum AstAssignTarget {
    Ident(String),
    Member { obj: Box<AstExpr>, prop: AstMemberProp },
    /// A parenthesised or type-annotated expression.
    Wrapped(Box<AstExpr>),
    OptMember { obj: Box<AstExpr>, prop: AstMemberProp },
    /// An optional call, `super` member or invalid target.
    Other,
    ArrayPat,
    ObjectPat,
}

/// An expression.
pub enum AstExpr {
    Lit(AstLit),
    Ident(String),
    Bin { op: AstBinOp, left: Box<AstExpr>, right: Box<AstExpr> },
    Unary { op: AstUnaryOp, arg: Box<AstExpr> },
    Update { op: AstUpdateOp, prefix: bool, arg: Box<AstExpr> },
    Assign { op: AstAssignOp, left: AstAssignTarget, right: Box<AstExpr> },
    /// A call; the callee is `None` for `super(..)` and `import(..)`.
    Call { callee: Option<Box<AstExpr>>, args: Vec<AstArg> },
    Member { obj: Box<AstExpr>, prop: AstMemberProp },
    Cond { test: Box<AstExpr>, cons: Box<AstExpr>, alt: Box<AstExpr> },
    Arrow { params: Vec<AstPat>, body: AstArrowBody },
    Fn { ident: Option<String>, params: Vec<AstPat>, body: Option<Vec<AstStmt>> },
    /// An array literal; `None` is a hole.
    Array(Vec<Option<AstArg>>),
    Object(Vec<AstProp>),
    /// A template: its raw text pieces and the expressions between them.
    Tpl { quasis: Vec<String>, exprs: Vec<AstExpr> },
    TaggedTpl { quasis: Vec<String>, exprs: Vec<AstExpr> },
    Sequence(Vec<AstExpr>),
    Paren(Box<AstExpr>),
    New { callee: Box<AstExpr>, args: Option<Vec<AstArg>> },
    /// `as`, `!`, `<T>e`, `e<T>`, `as const` and `satisfies` forms.
    TypeWrapper(Box<AstExpr>),
    Await(Box<AstExpr>),
    OptMember { obj: Box<AstExpr>, prop: AstMemberProp },
    OptCall { callee: Box<AstExpr>, args: Vec<AstArg> },
    /// `this`, `super.x`, classes, `yield`, meta properties, JSX.
    Other,
}

/// A binding pattern.
pub enum AstPat {
    Ident(String),
    Array(Vec<Option<AstPat>>),
    Object(Vec<AstObjPatProp>),
    Rest(Box<AstPat>),
    Assign { left: Box<AstPat>, right: Box<AstExpr> },
    Expr(Box<AstExpr>),
    Invalid,
}

/// A member of an object pattern.
pub enum AstObjPatProp {
    KeyValue { key: AstPropName, value: Box<AstPat> },
    Assign { key: String, value: Option<Box<AstExpr>> },
    Rest(Box<AstPat>),
}

/// `var`, `let` or `const`.
pub enum AstVarKind {
    Var,
    Let,
    Const,
}

/// One declarator of a variable declaration.
pub struct AstDeclarator {
    pub name: AstPat,
    pub init: Option<AstExpr>,
}

/// A function's parameters and body (`None` for a declaration without one).
pub struct AstFunction {
    pub params: Vec<AstPat>,
    pub body: Option<Vec<AstStmt>>,
}

/// The value of an enum member: its initializer, or the number the
/// numbering rule gives it (as IEEE-754 bits).
pub enum AstEnumInit {
    Expr(AstExpr),
    Auto(u64),
}

/// An enum member.
pub struct AstEnumMember {
    pub name: String,
    pub init: AstEnumInit,
}

/// A declaration.
pub enum AstDecl {
    Fn { name: String, declare: bool, function: AstFunction },
    Var { kind: AstVarKind, decls: Vec<AstDeclarator> },
    Enum { name: String, is_const: bool, members: Vec<AstEnumMember> },
    /// Classes, interfaces, type aliases, namespaces, `using`.
    Other,
}

/// The left side of a `for .. in` or `for .. of` loop.
pub enum AstForHead {
    /// A declaration: the pattern of its first declarator, if any.
    VarDecl(Option<AstPat>),
    Pat(AstPat),
    Using,
}

/// The initializer of a `for` loop.
pub enum AstForInit {
    Var { kind: AstVarKind, decls: Vec<AstDeclarator> },
    Expr(AstExpr),
}

/// A `catch` clause.
pub struct AstCatch {
    pub param: Option<AstPat>,
    pub body: Vec<AstStmt>,
}

/// A `case` (or `default`, without a test) of a `switch`.
pub struct AstSwitchCase {
    pub test: Option<AstExpr>,
    pub cons: Vec<AstStmt>,
}

/// A statement.
pub enum AstStmt {
    Decl(AstDecl),
    Expr(AstExpr),
    Block(Vec<AstStmt>),
    If { test: AstExpr, cons: Box<AstStmt>, alt: Option<Box<AstStmt>> },
    While { test: AstExpr, body: Box<AstStmt> },
    DoWhile { test: AstExpr, body: Box<AstStmt> },
    For {
        init: Option<AstForInit>,
        test: Option<AstExpr>,
        update: Option<AstExpr>,
        body: Box<AstStmt>,
    },
    ForIn { left: AstForHead, right: AstExpr, body: Box<AstStmt> },
    ForOf { left: AstForHead, right: AstExpr, body: Box<AstStmt> },
    Return(Option<AstExpr>),
    Break,
    Continue,
    Throw(AstExpr),
    Try { block: Vec<AstStmt>, handler: Option<AstCatch>, finalizer: Option<Vec<AstStmt>> },
    Switch { disc: AstExpr, cases: Vec<AstSwitchCase> },
    /// Labelled, `with`, empty and `debugger` statements.
    Other,
}

/// A top-level item of a module.
pub enum AstItem {
    ExportDecl(AstDecl),
    ExportDefaultFn(AstFunction),
    /// Imports, re-exports and other module declarations.
    OtherModuleDecl,
    Stmt(AstStmt),
}

} // verus!
