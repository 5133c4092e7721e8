//! The syntax tree that the engine analyzes.
//!
//! Trees are produced by an external parser and handed to this library as
//! plain data: every node carries the half-open byte span of the source text
//! it came from, and tokens carry their source text.

use vstd::prelude::*;

verus! {

/// One token of source text: its text and its half-open byte span.
pub struct Token {
    pub text: String,
    pub span: (u32, u32),
}

/// A unary operator.
pub enum UnOp {
    Hash,
    Minus,
    Not,
}

/// A binary operator.
pub enum BinOp {
    And,
    Caret,
    GreaterThan,
    GreaterThanEqual,
    LessThan,
    LessThanEqual,
    Minus,
    Or,
    Percent,
    Plus,
    Slash,
    Star,
    TildeEqual,
    TwoDots,
    TwoEqual,
}

/// An expression together with the byte span it covers.
pub struct Expression {
    pub span: (u32, u32),
    pub kind: ExpressionKind,
}

/// The shape of an expression.
pub enum ExpressionKind {
    /// `lhs op rhs`
    BinaryOperator { lhs: Box<Expression>, binop: BinOp, rhs: Box<Expression> },
    /// `(expression)`
    Parentheses { expression: Box<Expression> },
    /// `op expression`
    UnaryOperator { unop: UnOp, expression: Box<Expression> },
    /// An anonymous function literal, `function(...) ... end`.
    Function { body: FunctionBody },
    /// A call used as an expression.
    FunctionCall { call: FunctionCall },
    /// A table constructor, `{ ... }`.
    TableConstructor { table: TableConstructor },
    /// A numeric literal.
    Number { token: Token },
    /// A string literal.
    String { token: Token },
    /// A keyword literal: `true`, `false`, `nil` or `...`.
    Symbol { token: Token },
    /// A variable use, possibly with suffixes: `x`, `a.b`, `a[i].c`.
    Var { var: Var },
}

/// A variable use.
pub enum Var {
    /// A plain name.
    Name { token: Token },
    /// A prefix with suffixes, such as `a.b[i]`.
    Expression { var_expr: Box<VarExpression> },
}

/// A prefix followed by suffixes, used both for complex variables and calls.
/// `text` is the source text of the whole node, as the parser rendered it.
pub struct VarExpression {
    pub text: String,
    pub prefix: Prefix,
    pub suffixes: Vec<Suffix>,
}

/// What a suffix chain starts from.
pub enum Prefix {
    /// A plain name.
    Name { token: Token },
    /// A parenthesized expression.
    Expression { expression: Box<Expression> },
}

/// One suffix in a chain: an index or a call.
pub enum Suffix {
    Index { index: Index },
    Call { call: Call },
}

/// An index suffix.
pub enum Index {
    /// `.name`
    Dot { name: Token },
    /// `[expression]`
    Brackets { expression: Expression },
}

/// A call suffix.
pub enum Call {
    /// `(args)`, `"s"` or `{ ... }` directly after the prefix.
    Anonymous { args: FunctionArgs },
    /// `:name(args)`
    Method { name: Token, args: FunctionArgs },
}

/// The arguments of a call.
pub enum FunctionArgs {
    /// `(e1, e2, ...)`
    Parentheses { arguments: Vec<Expression> },
    /// A lone string literal argument.
    StringArg { token: Token },
    /// A lone table constructor argument.
    TableArg { table: TableConstructor },
}

/// A full call: a prefix, then suffixes, the last of which is the call itself.
pub struct FunctionCall {
    pub span: (u32, u32),
    pub prefix: Prefix,
    pub suffixes: Vec<Suffix>,
}

/// A table constructor and its span.
pub struct TableConstructor {
    pub span: (u32, u32),
    pub fields: Vec<TableField>,
}

/// One field of a table constructor.
pub enum TableField {
    /// `[key] = value`
    ExpressionKey { key: Expression, value: Expression },
    /// `name = value`
    NameKey { key: Token, value: Expression },
    /// A positional entry.
    NoKey { value: Expression },
}

/// The parameters and body of a function definition.
/// `params_span` covers the parameter list's parentheses.
pub struct FunctionBody {
    pub params_span: (u32, u32),
    pub parameters: Vec<Token>,
    pub block: Block,
}

/// `if`/`elseif`/`else`.
pub struct IfBlock {
    pub condition: Expression,
    pub block: Block,
    pub else_ifs: Vec<ElseIf>,
    pub else_block: Option<Block>,
}

/// One `elseif` arm.
pub struct ElseIf {
    pub condition: Expression,
    pub block: Block,
}

/// A statement.
pub enum Stmt {
    /// `v1, v2 = e1, e2`
    Assignment { vars: Vec<Var>, expressions: Vec<Expression> },
    /// `do ... end`
    Do { block: Block },
    /// A call statement.
    FunctionCall { call: FunctionCall },
    /// `function a.b.c(...) ... end`; `names` is the dotted name path and
    /// `function_span` the span of the `function` keyword.
    FunctionDeclaration { function_span: (u32, u32), names: Vec<Token>, body: FunctionBody },
    /// `for n1, n2 in e1, e2 do ... end`
    GenericFor { names: Vec<Token>, expressions: Vec<Expression>, block: Block },
    /// `if ... then ... end`
    If { if_block: Box<IfBlock> },
    /// `local n1, n2 = e1, e2`
    LocalAssignment { names: Vec<Token>, expressions: Vec<Expression> },
    /// `local function name(...) ... end`
    LocalFunction { function_span: (u32, u32), name: Token, body: FunctionBody },
    /// `for name = start, end, step do ... end`
    NumericFor {
        name: Token,
        start: Expression,
        end: Expression,
        step: Option<Expression>,
        block: Block,
    },
    /// `repeat ... until condition`
    Repeat { block: Block, until: Expression },
    /// `while condition do ... end`
    While { condition: Expression, block: Block },
}

/// The closing statement of a block.
pub enum LastStmt {
    Break,
    Return { expressions: Vec<Expression> },
}

/// A sequence of statements with an optional closing statement.
pub struct Block {
    pub stmts: Vec<Stmt>,
    pub last_stmt: Option<LastStmt>,
}

/// A whole parsed source unit.
pub struct Ast {
    pub nodes: Block,
}

} // verus!
