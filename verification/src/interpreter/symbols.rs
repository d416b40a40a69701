//! The syntax tree shared by the parser and the evaluator.
//!
//! A program is a list of function definitions; each owns its parameter
//! names and a block of statements. Expression nodes own their children
//! exclusively, so the tree has no sharing and no cycles. Numeric literals
//! carry the bit pattern of the double they denote.

use vstd::prelude::*;

verus! {

/// A whole source program: its function definitions, in order.
#[derive(Debug)]
pub struct Program {
    pub defs: Vec<Def>,
}

/// One function definition: name, parameter names, body.
#[derive(Debug)]
pub struct Def {
    pub name: String,
    pub args: Args,
    pub block: Block,
}

/// The parameter names of a definition, in order.
#[derive(Debug, Clone)]
pub struct Args {
    pub names: Vec<String>,
}

/// A brace-enclosed list of statements.
#[derive(Debug)]
pub struct Block {
    pub statements: Vec<Statement>,
}

/// The forms a statement can take.
#[derive(Debug)]
pub enum StatementKind {
    Return(Exp),
    Assign { name: String, exp: Exp },
    ArrayAssign { name: String, index_exp: Exp, value: Exp },
    Exp(Exp),
    Nest(Nest),
}

/// One statement of a block.
#[derive(Debug)]
pub struct Statement {
    pub statement: StatementKind,
}

/// The control-flow constructs.
#[derive(Debug)]
pub enum NestKind {
    If { cond: Exp, then: Block },
    IfElse { cond: Exp, then: Block, else_: Block },
    While { cond: Exp, block: Block },
}

/// A control-flow statement.
#[derive(Debug)]
pub struct Nest {
    pub nest: NestKind,
}

/// The forms an expression can take. A numeric literal holds the bit
/// pattern of the double it denotes.
#[derive(Debug)]
pub enum ExpKind {
    Name(String),
    Num(u64),
    ArrayInit { size: Exp },
    Infix(Exp, Op, Exp),
    ArrayAccess { name: String, index: Exp },
    Call(String, Exps),
    BuiltIn(BuiltIn),
    Paren(Exp),
    Unary(Unop, Exp),
}

/// One expression node, owning its kind.
#[derive(Debug)]
pub struct Exp {
    pub exp: Box<ExpKind>,
}

/// An ordered list of actual-argument expressions.
#[derive(Debug)]
pub struct Exps {
    pub exps: Vec<Exp>,
}

/// The unary operators.
#[derive(Debug, Clone)]
pub enum UnopKind {
    Not,
    Neg,
}

/// A unary operator.
#[derive(Debug, Clone)]
pub struct Unop {
    pub unop: UnopKind,
}

/// The binary operators.
#[derive(Debug, Clone)]
pub enum OpKind {
    Logical(Logical),
    Comparison(Comparison),
    Plus,
    Mul,
    Minus,
    Div,
    Mod,
}

/// A binary operator.
#[derive(Debug, Clone)]
pub struct Op {
    pub op: OpKind,
}

/// The logical connectives.
#[derive(Debug, Clone)]
pub enum LogicalKind {
    Or,
    And,
}

/// A logical connective.
#[derive(Debug, Clone)]
pub struct Logical {
    pub logical: LogicalKind,
}

/// The comparison operators.
#[derive(Debug, Clone)]
pub enum ComparisonKind {
    Equals,
    Less,
    More,
    LessEqual,
    MoreEqual,
    NotEqual,
}

/// A comparison operator.
#[derive(Debug, Clone)]
pub struct Comparison {
    pub comparison: ComparisonKind,
}

/// The built-in functions, each with its unevaluated actual arguments.
#[derive(Debug)]
pub enum BuiltInKind {
    Sqrt(Exps),
    Len(Exps),
    Round(Exps),
    Input(Exps),
}

/// A built-in function call.
#[derive(Debug)]
pub struct BuiltIn {
    pub builtin: BuiltInKind,
}

} // verus!
