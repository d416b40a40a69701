//! Lookup tables from tokens to operators and built-ins.

use vstd::prelude::*;

use super::ASTError;
use crate::interpreter::symbols::{
    BuiltInKind,
    Comparison,
    ComparisonKind,
    Exps,
    Logical,
    LogicalKind,
    OpKind,
    UnopKind,
};
use crate::tokens::Token;

verus! {

/// The binary operator a token denotes, if any.
pub open spec fn infix_of(t: Token) -> Option<OpKind> {
    match t {
        Token::Plus => Some(OpKind::Plus),
        Token::Minus => Some(OpKind::Minus),
        Token::Mul => Some(OpKind::Mul),
        Token::Div => Some(OpKind::Div),
        Token::Mod => Some(OpKind::Mod),
        Token::Or => Some(OpKind::Logical(Logical { logical: LogicalKind::Or })),
        Token::And => Some(OpKind::Logical(Logical { logical: LogicalKind::And })),
        Token::Equals => Some(
            OpKind::Comparison(Comparison { comparison: ComparisonKind::Equals }),
        ),
        Token::Less => Some(OpKind::Comparison(Comparison { comparison: ComparisonKind::Less })),
        Token::More => Some(OpKind::Comparison(Comparison { comparison: ComparisonKind::More })),
        Token::LessEqual => Some(
            OpKind::Comparison(Comparison { comparison: ComparisonKind::LessEqual }),
        ),
        Token::MoreEqual => Some(
            OpKind::Comparison(Comparison { comparison: ComparisonKind::MoreEqual }),
        ),
        Token::NotEqual => Some(
            OpKind::Comparison(Comparison { comparison: ComparisonKind::NotEqual }),
        ),
        _ => None,
    }
}

/// The unary operator a token denotes, if any.
pub open spec fn unop_of(t: Token) -> Option<UnopKind> {
    match t {
        Token::Minus => Some(UnopKind::Neg),
        Token::Not => Some(UnopKind::Not),
        _ => None,
    }
}

/// Whether the token names a built-in function.
pub open spec fn is_builtin_token(t: Token) -> bool {
    t == Token::Sqrt || t == Token::Len || t == Token::Round || t == Token::Input
}

/// That the built-in call pairs the token's built-in with the arguments.
pub open spec fn builtin_matches(t: Token, exps: Exps, b: BuiltInKind) -> bool {
    match b {
        BuiltInKind::Sqrt(e) => t == Token::Sqrt && e == exps,
        BuiltInKind::Len(e) => t == Token::Len && e == exps,
        BuiltInKind::Round(e) => t == Token::Round && e == exps,
        BuiltInKind::Input(e) => t == Token::Input && e == exps,
    }
}

/// Converts a token to the binary operator it denotes; any other token
/// is an invalid-operator fault naming it.
pub fn lookup_infix(token: Token) -> (r: Result<OpKind, ASTError>)
    ensures
        match infix_of(token) {
            Some(op) => r matches Ok(o) && o == op,
            None => r matches Err(e) && e matches ASTError::InvalidOperator(t) && t == token,
        },
{
    match token {
        Token::Plus => Ok(OpKind::Plus),
        Token::Minus => Ok(OpKind::Minus),
        Token::Mul => Ok(OpKind::Mul),
        Token::Div => Ok(OpKind::Div),
        Token::Mod => Ok(OpKind::Mod),
        Token::Or => Ok(OpKind::Logical(Logical { logical: LogicalKind::Or })),
        Token::And => Ok(OpKind::Logical(Logical { logical: LogicalKind::And })),
        Token::Equals => Ok(OpKind::Comparison(Comparison { comparison: ComparisonKind::Equals })),
        Token::Less => Ok(OpKind::Comparison(Comparison { comparison: ComparisonKind::Less })),
        Token::More => Ok(OpKind::Comparison(Comparison { comparison: ComparisonKind::More })),
        Token::LessEqual => Ok(
            OpKind::Comparison(Comparison { comparison: ComparisonKind::LessEqual }),
        ),
        Token::MoreEqual => Ok(
            OpKind::Comparison(Comparison { comparison: ComparisonKind::MoreEqual }),
        ),
        Token::NotEqual => Ok(
            OpKind::Comparison(Comparison { comparison: ComparisonKind::NotEqual }),
        ),
        other => Err(ASTError::InvalidOperator(other)),
    }
}

/// Converts a token to the built-in call it names, with the given actual
/// arguments; any other token is an invalid-built-in fault naming it.
pub fn lookup_builtin(token: Token, exps: Exps) -> (r: Result<BuiltInKind, ASTError>)
    ensures
        if is_builtin_token(token) {
            r matches Ok(b) && builtin_matches(token, exps, b)
        } else {
            r matches Err(e) && e matches ASTError::InvalidBuiltin(t) && t == token
        },
{
    match token {
        Token::Sqrt => Ok(BuiltInKind::Sqrt(exps)),
        Token::Len => Ok(BuiltInKind::Len(exps)),
        Token::Round => Ok(BuiltInKind::Round(exps)),
        Token::Input => Ok(BuiltInKind::Input(exps)),
        other => Err(ASTError::InvalidBuiltin(other)),
    }
}

/// Converts a token to the unary operator it denotes; any other token is
/// an invalid-operator fault naming it.
pub fn lookup_unop(token: Token) -> (r: Result<UnopKind, ASTError>)
    ensures
        match unop_of(token) {
            Some(u) => r matches Ok(o) && o == u,
            None => r matches Err(e) && e matches ASTError::InvalidOperator(t) && t == token,
        },
{
    match token {
        Token::Minus => Ok(UnopKind::Neg),
        Token::Not => Ok(UnopKind::Not),
        other => Err(ASTError::InvalidOperator(other)),
    }
}

} // verus!
