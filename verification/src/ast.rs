//! The recursive-descent parser: tokens to syntax tree.
//!
//! The parser consumes the scanner's token stream with one token of
//! lookahead, resolving the statement and expression ambiguities the
//! grammar leaves by looking one token past a leading name, and chaining
//! binary operators flat and to the right — there are no precedence
//! levels. The relations below state, position by position of the source
//! text, which tree a parse that succeeds must have produced and where it
//! ended; every parsing function's contract says its result stands in
//! that relation to the text it consumed.

use vstd::prelude::*;

pub mod lookup;

use crate::interpreter::symbols::{
    Args,
    Block,
    BuiltIn,
    BuiltInKind,
    Def,
    Exp,
    ExpKind,
    Exps,
    Nest,
    NestKind,
    Op,
    OpKind,
    Program,
    Statement,
    StatementKind,
    Unop,
};
use crate::scanner::{lex_err, lexes, skip_to, Scanner, ScannerError};
use crate::tokens::{spec_discriminant, Token, TokenDiscriminants};
use lookup::{infix_of, is_builtin_token, unop_of};

verus! {

/// A fault that stops parsing: a lexical fault passed through, or a
/// token where the grammar allows no such token.
#[derive(Debug)]
pub enum ASTError {
    ScannerError(ScannerError),
    UnexpectedToken(Token),
    InvalidOperator(Token),
    InvalidBuiltin(Token),
}

/// How much text a scanner state has left: unread bytes, plus one while
/// the pending token is not yet `Eof`.
pub open spec fn rem(bytes: Seq<u8>, i: int, t: Token) -> int {
    bytes.len() - i + if t is Eof {
        0int
    } else {
        1int
    }
}

/// That state `(j, u)` has strictly less text left than `(i, t)`, and
/// not less than none.
#[verifier::inline]
pub open spec fn dec_to(bytes: Seq<u8>, i: int, t: Token, j: int, u: Token) -> bool {
    0 <= rem(bytes, j, u) && rem(bytes, j, u) < rem(bytes, i, t)
}

/// That state `(j, u)` has no more text left than `(i, t)`, and not less
/// than none.
#[verifier::inline]
pub open spec fn dec_to_eq(bytes: Seq<u8>, i: int, t: Token, j: int, u: Token) -> bool {
    0 <= rem(bytes, j, u) && rem(bytes, j, u) <= rem(bytes, i, t)
}

/// One lookahead step: consuming the pending token of state `(i, t)`
/// leaves the scanner at `(j, u)`, with strictly less text left.
pub open spec fn step_from(bytes: Seq<u8>, i: int, t: Token, j: int, u: Token) -> bool {
    lexes(bytes, skip_to(bytes, i), j, u) && 0 <= rem(bytes, j, u) < rem(bytes, i, t)
}

/// The tokens that end a plain number or name expression.
pub open spec fn is_exp_end(t: Token) -> bool {
    t is SColon || t is Comma || t is RParen || t is RBracket
}

/// The tokens after which an already-parsed sub-expression stands alone
/// rather than becoming the left operand of an operator: a terminator,
/// including the comma that separates call arguments.
pub open spec fn is_preexp_end(t: Token) -> bool {
    t is SColon || t is Comma || t is LCurly || t is RParen || t is RBracket
}

/// The token that names a built-in call.
pub open spec fn builtin_token_of(b: BuiltInKind) -> Token {
    match b {
        BuiltInKind::Sqrt(_) => Token::Sqrt,
        BuiltInKind::Len(_) => Token::Len,
        BuiltInKind::Round(_) => Token::Round,
        BuiltInKind::Input(_) => Token::Input,
    }
}

/// The actual arguments of a built-in call.
pub open spec fn builtin_args_of(b: BuiltInKind) -> Exps {
    match b {
        BuiltInKind::Sqrt(e) => e,
        BuiltInKind::Len(e) => e,
        BuiltInKind::Round(e) => e,
        BuiltInKind::Input(e) => e,
    }
}

/// That parsing an expression from state `(i1, t1)` succeeds with tree
/// `e`, ending at `(i2, t2)`.
pub open spec fn exp_parses(bytes: Seq<u8>, i1: int, t1: Token, i2: int, t2: Token, e: Exp) -> bool
    decreases rem(bytes, i1, t1), 3int,
{
    dec_to(bytes, i1, t1, i2, t2) && match t1 {
        Token::Name(nm) => exists|j: int, u: Token|
            #[trigger] step_from(bytes, i1, t1, j, u) && dec_to(bytes, i1, t1, j, u)
                && exp_name_parses(bytes, j, u, i2, t2, nm@, e),
        Token::Num(b) => exists|j: int, u: Token|
            #[trigger] step_from(bytes, i1, t1, j, u) && dec_to(bytes, i1, t1, j, u)
                && (if is_exp_end(u) {
                *e.exp == ExpKind::Num(b) && i2 == j && t2 == u
            } else {
                &&& *e.exp matches ExpKind::Infix(l, o, r)
                &&& *l.exp == ExpKind::Num(b)
                &&& infix_of(u) == Some(o.op)
                &&& exists|j2: int, u2: Token|
                    #[trigger] step_from(bytes, j, u, j2, u2) && dec_to(bytes, j, u, j2, u2) && exp_parses(bytes, j2, u2, i2, t2, r)
            }),
        Token::LBracket => exists|j: int, u: Token|
            #[trigger] step_from(bytes, i1, t1, j, u) && dec_to(bytes, i1, t1, j, u)
                && exists|pre: Exp|
                #![trigger pre.exp]
                {
                    &&& (*pre.exp) matches ExpKind::ArrayInit { size }
                    &&& exists|j2: int, u2: Token|
                        #![trigger rem(bytes, j2, u2)]
                        {
                            &&& exp_parses(bytes, j, u, j2, u2, size)
                            &&& dec_to(bytes, j, u, j2, u2)
                            &&& u2 is RBracket
                            &&& exists|j3: int, u3: Token|
                                #[trigger] step_from(bytes, j2, u2, j3, u3) && dec_to(bytes, j2, u2, j3, u3) && preexp_parses(
                                    bytes,
                                    j3,
                                    u3,
                                    i2,
                                    t2,
                                    pre,
                                    e,
                                )
                        }
                },
        Token::LParen => exists|j: int, u: Token|
            #[trigger] step_from(bytes, i1, t1, j, u) && dec_to(bytes, i1, t1, j, u)
                && exists|pre: Exp, j2: int, u2: Token|
                #![trigger pre.exp, rem(bytes, j2, u2)]
                {
                    &&& exp_parses(bytes, j, u, j2, u2, pre)
                    &&& dec_to(bytes, j, u, j2, u2)
                    &&& u2 is RParen
                    &&& exists|j3: int, u3: Token|
                        #[trigger] step_from(bytes, j2, u2, j3, u3) && dec_to(bytes, j2, u2, j3, u3) && preexp_parses(bytes, j3, u3, i2, t2, pre, e)
                },
        Token::Minus | Token::Not => {
            &&& *e.exp matches ExpKind::Unary(un, inner)
            &&& unop_of(t1) == Some(un.unop)
            &&& exists|j: int, u: Token|
                #[trigger] step_from(bytes, i1, t1, j, u) && dec_to(bytes, i1, t1, j, u)
                    && exp_parses(bytes, j, u, i2, t2, inner)
        },
        Token::Sqrt | Token::Len | Token::Round | Token::Input => exists|j: int, u: Token|
            #[trigger] step_from(bytes, i1, t1, j, u) && dec_to(bytes, i1, t1, j, u)
                && exists|pre: Exp|
                #![trigger pre.exp]
                {
                    &&& (*pre.exp) matches ExpKind::BuiltIn(bi)
                    &&& builtin_token_of(bi.builtin) == t1
                    &&& exists|jA: int, uA: Token|
                        #![trigger rem(bytes, jA, uA)]
                        {
                            exps_parses(bytes, j, u, jA, uA, builtin_args_of(bi.builtin).exps@)
                                && dec_to(bytes, j, u, jA, uA) && preexp_parses(
                                bytes,
                                jA,
                                uA,
                                i2,
                                t2,
                                pre,
                                e,
                            )
                        }
                },
        _ => false,
    }
}

/// That parsing continues an expression whose leading name, already
/// consumed, reads `name`: the name alone, a call, an array access, or
/// the left operand of an operator chain.
pub open spec fn exp_name_parses(
    bytes: Seq<u8>,
    i1: int,
    t1: Token,
    i2: int,
    t2: Token,
    name: Seq<char>,
    e: Exp,
) -> bool
    decreases rem(bytes, i1, t1), 2int,
{
    if is_exp_end(t1) {
        &&& *e.exp matches ExpKind::Name(s)
        &&& s@ == name
        &&& i2 == i1
        &&& t2 == t1
    } else {
        match t1 {
            Token::LParen => {
                &&& *e.exp matches ExpKind::Call(cnm, exps)
                &&& cnm@ == name
                &&& exists|j: int, u: Token|
                    #[trigger] step_from(bytes, i1, t1, j, u) && dec_to(bytes, i1, t1, j, u) && exists|jA: int, uA: Token|
                        #![trigger rem(bytes, jA, uA)]
                        {
                            &&& call_args_parse(bytes, j, u, jA, uA, exps.exps@)
                            &&& uA is RParen
                            &&& exists|j2: int, u2: Token|
                                #[trigger] step_from(bytes, jA, uA, j2, u2) && i2 == j2 && t2 == u2
                        }
            },
            Token::LBracket => {
                &&& *e.exp matches ExpKind::ArrayAccess { name: anm, index }
                &&& anm@ == name
                &&& exists|j: int, u: Token|
                    #[trigger] step_from(bytes, i1, t1, j, u) && dec_to(bytes, i1, t1, j, u) && exists|jA: int, uA: Token|
                        #![trigger rem(bytes, jA, uA)]
                        {
                            &&& exp_parses(bytes, j, u, jA, uA, index)
                            &&& uA is RBracket
                            &&& exists|j2: int, u2: Token|
                                #[trigger] step_from(bytes, jA, uA, j2, u2) && i2 == j2 && t2 == u2
                        }
            },
            _ => {
                &&& *e.exp matches ExpKind::Infix(l, o, r)
                &&& *l.exp matches ExpKind::Name(s)
                &&& s@ == name
                &&& infix_of(t1) == Some(o.op)
                &&& exists|j: int, u: Token|
                    #[trigger] step_from(bytes, i1, t1, j, u) && dec_to(bytes, i1, t1, j, u) && exp_parses(bytes, j, u, i2, t2, r)
            },
        }
    }
}

/// That a just-parsed sub-expression `pre` either stands alone as `e`,
/// the pending token ending it, or becomes the left operand of the
/// pending operator.
pub open spec fn preexp_parses(
    bytes: Seq<u8>,
    i1: int,
    t1: Token,
    i2: int,
    t2: Token,
    pre: Exp,
    e: Exp,
) -> bool
    decreases rem(bytes, i1, t1), 2int,
{
    if is_preexp_end(t1) {
        e == pre && i2 == i1 && t2 == t1
    } else {
        &&& *e.exp matches ExpKind::Infix(l, o, r)
        &&& l == pre
        &&& infix_of(t1) == Some(o.op)
        &&& exists|j: int, u: Token|
            #[trigger] step_from(bytes, i1, t1, j, u) && dec_to(bytes, i1, t1, j, u)
                && exp_parses(bytes, j, u, i2, t2, r)
    }
}

/// That the comma-separated actual arguments of a call parse as `es`,
/// ending with the closing parenthesis pending; a comma after an
/// argument is consumed but not required.
pub open spec fn call_args_parse(
    bytes: Seq<u8>,
    i1: int,
    t1: Token,
    i2: int,
    t2: Token,
    es: Seq<Exp>,
) -> bool
    decreases rem(bytes, i1, t1), 4int,
{
    if t1 is RParen {
        es.len() == 0 && i2 == i1 && t2 == t1
    } else {
        es.len() > 0 && exists|jA: int, uA: Token|
            #![trigger rem(bytes, jA, uA)]
            {
                exp_parses(bytes, i1, t1, jA, uA, es[0]) && dec_to(bytes, i1, t1, jA, uA) && (
                if uA is Comma {
                    exists|j2: int, u2: Token|
                        #[trigger] step_from(bytes, jA, uA, j2, u2) && dec_to(bytes, jA, uA, j2, u2)
                            && call_args_parse(bytes, j2, u2, i2, t2, es.drop_first())
                } else {
                    call_args_parse(bytes, jA, uA, i2, t2, es.drop_first())
                })
            }
    }
}

/// That a parenthesized, comma-separated argument list parses as `es`,
/// both parentheses consumed; here a comma is required between
/// arguments.
pub open spec fn exps_parses(
    bytes: Seq<u8>,
    i1: int,
    t1: Token,
    i2: int,
    t2: Token,
    es: Seq<Exp>,
) -> bool
    decreases rem(bytes, i1, t1), 5int,
{
    t1 is LParen && exists|j: int, u: Token|
        #[trigger] step_from(bytes, i1, t1, j, u) && dec_to(bytes, i1, t1, j, u)
            && exists|jA: int, uA: Token|
            #![trigger rem(bytes, jA, uA)]
            {
                &&& exps_items_parse(bytes, j, u, jA, uA, es)
                &&& uA is RParen
                &&& exists|j2: int, u2: Token|
                    #[trigger] step_from(bytes, jA, uA, j2, u2) && i2 == j2 && t2 == u2
            }
}

/// That the items of a built-in's argument list parse as `es`, ending
/// with the closing parenthesis pending.
pub open spec fn exps_items_parse(
    bytes: Seq<u8>,
    i1: int,
    t1: Token,
    i2: int,
    t2: Token,
    es: Seq<Exp>,
) -> bool
    decreases rem(bytes, i1, t1), 4int,
{
    if t1 is RParen {
        es.len() == 0 && i2 == i1 && t2 == t1
    } else {
        es.len() > 0 && exists|jA: int, uA: Token|
            #![trigger rem(bytes, jA, uA)]
            {
                exp_parses(bytes, i1, t1, jA, uA, es[0]) && dec_to(bytes, i1, t1, jA, uA) && (
                if uA is RParen {
                    es.len() == 1 && i2 == jA && t2 == uA
                } else {
                    uA is Comma && exists|j2: int, u2: Token|
                        #[trigger] step_from(bytes, jA, uA, j2, u2) && dec_to(bytes, jA, uA, j2, u2)
                            && exps_items_parse(bytes, j2, u2, i2, t2, es.drop_first())
                })
            }
    }
}


/// That consuming the pending token of the state at `i` fails lexically,
/// the fault wrapped the way the parser reports it.
pub open spec fn step_fails(bytes: Seq<u8>, i: int, e: ASTError) -> bool {
    e matches ASTError::ScannerError(se) && lex_err(bytes, skip_to(bytes, i), se)
}

/// That demanding tag `variant` of the pending token `t` at `i` fails:
/// lexing the following token fails, or the tag is another — the pending
/// token is consumed either way and reported on a mismatch.
pub open spec fn consume_fails(
    bytes: Seq<u8>,
    i: int,
    t: Token,
    variant: TokenDiscriminants,
    e: ASTError,
) -> bool {
    step_fails(bytes, i, e) || ((exists|j: int, u: Token|
        #[trigger] lexes(bytes, skip_to(bytes, i), j, u)) && spec_discriminant(t) != variant && e
        == ASTError::UnexpectedToken(t))
}

/// That some expression parses from `(i1, t1)` to `(i2, t2)`.
pub open spec fn exp_to(bytes: Seq<u8>, i1: int, t1: Token, i2: int, t2: Token) -> bool {
    exists|x: Exp| #![trigger x.exp] exp_parses(bytes, i1, t1, i2, t2, x)
}

/// That some continuation of a name parses from `(i1, t1)` to `(i2, t2)`.
pub open spec fn exp_name_to(
    bytes: Seq<u8>,
    i1: int,
    t1: Token,
    i2: int,
    t2: Token,
    name: Seq<char>,
) -> bool {
    exists|x: Exp| #![trigger x.exp] exp_name_parses(bytes, i1, t1, i2, t2, name, x)
}

/// That some continuation of some sub-expression parses from `(i1, t1)`
/// to `(i2, t2)`.
pub open spec fn preexp_to(bytes: Seq<u8>, i1: int, t1: Token, i2: int, t2: Token) -> bool {
    exists|pre: Exp, x: Exp| #![trigger pre.exp, x.exp] preexp_parses(bytes, i1, t1, i2, t2, pre, x)
}

/// That some call-argument list parses from `(i1, t1)` to `(i2, t2)`.
pub open spec fn call_args_to(bytes: Seq<u8>, i1: int, t1: Token, i2: int, t2: Token) -> bool {
    exists|es: Seq<Exp>| #![trigger es.len()] call_args_parse(bytes, i1, t1, i2, t2, es)
}

/// That some built-in argument list parses from `(i1, t1)` to `(i2, t2)`,
/// both parentheses consumed.
pub open spec fn exps_to(bytes: Seq<u8>, i1: int, t1: Token, i2: int, t2: Token) -> bool {
    exists|es: Seq<Exp>| #![trigger es.len()] exps_parses(bytes, i1, t1, i2, t2, es)
}

/// That some built-in argument items parse from `(i1, t1)` to `(i2, t2)`.
pub open spec fn exps_items_to(bytes: Seq<u8>, i1: int, t1: Token, i2: int, t2: Token) -> bool {
    exists|es: Seq<Exp>| #![trigger es.len()] exps_items_parse(bytes, i1, t1, i2, t2, es)
}

/// That some statement parses from `(i1, t1)` to `(i2, t2)`.
pub open spec fn statement_to(bytes: Seq<u8>, i1: int, t1: Token, i2: int, t2: Token) -> bool {
    exists|s: Statement| #![trigger s.statement] statement_parses(bytes, i1, t1, i2, t2, s)
}

/// That some statement list parses from `(i1, t1)` to `(i2, t2)`.
pub open spec fn stmts_to(bytes: Seq<u8>, i1: int, t1: Token, i2: int, t2: Token) -> bool {
    exists|ss: Seq<Statement>| #![trigger ss.len()] stmts_parse(bytes, i1, t1, i2, t2, ss)
}

/// That some expression-and-condition block parses from `(i1, t1)` to
/// `(i2, t2)`.
pub open spec fn block_to(bytes: Seq<u8>, i1: int, t1: Token, i2: int, t2: Token) -> bool {
    exists|bk: Block| #![trigger bk.statements] block_parses(bytes, i1, t1, i2, t2, bk)
}

/// That some parameter-name list parses from `(i1, t1)` to `(i2, t2)`.
pub open spec fn args_to(bytes: Seq<u8>, i1: int, t1: Token, i2: int, t2: Token) -> bool {
    exists|names: Seq<String>| #![trigger names.len()] args_parse(bytes, i1, t1, i2, t2, names)
}

/// That some definition parses from `(i1, t1)` to `(i2, t2)`.
pub open spec fn def_to(bytes: Seq<u8>, i1: int, t1: Token, i2: int, t2: Token) -> bool {
    exists|d: Def| #![trigger d.block] def_parses(bytes, i1, t1, i2, t2, d)
}

/// That parsing an expression from `(i1, t1)` fails with exactly `e`: a
/// token no expression starts with, a lexical fault at any step, a token
/// that is no operator where one is due, or the same in a sub-expression.
pub open spec fn exp_fails(bytes: Seq<u8>, i1: int, t1: Token, e: ASTError) -> bool
    decreases rem(bytes, i1, t1), 3int,
{
    match t1 {
        Token::Name(_) => step_fails(bytes, i1, e) || exists|j: int, u: Token|
            #[trigger] lexes(bytes, skip_to(bytes, i1), j, u) && dec_to(bytes, i1, t1, j, u)
                && exp_name_fails(bytes, j, u, e),
        Token::Num(_) => step_fails(bytes, i1, e) || exists|j: int, u: Token|
            #[trigger] lexes(bytes, skip_to(bytes, i1), j, u) && dec_to(bytes, i1, t1, j, u)
                && !is_exp_end(u) && (step_fails(bytes, j, e) || exists|j2: int, u2: Token|
                #[trigger] lexes(bytes, skip_to(bytes, j), j2, u2) && ((infix_of(u) is None && e
                    == ASTError::InvalidOperator(u)) || (infix_of(u) is Some && dec_to(
                    bytes,
                    j,
                    u,
                    j2,
                    u2,
                ) && exp_fails(bytes, j2, u2, e)))),
        Token::LBracket => step_fails(bytes, i1, e) || exists|j: int, u: Token|
            #[trigger] lexes(bytes, skip_to(bytes, i1), j, u) && dec_to(bytes, i1, t1, j, u) && (
            exp_fails(bytes, j, u, e) || exists|j2: int, u2: Token|
                #[trigger] exp_to(bytes, j, u, j2, u2) && dec_to(bytes, j, u, j2, u2) && (
                consume_fails(bytes, j2, u2, TokenDiscriminants::RBracket, e) || (u2 is RBracket
                    && exists|j3: int, u3: Token|
                    #[trigger] lexes(bytes, skip_to(bytes, j2), j3, u3) && dec_to(
                        bytes,
                        j2,
                        u2,
                        j3,
                        u3,
                    ) && preexp_fails(bytes, j3, u3, e)))),
        Token::LParen => step_fails(bytes, i1, e) || exists|j: int, u: Token|
            #[trigger] lexes(bytes, skip_to(bytes, i1), j, u) && dec_to(bytes, i1, t1, j, u) && (
            exp_fails(bytes, j, u, e) || exists|j2: int, u2: Token|
                #[trigger] exp_to(bytes, j, u, j2, u2) && dec_to(bytes, j, u, j2, u2) && (
                consume_fails(bytes, j2, u2, TokenDiscriminants::RParen, e) || (u2 is RParen
                    && exists|j3: int, u3: Token|
                    #[trigger] lexes(bytes, skip_to(bytes, j2), j3, u3) && dec_to(
                        bytes,
                        j2,
                        u2,
                        j3,
                        u3,
                    ) && preexp_fails(bytes, j3, u3, e)))),
        Token::Minus | Token::Not => step_fails(bytes, i1, e) || exists|j: int, u: Token|
            #[trigger] lexes(bytes, skip_to(bytes, i1), j, u) && dec_to(bytes, i1, t1, j, u)
                && exp_fails(bytes, j, u, e),
        Token::Sqrt | Token::Len | Token::Round | Token::Input => step_fails(bytes, i1, e)
            || exists|j: int, u: Token|
            #[trigger] lexes(bytes, skip_to(bytes, i1), j, u) && dec_to(bytes, i1, t1, j, u) && (
            exps_fails(bytes, j, u, e) || exists|jA: int, uA: Token|
                #[trigger] exps_to(bytes, j, u, jA, uA) && dec_to(bytes, j, u, jA, uA)
                    && preexp_fails(bytes, jA, uA, e)),
        _ => e == ASTError::UnexpectedToken(t1),
    }
}

/// That continuing an expression after its consumed leading name fails
/// with exactly `e`.
pub open spec fn exp_name_fails(bytes: Seq<u8>, i1: int, t1: Token, e: ASTError) -> bool
    decreases rem(bytes, i1, t1), 2int,
{
    !is_exp_end(t1) && match t1 {
        Token::LParen => step_fails(bytes, i1, e) || exists|j: int, u: Token|
            #[trigger] lexes(bytes, skip_to(bytes, i1), j, u) && dec_to(bytes, i1, t1, j, u) && (
            call_args_fails(bytes, j, u, e) || exists|jA: int, uA: Token|
                #[trigger] call_args_to(bytes, j, u, jA, uA) && dec_to_eq(bytes, j, u, jA, uA)
                    && consume_fails(bytes, jA, uA, TokenDiscriminants::RParen, e)),
        Token::LBracket => step_fails(bytes, i1, e) || exists|j: int, u: Token|
            #[trigger] lexes(bytes, skip_to(bytes, i1), j, u) && dec_to(bytes, i1, t1, j, u) && (
            exp_fails(bytes, j, u, e) || exists|jA: int, uA: Token|
                #[trigger] exp_to(bytes, j, u, jA, uA) && dec_to(bytes, j, u, jA, uA)
                    && consume_fails(bytes, jA, uA, TokenDiscriminants::RBracket, e)),
        _ => step_fails(bytes, i1, e) || exists|j: int, u: Token|
            #[trigger] lexes(bytes, skip_to(bytes, i1), j, u) && ((infix_of(t1) is None && e
                == ASTError::InvalidOperator(t1)) || (infix_of(t1) is Some && dec_to(
                bytes,
                i1,
                t1,
                j,
                u,
            ) && exp_fails(bytes, j, u, e))),
    }
}

/// That continuing a just-parsed sub-expression fails with exactly `e`:
/// the pending token, consumed, is no operator, or the right operand
/// fails.
pub open spec fn preexp_fails(bytes: Seq<u8>, i1: int, t1: Token, e: ASTError) -> bool
    decreases rem(bytes, i1, t1), 2int,
{
    !is_preexp_end(t1) && (step_fails(bytes, i1, e) || exists|j: int, u: Token|
        #[trigger] lexes(bytes, skip_to(bytes, i1), j, u) && ((infix_of(t1) is None && e
            == ASTError::InvalidOperator(t1)) || (infix_of(t1) is Some && dec_to(
            bytes,
            i1,
            t1,
            j,
            u,
        ) && exp_fails(bytes, j, u, e))))
}

/// That parsing a call's argument list fails with exactly `e`.
pub open spec fn call_args_fails(bytes: Seq<u8>, i1: int, t1: Token, e: ASTError) -> bool
    decreases rem(bytes, i1, t1), 4int,
{
    !(t1 is RParen) && (exp_fails(bytes, i1, t1, e) || exists|jA: int, uA: Token|
        #[trigger] exp_to(bytes, i1, t1, jA, uA) && dec_to(bytes, i1, t1, jA, uA) && (if uA
            is Comma {
            step_fails(bytes, jA, e) || exists|j2: int, u2: Token|
                #[trigger] lexes(bytes, skip_to(bytes, jA), j2, u2) && dec_to(bytes, jA, uA, j2, u2)
                    && call_args_fails(bytes, j2, u2, e)
        } else {
            call_args_fails(bytes, jA, uA, e)
        }))
}

/// That parsing a built-in's argument items fails with exactly `e`: an
/// item fails, or an item is followed by neither comma nor closing
/// parenthesis.
pub open spec fn exps_items_fails(bytes: Seq<u8>, i1: int, t1: Token, e: ASTError) -> bool
    decreases rem(bytes, i1, t1), 4int,
{
    !(t1 is RParen) && (exp_fails(bytes, i1, t1, e) || exists|jA: int, uA: Token|
        #[trigger] exp_to(bytes, i1, t1, jA, uA) && dec_to(bytes, i1, t1, jA, uA) && !(uA
            is RParen) && (consume_fails(bytes, jA, uA, TokenDiscriminants::Comma, e) || (uA
            is Comma && exists|j2: int, u2: Token|
            #[trigger] lexes(bytes, skip_to(bytes, jA), j2, u2) && dec_to(bytes, jA, uA, j2, u2)
                && exps_items_fails(bytes, j2, u2, e))))
}

/// That parsing a parenthesized built-in argument list fails with
/// exactly `e`.
pub open spec fn exps_fails(bytes: Seq<u8>, i1: int, t1: Token, e: ASTError) -> bool
    decreases rem(bytes, i1, t1), 5int,
{
    consume_fails(bytes, i1, t1, TokenDiscriminants::LParen, e) || (t1 is LParen && exists|
        j: int,
        u: Token,
    |
        #[trigger] lexes(bytes, skip_to(bytes, i1), j, u) && dec_to(bytes, i1, t1, j, u) && (
        exps_items_fails(bytes, j, u, e) || exists|jA: int, uA: Token|
            #[trigger] exps_items_to(bytes, j, u, jA, uA) && dec_to_eq(bytes, j, u, jA, uA)
                && consume_fails(bytes, jA, uA, TokenDiscriminants::RParen, e)))
}

/// That parsing a statement from state `(i1, t1)` succeeds with
/// statement `s`, ending at `(i2, t2)`.
pub open spec fn statement_parses(
    bytes: Seq<u8>,
    i1: int,
    t1: Token,
    i2: int,
    t2: Token,
    s: Statement,
) -> bool
    decreases rem(bytes, i1, t1), 6int,
{
    dec_to(bytes, i1, t1, i2, t2) && match t1 {
        Token::Return => {
            &&& s.statement matches StatementKind::Return(e)
            &&& exists|j: int, u: Token|
                #[trigger] step_from(bytes, i1, t1, j, u) && exists|jA: int, uA: Token|
                    #![trigger rem(bytes, jA, uA)]
                    {
                        &&& exp_parses(bytes, j, u, jA, uA, e)
                        &&& uA is SColon
                        &&& exists|j2: int, u2: Token|
                            #[trigger] step_from(bytes, jA, uA, j2, u2) && i2 == j2 && t2 == u2
                    }
        },
        Token::If | Token::While => {
            &&& s.statement matches StatementKind::Nest(n)
            &&& nest_parses(bytes, i1, t1, i2, t2, n)
        },
        Token::Name(nm) => exists|j: int, u: Token|
            #[trigger] step_from(bytes, i1, t1, j, u) && dec_to(bytes, i1, t1, j, u)
                && (match u {
                Token::Assign => {
                    &&& s.statement matches StatementKind::Assign { name, exp }
                    &&& name@ == nm@
                    &&& exists|j2: int, u2: Token|
                        #[trigger] step_from(bytes, j, u, j2, u2) && dec_to(bytes, j, u, j2, u2) && exists|jA: int, uA: Token|
                            #![trigger rem(bytes, jA, uA)]
                            {
                                &&& exp_parses(bytes, j2, u2, jA, uA, exp)
                                &&& uA is SColon
                                &&& exists|j3: int, u3: Token|
                                    #[trigger] step_from(bytes, jA, uA, j3, u3) && i2 == j3 && t2
                                        == u3
                            }
                },
                Token::LBracket => exists|j2: int, u2: Token|
                    #[trigger] step_from(bytes, j, u, j2, u2) && dec_to(bytes, j, u, j2, u2) && (
                    // index expression, then the closing bracket
                    exists|jA: int, uA: Token, j3: int, u3: Token|
                        {
                            &&& uA is RBracket
                            &&& dec_to(bytes, j2, u2, jA, uA)
                            &&& #[trigger] step_from(bytes, jA, uA, j3, u3)
                            &&& dec_to(bytes, jA, uA, j3, u3)
                            &&& (if u3 is Assign {
                                &&& s.statement matches StatementKind::ArrayAssign {
                                    name,
                                    index_exp,
                                    value,
                                }
                                &&& name@ == nm@
                                &&& exp_parses(bytes, j2, u2, jA, uA, index_exp)
                                &&& exists|j4: int, u4: Token|
                                    #[trigger] step_from(bytes, j3, u3, j4, u4) && dec_to(bytes, j3, u3, j4, u4) && exists|
                                        jB: int,
                                        uB: Token,
                                    |
                                        #![trigger rem(bytes, jB, uB)]
                                        {
                                            &&& exp_parses(bytes, j4, u4, jB, uB, value)
                                            &&& uB is SColon
                                            &&& exists|j5: int, u5: Token|
                                                #[trigger] step_from(bytes, jB, uB, j5, u5) && i2
                                                    == j5 && t2 == u5
                                        }
                            } else {
                                &&& s.statement matches StatementKind::Exp(e)
                                &&& exists|pre: Exp|
                                    #![trigger pre.exp]
                                    {
                                        &&& (*pre.exp) matches ExpKind::ArrayAccess {
                                            name: pnm,
                                            index: pix,
                                        }
                                        &&& pnm@ == nm@
                                        &&& exp_parses(bytes, j2, u2, jA, uA, pix)
                                        &&& exists|jB: int, uB: Token|
                                            #![trigger rem(bytes, jB, uB)]
                                            {
                                                &&& preexp_parses(
                                                    bytes,
                                                    j3,
                                                    u3,
                                                    jB,
                                                    uB,
                                                    pre,
                                                    e,
                                                )
                                                &&& uB is SColon
                                                &&& exists|j5: int, u5: Token|
                                                    #[trigger] step_from(bytes, jB, uB, j5, u5)
                                                        && i2 == j5 && t2 == u5
                                            }
                                    }
                            })
                        }),
                _ => {
                    &&& s.statement matches StatementKind::Exp(e)
                    &&& exists|jA: int, uA: Token|
                        #![trigger rem(bytes, jA, uA)]
                        {
                            &&& exp_name_parses(bytes, j, u, jA, uA, nm@, e)
                            &&& uA is SColon
                            &&& exists|j2: int, u2: Token|
                                #[trigger] step_from(bytes, jA, uA, j2, u2) && i2 == j2 && t2 == u2
                        }
                },
            }),
        _ => {
            &&& s.statement matches StatementKind::Exp(e)
            &&& exists|jA: int, uA: Token|
                #![trigger rem(bytes, jA, uA)]
                {
                    &&& exp_parses(bytes, i1, t1, jA, uA, e)
                    &&& uA is SColon
                    &&& exists|j2: int, u2: Token|
                        #[trigger] step_from(bytes, jA, uA, j2, u2) && i2 == j2 && t2 == u2
                }
        },
    }
}

/// That parsing a control-flow construct from state `(i1, t1)` succeeds
/// with nest `n`, ending at `(i2, t2)`.
pub open spec fn nest_parses(bytes: Seq<u8>, i1: int, t1: Token, i2: int, t2: Token, n: Nest) -> bool
    decreases rem(bytes, i1, t1), 5int,
{
    dec_to(bytes, i1, t1, i2, t2) && match t1 {
        Token::If => exists|j: int, u: Token|
            #[trigger] step_from(bytes, i1, t1, j, u) && dec_to(bytes, i1, t1, j, u)
                && (match n.nest {
                NestKind::If { cond, then } => !(t2 is Else) && exists|jA: int, uA: Token|
                    #![trigger rem(bytes, jA, uA)]
                    {
                        exp_parses(bytes, j, u, jA, uA, cond) && dec_to(bytes, j, u, jA, uA)
                            && block_parses(bytes, jA, uA, i2, t2, then)
                    },
                NestKind::IfElse { cond, then, else_ } => exists|jA: int, uA: Token|
                    #![trigger rem(bytes, jA, uA)]
                    exp_parses(bytes, j, u, jA, uA, cond) && dec_to(bytes, j, u, jA, uA) && exists|jB: int, uB: Token|
                        #![trigger rem(bytes, jB, uB)]
                        {
                            &&& block_parses(bytes, jA, uA, jB, uB, then)
                            &&& dec_to(bytes, jA, uA, jB, uB)
                            &&& uB is Else
                            &&& exists|j2: int, u2: Token|
                                #[trigger] step_from(bytes, jB, uB, j2, u2) && dec_to(bytes, jB, uB, j2, u2) && block_parses(
                                    bytes,
                                    j2,
                                    u2,
                                    i2,
                                    t2,
                                    else_,
                                )
                        },
                NestKind::While { .. } => false,
            }),
        Token::While => {
            &&& n.nest matches NestKind::While { cond, block }
            &&& exists|j: int, u: Token|
                #[trigger] step_from(bytes, i1, t1, j, u) && dec_to(bytes, i1, t1, j, u)
                    && exists|jA: int, uA: Token|
                    #![trigger rem(bytes, jA, uA)]
                    exp_parses(bytes, j, u, jA, uA, cond) && dec_to(bytes, j, u, jA, uA)
                        && block_parses(bytes, jA, uA, i2, t2, block)
        },
        _ => false,
    }
}

/// That parsing a block from state `(i1, t1)` succeeds with block `b`,
/// both braces consumed, ending at `(i2, t2)`.
pub open spec fn block_parses(bytes: Seq<u8>, i1: int, t1: Token, i2: int, t2: Token, b: Block) -> bool
    decreases rem(bytes, i1, t1), 4int,
{
    dec_to(bytes, i1, t1, i2, t2) && t1 is LCurly && exists|j: int, u: Token|
        #[trigger] step_from(bytes, i1, t1, j, u) && dec_to(bytes, i1, t1, j, u)
            && exists|jA: int, uA: Token|
            #![trigger rem(bytes, jA, uA)]
            {
                &&& stmts_parse(bytes, j, u, jA, uA, b.statements@)
                &&& uA is RCurly
                &&& exists|j2: int, u2: Token|
                    #[trigger] step_from(bytes, jA, uA, j2, u2) && i2 == j2 && t2 == u2
            }
}

/// That the statements of a block parse as `ss`, ending with the closing
/// brace pending.
pub open spec fn stmts_parse(
    bytes: Seq<u8>,
    i1: int,
    t1: Token,
    i2: int,
    t2: Token,
    ss: Seq<Statement>,
) -> bool
    decreases rem(bytes, i1, t1), 7int,
{
    if t1 is RCurly {
        ss.len() == 0 && i2 == i1 && t2 == t1
    } else {
        ss.len() > 0 && exists|jA: int, uA: Token|
            #![trigger rem(bytes, jA, uA)]
            {
                statement_parses(bytes, i1, t1, jA, uA, ss[0]) && dec_to(bytes, i1, t1, jA, uA)
                    && stmts_parse(bytes, jA, uA, i2, t2, ss.drop_first())
            }
    }
}

/// That a definition's parameter names parse as `names`, ending with the
/// closing parenthesis pending.
pub open spec fn args_parse(
    bytes: Seq<u8>,
    i1: int,
    t1: Token,
    i2: int,
    t2: Token,
    names: Seq<String>,
) -> bool
    decreases rem(bytes, i1, t1), 1int,
{
    if t1 is RParen {
        names.len() == 0 && i2 == i1 && t2 == t1
    } else {
        &&& names.len() > 0
        &&& t1 matches Token::Name(s)
        &&& names[0]@ == s@
        &&& exists|j: int, u: Token|
            #[trigger] step_from(bytes, i1, t1, j, u) && dec_to(bytes, i1, t1, j, u)
                && (if u is Comma {
                exists|j2: int, u2: Token|
                    #[trigger] step_from(bytes, j, u, j2, u2) && dec_to(bytes, j, u, j2, u2) && args_parse(bytes, j2, u2, i2, t2, names.drop_first())
            } else {
                u is RParen && names.len() == 1 && i2 == j && t2 == u
            })
    }
}

/// That parsing a definition from state `(i1, t1)` succeeds with `d`,
/// ending at `(i2, t2)`.
pub open spec fn def_parses(bytes: Seq<u8>, i1: int, t1: Token, i2: int, t2: Token, d: Def) -> bool
    decreases rem(bytes, i1, t1), 7int,
{
    dec_to(bytes, i1, t1, i2, t2) && t1 is Def && exists|j: int, u: Token|
        #[trigger] step_from(bytes, i1, t1, j, u) && dec_to(bytes, i1, t1, j, u) && (
        u matches Token::Name(nm) && d.name@ == nm@ && exists|j2: int, u2: Token|
            {
                &&& #[trigger] step_from(bytes, j, u, j2, u2)
                &&& dec_to(bytes, j, u, j2, u2)
                &&& u2 is LParen
                &&& exists|j3: int, u3: Token|
                    #[trigger] step_from(bytes, j2, u2, j3, u3) && dec_to(bytes, j2, u2, j3, u3) && exists|j4: int, u4: Token|
                        #![trigger rem(bytes, j4, u4)]
                        {
                            &&& args_parse(bytes, j3, u3, j4, u4, d.args.names@)
                            &&& dec_to_eq(bytes, j3, u3, j4, u4)
                            &&& u4 is RParen
                            &&& exists|j5: int, u5: Token|
                                #[trigger] step_from(bytes, j4, u4, j5, u5) && dec_to(bytes, j4, u4, j5, u5) && block_parses(
                                    bytes,
                                    j5,
                                    u5,
                                    i2,
                                    t2,
                                    d.block,
                                )
                        }
            })
}

/// That the program's definitions parse as `ds`: one definition after
/// another until the text is spent.
pub open spec fn defs_parse(
    bytes: Seq<u8>,
    i1: int,
    t1: Token,
    i2: int,
    t2: Token,
    ds: Seq<Def>,
) -> bool
    decreases rem(bytes, i1, t1), 8int,
{
    if i1 >= bytes.len() {
        ds.len() == 0 && i2 == i1 && t2 == t1
    } else {
        ds.len() > 0 && exists|jA: int, uA: Token|
            #![trigger rem(bytes, jA, uA)]
            {
                def_parses(bytes, i1, t1, jA, uA, ds[0]) && dec_to(bytes, i1, t1, jA, uA)
                    && defs_parse(bytes, jA, uA, i2, t2, ds.drop_first())
            }
    }
}

/// That parsing the whole text from state `(i1, t1)` succeeds with
/// program `p`.
pub open spec fn program_parses(
    bytes: Seq<u8>,
    i1: int,
    t1: Token,
    i2: int,
    t2: Token,
    p: Program,
) -> bool {
    defs_parse(bytes, i1, t1, i2, t2, p.defs@)
}



/// That parsing a statement fails with exactly `e`, branch by branch of
/// the statement dispatch.
pub open spec fn statement_fails(bytes: Seq<u8>, i1: int, t1: Token, e: ASTError) -> bool
    decreases rem(bytes, i1, t1), 6int,
{
    match t1 {
        Token::Return => consume_fails(bytes, i1, t1, TokenDiscriminants::Return, e) || exists|
            j: int,
            u: Token,
        |
            #[trigger] lexes(bytes, skip_to(bytes, i1), j, u) && dec_to(bytes, i1, t1, j, u) && (
            exp_fails(bytes, j, u, e) || exists|jA: int, uA: Token|
                #[trigger] exp_to(bytes, j, u, jA, uA) && dec_to(bytes, j, u, jA, uA)
                    && consume_fails(bytes, jA, uA, TokenDiscriminants::SColon, e)),
        Token::If | Token::While => nest_fails(bytes, i1, t1, e),
        Token::Name(_) => consume_fails(bytes, i1, t1, TokenDiscriminants::Name, e) || exists|
            j: int,
            u: Token,
        |
            #[trigger] lexes(bytes, skip_to(bytes, i1), j, u) && dec_to(bytes, i1, t1, j, u)
                && (match u {
                Token::Assign => consume_fails(bytes, j, u, TokenDiscriminants::Assign, e)
                    || exists|j2: int, u2: Token|
                    #[trigger] lexes(bytes, skip_to(bytes, j), j2, u2) && dec_to(
                        bytes,
                        j,
                        u,
                        j2,
                        u2,
                    ) && (exp_fails(bytes, j2, u2, e) || exists|jA: int, uA: Token|
                        #[trigger] exp_to(bytes, j2, u2, jA, uA) && dec_to(bytes, j2, u2, jA, uA)
                            && consume_fails(bytes, jA, uA, TokenDiscriminants::SColon, e)),
                Token::LBracket => consume_fails(bytes, j, u, TokenDiscriminants::LBracket, e)
                    || exists|j2: int, u2: Token|
                    #[trigger] lexes(bytes, skip_to(bytes, j), j2, u2) && dec_to(
                        bytes,
                        j,
                        u,
                        j2,
                        u2,
                    ) && (exp_fails(bytes, j2, u2, e) || exists|jA: int, uA: Token|
                        #[trigger] exp_to(bytes, j2, u2, jA, uA) && dec_to(bytes, j2, u2, jA, uA)
                            && (consume_fails(bytes, jA, uA, TokenDiscriminants::RBracket, e) || (
                        uA is RBracket && exists|j3: int, u3: Token|
                            #[trigger] lexes(bytes, skip_to(bytes, jA), j3, u3) && dec_to(
                                bytes,
                                jA,
                                uA,
                                j3,
                                u3,
                            ) && (if u3 is Assign {
                                consume_fails(bytes, j3, u3, TokenDiscriminants::Assign, e)
                                    || exists|j4: int, u4: Token|
                                    #[trigger] lexes(bytes, skip_to(bytes, j3), j4, u4) && dec_to(
                                        bytes,
                                        j3,
                                        u3,
                                        j4,
                                        u4,
                                    ) && (exp_fails(bytes, j4, u4, e) || exists|jB: int, uB: Token|
                                        #[trigger] exp_to(bytes, j4, u4, jB, uB) && dec_to(
                                            bytes,
                                            j4,
                                            u4,
                                            jB,
                                            uB,
                                        ) && consume_fails(
                                            bytes,
                                            jB,
                                            uB,
                                            TokenDiscriminants::SColon,
                                            e,
                                        ))
                            } else {
                                preexp_fails(bytes, j3, u3, e) || exists|jB: int, uB: Token|
                                    #[trigger] preexp_to(bytes, j3, u3, jB, uB) && dec_to_eq(
                                        bytes,
                                        j3,
                                        u3,
                                        jB,
                                        uB,
                                    ) && consume_fails(
                                        bytes,
                                        jB,
                                        uB,
                                        TokenDiscriminants::SColon,
                                        e,
                                    )
                            })))),
                _ => exp_name_fails(bytes, j, u, e) || exists|jA: int, uA: Token|
                    #[trigger] exp_name_to(bytes, j, u, jA, uA, t1->Name_0@) && dec_to_eq(
                        bytes,
                        j,
                        u,
                        jA,
                        uA,
                    ) && consume_fails(bytes, jA, uA, TokenDiscriminants::SColon, e),
            }),
        _ => exp_fails(bytes, i1, t1, e) || exists|jA: int, uA: Token|
            #[trigger] exp_to(bytes, i1, t1, jA, uA) && dec_to(bytes, i1, t1, jA, uA)
                && consume_fails(bytes, jA, uA, TokenDiscriminants::SColon, e),
    }
}

/// That parsing a control-flow construct fails with exactly `e`.
pub open spec fn nest_fails(bytes: Seq<u8>, i1: int, t1: Token, e: ASTError) -> bool
    decreases rem(bytes, i1, t1), 5int,
{
    step_fails(bytes, i1, e) || exists|j: int, u: Token|
        #[trigger] lexes(bytes, skip_to(bytes, i1), j, u) && (match t1 {
            Token::If | Token::While => dec_to(bytes, i1, t1, j, u) && (exp_fails(bytes, j, u, e)
                || exists|jA: int, uA: Token|
                #[trigger] exp_to(bytes, j, u, jA, uA) && dec_to(bytes, j, u, jA, uA) && (
                block_fails(bytes, jA, uA, e) || (t1 is If && exists|jB: int, uB: Token|
                    #[trigger] block_to(bytes, jA, uA, jB, uB) && dec_to(bytes, jA, uA, jB, uB)
                        && uB is Else && (consume_fails(bytes, jB, uB, TokenDiscriminants::Else, e)
                        || exists|j2: int, u2: Token|
                        #[trigger] lexes(bytes, skip_to(bytes, jB), j2, u2) && dec_to(
                            bytes,
                            jB,
                            uB,
                            j2,
                            u2,
                        ) && block_fails(bytes, j2, u2, e))))),
            _ => e == ASTError::UnexpectedToken(t1),
        })
}

/// That parsing a block fails with exactly `e`.
pub open spec fn block_fails(bytes: Seq<u8>, i1: int, t1: Token, e: ASTError) -> bool
    decreases rem(bytes, i1, t1), 4int,
{
    consume_fails(bytes, i1, t1, TokenDiscriminants::LCurly, e) || (t1 is LCurly && exists|
        j: int,
        u: Token,
    |
        #[trigger] lexes(bytes, skip_to(bytes, i1), j, u) && dec_to(bytes, i1, t1, j, u) && (
        stmts_fails(bytes, j, u, e) || exists|jA: int, uA: Token|
            #[trigger] stmts_to(bytes, j, u, jA, uA) && dec_to_eq(bytes, j, u, jA, uA)
                && consume_fails(bytes, jA, uA, TokenDiscriminants::RCurly, e)))
}

/// That parsing a block's statements fails with exactly `e`.
pub open spec fn stmts_fails(bytes: Seq<u8>, i1: int, t1: Token, e: ASTError) -> bool
    decreases rem(bytes, i1, t1), 7int,
{
    !(t1 is RCurly) && (statement_fails(bytes, i1, t1, e) || exists|jA: int, uA: Token|
        #[trigger] statement_to(bytes, i1, t1, jA, uA) && dec_to(bytes, i1, t1, jA, uA)
            && stmts_fails(bytes, jA, uA, e))
}

/// That parsing a parameter-name list fails with exactly `e`: a non-name
/// where a name is due, or a name followed by neither comma nor closing
/// parenthesis.
pub open spec fn args_fails(bytes: Seq<u8>, i1: int, t1: Token, e: ASTError) -> bool
    decreases rem(bytes, i1, t1), 1int,
{
    !(t1 is RParen) && (consume_fails(bytes, i1, t1, TokenDiscriminants::Name, e) || (t1 is Name
        && exists|j: int, u: Token|
        #[trigger] lexes(bytes, skip_to(bytes, i1), j, u) && dec_to(bytes, i1, t1, j, u) && (if u
            is Comma {
            consume_fails(bytes, j, u, TokenDiscriminants::Comma, e) || exists|j2: int, u2: Token|
                #[trigger] lexes(bytes, skip_to(bytes, j), j2, u2) && dec_to(bytes, j, u, j2, u2)
                    && args_fails(bytes, j2, u2, e)
        } else {
            !(u is RParen) && e == ASTError::UnexpectedToken(u)
        })))
}

/// That parsing a definition fails with exactly `e`.
pub open spec fn def_fails(bytes: Seq<u8>, i1: int, t1: Token, e: ASTError) -> bool
    decreases rem(bytes, i1, t1), 7int,
{
    consume_fails(bytes, i1, t1, TokenDiscriminants::Def, e) || (t1 is Def && exists|
        j: int,
        u: Token,
    |
        #[trigger] lexes(bytes, skip_to(bytes, i1), j, u) && dec_to(bytes, i1, t1, j, u) && (
        consume_fails(bytes, j, u, TokenDiscriminants::Name, e) || (u is Name && exists|
            j2: int,
            u2: Token,
        |
            #[trigger] lexes(bytes, skip_to(bytes, j), j2, u2) && dec_to(bytes, j, u, j2, u2) && (
            consume_fails(bytes, j2, u2, TokenDiscriminants::LParen, e) || (u2 is LParen && exists|
                j3: int,
                u3: Token,
            |
                #[trigger] lexes(bytes, skip_to(bytes, j2), j3, u3) && dec_to(
                    bytes,
                    j2,
                    u2,
                    j3,
                    u3,
                ) && (args_fails(bytes, j3, u3, e) || exists|j4: int, u4: Token|
                    #[trigger] args_to(bytes, j3, u3, j4, u4) && dec_to_eq(bytes, j3, u3, j4, u4)
                        && (consume_fails(bytes, j4, u4, TokenDiscriminants::RParen, e) || (u4
                        is RParen && exists|j5: int, u5: Token|
                        #[trigger] lexes(bytes, skip_to(bytes, j4), j5, u5) && dec_to(
                            bytes,
                            j4,
                            u4,
                            j5,
                            u5,
                        ) && block_fails(bytes, j5, u5, e)))))))))
}

/// That parsing the program's definitions fails with exactly `e`.
pub open spec fn defs_fails(bytes: Seq<u8>, i1: int, t1: Token, e: ASTError) -> bool
    decreases rem(bytes, i1, t1), 8int,
{
    i1 < bytes.len() && (def_fails(bytes, i1, t1, e) || exists|jA: int, uA: Token|
        #[trigger] def_to(bytes, i1, t1, jA, uA) && dec_to(bytes, i1, t1, jA, uA) && defs_fails(
            bytes,
            jA,
            uA,
            e,
        ))
}

/// That parsing the whole text fails with exactly `e`.
pub open spec fn program_fails(bytes: Seq<u8>, i1: int, t1: Token, e: ASTError) -> bool {
    defs_fails(bytes, i1, t1, e)
}

/// Converts the next token into itself exactly when it carries the given
/// tag; a token of any other tag is consumed all the same and reported as
/// an unexpected-token fault, and a lexical fault passes through wrapped.
fn consume_token(scanner: &mut Scanner, variant: TokenDiscriminants) -> (r: Result<
    Token,
    ASTError,
>)
    requires
        old(scanner).wf(),
    ensures
        final(scanner).wf(),
        final(scanner).bytes() == old(scanner).bytes(),
        final(scanner).remaining() <= old(scanner).remaining(),
        match r {
            Ok(t) => t == old(scanner).peek() && spec_discriminant(t) == variant && (!(t is Eof)
                ==> step_from(
                old(scanner).bytes(),
                old(scanner).pos(),
                old(scanner).peek(),
                final(scanner).pos(),
                final(scanner).peek(),
            )),
            Err(e) => consume_fails(
                old(scanner).bytes(),
                old(scanner).pos(),
                old(scanner).peek(),
                variant,
                e,
            ) && (e matches ASTError::UnexpectedToken(t) ==> t == old(scanner).peek()
                && spec_discriminant(t) != variant && lexes(
                old(scanner).bytes(),
                skip_to(old(scanner).bytes(), old(scanner).pos()),
                final(scanner).pos(),
                final(scanner).peek(),
            )),
        },
{
    match scanner.next_token() {
        Ok(t) => {
            if variant_equal(&t, variant) {
                Ok(t)
            } else {
                Err(ASTError::UnexpectedToken(t))
            }
        },
        Err(e) => Err(ASTError::ScannerError(e)),
    }
}

/// Whether the token carries the given tag.
fn variant_equal(token: &Token, variant: TokenDiscriminants) -> (r: bool)
    ensures
        r == (spec_discriminant(*token) == variant),
{
    token.discriminant() == variant
}

/// Wraps a left operand, an operator, and a right operand as one infix
/// expression node.
fn generate_infix(lhs: ExpKind, op: OpKind, rhs: Exp) -> (r: Result<Exp, ASTError>)
    ensures
        r matches Ok(e) && (*e.exp matches ExpKind::Infix(l, o, rh) && *l.exp == lhs && o.op == op
            && rh == rhs),
{
    Ok(Exp { exp: Box::new(ExpKind::Infix(Exp { exp: Box::new(lhs) }, Op { op }, rhs)) })
}

/// Parses the whole text as a program: one definition after another
/// until the text is spent.
pub fn generate_ast(scanner: &mut Scanner) -> (r: Result<Program, ASTError>)
    requires
        old(scanner).wf(),
    ensures
        final(scanner).wf(),
        final(scanner).bytes() == old(scanner).bytes(),
        r matches Ok(p) ==> program_parses(
            old(scanner).bytes(),
            old(scanner).pos(),
            old(scanner).peek(),
            final(scanner).pos(),
            final(scanner).peek(),
            p,
        ),
        r matches Err(e) ==> program_fails(
            old(scanner).bytes(),
            old(scanner).pos(),
            old(scanner).peek(),
            e,
        ),
{
    match parse_defs(scanner) {
        Ok(defs) => Ok(Program { defs }),
        Err(e) => Err(e),
    }
}

/// Parses the definitions left in the text, in order.
fn parse_defs(scanner: &mut Scanner) -> (r: Result<Vec<Def>, ASTError>)
    requires
        old(scanner).wf(),
    ensures
        final(scanner).wf(),
        final(scanner).bytes() == old(scanner).bytes(),
        final(scanner).remaining() <= old(scanner).remaining(),
        r matches Ok(ds) ==> defs_parse(
            old(scanner).bytes(),
            old(scanner).pos(),
            old(scanner).peek(),
            final(scanner).pos(),
            final(scanner).peek(),
            ds@,
        ),
        r matches Err(e) ==> defs_fails(
            old(scanner).bytes(),
            old(scanner).pos(),
            old(scanner).peek(),
            e,
        ),
    decreases old(scanner).remaining(), 9int,
{
    if scanner.is_eof() {
        let out: Vec<Def> = Vec::new();
        proof {
            assert(out@ =~= Seq::<Def>::empty());
        }
        return Ok(out);
    }
    let ghost b = scanner.bytes();
    let ghost p0 = scanner.pos();
    let ghost t0 = scanner.peek();
    let d = match generate_def(scanner) {
        Ok(d) => d,
        Err(e) => {
            proof {
                assert(defs_fails(b, p0, t0, e));
            }
            return Err(e);
        },
    };
    let ghost p1 = scanner.pos();
    let ghost t1 = scanner.peek();
    let rest = match parse_defs(scanner) {
        Ok(v) => v,
        Err(e) => {
            proof {
                let ghost dv = d;
                assert(def_parses(b, p0, t0, p1, t1, dv) && dv.block == dv.block);
                assert(def_to(b, p0, t0, p1, t1));
                assert(defs_fails(b, p0, t0, e));
            }
            return Err(e);
        },
    };
    let ghost restv = rest@;
    let mut out = rest;
    out.insert(0, d);
    proof {
        assert(out@.drop_first() =~= restv);
        assert(out@[0] == d);
        assert(dec_to(b, p0, t0, p1, t1));
        assert(defs_parse(b, p0, t0, scanner.pos(), scanner.peek(), out@));
    }
    Ok(out)
}

/// Parses one definition: the keyword, the name, the parenthesized
/// parameter names, and the body block.
fn generate_def(scanner: &mut Scanner) -> (r: Result<Def, ASTError>)
    requires
        old(scanner).wf(),
    ensures
        final(scanner).wf(),
        final(scanner).bytes() == old(scanner).bytes(),
        final(scanner).remaining() <= old(scanner).remaining(),
        r matches Ok(d) ==> def_parses(
            old(scanner).bytes(),
            old(scanner).pos(),
            old(scanner).peek(),
            final(scanner).pos(),
            final(scanner).peek(),
            d,
        ) && final(scanner).remaining() < old(scanner).remaining(),
        r matches Err(e) ==> def_fails(
            old(scanner).bytes(),
            old(scanner).pos(),
            old(scanner).peek(),
            e,
        ),
    decreases old(scanner).remaining(), 8int,
{
    let ghost b = scanner.bytes();
    let ghost p0 = scanner.pos();
    let ghost t0 = scanner.peek();
    match consume_token(scanner, TokenDiscriminants::Def) {
        Ok(_) => {},
        Err(e) => {
            proof {
                assert(def_fails(b, p0, t0, e));
            }
            return Err(e);
        },
    }
    proof {
        assert(t0 is Def);
        assert(step_from(b, p0, t0, scanner.pos(), scanner.peek()));
    }
    let ghost p1 = scanner.pos();
    let ghost t1 = scanner.peek();
    let name_tok = match consume_token(scanner, TokenDiscriminants::Name) {
        Ok(t) => t,
        Err(e) => {
            proof {
                assert(def_fails(b, p0, t0, e));
            }
            return Err(e);
        },
    };
    let name = match name_tok {
        Token::Name(value) => value,
        other => {
            proof {
                assert(false);
            }
            return Err(ASTError::UnexpectedToken(other));
        },
    };
    proof {
        assert(t1 matches Token::Name(nm) && nm@ == name@);
        assert(step_from(b, p1, t1, scanner.pos(), scanner.peek()));
    }
    let ghost p2 = scanner.pos();
    let ghost t2 = scanner.peek();
    match consume_token(scanner, TokenDiscriminants::LParen) {
        Ok(_) => {},
        Err(e) => {
            proof {
                assert(def_fails(b, p0, t0, e));
            }
            return Err(e);
        },
    }
    proof {
        assert(t2 is LParen);
        assert(step_from(b, p2, t2, scanner.pos(), scanner.peek()));
    }
    let ghost p3 = scanner.pos();
    let ghost t3 = scanner.peek();
    let args = match generate_args(scanner) {
        Ok(a) => a,
        Err(e) => {
            proof {
                assert(def_fails(b, p0, t0, e));
            }
            return Err(e);
        },
    };
    let ghost p4 = scanner.pos();
    let ghost t4 = scanner.peek();
    proof {
        assert(dec_to_eq(b, p3, t3, p4, t4));
    }
    match consume_token(scanner, TokenDiscriminants::RParen) {
        Ok(_) => {},
        Err(e) => {
            proof {
                assert(args_parse(b, p3, t3, p4, t4, args.names@));
                assert(args.names@.len() >= 0);
                assert(args_to(b, p3, t3, p4, t4));
                assert(def_fails(b, p0, t0, e));
            }
            return Err(e);
        },
    }
    proof {
        assert(t4 is RParen);
        assert(step_from(b, p4, t4, scanner.pos(), scanner.peek()));
    }
    let ghost p5 = scanner.pos();
    let ghost t5 = scanner.peek();
    let block = match generate_block(scanner) {
        Ok(bl) => bl,
        Err(e) => {
            proof {
                assert(args_parse(b, p3, t3, p4, t4, args.names@));
                assert(args.names@.len() >= 0);
                assert(args_to(b, p3, t3, p4, t4));
                assert(def_fails(b, p0, t0, e));
            }
            return Err(e);
        },
    };
    let d = Def { name, args, block };
    proof {
        let fp = scanner.pos();
        let ft = scanner.peek();
        assert(block_parses(b, p5, t5, fp, ft, d.block));
        assert(exists|j5: int, u5: Token|
            #[trigger] step_from(b, p4, t4, j5, u5) && dec_to(b, p4, t4, j5, u5) && block_parses(
                b,
                j5,
                u5,
                fp,
                ft,
                d.block,
            )) by {
            assert(step_from(b, p4, t4, p5, t5) && dec_to(b, p4, t4, p5, t5) && block_parses(
                b,
                p5,
                t5,
                fp,
                ft,
                d.block,
            ));
        };
        assert(exists|j4: int, u4: Token|
            {
                &&& #[trigger] args_parse(b, p3, t3, j4, u4, d.args.names@)
                &&& dec_to_eq(b, p3, t3, j4, u4)
                &&& u4 is RParen
                &&& exists|j5: int, u5: Token|
                    #[trigger] step_from(b, j4, u4, j5, u5) && dec_to(b, j4, u4, j5, u5)
                        && block_parses(b, j5, u5, fp, ft, d.block)
            }) by {
            assert(args_parse(b, p3, t3, p4, t4, d.args.names@) && dec_to_eq(b, p3, t3, p4, t4)
                && t4 is RParen);
        };
        assert(exists|j3: int, u3: Token|
            #[trigger] step_from(b, p2, t2, j3, u3) && dec_to(b, p2, t2, j3, u3) && exists|
                j4: int,
                u4: Token,
            |
                {
                    &&& #[trigger] args_parse(b, j3, u3, j4, u4, d.args.names@)
                    &&& dec_to_eq(b, j3, u3, j4, u4)
                    &&& u4 is RParen
                    &&& exists|j5: int, u5: Token|
                        #[trigger] step_from(b, j4, u4, j5, u5) && dec_to(b, j4, u4, j5, u5)
                            && block_parses(b, j5, u5, fp, ft, d.block)
                }) by {
            assert(step_from(b, p2, t2, p3, t3) && dec_to(b, p2, t2, p3, t3));
        };
        assert(def_parses(b, p0, t0, fp, ft, d)) by {
            assert(step_from(b, p1, t1, p2, t2) && dec_to(b, p1, t1, p2, t2));
            assert(step_from(b, p0, t0, p1, t1) && dec_to(b, p0, t0, p1, t1));
        };
    }
    Ok(d)
}

/// Parses a definition's parameter names, leaving the closing
/// parenthesis pending; a name must be followed by a comma or by the
/// closing parenthesis.
fn generate_args(scanner: &mut Scanner) -> (r: Result<Args, ASTError>)
    requires
        old(scanner).wf(),
    ensures
        final(scanner).wf(),
        final(scanner).bytes() == old(scanner).bytes(),
        final(scanner).remaining() <= old(scanner).remaining(),
        r matches Ok(a) ==> args_parse(
            old(scanner).bytes(),
            old(scanner).pos(),
            old(scanner).peek(),
            final(scanner).pos(),
            final(scanner).peek(),
            a.names@,
        ),
        r matches Err(e) ==> args_fails(
            old(scanner).bytes(),
            old(scanner).pos(),
            old(scanner).peek(),
            e,
        ),
    decreases old(scanner).remaining(), 1int,
{
    let ghost b = scanner.bytes();
    let ghost p0 = scanner.pos();
    let ghost t0 = scanner.peek();
    if variant_equal(&scanner.peek_next(), TokenDiscriminants::RParen) {
        let names: Vec<String> = Vec::new();
        proof {
            assert(names@ =~= Seq::<String>::empty());
            assert(t0 is RParen);
        }
        return Ok(Args { names });
    }
    let tok = match consume_token(scanner, TokenDiscriminants::Name) {
        Ok(t) => t,
        Err(e) => {
            proof {
                assert(args_fails(b, p0, t0, e));
            }
            return Err(e);
        },
    };
    let arg = match tok {
        Token::Name(value) => value,
        other => {
            proof {
                assert(false);
            }
            return Err(ASTError::UnexpectedToken(other));
        },
    };
    proof {
        assert(t0 matches Token::Name(nm) && nm@ == arg@);
        assert(step_from(b, p0, t0, scanner.pos(), scanner.peek()));
    }
    let ghost p1 = scanner.pos();
    let ghost t1 = scanner.peek();
    let next = scanner.peek_next();
    if variant_equal(&next, TokenDiscriminants::Comma) {
        match consume_token(scanner, TokenDiscriminants::Comma) {
            Ok(_) => {},
            Err(e) => {
                proof {
                    assert(!(t0 is RParen));
                    assert(args_fails(b, p0, t0, e));
                }
                return Err(e);
            },
        }
        proof {
            assert(t1 is Comma);
            assert(step_from(b, p1, t1, scanner.pos(), scanner.peek()));
        }
        let ghost p2 = scanner.pos();
        let ghost t2 = scanner.peek();
        let rest = match generate_args(scanner) {
            Ok(a) => a,
            Err(e) => {
                proof {
                    assert(!(t0 is RParen));
                    assert(args_fails(b, p0, t0, e));
                }
                return Err(e);
            },
        };
        let ghost restv = rest.names@;
        let mut names = rest.names;
        names.insert(0, arg);
        proof {
            assert(names@.drop_first() =~= restv);
            assert(names@[0] == arg);
            assert(args_parse(b, p0, t0, scanner.pos(), scanner.peek(), names@));
        }
        Ok(Args { names })
    } else if !variant_equal(&next, TokenDiscriminants::RParen) {
        proof {
            assert(!(t0 is RParen));
            assert(next == t1);
            assert(args_fails(b, p0, t0, ASTError::UnexpectedToken(next)));
        }
        Err(ASTError::UnexpectedToken(next))
    } else {
        let mut names: Vec<String> = Vec::new();
        names.push(arg);
        proof {
            assert(t1 is RParen);
            assert(names@.len() == 1 && names@[0] == arg);
            assert(args_parse(b, p0, t0, scanner.pos(), scanner.peek(), names@));
        }
        Ok(Args { names })
    }
}

/// Parses a brace-enclosed block of statements, both braces consumed.
fn generate_block(scanner: &mut Scanner) -> (r: Result<Block, ASTError>)
    requires
        old(scanner).wf(),
    ensures
        final(scanner).wf(),
        final(scanner).bytes() == old(scanner).bytes(),
        final(scanner).remaining() <= old(scanner).remaining(),
        r matches Ok(b) ==> block_parses(
            old(scanner).bytes(),
            old(scanner).pos(),
            old(scanner).peek(),
            final(scanner).pos(),
            final(scanner).peek(),
            b,
        ) && final(scanner).remaining() < old(scanner).remaining(),
        r matches Err(e) ==> block_fails(
            old(scanner).bytes(),
            old(scanner).pos(),
            old(scanner).peek(),
            e,
        ),
    decreases old(scanner).remaining(), 5int,
{
    let ghost b = scanner.bytes();
    let ghost p0 = scanner.pos();
    let ghost t0 = scanner.peek();
    match consume_token(scanner, TokenDiscriminants::LCurly) {
        Ok(_) => {},
        Err(e) => {
            proof {
                assert(block_fails(b, p0, t0, e));
            }
            return Err(e);
        },
    }
    proof {
        assert(t0 is LCurly);
        assert(step_from(b, p0, t0, scanner.pos(), scanner.peek()));
    }
    let ghost p1 = scanner.pos();
    let ghost t1 = scanner.peek();
    let statements = match parse_statements(scanner) {
        Ok(v) => v,
        Err(e) => {
            proof {
                assert(block_fails(b, p0, t0, e));
            }
            return Err(e);
        },
    };
    let ghost p2 = scanner.pos();
    let ghost t2 = scanner.peek();
    match consume_token(scanner, TokenDiscriminants::RCurly) {
        Ok(_) => {},
        Err(e) => {
            proof {
                assert(stmts_parse(b, p1, t1, p2, t2, statements@));
                assert(statements@.len() >= 0);
                assert(stmts_to(b, p1, t1, p2, t2));
                assert(block_fails(b, p0, t0, e));
            }
            return Err(e);
        },
    }
    proof {
        assert(t2 is RCurly);
        assert(step_from(b, p2, t2, scanner.pos(), scanner.peek()));
    }
    let bl = Block { statements };
    proof {
        let fp = scanner.pos();
        let ft = scanner.peek();
        assert(exists|j2: int, u2: Token|
            #[trigger] step_from(b, p2, t2, j2, u2) && fp == j2 && ft == u2) by {
            assert(step_from(b, p2, t2, fp, ft));
        };
        assert(exists|jA: int, uA: Token|
            {
                &&& #[trigger] stmts_parse(b, p1, t1, jA, uA, bl.statements@)
                &&& uA is RCurly
                &&& exists|j2: int, u2: Token|
                    #[trigger] step_from(b, jA, uA, j2, u2) && fp == j2 && ft == u2
            }) by {
            assert(stmts_parse(b, p1, t1, p2, t2, bl.statements@) && t2 is RCurly && (exists|
                j2: int,
                u2: Token,
            |
                #[trigger] step_from(b, p2, t2, j2, u2) && fp == j2 && ft == u2));
        };
        assert(block_parses(b, p0, t0, fp, ft, bl)) by {
            assert(step_from(b, p0, t0, p1, t1) && dec_to(b, p0, t0, p1, t1));
        };
    }
    Ok(bl)
}

/// Parses statements until the closing brace of the enclosing block is
/// pending.
#[verifier::rlimit(100)]
fn parse_statements(scanner: &mut Scanner) -> (r: Result<Vec<Statement>, ASTError>)
    requires
        old(scanner).wf(),
    ensures
        final(scanner).wf(),
        final(scanner).bytes() == old(scanner).bytes(),
        final(scanner).remaining() <= old(scanner).remaining(),
        r matches Ok(ss) ==> stmts_parse(
            old(scanner).bytes(),
            old(scanner).pos(),
            old(scanner).peek(),
            final(scanner).pos(),
            final(scanner).peek(),
            ss@,
        ),
        r matches Err(e) ==> stmts_fails(
            old(scanner).bytes(),
            old(scanner).pos(),
            old(scanner).peek(),
            e,
        ),
    decreases old(scanner).remaining(), 8int,
{
    if variant_equal(&scanner.peek_next(), TokenDiscriminants::RCurly) {
        let out: Vec<Statement> = Vec::new();
        proof {
            assert(out@ =~= Seq::<Statement>::empty());
        }
        return Ok(out);
    }
    let ghost b = scanner.bytes();
    let ghost p0 = scanner.pos();
    let ghost t0 = scanner.peek();
    let s = match generate_statement(scanner) {
        Ok(s) => s,
        Err(e) => {
            proof {
                assert(stmts_fails(b, p0, t0, e));
            }
            return Err(e);
        },
    };
    let ghost p1 = scanner.pos();
    let ghost t1 = scanner.peek();
    let rest = match parse_statements(scanner) {
        Ok(v) => v,
        Err(e) => {
            proof {
                let ghost sv = s;
                assert(statement_parses(b, p0, t0, p1, t1, sv) && sv.statement == sv.statement);
                assert(statement_to(b, p0, t0, p1, t1));
                assert(stmts_fails(b, p0, t0, e));
            }
            return Err(e);
        },
    };
    let ghost restv = rest@;
    let mut out = rest;
    out.insert(0, s);
    proof {
        let fp = scanner.pos();
        let ft = scanner.peek();
        assert(out@.drop_first() =~= restv);
        assert(out@[0] == s);
        assert(!(t0 is RCurly));
        assert(statement_parses(b, p0, t0, p1, t1, out@[0]) && dec_to(b, p0, t0, p1, t1)
            && stmts_parse(b, p1, t1, fp, ft, out@.drop_first()));
        assert(exists|jA: int, uA: Token|
            statement_parses(b, p0, t0, jA, uA, out@[0]) && dec_to(b, p0, t0, jA, uA)
                && stmts_parse(b, jA, uA, fp, ft, out@.drop_first()));
        assert(stmts_parse(b, p0, t0, fp, ft, out@));
    }
    Ok(out)
}


/// Parses one statement, deciding its form from the leading token, and
/// from the token after a leading name.
fn generate_statement(scanner: &mut Scanner) -> (r: Result<Statement, ASTError>)
    requires
        old(scanner).wf(),
    ensures
        final(scanner).wf(),
        final(scanner).bytes() == old(scanner).bytes(),
        final(scanner).remaining() <= old(scanner).remaining(),
        r matches Ok(s) ==> statement_parses(
            old(scanner).bytes(),
            old(scanner).pos(),
            old(scanner).peek(),
            final(scanner).pos(),
            final(scanner).peek(),
            s,
        ) && final(scanner).remaining() < old(scanner).remaining(),
        r matches Err(e) ==> statement_fails(
            old(scanner).bytes(),
            old(scanner).pos(),
            old(scanner).peek(),
            e,
        ),
    decreases old(scanner).remaining(), 7int,
{
    let ghost b = scanner.bytes();
    let ghost p0 = scanner.pos();
    let ghost t0 = scanner.peek();
    let pk = scanner.peek_next();
    proof {
        assert(pk == t0);
    }
    let statement = match pk {
        Token::Return => {
            match consume_token(scanner, TokenDiscriminants::Return) {
                Ok(_) => {},
                Err(e) => {
                    proof {
                        assert(statement_fails(b, p0, t0, e));
                    }
                    return Err(e);
                },
            }
            proof {
                assert(t0 is Return);
                assert(step_from(b, p0, t0, scanner.pos(), scanner.peek()));
            }
            let ghost p1 = scanner.pos();
            let ghost t1 = scanner.peek();
            let exp = match generate_exp(scanner) {
                Ok(e) => e,
                Err(e) => {
                    proof {
                        assert(statement_fails(b, p0, t0, e));
                    }
                    return Err(e);
                },
            };
            let ghost p2 = scanner.pos();
            let ghost t2 = scanner.peek();
            match consume_token(scanner, TokenDiscriminants::SColon) {
                Ok(_) => {},
                Err(e) => {
                    proof {
                        let ghost ev = exp;
                        assert(exp_parses(b, p1, t1, p2, t2, ev) && ev.exp == ev.exp);
                        assert(exp_to(b, p1, t1, p2, t2));
                        assert(statement_fails(b, p0, t0, e));
                    }
                    return Err(e);
                },
            }
            proof {
                assert(t2 is SColon);
                assert(step_from(b, p2, t2, scanner.pos(), scanner.peek()));
                let ghost ev = exp;
                assert(statement_parses(
                    b,
                    p0,
                    t0,
                    scanner.pos(),
                    scanner.peek(),
                    Statement { statement: StatementKind::Return(ev) },
                ));
            }
            StatementKind::Return(exp)
        },
        Token::If | Token::While => {
            let n = match generate_nest(scanner) {
                Ok(n) => n,
                Err(e) => {
                    proof {
                        assert(statement_fails(b, p0, t0, e));
                    }
                    return Err(e);
                },
            };
            proof {
                let ghost nv = n;
                assert(statement_parses(
                    b,
                    p0,
                    t0,
                    scanner.pos(),
                    scanner.peek(),
                    Statement { statement: StatementKind::Nest(nv) },
                ));
            }
            StatementKind::Nest(n)
        },
        Token::Name(name) => {
            match consume_token(scanner, TokenDiscriminants::Name) {
                Ok(_) => {},
                Err(e) => {
                    proof {
                        assert(statement_fails(b, p0, t0, e));
                    }
                    return Err(e);
                },
            }
            proof {
                assert(t0 matches Token::Name(nm) && nm@ == name@);
                assert(step_from(b, p0, t0, scanner.pos(), scanner.peek()));
            }
            let ghost p1 = scanner.pos();
            let ghost t1 = scanner.peek();
            let pk1 = scanner.peek_next();
            proof {
                assert(pk1 == t1);
            }
            match pk1 {
                Token::Assign => {
                    match consume_token(scanner, TokenDiscriminants::Assign) {
                        Ok(_) => {},
                        Err(e) => {
                            proof {
                                assert(statement_fails(b, p0, t0, e));
                            }
                            return Err(e);
                        },
                    }
                    proof {
                        assert(t1 is Assign);
                        assert(step_from(b, p1, t1, scanner.pos(), scanner.peek()));
                    }
                    let ghost p2 = scanner.pos();
                    let ghost t2 = scanner.peek();
                    let exp = match generate_exp(scanner) {
                        Ok(e) => e,
                        Err(e) => {
                            proof {
                                assert(statement_fails(b, p0, t0, e));
                            }
                            return Err(e);
                        },
                    };
                    let ghost p3 = scanner.pos();
                    let ghost t3 = scanner.peek();
                    match consume_token(scanner, TokenDiscriminants::SColon) {
                        Ok(_) => {},
                        Err(e) => {
                            proof {
                                let ghost ev = exp;
                                assert(exp_parses(b, p2, t2, p3, t3, ev) && ev.exp == ev.exp);
                                assert(exp_to(b, p2, t2, p3, t3));
                                assert(statement_fails(b, p0, t0, e));
                            }
                            return Err(e);
                        },
                    }
                    proof {
                        assert(t3 is SColon);
                        assert(step_from(b, p3, t3, scanner.pos(), scanner.peek()));
                        let ghost nmv = name;
                        let ghost ev = exp;
                        assert(statement_parses(
                            b,
                            p0,
                            t0,
                            scanner.pos(),
                            scanner.peek(),
                            Statement { statement: StatementKind::Assign { name: nmv, exp: ev } },
                        ));
                    }
                    StatementKind::Assign { name, exp }
                },
                Token::LBracket => {
                    match consume_token(scanner, TokenDiscriminants::LBracket) {
                        Ok(_) => {},
                        Err(e) => {
                            proof {
                                assert(statement_fails(b, p0, t0, e));
                            }
                            return Err(e);
                        },
                    }
                    proof {
                        assert(t1 is LBracket);
                        assert(step_from(b, p1, t1, scanner.pos(), scanner.peek()));
                    }
                    let ghost p2 = scanner.pos();
                    let ghost t2 = scanner.peek();
                    let index_exp = match generate_exp(scanner) {
                        Ok(e) => e,
                        Err(e) => {
                            proof {
                                assert(statement_fails(b, p0, t0, e));
                            }
                            return Err(e);
                        },
                    };
                    let ghost p3 = scanner.pos();
                    let ghost t3 = scanner.peek();
                    match consume_token(scanner, TokenDiscriminants::RBracket) {
                        Ok(_) => {},
                        Err(e) => {
                            proof {
                                let ghost ixv = index_exp;
                                assert(exp_parses(b, p2, t2, p3, t3, ixv) && ixv.exp == ixv.exp);
                                assert(exp_to(b, p2, t2, p3, t3));
                                assert(statement_fails(b, p0, t0, e));
                            }
                            return Err(e);
                        },
                    }
                    proof {
                        assert(t3 is RBracket);
                        assert(step_from(b, p3, t3, scanner.pos(), scanner.peek()));
                    }
                    let ghost p4 = scanner.pos();
                    let ghost t4 = scanner.peek();
                    if variant_equal(&scanner.peek_next(), TokenDiscriminants::Assign) {
                        match consume_token(scanner, TokenDiscriminants::Assign) {
                            Ok(_) => {},
                            Err(e) => {
                                proof {
                                    let ghost ixv = index_exp;
                                    assert(exp_parses(b, p2, t2, p3, t3, ixv) && ixv.exp
                                        == ixv.exp);
                                    assert(exp_to(b, p2, t2, p3, t3));
                                    assert(statement_fails(b, p0, t0, e));
                                }
                                return Err(e);
                            },
                        }
                        proof {
                            assert(t4 is Assign);
                            assert(step_from(b, p4, t4, scanner.pos(), scanner.peek()));
                        }
                        let ghost p5 = scanner.pos();
                        let ghost t5 = scanner.peek();
                        let value = match generate_exp(scanner) {
                            Ok(e) => e,
                            Err(e) => {
                                proof {
                                    let ghost ixv = index_exp;
                                    assert(exp_parses(b, p2, t2, p3, t3, ixv) && ixv.exp
                                        == ixv.exp);
                                    assert(exp_to(b, p2, t2, p3, t3));
                                    assert(statement_fails(b, p0, t0, e));
                                }
                                return Err(e);
                            },
                        };
                        let ghost p6 = scanner.pos();
                        let ghost t6 = scanner.peek();
                        match consume_token(scanner, TokenDiscriminants::SColon) {
                            Ok(_) => {},
                            Err(e) => {
                                proof {
                                    let ghost ixv = index_exp;
                                    assert(exp_parses(b, p2, t2, p3, t3, ixv) && ixv.exp
                                        == ixv.exp);
                                    assert(exp_to(b, p2, t2, p3, t3));
                                    let ghost vv = value;
                                    assert(exp_parses(b, p5, t5, p6, t6, vv) && vv.exp == vv.exp);
                                    assert(exp_to(b, p5, t5, p6, t6));
                                    assert(statement_fails(b, p0, t0, e));
                                }
                                return Err(e);
                            },
                        }
                        proof {
                            assert(t6 is SColon);
                            assert(step_from(b, p6, t6, scanner.pos(), scanner.peek()));
                            let ghost nmv = name;
                            let ghost ixv = index_exp;
                            let ghost vv = value;
                            assert(statement_parses(
                                b,
                                p0,
                                t0,
                                scanner.pos(),
                                scanner.peek(),
                                Statement {
                                    statement: StatementKind::ArrayAssign {
                                        name: nmv,
                                        index_exp: ixv,
                                        value: vv,
                                    },
                                },
                            ));
                        }
                        StatementKind::ArrayAssign { name, index_exp, value }
                    } else {
                        let preexp = Exp {
                            exp: Box::new(ExpKind::ArrayAccess { name: name, index: index_exp }),
                        };
                        let ghost prev = preexp;
                        let exp = match generate_exp_preexp(scanner, preexp) {
                            Ok(e) => e,
                            Err(e) => {
                                proof {
                                    let ghost ixv = index_exp;
                                    assert(exp_parses(b, p2, t2, p3, t3, ixv) && ixv.exp
                                        == ixv.exp);
                                    assert(exp_to(b, p2, t2, p3, t3));
                                    assert(statement_fails(b, p0, t0, e));
                                }
                                return Err(e);
                            },
                        };
                        let ghost p5 = scanner.pos();
                        let ghost t5 = scanner.peek();
                        match consume_token(scanner, TokenDiscriminants::SColon) {
                            Ok(_) => {},
                            Err(e) => {
                                proof {
                                    let ghost ixv = index_exp;
                                    assert(exp_parses(b, p2, t2, p3, t3, ixv) && ixv.exp
                                        == ixv.exp);
                                    assert(exp_to(b, p2, t2, p3, t3));
                                    let ghost ev = exp;
                                    assert(preexp_parses(b, p4, t4, p5, t5, prev, ev) && prev.exp
                                        == prev.exp && ev.exp == ev.exp);
                                    assert(preexp_to(b, p4, t4, p5, t5));
                                    assert(statement_fails(b, p0, t0, e));
                                }
                                return Err(e);
                            },
                        }
                        proof {
                            assert(t5 is SColon);
                            assert(step_from(b, p5, t5, scanner.pos(), scanner.peek()));
                            let ghost ev = exp;
                            assert((*prev.exp) matches ExpKind::ArrayAccess { name: pnm, index: pix }
                                && pnm@ == name@ && pix == index_exp);
                            assert(statement_parses(
                                b,
                                p0,
                                t0,
                                scanner.pos(),
                                scanner.peek(),
                                Statement { statement: StatementKind::Exp(ev) },
                            ));
                        }
                        StatementKind::Exp(exp)
                    }
                },
                _ => {
                    let ghost nmv = name;
                    let exp = match generate_exp_name(scanner, name) {
                        Ok(e) => e,
                        Err(e) => {
                            proof {
                                assert(statement_fails(b, p0, t0, e));
                            }
                            return Err(e);
                        },
                    };
                    let ghost p2 = scanner.pos();
                    let ghost t2 = scanner.peek();
                    match consume_token(scanner, TokenDiscriminants::SColon) {
                        Ok(_) => {},
                        Err(e) => {
                            proof {
                                let ghost ev = exp;
                                assert(exp_name_parses(b, p1, t1, p2, t2, nmv@, ev) && ev.exp
                                    == ev.exp);
                                assert(exp_name_to(b, p1, t1, p2, t2, nmv@));
                                assert(statement_fails(b, p0, t0, e));
                            }
                            return Err(e);
                        },
                    }
                    proof {
                        assert(t2 is SColon);
                        assert(step_from(b, p2, t2, scanner.pos(), scanner.peek()));
                        assert(!(t1 is Assign) && !(t1 is LBracket));
                        let ghost ev = exp;
                        assert(statement_parses(
                            b,
                            p0,
                            t0,
                            scanner.pos(),
                            scanner.peek(),
                            Statement { statement: StatementKind::Exp(ev) },
                        ));
                    }
                    StatementKind::Exp(exp)
                },
            }
        },
        _ => {
            let exp = match generate_exp(scanner) {
                Ok(e) => e,
                Err(e) => {
                    proof {
                        assert(statement_fails(b, p0, t0, e));
                    }
                    return Err(e);
                },
            };
            let ghost p1 = scanner.pos();
            let ghost t1 = scanner.peek();
            match consume_token(scanner, TokenDiscriminants::SColon) {
                Ok(_) => {},
                Err(e) => {
                    proof {
                        let ghost ev = exp;
                        assert(exp_parses(b, p0, t0, p1, t1, ev) && ev.exp == ev.exp);
                        assert(exp_to(b, p0, t0, p1, t1));
                        assert(statement_fails(b, p0, t0, e));
                    }
                    return Err(e);
                },
            }
            proof {
                assert(t1 is SColon);
                assert(step_from(b, p1, t1, scanner.pos(), scanner.peek()));
                let ghost ev = exp;
                assert(statement_parses(
                    b,
                    p0,
                    t0,
                    scanner.pos(),
                    scanner.peek(),
                    Statement { statement: StatementKind::Exp(ev) },
                ));
            }
            StatementKind::Exp(exp)
        },
    };
    Ok(Statement { statement })
}

/// Parses a control-flow construct: a conditional, with or without an
/// alternative, or a loop.
fn generate_nest(scanner: &mut Scanner) -> (r: Result<Nest, ASTError>)
    requires
        old(scanner).wf(),
    ensures
        final(scanner).wf(),
        final(scanner).bytes() == old(scanner).bytes(),
        final(scanner).remaining() <= old(scanner).remaining(),
        r matches Ok(n) ==> nest_parses(
            old(scanner).bytes(),
            old(scanner).pos(),
            old(scanner).peek(),
            final(scanner).pos(),
            final(scanner).peek(),
            n,
        ) && final(scanner).remaining() < old(scanner).remaining(),
        r matches Err(e) ==> nest_fails(
            old(scanner).bytes(),
            old(scanner).pos(),
            old(scanner).peek(),
            e,
        ),
    decreases old(scanner).remaining(), 6int,
{
    let ghost b = scanner.bytes();
    let ghost p0 = scanner.pos();
    let ghost t0 = scanner.peek();
    let next = match scanner.next_token() {
        Ok(t) => t,
        Err(e) => {
            let err = ASTError::ScannerError(e);
            proof {
                assert(step_fails(b, p0, err));
                assert(nest_fails(b, p0, t0, err));
            }
            return Err(err);
        },
    };
    let ghost p1 = scanner.pos();
    let ghost t1 = scanner.peek();
    let nest = match next {
        Token::If => {
            proof {
                assert(t0 is If);
                assert(step_from(b, p0, t0, p1, t1));
            }
            let cond = match generate_exp(scanner) {
                Ok(e) => e,
                Err(e) => {
                    proof {
                        assert(nest_fails(b, p0, t0, e));
                    }
                    return Err(e);
                },
            };
            let ghost p2 = scanner.pos();
            let ghost t2 = scanner.peek();
            let then = match generate_block(scanner) {
                Ok(b) => b,
                Err(e) => {
                    proof {
                        let ghost cv = cond;
                        assert(exp_parses(b, p1, t1, p2, t2, cv) && cv.exp == cv.exp);
                        assert(exp_to(b, p1, t1, p2, t2));
                        assert(nest_fails(b, p0, t0, e));
                    }
                    return Err(e);
                },
            };
            let ghost p3 = scanner.pos();
            let ghost t3 = scanner.peek();
            if variant_equal(&scanner.peek_next(), TokenDiscriminants::Else) {
                match consume_token(scanner, TokenDiscriminants::Else) {
                    Ok(_) => {},
                    Err(e) => {
                        proof {
                            let ghost cv = cond;
                            assert(exp_parses(b, p1, t1, p2, t2, cv) && cv.exp == cv.exp);
                            assert(exp_to(b, p1, t1, p2, t2));
                            let ghost tv = then;
                            assert(block_parses(b, p2, t2, p3, t3, tv) && tv.statements
                                == tv.statements);
                            assert(block_to(b, p2, t2, p3, t3));
                            assert(nest_fails(b, p0, t0, e));
                        }
                        return Err(e);
                    },
                }
                proof {
                    assert(t3 is Else);
                    assert(step_from(b, p3, t3, scanner.pos(), scanner.peek()));
                }
                let ghost p4 = scanner.pos();
                let ghost t4 = scanner.peek();
                let else_ = match generate_block(scanner) {
                    Ok(b) => b,
                    Err(e) => {
                        proof {
                            let ghost cv = cond;
                            assert(exp_parses(b, p1, t1, p2, t2, cv) && cv.exp == cv.exp);
                            assert(exp_to(b, p1, t1, p2, t2));
                            let ghost tv = then;
                            assert(block_parses(b, p2, t2, p3, t3, tv) && tv.statements
                                == tv.statements);
                            assert(block_to(b, p2, t2, p3, t3));
                            assert(nest_fails(b, p0, t0, e));
                        }
                        return Err(e);
                    },
                };
                proof {
                    let ghost cv = cond;
                    let ghost tv = then;
                    let ghost ev = else_;
                    assert(nest_parses(
                        b,
                        p0,
                        t0,
                        scanner.pos(),
                        scanner.peek(),
                        Nest { nest: NestKind::IfElse { cond: cv, then: tv, else_: ev } },
                    ));
                }
                NestKind::IfElse { cond, then, else_ }
            } else {
                proof {
                    assert(!(t3 is Else));
                    let ghost cv = cond;
                    let ghost tv = then;
                    assert(nest_parses(
                        b,
                        p0,
                        t0,
                        p3,
                        t3,
                        Nest { nest: NestKind::If { cond: cv, then: tv } },
                    ));
                }
                NestKind::If { cond, then }
            }
        },
        Token::While => {
            proof {
                assert(t0 is While);
                assert(step_from(b, p0, t0, p1, t1));
            }
            let cond = match generate_exp(scanner) {
                Ok(e) => e,
                Err(e) => {
                    proof {
                        assert(nest_fails(b, p0, t0, e));
                    }
                    return Err(e);
                },
            };
            let ghost p2 = scanner.pos();
            let ghost t2 = scanner.peek();
            let block = match generate_block(scanner) {
                Ok(b) => b,
                Err(e) => {
                    proof {
                        let ghost cv = cond;
                        assert(exp_parses(b, p1, t1, p2, t2, cv) && cv.exp == cv.exp);
                        assert(exp_to(b, p1, t1, p2, t2));
                        assert(nest_fails(b, p0, t0, e));
                    }
                    return Err(e);
                },
            };
            proof {
                let ghost cv = cond;
                let ghost bv = block;
                assert(nest_parses(
                    b,
                    p0,
                    t0,
                    scanner.pos(),
                    scanner.peek(),
                    Nest { nest: NestKind::While { cond: cv, block: bv } },
                ));
            }
            NestKind::While { cond, block }
        },
        other => {
            let err = ASTError::UnexpectedToken(other);
            proof {
                assert(other == t0);
                assert(nest_fails(b, p0, t0, err));
            }
            return Err(err);
        },
    };
    Ok(Nest { nest })
}

/// Parses an expression, deciding its form from the leading token.
#[verifier::rlimit(100)]
fn generate_exp(scanner: &mut Scanner) -> (r: Result<Exp, ASTError>)
    requires
        old(scanner).wf(),
    ensures
        final(scanner).wf(),
        final(scanner).bytes() == old(scanner).bytes(),
        final(scanner).remaining() <= old(scanner).remaining(),
        r matches Ok(e) ==> exp_parses(
            old(scanner).bytes(),
            old(scanner).pos(),
            old(scanner).peek(),
            final(scanner).pos(),
            final(scanner).peek(),
            e,
        ) && final(scanner).remaining() < old(scanner).remaining(),
        r matches Err(e) ==> exp_fails(
            old(scanner).bytes(),
            old(scanner).pos(),
            old(scanner).peek(),
            e,
        ),
    decreases old(scanner).remaining(), 4int,
{
    let ghost b = scanner.bytes();
    let ghost p0 = scanner.pos();
    let ghost t0 = scanner.peek();
    let pk = scanner.peek_next();
    proof {
        assert(pk == t0);
    }
    match pk {
        Token::Name(name) => {
            match consume_token(scanner, TokenDiscriminants::Name) {
                Ok(_) => {},
                Err(e) => {
                    proof {
                        assert(exp_fails(b, p0, t0, e));
                    }
                    return Err(e);
                },
            }
            proof {
                assert(t0 matches Token::Name(nm) && nm@ == name@);
                assert(step_from(b, p0, t0, scanner.pos(), scanner.peek()));
            }
            let res = generate_exp_name(scanner, name);
            proof {
                if res is Ok {
                    assert(exp_parses(b, p0, t0, scanner.pos(), scanner.peek(), res->Ok_0));
                } else {
                    assert(exp_fails(b, p0, t0, res->Err_0));
                }
            }
            res
        },
        Token::Sqrt | Token::Len | Token::Round | Token::Input => {
            let builtin_tok = match scanner.next_token() {
                Ok(t) => t,
                Err(e) => {
                    let err = ASTError::ScannerError(e);
                    proof {
                        assert(step_fails(b, p0, err));
                        assert(exp_fails(b, p0, t0, err));
                    }
                    return Err(err);
                },
            };
            let ghost p1 = scanner.pos();
            let ghost t1 = scanner.peek();
            proof {
                assert(builtin_tok == t0);
                assert(is_builtin_token(t0));
                assert(!(t0 is Eof));
                assert(step_from(b, p0, t0, p1, t1));
            }
            let exps = match generate_exps(scanner) {
                Ok(es) => es,
                Err(e) => {
                    proof {
                        assert(exp_fails(b, p0, t0, e));
                    }
                    return Err(e);
                },
            };
            let ghost esv = exps.exps@;
            let bk = match lookup::lookup_builtin(builtin_tok, exps) {
                Ok(b) => b,
                Err(e) => {
                    proof {
                        assert(false);
                    }
                    return Err(e);
                },
            };
            let preexp = Exp { exp: Box::new(ExpKind::BuiltIn(BuiltIn { builtin: bk })) };
            let ghost prev = preexp;
            let ghost p2 = scanner.pos();
            let ghost t2 = scanner.peek();
            let res = generate_exp_preexp(scanner, preexp);
            proof {
                if res is Ok {
                    assert((*prev.exp) matches ExpKind::BuiltIn(bi) && builtin_token_of(bi.builtin)
                        == t0 && builtin_args_of(bi.builtin).exps@ == esv);
                    assert(exps_parses(b, p1, t1, p2, t2, esv));
                    assert(exp_parses(b, p0, t0, scanner.pos(), scanner.peek(), res->Ok_0));
                } else {
                    assert(exps_parses(b, p1, t1, p2, t2, esv) && esv.len() >= 0);
                    assert(exps_to(b, p1, t1, p2, t2));
                    assert(exp_fails(b, p0, t0, res->Err_0));
                }
            }
            res
        },
        Token::Num(value) => {
            match consume_token(scanner, TokenDiscriminants::Num) {
                Ok(_) => {},
                Err(e) => {
                    proof {
                        assert(exp_fails(b, p0, t0, e));
                    }
                    return Err(e);
                },
            }
            proof {
                assert(t0 matches Token::Num(nb));
                assert(step_from(b, p0, t0, scanner.pos(), scanner.peek()));
            }
            let ghost p1 = scanner.pos();
            let ghost t1 = scanner.peek();
            let pk1 = scanner.peek_next();
            proof {
                assert(pk1 == t1);
            }
            match pk1 {
                Token::SColon | Token::Comma | Token::RParen | Token::RBracket => {
                    let e = Exp { exp: Box::new(ExpKind::Num(value)) };
                    proof {
                        assert(is_exp_end(t1));
                        let ghost ev = e;
                        assert(exp_parses(b, p0, t0, p1, t1, ev));
                    }
                    Ok(e)
                },
                _ => {
                    let optok = match scanner.next_token() {
                        Ok(t) => t,
                        Err(e) => {
                            let err = ASTError::ScannerError(e);
                            proof {
                                assert(step_fails(b, p1, err));
                                assert(!is_exp_end(t1));
                                assert(exp_fails(b, p0, t0, err));
                            }
                            return Err(err);
                        },
                    };
                    let ghost p2 = scanner.pos();
                    let ghost t2 = scanner.peek();
                    let op = match lookup::lookup_infix(optok) {
                        Ok(o) => o,
                        Err(e) => {
                            proof {
                                assert(optok == t1);
                                assert(infix_of(t1) is None);
                                assert(e == ASTError::InvalidOperator(t1));
                                assert(!is_exp_end(t1));
                                assert(exp_fails(b, p0, t0, e));
                            }
                            return Err(e);
                        },
                    };
                    proof {
                        assert(optok == t1);
                        assert(infix_of(t1) == Some(op));
                        assert(!(t1 is Eof));
                        assert(step_from(b, p1, t1, p2, t2));
                    }
                    let rhs = match generate_exp(scanner) {
                        Ok(e) => e,
                        Err(e) => {
                            proof {
                                assert(!is_exp_end(t1));
                                assert(exp_fails(b, p0, t0, e));
                            }
                            return Err(e);
                        },
                    };
                    let res = generate_infix(ExpKind::Num(value), op, rhs);
                    proof {
                        if res is Ok {
                            assert(!is_exp_end(t1));
                            assert(infix_of(t1) == Some(op));
                            assert(exp_parses(b, p0, t0, scanner.pos(), scanner.peek(), res->Ok_0));
                        }
                    }
                    res
                },
            }
        },
        Token::LBracket => {
            match consume_token(scanner, TokenDiscriminants::LBracket) {
                Ok(_) => {},
                Err(e) => {
                    proof {
                        assert(exp_fails(b, p0, t0, e));
                    }
                    return Err(e);
                },
            }
            proof {
                assert(t0 is LBracket);
                assert(step_from(b, p0, t0, scanner.pos(), scanner.peek()));
            }
            let ghost p1 = scanner.pos();
            let ghost t1 = scanner.peek();
            let size = match generate_exp(scanner) {
                Ok(e) => e,
                Err(e) => {
                    proof {
                        assert(exp_fails(b, p0, t0, e));
                    }
                    return Err(e);
                },
            };
            let ghost p2 = scanner.pos();
            let ghost t2 = scanner.peek();
            match consume_token(scanner, TokenDiscriminants::RBracket) {
                Ok(_) => {},
                Err(e) => {
                    proof {
                        let ghost sv = size;
                        assert(exp_parses(b, p1, t1, p2, t2, sv) && sv.exp == sv.exp);
                        assert(exp_to(b, p1, t1, p2, t2));
                        assert(exp_fails(b, p0, t0, e));
                    }
                    return Err(e);
                },
            }
            proof {
                assert(t2 is RBracket);
                assert(step_from(b, p2, t2, scanner.pos(), scanner.peek()));
            }
            let ghost p3 = scanner.pos();
            let ghost t3 = scanner.peek();
            let preexp = Exp { exp: Box::new(ExpKind::ArrayInit { size }) };
            let ghost prev = preexp;
            let res = generate_exp_preexp(scanner, preexp);
            proof {
                if res is Ok {
                    assert((*prev.exp) matches ExpKind::ArrayInit { size: sz });
                    assert(exp_parses(b, p0, t0, scanner.pos(), scanner.peek(), res->Ok_0));
                } else {
                    assert((*prev.exp) matches ExpKind::ArrayInit { size: sz } && sz.exp == sz.exp
                        && exp_parses(b, p1, t1, p2, t2, sz));
                    assert(exp_to(b, p1, t1, p2, t2));
                    assert(exp_fails(b, p0, t0, res->Err_0));
                }
            }
            res
        },
        Token::LParen => {
            match consume_token(scanner, TokenDiscriminants::LParen) {
                Ok(_) => {},
                Err(e) => {
                    proof {
                        assert(exp_fails(b, p0, t0, e));
                    }
                    return Err(e);
                },
            }
            proof {
                assert(t0 is LParen);
                assert(step_from(b, p0, t0, scanner.pos(), scanner.peek()));
            }
            let ghost p1 = scanner.pos();
            let ghost t1 = scanner.peek();
            let inner = match generate_exp(scanner) {
                Ok(e) => e,
                Err(e) => {
                    proof {
                        assert(exp_fails(b, p0, t0, e));
                    }
                    return Err(e);
                },
            };
            let ghost innv = inner;
            let ghost p2 = scanner.pos();
            let ghost t2 = scanner.peek();
            match consume_token(scanner, TokenDiscriminants::RParen) {
                Ok(_) => {},
                Err(e) => {
                    proof {
                        assert(exp_parses(b, p1, t1, p2, t2, innv) && innv.exp == innv.exp);
                        assert(exp_to(b, p1, t1, p2, t2));
                        assert(exp_fails(b, p0, t0, e));
                    }
                    return Err(e);
                },
            }
            proof {
                assert(t2 is RParen);
                assert(step_from(b, p2, t2, scanner.pos(), scanner.peek()));
            }
            let res = generate_exp_preexp(scanner, inner);
            proof {
                if res is Ok {
                    assert(innv.exp == innv.exp);
                    assert(exp_parses(b, p0, t0, scanner.pos(), scanner.peek(), res->Ok_0));
                } else {
                    assert(exp_parses(b, p1, t1, p2, t2, innv) && innv.exp == innv.exp);
                    assert(exp_to(b, p1, t1, p2, t2));
                    assert(exp_fails(b, p0, t0, res->Err_0));
                }
            }
            res
        },
        Token::Minus | Token::Not => {
            let unoptok = match scanner.next_token() {
                Ok(t) => t,
                Err(e) => {
                    let err = ASTError::ScannerError(e);
                    proof {
                        assert(step_fails(b, p0, err));
                        assert(exp_fails(b, p0, t0, err));
                    }
                    return Err(err);
                },
            };
            let ghost p1 = scanner.pos();
            let ghost t1 = scanner.peek();
            let uo = match lookup::lookup_unop(unoptok) {
                Ok(u) => u,
                Err(e) => {
                    proof {
                        assert(false);
                    }
                    return Err(e);
                },
            };
            proof {
                assert(unoptok == t0);
                assert(unop_of(t0) == Some(uo));
                assert(!(t0 is Eof));
                assert(step_from(b, p0, t0, p1, t1));
            }
            let inner = match generate_exp(scanner) {
                Ok(e) => e,
                Err(e) => {
                    proof {
                        assert(exp_fails(b, p0, t0, e));
                    }
                    return Err(e);
                },
            };
            let e = Exp { exp: Box::new(ExpKind::Unary(Unop { unop: uo }, inner)) };
            proof {
                assert(unop_of(t0) == Some(uo));
                let ghost ev = e;
                assert(exp_parses(b, p0, t0, scanner.pos(), scanner.peek(), ev));
            }
            Ok(e)
        },
        other => {
            let err = ASTError::UnexpectedToken(other);
            proof {
                assert(other == t0);
                assert(exp_fails(b, p0, t0, err));
            }
            Err(err)
        },
    }
}

/// Either leaves a just-parsed sub-expression alone, the pending token
/// ending it, or chains it as the left operand of the pending operator.
fn generate_exp_preexp(scanner: &mut Scanner, preexp: Exp) -> (r: Result<Exp, ASTError>)
    requires
        old(scanner).wf(),
    ensures
        final(scanner).wf(),
        final(scanner).bytes() == old(scanner).bytes(),
        final(scanner).remaining() <= old(scanner).remaining(),
        r matches Ok(e) ==> preexp_parses(
            old(scanner).bytes(),
            old(scanner).pos(),
            old(scanner).peek(),
            final(scanner).pos(),
            final(scanner).peek(),
            preexp,
            e,
        ),
        r matches Err(e) ==> preexp_fails(
            old(scanner).bytes(),
            old(scanner).pos(),
            old(scanner).peek(),
            e,
        ),
    decreases old(scanner).remaining(), 3int,
{
    let ghost b = scanner.bytes();
    let ghost p0 = scanner.pos();
    let ghost t0 = scanner.peek();
    let ghost prev = preexp;
    let pk = scanner.peek_next();
    proof {
        assert(pk == t0);
    }
    match pk {
        Token::SColon | Token::Comma | Token::LCurly | Token::RParen | Token::RBracket => {
            proof {
                assert(is_preexp_end(t0));
            }
            Ok(preexp)
        },
        _ => {
            let optok = match scanner.next_token() {
                Ok(t) => t,
                Err(e) => {
                    let err = ASTError::ScannerError(e);
                    proof {
                        assert(step_fails(b, p0, err));
                        assert(!is_preexp_end(t0));
                        assert(preexp_fails(b, p0, t0, err));
                    }
                    return Err(err);
                },
            };
            let ghost pn = scanner.pos();
            let ghost tn = scanner.peek();
            let op = match lookup::lookup_infix(optok) {
                Ok(o) => o,
                Err(e) => {
                    proof {
                        assert(optok == t0);
                        assert(infix_of(t0) is None && e == ASTError::InvalidOperator(t0));
                        assert(!is_preexp_end(t0));
                        assert(preexp_fails(b, p0, t0, e));
                    }
                    return Err(e);
                },
            };
            proof {
                assert(optok == t0);
                assert(infix_of(t0) == Some(op));
                assert(!(t0 is Eof));
                assert(step_from(b, p0, t0, pn, tn));
            }
            let rhs = match generate_exp(scanner) {
                Ok(e) => e,
                Err(e) => {
                    proof {
                        assert(!is_preexp_end(t0));
                        assert(preexp_fails(b, p0, t0, e));
                    }
                    return Err(e);
                },
            };
            let e = Exp { exp: Box::new(ExpKind::Infix(preexp, Op { op }, rhs)) };
            proof {
                assert(infix_of(t0) == Some(op));
                assert(!is_preexp_end(t0));
                let ghost ev = e;
                assert((*ev.exp) matches ExpKind::Infix(l, o, r) && l == prev && o.op == op);
                assert(preexp_parses(b, p0, t0, scanner.pos(), scanner.peek(), prev, ev));
            }
            Ok(e)
        },
    }
}

/// Parses the rest of an expression whose leading name, already
/// consumed, is given: the name alone, a call, an array access, or the
/// left operand of an operator chain.
fn generate_exp_name(scanner: &mut Scanner, name: String) -> (r: Result<Exp, ASTError>)
    requires
        old(scanner).wf(),
    ensures
        final(scanner).wf(),
        final(scanner).bytes() == old(scanner).bytes(),
        final(scanner).remaining() <= old(scanner).remaining(),
        r matches Ok(e) ==> exp_name_parses(
            old(scanner).bytes(),
            old(scanner).pos(),
            old(scanner).peek(),
            final(scanner).pos(),
            final(scanner).peek(),
            name@,
            e,
        ),
        r matches Err(e) ==> exp_name_fails(
            old(scanner).bytes(),
            old(scanner).pos(),
            old(scanner).peek(),
            e,
        ),
    decreases old(scanner).remaining(), 3int,
{
    let ghost b = scanner.bytes();
    let ghost p0 = scanner.pos();
    let ghost t0 = scanner.peek();
    let ghost nmv = name@;
    match scanner.peek_next() {
        Token::SColon | Token::Comma | Token::RParen | Token::RBracket => {
            let e = Exp { exp: Box::new(ExpKind::Name(name)) };
            proof {
                assert(is_exp_end(t0));
                let ghost ev = e;
                assert(exp_name_parses(b, p0, t0, p0, t0, nmv, ev));
            }
            Ok(e)
        },
        Token::LParen => {
            match consume_token(scanner, TokenDiscriminants::LParen) {
                Ok(_) => {},
                Err(e) => {
                    return Err(e);
                },
            }
            proof {
                assert(t0 is LParen);
                assert(step_from(b, p0, t0, scanner.pos(), scanner.peek()));
            }
            let ghost p1 = scanner.pos();
            let ghost t1 = scanner.peek();
            let items = match parse_call_args(scanner) {
                Ok(v) => v,
                Err(e) => {
                    proof {
                        assert(!is_exp_end(t0));
                        assert(exp_name_fails(b, p0, t0, e));
                    }
                    return Err(e);
                },
            };
            let ghost itv = items@;
            let ghost p2 = scanner.pos();
            let ghost t2 = scanner.peek();
            match consume_token(scanner, TokenDiscriminants::RParen) {
                Ok(_) => {},
                Err(e) => {
                    proof {
                        assert(call_args_parse(b, p1, t1, p2, t2, itv) && itv.len() >= 0);
                        assert(call_args_to(b, p1, t1, p2, t2));
                        assert(!is_exp_end(t0));
                        assert(exp_name_fails(b, p0, t0, e));
                    }
                    return Err(e);
                },
            }
            proof {
                assert(t2 is RParen);
                assert(step_from(b, p2, t2, scanner.pos(), scanner.peek()));
            }
            let e = Exp { exp: Box::new(ExpKind::Call(name, Exps { exps: items })) };
            proof {
                let ghost ev = e;
                assert((*ev.exp) matches ExpKind::Call(cnm, exps) && cnm@ == nmv && exps.exps@
                    == itv);
                assert(exp_name_parses(b, p0, t0, scanner.pos(), scanner.peek(), nmv, ev));
            }
            Ok(e)
        },
        Token::LBracket => {
            match consume_token(scanner, TokenDiscriminants::LBracket) {
                Ok(_) => {},
                Err(e) => {
                    return Err(e);
                },
            }
            proof {
                assert(t0 is LBracket);
                assert(step_from(b, p0, t0, scanner.pos(), scanner.peek()));
            }
            let ghost p1 = scanner.pos();
            let ghost t1 = scanner.peek();
            let index = match generate_exp(scanner) {
                Ok(e) => e,
                Err(e) => {
                    proof {
                        assert(!is_exp_end(t0));
                        assert(exp_name_fails(b, p0, t0, e));
                    }
                    return Err(e);
                },
            };
            let ghost p2 = scanner.pos();
            let ghost t2 = scanner.peek();
            match consume_token(scanner, TokenDiscriminants::RBracket) {
                Ok(_) => {},
                Err(e) => {
                    proof {
                        let ghost ixv = index;
                        assert(exp_parses(b, p1, t1, p2, t2, ixv) && ixv.exp == ixv.exp);
                        assert(exp_to(b, p1, t1, p2, t2));
                        assert(!is_exp_end(t0));
                        assert(exp_name_fails(b, p0, t0, e));
                    }
                    return Err(e);
                },
            }
            proof {
                assert(t2 is RBracket);
                assert(step_from(b, p2, t2, scanner.pos(), scanner.peek()));
            }
            let e = Exp { exp: Box::new(ExpKind::ArrayAccess { name, index }) };
            proof {
                let ghost ev = e;
                assert((*ev.exp) matches ExpKind::ArrayAccess { name: anm, index: ix } && anm@
                    == nmv);
                assert(exp_name_parses(b, p0, t0, scanner.pos(), scanner.peek(), nmv, ev));
            }
            Ok(e)
        },
        _ => {
            let optok = match scanner.next_token() {
                Ok(t) => t,
                Err(e) => {
                    let err = ASTError::ScannerError(e);
                    proof {
                        assert(step_fails(b, p0, err));
                        assert(!is_exp_end(t0));
                        assert(exp_name_fails(b, p0, t0, err));
                    }
                    return Err(err);
                },
            };
            let ghost pn = scanner.pos();
            let ghost tn = scanner.peek();
            let op = match lookup::lookup_infix(optok) {
                Ok(o) => o,
                Err(e) => {
                    proof {
                        assert(optok == t0);
                        assert(infix_of(t0) is None && e == ASTError::InvalidOperator(t0));
                        assert(!is_exp_end(t0));
                        assert(exp_name_fails(b, p0, t0, e));
                    }
                    return Err(e);
                },
            };
            proof {
                assert(optok == t0);
                assert(infix_of(t0) == Some(op));
                assert(!(t0 is Eof));
                assert(step_from(b, p0, t0, pn, tn));
            }
            let rhs = match generate_exp(scanner) {
                Ok(e) => e,
                Err(e) => {
                    proof {
                        assert(!is_exp_end(t0));
                        assert(exp_name_fails(b, p0, t0, e));
                    }
                    return Err(e);
                },
            };
            let res = generate_infix(ExpKind::Name(name), op, rhs);
            proof {
                if res is Ok {
                    assert(!is_exp_end(t0));
                    assert(infix_of(t0) == Some(op));
                    assert(exp_name_parses(b, p0, t0, scanner.pos(), scanner.peek(), nmv, res->Ok_0));
                }
            }
            res
        },
    }
}

/// Parses a call's actual arguments, leaving the closing parenthesis
/// pending; a comma after an argument is consumed but not required.
fn parse_call_args(scanner: &mut Scanner) -> (r: Result<Vec<Exp>, ASTError>)
    requires
        old(scanner).wf(),
    ensures
        final(scanner).wf(),
        final(scanner).bytes() == old(scanner).bytes(),
        final(scanner).remaining() <= old(scanner).remaining(),
        r matches Ok(es) ==> call_args_parse(
            old(scanner).bytes(),
            old(scanner).pos(),
            old(scanner).peek(),
            final(scanner).pos(),
            final(scanner).peek(),
            es@,
        ),
        r matches Err(e) ==> call_args_fails(
            old(scanner).bytes(),
            old(scanner).pos(),
            old(scanner).peek(),
            e,
        ),
    decreases old(scanner).remaining(), 5int,
{
    let ghost b = scanner.bytes();
    let ghost p0 = scanner.pos();
    let ghost t0 = scanner.peek();
    if variant_equal(&scanner.peek_next(), TokenDiscriminants::RParen) {
        let out: Vec<Exp> = Vec::new();
        proof {
            assert(out@ =~= Seq::<Exp>::empty());
            assert(t0 is RParen);
        }
        return Ok(out);
    }
    let param = match generate_exp(scanner) {
        Ok(e) => e,
        Err(e) => {
            proof {
                assert(!(t0 is RParen));
                assert(call_args_fails(b, p0, t0, e));
            }
            return Err(e);
        },
    };
    let ghost pv = param;
    let ghost p1 = scanner.pos();
    let ghost t1 = scanner.peek();
    proof {
        assert(exp_parses(b, p0, t0, p1, t1, pv) && pv.exp == pv.exp);
        assert(exp_to(b, p0, t0, p1, t1));
    }
    if variant_equal(&scanner.peek_next(), TokenDiscriminants::Comma) {
        match consume_token(scanner, TokenDiscriminants::Comma) {
            Ok(_) => {},
            Err(e) => {
                proof {
                    assert(t1 is Comma);
                    assert(!(t0 is RParen));
                    assert(call_args_fails(b, p0, t0, e));
                }
                return Err(e);
            },
        }
        proof {
            assert(t1 is Comma);
            assert(step_from(b, p1, t1, scanner.pos(), scanner.peek()));
        }
        let ghost p2 = scanner.pos();
        let ghost t2 = scanner.peek();
        let rest = match parse_call_args(scanner) {
            Ok(v) => v,
            Err(e) => {
                proof {
                    assert(!(t0 is RParen));
                    assert(call_args_fails(b, p0, t0, e));
                }
                return Err(e);
            },
        };
        let ghost restv = rest@;
        let mut out = rest;
        out.insert(0, param);
        proof {
            assert(out@.drop_first() =~= restv);
            assert(out@[0] == pv);
            assert(!(t0 is RParen));
            assert(call_args_parse(b, p0, t0, scanner.pos(), scanner.peek(), out@));
        }
        Ok(out)
    } else {
        let rest = match parse_call_args(scanner) {
            Ok(v) => v,
            Err(e) => {
                proof {
                    assert(!(t1 is Comma));
                    assert(!(t0 is RParen));
                    assert(call_args_fails(b, p0, t0, e));
                }
                return Err(e);
            },
        };
        let ghost restv = rest@;
        let mut out = rest;
        out.insert(0, param);
        proof {
            assert(out@.drop_first() =~= restv);
            assert(out@[0] == pv);
            assert(!(t1 is Comma));
            assert(!(t0 is RParen));
            assert(call_args_parse(b, p0, t0, scanner.pos(), scanner.peek(), out@));
        }
        Ok(out)
    }
}

/// Parses a parenthesized, comma-separated argument list for a built-in
/// call, both parentheses consumed.
fn generate_exps(scanner: &mut Scanner) -> (r: Result<Exps, ASTError>)
    requires
        old(scanner).wf(),
    ensures
        final(scanner).wf(),
        final(scanner).bytes() == old(scanner).bytes(),
        final(scanner).remaining() <= old(scanner).remaining(),
        r matches Ok(es) ==> exps_parses(
            old(scanner).bytes(),
            old(scanner).pos(),
            old(scanner).peek(),
            final(scanner).pos(),
            final(scanner).peek(),
            es.exps@,
        ) && final(scanner).remaining() < old(scanner).remaining(),
        r matches Err(e) ==> exps_fails(
            old(scanner).bytes(),
            old(scanner).pos(),
            old(scanner).peek(),
            e,
        ),
    decreases old(scanner).remaining(), 5int,
{
    let ghost b = scanner.bytes();
    let ghost p0 = scanner.pos();
    let ghost t0 = scanner.peek();
    match consume_token(scanner, TokenDiscriminants::LParen) {
        Ok(_) => {},
        Err(e) => {
            proof {
                assert(exps_fails(b, p0, t0, e));
            }
            return Err(e);
        },
    }
    proof {
        assert(t0 is LParen);
        assert(step_from(b, p0, t0, scanner.pos(), scanner.peek()));
    }
    let ghost p1 = scanner.pos();
    let ghost t1 = scanner.peek();
    let items = match parse_exps_items(scanner) {
        Ok(v) => v,
        Err(e) => {
            proof {
                assert(exps_fails(b, p0, t0, e));
            }
            return Err(e);
        },
    };
    let ghost itv = items@;
    let ghost p2 = scanner.pos();
    let ghost t2 = scanner.peek();
    match consume_token(scanner, TokenDiscriminants::RParen) {
        Ok(_) => {},
        Err(e) => {
            proof {
                assert(exps_items_parse(b, p1, t1, p2, t2, itv) && itv.len() >= 0);
                assert(exps_items_to(b, p1, t1, p2, t2));
                assert(exps_fails(b, p0, t0, e));
            }
            return Err(e);
        },
    }
    proof {
        assert(t2 is RParen);
        assert(step_from(b, p2, t2, scanner.pos(), scanner.peek()));
        assert(exps_parses(b, p0, t0, scanner.pos(), scanner.peek(), itv));
    }
    Ok(Exps { exps: items })
}

/// Parses the items of a built-in's argument list, leaving the closing
/// parenthesis pending; here a comma is required between items.
fn parse_exps_items(scanner: &mut Scanner) -> (r: Result<Vec<Exp>, ASTError>)
    requires
        old(scanner).wf(),
    ensures
        final(scanner).wf(),
        final(scanner).bytes() == old(scanner).bytes(),
        final(scanner).remaining() <= old(scanner).remaining(),
        r matches Ok(es) ==> exps_items_parse(
            old(scanner).bytes(),
            old(scanner).pos(),
            old(scanner).peek(),
            final(scanner).pos(),
            final(scanner).peek(),
            es@,
        ),
        r matches Err(e) ==> exps_items_fails(
            old(scanner).bytes(),
            old(scanner).pos(),
            old(scanner).peek(),
            e,
        ),
    decreases old(scanner).remaining(), 5int,
{
    let ghost b = scanner.bytes();
    let ghost p0 = scanner.pos();
    let ghost t0 = scanner.peek();
    if variant_equal(&scanner.peek_next(), TokenDiscriminants::RParen) {
        let out: Vec<Exp> = Vec::new();
        proof {
            assert(out@ =~= Seq::<Exp>::empty());
            assert(t0 is RParen);
        }
        return Ok(out);
    }
    let item = match generate_exp(scanner) {
        Ok(e) => e,
        Err(e) => {
            proof {
                assert(!(t0 is RParen));
                assert(exps_items_fails(b, p0, t0, e));
            }
            return Err(e);
        },
    };
    let ghost iv = item;
    let ghost p1 = scanner.pos();
    let ghost t1 = scanner.peek();
    proof {
        assert(exp_parses(b, p0, t0, p1, t1, iv) && iv.exp == iv.exp);
        assert(exp_to(b, p0, t0, p1, t1));
    }
    if variant_equal(&scanner.peek_next(), TokenDiscriminants::RParen) {
        let ghost itv = item;
        let mut out: Vec<Exp> = Vec::new();
        out.push(item);
        proof {
            assert(out@.len() == 1 && out@[0] == itv);
            assert(!(t0 is RParen));
            assert(t1 is RParen);
            assert(exps_items_parse(b, p0, t0, p1, t1, out@));
        }
        return Ok(out);
    }
    match consume_token(scanner, TokenDiscriminants::Comma) {
        Ok(_) => {},
        Err(e) => {
            proof {
                assert(!(t1 is RParen));
                assert(!(t0 is RParen));
                assert(exps_items_fails(b, p0, t0, e));
            }
            return Err(e);
        },
    }
    proof {
        assert(t1 is Comma);
        assert(step_from(b, p1, t1, scanner.pos(), scanner.peek()));
    }
    let ghost p2 = scanner.pos();
    let ghost t2 = scanner.peek();
    let rest = match parse_exps_items(scanner) {
        Ok(v) => v,
        Err(e) => {
            proof {
                assert(!(t1 is RParen));
                assert(!(t0 is RParen));
                assert(exps_items_fails(b, p0, t0, e));
            }
            return Err(e);
        },
    };
    let ghost restv = rest@;
    let mut out = rest;
    out.insert(0, item);
    proof {
        assert(out@.drop_first() =~= restv);
        assert(out@[0] == item);
        assert(!(t0 is RParen));
        assert(exps_items_parse(b, p0, t0, scanner.pos(), scanner.peek(), out@));
    }
    Ok(out)
}

} // verus!
