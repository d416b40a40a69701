//! The meaning of a program, as mathematics.
//!
//! Every evaluation form is given by a spec function over the definition
//! table, the current frame's bindings, the unread input lines, and the
//! syntax node, all indexed by a nesting budget so the functions are
//! total: entering a call or re-entering a loop body spends one unit, and
//! an exhausted budget is its own outcome, distinct from every error. The
//! executable evaluator's contracts state that it returns exactly what
//! these functions say.
//!
//! Expressions never change the frame's bindings — only statements do —
//! so expression forms return a value and the input left unread, while
//! statement forms also return the new bindings and an optional value
//! whose presence means a `return` was executed.

use vstd::prelude::*;

use super::environment::{ValueDiscriminants, ValueV};
use super::errors::ErrV;
use super::helpers::{bool_bits, truthy_bits};
use super::input::trimmed;
use super::symbols::{
    Block,
    BuiltIn,
    BuiltInKind,
    ComparisonKind,
    Def,
    Exp,
    ExpKind,
    LogicalKind,
    Nest,
    NestKind,
    OpKind,
    Program,
    Statement,
    StatementKind,
    UnopKind,
};
use super::EPSILON_BITS;
use crate::numeric::{
    abs_bits,
    add_bits,
    bits_of_usize,
    div_bits,
    ge_bits,
    gt_bits,
    le_bits,
    lt_bits,
    mul_bits,
    neg_bits,
    parsed_bits,
    rem_bits,
    round_bits,
    sqrt_bits,
    sub_bits,
    trunc_bits,
};

verus! {

/// How an evaluation ends: with a result, with a fatal error, or out of
/// nesting budget.
pub enum Outcome<T> {
    Val(T),
    Halt(ErrV),
    NoFuel,
}

/// The definition table a program declares: its definitions by name, a
/// later definition of a name shadowing an earlier one.
pub open spec fn defs_map(defs: Seq<Def>) -> Map<Seq<char>, Def>
    decreases defs.len(),
{
    if defs.len() == 0 {
        Map::empty()
    } else {
        defs_map(defs.drop_last()).insert(defs.last().name@, defs.last())
    }
}

/// The frame a call starts with: parameters bound to actuals in order, a
/// later parameter of the same name shadowing an earlier one.
pub open spec fn bind_args(names: Seq<String>, vs: Seq<ValueV>) -> Map<Seq<char>, ValueV>
    decreases names.len(),
{
    if names.len() == 0 || vs.len() == 0 {
        Map::empty()
    } else {
        bind_args(names.drop_last(), vs.drop_last()).insert(names.last()@, vs.last())
    }
}

/// What a binary operator yields on two doubles: division and remainder
/// fail when the divisor lies within tolerance of zero; equality holds
/// when the difference lies within tolerance; the logical connectives
/// test both operands' truthiness and encode the answer as a double.
pub open spec fn apply_op(op: OpKind, a: u64, b: u64) -> Outcome<u64> {
    match op {
        OpKind::Plus => Outcome::Val(add_bits(a, b)),
        OpKind::Mul => Outcome::Val(mul_bits(a, b)),
        OpKind::Minus => Outcome::Val(sub_bits(a, b)),
        OpKind::Div => if lt_bits(abs_bits(b), EPSILON_BITS) {
            Outcome::Halt(ErrV::DivideByZero)
        } else {
            Outcome::Val(div_bits(a, b))
        },
        OpKind::Mod => if lt_bits(abs_bits(b), EPSILON_BITS) {
            Outcome::Halt(ErrV::DivideByZero)
        } else {
            Outcome::Val(rem_bits(a, b))
        },
        OpKind::Logical(l) => match l.logical {
            LogicalKind::Or => Outcome::Val(bool_bits(truthy_bits(a) || truthy_bits(b))),
            LogicalKind::And => Outcome::Val(bool_bits(truthy_bits(a) && truthy_bits(b))),
        },
        OpKind::Comparison(c) => match c.comparison {
            ComparisonKind::Equals => Outcome::Val(
                bool_bits(lt_bits(abs_bits(sub_bits(a, b)), EPSILON_BITS)),
            ),
            ComparisonKind::NotEqual => Outcome::Val(
                bool_bits(gt_bits(abs_bits(sub_bits(a, b)), EPSILON_BITS)),
            ),
            ComparisonKind::Less => Outcome::Val(bool_bits(lt_bits(a, b))),
            ComparisonKind::More => Outcome::Val(bool_bits(gt_bits(a, b))),
            ComparisonKind::LessEqual => Outcome::Val(bool_bits(le_bits(a, b))),
            ComparisonKind::MoreEqual => Outcome::Val(bool_bits(ge_bits(a, b))),
        },
    }
}

/// The type-mismatch error for a double where an array was required or
/// the reverse.
pub open spec fn type_err(found: ValueDiscriminants, expected: ValueDiscriminants) -> ErrV {
    ErrV::TypeError { found: found, expected: expected }
}


/// How large an expression is: every node counts one, a call or built-in
/// one more for its argument list.
pub open spec fn exp_size(e: Exp) -> nat
    decreases e, 0int,
{
    1 + (match *e.exp {
        ExpKind::Name(_) => 0,
        ExpKind::Num(_) => 0,
        ExpKind::ArrayInit { size } => exp_size(size),
        ExpKind::Infix(lhs, op, rhs) => exp_size(lhs) + exp_size(rhs),
        ExpKind::ArrayAccess { name, index } => exp_size(index),
        ExpKind::Call(name, exps) => 1 + exps_size(exps.exps@, 0),
        ExpKind::BuiltIn(b) => builtin_size(b),
        ExpKind::Paren(inner) => exp_size(inner),
        ExpKind::Unary(u, inner) => exp_size(inner),
    })
}

/// How large the expressions from position `i` on are together.
pub open spec fn exps_size(es: Seq<Exp>, i: int) -> nat
    decreases es, es.len() - i,
{
    if i < 0 || i >= es.len() {
        0
    } else {
        1 + exp_size(es[i]) + exps_size(es, i + 1)
    }
}

/// How large a built-in call is: one more than its argument list.
pub open spec fn builtin_size(b: BuiltIn) -> nat
    decreases b, 0int,
{
    1 + (match b.builtin {
        BuiltInKind::Sqrt(exps) => exps_size(exps.exps@, 0),
        BuiltInKind::Len(exps) => exps_size(exps.exps@, 0),
        BuiltInKind::Round(exps) => exps_size(exps.exps@, 0),
        BuiltInKind::Input(exps) => exps_size(exps.exps@, 0),
    })
}

/// How large a statement is: one more than the expressions and nests
/// inside it.
pub open spec fn stmt_size(s: Statement) -> nat
    decreases s, 0int,
{
    1 + (match s.statement {
        StatementKind::Return(e) => exp_size(e),
        StatementKind::Assign { name, exp } => exp_size(exp),
        StatementKind::ArrayAssign { name, index_exp, value } => exp_size(index_exp) + exp_size(
            value,
        ),
        StatementKind::Exp(e) => exp_size(e),
        StatementKind::Nest(n) => nest_size(n),
    })
}

/// How large a control-flow construct is.
pub open spec fn nest_size(n: Nest) -> nat
    decreases n, 0int,
{
    1 + (match n.nest {
        NestKind::If { cond, then } => exp_size(cond) + block_size(then),
        NestKind::IfElse { cond, then, else_ } => exp_size(cond) + block_size(then) + block_size(
            else_,
        ),
        NestKind::While { cond, block } => exp_size(cond) + block_size(block),
    })
}

/// How large a block is: one more than its statements together.
pub open spec fn block_size(b: Block) -> nat
    decreases b, 0int,
{
    1 + stmts_size(b.statements@, 0)
}

/// How large the statements from position `i` on are together.
pub open spec fn stmts_size(ss: Seq<Statement>, i: int) -> nat
    decreases ss, ss.len() - i,
{
    if i < 0 || i >= ss.len() {
        0
    } else {
        1 + stmt_size(ss[i]) + stmts_size(ss, i + 1)
    }
}

/// What an expression evaluates to: a value and the input left unread.
#[verifier::rlimit(60)]
pub open spec fn eval_exp_s(
    dm: Map<Seq<char>, Def>,
    env: Map<Seq<char>, ValueV>,
    ins: Seq<Seq<char>>,
    e: Exp,
    fuel: nat,
) -> Outcome<(ValueV, Seq<Seq<char>>)>
    decreases fuel, exp_size(e), 0int,
{
    match *e.exp {
        ExpKind::Name(n) => if env.contains_key(n@) {
            Outcome::Val((env[n@], ins))
        } else {
            Outcome::Halt(ErrV::UnboundVar(n@))
        },
        ExpKind::Num(b) => Outcome::Val((ValueV::Num(b), ins)),
        ExpKind::Infix(lhs, op, rhs) => match eval_exp_s(dm, env, ins, lhs, fuel) {
            Outcome::Val((lv, ins1)) => match lv {
                ValueV::Num(a) => match eval_exp_s(dm, env, ins1, rhs, fuel) {
                    Outcome::Val((rv, ins2)) => match rv {
                        ValueV::Num(b) => match apply_op(op.op, a, b) {
                            Outcome::Val(c) => Outcome::Val((ValueV::Num(c), ins2)),
                            Outcome::Halt(err) => Outcome::Halt(err),
                            Outcome::NoFuel => Outcome::NoFuel,
                        },
                        ValueV::Array(_) => Outcome::Halt(
                            type_err(ValueDiscriminants::Array, ValueDiscriminants::Num),
                        ),
                    },
                    Outcome::Halt(err) => Outcome::Halt(err),
                    Outcome::NoFuel => Outcome::NoFuel,
                },
                ValueV::Array(_) => Outcome::Halt(
                    type_err(ValueDiscriminants::Array, ValueDiscriminants::Num),
                ),
            },
            Outcome::Halt(err) => Outcome::Halt(err),
            Outcome::NoFuel => Outcome::NoFuel,
        },
        ExpKind::Call(name, exps) => match eval_call_s(dm, env, ins, name@, exps.exps@, fuel) {
            Outcome::Val((opt, ins1)) => match opt {
                Some(v) => Outcome::Val((v, ins1)),
                None => Outcome::Halt(ErrV::ValuelessExpression),
            },
            Outcome::Halt(err) => Outcome::Halt(err),
            Outcome::NoFuel => Outcome::NoFuel,
        },
        ExpKind::BuiltIn(b) => eval_builtin_s(dm, env, ins, b, fuel),
        ExpKind::Paren(inner) => eval_exp_s(dm, env, ins, inner, fuel),
        ExpKind::Unary(u, inner) => match eval_exp_s(dm, env, ins, inner, fuel) {
            Outcome::Val((v, ins1)) => match v {
                ValueV::Num(a) => match u.unop {
                    UnopKind::Not => Outcome::Val((ValueV::Num(bool_bits(!truthy_bits(a))), ins1)),
                    UnopKind::Neg => Outcome::Val((ValueV::Num(neg_bits(a)), ins1)),
                },
                ValueV::Array(_) => Outcome::Halt(
                    type_err(ValueDiscriminants::Array, ValueDiscriminants::Num),
                ),
            },
            Outcome::Halt(err) => Outcome::Halt(err),
            Outcome::NoFuel => Outcome::NoFuel,
        },
        ExpKind::ArrayInit { size } => match eval_exp_s(dm, env, ins, size, fuel) {
            Outcome::Val((v, ins1)) => match v {
                ValueV::Num(a) => Outcome::Val(
                    (ValueV::Array(Seq::new(trunc_bits(a) as nat, |i: int| 0u64)), ins1),
                ),
                ValueV::Array(_) => Outcome::Halt(
                    type_err(ValueDiscriminants::Array, ValueDiscriminants::Num),
                ),
            },
            Outcome::Halt(err) => Outcome::Halt(err),
            Outcome::NoFuel => Outcome::NoFuel,
        },
        ExpKind::ArrayAccess { name, index } => if !env.contains_key(name@) {
            Outcome::Halt(ErrV::UnboundVar(name@))
        } else {
            match env[name@] {
                ValueV::Array(arr) => match eval_exp_s(dm, env, ins, index, fuel) {
                    Outcome::Val((iv, ins1)) => match iv {
                        ValueV::Num(ib) => if (trunc_bits(ib) as int) < arr.len() {
                            Outcome::Val((ValueV::Num(arr[trunc_bits(ib) as int]), ins1))
                        } else {
                            Outcome::Halt(
                                ErrV::IndexOutOfBounds {
                                    index: trunc_bits(ib) as int,
                                    len: arr.len() as int,
                                },
                            )
                        },
                        ValueV::Array(_) => Outcome::Halt(
                            type_err(ValueDiscriminants::Array, ValueDiscriminants::Num),
                        ),
                    },
                    Outcome::Halt(err) => Outcome::Halt(err),
                    Outcome::NoFuel => Outcome::NoFuel,
                },
                ValueV::Num(_) => Outcome::Halt(
                    type_err(ValueDiscriminants::Num, ValueDiscriminants::Array),
                ),
            }
        },
    }
}

/// What a built-in call evaluates to. Arities are checked before any
/// argument is evaluated; `input` consumes the back of the unread lines.
#[verifier::rlimit(60)]
pub open spec fn eval_builtin_s(
    dm: Map<Seq<char>, Def>,
    env: Map<Seq<char>, ValueV>,
    ins: Seq<Seq<char>>,
    b: BuiltIn,
    fuel: nat,
) -> Outcome<(ValueV, Seq<Seq<char>>)>
    decreases fuel, builtin_size(b), 0int,
{
    match b.builtin {
        BuiltInKind::Sqrt(exps) => if exps.exps@.len() != 1 {
            Outcome::Halt(ErrV::ArgMismatch { got: exps.exps@.len() as int, expected: 1 })
        } else {
            match eval_exp_s(dm, env, ins, exps.exps@[0], fuel) {
                Outcome::Val((v, ins1)) => match v {
                    ValueV::Num(a) => Outcome::Val((ValueV::Num(sqrt_bits(a)), ins1)),
                    ValueV::Array(_) => Outcome::Halt(
                        type_err(ValueDiscriminants::Array, ValueDiscriminants::Num),
                    ),
                },
                Outcome::Halt(err) => Outcome::Halt(err),
                Outcome::NoFuel => Outcome::NoFuel,
            }
        },
        BuiltInKind::Len(exps) => if exps.exps@.len() != 1 {
            Outcome::Halt(ErrV::ArgMismatch { got: exps.exps@.len() as int, expected: 1 })
        } else {
            match eval_exp_s(dm, env, ins, exps.exps@[0], fuel) {
                Outcome::Val((v, ins1)) => match v {
                    ValueV::Array(arr) => Outcome::Val(
                        (ValueV::Num(bits_of_usize(arr.len() as usize)), ins1),
                    ),
                    ValueV::Num(_) => Outcome::Halt(
                        type_err(ValueDiscriminants::Num, ValueDiscriminants::Array),
                    ),
                },
                Outcome::Halt(err) => Outcome::Halt(err),
                Outcome::NoFuel => Outcome::NoFuel,
            }
        },
        BuiltInKind::Round(exps) => if exps.exps@.len() != 1 {
            Outcome::Halt(ErrV::ArgMismatch { got: exps.exps@.len() as int, expected: 1 })
        } else {
            match eval_exp_s(dm, env, ins, exps.exps@[0], fuel) {
                Outcome::Val((v, ins1)) => match v {
                    ValueV::Num(a) => Outcome::Val((ValueV::Num(round_bits(a)), ins1)),
                    ValueV::Array(_) => Outcome::Halt(
                        type_err(ValueDiscriminants::Array, ValueDiscriminants::Num),
                    ),
                },
                Outcome::Halt(err) => Outcome::Halt(err),
                Outcome::NoFuel => Outcome::NoFuel,
            }
        },
        BuiltInKind::Input(exps) => if exps.exps@.len() != 0 {
            Outcome::Halt(ErrV::ArgMismatch { got: exps.exps@.len() as int, expected: 0 })
        } else if ins.len() == 0 {
            Outcome::Halt(ErrV::IOError)
        } else {
            match parsed_bits(trimmed(ins.last())) {
                Some(bits) => Outcome::Val((ValueV::Num(bits), ins.drop_last())),
                None => Outcome::Halt(ErrV::InvalidInput),
            }
        },
    }
}

/// What the actual arguments from position `i` on evaluate to, left to
/// right, each threading the input the one before left unread.
#[verifier::rlimit(60)]
pub open spec fn eval_exps_s(
    dm: Map<Seq<char>, Def>,
    env: Map<Seq<char>, ValueV>,
    ins: Seq<Seq<char>>,
    es: Seq<Exp>,
    i: int,
    fuel: nat,
) -> Outcome<(Seq<ValueV>, Seq<Seq<char>>)>
    decreases fuel, exps_size(es, i), 0int,
{
    if i < 0 || i >= es.len() {
        Outcome::Val((Seq::empty(), ins))
    } else {
        match eval_exp_s(dm, env, ins, es[i], fuel) {
            Outcome::Val((v, ins1)) => match eval_exps_s(dm, env, ins1, es, i + 1, fuel) {
                Outcome::Val((vs, ins2)) => Outcome::Val((seq![v] + vs, ins2)),
                Outcome::Halt(err) => Outcome::Halt(err),
                Outcome::NoFuel => Outcome::NoFuel,
            },
            Outcome::Halt(err) => Outcome::Halt(err),
            Outcome::NoFuel => Outcome::NoFuel,
        }
    }
}

/// What a call to a named function yields: the callee is looked up first,
/// then the actuals are evaluated in the caller's frame, the count is
/// checked against the declared parameters, and the body runs in a fresh
/// frame holding only the parameters — one unit of budget down. `None`
/// means the body finished without executing a `return`.
#[verifier::rlimit(60)]
pub open spec fn eval_call_s(
    dm: Map<Seq<char>, Def>,
    env: Map<Seq<char>, ValueV>,
    ins: Seq<Seq<char>>,
    name: Seq<char>,
    args: Seq<Exp>,
    fuel: nat,
) -> Outcome<(Option<ValueV>, Seq<Seq<char>>)>
    decreases fuel, exps_size(args, 0) + 1, 0int,
{
    if !dm.contains_key(name) {
        Outcome::Halt(ErrV::UnboundFunc(name))
    } else {
        match eval_exps_s(dm, env, ins, args, 0, fuel) {
            Outcome::Val((vs, ins1)) => {
                let def = dm[name];
                if vs.len() != def.args.names@.len() {
                    Outcome::Halt(
                        ErrV::ArgMismatch {
                            got: vs.len() as int,
                            expected: def.args.names@.len() as int,
                        },
                    )
                } else if fuel == 0 {
                    Outcome::NoFuel
                } else {
                    match eval_block_s(
                        dm,
                        bind_args(def.args.names@, vs),
                        ins1,
                        def.block,
                        (fuel - 1) as nat,
                    ) {
                        Outcome::Val((opt, _, ins2)) => Outcome::Val((opt, ins2)),
                        Outcome::Halt(err) => Outcome::Halt(err),
                        Outcome::NoFuel => Outcome::NoFuel,
                    }
                }
            },
            Outcome::Halt(err) => Outcome::Halt(err),
            Outcome::NoFuel => Outcome::NoFuel,
        }
    }
}

/// What a block yields: its statements in order, stopping the moment one
/// produces a value — that is how `return` escapes nesting — or `None`
/// with the final bindings if none does.
pub open spec fn eval_block_s(
    dm: Map<Seq<char>, Def>,
    env: Map<Seq<char>, ValueV>,
    ins: Seq<Seq<char>>,
    b: Block,
    fuel: nat,
) -> Outcome<(Option<ValueV>, Map<Seq<char>, ValueV>, Seq<Seq<char>>)>
    decreases fuel, block_size(b), 0int,
{
    eval_stmts_s(dm, env, ins, b.statements@, 0, fuel)
}

/// What the statements from position `i` on yield, run in order.
#[verifier::rlimit(60)]
pub open spec fn eval_stmts_s(
    dm: Map<Seq<char>, Def>,
    env: Map<Seq<char>, ValueV>,
    ins: Seq<Seq<char>>,
    stmts: Seq<Statement>,
    i: int,
    fuel: nat,
) -> Outcome<(Option<ValueV>, Map<Seq<char>, ValueV>, Seq<Seq<char>>)>
    decreases fuel, stmts_size(stmts, i), 0int,
{
    if i < 0 || i >= stmts.len() {
        Outcome::Val((None, env, ins))
    } else {
        match eval_statement_s(dm, env, ins, stmts[i], fuel) {
            Outcome::Val((opt, env1, ins1)) => match opt {
                Some(v) => Outcome::Val((Some(v), env1, ins1)),
                None => eval_stmts_s(dm, env1, ins1, stmts, i + 1, fuel),
            },
            Outcome::Halt(err) => Outcome::Halt(err),
            Outcome::NoFuel => Outcome::NoFuel,
        }
    }
}

/// What one statement yields. An expression statement prints its value
/// and yields none; an assignment rebinds its name, and may change the
/// value's variant freely; an array assignment rewrites one element of
/// the named array and rebinds the name to the new array.
#[verifier::rlimit(60)]
pub open spec fn eval_statement_s(
    dm: Map<Seq<char>, Def>,
    env: Map<Seq<char>, ValueV>,
    ins: Seq<Seq<char>>,
    s: Statement,
    fuel: nat,
) -> Outcome<(Option<ValueV>, Map<Seq<char>, ValueV>, Seq<Seq<char>>)>
    decreases fuel, stmt_size(s), 0int,
{
    match s.statement {
        StatementKind::Return(e) => match eval_exp_s(dm, env, ins, e, fuel) {
            Outcome::Val((v, ins1)) => Outcome::Val((Some(v), env, ins1)),
            Outcome::Halt(err) => Outcome::Halt(err),
            Outcome::NoFuel => Outcome::NoFuel,
        },
        StatementKind::Assign { name, exp } => match eval_exp_s(dm, env, ins, exp, fuel) {
            Outcome::Val((v, ins1)) => Outcome::Val((None, env.insert(name@, v), ins1)),
            Outcome::Halt(err) => Outcome::Halt(err),
            Outcome::NoFuel => Outcome::NoFuel,
        },
        StatementKind::ArrayAssign { name, index_exp, value } => if !env.contains_key(name@) {
            Outcome::Halt(ErrV::UnboundVar(name@))
        } else {
            match env[name@] {
                ValueV::Array(arr) => match eval_exp_s(dm, env, ins, index_exp, fuel) {
                    Outcome::Val((iv, ins1)) => match iv {
                        ValueV::Num(ib) => match eval_exp_s(dm, env, ins1, value, fuel) {
                            Outcome::Val((vv, ins2)) => match vv {
                                ValueV::Num(vb) => if (trunc_bits(ib) as int) < arr.len() {
                                    Outcome::Val(
                                        (
                                            None,
                                            env.insert(
                                                name@,
                                                ValueV::Array(arr.update(trunc_bits(ib) as int, vb)),
                                            ),
                                            ins2,
                                        ),
                                    )
                                } else {
                                    Outcome::Halt(
                                        ErrV::IndexOutOfBounds {
                                            index: trunc_bits(ib) as int,
                                            len: arr.len() as int,
                                        },
                                    )
                                },
                                ValueV::Array(_) => Outcome::Halt(
                                    type_err(ValueDiscriminants::Array, ValueDiscriminants::Num),
                                ),
                            },
                            Outcome::Halt(err) => Outcome::Halt(err),
                            Outcome::NoFuel => Outcome::NoFuel,
                        },
                        ValueV::Array(_) => Outcome::Halt(
                            type_err(ValueDiscriminants::Array, ValueDiscriminants::Num),
                        ),
                    },
                    Outcome::Halt(err) => Outcome::Halt(err),
                    Outcome::NoFuel => Outcome::NoFuel,
                },
                ValueV::Num(_) => Outcome::Halt(
                    type_err(ValueDiscriminants::Num, ValueDiscriminants::Array),
                ),
            }
        },
        StatementKind::Exp(e) => match eval_exp_s(dm, env, ins, e, fuel) {
            Outcome::Val((_, ins1)) => Outcome::Val((None, env, ins1)),
            Outcome::Halt(err) => Outcome::Halt(err),
            Outcome::NoFuel => Outcome::NoFuel,
        },
        StatementKind::Nest(n) => eval_nest_s(dm, env, ins, n, fuel),
    }
}

/// What a control-flow construct yields. A condition must be a double
/// and is tested for truthiness; a loop re-tests it before every pass,
/// spends one unit of budget per further pass, and stops the moment its
/// body produces a value.
#[verifier::rlimit(60)]
pub open spec fn eval_nest_s(
    dm: Map<Seq<char>, Def>,
    env: Map<Seq<char>, ValueV>,
    ins: Seq<Seq<char>>,
    n: Nest,
    fuel: nat,
) -> Outcome<(Option<ValueV>, Map<Seq<char>, ValueV>, Seq<Seq<char>>)>
    decreases fuel, nest_size(n), 0int,
{
    match n.nest {
        NestKind::If { cond, then } => match eval_exp_s(dm, env, ins, cond, fuel) {
            Outcome::Val((cv, ins1)) => match cv {
                ValueV::Num(a) => if truthy_bits(a) {
                    eval_block_s(dm, env, ins1, then, fuel)
                } else {
                    Outcome::Val((None, env, ins1))
                },
                ValueV::Array(_) => Outcome::Halt(
                    type_err(ValueDiscriminants::Array, ValueDiscriminants::Num),
                ),
            },
            Outcome::Halt(err) => Outcome::Halt(err),
            Outcome::NoFuel => Outcome::NoFuel,
        },
        NestKind::IfElse { cond, then, else_ } => match eval_exp_s(dm, env, ins, cond, fuel) {
            Outcome::Val((cv, ins1)) => match cv {
                ValueV::Num(a) => if truthy_bits(a) {
                    eval_block_s(dm, env, ins1, then, fuel)
                } else {
                    eval_block_s(dm, env, ins1, else_, fuel)
                },
                ValueV::Array(_) => Outcome::Halt(
                    type_err(ValueDiscriminants::Array, ValueDiscriminants::Num),
                ),
            },
            Outcome::Halt(err) => Outcome::Halt(err),
            Outcome::NoFuel => Outcome::NoFuel,
        },
        NestKind::While { cond, block } => match eval_exp_s(dm, env, ins, cond, fuel) {
            Outcome::Val((cv, ins1)) => match cv {
                ValueV::Num(a) => if !truthy_bits(a) {
                    Outcome::Val((None, env, ins1))
                } else {
                    match eval_block_s(dm, env, ins1, block, fuel) {
                        Outcome::Val((opt, env1, ins2)) => match opt {
                            Some(v) => Outcome::Val((Some(v), env1, ins2)),
                            None => if fuel == 0 {
                                Outcome::NoFuel
                            } else {
                                eval_nest_s(dm, env1, ins2, n, (fuel - 1) as nat)
                            },
                        },
                        Outcome::Halt(err) => Outcome::Halt(err),
                        Outcome::NoFuel => Outcome::NoFuel,
                    }
                },
                ValueV::Array(_) => Outcome::Halt(
                    type_err(ValueDiscriminants::Array, ValueDiscriminants::Num),
                ),
            },
            Outcome::Halt(err) => Outcome::Halt(err),
            Outcome::NoFuel => Outcome::NoFuel,
        },
    }
}

/// What a whole program yields: its definitions are tabled, and the entry
/// function runs with no arguments in an empty frame — or the run fails
/// before it starts when no definition names the entry function.
pub open spec fn execute_s(p: Program, ins: Seq<Seq<char>>, fuel: nat) -> Outcome<
    (Option<ValueV>, Seq<Seq<char>>),
> {
    let dm = defs_map(p.defs@);
    if !dm.contains_key("main"@) {
        Outcome::Halt(ErrV::NoMainDefined)
    } else {
        eval_call_s(dm, Map::empty(), ins, "main"@, Seq::empty(), fuel)
    }
}


/// Each expression of a list weighs less than the list from any position
/// at or before it.
pub proof fn lemma_exps_size_bound(es: Seq<Exp>, i: int, j: int)
    requires
        0 <= i <= j < es.len(),
    ensures
        exp_size(es[j]) < exps_size(es, i),
    decreases j - i,
{
    if i < j {
        lemma_exps_size_bound(es, i + 1, j);
    }
}

/// Each statement of a list weighs less than the list from any position
/// at or before it.
pub proof fn lemma_stmts_size_bound(ss: Seq<Statement>, i: int, j: int)
    requires
        0 <= i <= j < ss.len(),
    ensures
        stmt_size(ss[j]) < stmts_size(ss, i),
    decreases j - i,
{
    if i < j {
        lemma_stmts_size_bound(ss, i + 1, j);
    }
}


/// An outcome of an argument list with earlier values put in front.
pub open spec fn exps_prepend(pre: Seq<ValueV>, o: Outcome<(Seq<ValueV>, Seq<Seq<char>>)>) -> Outcome<
    (Seq<ValueV>, Seq<Seq<char>>),
> {
    match o {
        Outcome::Val(p) => Outcome::Val((pre + p.0, p.1)),
        Outcome::Halt(e) => Outcome::Halt(e),
        Outcome::NoFuel => Outcome::NoFuel,
    }
}


/// Runs mean the same thing every time: the meaning of a program is a
/// function of the program, its input lines, and the budget alone, so two
/// results of running one program on one queue of lines are equal — no
/// hidden state survives between runs.
pub proof fn lemma_execute_deterministic(
    p: Program,
    ins: Seq<Seq<char>>,
    fuel: nat,
    r1: Outcome<(Option<ValueV>, Seq<Seq<char>>)>,
    r2: Outcome<(Option<ValueV>, Seq<Seq<char>>)>,
)
    requires
        r1 == execute_s(p, ins, fuel),
        r2 == execute_s(p, ins, fuel),
    ensures
        r1 == r2,
{
}

} // verus!
