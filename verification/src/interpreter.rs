//! The tree-walking evaluator.
//!
//! An `Interpreter` owns a parsed program, the table its definitions are
//! bound into, and the source of `input` lines. Its contracts tie every
//! result to the evaluation semantics in [`semantics`]: whenever the
//! input source has a mathematical model — a queue of canned lines — the
//! returned value is exactly what the semantics says the program means.
//! A run over standard input behaves the same but promises nothing, since
//! what arrives on standard input is outside any model.

use vstd::prelude::*;

pub mod defs;
pub mod environment;
pub mod errors;
pub mod helpers;
pub mod input;
pub mod semantics;
pub mod symbols;

use defs::Defs;
use environment::{clone_value, vals_view, zeros, Environment, Value, ValueV};
use errors::{err_view, ErrV, InterpreterError};
use input::Input;
use semantics::Outcome;
use symbols::{
    BuiltIn,
    BuiltInKind,
    Comparison,
    ComparisonKind,
    Def,
    Exp,
    ExpKind,
    Exps,
    Logical,
    LogicalKind,
    Nest,
    NestKind,
    Op,
    OpKind,
    Program,
    Statement,
    StatementKind,
    Unop,
    UnopKind,
};
use crate::numeric;
use vstd::pervasive::VecAdditionalExecFns;

verus! {

broadcast use vstd::std_specs::vec::group_vec_axioms;

/// Bit pattern of the tolerance used for truthiness, equality, and the
/// division-by-zero test: one ten-millionth.
pub const EPSILON_BITS: u64 = 0x3E7A_D7F2_9ABC_AF48;

/// Bit pattern of the double one, the encoding of a true comparison.
pub const BITS_ONE: u64 = 0x3FF0_0000_0000_0000;

/// Bit pattern of the double zero, the encoding of a false comparison.
pub const BITS_ZERO: u64 = 0;

/// The evaluation budget a run starts with: one unit per call entered
/// and per loop pass, far past what any run that finishes could spend.
pub const FUEL: u64 = u64::MAX;

/// The optional value a finished run reports, as mathematics.
pub open spec fn opt_value_view(o: Option<Value>) -> Option<ValueV> {
    match o {
        Some(v) => Some(v@),
        None => None,
    }
}

/// Prints a value the way expression statements report theirs: a double
/// in decimal, an array as its elements in brackets, on one line.
fn print_value(v: &Value) {
    match v {
        Value::Num(b) => {
            let s = numeric::num_display(*b);
            input::print_raw(s.as_str());
            input::print_raw("\n");
        },
        Value::Array(items) => {
            input::print_raw("[");
            let mut i: usize = 0;
            while i < items.len()
                decreases items@.len() - i,
            {
                if i > 0 {
                    input::print_raw(", ");
                }
                let s = numeric::num_display(items[i]);
                input::print_raw(s.as_str());
                i = i + 1;
            }
            input::print_raw("]\n");
        },
    }
}

/// Evaluates a program: binds its definitions, then runs its entry
/// function.
pub struct Interpreter {
    program: Program,
    defs: Defs,
    input: Input,
}

impl Interpreter {
    /// The program this interpreter runs.
    pub closed spec fn program(self) -> Program {
        self.program
    }

    /// Whether the input source has a mathematical model.
    pub closed spec fn input_modeled(self) -> bool {
        self.input.modeled()
    }

    /// The canned input lines still unread, oldest last.
    pub closed spec fn input_queue(self) -> Seq<Seq<char>> {
        self.input.queue()
    }

    /// The definition table's bindings resolved to their definitions.
    spec fn dm(self) -> Map<Seq<char>, Def> {
        Map::new(
            |k: Seq<char>| self.defs@.contains_key(k),
            |k: Seq<char>| self.program.defs@[self.defs@[k] as int],
        )
    }

    /// Every table binding points into the program's definition list.
    spec fn wf(self) -> bool {
        forall|k: Seq<char>| #[trigger]
            self.defs@.contains_key(k) ==> self.defs@[k] < self.program.defs@.len()
    }

    /// An interpreter whose `input` built-in reads standard input.
    pub fn new(program: Program) -> (r: Interpreter)
        ensures
            r.program() == program,
            !r.input_modeled(),
    {
        Interpreter { program, defs: Defs::new(), input: Input::stdin() }
    }

    /// An interpreter whose `input` built-in reads the given canned
    /// lines, last first.
    pub fn new_cursored(program: Program, input: Vec<String>) -> (r: Interpreter)
        ensures
            r.program() == program,
            r.input_modeled(),
            r.input_queue() == input@.map_values(|s: String| s@),
    {
        Interpreter { program, defs: Defs::new(), input: Input::cursored(input) }
    }

    /// Runs the program: tables its definitions, then calls its entry
    /// function with no arguments. Returns the entry function's return
    /// value, `None` if its body finished without executing a `return`,
    /// or the first evaluation error. With a modeled input source the
    /// result is exactly what the evaluation semantics assigns to the
    /// program on those input lines.
    pub fn execute(self) -> (r: Result<Option<Value>, InterpreterError>)
        ensures
            self.input_modeled() ==> match semantics::execute_s(
                self.program(),
                self.input_queue(),
                FUEL as nat,
            ) {
                Outcome::Val(p) => r matches Ok(opt) && opt_value_view(opt) == p.0,
                Outcome::Halt(e) => r matches Err(er) && err_view(er) == e,
                Outcome::NoFuel => r matches Err(er) && er is RecursionLimit,
            },
    {
        let mut this = self;
        this.eval_program();
        let env = Environment::new();
        let mut input = Input::stdin();
        core::mem::swap(&mut this.input, &mut input);
        let key: String = "main".to_owned();
        match this.defs.get_func(&key) {
            Err(_) => {
                return Err(InterpreterError::NoMainDefined);
            },
            Ok(_) => {},
        }
        let empty = Exps { exps: Vec::new() };
        proof {
            assert(empty.exps@ =~= Seq::<Exp>::empty());
        }
        this.eval_call("main", &empty, &env, &mut input, FUEL)
    }

    /// Binds every definition of the program into the table, in order, so
    /// that the table denotes exactly the program's definition map.
    fn eval_program(&mut self)
        ensures
            final(self).program == old(self).program,
            final(self).input == old(self).input,
            final(self).wf(),
            final(self).dm() == semantics::defs_map(old(self).program.defs@),
    {
        self.defs = Defs::new();
        proof {
            assert(self.dm() =~= semantics::defs_map(self.program.defs@.take(0)));
        }
        let mut i: usize = 0;
        while i < self.program.defs.len()
            invariant
                i <= self.program.defs@.len(),
                self.program == old(self).program,
                self.input == old(self).input,
                self.wf(),
                self.dm() == semantics::defs_map(self.program.defs@.take(i as int)),
            decreases self.program.defs@.len() - i,
        {
            let name = self.program.defs[i].name.clone();
            self.defs.bind_func(name, i);
            proof {
                let t = self.program.defs@.take(i + 1);
                assert(t.drop_last() =~= self.program.defs@.take(i as int));
                assert(t.last() == self.program.defs@[i as int]);
                assert(self.dm() =~= semantics::defs_map(t));
            }
            i = i + 1;
        }
        proof {
            assert(self.program.defs@.take(self.program.defs@.len() as int)
                =~= self.program.defs@);
        }
    }

    /// Evaluates a call to the named function: looks the callee up,
    /// evaluates the actuals left to right in the caller's frame, checks
    /// their count, and runs the body in a fresh frame holding only the
    /// parameters. `None` means the body never executed a `return`.
    #[verifier::loop_isolation(false)]
    fn eval_call(
        &self,
        name: &str,
        exps: &Exps,
        env: &Environment,
        input: &mut Input,
        fuel: u64,
    ) -> (r: Result<Option<Value>, InterpreterError>)
        requires
            self.wf(),
        ensures
            final(input).modeled() == old(input).modeled(),
            old(input).modeled() ==> match semantics::eval_call_s(
                self.dm(),
                env@,
                old(input).queue(),
                name@,
                exps.exps@,
                fuel as nat,
            ) {
                Outcome::Val(p) => r matches Ok(opt) && opt_value_view(opt) == p.0
                    && final(input).queue() == p.1,
                Outcome::Halt(e) => r matches Err(er) && err_view(er) == e,
                Outcome::NoFuel => r matches Err(er) && er is RecursionLimit,
            },
        decreases fuel, semantics::exps_size(exps.exps@, 0) + 1, 0int,
    {
        let ghost dm = self.dm();
        let ghost ins0 = input.queue();
        let ghost modeled0 = input.modeled();
        let key: String = name.to_owned();
        let idx = match self.defs.get_func(&key) {
            Ok(i) => i,
            Err(e) => {
                return Err(e);
            },
        };
        proof {
            assert(dm.contains_key(name@));
            assert(dm[name@] == self.program.defs@[idx as int]);
        }
        let func = &self.program.defs[idx];
        let mut actuals: Vec<Value> = Vec::new();
        let mut i: usize = 0;
        while i < exps.exps.len()
            invariant
                i <= exps.exps@.len(),
                actuals@.len() == i,
                input.modeled() == modeled0,
                modeled0 ==> semantics::eval_exps_s(dm, env@, ins0, exps.exps@, 0, fuel as nat)
                    == semantics::exps_prepend(
                    vals_view(actuals@),
                    semantics::eval_exps_s(
                        dm,
                        env@,
                        input.queue(),
                        exps.exps@,
                        i as int,
                        fuel as nat,
                    ),
                ),
            decreases exps.exps@.len() - i,
        {
            proof {
                semantics::lemma_exps_size_bound(exps.exps@, 0, i as int);
            }
            let ghost q_pre = input.queue();
            let ghost pre_vals = vals_view(actuals@);
            let res = self.eval_exp(&exps.exps[i], env, input, fuel);
            match res {
                Ok(v) => {
                    proof {
                        if modeled0 {
                            let o2 = semantics::eval_exps_s(
                                dm,
                                env@,
                                input.queue(),
                                exps.exps@,
                                i + 1,
                                fuel as nat,
                            );
                            match o2 {
                                Outcome::Val(p) => {
                                    assert(pre_vals + (seq![v@] + p.0) =~= (pre_vals + seq![v@])
                                        + p.0);
                                },
                                Outcome::Halt(_) => {},
                                Outcome::NoFuel => {},
                            }
                            assert(vals_view(actuals@.push(v)) =~= pre_vals + seq![v@]);
                        }
                    }
                    actuals.push(v);
                    i = i + 1;
                },
                Err(e) => {
                    return Err(e);
                },
            }
        }
        proof {
            if modeled0 {
                assert(vals_view(actuals@) + Seq::<ValueV>::empty() =~= vals_view(actuals@));
            }
        }
        if actuals.len() != func.args.names.len() {
            return Err(
                InterpreterError::ArgMismatch {
                    got: actuals.len(),
                    expected: func.args.names.len(),
                },
            );
        }
        if fuel == 0 {
            return Err(InterpreterError::RecursionLimit);
        }
        let ghost names = func.args.names@;
        let ghost vsv = vals_view(actuals@);
        let mut func_env = Environment::new();
        proof {
            assert(names.take(0) =~= Seq::<String>::empty());
            assert(vsv.take(0) =~= Seq::<ValueV>::empty());
        }
        let mut k: usize = 0;
        while k < actuals.len()
            invariant
                k <= actuals@.len(),
                func_env@ == semantics::bind_args(names.take(k as int), vsv.take(k as int)),
            decreases actuals@.len() - k,
        {
            func_env.bind_var(func.args.names[k].clone(), clone_value(&actuals[k]));
            proof {
                let n1 = names.take(k + 1);
                let v1 = vsv.take(k + 1);
                assert(n1.drop_last() =~= names.take(k as int));
                assert(v1.drop_last() =~= vsv.take(k as int));
                assert(n1.last() == names[k as int]);
                assert(v1.last() == vsv[k as int]);
                assert(vsv[k as int] == actuals@[k as int]@);
            }
            k = k + 1;
        }
        proof {
            assert(names.take(names.len() as int) =~= names);
            assert(vsv.take(vsv.len() as int) =~= vsv);
        }
        self.eval_block(&func.block, &mut func_env, input, fuel - 1)
    }

    /// Evaluates an expression in the given frame. Expressions never
    /// change the frame; they may consume input lines.
    fn eval_exp(&self, exp: &Exp, env: &Environment, input: &mut Input, fuel: u64) -> (r: Result<
        Value,
        InterpreterError,
    >)
        requires
            self.wf(),
        ensures
            final(input).modeled() == old(input).modeled(),
            old(input).modeled() ==> match semantics::eval_exp_s(
                self.dm(),
                env@,
                old(input).queue(),
                *exp,
                fuel as nat,
            ) {
                Outcome::Val(p) => r matches Ok(v) && v@ == p.0 && final(input).queue() == p.1,
                Outcome::Halt(e) => r matches Err(er) && err_view(er) == e,
                Outcome::NoFuel => r matches Err(er) && er is RecursionLimit,
            },
        decreases fuel, semantics::exp_size(*exp), 1int,
    {
        match &*exp.exp {
            ExpKind::Name(name) => env.get_var(name.as_str()),
            ExpKind::Num(value) => Ok(Value::Num(*value)),
            ExpKind::Infix(lhs, op, rhs) => self.eval_infix(lhs, op, rhs, env, input, fuel),
            ExpKind::Call(name, exps) => helpers::get_expression_result_value(
                self.eval_call(name.as_str(), exps, env, input, fuel),
            ),
            ExpKind::BuiltIn(builtin) => self.eval_builtin(builtin, env, input, fuel),
            ExpKind::Paren(inner) => self.eval_exp(inner, env, input, fuel),
            ExpKind::Unary(op, inner) => self.eval_unop(op, inner, env, input, fuel),
            ExpKind::ArrayInit { size } => {
                let sv = match self.eval_exp(size, env, input, fuel) {
                    Ok(v) => v,
                    Err(e) => {
                        return Err(e);
                    },
                };
                let sb = match sv.into_f64() {
                    Ok(b) => b,
                    Err(e) => {
                        return Err(e);
                    },
                };
                Ok(Value::Array(zeros(numeric::num_to_usize(sb))))
            },
            ExpKind::ArrayAccess { name, index } => {
                let cur = match env.get_var(name.as_str()) {
                    Ok(v) => v,
                    Err(e) => {
                        return Err(e);
                    },
                };
                let arr = match cur.into_vec() {
                    Ok(a) => a,
                    Err(e) => {
                        return Err(e);
                    },
                };
                let iv = match self.eval_exp(index, env, input, fuel) {
                    Ok(v) => v,
                    Err(e) => {
                        return Err(e);
                    },
                };
                let ib = match iv.into_f64() {
                    Ok(b) => b,
                    Err(e) => {
                        return Err(e);
                    },
                };
                let pos = numeric::num_to_usize(ib);
                if pos < arr.len() {
                    Ok(Value::Num(arr[pos]))
                } else {
                    Err(InterpreterError::IndexOutOfBounds { index: pos, len: arr.len() })
                }
            },
        }
    }

    /// Evaluates `lhs op rhs`: both operands first, left to right, each
    /// narrowed to a double, then the operator.
    fn eval_infix(
        &self,
        lhs: &Exp,
        op: &Op,
        rhs: &Exp,
        env: &Environment,
        input: &mut Input,
        fuel: u64,
    ) -> (r: Result<Value, InterpreterError>)
        requires
            self.wf(),
        ensures
            final(input).modeled() == old(input).modeled(),
            old(input).modeled() ==> match semantics::eval_exp_s(
                self.dm(),
                env@,
                old(input).queue(),
                *lhs,
                fuel as nat,
            ) {
                Outcome::Val(p1) => match p1.0 {
                    ValueV::Num(a) => match semantics::eval_exp_s(
                        self.dm(),
                        env@,
                        p1.1,
                        *rhs,
                        fuel as nat,
                    ) {
                        Outcome::Val(p2) => match p2.0 {
                            ValueV::Num(b) => match semantics::apply_op(op.op, a, b) {
                                Outcome::Val(c) => r matches Ok(v) && v@ == ValueV::Num(c)
                                    && final(input).queue() == p2.1,
                                Outcome::Halt(e) => r matches Err(er) && err_view(er) == e,
                                Outcome::NoFuel => r matches Err(er) && er is RecursionLimit,
                            },
                            ValueV::Array(_) => r matches Err(er) && err_view(er)
                                == semantics::type_err(
                                environment::ValueDiscriminants::Array,
                                environment::ValueDiscriminants::Num,
                            ),
                        },
                        Outcome::Halt(e) => r matches Err(er) && err_view(er) == e,
                        Outcome::NoFuel => r matches Err(er) && er is RecursionLimit,
                    },
                    ValueV::Array(_) => r matches Err(er) && err_view(er) == semantics::type_err(
                        environment::ValueDiscriminants::Array,
                        environment::ValueDiscriminants::Num,
                    ),
                },
                Outcome::Halt(e) => r matches Err(er) && err_view(er) == e,
                Outcome::NoFuel => r matches Err(er) && er is RecursionLimit,
            },
        decreases fuel, semantics::exp_size(*lhs) + semantics::exp_size(*rhs) + 1, 0int,
    {
        let lv = match self.eval_exp(lhs, env, input, fuel) {
            Ok(v) => v,
            Err(e) => {
                return Err(e);
            },
        };
        let a = match lv.into_f64() {
            Ok(b) => b,
            Err(e) => {
                return Err(e);
            },
        };
        let rv = match self.eval_exp(rhs, env, input, fuel) {
            Ok(v) => v,
            Err(e) => {
                return Err(e);
            },
        };
        let b = match rv.into_f64() {
            Ok(x) => x,
            Err(e) => {
                return Err(e);
            },
        };
        match &op.op {
            OpKind::Logical(logical) => Ok(self.eval_logical(a, logical, b)),
            OpKind::Comparison(comparison) => Ok(self.eval_comparison(a, comparison, b)),
            OpKind::Plus => Ok(Value::Num(numeric::num_add(a, b))),
            OpKind::Mul => Ok(Value::Num(numeric::num_mul(a, b))),
            OpKind::Minus => Ok(Value::Num(numeric::num_sub(a, b))),
            OpKind::Div => {
                if numeric::num_lt(numeric::num_abs(b), EPSILON_BITS) {
                    Err(InterpreterError::DivideByZero)
                } else {
                    Ok(Value::Num(numeric::num_div(a, b)))
                }
            },
            OpKind::Mod => {
                if numeric::num_lt(numeric::num_abs(b), EPSILON_BITS) {
                    Err(InterpreterError::DivideByZero)
                } else {
                    Ok(Value::Num(numeric::num_rem(a, b)))
                }
            },
        }
    }

    /// Evaluates `unop exp`: the operand is narrowed to a double, then
    /// negated numerically or logically.
    fn eval_unop(
        &self,
        unop: &Unop,
        exp: &Exp,
        env: &Environment,
        input: &mut Input,
        fuel: u64,
    ) -> (r: Result<Value, InterpreterError>)
        requires
            self.wf(),
        ensures
            final(input).modeled() == old(input).modeled(),
            old(input).modeled() ==> match semantics::eval_exp_s(
                self.dm(),
                env@,
                old(input).queue(),
                *exp,
                fuel as nat,
            ) {
                Outcome::Val(p) => match p.0 {
                    ValueV::Num(a) => r matches Ok(v) && v@ == ValueV::Num(
                        match unop.unop {
                            UnopKind::Not => helpers::bool_bits(!helpers::truthy_bits(a)),
                            UnopKind::Neg => numeric::neg_bits(a),
                        },
                    ) && final(input).queue() == p.1,
                    ValueV::Array(_) => r matches Err(er) && err_view(er) == semantics::type_err(
                        environment::ValueDiscriminants::Array,
                        environment::ValueDiscriminants::Num,
                    ),
                },
                Outcome::Halt(e) => r matches Err(er) && err_view(er) == e,
                Outcome::NoFuel => r matches Err(er) && er is RecursionLimit,
            },
        decreases fuel, semantics::exp_size(*exp) + 1, 0int,
    {
        let v = match self.eval_exp(exp, env, input, fuel) {
            Ok(v) => v,
            Err(e) => {
                return Err(e);
            },
        };
        let a = match v.into_f64() {
            Ok(b) => b,
            Err(e) => {
                return Err(e);
            },
        };
        match &unop.unop {
            UnopKind::Not => Ok(Value::Num(helpers::bool_to_float(!helpers::truthy(a)))),
            UnopKind::Neg => Ok(Value::Num(numeric::num_neg(a))),
        }
    }

    /// Combines two already-narrowed operands with a logical connective:
    /// each is tested for truthiness, the answer re-encoded as a double.
    fn eval_logical(&self, a: u64, logical: &Logical, b: u64) -> (r: Value)
        ensures
            r@ == ValueV::Num(
                match logical.logical {
                    LogicalKind::Or => helpers::bool_bits(
                        helpers::truthy_bits(a) || helpers::truthy_bits(b),
                    ),
                    LogicalKind::And => helpers::bool_bits(
                        helpers::truthy_bits(a) && helpers::truthy_bits(b),
                    ),
                },
            ),
    {
        let av = helpers::truthy(a);
        let bv = helpers::truthy(b);
        match &logical.logical {
            LogicalKind::Or => Value::Num(helpers::bool_to_float(av || bv)),
            LogicalKind::And => Value::Num(helpers::bool_to_float(av && bv)),
        }
    }

    /// Compares two already-narrowed operands: equality and inequality
    /// hold within the tolerance, the four order tests are exact; the
    /// answer is re-encoded as a double.
    fn eval_comparison(&self, a: u64, comparison: &Comparison, b: u64) -> (r: Value)
        ensures
            r@ == ValueV::Num(
                match comparison.comparison {
                    ComparisonKind::Equals => helpers::bool_bits(
                        numeric::lt_bits(
                            numeric::abs_bits(numeric::sub_bits(a, b)),
                            EPSILON_BITS,
                        ),
                    ),
                    ComparisonKind::NotEqual => helpers::bool_bits(
                        numeric::gt_bits(
                            numeric::abs_bits(numeric::sub_bits(a, b)),
                            EPSILON_BITS,
                        ),
                    ),
                    ComparisonKind::Less => helpers::bool_bits(numeric::lt_bits(a, b)),
                    ComparisonKind::More => helpers::bool_bits(numeric::gt_bits(a, b)),
                    ComparisonKind::LessEqual => helpers::bool_bits(numeric::le_bits(a, b)),
                    ComparisonKind::MoreEqual => helpers::bool_bits(numeric::ge_bits(a, b)),
                },
            ),
    {
        match &comparison.comparison {
            ComparisonKind::Equals => Value::Num(
                helpers::bool_to_float(
                    numeric::num_lt(numeric::num_abs(numeric::num_sub(a, b)), EPSILON_BITS),
                ),
            ),
            ComparisonKind::NotEqual => Value::Num(
                helpers::bool_to_float(
                    numeric::num_gt(numeric::num_abs(numeric::num_sub(a, b)), EPSILON_BITS),
                ),
            ),
            ComparisonKind::Less => Value::Num(helpers::bool_to_float(numeric::num_lt(a, b))),
            ComparisonKind::More => Value::Num(helpers::bool_to_float(numeric::num_gt(a, b))),
            ComparisonKind::LessEqual => Value::Num(
                helpers::bool_to_float(numeric::num_le(a, b)),
            ),
            ComparisonKind::MoreEqual => Value::Num(
                helpers::bool_to_float(numeric::num_ge(a, b)),
            ),
        }
    }

    /// Evaluates a built-in call: the arity is checked before any
    /// argument is evaluated; `input` prompts, reads one line, and
    /// parses it as a number.
    fn eval_builtin(
        &self,
        builtin: &BuiltIn,
        env: &Environment,
        input: &mut Input,
        fuel: u64,
    ) -> (r: Result<Value, InterpreterError>)
        requires
            self.wf(),
        ensures
            final(input).modeled() == old(input).modeled(),
            old(input).modeled() ==> match semantics::eval_builtin_s(
                self.dm(),
                env@,
                old(input).queue(),
                *builtin,
                fuel as nat,
            ) {
                Outcome::Val(p) => r matches Ok(v) && v@ == p.0 && final(input).queue() == p.1,
                Outcome::Halt(e) => r matches Err(er) && err_view(er) == e,
                Outcome::NoFuel => r matches Err(er) && er is RecursionLimit,
            },
        decreases fuel, semantics::builtin_size(*builtin), 0int,
    {
        match &builtin.builtin {
            BuiltInKind::Sqrt(exps) => {
                if exps.exps.len() != 1 {
                    return Err(
                        InterpreterError::ArgMismatch { expected: 1, got: exps.exps.len() },
                    );
                }
                proof {
                    semantics::lemma_exps_size_bound(exps.exps@, 0, 0);
                }
                let arg = match self.eval_exp(&exps.exps[0], env, input, fuel) {
                    Ok(v) => v,
                    Err(e) => {
                        return Err(e);
                    },
                };
                let a = match arg.into_f64() {
                    Ok(b) => b,
                    Err(e) => {
                        return Err(e);
                    },
                };
                Ok(Value::Num(numeric::num_sqrt(a)))
            },
            BuiltInKind::Len(exps) => {
                if exps.exps.len() != 1 {
                    return Err(
                        InterpreterError::ArgMismatch { expected: 1, got: exps.exps.len() },
                    );
                }
                proof {
                    semantics::lemma_exps_size_bound(exps.exps@, 0, 0);
                }
                let arg = match self.eval_exp(&exps.exps[0], env, input, fuel) {
                    Ok(v) => v,
                    Err(e) => {
                        return Err(e);
                    },
                };
                let arr = match arg.into_vec() {
                    Ok(a) => a,
                    Err(e) => {
                        return Err(e);
                    },
                };
                Ok(Value::Num(numeric::num_from_usize(arr.len())))
            },
            BuiltInKind::Round(exps) => {
                if exps.exps.len() != 1 {
                    return Err(
                        InterpreterError::ArgMismatch { expected: 1, got: exps.exps.len() },
                    );
                }
                proof {
                    semantics::lemma_exps_size_bound(exps.exps@, 0, 0);
                }
                let arg = match self.eval_exp(&exps.exps[0], env, input, fuel) {
                    Ok(v) => v,
                    Err(e) => {
                        return Err(e);
                    },
                };
                let a = match arg.into_f64() {
                    Ok(b) => b,
                    Err(e) => {
                        return Err(e);
                    },
                };
                Ok(Value::Num(numeric::num_round(a)))
            },
            BuiltInKind::Input(exps) => {
                if exps.exps.len() != 0 {
                    return Err(
                        InterpreterError::ArgMismatch { expected: 0, got: exps.exps.len() },
                    );
                }
                input::print_raw("> ");
                let mut buf = String::new();
                match input.read_line(&mut buf) {
                    Ok(_) => {},
                    Err(e) => {
                        return Err(e);
                    },
                }
                let line = input::trim_line(buf.as_str());
                match numeric::num_parse(line) {
                    Some(bits) => Ok(Value::Num(bits)),
                    None => Err(InterpreterError::InvalidInput),
                }
            },
        }
    }

    /// Runs a block's statements in order, stopping the moment one
    /// produces a value — that is how `return` escapes nesting.
    #[verifier::loop_isolation(false)]
    fn eval_block(
        &self,
        block: &symbols::Block,
        env: &mut Environment,
        input: &mut Input,
        fuel: u64,
    ) -> (r: Result<Option<Value>, InterpreterError>)
        requires
            self.wf(),
        ensures
            final(input).modeled() == old(input).modeled(),
            old(input).modeled() ==> match semantics::eval_block_s(
                self.dm(),
                old(env)@,
                old(input).queue(),
                *block,
                fuel as nat,
            ) {
                Outcome::Val(t) => r matches Ok(opt) && opt_value_view(opt) == t.0 && final(env)@
                    == t.1 && final(input).queue() == t.2,
                Outcome::Halt(e) => r matches Err(er) && err_view(er) == e,
                Outcome::NoFuel => r matches Err(er) && er is RecursionLimit,
            },
        decreases fuel, semantics::block_size(*block), 0int,
    {
        let ghost dm = self.dm();
        let ghost ins0 = input.queue();
        let ghost modeled0 = input.modeled();
        let mut i: usize = 0;
        while i < block.statements.len()
            invariant
                i <= block.statements@.len(),
                input.modeled() == modeled0,
                modeled0 ==> semantics::eval_stmts_s(
                    dm,
                    old(env)@,
                    ins0,
                    block.statements@,
                    0,
                    fuel as nat,
                ) == semantics::eval_stmts_s(
                    dm,
                    env@,
                    input.queue(),
                    block.statements@,
                    i as int,
                    fuel as nat,
                ),
            decreases block.statements@.len() - i,
        {
            proof {
                semantics::lemma_stmts_size_bound(block.statements@, 0, i as int);
            }
            let res = self.eval_statement(&block.statements[i], env, input, fuel);
            match res {
                Ok(opt) => match opt {
                    Some(v) => {
                        return Ok(Some(v));
                    },
                    None => {
                        i = i + 1;
                    },
                },
                Err(e) => {
                    return Err(e);
                },
            }
        }
        Ok(None)
    }

    /// Runs one statement: a `return` produces a value; an assignment
    /// rebinds its name, and may change the value's variant freely; an
    /// array assignment rewrites one element of the named array; an
    /// expression statement prints its value and produces none. A
    /// statement other than a nest binds nothing until it has fully
    /// succeeded, so on an error it leaves the frame as it was; a nest
    /// keeps the bindings of the sub-statements that completed before the
    /// fault, as the language's fatal-error model prescribes.
    fn eval_statement(
        &self,
        statement: &Statement,
        env: &mut Environment,
        input: &mut Input,
        fuel: u64,
    ) -> (r: Result<Option<Value>, InterpreterError>)
        requires
            self.wf(),
        ensures
            r is Err && !(statement.statement is Nest) ==> final(env)@ == old(env)@,
            final(input).modeled() == old(input).modeled(),
            old(input).modeled() ==> match semantics::eval_statement_s(
                self.dm(),
                old(env)@,
                old(input).queue(),
                *statement,
                fuel as nat,
            ) {
                Outcome::Val(t) => r matches Ok(opt) && opt_value_view(opt) == t.0 && final(env)@
                    == t.1 && final(input).queue() == t.2,
                Outcome::Halt(e) => r matches Err(er) && err_view(er) == e,
                Outcome::NoFuel => r matches Err(er) && er is RecursionLimit,
            },
        decreases fuel, semantics::stmt_size(*statement), 0int,
    {
        match &statement.statement {
            StatementKind::Return(exp) => {
                let v = match self.eval_exp(exp, env, input, fuel) {
                    Ok(v) => v,
                    Err(e) => {
                        return Err(e);
                    },
                };
                Ok(Some(v))
            },
            StatementKind::Assign { name, exp } => {
                let v = match self.eval_exp(exp, env, input, fuel) {
                    Ok(v) => v,
                    Err(e) => {
                        return Err(e);
                    },
                };
                env.bind_var(name.clone(), v);
                Ok(None)
            },
            StatementKind::ArrayAssign { name, index_exp, value } => {
                let cur = match env.get_var(name.as_str()) {
                    Ok(v) => v,
                    Err(e) => {
                        return Err(e);
                    },
                };
                let mut arr = match cur.into_vec() {
                    Ok(a) => a,
                    Err(e) => {
                        return Err(e);
                    },
                };
                let iv = match self.eval_exp(index_exp, env, input, fuel) {
                    Ok(v) => v,
                    Err(e) => {
                        return Err(e);
                    },
                };
                let ib = match iv.into_f64() {
                    Ok(b) => b,
                    Err(e) => {
                        return Err(e);
                    },
                };
                let pos = numeric::num_to_usize(ib);
                let vv = match self.eval_exp(value, env, input, fuel) {
                    Ok(v) => v,
                    Err(e) => {
                        return Err(e);
                    },
                };
                let vb = match vv.into_f64() {
                    Ok(b) => b,
                    Err(e) => {
                        return Err(e);
                    },
                };
                if pos < arr.len() {
                    arr.set(pos, vb);
                    env.bind_var(name.clone(), Value::Array(arr));
                    Ok(None)
                } else {
                    Err(InterpreterError::IndexOutOfBounds { index: pos, len: arr.len() })
                }
            },
            StatementKind::Exp(exp) => {
                let v = match self.eval_exp(exp, env, input, fuel) {
                    Ok(v) => v,
                    Err(e) => {
                        return Err(e);
                    },
                };
                print_value(&v);
                Ok(None)
            },
            StatementKind::Nest(nest) => self.eval_nest(nest, env, input, fuel),
        }
    }

    /// Runs a control-flow construct: conditions are narrowed to doubles
    /// and tested for truthiness; a loop re-tests before every pass and
    /// stops the moment its body produces a value.
    #[verifier::loop_isolation(false)]
    fn eval_nest(
        &self,
        nest: &Nest,
        env: &mut Environment,
        input: &mut Input,
        fuel: u64,
    ) -> (r: Result<Option<Value>, InterpreterError>)
        requires
            self.wf(),
        ensures
            final(input).modeled() == old(input).modeled(),
            old(input).modeled() ==> match semantics::eval_nest_s(
                self.dm(),
                old(env)@,
                old(input).queue(),
                *nest,
                fuel as nat,
            ) {
                Outcome::Val(t) => r matches Ok(opt) && opt_value_view(opt) == t.0 && final(env)@
                    == t.1 && final(input).queue() == t.2,
                Outcome::Halt(e) => r matches Err(er) && err_view(er) == e,
                Outcome::NoFuel => r matches Err(er) && er is RecursionLimit,
            },
        decreases fuel, semantics::nest_size(*nest), 0int,
    {
        match &nest.nest {
            NestKind::If { cond, then } => {
                let cv = match self.eval_exp(cond, env, input, fuel) {
                    Ok(v) => v,
                    Err(e) => {
                        return Err(e);
                    },
                };
                let cb = match cv.into_f64() {
                    Ok(b) => b,
                    Err(e) => {
                        return Err(e);
                    },
                };
                if helpers::truthy(cb) {
                    self.eval_block(then, env, input, fuel)
                } else {
                    Ok(None)
                }
            },
            NestKind::IfElse { cond, then, else_ } => {
                let cv = match self.eval_exp(cond, env, input, fuel) {
                    Ok(v) => v,
                    Err(e) => {
                        return Err(e);
                    },
                };
                let cb = match cv.into_f64() {
                    Ok(b) => b,
                    Err(e) => {
                        return Err(e);
                    },
                };
                if helpers::truthy(cb) {
                    self.eval_block(then, env, input, fuel)
                } else {
                    self.eval_block(else_, env, input, fuel)
                }
            },
            NestKind::While { cond, block } => {
                let ghost dm = self.dm();
                let ghost ins0 = input.queue();
                let ghost modeled0 = input.modeled();
                let mut fuel_left: u64 = fuel;
                loop
                    invariant
                        input.modeled() == modeled0,
                        fuel_left <= fuel,
                        modeled0 ==> semantics::eval_nest_s(
                            dm,
                            old(env)@,
                            ins0,
                            *nest,
                            fuel as nat,
                        ) == semantics::eval_nest_s(
                            dm,
                            env@,
                            input.queue(),
                            *nest,
                            fuel_left as nat,
                        ),
                    decreases fuel_left,
                {
                    let cv = match self.eval_exp(cond, env, input, fuel_left) {
                        Ok(v) => v,
                        Err(e) => {
                            return Err(e);
                        },
                    };
                    let cb = match cv.into_f64() {
                        Ok(b) => b,
                        Err(e) => {
                            return Err(e);
                        },
                    };
                    if !helpers::truthy(cb) {
                        return Ok(None);
                    }
                    match self.eval_block(block, env, input, fuel_left) {
                        Ok(opt) => match opt {
                            Some(v) => {
                                return Ok(Some(v));
                            },
                            None => {
                                if fuel_left == 0 {
                                    return Err(InterpreterError::RecursionLimit);
                                }
                                fuel_left = fuel_left - 1;
                            },
                        },
                        Err(e) => {
                            return Err(e);
                        },
                    }
                }
            },
        }
    }
}

} // verus!
