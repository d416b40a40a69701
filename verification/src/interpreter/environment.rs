//! Runtime values and per-call variable bindings.
//!
//! A value is a double (as its bit pattern) or an array of doubles; there
//! is no coercion between the two, so every consumer narrows explicitly
//! and fails with a type mismatch otherwise. An `Environment` maps names
//! to values for one function-call frame; rebinding a name replaces its
//! value, and may change its variant freely.

use vstd::prelude::*;

use super::errors::{err_view, ErrV, InterpreterError};

verus! {

broadcast use vstd::std_specs::vec::group_vec_axioms;

/// A runtime value: a double, by bit pattern, or an array of doubles.
#[derive(Debug, Clone, PartialEq)]
pub enum Value {
    Num(u64),
    Array(Vec<u64>),
}

/// The two variants a value can have, for type-mismatch reporting.
#[derive(Debug, Clone, Copy, PartialEq, Eq, Structural)]
pub enum ValueDiscriminants {
    Num,
    Array,
}

/// The mathematical image of a runtime value.
pub enum ValueV {
    Num(u64),
    Array(Seq<u64>),
}

impl View for Value {
    type V = ValueV;

    open spec fn view(&self) -> ValueV {
        match self {
            Value::Num(b) => ValueV::Num(*b),
            Value::Array(v) => ValueV::Array(v@),
        }
    }
}

impl Value {
    /// The double inside, or a type mismatch if the value is an array.
    pub fn into_f64(self) -> (r: Result<u64, InterpreterError>)
        ensures
            match self@ {
                ValueV::Num(b) => r == Result::<u64, InterpreterError>::Ok(b),
                ValueV::Array(_) => r matches Err(e) && err_view(e) == (ErrV::TypeError {
                    found: ValueDiscriminants::Array,
                    expected: ValueDiscriminants::Num,
                }),
            },
    {
        match self {
            Value::Num(val) => Ok(val),
            Value::Array(_) => Err(
                InterpreterError::TypeError {
                    found_type: ValueDiscriminants::Array,
                    expected_type: ValueDiscriminants::Num,
                },
            ),
        }
    }

    /// The array inside, or a type mismatch if the value is a double.
    pub fn into_vec(self) -> (r: Result<Vec<u64>, InterpreterError>)
        ensures
            match self@ {
                ValueV::Array(s) => r matches Ok(v) && v@ == s,
                ValueV::Num(_) => r matches Err(e) && err_view(e) == (ErrV::TypeError {
                    found: ValueDiscriminants::Num,
                    expected: ValueDiscriminants::Array,
                }),
            },
    {
        match self {
            Value::Array(val) => Ok(val),
            Value::Num(_) => Err(
                InterpreterError::TypeError {
                    found_type: ValueDiscriminants::Num,
                    expected_type: ValueDiscriminants::Array,
                },
            ),
        }
    }
}

/// A copy of an array of doubles.
pub fn clone_nums(v: &Vec<u64>) -> (r: Vec<u64>)
    ensures
        r@ == v@,
{
    let mut out: Vec<u64> = Vec::new();
    let mut i: usize = 0;
    while i < v.len()
        invariant
            i <= v.len(),
            out@ == v@.take(i as int),
        decreases v.len() - i,
    {
        out.push(v[i]);
        proof {
            assert(out@ =~= v@.take(i + 1));
        }
        i = i + 1;
    }
    proof {
        assert(v@.take(v@.len() as int) =~= v@);
    }
    out
}

/// A copy of a value.
pub fn clone_value(v: &Value) -> (r: Value)
    ensures
        r@ == v@,
{
    match v {
        Value::Num(b) => Value::Num(*b),
        Value::Array(items) => Value::Array(clone_nums(items)),
    }
}

/// The name-to-value map that a binding list denotes: a later binding of
/// a name shadows an earlier one.
pub open spec fn env_map(s: Seq<(String, Value)>) -> Map<Seq<char>, ValueV>
    decreases s.len(),
{
    if s.len() == 0 {
        Map::empty()
    } else {
        env_map(s.drop_last()).insert(s.last().0@, s.last().1@)
    }
}

/// Bindings past position `i` that never mention a name leave the map's
/// verdict on that name to the bindings before `i`.
proof fn lemma_env_map_skip(s: Seq<(String, Value)>, k: Seq<char>, i: int)
    requires
        0 <= i <= s.len(),
        forall|j: int| i <= j < s.len() ==> (#[trigger] s[j]).0@ != k,
    ensures
        env_map(s).contains_key(k) == env_map(s.take(i)).contains_key(k),
        env_map(s).contains_key(k) ==> env_map(s)[k] == env_map(s.take(i))[k],
    decreases s.len() - i,
{
    if i == s.len() {
        assert(s.take(i) =~= s);
    } else {
        let s1 = s.drop_last();
        assert(s.last() == s[s.len() - 1]);
        lemma_env_map_skip(s1, k, i);
        assert(s1.take(i) =~= s.take(i));
    }
}

/// The variable bindings of one function-call frame.
#[derive(Debug)]
pub struct Environment {
    vars: Vec<(String, Value)>,
}

impl View for Environment {
    type V = Map<Seq<char>, ValueV>;

    closed spec fn view(&self) -> Map<Seq<char>, ValueV> {
        env_map(self.vars@)
    }
}

impl Environment {
    /// A frame with no bindings.
    pub fn new() -> (r: Environment)
        ensures
            r@ == Map::<Seq<char>, ValueV>::empty(),
    {
        Environment { vars: Vec::new() }
    }

    /// Binds a value to a name, shadowing any earlier binding of it.
    pub fn bind_var(&mut self, name: String, value: Value)
        ensures
            final(self)@ == old(self)@.insert(name@, value@),
    {
        let ghost old_vars = self.vars@;
        let ghost nv = name@;
        let ghost vv = value@;
        self.vars.push((name, value));
        proof {
            assert(self.vars@.drop_last() =~= old_vars);
            assert(self.vars@.last().0@ == nv);
            assert(self.vars@.last().1@ == vv);
        }
    }

    /// The value bound to a name, or an unbound-variable error exactly
    /// when the frame never bound it.
    pub fn get_var(&self, name: &str) -> (r: Result<Value, InterpreterError>)
        ensures
            match r {
                Ok(v) => self@.contains_key(name@) && v@ == self@[name@],
                Err(e) => !self@.contains_key(name@) && err_view(e) == ErrV::UnboundVar(name@),
            },
    {
        let key: String = name.to_owned();
        let mut j: usize = self.vars.len();
        while j > 0
            invariant
                j <= self.vars.len(),
                key@ == name@,
                forall|t: int| j <= t < self.vars@.len() ==> (#[trigger] self.vars@[t]).0@ != name@,
            decreases j,
        {
            j = j - 1;
            if self.vars[j].0 == key {
                proof {
                    lemma_env_map_skip(self.vars@, name@, j + 1);
                    assert(self.vars@.take(j + 1).drop_last() =~= self.vars@.take(j as int));
                    assert(self.vars@.take(j + 1).last() == self.vars@[j as int]);
                }
                return Ok(clone_value(&self.vars[j].1));
            }
        }
        proof {
            lemma_env_map_skip(self.vars@, name@, 0);
            assert(self.vars@.take(0) =~= Seq::<(String, Value)>::empty());
        }
        Err(InterpreterError::UnboundVar(key))
    }
}


/// An array of the given many zero doubles, the value a fresh array holds.
pub fn zeros(n: usize) -> (r: Vec<u64>)
    ensures
        r@ == Seq::new(n as nat, |i: int| 0u64),
{
    let mut out: Vec<u64> = Vec::new();
    let mut i: usize = 0;
    while i < n
        invariant
            i <= n,
            out@ == Seq::new(i as nat, |j: int| 0u64),
        decreases n - i,
    {
        out.push(0);
        proof {
            assert(out@ =~= Seq::new((i + 1) as nat, |j: int| 0u64));
        }
        i = i + 1;
    }
    out
}

/// The images of a list of values.
pub open spec fn vals_view(vs: Seq<Value>) -> Seq<ValueV> {
    vs.map_values(|v: Value| v@)
}

} // verus!
