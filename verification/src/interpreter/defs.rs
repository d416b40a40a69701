//! The global table of function definitions.
//!
//! Built once from the program before evaluation and read-only afterwards.
//! Each name is bound to the position of its definition in the program's
//! definition list; binding a name again shadows the earlier definition.

use vstd::prelude::*;

use super::errors::{err_view, ErrV, InterpreterError};

verus! {

broadcast use vstd::std_specs::vec::group_vec_axioms;

/// The name-to-position map that a binding list denotes: a later binding
/// of a name shadows an earlier one.
pub open spec fn defs_assoc(s: Seq<(String, usize)>) -> Map<Seq<char>, usize>
    decreases s.len(),
{
    if s.len() == 0 {
        Map::empty()
    } else {
        defs_assoc(s.drop_last()).insert(s.last().0@, s.last().1)
    }
}

/// Bindings past position `i` that never mention a name leave the map's
/// verdict on that name to the bindings before `i`.
proof fn lemma_defs_assoc_skip(s: Seq<(String, usize)>, k: Seq<char>, i: int)
    requires
        0 <= i <= s.len(),
        forall|j: int| i <= j < s.len() ==> (#[trigger] s[j]).0@ != k,
    ensures
        defs_assoc(s).contains_key(k) == defs_assoc(s.take(i)).contains_key(k),
        defs_assoc(s).contains_key(k) ==> defs_assoc(s)[k] == defs_assoc(s.take(i))[k],
    decreases s.len() - i,
{
    if i == s.len() {
        assert(s.take(i) =~= s);
    } else {
        let s1 = s.drop_last();
        assert(s.last() == s[s.len() - 1]);
        lemma_defs_assoc_skip(s1, k, i);
        assert(s1.take(i) =~= s.take(i));
    }
}

/// The table of declared functions, by name.
#[derive(Debug)]
pub struct Defs {
    funcs: Vec<(String, usize)>,
}

impl View for Defs {
    type V = Map<Seq<char>, usize>;

    closed spec fn view(&self) -> Map<Seq<char>, usize> {
        defs_assoc(self.funcs@)
    }
}

impl Defs {
    /// An empty table.
    pub fn new() -> (r: Defs)
        ensures
            r@ == Map::<Seq<char>, usize>::empty(),
    {
        Defs { funcs: Vec::new() }
    }

    /// Binds a name to the position of its definition, shadowing any
    /// earlier binding of the name.
    pub fn bind_func(&mut self, name: String, index: usize)
        ensures
            final(self)@ == old(self)@.insert(name@, index),
    {
        let ghost old_funcs = self.funcs@;
        self.funcs.push((name, index));
        proof {
            assert(self.funcs@.drop_last() =~= old_funcs);
        }
    }

    /// The position bound to a name, or an unbound-function error exactly
    /// when no definition declares the name.
    pub fn get_func(&self, name: &String) -> (r: Result<usize, InterpreterError>)
        ensures
            match r {
                Ok(i) => self@.contains_key(name@) && i == self@[name@],
                Err(e) => !self@.contains_key(name@) && err_view(e) == ErrV::UnboundFunc(name@),
            },
    {
        let mut j: usize = self.funcs.len();
        while j > 0
            invariant
                j <= self.funcs.len(),
                forall|t: int| j <= t < self.funcs@.len() ==> (#[trigger] self.funcs@[t]).0@
                    != name@,
            decreases j,
        {
            j = j - 1;
            if self.funcs[j].0 == *name {
                proof {
                    lemma_defs_assoc_skip(self.funcs@, name@, j + 1);
                    assert(self.funcs@.take(j + 1).drop_last() =~= self.funcs@.take(j as int));
                    assert(self.funcs@.take(j + 1).last() == self.funcs@[j as int]);
                }
                return Ok(self.funcs[j].1);
            }
        }
        proof {
            lemma_defs_assoc_skip(self.funcs@, name@, 0);
            assert(self.funcs@.take(0) =~= Seq::<(String, usize)>::empty());
        }
        Err(InterpreterError::UnboundFunc(name.clone()))
    }
}

} // verus!
