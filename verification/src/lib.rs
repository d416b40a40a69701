//! A verified interpreter for a small imperative language of function
//! definitions, blocks, assignments, conditionals, loops, and numeric and
//! array values.
//!
//! The crate is organised as the language's pipeline: [`scanner`] turns
//! source text into tokens, [`ast`] builds a syntax tree from them by
//! recursive descent, and [`interpreter`] walks the tree, keeping one
//! variable environment per function call and a global table of function
//! definitions. Numbers are IEEE 754 doubles carried as bit patterns; the
//! arithmetic on them stands in [`numeric`].

use vstd::prelude::*;

pub mod interpreter;
pub mod ast;
pub mod numeric;
pub mod scanner;
pub mod tokens;
