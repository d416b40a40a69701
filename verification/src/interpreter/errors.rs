//! The evaluation errors.
//!
//! Every error is fatal: evaluation stops at the first one and hands it to
//! the caller of `execute`. `ErrV` is the mathematical image of an error
//! used by the evaluation semantics; `err_view` maps each runtime error to
//! it, forgetting payloads that exist only for reporting.

use vstd::prelude::*;

use super::environment::ValueDiscriminants;

verus! {

/// A fatal evaluation error.
#[derive(Debug)]
pub enum InterpreterError {
    /// A variable was read that the current call frame never bound.
    UnboundVar(String),
    /// A call named a function that no definition declares.
    UnboundFunc(String),
    /// A value of one variant stood where the other was required.
    TypeError { found_type: ValueDiscriminants, expected_type: ValueDiscriminants },
    /// The program declares no entry function.
    NoMainDefined,
    /// A call's actual-argument count differs from the declared count.
    ArgMismatch { got: usize, expected: usize },
    /// A call used as a value returned no value.
    ValuelessExpression,
    /// Division or remainder by a value within tolerance of zero.
    DivideByZero,
    /// An array was indexed at or past its length.
    IndexOutOfBounds { index: usize, len: usize },
    /// An `input` line did not parse as a number.
    InvalidInput,
    /// Reading an input line failed, or no line was left to read.
    IOError,
    /// Evaluation exceeded the interpreter's nesting budget.
    RecursionLimit,
}

/// The mathematical image of an evaluation error.
pub enum ErrV {
    UnboundVar(Seq<char>),
    UnboundFunc(Seq<char>),
    TypeError { found: ValueDiscriminants, expected: ValueDiscriminants },
    NoMainDefined,
    ArgMismatch { got: int, expected: int },
    ValuelessExpression,
    DivideByZero,
    IndexOutOfBounds { index: int, len: int },
    InvalidInput,
    IOError,
    /// Never produced by the semantics, which reports an exhausted budget
    /// through its own outcome; present so every runtime error has an image.
    RecursionLimit,
}

/// What an error says, with reporting-only payloads forgotten.
pub open spec fn err_view(e: InterpreterError) -> ErrV {
    match e {
        InterpreterError::UnboundVar(n) => ErrV::UnboundVar(n@),
        InterpreterError::UnboundFunc(n) => ErrV::UnboundFunc(n@),
        InterpreterError::TypeError { found_type, expected_type } => ErrV::TypeError {
            found: found_type,
            expected: expected_type,
        },
        InterpreterError::NoMainDefined => ErrV::NoMainDefined,
        InterpreterError::ArgMismatch { got, expected } => ErrV::ArgMismatch {
            got: got as int,
            expected: expected as int,
        },
        InterpreterError::ValuelessExpression => ErrV::ValuelessExpression,
        InterpreterError::DivideByZero => ErrV::DivideByZero,
        InterpreterError::IndexOutOfBounds { index, len } => ErrV::IndexOutOfBounds {
            index: index as int,
            len: len as int,
        },
        InterpreterError::InvalidInput => ErrV::InvalidInput,
        InterpreterError::IOError => ErrV::IOError,
        InterpreterError::RecursionLimit => ErrV::RecursionLimit,
    }
}

} // verus!
