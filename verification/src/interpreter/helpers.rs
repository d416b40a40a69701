//! Small evaluation helpers: truthiness, boolean encoding, and narrowing
//! a call's optional result to a value.

use vstd::prelude::*;

use super::environment::Value;
use super::errors::{err_view, ErrV, InterpreterError};
use super::{BITS_ONE, BITS_ZERO, EPSILON_BITS};
use crate::numeric;

verus! {

/// Whether the double is "true": its magnitude exceeds the tolerance.
pub open spec fn truthy_bits(value: u64) -> bool {
    numeric::gt_bits(numeric::abs_bits(value), EPSILON_BITS)
}

/// The double encoding a boolean: one for true, zero for false.
pub open spec fn bool_bits(b: bool) -> u64 {
    if b {
        BITS_ONE
    } else {
        BITS_ZERO
    }
}

/// Evaluates the truthiness of a double.
pub fn truthy(value: u64) -> (r: bool)
    ensures
        r == truthy_bits(value),
{
    numeric::num_gt(numeric::num_abs(value), EPSILON_BITS)
}

/// Converts a boolean to a double.
pub fn bool_to_float(b: bool) -> (r: u64)
    ensures
        r == bool_bits(b),
{
    if b {
        BITS_ONE
    } else {
        BITS_ZERO
    }
}

/// The value of an expression that may have produced none: a call with no
/// value becomes a valueless-expression error.
pub fn get_expression_result_value(res: Result<Option<Value>, InterpreterError>) -> (r: Result<
    Value,
    InterpreterError,
>)
    ensures
        match res {
            Ok(opt) => match opt {
                Some(v) => r matches Ok(v2) && v2 == v,
                None => r matches Err(e) && err_view(e) == ErrV::ValuelessExpression,
            },
            Err(e) => r matches Err(e2) && e2 == e,
        },
{
    match res {
        Ok(Some(value)) => Ok(value),
        Ok(None) => Err(InterpreterError::ValuelessExpression),
        Err(e) => Err(e),
    }
}

} // verus!
