use vstd::prelude::*;

use super::OperatorValue;
use crate::value::Value;

verus! {

/// `$map`: transforms each element of an array; inside the body the
/// element is bound as `item`.
#[derive(Debug)]
pub struct MapOp {
    /// The array to walk.
    pub over: OperatorValue,
    /// The expression evaluated for each element.
    pub transform: OperatorValue,
}

/// `$filter`: keeps the elements for which the condition is truthy;
/// inside the condition the element is bound as `item`.
#[derive(Debug)]
pub struct FilterOp {
    /// The array to walk.
    pub over: OperatorValue,
    /// The condition evaluated for each element.
    pub condition: OperatorValue,
}

/// `$reduce`: folds an array; inside the body the element is bound as
/// `item` and the running value as `accumulator`.
#[derive(Debug)]
pub struct ReduceOp {
    /// The array to fold.
    pub over: OperatorValue,
    /// The expression combining accumulator and element.
    pub with: OperatorValue,
    /// The initial accumulator value.
    pub initial: Value,
}

} // verus!
