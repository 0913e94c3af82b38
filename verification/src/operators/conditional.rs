use vstd::prelude::*;

use super::OperatorValue;
use crate::value::Value;

verus! {

/// `$if`: evaluates the condition, and by its truthiness one branch.
#[derive(Debug)]
pub struct IfOp {
    /// Condition to evaluate.
    pub condition: OperatorValue,
    /// Result when the condition is truthy.
    pub then_branch: OperatorValue,
    /// Result when the condition is falsy; absent means null.
    pub else_branch: Option<OperatorValue>,
}

/// `$switch`: multi-way branching on structural equality.
#[derive(Debug)]
pub struct SwitchOp {
    /// Value to switch on.
    pub on: OperatorValue,
    /// The case branches, tried in order.
    pub cases: Vec<SwitchCase>,
    /// Result when no case matches; absent means null.
    pub default: Option<OperatorValue>,
}

/// One case of a `$switch`: a literal value to match and a result.
#[derive(Debug)]
pub struct SwitchCase {
    /// Literal value to match against; not evaluated.
    pub when: Value,
    /// Result when this case matches.
    pub then_branch: OperatorValue,
}

} // verus!
