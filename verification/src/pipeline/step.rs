use vstd::prelude::*;

use crate::operators::OperatorValue;

verus! {

/// One step of a pipeline: an expression to evaluate, and optionally a
/// name under which its result is bound into the context.
#[derive(Debug)]
pub struct PipelineStep {
    /// Name under which the result is bound; absent discards it.
    pub name: Option<String>,
    /// The expression the step evaluates.
    pub value: OperatorValue,
}

} // verus!
