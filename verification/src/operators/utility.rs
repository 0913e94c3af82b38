use vstd::prelude::*;

use super::OperatorValue;
use crate::value::Value;

verus! {

/// `$merge`: combines objects; keys of later objects win.
#[derive(Debug)]
pub struct MergeOp {
    /// The objects to merge, in order.
    pub objects: Vec<OperatorValue>,
}

/// `$exists`: whether the evaluated value is non-null.
#[derive(Debug)]
pub struct ExistsOp {
    /// The value to test.
    pub value: OperatorValue,
}

/// `$renderString`: substitutes `{{path}}` occurrences in a template.
#[derive(Debug)]
pub struct RenderStringOp {
    /// Template text with `{{path}}` placeholders.
    pub template: String,
}

/// `$return`: ends the pipeline early with a response envelope.
#[derive(Debug)]
pub struct ReturnOp {
    /// HTTP status code of the envelope.
    pub status: u16,
    /// Response headers; each value is evaluated.
    pub headers: Vec<(String, OperatorValue)>,
    /// Response body; evaluated before the return.
    pub body: OperatorValue,
}

/// `$validate`: checks data against a JSON-Schema document; valid data
/// passes through unchanged.
#[derive(Debug)]
pub struct ValidateOp {
    /// The data to validate.
    pub data: OperatorValue,
    /// The schema, as a literal value.
    pub schema: Value,
    /// Result when validation fails; absent raises a validation error.
    pub on_fail: Option<OperatorValue>,
}

/// `$now`: the clock collaborator's ISO-8601 timestamp.
#[derive(Debug)]
pub struct NowOp {
    /// Always absent; the operator takes no parameter.
    pub value: Option<()>,
}

impl Default for NowOp {
    /// The one `$now` node.
    fn default() -> (r: NowOp)
        ensures
            r.value is None,
    {
        NowOp { value: None }
    }
}

} // verus!
