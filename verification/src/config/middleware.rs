use vstd::prelude::*;

use crate::pipeline::PipelineStep;

verus! {

/// A named, reusable pipeline fragment; running a route is the same as
/// running its referenced middleware steps first, in declared order.
#[derive(Debug)]
pub struct Middleware {
    /// The steps the middleware contributes.
    pub pipeline: Vec<PipelineStep>,
}

} // verus!
