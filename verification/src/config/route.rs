use vstd::prelude::*;

use crate::operators::OperatorValue;
use crate::pipeline::PipelineStep;

verus! {

/// An HTTP method a route can declare.
#[derive(Debug, Clone, Copy, PartialEq, Eq, Structural, Hash)]
pub enum HttpMethod {
    Get,
    Post,
    Put,
    Delete,
    Patch,
    Head,
    Options,
}

/// One route of the configuration document: a path pattern, a method,
/// middleware references, a pipeline and a response expression.
#[derive(Debug)]
pub struct Route {
    /// URL path pattern, such as `/posts/:id`.
    pub path: String,
    /// The HTTP method the route answers.
    pub method: HttpMethod,
    /// Names of middleware whose steps run before the route's own.
    pub middleware: Vec<String>,
    /// The route's own pipeline steps.
    pub pipeline: Vec<PipelineStep>,
    /// The response expression evaluated after the steps.
    pub response: Response,
}

/// A route's response: a structured envelope, or one expression that
/// produces the value (or an early-return envelope) itself.
#[derive(Debug)]
pub enum Response {
    /// A fixed status with evaluated headers and body.
    Static { status: u16, headers: Vec<(String, OperatorValue)>, body: OperatorValue },
    /// A single expression choosing the response.
    Conditional(OperatorValue),
}

} // verus!
