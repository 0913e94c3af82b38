//! deck - runtime core of a declarative web-server framework.
//!
//! A configuration document describes routes, middleware and
//! request-processing pipelines in a small JSON operator language; this
//! crate holds the verified evaluation engine for that language: the
//! value domain, the execution context, the recursive operator
//! evaluator, the pipeline runner and the collaborator contracts.

pub mod config;
pub mod laws;
pub mod executor;
pub mod operators;
pub mod pipeline;
pub mod value;

pub use config::{DeckConfig, Route};
pub use operators::{Operator, OperatorValue};
pub use pipeline::{Context, ExecutionError, PipelineStep};
pub use value::Value;
