//! Pipeline execution: the context, the error taxonomy, the steps and
//! the runner that drives them.

pub mod context;
pub mod error;
mod run;
mod step;

pub use context::Context;
pub use context::obj_get_str as obj_get_entry;
pub use error::ErrModel;
pub use error::ExecutionError;
pub use run::{Envelope, OutcomeModel, PipelineOutcome};
pub use run::{run_pipeline, run_pipeline_model, run_steps_model};
pub use step::PipelineStep;

