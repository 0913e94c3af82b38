//! Configuration types: the in-memory model of the declarative JSON
//! document that drives the runtime.

mod database;
mod middleware;
mod root;
mod route;
mod template;

pub use database::{DatabaseConfig, DatabaseSchema, FieldDefinition, FieldType, IndexDefinition};
pub use middleware::Middleware;
pub use root::DeckConfig;
pub use route::{HttpMethod, Response, Route};
pub use template::TemplateConfig;
