use vstd::prelude::*;

use super::{DatabaseConfig, Middleware, Route, TemplateConfig};
use crate::value::Value;

verus! {

/// The top level of a configuration document.
#[derive(Debug)]
pub struct DeckConfig {
    /// Storage configuration and schemas.
    pub database: Option<DatabaseConfig>,
    /// Template configuration.
    pub templates: Option<TemplateConfig>,
    /// The routes, in declaration order.
    pub routes: Vec<Route>,
    /// Reusable middleware, by name.
    pub middleware: Vec<(String, Middleware)>,
    /// Reusable validation schemas, by name.
    pub schemas: Vec<(String, Value)>,
    /// Error handlers (reserved).
    pub error_handlers: Option<Value>,
}

} // verus!
