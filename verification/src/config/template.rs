use vstd::prelude::*;

verus! {

/// Template configuration for file-based rendering, handled outside
/// the core.
#[derive(Debug, Clone)]
pub struct TemplateConfig {
    /// Base directory for template files.
    pub path: String,
    /// The template engine to use, if named.
    pub engine: Option<String>,
    /// Named references to template files.
    pub files: Vec<(String, String)>,
}

} // verus!
