use vstd::prelude::*;

verus! {

/// `$get`: reads a value from the context by dotted path
/// (`"user.email"`, `"items.0"`).
#[derive(Debug)]
pub struct GetOp {
    /// Dot-separated path to the value in the context.
    pub path: String,
}

/// `$jsonPath`: reads values from the context's whole variable map with
/// a JSONPath expression (root `$`, wildcards, filters, recursive
/// descent); always yields an array of matches.
#[derive(Debug)]
pub struct JsonPathOp {
    /// The JSONPath expression; it should start with `$`.
    pub path: String,
}

} // verus!
