use vstd::prelude::*;

use super::OperatorValue;

verus! {

/// `$dbQuery`: queries documents from a collection.
#[derive(Debug)]
pub struct DbQueryOp {
    /// Collection name.
    pub collection: String,
    /// Equality filter; each value is evaluated before the query.
    pub filter: Option<Vec<(String, OperatorValue)>>,
    /// Fields to keep in each result document.
    pub select: Option<Vec<String>>,
    /// Greatest number of results.
    pub limit: Option<u32>,
    /// Number of results to skip.
    pub skip: Option<u32>,
    /// Sort order; only the first named field is used.
    pub sort: Option<Vec<(String, SortOrder)>>,
}

/// Sort order for database queries.
#[derive(Debug, Clone, Copy, PartialEq, Eq, Structural)]
pub enum SortOrder {
    Ascending,
    Descending,
}

/// `$dbInsert`: inserts one document into a collection.
#[derive(Debug)]
pub struct DbInsertOp {
    /// Collection name.
    pub collection: String,
    /// The document; each value is evaluated before the insert.
    pub document: Vec<(String, OperatorValue)>,
    /// Whether to validate against a schema (reserved).
    pub validate: bool,
}

/// `$dbUpdate`: merges fields into every matching document.
#[derive(Debug)]
pub struct DbUpdateOp {
    /// Collection name.
    pub collection: String,
    /// Equality filter choosing the documents.
    pub filter: Vec<(String, OperatorValue)>,
    /// Fields merged into each matching document.
    pub update: Vec<(String, OperatorValue)>,
    /// Whether to validate against a schema (reserved).
    pub validate: bool,
}

/// `$dbDelete`: removes every matching document and returns them.
#[derive(Debug)]
pub struct DbDeleteOp {
    /// Collection name.
    pub collection: String,
    /// Equality filter choosing the documents.
    pub filter: Vec<(String, OperatorValue)>,
}

} // verus!
