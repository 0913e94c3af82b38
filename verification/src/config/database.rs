use vstd::prelude::*;

use crate::value::Value;

verus! {

/// Storage configuration: the declared collection schemas.
#[derive(Debug)]
pub struct DatabaseConfig {
    /// Schema of each collection, by name.
    pub schemas: Vec<(String, DatabaseSchema)>,
}

/// The declared shape of one collection.
#[derive(Debug)]
pub struct DatabaseSchema {
    /// Field definitions, by field name.
    pub fields: Vec<(String, FieldDefinition)>,
    /// Index definitions.
    pub indexes: Vec<IndexDefinition>,
}

/// One field of a collection schema.
#[derive(Debug)]
pub struct FieldDefinition {
    /// The declared type of the field.
    pub field_type: FieldType,
    /// Whether the field must be present.
    pub required: bool,
    /// Whether this field is the primary key.
    pub primary: bool,
    /// Whether values must be unique.
    pub unique: bool,
    /// Default value, if any.
    pub default: Option<Value>,
    /// Allowed values, if restricted.
    pub allowed: Option<Vec<Value>>,
    /// For array fields, the element definition.
    pub items: Option<Box<FieldDefinition>>,
}

/// The declared type of a schema field.
#[derive(Debug, Clone, Copy, PartialEq, Eq, Structural)]
pub enum FieldType {
    String,
    Number,
    Boolean,
    Datetime,
    Array,
    Object,
    Json,
}

/// One index over a collection.
#[derive(Debug, Clone)]
pub struct IndexDefinition {
    /// The indexed fields, in order.
    pub fields: Vec<String>,
    /// Whether the index enforces uniqueness.
    pub unique: bool,
}

} // verus!
