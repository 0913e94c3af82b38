//! The operator language: a closed set of tagged nodes with literal
//! leaves, built once from configuration and read-only afterwards.

mod collection;
mod conditional;
mod data;
mod database;
mod utility;

pub use collection::{FilterOp, MapOp, ReduceOp};
pub use conditional::{IfOp, SwitchCase, SwitchOp};
pub use data::{GetOp, JsonPathOp};
pub use database::{DbDeleteOp, DbInsertOp, DbQueryOp, DbUpdateOp, SortOrder};
pub use utility::{ExistsOp, MergeOp, NowOp, RenderStringOp, ReturnOp, ValidateOp};

use crate::value::Value;
use vstd::prelude::*;

verus! {

/// Either an operator node or a literal value.
///
/// The distinction is explicit: a literal is never read as an operator,
/// whatever its shape.
#[derive(Debug)]
pub enum OperatorValue {
    /// An operator expression.
    Operator(Box<Operator>),
    /// A literal value.
    Literal(Value),
}

/// The closed set of operators.
#[derive(Debug)]
pub enum Operator {
    Get(GetOp),
    JsonPath(JsonPathOp),
    If(IfOp),
    Switch(SwitchOp),
    MapOver(MapOp),
    Filter(FilterOp),
    Reduce(ReduceOp),
    DbQuery(DbQueryOp),
    DbInsert(DbInsertOp),
    DbUpdate(DbUpdateOp),
    DbDelete(DbDeleteOp),
    Merge(MergeOp),
    Exists(ExistsOp),
    RenderString(RenderStringOp),
    Return(ReturnOp),
    Validate(ValidateOp),
    Now(NowOp),
    Eq { left: OperatorValue, right: OperatorValue },
    Ne { left: OperatorValue, right: OperatorValue },
    Gt { left: OperatorValue, right: OperatorValue },
    Gte { left: OperatorValue, right: OperatorValue },
    Lt { left: OperatorValue, right: OperatorValue },
    Lte { left: OperatorValue, right: OperatorValue },
    And { conditions: Vec<OperatorValue> },
    Or { conditions: Vec<OperatorValue> },
    Not { condition: OperatorValue },
    Add { operands: Vec<OperatorValue> },
    Subtract { left: OperatorValue, right: OperatorValue },
    Multiply { operands: Vec<OperatorValue> },
    Divide { left: OperatorValue, right: OperatorValue },
}

} // verus!
