//! The execution engine: the recursive evaluator for operator trees,
//! with its collaborator contracts.
//!
//! `eval_model` is the mathematical interpreter; `Executor::eval` is
//! proved to follow it exactly, step for step, including the storage
//! state it threads through every sub-expression.

pub mod traits;

use vstd::prelude::*;

use serde_json::Value as JsonNode;

use crate::operators::{Operator, OperatorValue};
use crate::pipeline::error::ErrModel;
use crate::pipeline::{Context, ExecutionError};
use crate::value::{
    dec_digits, obj_insert, obj_lookup, seq_model, strs_model, truthy, type_name_of, u64_to_string,
    val_eq, Val, Value,
};
use crate::pipeline::context::path_lookup;
use traits::{
    insert_model, delete_model, query_model, update_model, obj_insert_all, sort_entries_model,
    str_cmp, DatabaseProvider, DbModel, RequestContext, TimeProvider,
};

verus! {

/// The declared shape of serde_json's value type, which the trusted
/// conversion helpers pass around.
#[verifier::external_type_specification]
#[verifier::external_body]
pub struct ExJsonValue(JsonNode);

/// What a JSONPath query returns on a variable map: the matched values
/// in document order, or the parse error's message. The result depends
/// on the entries and the expression alone.
pub uninterp spec fn jsonpath_eval(vars: Seq<(Seq<char>, Val)>, path: Seq<char>) -> Result<
    Seq<Val>,
    Seq<char>,
>;

/// What JSON-Schema validation reports for a schema and a document:
/// the violation messages (empty when the document conforms), or the
/// schema compile error's message. The result depends on the two
/// values alone.
pub uninterp spec fn schema_verdict(schema: Val, data: Val) -> Result<Seq<Seq<char>>, Seq<char>>;

/// Relies on serde_json::Value's constructors: mirrors a value into
/// its serde_json shape, one variant at a time.
#[verifier::external_body]
fn value_to_json(v: &Value) -> JsonNode {
    match v {
        Value::Null => serde_json::Value::Null,
        Value::Bool(b) => serde_json::Value::Bool(*b),
        Value::Num(n) => serde_json::Value::Number((*n).into()),
        Value::Str(s) => serde_json::Value::String(s.clone()),
        Value::Arr(items) => serde_json::Value::Array(items.iter().map(value_to_json).collect()),
        Value::Obj(entries) => serde_json::Value::Object(
            entries.iter().map(|p| (p.0.clone(), value_to_json(&p.1))).collect(),
        ),
    }
}

/// Relies on serde_json::Value's accessors: mirrors a serde_json value
/// back, one variant at a time; a number outside the i64 range reads
/// as zero, which no value built by this crate produces.
#[verifier::external_body]
fn json_to_value(v: &JsonNode) -> Value {
    match v {
        serde_json::Value::Null => Value::Null,
        serde_json::Value::Bool(b) => Value::Bool(*b),
        serde_json::Value::Number(n) => Value::Num(n.as_i64().unwrap_or(0)),
        serde_json::Value::String(s) => Value::Str(s.clone()),
        serde_json::Value::Array(a) => Value::Arr(a.iter().map(json_to_value).collect()),
        serde_json::Value::Object(o) => Value::Obj(
            o.iter().map(|p| (p.0.clone(), json_to_value(p.1))).collect(),
        ),
    }
}

/// Relies on jsonpath_rust's `JsonPath::query`, with `value_to_json`
/// and `json_to_value` carrying the values across: runs the expression
/// against the variable map as one JSON object and hands back the
/// matches in document order, or the library's error message on a
/// malformed expression.
#[verifier::external_body]
fn jsonpath_query(ctx: &Context, path: &str) -> (r: Result<Vec<Value>, String>)
    ensures
        match r {
            Ok(vals) => jsonpath_eval(ctx@, path@) == Ok::<Seq<Val>, Seq<char>>(seq_model(vals@)),
            Err(m) => jsonpath_eval(ctx@, path@) == Err::<Seq<Val>, Seq<char>>(m@),
        },
{
    let mut doc = serde_json::Map::new();
    for p in ctx.variables() {
        doc.insert(p.0.clone(), value_to_json(&p.1));
    }
    let root = serde_json::Value::Object(doc);
    match jsonpath_rust::JsonPath::query(&root, path) {
        Ok(hits) => Ok(hits.into_iter().map(json_to_value).collect()),
        Err(e) => Err(e.to_string()),
    }
}

/// Relies on jsonschema's `validator_for`, `Validator::is_valid` and
/// `Validator::iter_errors`, with `value_to_json` carrying the two
/// values across: compiles the schema and reports the violation
/// messages for the document, or the compile error's message.
#[verifier::external_body]
fn schema_check(schema: &Value, data: &Value) -> (r: Result<Vec<String>, String>)
    ensures
        match r {
            Ok(errs) => schema_verdict(schema@, data@) == Ok::<Seq<Seq<char>>, Seq<char>>(
                strs_model(errs@),
            ),
            Err(m) => schema_verdict(schema@, data@) == Err::<Seq<Seq<char>>, Seq<char>>(m@),
        },
{
    let s = value_to_json(schema);
    let d = value_to_json(data);
    match jsonschema::validator_for(&s) {
        Ok(validator) => {
            if validator.is_valid(&d) {
                Ok(Vec::new())
            } else {
                Ok(validator.iter_errors(&d).map(|e| e.to_string()).collect())
            }
        },
        Err(e) => Err(e.to_string()),
    }
}

/// Truthiness of a value: null, false, zero and empty strings, arrays
/// and objects are false; everything else is true.
pub fn is_truthy(value: &Value) -> (r: bool)
    ensures
        r == truthy(value@),
{
    match value {
        Value::Null => false,
        Value::Bool(b) => *b,
        Value::Num(n) => *n != 0,
        Value::Str(s) => !s.as_str().is_empty(),
        Value::Arr(items) => items.len() != 0,
        Value::Obj(entries) => entries.len() != 0,
    }
}

/// The name of a value's type, for error messages.
pub fn value_type_name(value: &Value) -> (r: &'static str)
    ensures
        r@ == type_name_of(value@),
{
    match value {
        Value::Null => "null",
        Value::Bool(_) => "boolean",
        Value::Num(_) => "number",
        Value::Str(_) => "string",
        Value::Arr(_) => "array",
        Value::Obj(_) => "object",
    }
}

/// Ordering of two values, as compare_values returns it: only numbers
/// compare with numbers and strings with strings; anything else is a
/// type error.
pub open spec fn compare_model(l: Val, r: Val) -> Result<int, ErrModel> {
    match (l, r) {
        (Val::Num(x), Val::Num(y)) => Ok(
            if x < y {
                -1int
            } else if x == y {
                0int
            } else {
                1int
            },
        ),
        (Val::Str(x), Val::Str(y)) => Ok(str_cmp(x, y)),
        _ => Err(
            ErrModel::TypeError {
                message: "Cannot compare values of different types"@,
                expected: Some(type_name_of(l)),
                actual: Some(type_name_of(r)),
            },
        ),
    }
}

/// Compares two values for the ordering operators, as `compare_model`
/// states: -1, 0 or 1, or a type error on mixed or unordered types.
pub fn compare_values(left: &Value, right: &Value) -> (r: Result<i32, ExecutionError>)
    ensures
        match r {
            Ok(c) => compare_model(left@, right@) == Ok::<int, ErrModel>(c as int) && -1 <= c <= 1,
            Err(e) => compare_model(left@, right@) matches Err(m) && m == e@,
        },
{
    match (left, right) {
        (Value::Num(x), Value::Num(y)) => {
            if *x < *y {
                Ok(-1)
            } else if *x == *y {
                Ok(0)
            } else {
                Ok(1)
            }
        },
        (Value::Str(x), Value::Str(y)) => Ok(traits::str_cmp_exec(x.as_str(), y.as_str())),
        _ => Err(
            ExecutionError::type_error_with_types(
                "Cannot compare values of different types",
                value_type_name(left),
                value_type_name(right),
            ),
        ),
    }
}

/// Index of the first switch case whose `when` value equals `x`
/// structurally, or -1.
pub open spec fn switch_index(x: Val, cases: Seq<crate::operators::SwitchCase>) -> int
    decreases cases.len(),
{
    if cases.len() == 0 {
        -1
    } else if val_eq(x, cases[0].when@) {
        0
    } else {
        let r = switch_index(x, cases.drop_first());
        if r < 0 {
            -1
        } else {
            r + 1
        }
    }
}

/// The mathematical interpreter: what evaluating `ov` in context `ctx`
/// returns, and the storage state it leaves behind. `now` is the
/// clock's timestamp. Every arm mirrors one operator of the language.
pub open spec fn eval_model(
    now: Seq<char>,
    db: DbModel,
    ctx: Seq<(Seq<char>, Val)>,
    ov: OperatorValue,
) -> (Result<Val, ErrModel>, DbModel)
    decreases ov, 0nat,
{
    match ov {
        OperatorValue::Literal(v) => (Ok(v@), db),
        OperatorValue::Operator(op) => eval_op_model(now, db, ctx, *op),
    }
}

/// The interpreter's dispatch over one operator node.
pub open spec fn eval_op_model(
    now: Seq<char>,
    db: DbModel,
    ctx: Seq<(Seq<char>, Val)>,
    op: Operator,
) -> (Result<Val, ErrModel>, DbModel)
    decreases op, 0nat,
{
    match op {
        Operator::Get(g) => (
            match path_lookup(ctx, g.path@) {
                Some(v) => Ok(v),
                None => Err(ErrModel::PathNotFound { path: g.path@ }),
            },
            db,
        ),
        Operator::JsonPath(j) => (
            match jsonpath_eval(ctx, j.path@) {
                Ok(vals) => Ok(Val::Arr(vals)),
                Err(m) => Err(
                    ErrModel::Custom {
                        message: "JSONPath query failed for '"@ + j.path@ + "': "@ + m,
                    },
                ),
            },
            db,
        ),
        Operator::If(f) => {
            let (c, db1) = eval_model(now, db, ctx, f.condition);
            match c {
                Err(e) => (Err(e), db1),
                Ok(v) => if truthy(v) {
                    eval_model(now, db1, ctx, f.then_branch)
                } else {
                    match f.else_branch {
                        Some(e) => eval_model(now, db1, ctx, e),
                        None => (Ok(Val::Null), db1),
                    }
                },
            }
        },
        Operator::Switch(sw) => {
            let (c, db1) = eval_model(now, db, ctx, sw.on);
            match c {
                Err(e) => (Err(e), db1),
                Ok(x) => {
                    let j = switch_index(x, sw.cases@);
                    if 0 <= j < sw.cases@.len() {
                        eval_model(now, db1, ctx, sw.cases@[j].then_branch)
                    } else {
                        match sw.default {
                            Some(d) => eval_model(now, db1, ctx, d),
                            None => (Ok(Val::Null), db1),
                        }
                    }
                },
            }
        },
        Operator::Filter(fl) => {
            let (c, db1) = eval_model(now, db, ctx, fl.over);
            match c {
                Err(e) => (Err(e), db1),
                Ok(v) => match v {
                    Val::Arr(items) => {
                        let (fr, db2) = eval_filter_model(
                            now,
                            db1,
                            ctx,
                            items,
                            fl.condition,
                            Seq::empty(),
                        );
                        (
                            match fr {
                                Ok(kept) => Ok(Val::Arr(kept)),
                                Err(e) => Err(e),
                            },
                            db2,
                        )
                    },
                    _ => (
                        Err(
                            ErrModel::TypeError {
                                message: "Can only filter over an array"@,
                                expected: Some("array"@),
                                actual: Some(type_name_of(v)),
                            },
                        ),
                        db1,
                    ),
                },
            }
        },
        Operator::DbQuery(q) => {
            let sel = match q.select {
                Some(sv) => Some(strs_model(sv@)),
                None => None,
            };
            let so = match q.sort {
                Some(sv) => Some(sort_entries_model(sv@)),
                None => None,
            };
            match q.filter {
                Some(fv) => {
                    let (fr, db1) = eval_entries_model(now, db, ctx, fv@, Seq::empty());
                    match fr {
                        Err(e) => (Err(e), db1),
                        Ok(fm) => (
                            Ok(
                                Val::Arr(
                                    query_model(
                                        db1,
                                        q.collection@,
                                        Some(fm),
                                        sel,
                                        q.limit,
                                        q.skip,
                                        so,
                                    ),
                                ),
                            ),
                            db1,
                        ),
                    }
                },
                None => (
                    Ok(
                        Val::Arr(query_model(db, q.collection@, None, sel, q.limit, q.skip, so)),
                    ),
                    db,
                ),
            }
        },
        Operator::DbInsert(ins) => {
            let (dr, db1) = eval_entries_model(now, db, ctx, ins.document@, Seq::empty());
            match dr {
                Err(e) => (Err(e), db1),
                Ok(doc) => {
                    let (db2, stored) = insert_model(db1, ins.collection@, doc);
                    (Ok(stored), db2)
                },
            }
        },
        Operator::DbUpdate(up) => {
            let (fr, db1) = eval_entries_model(now, db, ctx, up.filter@, Seq::empty());
            match fr {
                Err(e) => (Err(e), db1),
                Ok(fm) => {
                    let (ur, db2) = eval_entries_model(now, db1, ctx, up.update@, Seq::empty());
                    match ur {
                        Err(e) => (Err(e), db2),
                        Ok(um) => {
                            let (db3, updated) = update_model(db2, up.collection@, fm, um);
                            (Ok(Val::Arr(updated)), db3)
                        },
                    }
                },
            }
        },
        Operator::DbDelete(del) => {
            let (fr, db1) = eval_entries_model(now, db, ctx, del.filter@, Seq::empty());
            match fr {
                Err(e) => (Err(e), db1),
                Ok(fm) => {
                    let (db2, deleted) = delete_model(db1, del.collection@, fm);
                    (Ok(Val::Arr(deleted)), db2)
                },
            }
        },
        Operator::Merge(m) => {
            let (mr, db1) = eval_merge_model(now, db, ctx, m.objects@, Seq::empty());
            (
                match mr {
                    Ok(entries) => Ok(Val::Obj(entries)),
                    Err(e) => Err(e),
                },
                db1,
            )
        },
        Operator::Exists(ex) => {
            let (c, db1) = eval_model(now, db, ctx, ex.value);
            (
                match c {
                    Err(e) => Err(e),
                    Ok(v) => Ok(Val::Bool(!(v is Null))),
                },
                db1,
            )
        },
        Operator::Return(ret) => {
            let (br, db1) = eval_model(now, db, ctx, ret.body);
            match br {
                Err(e) => (Err(e), db1),
                Ok(b) => {
                    let (hr, db2) = eval_entries_model(now, db1, ctx, ret.headers@, Seq::empty());
                    match hr {
                        Err(e) => (Err(e), db2),
                        Ok(hs) => (
                            Err(ErrModel::EarlyReturn { status: ret.status, headers: hs, body: b }),
                            db2,
                        ),
                    }
                },
            }
        },
        Operator::Validate(va) => {
            let (dr, db1) = eval_model(now, db, ctx, va.data);
            match dr {
                Err(e) => (Err(e), db1),
                Ok(d) => match schema_verdict(va.schema@, d) {
                    Err(m) => (
                        Err(ErrModel::Custom { message: "Failed to compile schema: "@ + m }),
                        db1,
                    ),
                    Ok(errs) => if errs.len() == 0 {
                        (Ok(d), db1)
                    } else {
                        match va.on_fail {
                            Some(h) => eval_model(now, db1, ctx, h),
                            None => (
                                Err(
                                    ErrModel::ValidationError {
                                        message: "Validation failed"@,
                                        errors: errs,
                                    },
                                ),
                                db1,
                            ),
                        }
                    },
                },
            }
        },
        Operator::Now(_) => (Ok(Val::Str(now)), db),
        Operator::Eq { left, right } => {
            let (l, db1) = eval_model(now, db, ctx, left);
            match l {
                Err(e) => (Err(e), db1),
                Ok(lv) => {
                    let (r, db2) = eval_model(now, db1, ctx, right);
                    (
                        match r {
                            Err(e) => Err(e),
                            Ok(rv) => Ok(Val::Bool(val_eq(lv, rv))),
                        },
                        db2,
                    )
                },
            }
        },
        Operator::Ne { left, right } => {
            let (l, db1) = eval_model(now, db, ctx, left);
            match l {
                Err(e) => (Err(e), db1),
                Ok(lv) => {
                    let (r, db2) = eval_model(now, db1, ctx, right);
                    (
                        match r {
                            Err(e) => Err(e),
                            Ok(rv) => Ok(Val::Bool(!val_eq(lv, rv))),
                        },
                        db2,
                    )
                },
            }
        },
        Operator::Gt { left, right } => {
            let (l, db1) = eval_model(now, db, ctx, left);
            match l {
                Err(e) => (Err(e), db1),
                Ok(lv) => {
                    let (r, db2) = eval_model(now, db1, ctx, right);
                    (
                        match r {
                            Err(e) => Err(e),
                            Ok(rv) => match compare_model(lv, rv) {
                                Err(e) => Err(e),
                                Ok(c) => Ok(Val::Bool(c > 0)),
                            },
                        },
                        db2,
                    )
                },
            }
        },
        Operator::Gte { left, right } => {
            let (l, db1) = eval_model(now, db, ctx, left);
            match l {
                Err(e) => (Err(e), db1),
                Ok(lv) => {
                    let (r, db2) = eval_model(now, db1, ctx, right);
                    (
                        match r {
                            Err(e) => Err(e),
                            Ok(rv) => match compare_model(lv, rv) {
                                Err(e) => Err(e),
                                Ok(c) => Ok(Val::Bool(c >= 0)),
                            },
                        },
                        db2,
                    )
                },
            }
        },
        Operator::Lt { left, right } => {
            let (l, db1) = eval_model(now, db, ctx, left);
            match l {
                Err(e) => (Err(e), db1),
                Ok(lv) => {
                    let (r, db2) = eval_model(now, db1, ctx, right);
                    (
                        match r {
                            Err(e) => Err(e),
                            Ok(rv) => match compare_model(lv, rv) {
                                Err(e) => Err(e),
                                Ok(c) => Ok(Val::Bool(c < 0)),
                            },
                        },
                        db2,
                    )
                },
            }
        },
        Operator::Lte { left, right } => {
            let (l, db1) = eval_model(now, db, ctx, left);
            match l {
                Err(e) => (Err(e), db1),
                Ok(lv) => {
                    let (r, db2) = eval_model(now, db1, ctx, right);
                    (
                        match r {
                            Err(e) => Err(e),
                            Ok(rv) => match compare_model(lv, rv) {
                                Err(e) => Err(e),
                                Ok(c) => Ok(Val::Bool(c <= 0)),
                            },
                        },
                        db2,
                    )
                },
            }
        },
        Operator::And { conditions } => eval_and_model(now, db, ctx, conditions@),
        Operator::Or { conditions } => eval_or_model(now, db, ctx, conditions@),
        Operator::Not { condition } => {
            let (c, db1) = eval_model(now, db, ctx, condition);
            (
                match c {
                    Err(e) => Err(e),
                    Ok(v) => Ok(Val::Bool(!truthy(v))),
                },
                db1,
            )
        },
        Operator::MapOver(m) => {
            let (c, db1) = eval_model(now, db, ctx, m.over);
            match c {
                Err(e) => (Err(e), db1),
                Ok(v) => match v {
                    Val::Arr(items) => {
                        let (mr, db2) = eval_map_model(
                            now,
                            db1,
                            ctx,
                            items,
                            m.transform,
                            Seq::empty(),
                        );
                        (
                            match mr {
                                Ok(results) => Ok(Val::Arr(results)),
                                Err(e) => Err(e),
                            },
                            db2,
                        )
                    },
                    _ => (
                        Err(
                            ErrModel::TypeError {
                                message: "Can only map over an array"@,
                                expected: Some("array"@),
                                actual: Some(type_name_of(v)),
                            },
                        ),
                        db1,
                    ),
                },
            }
        },
        Operator::Reduce(red) => {
            let (c, db1) = eval_model(now, db, ctx, red.over);
            match c {
                Err(e) => (Err(e), db1),
                Ok(v) => match v {
                    Val::Arr(items) => eval_reduce_model(now, db1, ctx, items, red.with, red.initial@),
                    _ => (
                        Err(
                            ErrModel::TypeError {
                                message: "Can only reduce over an array"@,
                                expected: Some("array"@),
                                actual: Some(type_name_of(v)),
                            },
                        ),
                        db1,
                    ),
                },
            }
        },
        Operator::RenderString(r) => (
            match render_model(ctx, r.template@) {
                Ok(cs) => Ok(Val::Str(cs)),
                Err(e) => Err(e),
            },
            db,
        ),
        Operator::Add { operands } => eval_sum_model(now, db, ctx, operands@, 0),
        Operator::Multiply { operands } => eval_product_model(now, db, ctx, operands@, 1),
        Operator::Subtract { left, right } => {
            let (l, db1) = eval_model(now, db, ctx, left);
            match l {
                Err(e) => (Err(e), db1),
                Ok(lv) => {
                    let (r, db2) = eval_model(now, db1, ctx, right);
                    (
                        match r {
                            Err(e) => Err(e),
                            Ok(rv) => match (lv, rv) {
                                (Val::Num(x), Val::Num(y)) => if i64::MIN <= x - y <= i64::MAX {
                                    Ok(Val::Num(x - y))
                                } else {
                                    Err(ErrModel::Custom { message: "Arithmetic overflow"@ })
                                },
                                _ => Err(arith_type_error("Can only subtract numbers"@, lv, rv)),
                            },
                        },
                        db2,
                    )
                },
            }
        },
        Operator::Divide { left, right } => {
            let (l, db1) = eval_model(now, db, ctx, left);
            match l {
                Err(e) => (Err(e), db1),
                Ok(lv) => {
                    let (r, db2) = eval_model(now, db1, ctx, right);
                    (
                        match r {
                            Err(e) => Err(e),
                            Ok(rv) => match (lv, rv) {
                                (Val::Num(x), Val::Num(y)) => if y == 0 {
                                    Err(ErrModel::DivisionByZero)
                                } else if div_trunc(x, y) < i64::MIN || div_trunc(x, y)
                                    > i64::MAX {
                                    Err(ErrModel::Custom { message: "Arithmetic overflow"@ })
                                } else {
                                    Ok(Val::Num(div_trunc(x, y)))
                                },
                                _ => Err(arith_type_error("Can only divide numbers"@, lv, rv)),
                            },
                        },
                        db2,
                    )
                },
            }
        },
    }
}

/// The type error an arithmetic operator raises on a non-number: the
/// first operand that is not a number is reported.
pub open spec fn arith_type_error(message: Seq<char>, lv: Val, rv: Val) -> ErrModel {
    ErrModel::TypeError {
        message: message,
        expected: Some("number"@),
        actual: Some(
            if !(lv is Num) {
                type_name_of(lv)
            } else {
                type_name_of(rv)
            },
        ),
    }
}

/// Truncated integer division, as the machine's division behaves.
pub open spec fn div_trunc(x: int, d: int) -> int {
    if x == 0 {
        0
    } else if x > 0 && d > 0 {
        x / d
    } else if x < 0 && d < 0 {
        (x * -1) / (d * -1)
    } else if x < 0 {
        ((x * -1) / d) * -1
    } else {
        (x / (d * -1)) * -1
    }
}

/// Short-circuit conjunction: false at the first non-truthy condition,
/// true when the list is exhausted; an empty list is true.
pub open spec fn eval_and_model(
    now: Seq<char>,
    db: DbModel,
    ctx: Seq<(Seq<char>, Val)>,
    conds: Seq<OperatorValue>,
) -> (Result<Val, ErrModel>, DbModel)
    decreases conds, 0nat,
{
    if conds.len() == 0 {
        (Ok(Val::Bool(true)), db)
    } else {
        let (c, db1) = eval_model(now, db, ctx, conds[0]);
        match c {
            Err(e) => (Err(e), db1),
            Ok(v) => if !truthy(v) {
                (Ok(Val::Bool(false)), db1)
            } else {
                eval_and_model(now, db1, ctx, conds.drop_first())
            },
        }
    }
}

/// Short-circuit disjunction: true at the first truthy condition,
/// false when the list is exhausted; an empty list is false.
pub open spec fn eval_or_model(
    now: Seq<char>,
    db: DbModel,
    ctx: Seq<(Seq<char>, Val)>,
    conds: Seq<OperatorValue>,
) -> (Result<Val, ErrModel>, DbModel)
    decreases conds, 0nat,
{
    if conds.len() == 0 {
        (Ok(Val::Bool(false)), db)
    } else {
        let (c, db1) = eval_model(now, db, ctx, conds[0]);
        match c {
            Err(e) => (Err(e), db1),
            Ok(v) => if truthy(v) {
                (Ok(Val::Bool(true)), db1)
            } else {
                eval_or_model(now, db1, ctx, conds.drop_first())
            },
        }
    }
}

/// The values of a named expression map, evaluated left to right into
/// `acc`; a later entry of the same name overwrites the earlier one.
pub open spec fn eval_entries_model(
    now: Seq<char>,
    db: DbModel,
    ctx: Seq<(Seq<char>, Val)>,
    entries: Seq<(String, OperatorValue)>,
    acc: Seq<(Seq<char>, Val)>,
) -> (Result<Seq<(Seq<char>, Val)>, ErrModel>, DbModel)
    decreases entries, 0nat,
{
    if entries.len() == 0 {
        (Ok(acc), db)
    } else {
        let (c, db1) = eval_model(now, db, ctx, entries[0].1);
        match c {
            Err(e) => (Err(e), db1),
            Ok(v) => eval_entries_model(
                now,
                db1,
                ctx,
                entries.drop_first(),
                obj_insert(acc, entries[0].0@, v),
            ),
        }
    }
}

/// The objects of a `$merge`, folded left to right into `acc`; a
/// non-object operand is a type error.
pub open spec fn eval_merge_model(
    now: Seq<char>,
    db: DbModel,
    ctx: Seq<(Seq<char>, Val)>,
    objects: Seq<OperatorValue>,
    acc: Seq<(Seq<char>, Val)>,
) -> (Result<Seq<(Seq<char>, Val)>, ErrModel>, DbModel)
    decreases objects, 0nat,
{
    if objects.len() == 0 {
        (Ok(acc), db)
    } else {
        let (c, db1) = eval_model(now, db, ctx, objects[0]);
        match c {
            Err(e) => (Err(e), db1),
            Ok(v) => match v {
                Val::Obj(es) => eval_merge_model(
                    now,
                    db1,
                    ctx,
                    objects.drop_first(),
                    obj_insert_all(acc, es),
                ),
                _ => (
                    Err(
                        ErrModel::TypeError {
                            message: "Can only merge objects"@,
                            expected: Some("object"@),
                            actual: Some(type_name_of(v)),
                        },
                    ),
                    db1,
                ),
            },
        }
    }
}

/// The elements a `$filter` keeps: each element is bound as `item` and
/// kept when the condition is truthy.
pub open spec fn eval_filter_model(
    now: Seq<char>,
    db: DbModel,
    ctx: Seq<(Seq<char>, Val)>,
    items: Seq<Val>,
    cond: OperatorValue,
    acc: Seq<Val>,
) -> (Result<Seq<Val>, ErrModel>, DbModel)
    decreases cond, items.len(),
{
    if items.len() == 0 {
        (Ok(acc), db)
    } else {
        let (c, db1) = eval_model(now, db, obj_insert(ctx, "item"@, items[0]), cond);
        match c {
            Err(e) => (Err(e), db1),
            Ok(v) => eval_filter_model(
                now,
                db1,
                ctx,
                items.drop_first(),
                cond,
                if truthy(v) {
                    acc.push(items[0])
                } else {
                    acc
                },
            ),
        }
    }
}


/// The elements of a `$map`, each transformed with the element bound
/// as `item`.
pub open spec fn eval_map_model(
    now: Seq<char>,
    db: DbModel,
    ctx: Seq<(Seq<char>, Val)>,
    items: Seq<Val>,
    body: OperatorValue,
    acc: Seq<Val>,
) -> (Result<Seq<Val>, ErrModel>, DbModel)
    decreases body, items.len(),
{
    if items.len() == 0 {
        (Ok(acc), db)
    } else {
        let (c, db1) = eval_model(now, db, obj_insert(ctx, "item"@, items[0]), body);
        match c {
            Err(e) => (Err(e), db1),
            Ok(v) => eval_map_model(now, db1, ctx, items.drop_first(), body, acc.push(v)),
        }
    }
}

/// The fold of a `$reduce`: the element is bound as `item`, the
/// running value as `accumulator`.
pub open spec fn eval_reduce_model(
    now: Seq<char>,
    db: DbModel,
    ctx: Seq<(Seq<char>, Val)>,
    items: Seq<Val>,
    body: OperatorValue,
    acc: Val,
) -> (Result<Val, ErrModel>, DbModel)
    decreases body, items.len(),
{
    if items.len() == 0 {
        (Ok(acc), db)
    } else {
        let ctx2 = obj_insert(obj_insert(ctx, "item"@, items[0]), "accumulator"@, acc);
        let (c, db1) = eval_model(now, db, ctx2, body);
        match c {
            Err(e) => (Err(e), db1),
            Ok(v) => eval_reduce_model(now, db1, ctx, items.drop_first(), body, v),
        }
    }
}

/// The numeric fold of `$add`, with identity 0; a non-number is a type
/// error, and a sum outside the machine range an overflow.
pub open spec fn eval_sum_model(
    now: Seq<char>,
    db: DbModel,
    ctx: Seq<(Seq<char>, Val)>,
    operands: Seq<OperatorValue>,
    acc: int,
) -> (Result<Val, ErrModel>, DbModel)
    decreases operands, 0nat,
{
    if operands.len() == 0 {
        (Ok(Val::Num(acc)), db)
    } else {
        let (c, db1) = eval_model(now, db, ctx, operands[0]);
        match c {
            Err(e) => (Err(e), db1),
            Ok(v) => match v {
                Val::Num(x) => if i64::MIN <= acc + x <= i64::MAX {
                    eval_sum_model(now, db1, ctx, operands.drop_first(), acc + x)
                } else {
                    (Err(ErrModel::Custom { message: "Arithmetic overflow"@ }), db1)
                },
                _ => (
                    Err(
                        ErrModel::TypeError {
                            message: "Can only add numbers"@,
                            expected: Some("number"@),
                            actual: Some(type_name_of(v)),
                        },
                    ),
                    db1,
                ),
            },
        }
    }
}

/// The numeric fold of `$multiply`, with identity 1.
pub open spec fn eval_product_model(
    now: Seq<char>,
    db: DbModel,
    ctx: Seq<(Seq<char>, Val)>,
    operands: Seq<OperatorValue>,
    acc: int,
) -> (Result<Val, ErrModel>, DbModel)
    decreases operands, 0nat,
{
    if operands.len() == 0 {
        (Ok(Val::Num(acc)), db)
    } else {
        let (c, db1) = eval_model(now, db, ctx, operands[0]);
        match c {
            Err(e) => (Err(e), db1),
            Ok(v) => match v {
                Val::Num(x) => if i64::MIN <= acc * x <= i64::MAX {
                    eval_product_model(now, db1, ctx, operands.drop_first(), acc * x)
                } else {
                    (Err(ErrModel::Custom { message: "Arithmetic overflow"@ }), db1)
                },
                _ => (
                    Err(
                        ErrModel::TypeError {
                            message: "Can only multiply numbers"@,
                            expected: Some("number"@),
                            actual: Some(type_name_of(v)),
                        },
                    ),
                    db1,
                ),
            },
        }
    }
}


/// Position of the first `cc` pair in `t`, or -1.
pub open spec fn first_pair(t: Seq<char>, c: char) -> int
    decreases t.len(),
{
    if t.len() < 2 {
        -1
    } else if t[0] == c && t[1] == c {
        0
    } else {
        let r = first_pair(t.drop_first(), c);
        if r < 0 {
            -1
        } else {
            r + 1
        }
    }
}

/// The character sequence of a scalar value: text as it is, a number
/// in decimal, booleans and null by name; a container has none.
pub open spec fn scalar_chars(v: Val) -> Option<Seq<char>> {
    match v {
        Val::Null => Some("null"@),
        Val::Bool(b) => Some(
            if b {
                "true"@
            } else {
                "false"@
            },
        ),
        Val::Num(n) => Some(int_chars(n)),
        Val::Str(cs) => Some(cs),
        _ => None,
    }
}

/// The decimal rendering of an integer, with a sign when negative.
pub open spec fn int_chars(n: int) -> Seq<char> {
    if n < 0 {
        seq!['-'] + dec_digits((-n) as nat)
    } else {
        dec_digits(n as nat)
    }
}

/// What rendering a template returns: each `{{path}}` placeholder is
/// replaced with the looked-up value rendered as a scalar; an
/// unterminated placeholder, an unresolved path and a non-scalar value
/// are template errors.
#[verifier::opaque]
pub open spec fn render_model(vars: Seq<(Seq<char>, Val)>, t: Seq<char>) -> Result<
    Seq<char>,
    ErrModel,
>
    decreases t.len(),
{
    let i = first_pair(t, '{');
    if i < 0 || i + 2 > t.len() {
        Ok(t)
    } else {
        let rest = t.skip(i + 2);
        let j = first_pair(rest, '}');
        if j < 0 || j + 2 > rest.len() {
            Err(ErrModel::TemplateError { message: "Unterminated placeholder"@ })
        } else {
            let path = rest.take(j);
            match path_lookup(vars, path) {
                None => Err(
                    ErrModel::TemplateError { message: "Unresolved path in template: "@ + path },
                ),
                Some(v) => match scalar_chars(v) {
                    None => Err(
                        ErrModel::TemplateError { message: "Cannot render a non-scalar value"@ },
                    ),
                    Some(cs) => match render_model(vars, rest.skip(j + 2)) {
                        Ok(tail) => Ok(t.take(i) + cs + tail),
                        Err(e) => Err(e),
                    },
                },
            }
        }
    }
}

/// The model of an evaluation result.
pub open spec fn res_model(r: Result<Value, ExecutionError>) -> Result<Val, ErrModel> {
    match r {
        Ok(v) => Ok(v@),
        Err(e) => Err(e@),
    }
}

/// If position `j` holds the first case matching `x`, `switch_index`
/// finds it.
proof fn lemma_switch_index_at(x: Val, cases: Seq<crate::operators::SwitchCase>, j: int)
    requires
        0 <= j < cases.len(),
        val_eq(x, cases[j].when@),
        forall|k: int| 0 <= k < j ==> !val_eq(x, (#[trigger] cases[k]).when@),
    ensures
        switch_index(x, cases) == j,
    decreases j,
{
    if j > 0 {
        assert forall|i: int| 1 <= i < cases.len() implies cases.drop_first()[i - 1] == cases[i] by {}
        lemma_switch_index_at(x, cases.drop_first(), j - 1);
    }
}

/// With no matching case, `switch_index` reports none.
proof fn lemma_switch_index_none(x: Val, cases: Seq<crate::operators::SwitchCase>)
    requires
        forall|k: int| 0 <= k < cases.len() ==> !val_eq(x, (#[trigger] cases[k]).when@),
    ensures
        switch_index(x, cases) == -1,
    decreases cases.len(),
{
    if cases.len() > 0 {
        assert forall|i: int| 1 <= i < cases.len() implies cases.drop_first()[i - 1] == cases[i] by {}
        lemma_switch_index_none(x, cases.drop_first());
    }
}

/// The pipeline executor.
///
/// The executor owns its collaborators and evaluates operator trees in
/// their context; its one contract is that `eval` follows `eval_model`
/// exactly, result and storage state alike.
pub struct Executor<D: DatabaseProvider, T: TimeProvider, R: RequestContext> {
    /// Storage provider for the `$db...` operators.
    pub database: D,
    /// Clock provider for the `$now` operator.
    pub time: T,
    /// Request surface with params, query, headers and body.
    pub request: R,
}

impl<D: DatabaseProvider, T: TimeProvider, R: RequestContext> Executor<D, T, R> {
    /// An executor over the given collaborators.
    pub fn new(database: D, time: T, request: R) -> (r: Executor<D, T, R>)
        ensures
            r.database == database,
            r.time == time,
            r.request == request,
    {
        Executor { database, time, request }
    }

    /// Evaluates an operator value in a context, exactly as
    /// `eval_model` states: a literal is copied, an operator is
    /// dispatched, and the storage state moves to the model's state.
    pub fn eval(&mut self, context: &Context, value: &OperatorValue) -> (r: Result<
        Value,
        ExecutionError,
    >)
        ensures
            ({
                let (res, db2) = eval_model(
                    old(self).time.iso_model(),
                    old(self).database.db_model(),
                    context@,
                    *value,
                );
                &&& final(self).database.db_model() == db2
                &&& final(self).time == old(self).time
                &&& final(self).request == old(self).request
                &&& res_model(r) == res
            }),
        decreases value, 0nat,
    {
        match value {
            OperatorValue::Literal(v) => Ok(v.clone()),
            OperatorValue::Operator(op) => {
                proof {
                    assert(decreases_to!(value => value->Operator_0));
                }
                self.eval_operator(context, op)
            },
        }
    }

    /// Dispatches one operator node, exactly as `eval_op_model`
    /// states.
    #[verifier::rlimit(100)]
    pub fn eval_operator(&mut self, context: &Context, operator: &Operator) -> (r: Result<
        Value,
        ExecutionError,
    >)
        ensures
            ({
                let (res, db2) = eval_op_model(
                    old(self).time.iso_model(),
                    old(self).database.db_model(),
                    context@,
                    *operator,
                );
                &&& final(self).database.db_model() == db2
                &&& final(self).time == old(self).time
                &&& final(self).request == old(self).request
                &&& res_model(r) == res
            }),
        decreases operator, 1nat,
    {
        match operator {
            Operator::Get(g) => {
                match context.get_path(g.path.as_str()) {
                    Some(v) => Ok(v.clone()),
                    None => Err(ExecutionError::path_not_found(g.path.as_str())),
                }
            },
            Operator::JsonPath(j) => {
                match jsonpath_query(context, j.path.as_str()) {
                    Ok(vals) => Ok(Value::Arr(vals)),
                    Err(m) => {
                        let mut msg = String::from_str("JSONPath query failed for '");
                        msg.append(j.path.as_str());
                        msg.append("': ");
                        msg.append(m.as_str());
                        Err(ExecutionError::custom(msg))
                    },
                }
            },
            Operator::If(f) => {
                proof {
                    assert(decreases_to!(operator => operator->If_0));
                }
                let c = self.eval(context, &f.condition)?;
                if is_truthy(&c) {
                    self.eval(context, &f.then_branch)
                } else {
                    match &f.else_branch {
                        Some(e) => self.eval(context, e),
                        None => Ok(Value::Null),
                    }
                }
            },
            Operator::Switch(sw) => {
                proof {
                    assert(decreases_to!(operator => operator->Switch_0));
                }
                let x = self.eval(context, &sw.on)?;
                let ghost xm = x@;
                let ghost csm = sw.cases@;
                let ghost cm = context@;
                let ghost db1 = self.database.db_model();
                let mut i: usize = 0;
                while i < sw.cases.len()
                    invariant
                        i <= sw.cases.len(),
                        *operator == Operator::Switch(*sw),
                        cm == context@,
                        csm == sw.cases@,
                        xm == x@,
                        self.time == old(self).time,
                        self.request == old(self).request,
                        self.database.db_model() == db1,
                        eval_model(
                            old(self).time.iso_model(),
                            old(self).database.db_model(),
                            cm,
                            sw.on,
                        ) == (Ok::<Val, ErrModel>(xm), db1),
                        forall|k: int| 0 <= k < i ==> !val_eq(xm, (#[trigger] csm[k]).when@),
                    decreases sw.cases.len() - i,
                {
                    if crate::value::value_eq(&x, &sw.cases[i].when) {
                        proof {
                            lemma_switch_index_at(xm, csm, i as int);
                            assert(decreases_to!(operator => operator->Switch_0));
                            assert(decreases_to!(operator->Switch_0 => sw.cases@[i as int].then_branch));
                        }
                        return self.eval(context, &sw.cases[i].then_branch);
                    }
                    i = i + 1;
                }
                proof {
                    lemma_switch_index_none(xm, csm);
                }
                match &sw.default {
                    Some(d) => self.eval(context, d),
                    None => Ok(Value::Null),
                }
            },
            Operator::Filter(fl) => {
                proof {
                    assert(decreases_to!(operator => operator->Filter_0));
                }
                let over = self.eval(context, &fl.over)?;
                match over {
                    Value::Arr(items) => {
                        let kept = self.eval_filter_items(context, &items, &fl.condition)?;
                        Ok(Value::Arr(kept))
                    },
                    other => Err(
                        ExecutionError::type_error_with_types(
                            "Can only filter over an array",
                            "array",
                            value_type_name(&other),
                        ),
                    ),
                }
            },
            Operator::DbQuery(q) => {
                proof {
                    assert(decreases_to!(operator => operator->DbQuery_0));
                }
                let docs = match &q.filter {
                    Some(fv) => {
                        proof {
                            assert(decreases_to!(operator->DbQuery_0 => fv@));
                        }
                        let evaluated = self.eval_entries(context, fv)?;
                        match self.database.query(
                            q.collection.as_str(),
                            Some(&evaluated),
                            q.select.as_ref(),
                            q.limit,
                            q.skip,
                            q.sort.as_ref(),
                        ) {
                            Ok(ds) => ds,
                            Err(e) => {
                                return Err(e);
                            },
                        }
                    },
                    None => match self.database.query(
                        q.collection.as_str(),
                        None,
                        q.select.as_ref(),
                        q.limit,
                        q.skip,
                        q.sort.as_ref(),
                    ) {
                        Ok(ds) => ds,
                        Err(e) => {
                            return Err(e);
                        },
                    },
                };
                Ok(Value::Arr(docs))
            },
            Operator::DbInsert(ins) => {
                proof {
                    assert(decreases_to!(operator => operator->DbInsert_0));
                    assert(decreases_to!(operator->DbInsert_0 => ins.document@));
                }
                let evaluated = self.eval_entries(context, &ins.document)?;
                match self.database.insert(ins.collection.as_str(), &evaluated) {
                    Ok(d) => Ok(d),
                    Err(e) => Err(e),
                }
            },
            Operator::DbUpdate(up) => {
                proof {
                    assert(decreases_to!(operator => operator->DbUpdate_0));
                    assert(decreases_to!(operator->DbUpdate_0 => up.filter@));
                    assert(decreases_to!(operator->DbUpdate_0 => up.update@));
                }
                let fv = self.eval_entries(context, &up.filter)?;
                let uv = self.eval_entries(context, &up.update)?;
                match self.database.update(up.collection.as_str(), &fv, &uv) {
                    Ok(ds) => Ok(Value::Arr(ds)),
                    Err(e) => Err(e),
                }
            },
            Operator::DbDelete(del) => {
                proof {
                    assert(decreases_to!(operator => operator->DbDelete_0));
                    assert(decreases_to!(operator->DbDelete_0 => del.filter@));
                }
                let fv = self.eval_entries(context, &del.filter)?;
                match self.database.delete(del.collection.as_str(), &fv) {
                    Ok(ds) => Ok(Value::Arr(ds)),
                    Err(e) => Err(e),
                }
            },
            Operator::Merge(m) => {
                proof {
                    assert(decreases_to!(operator => operator->Merge_0));
                    assert(decreases_to!(operator->Merge_0 => m.objects@));
                }
                let entries = self.eval_merge_items(context, &m.objects)?;
                Ok(Value::Obj(entries))
            },
            Operator::Exists(ex) => {
                proof {
                    assert(decreases_to!(operator => operator->Exists_0));
                }
                let v = self.eval(context, &ex.value)?;
                Ok(Value::Bool(!matches!(v, Value::Null)))
            },
            Operator::Return(ret) => {
                proof {
                    assert(decreases_to!(operator => operator->Return_0));
                    assert(decreases_to!(operator->Return_0 => ret.headers@));
                }
                let b = self.eval(context, &ret.body)?;
                let hs = self.eval_entries(context, &ret.headers)?;
                Err(ExecutionError::EarlyReturn { status: ret.status, headers: hs, body: b })
            },
            Operator::Validate(va) => {
                proof {
                    assert(decreases_to!(operator => operator->Validate_0));
                }
                let d = self.eval(context, &va.data)?;
                match schema_check(&va.schema, &d) {
                    Err(m) => {
                        let mut msg = String::from_str("Failed to compile schema: ");
                        msg.append(m.as_str());
                        Err(ExecutionError::custom(msg))
                    },
                    Ok(errs) => {
                        if errs.len() == 0 {
                            Ok(d)
                        } else {
                            match &va.on_fail {
                                Some(h) => self.eval(context, h),
                                None => Err(
                                    ExecutionError::validation_error("Validation failed", errs),
                                ),
                            }
                        }
                    },
                }
            },
            Operator::Now(_) => Ok(Value::Str(self.time.now())),
            Operator::Eq { left, right } => {
                proof {
                    assert(decreases_to!(operator => operator->Eq_left));
                    assert(decreases_to!(operator => operator->Eq_right));
                }
                let l = self.eval(context, left)?;
                let r = self.eval(context, right)?;
                Ok(Value::Bool(crate::value::value_eq(&l, &r)))
            },
            Operator::Ne { left, right } => {
                proof {
                    assert(decreases_to!(operator => operator->Ne_left));
                    assert(decreases_to!(operator => operator->Ne_right));
                }
                let l = self.eval(context, left)?;
                let r = self.eval(context, right)?;
                Ok(Value::Bool(!crate::value::value_eq(&l, &r)))
            },
            Operator::Gt { left, right } => {
                proof {
                    assert(decreases_to!(operator => operator->Gt_left));
                    assert(decreases_to!(operator => operator->Gt_right));
                }
                let l = self.eval(context, left)?;
                let r = self.eval(context, right)?;
                match compare_values(&l, &r) {
                    Ok(c) => Ok(Value::Bool(c > 0)),
                    Err(e) => Err(e),
                }
            },
            Operator::Gte { left, right } => {
                proof {
                    assert(decreases_to!(operator => operator->Gte_left));
                    assert(decreases_to!(operator => operator->Gte_right));
                }
                let l = self.eval(context, left)?;
                let r = self.eval(context, right)?;
                match compare_values(&l, &r) {
                    Ok(c) => Ok(Value::Bool(c >= 0)),
                    Err(e) => Err(e),
                }
            },
            Operator::Lt { left, right } => {
                proof {
                    assert(decreases_to!(operator => operator->Lt_left));
                    assert(decreases_to!(operator => operator->Lt_right));
                }
                let l = self.eval(context, left)?;
                let r = self.eval(context, right)?;
                match compare_values(&l, &r) {
                    Ok(c) => Ok(Value::Bool(c < 0)),
                    Err(e) => Err(e),
                }
            },
            Operator::Lte { left, right } => {
                proof {
                    assert(decreases_to!(operator => operator->Lte_left));
                    assert(decreases_to!(operator => operator->Lte_right));
                }
                let l = self.eval(context, left)?;
                let r = self.eval(context, right)?;
                match compare_values(&l, &r) {
                    Ok(c) => Ok(Value::Bool(c <= 0)),
                    Err(e) => Err(e),
                }
            },
            Operator::And { conditions } => {
                proof {
                    assert(decreases_to!(operator => operator->And_conditions));
                }
                self.eval_and(context, conditions)
            },
            Operator::Or { conditions } => {
                proof {
                    assert(decreases_to!(operator => operator->Or_conditions));
                }
                self.eval_or(context, conditions)
            },
            Operator::Not { condition } => {
                proof {
                    assert(decreases_to!(operator => operator->Not_condition));
                }
                let v = self.eval(context, condition)?;
                Ok(Value::Bool(!is_truthy(&v)))
            },
            Operator::MapOver(m) => {
                proof {
                    assert(decreases_to!(operator => operator->MapOver_0));
                }
                let over = self.eval(context, &m.over)?;
                match over {
                    Value::Arr(items) => {
                        let results = self.eval_map_items(context, &items, &m.transform)?;
                        Ok(Value::Arr(results))
                    },
                    other => Err(
                        ExecutionError::type_error_with_types(
                            "Can only map over an array",
                            "array",
                            value_type_name(&other),
                        ),
                    ),
                }
            },
            Operator::Reduce(red) => {
                proof {
                    assert(decreases_to!(operator => operator->Reduce_0));
                }
                let over = self.eval(context, &red.over)?;
                match over {
                    Value::Arr(items) => self.eval_reduce_items(
                        context,
                        &items,
                        &red.with,
                        &red.initial,
                    ),
                    other => Err(
                        ExecutionError::type_error_with_types(
                            "Can only reduce over an array",
                            "array",
                            value_type_name(&other),
                        ),
                    ),
                }
            },
            Operator::RenderString(r) => {
                match render_template(context, r.template.as_str()) {
                    Ok(rendered) => Ok(Value::Str(rendered)),
                    Err(e) => Err(e),
                }
            },
            Operator::Add { operands } => {
                proof {
                    assert(decreases_to!(operator => operator->Add_operands));
                }
                self.eval_sum(context, operands)
            },
            Operator::Multiply { operands } => {
                proof {
                    assert(decreases_to!(operator => operator->Multiply_operands));
                }
                self.eval_product(context, operands)
            },
            Operator::Subtract { left, right } => {
                proof {
                    assert(decreases_to!(operator => operator->Subtract_left));
                    assert(decreases_to!(operator => operator->Subtract_right));
                }
                let l = self.eval(context, left)?;
                let r = self.eval(context, right)?;
                match (&l, &r) {
                    (Value::Num(x), Value::Num(y)) => match x.checked_sub(*y) {
                        Some(d) => Ok(Value::Num(d)),
                        None => Err(
                            ExecutionError::custom(String::from_str("Arithmetic overflow")),
                        ),
                    },
                    _ => Err(
                        ExecutionError::type_error_with_types(
                            "Can only subtract numbers",
                            "number",
                            if matches!(l, Value::Num(_)) {
                                value_type_name(&r)
                            } else {
                                value_type_name(&l)
                            },
                        ),
                    ),
                }
            },
            Operator::Divide { left, right } => {
                proof {
                    assert(decreases_to!(operator => operator->Divide_left));
                    assert(decreases_to!(operator => operator->Divide_right));
                }
                let l = self.eval(context, left)?;
                let r = self.eval(context, right)?;
                match (&l, &r) {
                    (Value::Num(x), Value::Num(y)) => {
                        if *y == 0 {
                            Err(ExecutionError::DivisionByZero)
                        } else {
                            match x.checked_div(*y) {
                                Some(q) => Ok(Value::Num(q)),
                                None => Err(
                                    ExecutionError::custom(
                                        String::from_str("Arithmetic overflow"),
                                    ),
                                ),
                            }
                        }
                    },
                    _ => Err(
                        ExecutionError::type_error_with_types(
                            "Can only divide numbers",
                            "number",
                            if matches!(l, Value::Num(_)) {
                                value_type_name(&r)
                            } else {
                                value_type_name(&l)
                            },
                        ),
                    ),
                }
            },
        }
    }

    /// Short-circuit conjunction, as `eval_and_model` states.
    fn eval_and(&mut self, context: &Context, conds: &Vec<OperatorValue>) -> (r: Result<
        Value,
        ExecutionError,
    >)
        ensures
            ({
                let (res, db2) = eval_and_model(
                    old(self).time.iso_model(),
                    old(self).database.db_model(),
                    context@,
                    conds@,
                );
                &&& final(self).database.db_model() == db2
                &&& final(self).time == old(self).time
                &&& final(self).request == old(self).request
                &&& res_model(r) == res
            }),
        decreases conds@, 0nat,
    {
        let ghost now = self.time.iso_model();
        let ghost db0 = self.database.db_model();
        let ghost cm = context@;
        let ghost t0 = self.time;
        let ghost rq0 = self.request;
        proof {
            assert(conds@.skip(0) =~= conds@);
        }
        let mut i: usize = 0;
        while i < conds.len()
            invariant
                i <= conds.len(),
                self.time == t0,
                self.request == rq0,
                now == t0.iso_model(),
                t0 == old(self).time,
                rq0 == old(self).request,
                db0 == old(self).database.db_model(),
                cm == context@,
                eval_and_model(now, db0, cm, conds@) == eval_and_model(
                    now,
                    self.database.db_model(),
                    cm,
                    conds@.skip(i as int),
                ),
            decreases conds.len() - i,
        {
            proof {
                assert(conds@.skip(i as int)[0] == conds@[i as int]);
                assert(conds@.skip(i as int).drop_first() =~= conds@.skip(i + 1));
                assert(decreases_to!(conds@ => conds@[i as int]));
            }
            let c = self.eval(context, &conds[i]);
            match c {
                Err(e) => {
                    return Err(e);
                },
                Ok(v) => {
                    if !is_truthy(&v) {
                        return Ok(Value::Bool(false));
                    }
                },
            }
            i = i + 1;
        }
        proof {
            assert(conds@.skip(conds@.len() as int).len() == 0);
        }
        Ok(Value::Bool(true))
    }

    /// Short-circuit disjunction, as `eval_or_model` states.
    fn eval_or(&mut self, context: &Context, conds: &Vec<OperatorValue>) -> (r: Result<
        Value,
        ExecutionError,
    >)
        ensures
            ({
                let (res, db2) = eval_or_model(
                    old(self).time.iso_model(),
                    old(self).database.db_model(),
                    context@,
                    conds@,
                );
                &&& final(self).database.db_model() == db2
                &&& final(self).time == old(self).time
                &&& final(self).request == old(self).request
                &&& res_model(r) == res
            }),
        decreases conds@, 0nat,
    {
        let ghost now = self.time.iso_model();
        let ghost db0 = self.database.db_model();
        let ghost cm = context@;
        let ghost t0 = self.time;
        let ghost rq0 = self.request;
        proof {
            assert(conds@.skip(0) =~= conds@);
        }
        let mut i: usize = 0;
        while i < conds.len()
            invariant
                i <= conds.len(),
                self.time == t0,
                self.request == rq0,
                now == t0.iso_model(),
                t0 == old(self).time,
                rq0 == old(self).request,
                db0 == old(self).database.db_model(),
                cm == context@,
                eval_or_model(now, db0, cm, conds@) == eval_or_model(
                    now,
                    self.database.db_model(),
                    cm,
                    conds@.skip(i as int),
                ),
            decreases conds.len() - i,
        {
            proof {
                assert(conds@.skip(i as int)[0] == conds@[i as int]);
                assert(conds@.skip(i as int).drop_first() =~= conds@.skip(i + 1));
                assert(decreases_to!(conds@ => conds@[i as int]));
            }
            let c = self.eval(context, &conds[i]);
            match c {
                Err(e) => {
                    return Err(e);
                },
                Ok(v) => {
                    if is_truthy(&v) {
                        return Ok(Value::Bool(true));
                    }
                },
            }
            i = i + 1;
        }
        proof {
            assert(conds@.skip(conds@.len() as int).len() == 0);
        }
        Ok(Value::Bool(false))
    }

    /// The values of a named expression map, as `eval_entries_model`
    /// states.
    fn eval_entries(&mut self, context: &Context, entries: &Vec<(String, OperatorValue)>) -> (r:
        Result<Vec<(String, Value)>, ExecutionError>)
        ensures
            ({
                let (res, db2) = eval_entries_model(
                    old(self).time.iso_model(),
                    old(self).database.db_model(),
                    context@,
                    entries@,
                    Seq::empty(),
                );
                &&& final(self).database.db_model() == db2
                &&& final(self).time == old(self).time
                &&& final(self).request == old(self).request
                &&& match r {
                    Ok(out) => res == Ok::<Seq<(Seq<char>, Val)>, ErrModel>(
                        crate::value::entries_model(out@),
                    ),
                    Err(e) => res == Err::<Seq<(Seq<char>, Val)>, ErrModel>(e@),
                }
            }),
        decreases entries@, 0nat,
    {
        let ghost now = self.time.iso_model();
        let ghost db0 = self.database.db_model();
        let ghost cm = context@;
        let ghost t0 = self.time;
        let ghost rq0 = self.request;
        let mut out: Vec<(String, Value)> = Vec::new();
        proof {
            assert(entries@.skip(0) =~= entries@);
            assert(crate::value::entries_model(out@) =~= Seq::<(Seq<char>, Val)>::empty());
        }
        let mut i: usize = 0;
        while i < entries.len()
            invariant
                i <= entries.len(),
                self.time == t0,
                self.request == rq0,
                now == t0.iso_model(),
                t0 == old(self).time,
                rq0 == old(self).request,
                db0 == old(self).database.db_model(),
                cm == context@,
                eval_entries_model(now, db0, cm, entries@, Seq::empty()) == eval_entries_model(
                    now,
                    self.database.db_model(),
                    cm,
                    entries@.skip(i as int),
                    crate::value::entries_model(out@),
                ),
            decreases entries.len() - i,
        {
            proof {
                assert(entries@.skip(i as int)[0] == entries@[i as int]);
                assert(entries@.skip(i as int).drop_first() =~= entries@.skip(i + 1));
                assert(decreases_to!(entries@ => entries@[i as int]));
                assert(decreases_to!(entries@[i as int] => entries@[i as int].1));
            }
            let c = self.eval(context, &entries[i].1);
            match c {
                Err(e) => {
                    return Err(e);
                },
                Ok(v) => {
                    crate::value::obj_set(&mut out, entries[i].0.clone(), v);
                },
            }
            i = i + 1;
        }
        proof {
            assert(entries@.skip(entries@.len() as int).len() == 0);
        }
        Ok(out)
    }

    /// The objects of a `$merge` folded together, as
    /// `eval_merge_model` states.
    fn eval_merge_items(&mut self, context: &Context, objects: &Vec<OperatorValue>) -> (r: Result<
        Vec<(String, Value)>,
        ExecutionError,
    >)
        ensures
            ({
                let (res, db2) = eval_merge_model(
                    old(self).time.iso_model(),
                    old(self).database.db_model(),
                    context@,
                    objects@,
                    Seq::empty(),
                );
                &&& final(self).database.db_model() == db2
                &&& final(self).time == old(self).time
                &&& final(self).request == old(self).request
                &&& match r {
                    Ok(out) => res == Ok::<Seq<(Seq<char>, Val)>, ErrModel>(
                        crate::value::entries_model(out@),
                    ),
                    Err(e) => res == Err::<Seq<(Seq<char>, Val)>, ErrModel>(e@),
                }
            }),
        decreases objects@, 0nat,
    {
        let ghost now = self.time.iso_model();
        let ghost db0 = self.database.db_model();
        let ghost cm = context@;
        let ghost t0 = self.time;
        let ghost rq0 = self.request;
        let mut out: Vec<(String, Value)> = Vec::new();
        proof {
            assert(objects@.skip(0) =~= objects@);
            assert(crate::value::entries_model(out@) =~= Seq::<(Seq<char>, Val)>::empty());
        }
        let mut i: usize = 0;
        while i < objects.len()
            invariant
                i <= objects.len(),
                self.time == t0,
                self.request == rq0,
                now == t0.iso_model(),
                t0 == old(self).time,
                rq0 == old(self).request,
                db0 == old(self).database.db_model(),
                cm == context@,
                eval_merge_model(now, db0, cm, objects@, Seq::empty()) == eval_merge_model(
                    now,
                    self.database.db_model(),
                    cm,
                    objects@.skip(i as int),
                    crate::value::entries_model(out@),
                ),
            decreases objects.len() - i,
        {
            proof {
                assert(objects@.skip(i as int)[0] == objects@[i as int]);
                assert(objects@.skip(i as int).drop_first() =~= objects@.skip(i + 1));
                assert(decreases_to!(objects@ => objects@[i as int]));
            }
            let c = self.eval(context, &objects[i]);
            match c {
                Err(e) => {
                    return Err(e);
                },
                Ok(v) => {
                    match v {
                        Value::Obj(es) => {
                            let ghost acc0 = crate::value::entries_model(out@);
                            let ghost esm = crate::value::entries_model(es@);
                            let mut k: usize = 0;
                            proof {
                                assert(esm.skip(0) =~= esm);
                            }
                            while k < es.len()
                                invariant
                                    k <= es.len(),
                                    esm == crate::value::entries_model(es@),
                                    obj_insert_all(
                                        crate::value::entries_model(out@),
                                        esm.skip(k as int),
                                    ) == obj_insert_all(acc0, esm),
                                decreases es.len() - k,
                            {
                                proof {
                                    assert(esm.skip(k as int)[0] == esm[k as int]);
                                    assert(esm.skip(k as int).drop_first() =~= esm.skip(k + 1));
                                }
                                let pair = &es[k];
                                crate::value::obj_set(&mut out, pair.0.clone(), pair.1.clone());
                                k = k + 1;
                            }
                            proof {
                                assert(esm.skip(es@.len() as int).len() == 0);
                            }
                        },
                        other => {
                            return Err(
                                ExecutionError::type_error_with_types(
                                    "Can only merge objects",
                                    "object",
                                    value_type_name(&other),
                                ),
                            );
                        },
                    }
                },
            }
            i = i + 1;
        }
        proof {
            assert(objects@.skip(objects@.len() as int).len() == 0);
        }
        Ok(out)
    }

    /// The elements a `$filter` keeps, as `eval_filter_model` states.
    fn eval_filter_items(&mut self, context: &Context, items: &Vec<Value>, cond: &OperatorValue) -> (r:
        Result<Vec<Value>, ExecutionError>)
        ensures
            ({
                let (res, db2) = eval_filter_model(
                    old(self).time.iso_model(),
                    old(self).database.db_model(),
                    context@,
                    seq_model(items@),
                    *cond,
                    Seq::empty(),
                );
                &&& final(self).database.db_model() == db2
                &&& final(self).time == old(self).time
                &&& final(self).request == old(self).request
                &&& match r {
                    Ok(out) => res == Ok::<Seq<Val>, ErrModel>(seq_model(out@)),
                    Err(e) => res == Err::<Seq<Val>, ErrModel>(e@),
                }
            }),
        decreases cond, items@.len(),
    {
        let ghost now = self.time.iso_model();
        let ghost db0 = self.database.db_model();
        let ghost cm = context@;
        let ghost t0 = self.time;
        let ghost rq0 = self.request;
        let ghost im = seq_model(items@);
        let mut out: Vec<Value> = Vec::new();
        proof {
            assert(im.skip(0) =~= im);
            assert(seq_model(out@) =~= Seq::<Val>::empty());
        }
        let mut i: usize = 0;
        while i < items.len()
            invariant
                i <= items.len(),
                self.time == t0,
                self.request == rq0,
                now == t0.iso_model(),
                t0 == old(self).time,
                rq0 == old(self).request,
                db0 == old(self).database.db_model(),
                cm == context@,
                im == seq_model(items@),
                eval_filter_model(now, db0, cm, im, *cond, Seq::empty()) == eval_filter_model(
                    now,
                    self.database.db_model(),
                    cm,
                    im.skip(i as int),
                    *cond,
                    seq_model(out@),
                ),
            decreases items.len() - i,
        {
            proof {
                assert(im.skip(i as int)[0] == im[i as int]);
                assert(im[i as int] == items@[i as int]@);
                assert(im.skip(i as int).drop_first() =~= im.skip(i + 1));
            }
            let mut child = context.clone();
            child.set_var("item", items[i].clone());
            let ghost before = seq_model(out@);
            let c = self.eval(&child, cond);
            match c {
                Err(e) => {
                    return Err(e);
                },
                Ok(v) => {
                    if is_truthy(&v) {
                        out.push(items[i].clone());
                        proof {
                            assert(seq_model(out@) =~= before.push(im[i as int]));
                        }
                    }
                },
            }
            i = i + 1;
        }
        proof {
            assert(im.skip(items@.len() as int).len() == 0);
        }
        Ok(out)
    }

    /// The transformed elements of a `$map`, as `eval_map_model`
    /// states.
    fn eval_map_items(&mut self, context: &Context, items: &Vec<Value>, body: &OperatorValue) -> (r:
        Result<Vec<Value>, ExecutionError>)
        ensures
            ({
                let (res, db2) = eval_map_model(
                    old(self).time.iso_model(),
                    old(self).database.db_model(),
                    context@,
                    seq_model(items@),
                    *body,
                    Seq::empty(),
                );
                &&& final(self).database.db_model() == db2
                &&& final(self).time == old(self).time
                &&& final(self).request == old(self).request
                &&& match r {
                    Ok(out) => res == Ok::<Seq<Val>, ErrModel>(seq_model(out@)),
                    Err(e) => res == Err::<Seq<Val>, ErrModel>(e@),
                }
            }),
        decreases body, items@.len(),
    {
        let ghost now = self.time.iso_model();
        let ghost db0 = self.database.db_model();
        let ghost cm = context@;
        let ghost t0 = self.time;
        let ghost rq0 = self.request;
        let ghost im = seq_model(items@);
        let mut out: Vec<Value> = Vec::new();
        proof {
            assert(im.skip(0) =~= im);
            assert(seq_model(out@) =~= Seq::<Val>::empty());
        }
        let mut i: usize = 0;
        while i < items.len()
            invariant
                i <= items.len(),
                self.time == t0,
                self.request == rq0,
                now == t0.iso_model(),
                t0 == old(self).time,
                rq0 == old(self).request,
                db0 == old(self).database.db_model(),
                cm == context@,
                im == seq_model(items@),
                eval_map_model(now, db0, cm, im, *body, Seq::empty()) == eval_map_model(
                    now,
                    self.database.db_model(),
                    cm,
                    im.skip(i as int),
                    *body,
                    seq_model(out@),
                ),
            decreases items.len() - i,
        {
            proof {
                assert(im.skip(i as int)[0] == im[i as int]);
                assert(im[i as int] == items@[i as int]@);
                assert(im.skip(i as int).drop_first() =~= im.skip(i + 1));
            }
            let mut child = context.clone();
            child.set_var("item", items[i].clone());
            let ghost before = seq_model(out@);
            match self.eval(&child, body) {
                Err(e) => {
                    return Err(e);
                },
                Ok(v) => {
                    out.push(v);
                    proof {
                        assert(seq_model(out@) =~= before.push(out@.last()@));
                    }
                },
            }
            i = i + 1;
        }
        proof {
            assert(im.skip(items@.len() as int).len() == 0);
        }
        Ok(out)
    }

    /// The fold of a `$reduce`, as `eval_reduce_model` states.
    fn eval_reduce_items(
        &mut self,
        context: &Context,
        items: &Vec<Value>,
        body: &OperatorValue,
        initial: &Value,
    ) -> (r: Result<Value, ExecutionError>)
        ensures
            ({
                let (res, db2) = eval_reduce_model(
                    old(self).time.iso_model(),
                    old(self).database.db_model(),
                    context@,
                    seq_model(items@),
                    *body,
                    initial@,
                );
                &&& final(self).database.db_model() == db2
                &&& final(self).time == old(self).time
                &&& final(self).request == old(self).request
                &&& res_model(r) == res
            }),
        decreases body, items@.len(),
    {
        let ghost now = self.time.iso_model();
        let ghost db0 = self.database.db_model();
        let ghost cm = context@;
        let ghost t0 = self.time;
        let ghost rq0 = self.request;
        let ghost im = seq_model(items@);
        let mut acc = initial.clone();
        proof {
            assert(im.skip(0) =~= im);
        }
        let mut i: usize = 0;
        while i < items.len()
            invariant
                i <= items.len(),
                self.time == t0,
                self.request == rq0,
                now == t0.iso_model(),
                t0 == old(self).time,
                rq0 == old(self).request,
                db0 == old(self).database.db_model(),
                cm == context@,
                im == seq_model(items@),
                eval_reduce_model(now, db0, cm, im, *body, initial@) == eval_reduce_model(
                    now,
                    self.database.db_model(),
                    cm,
                    im.skip(i as int),
                    *body,
                    acc@,
                ),
            decreases items.len() - i,
        {
            proof {
                assert(im.skip(i as int)[0] == im[i as int]);
                assert(im[i as int] == items@[i as int]@);
                assert(im.skip(i as int).drop_first() =~= im.skip(i + 1));
            }
            let mut child = context.clone();
            child.set_var("item", items[i].clone());
            child.set_var("accumulator", acc.clone());
            match self.eval(&child, body) {
                Err(e) => {
                    return Err(e);
                },
                Ok(v) => {
                    acc = v;
                },
            }
            i = i + 1;
        }
        proof {
            assert(im.skip(items@.len() as int).len() == 0);
        }
        Ok(acc)
    }

    /// The numeric fold of `$add`, as `eval_sum_model` states.
    fn eval_sum(&mut self, context: &Context, operands: &Vec<OperatorValue>) -> (r: Result<
        Value,
        ExecutionError,
    >)
        ensures
            ({
                let (res, db2) = eval_sum_model(
                    old(self).time.iso_model(),
                    old(self).database.db_model(),
                    context@,
                    operands@,
                    0,
                );
                &&& final(self).database.db_model() == db2
                &&& final(self).time == old(self).time
                &&& final(self).request == old(self).request
                &&& res_model(r) == res
            }),
        decreases operands@, 0nat,
    {
        let ghost now = self.time.iso_model();
        let ghost db0 = self.database.db_model();
        let ghost cm = context@;
        let ghost t0 = self.time;
        let ghost rq0 = self.request;
        let mut acc: i64 = 0;
        proof {
            assert(operands@.skip(0) =~= operands@);
        }
        let mut i: usize = 0;
        while i < operands.len()
            invariant
                i <= operands.len(),
                self.time == t0,
                self.request == rq0,
                now == t0.iso_model(),
                t0 == old(self).time,
                rq0 == old(self).request,
                db0 == old(self).database.db_model(),
                cm == context@,
                eval_sum_model(now, db0, cm, operands@, 0) == eval_sum_model(
                    now,
                    self.database.db_model(),
                    cm,
                    operands@.skip(i as int),
                    acc as int,
                ),
            decreases operands.len() - i,
        {
            proof {
                assert(operands@.skip(i as int)[0] == operands@[i as int]);
                assert(operands@.skip(i as int).drop_first() =~= operands@.skip(i + 1));
                assert(decreases_to!(operands@ => operands@[i as int]));
            }
            match self.eval(context, &operands[i]) {
                Err(e) => {
                    return Err(e);
                },
                Ok(v) => match v {
                    Value::Num(x) => match acc.checked_add(x) {
                        Some(next) => {
                            acc = next;
                        },
                        None => {
                            return Err(
                                ExecutionError::custom(String::from_str("Arithmetic overflow")),
                            );
                        },
                    },
                    other => {
                        return Err(
                            ExecutionError::type_error_with_types(
                                "Can only add numbers",
                                "number",
                                value_type_name(&other),
                            ),
                        );
                    },
                },
            }
            i = i + 1;
        }
        proof {
            assert(operands@.skip(operands@.len() as int).len() == 0);
        }
        Ok(Value::Num(acc))
    }

    /// The numeric fold of `$multiply`, as `eval_product_model`
    /// states.
    fn eval_product(&mut self, context: &Context, operands: &Vec<OperatorValue>) -> (r: Result<
        Value,
        ExecutionError,
    >)
        ensures
            ({
                let (res, db2) = eval_product_model(
                    old(self).time.iso_model(),
                    old(self).database.db_model(),
                    context@,
                    operands@,
                    1,
                );
                &&& final(self).database.db_model() == db2
                &&& final(self).time == old(self).time
                &&& final(self).request == old(self).request
                &&& res_model(r) == res
            }),
        decreases operands@, 0nat,
    {
        let ghost now = self.time.iso_model();
        let ghost db0 = self.database.db_model();
        let ghost cm = context@;
        let ghost t0 = self.time;
        let ghost rq0 = self.request;
        let mut acc: i64 = 1;
        proof {
            assert(operands@.skip(0) =~= operands@);
        }
        let mut i: usize = 0;
        while i < operands.len()
            invariant
                i <= operands.len(),
                self.time == t0,
                self.request == rq0,
                now == t0.iso_model(),
                t0 == old(self).time,
                rq0 == old(self).request,
                db0 == old(self).database.db_model(),
                cm == context@,
                eval_product_model(now, db0, cm, operands@, 1) == eval_product_model(
                    now,
                    self.database.db_model(),
                    cm,
                    operands@.skip(i as int),
                    acc as int,
                ),
            decreases operands.len() - i,
        {
            proof {
                assert(operands@.skip(i as int)[0] == operands@[i as int]);
                assert(operands@.skip(i as int).drop_first() =~= operands@.skip(i + 1));
                assert(decreases_to!(operands@ => operands@[i as int]));
            }
            match self.eval(context, &operands[i]) {
                Err(e) => {
                    return Err(e);
                },
                Ok(v) => match v {
                    Value::Num(x) => match acc.checked_mul(x) {
                        Some(next) => {
                            acc = next;
                        },
                        None => {
                            return Err(
                                ExecutionError::custom(String::from_str("Arithmetic overflow")),
                            );
                        },
                    },
                    other => {
                        return Err(
                            ExecutionError::type_error_with_types(
                                "Can only multiply numbers",
                                "number",
                                value_type_name(&other),
                            ),
                        );
                    },
                },
            }
            i = i + 1;
        }
        proof {
            assert(operands@.skip(operands@.len() as int).len() == 0);
        }
        Ok(Value::Num(acc))
    }
}


/// If position `k` holds the first adjacent `cc` pair, `first_pair`
/// finds it.
proof fn lemma_first_pair_at(t: Seq<char>, c: char, k: int)
    requires
        0 <= k,
        k + 1 < t.len(),
        t[k] == c,
        t[k + 1] == c,
        forall|m: int| 0 <= m < k ==> !(#[trigger] t[m] == c && t[m + 1] == c),
    ensures
        first_pair(t, c) == k,
    decreases k,
{
    if k > 0 {
        assert forall|i: int| 0 <= i < t.len() - 1 implies t.drop_first()[i] == t[i + 1] by {}
        lemma_first_pair_at(t.drop_first(), c, k - 1);
    }
}

/// With no adjacent `cc` pair, `first_pair` reports none.
proof fn lemma_first_pair_none(t: Seq<char>, c: char)
    requires
        forall|m: int| 0 <= m < t.len() - 1 ==> !(#[trigger] t[m] == c && t[m + 1] == c),
    ensures
        first_pair(t, c) == -1,
    decreases t.len(),
{
    if t.len() >= 2 {
        assert forall|i: int| 0 <= i < t.len() - 1 implies t.drop_first()[i] == t[i + 1] by {}
        lemma_first_pair_none(t.drop_first(), c);
    }
}

/// Absolute position of the first adjacent `cc` pair at or after
/// `start`, scanning left to right.
fn find_pair(s: &str, start: usize, c: char) -> (r: Option<usize>)
    requires
        start <= s@.len(),
    ensures
        match r {
            Some(k) => start <= k && k + 1 < s@.len() && first_pair(s@.skip(start as int), c) == k
                - start,
            None => first_pair(s@.skip(start as int), c) == -1,
        },
{
    let ghost sk = s@.skip(start as int);
    proof {
        assert forall|m: int| 0 <= m < sk.len() implies sk[m] == s@[start + m] by {}
    }
    let n = s.unicode_len();
    let mut k: usize = start;
    while n > 0 && k < n - 1
        invariant
            start <= k,
            k <= n,
            n == s@.len(),
            sk == s@.skip(start as int),
            forall|m: int| 0 <= m < sk.len() ==> #[trigger] sk[m] == s@[start + m],
            forall|m: int|
                0 <= m < k - start ==> !(#[trigger] sk[m] == c && sk[m + 1] == c),
        decreases n - k,
    {
        if s.get_char(k) == c && s.get_char(k + 1) == c {
            proof {
                lemma_first_pair_at(sk, c, k - start as int);
            }
            return Some(k);
        }
        k = k + 1;
    }
    proof {
        lemma_first_pair_none(sk, c);
    }
    None
}

/// The decimal rendering of a signed integer, as `int_chars` states.
pub fn i64_to_string(n: i64) -> (r: String)
    ensures
        r@ == int_chars(n as int),
{
    if n >= 0 {
        u64_to_string(n as u64)
    } else {
        let m: u64 = if n == i64::MIN {
            9223372036854775808u64
        } else {
            (-n) as u64
        };
        let mut out = String::from_str("-");
        out.append(u64_to_string(m).as_str());
        proof {
            reveal_strlit("-");
            assert("-"@ =~= seq!['-']);
        }
        out
    }
}

/// The scalar rendering of a value, as `scalar_chars` states; a
/// container has none.
pub fn scalar_string(v: &Value) -> (r: Option<String>)
    ensures
        match r {
            Some(s) => scalar_chars(v@) == Some(s@),
            None => scalar_chars(v@) is None,
        },
{
    match v {
        Value::Null => Some(String::from_str("null")),
        Value::Bool(b) => Some(
            if *b {
                String::from_str("true")
            } else {
                String::from_str("false")
            },
        ),
        Value::Num(n) => Some(i64_to_string(*n)),
        Value::Str(cs) => Some(cs.clone()),
        _ => None,
    }
}

/// Renders a template against a context, as `render_model` states:
/// each `{{path}}` placeholder becomes the looked-up value's scalar
/// rendering.
pub fn render_template(context: &Context, template: &str) -> (r: Result<String, ExecutionError>)
    ensures
        match r {
            Ok(s) => render_model(context@, template@) == Ok::<Seq<char>, ErrModel>(s@),
            Err(e) => render_model(context@, template@) == Err::<Seq<char>, ErrModel>(e@),
        },
    decreases template@.len(),
{
    proof {
        reveal(render_model);
    }
    let n = template.unicode_len();
    let i = match find_pair(template, 0, '{') {
        Some(i) => i,
        None => {
            proof {
                assert(template@.skip(0) =~= template@);
            }
            return Ok(template.to_owned());
        },
    };
    proof {
        assert(template@.skip(0) =~= template@);
    }
    let ghost rest = template@.skip(i + 2);
    proof {
        assert forall|m: int| 0 <= m < rest.len() implies rest[m] == template@[i + 2 + m] by {}
    }
    let k = match find_pair(template, i + 2, '}') {
        Some(k) => k,
        None => {
            return Err(
                ExecutionError::TemplateError {
                    message: String::from_str("Unterminated placeholder"),
                },
            );
        },
    };
    let path_str = template.substring_char(i + 2, k);
    proof {
        assert(path_str@ =~= rest.take(k - i - 2));
    }
    let v = match context.get_path(path_str) {
        Some(v) => v,
        None => {
            let mut msg = String::from_str("Unresolved path in template: ");
            msg.append(path_str);
            return Err(ExecutionError::TemplateError { message: msg });
        },
    };
    let cs = match scalar_string(v) {
        Some(cs) => cs,
        None => {
            return Err(
                ExecutionError::TemplateError {
                    message: String::from_str("Cannot render a non-scalar value"),
                },
            );
        },
    };
    let tail_input = template.substring_char(k + 2, n);
    proof {
        assert(tail_input@ =~= rest.skip(k - i as int));
        assert(rest.skip(k - i as int) =~= rest.skip((k - i - 2) + 2));
    }
    let tail = match render_template(context, tail_input) {
        Ok(t) => t,
        Err(e) => {
            return Err(e);
        },
    };
    let mut out = template.substring_char(0, i).to_owned();
    out.append(cs.as_str());
    out.append(tail.as_str());
    proof {
        assert(template@.subrange(0, i as int) =~= template@.take(i as int));
    }
    Ok(out)
}

} // verus!
