use deck::executor::traits::{FixedTimeProvider, MockDatabase, MockRequestContext};
use deck::executor::Executor;
use deck::operators::{FilterOp, GetOp, MapOp, Operator, OperatorValue, ReduceOp};
use deck::pipeline::{Context, ExecutionError};
use deck::value::{value_eq, Value};

fn make_executor() -> Executor<MockDatabase, FixedTimeProvider, MockRequestContext> {
    Executor::new(
        MockDatabase::new(),
        FixedTimeProvider::new("2025-01-01T00:00:00Z", 1735689600),
        MockRequestContext::new(),
    )
}

fn lit(v: Value) -> OperatorValue {
    OperatorValue::Literal(v)
}

fn get_path(path: &str) -> OperatorValue {
    OperatorValue::Operator(Box::new(Operator::Get(GetOp { path: path.to_string() })))
}

fn nums(ns: Vec<i64>) -> Value {
    Value::Arr(ns.into_iter().map(Value::Num).collect())
}

#[test]
fn test_eval_map_transforms_items() {
    let mut executor = make_executor();
    let context = Context::new().with_var("items", nums(vec![1, 2, 3]));

    let value = OperatorValue::Operator(Box::new(Operator::MapOver(MapOp {
        over: get_path("items"),
        transform: OperatorValue::Operator(Box::new(Operator::Add {
            operands: vec![get_path("item"), lit(Value::Num(10))],
        })),
    })));

    let result = executor.eval(&context, &value).unwrap();
    assert!(value_eq(&result, &nums(vec![11, 12, 13])));
}

#[test]
fn test_eval_map_non_array() {
    let mut executor = make_executor();
    let context = Context::new();

    let value = OperatorValue::Operator(Box::new(Operator::MapOver(MapOp {
        over: lit(Value::Num(7)),
        transform: get_path("item"),
    })));

    let result = executor.eval(&context, &value);
    assert!(matches!(result, Err(ExecutionError::TypeError { .. })));
}

#[test]
fn test_eval_filter_non_array() {
    let mut executor = make_executor();
    let context = Context::new();

    let value = OperatorValue::Operator(Box::new(Operator::Filter(FilterOp {
        over: lit(Value::Null),
        condition: lit(Value::Bool(true)),
    })));

    let result = executor.eval(&context, &value);
    assert!(matches!(result, Err(ExecutionError::TypeError { .. })));
}

#[test]
fn test_eval_reduce_sum() {
    let mut executor = make_executor();
    let context = Context::new().with_var("numbers", nums(vec![1, 2, 3]));

    let value = OperatorValue::Operator(Box::new(Operator::Reduce(ReduceOp {
        over: get_path("numbers"),
        with: OperatorValue::Operator(Box::new(Operator::Add {
            operands: vec![get_path("accumulator"), get_path("item")],
        })),
        initial: Value::Num(0),
    })));

    let result = executor.eval(&context, &value).unwrap();
    assert!(value_eq(&result, &Value::Num(6)));
}

#[test]
fn test_eval_reduce_empty_returns_initial() {
    let mut executor = make_executor();
    let context = Context::new().with_var("numbers", nums(vec![]));

    let value = OperatorValue::Operator(Box::new(Operator::Reduce(ReduceOp {
        over: get_path("numbers"),
        with: get_path("item"),
        initial: Value::Num(41),
    })));

    let result = executor.eval(&context, &value).unwrap();
    assert!(value_eq(&result, &Value::Num(41)));
}

#[test]
fn test_eval_add() {
    let mut executor = make_executor();
    let context = Context::new();

    let value = OperatorValue::Operator(Box::new(Operator::Add {
        operands: vec![lit(Value::Num(1)), lit(Value::Num(2)), lit(Value::Num(3))],
    }));
    let result = executor.eval(&context, &value).unwrap();
    assert!(value_eq(&result, &Value::Num(6)));

    let value = OperatorValue::Operator(Box::new(Operator::Add { operands: vec![] }));
    let result = executor.eval(&context, &value).unwrap();
    assert!(value_eq(&result, &Value::Num(0)));
}

#[test]
fn test_eval_add_type_error() {
    let mut executor = make_executor();
    let context = Context::new();

    let value = OperatorValue::Operator(Box::new(Operator::Add {
        operands: vec![lit(Value::Num(1)), lit(Value::Str("x".to_string()))],
    }));
    let result = executor.eval(&context, &value);
    assert!(matches!(result, Err(ExecutionError::TypeError { .. })));
}

#[test]
fn test_eval_multiply() {
    let mut executor = make_executor();
    let context = Context::new();

    let value = OperatorValue::Operator(Box::new(Operator::Multiply {
        operands: vec![lit(Value::Num(2)), lit(Value::Num(3)), lit(Value::Num(4))],
    }));
    let result = executor.eval(&context, &value).unwrap();
    assert!(value_eq(&result, &Value::Num(24)));

    let value = OperatorValue::Operator(Box::new(Operator::Multiply { operands: vec![] }));
    let result = executor.eval(&context, &value).unwrap();
    assert!(value_eq(&result, &Value::Num(1)));
}

#[test]
fn test_eval_subtract() {
    let mut executor = make_executor();
    let context = Context::new();

    let value = OperatorValue::Operator(Box::new(Operator::Subtract {
        left: lit(Value::Num(10)),
        right: lit(Value::Num(4)),
    }));
    let result = executor.eval(&context, &value).unwrap();
    assert!(value_eq(&result, &Value::Num(6)));
}

#[test]
fn test_eval_divide() {
    let mut executor = make_executor();
    let context = Context::new();

    let value = OperatorValue::Operator(Box::new(Operator::Divide {
        left: lit(Value::Num(10)),
        right: lit(Value::Num(3)),
    }));
    let result = executor.eval(&context, &value).unwrap();
    assert!(value_eq(&result, &Value::Num(3)));

    let value = OperatorValue::Operator(Box::new(Operator::Divide {
        left: lit(Value::Num(-7)),
        right: lit(Value::Num(2)),
    }));
    let result = executor.eval(&context, &value).unwrap();
    assert!(value_eq(&result, &Value::Num(-3)));
}

#[test]
fn test_eval_divide_by_zero() {
    let mut executor = make_executor();
    let context = Context::new();

    let value = OperatorValue::Operator(Box::new(Operator::Divide {
        left: lit(Value::Num(10)),
        right: lit(Value::Num(0)),
    }));
    let result = executor.eval(&context, &value);
    assert!(matches!(result, Err(ExecutionError::DivisionByZero)));
}

#[test]
fn test_eval_add_overflow() {
    let mut executor = make_executor();
    let context = Context::new();

    let value = OperatorValue::Operator(Box::new(Operator::Add {
        operands: vec![lit(Value::Num(i64::MAX)), lit(Value::Num(1))],
    }));
    let result = executor.eval(&context, &value);
    assert!(matches!(result, Err(ExecutionError::Custom { .. })));
}

#[test]
fn test_eval_switch_matches_case() {
    let mut executor = make_executor();
    let context = Context::new().with_var("role", Value::Str("admin".to_string()));

    let value = OperatorValue::Operator(Box::new(Operator::Switch(
        deck::operators::SwitchOp {
            on: get_path("role"),
            cases: vec![
                deck::operators::SwitchCase {
                    when: Value::Str("admin".to_string()),
                    then_branch: lit(Value::Str("all".to_string())),
                },
                deck::operators::SwitchCase {
                    when: Value::Str("user".to_string()),
                    then_branch: lit(Value::Str("some".to_string())),
                },
            ],
            default: Some(lit(Value::Str("none".to_string()))),
        },
    )));

    let result = executor.eval(&context, &value).unwrap();
    assert!(value_eq(&result, &Value::Str("all".to_string())));
}

#[test]
fn test_eval_switch_falls_to_default() {
    let mut executor = make_executor();
    let context = Context::new().with_var("role", Value::Str("guest".to_string()));

    let value = OperatorValue::Operator(Box::new(Operator::Switch(
        deck::operators::SwitchOp {
            on: get_path("role"),
            cases: vec![deck::operators::SwitchCase {
                when: Value::Str("admin".to_string()),
                then_branch: lit(Value::Str("all".to_string())),
            }],
            default: Some(lit(Value::Str("none".to_string()))),
        },
    )));

    let result = executor.eval(&context, &value).unwrap();
    assert!(value_eq(&result, &Value::Str("none".to_string())));
}

#[test]
fn test_eval_switch_no_match_no_default() {
    let mut executor = make_executor();
    let context = Context::new().with_var("role", Value::Str("guest".to_string()));

    let value = OperatorValue::Operator(Box::new(Operator::Switch(
        deck::operators::SwitchOp {
            on: get_path("role"),
            cases: vec![],
            default: None,
        },
    )));

    let result = executor.eval(&context, &value).unwrap();
    assert!(value_eq(&result, &Value::Null));
}
