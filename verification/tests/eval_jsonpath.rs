use deck::executor::traits::{FixedTimeProvider, MockDatabase, MockRequestContext};
use deck::executor::Executor;
use deck::operators::{JsonPathOp, Operator, OperatorValue};
use deck::pipeline::Context;
use deck::value::{value_eq, Value};

fn make_executor() -> Executor<MockDatabase, FixedTimeProvider, MockRequestContext> {
    Executor::new(
        MockDatabase::new(),
        FixedTimeProvider::new("2025-01-01T00:00:00Z", 1735689600),
        MockRequestContext::new(),
    )
}

fn vstr(s: &str) -> Value {
    Value::Str(s.to_string())
}

fn vobj(pairs: Vec<(&str, Value)>) -> Value {
    Value::Obj(pairs.into_iter().map(|(k, v)| (k.to_string(), v)).collect())
}

fn jsonpath(path: &str) -> OperatorValue {
    OperatorValue::Operator(Box::new(Operator::JsonPath(JsonPathOp {
        path: path.to_string(),
    })))
}

fn contains(items: &[Value], wanted: &Value) -> bool {
    items.iter().any(|v| value_eq(v, wanted))
}

#[test]
fn test_eval_jsonpath_simple() {
    let mut executor = make_executor();
    let context = Context::new().with_var(
        "user",
        vobj(vec![("name", vstr("Alice")), ("email", vstr("alice@example.com"))]),
    );

    let value = jsonpath("$.user.email");

    let result = executor.eval(&context, &value).unwrap();
    assert!(value_eq(&result, &Value::Arr(vec![vstr("alice@example.com")])));
}

#[test]
fn test_eval_jsonpath_wildcard() {
    let mut executor = make_executor();
    let context = Context::new().with_var(
        "items",
        Value::Arr(vec![
            vobj(vec![("name", vstr("Item 1")), ("price", Value::Num(10))]),
            vobj(vec![("name", vstr("Item 2")), ("price", Value::Num(20))]),
            vobj(vec![("name", vstr("Item 3")), ("price", Value::Num(30))]),
        ]),
    );

    let value = jsonpath("$.items[*].name");

    let result = executor.eval(&context, &value).unwrap();
    assert!(value_eq(
        &result,
        &Value::Arr(vec![vstr("Item 1"), vstr("Item 2"), vstr("Item 3")])
    ));
}

#[test]
fn test_eval_jsonpath_filter() {
    let mut executor = make_executor();
    let context = Context::new().with_var(
        "items",
        Value::Arr(vec![
            vobj(vec![("name", vstr("Cheap")), ("price", Value::Num(5))]),
            vobj(vec![("name", vstr("Expensive")), ("price", Value::Num(50))]),
            vobj(vec![("name", vstr("Affordable")), ("price", Value::Num(15))]),
        ]),
    );

    let value = jsonpath("$.items[?(@.price < 20)].name");

    let result = executor.eval(&context, &value).unwrap();
    let items = match &result {
        Value::Arr(items) => items,
        _ => panic!("expected an array"),
    };
    assert_eq!(items.len(), 2);
    assert!(contains(items, &vstr("Cheap")));
    assert!(contains(items, &vstr("Affordable")));
}

#[test]
fn test_eval_jsonpath_array_index() {
    let mut executor = make_executor();
    let context = Context::new().with_var(
        "items",
        Value::Arr(vec![
            vobj(vec![("name", vstr("First"))]),
            vobj(vec![("name", vstr("Second"))]),
            vobj(vec![("name", vstr("Third"))]),
        ]),
    );

    let value = jsonpath("$.items[0].name");

    let result = executor.eval(&context, &value).unwrap();
    assert!(value_eq(&result, &Value::Arr(vec![vstr("First")])));
}

#[test]
fn test_eval_jsonpath_recursive_descent() {
    let mut executor = make_executor();
    let context = Context::new().with_var(
        "data",
        vobj(vec![
            (
                "user",
                vobj(vec![
                    ("name", vstr("Alice")),
                    ("profile", vobj(vec![("name", vstr("Alice Profile"))])),
                ]),
            ),
            ("admin", vobj(vec![("name", vstr("Bob"))])),
        ]),
    );

    let value = jsonpath("$..name");

    let result = executor.eval(&context, &value).unwrap();
    let items = match &result {
        Value::Arr(items) => items,
        _ => panic!("expected an array"),
    };
    assert_eq!(items.len(), 3);
    assert!(contains(items, &vstr("Alice")));
    assert!(contains(items, &vstr("Alice Profile")));
    assert!(contains(items, &vstr("Bob")));
}

#[test]
fn test_eval_jsonpath_malformed_expression() {
    let mut executor = make_executor();
    let context = Context::new().with_var("user", vobj(vec![("name", vstr("Alice"))]));

    let value = jsonpath("$[");

    let result = executor.eval(&context, &value);
    assert!(matches!(result, Err(deck::pipeline::ExecutionError::Custom { .. })));
}

#[test]
fn test_eval_jsonpath_empty_result() {
    let mut executor = make_executor();
    let context = Context::new().with_var("user", vobj(vec![("name", vstr("Alice"))]));

    let value = jsonpath("$.user.missing");

    let result = executor.eval(&context, &value).unwrap();
    assert!(value_eq(&result, &Value::Arr(vec![])));
}
