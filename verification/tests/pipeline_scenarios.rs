use deck::config::Response;
use deck::executor::traits::{FixedTimeProvider, MockDatabase, MockRequestContext};
use deck::executor::{compare_values, Executor};
use deck::operators::{
    DbInsertOp, DbQueryOp, FilterOp, GetOp, IfOp, Operator, OperatorValue, ReturnOp,
};
use deck::pipeline::{run_pipeline, Context, PipelineOutcome, PipelineStep};
use deck::value::{value_eq, Value};

fn make_executor() -> Executor<MockDatabase, FixedTimeProvider, MockRequestContext> {
    Executor::new(
        MockDatabase::new(),
        FixedTimeProvider::new("2025-01-01T00:00:00Z", 1735689600),
        MockRequestContext::new(),
    )
}

fn vstr(s: &str) -> Value {
    Value::Str(s.to_string())
}

fn vobj(pairs: Vec<(&str, Value)>) -> Value {
    Value::Obj(pairs.into_iter().map(|(k, v)| (k.to_string(), v)).collect())
}

fn lit(v: Value) -> OperatorValue {
    OperatorValue::Literal(v)
}

fn get_path(path: &str) -> OperatorValue {
    OperatorValue::Operator(Box::new(Operator::Get(GetOp { path: path.to_string() })))
}

fn field<'a>(v: &'a Value, k: &str) -> Option<&'a Value> {
    match v {
        Value::Obj(entries) => entries.iter().find(|p| p.0 == k).map(|p| &p.1),
        _ => None,
    }
}

#[test]
fn test_scenario_path_lookup() {
    let mut executor = make_executor();
    let context = Context::new().with_var("user", vobj(vec![("email", vstr("a@x"))]));

    let result = executor.eval(&context, &get_path("user.email")).unwrap();
    assert!(value_eq(&result, &vstr("a@x")));
}

#[test]
fn test_scenario_if_else_on_truthiness() {
    let mut executor = make_executor();
    let context = Context::new().with_var("flag", vstr(""));

    let value = OperatorValue::Operator(Box::new(Operator::If(IfOp {
        condition: get_path("flag"),
        then_branch: lit(vstr("yes")),
        else_branch: Some(lit(vstr("no"))),
    })));

    let result = executor.eval(&context, &value).unwrap();
    assert!(value_eq(&result, &vstr("no")));
}

#[test]
fn test_scenario_short_circuit_and() {
    let mut executor = make_executor();
    let context = Context::new();

    let value = OperatorValue::Operator(Box::new(Operator::And {
        conditions: vec![lit(Value::Bool(false)), get_path("missing")],
    }));

    let result = executor.eval(&context, &value).unwrap();
    assert!(value_eq(&result, &Value::Bool(false)));
}

#[test]
fn test_scenario_short_circuit_or() {
    let mut executor = make_executor();
    let context = Context::new();

    let value = OperatorValue::Operator(Box::new(Operator::Or {
        conditions: vec![lit(Value::Bool(true)), get_path("missing")],
    }));

    let result = executor.eval(&context, &value).unwrap();
    assert!(value_eq(&result, &Value::Bool(true)));
}

#[test]
fn test_scenario_filter_on_price() {
    let mut executor = make_executor();
    let context = Context::new().with_var(
        "items",
        Value::Arr(vec![
            vobj(vec![("p", Value::Num(5))]),
            vobj(vec![("p", Value::Num(50))]),
            vobj(vec![("p", Value::Num(15))]),
        ]),
    );

    let value = OperatorValue::Operator(Box::new(Operator::Filter(FilterOp {
        over: get_path("items"),
        condition: OperatorValue::Operator(Box::new(Operator::Lt {
            left: get_path("item.p"),
            right: lit(Value::Num(20)),
        })),
    })));

    let result = executor.eval(&context, &value).unwrap();
    assert!(value_eq(
        &result,
        &Value::Arr(vec![
            vobj(vec![("p", Value::Num(5))]),
            vobj(vec![("p", Value::Num(15))]),
        ])
    ));
}

#[test]
fn test_scenario_pipeline_insert_then_query() {
    let mut executor = make_executor();
    let context = Context::new();

    let steps = vec![
        PipelineStep {
            name: Some("ins".to_string()),
            value: OperatorValue::Operator(Box::new(Operator::DbInsert(DbInsertOp {
                collection: "posts".to_string(),
                document: vec![("title".to_string(), lit(vstr("T")))],
                validate: false,
            }))),
        },
        PipelineStep {
            name: Some("all".to_string()),
            value: OperatorValue::Operator(Box::new(Operator::DbQuery(DbQueryOp {
                collection: "posts".to_string(),
                filter: None,
                select: None,
                limit: None,
                skip: None,
                sort: None,
            }))),
        },
    ];
    let response = Response::Conditional(get_path("all"));

    let outcome = run_pipeline(&mut executor, context, &steps, &response).unwrap();
    match outcome {
        PipelineOutcome::Value(v) => {
            let items = match &v {
                Value::Arr(items) => items,
                _ => panic!("expected an array"),
            };
            assert_eq!(items.len(), 1);
            assert!(value_eq(field(&items[0], "title").unwrap(), &vstr("T")));
            match field(&items[0], "_id").unwrap() {
                Value::Str(id) => assert!(!id.is_empty()),
                _ => panic!("expected a string id"),
            }
        },
        _ => panic!("expected a bare value"),
    }
}

#[test]
fn test_scenario_early_return() {
    let mut executor = make_executor();
    let context = Context::new();

    let steps = vec![
        PipelineStep {
            name: None,
            value: OperatorValue::Operator(Box::new(Operator::Return(ReturnOp {
                status: 404,
                headers: vec![],
                body: lit(vobj(vec![("error", vstr("nf"))])),
            }))),
        },
        // This step would raise PathNotFound if it ever ran.
        PipelineStep { name: Some("later".to_string()), value: get_path("missing") },
    ];
    let response = Response::Conditional(lit(vstr("unreached")));

    let outcome = run_pipeline(&mut executor, context, &steps, &response).unwrap();
    match outcome {
        PipelineOutcome::Envelope(env) => {
            assert_eq!(env.status, 404);
            assert!(value_eq(&env.body, &vobj(vec![("error", vstr("nf"))])));
        },
        _ => panic!("expected an envelope"),
    }
}

#[test]
fn test_scenario_static_response() {
    let mut executor = make_executor();
    let context = Context::new().with_var("greeting", vstr("hello"));

    let steps: Vec<PipelineStep> = vec![];
    let response = Response::Static {
        status: 200,
        headers: vec![("X-Kind".to_string(), lit(vstr("greeting")))],
        body: get_path("greeting"),
    };

    let outcome = run_pipeline(&mut executor, context, &steps, &response).unwrap();
    match outcome {
        PipelineOutcome::Envelope(env) => {
            assert_eq!(env.status, 200);
            assert!(value_eq(&env.body, &vstr("hello")));
            assert_eq!(env.headers.len(), 1);
            assert_eq!(env.headers[0].0, "X-Kind");
            assert!(value_eq(&env.headers[0].1, &vstr("greeting")));
        },
        _ => panic!("expected an envelope"),
    }
}

#[test]
fn test_context_shadowing_concrete() {
    let ctx = Context::new().with_var("n", Value::Num(1)).with_var("n", Value::Num(2));
    assert!(value_eq(ctx.get("n").unwrap(), &Value::Num(2)));
    assert_eq!(ctx.variables().len(), 1);
}

#[test]
fn test_comparison_totality_concrete() {
    let three = Value::Num(3);
    let five = Value::Num(5);

    let c = compare_values(&three, &five).unwrap();
    assert!(c < 0);
    assert!(!(c > 0));
    assert!(c != 0);

    let c = compare_values(&five, &five).unwrap();
    assert_eq!(c, 0);

    let a = vstr("pear");
    let b = vstr("peach");
    let c = compare_values(&a, &b).unwrap();
    assert!(c > 0);

    let c = compare_values(&vstr("same"), &vstr("same")).unwrap();
    assert_eq!(c, 0);
}

#[test]
fn test_merge_precedence_union() {
    let mut executor = make_executor();
    let context = Context::new();

    let value = OperatorValue::Operator(Box::new(Operator::Merge(deck::operators::MergeOp {
        objects: vec![
            lit(vobj(vec![("a", Value::Num(1)), ("b", Value::Num(2))])),
            lit(vobj(vec![("b", Value::Num(9)), ("c", Value::Num(3))])),
        ],
    })));

    let result = executor.eval(&context, &value).unwrap();
    assert!(value_eq(field(&result, "a").unwrap(), &Value::Num(1)));
    assert!(value_eq(field(&result, "b").unwrap(), &Value::Num(9)));
    assert!(value_eq(field(&result, "c").unwrap(), &Value::Num(3)));
    match &result {
        Value::Obj(entries) => assert_eq!(entries.len(), 3),
        _ => panic!("expected an object"),
    }
}

#[test]
fn test_object_equality_ignores_key_order() {
    let a = vobj(vec![("x", Value::Num(1)), ("y", Value::Num(2))]);
    let b = vobj(vec![("y", Value::Num(2)), ("x", Value::Num(1))]);
    assert!(value_eq(&a, &b));

    let c = vobj(vec![("x", Value::Num(1)), ("y", Value::Num(3))]);
    assert!(!value_eq(&a, &c));
}

#[test]
fn test_decimal_rendering() {
    assert_eq!(deck::value::u64_to_string(0), "0");
    assert_eq!(deck::value::u64_to_string(7), "7");
    assert_eq!(deck::value::u64_to_string(1735689600), "1735689600");
}

#[test]
fn test_eval_render_string() {
    let mut executor = make_executor();
    let context = Context::new()
        .with_var("user", vobj(vec![("name", vstr("Alice"))]))
        .with_var("count", Value::Num(3));

    let value = OperatorValue::Operator(Box::new(Operator::RenderString(
        deck::operators::RenderStringOp {
            template: "Hello {{user.name}}, you have {{count}} messages".to_string(),
        },
    )));

    let result = executor.eval(&context, &value).unwrap();
    assert!(value_eq(&result, &vstr("Hello Alice, you have 3 messages")));
}

#[test]
fn test_eval_render_string_missing_path() {
    let mut executor = make_executor();
    let context = Context::new();

    let value = OperatorValue::Operator(Box::new(Operator::RenderString(
        deck::operators::RenderStringOp { template: "{{missing}}".to_string() },
    )));

    let result = executor.eval(&context, &value);
    assert!(matches!(result, Err(deck::pipeline::ExecutionError::TemplateError { .. })));
}

#[test]
fn test_eval_render_string_unterminated() {
    let mut executor = make_executor();
    let context = Context::new().with_var("x", Value::Num(1));

    let value = OperatorValue::Operator(Box::new(Operator::RenderString(
        deck::operators::RenderStringOp { template: "oops {{x".to_string() },
    )));

    let result = executor.eval(&context, &value);
    assert!(matches!(result, Err(deck::pipeline::ExecutionError::TemplateError { .. })));
}

#[test]
fn test_eval_render_string_non_scalar() {
    let mut executor = make_executor();
    let context = Context::new().with_var("user", vobj(vec![("name", vstr("Alice"))]));

    let value = OperatorValue::Operator(Box::new(Operator::RenderString(
        deck::operators::RenderStringOp { template: "{{user}}".to_string() },
    )));

    let result = executor.eval(&context, &value);
    assert!(matches!(result, Err(deck::pipeline::ExecutionError::TemplateError { .. })));
}

#[test]
fn test_eval_render_string_negative_number() {
    let mut executor = make_executor();
    let context = Context::new().with_var("delta", Value::Num(-42));

    let value = OperatorValue::Operator(Box::new(Operator::RenderString(
        deck::operators::RenderStringOp { template: "delta={{delta}}".to_string() },
    )));

    let result = executor.eval(&context, &value).unwrap();
    assert!(value_eq(&result, &vstr("delta=-42")));
}

#[test]
fn test_error_taxonomy_messages() {
    let db_err = deck::pipeline::ExecutionError::database_error("connection lost");
    assert_eq!(db_err.message(), "Database error: connection lost");

    let invalid = deck::pipeline::ExecutionError::InvalidOperator {
        operator: "$frob".to_string(),
        message: "no such operator".to_string(),
    };
    assert_eq!(invalid.message(), "Invalid operator '$frob': no such operator");

    let oob = deck::pipeline::ExecutionError::IndexOutOfBounds { index: 7, length: 3 };
    assert_eq!(oob.message(), "Index out of bounds: 7 (length: 3)");

    let early = deck::pipeline::ExecutionError::EarlyReturn {
        status: 302,
        headers: vec![],
        body: Value::Null,
    };
    assert_eq!(early.message(), "Early return with status 302");
}
