use deck::executor::traits::{FixedTimeProvider, MockDatabase, MockRequestContext};
use deck::executor::Executor;
use deck::operators::{
    DbDeleteOp, DbInsertOp, DbQueryOp, DbUpdateOp, GetOp, MergeOp, NowOp, Operator, OperatorValue,
    SortOrder,
};
use deck::pipeline::Context;
use deck::value::{value_eq, Value};

fn make_executor_with(
    db: MockDatabase,
) -> Executor<MockDatabase, FixedTimeProvider, MockRequestContext> {
    Executor::new(
        db,
        FixedTimeProvider::new("2025-01-01T00:00:00Z", 1735689600),
        MockRequestContext::new(),
    )
}

fn vstr(s: &str) -> Value {
    Value::Str(s.to_string())
}

fn vobj(pairs: Vec<(&str, Value)>) -> Value {
    Value::Obj(pairs.into_iter().map(|(k, v)| (k.to_string(), v)).collect())
}

fn lit(v: Value) -> OperatorValue {
    OperatorValue::Literal(v)
}

fn get_path(path: &str) -> OperatorValue {
    OperatorValue::Operator(Box::new(Operator::Get(GetOp { path: path.to_string() })))
}

fn entry(k: &str, v: OperatorValue) -> (String, OperatorValue) {
    (k.to_string(), v)
}

fn field<'a>(v: &'a Value, k: &str) -> Option<&'a Value> {
    match v {
        Value::Obj(entries) => entries.iter().find(|p| p.0 == k).map(|p| &p.1),
        _ => None,
    }
}

fn as_arr(v: &Value) -> &Vec<Value> {
    match v {
        Value::Arr(items) => items,
        _ => panic!("expected an array"),
    }
}

fn plain_query(collection: &str) -> Operator {
    Operator::DbQuery(DbQueryOp {
        collection: collection.to_string(),
        filter: None,
        select: None,
        limit: None,
        skip: None,
        sort: None,
    })
}

#[test]
fn test_eval_dbquery_all_documents() {
    let db = MockDatabase::new().with_collection(
        "posts",
        vec![
            vobj(vec![("_id", vstr("1")), ("title", vstr("First Post")), ("views", Value::Num(100))]),
            vobj(vec![("_id", vstr("2")), ("title", vstr("Second Post")), ("views", Value::Num(200))]),
            vobj(vec![("_id", vstr("3")), ("title", vstr("Third Post")), ("views", Value::Num(150))]),
        ],
    );
    let mut executor = make_executor_with(db);
    let context = Context::new();

    let op = plain_query("posts");

    let result = executor.eval_operator(&context, &op).unwrap();
    assert_eq!(as_arr(&result).len(), 3);
}

#[test]
fn test_eval_dbquery_with_simple_filter() {
    let db = MockDatabase::new().with_collection(
        "posts",
        vec![
            vobj(vec![("_id", vstr("1")), ("title", vstr("First Post")), ("status", vstr("published"))]),
            vobj(vec![("_id", vstr("2")), ("title", vstr("Second Post")), ("status", vstr("draft"))]),
            vobj(vec![("_id", vstr("3")), ("title", vstr("Third Post")), ("status", vstr("published"))]),
        ],
    );
    let mut executor = make_executor_with(db);
    let context = Context::new();

    let op = Operator::DbQuery(DbQueryOp {
        collection: "posts".to_string(),
        filter: Some(vec![entry("status", lit(vstr("published")))]),
        select: None,
        limit: None,
        skip: None,
        sort: None,
    });

    let result = executor.eval_operator(&context, &op).unwrap();
    let items = as_arr(&result);
    assert_eq!(items.len(), 2);
    assert!(items.iter().all(|doc| value_eq(field(doc, "status").unwrap(), &vstr("published"))));
}

#[test]
fn test_eval_dbquery_with_dynamic_filter() {
    let db = MockDatabase::new().with_collection(
        "posts",
        vec![
            vobj(vec![("_id", vstr("1")), ("title", vstr("First Post")), ("authorId", vstr("user123"))]),
            vobj(vec![("_id", vstr("2")), ("title", vstr("Second Post")), ("authorId", vstr("user456"))]),
            vobj(vec![("_id", vstr("3")), ("title", vstr("Third Post")), ("authorId", vstr("user123"))]),
        ],
    );
    let mut executor = make_executor_with(db);
    let context = Context::new().with_var("currentUserId", vstr("user123"));

    let op = Operator::DbQuery(DbQueryOp {
        collection: "posts".to_string(),
        filter: Some(vec![entry("authorId", get_path("currentUserId"))]),
        select: None,
        limit: None,
        skip: None,
        sort: None,
    });

    let result = executor.eval_operator(&context, &op).unwrap();
    let items = as_arr(&result);
    assert_eq!(items.len(), 2);
    assert!(items.iter().all(|doc| value_eq(field(doc, "authorId").unwrap(), &vstr("user123"))));
}

#[test]
fn test_eval_dbquery_with_multiple_filters() {
    let db = MockDatabase::new().with_collection(
        "posts",
        vec![
            vobj(vec![
                ("_id", vstr("1")),
                ("title", vstr("First")),
                ("status", vstr("published")),
                ("featured", Value::Bool(true)),
            ]),
            vobj(vec![
                ("_id", vstr("2")),
                ("title", vstr("Second")),
                ("status", vstr("published")),
                ("featured", Value::Bool(false)),
            ]),
            vobj(vec![
                ("_id", vstr("3")),
                ("title", vstr("Third")),
                ("status", vstr("draft")),
                ("featured", Value::Bool(true)),
            ]),
        ],
    );
    let mut executor = make_executor_with(db);
    let context = Context::new();

    let op = Operator::DbQuery(DbQueryOp {
        collection: "posts".to_string(),
        filter: Some(vec![
            entry("status", lit(vstr("published"))),
            entry("featured", lit(Value::Bool(true))),
        ]),
        select: None,
        limit: None,
        skip: None,
        sort: None,
    });

    let result = executor.eval_operator(&context, &op).unwrap();
    let items = as_arr(&result);
    assert_eq!(items.len(), 1);
    assert!(value_eq(field(&items[0], "_id").unwrap(), &vstr("1")));
}

#[test]
fn test_eval_dbquery_with_limit() {
    let db = MockDatabase::new().with_collection(
        "posts",
        vec![
            vobj(vec![("_id", vstr("1")), ("title", vstr("First"))]),
            vobj(vec![("_id", vstr("2")), ("title", vstr("Second"))]),
            vobj(vec![("_id", vstr("3")), ("title", vstr("Third"))]),
            vobj(vec![("_id", vstr("4")), ("title", vstr("Fourth"))]),
        ],
    );
    let mut executor = make_executor_with(db);
    let context = Context::new();

    let op = Operator::DbQuery(DbQueryOp {
        collection: "posts".to_string(),
        filter: None,
        select: None,
        limit: Some(2),
        skip: None,
        sort: None,
    });

    let result = executor.eval_operator(&context, &op).unwrap();
    assert_eq!(as_arr(&result).len(), 2);
}

#[test]
fn test_eval_dbquery_with_skip() {
    let db = MockDatabase::new().with_collection(
        "posts",
        vec![
            vobj(vec![("_id", vstr("1")), ("title", vstr("First"))]),
            vobj(vec![("_id", vstr("2")), ("title", vstr("Second"))]),
            vobj(vec![("_id", vstr("3")), ("title", vstr("Third"))]),
            vobj(vec![("_id", vstr("4")), ("title", vstr("Fourth"))]),
        ],
    );
    let mut executor = make_executor_with(db);
    let context = Context::new();

    let op = Operator::DbQuery(DbQueryOp {
        collection: "posts".to_string(),
        filter: None,
        select: None,
        limit: None,
        skip: Some(2),
        sort: None,
    });

    let result = executor.eval_operator(&context, &op).unwrap();
    let items = as_arr(&result);
    assert_eq!(items.len(), 2);
    assert!(value_eq(field(&items[0], "_id").unwrap(), &vstr("3")));
    assert!(value_eq(field(&items[1], "_id").unwrap(), &vstr("4")));
}

#[test]
fn test_eval_dbquery_pagination() {
    let db = MockDatabase::new().with_collection(
        "posts",
        vec![
            vobj(vec![("_id", vstr("1")), ("title", vstr("First"))]),
            vobj(vec![("_id", vstr("2")), ("title", vstr("Second"))]),
            vobj(vec![("_id", vstr("3")), ("title", vstr("Third"))]),
            vobj(vec![("_id", vstr("4")), ("title", vstr("Fourth"))]),
            vobj(vec![("_id", vstr("5")), ("title", vstr("Fifth"))]),
        ],
    );
    let mut executor = make_executor_with(db);
    let context = Context::new();

    let op = Operator::DbQuery(DbQueryOp {
        collection: "posts".to_string(),
        filter: None,
        select: None,
        limit: Some(2),
        skip: Some(2),
        sort: None,
    });

    let result = executor.eval_operator(&context, &op).unwrap();
    let items = as_arr(&result);
    assert_eq!(items.len(), 2);
    assert!(value_eq(field(&items[0], "_id").unwrap(), &vstr("3")));
    assert!(value_eq(field(&items[1], "_id").unwrap(), &vstr("4")));
}

#[test]
fn test_eval_dbquery_with_sort() {
    let db = MockDatabase::new().with_collection(
        "posts",
        vec![
            vobj(vec![("_id", vstr("1")), ("title", vstr("Post C")), ("views", Value::Num(300))]),
            vobj(vec![("_id", vstr("2")), ("title", vstr("Post A")), ("views", Value::Num(100))]),
            vobj(vec![("_id", vstr("3")), ("title", vstr("Post B")), ("views", Value::Num(200))]),
        ],
    );
    let mut executor = make_executor_with(db);
    let context = Context::new();

    let op = Operator::DbQuery(DbQueryOp {
        collection: "posts".to_string(),
        filter: None,
        select: None,
        limit: None,
        skip: None,
        sort: Some(vec![("views".to_string(), SortOrder::Descending)]),
    });

    let result = executor.eval_operator(&context, &op).unwrap();
    let items = as_arr(&result);
    assert_eq!(items.len(), 3);
    assert!(value_eq(field(&items[0], "views").unwrap(), &Value::Num(300)));
    assert!(value_eq(field(&items[1], "views").unwrap(), &Value::Num(200)));
    assert!(value_eq(field(&items[2], "views").unwrap(), &Value::Num(100)));
}

#[test]
fn test_eval_dbquery_with_select() {
    let db = MockDatabase::new().with_collection(
        "posts",
        vec![
            vobj(vec![
                ("_id", vstr("1")),
                ("title", vstr("First Post")),
                ("content", vstr("Long content here")),
                ("views", Value::Num(100)),
            ]),
            vobj(vec![
                ("_id", vstr("2")),
                ("title", vstr("Second Post")),
                ("content", vstr("More content")),
                ("views", Value::Num(200)),
            ]),
        ],
    );
    let mut executor = make_executor_with(db);
    let context = Context::new();

    let op = Operator::DbQuery(DbQueryOp {
        collection: "posts".to_string(),
        filter: None,
        select: Some(vec!["title".to_string(), "views".to_string()]),
        limit: None,
        skip: None,
        sort: None,
    });

    let result = executor.eval_operator(&context, &op).unwrap();
    let items = as_arr(&result);
    assert_eq!(items.len(), 2);

    for doc in items {
        assert!(field(doc, "title").is_some());
        assert!(field(doc, "views").is_some());
        assert!(field(doc, "_id").is_none());
        assert!(field(doc, "content").is_none());
    }
}

#[test]
fn test_eval_dbquery_empty_results() {
    let db = MockDatabase::new().with_collection(
        "posts",
        vec![
            vobj(vec![("_id", vstr("1")), ("title", vstr("First")), ("status", vstr("published"))]),
            vobj(vec![("_id", vstr("2")), ("title", vstr("Second")), ("status", vstr("published"))]),
        ],
    );
    let mut executor = make_executor_with(db);
    let context = Context::new();

    let op = Operator::DbQuery(DbQueryOp {
        collection: "posts".to_string(),
        filter: Some(vec![entry("status", lit(vstr("draft")))]),
        select: None,
        limit: None,
        skip: None,
        sort: None,
    });

    let result = executor.eval_operator(&context, &op).unwrap();
    assert_eq!(as_arr(&result).len(), 0);
}

#[test]
fn test_eval_dbquery_nonexistent_collection() {
    let mut executor = make_executor_with(MockDatabase::new());
    let context = Context::new();

    let op = plain_query("nonexistent");

    let result = executor.eval_operator(&context, &op).unwrap();
    assert_eq!(as_arr(&result).len(), 0);
}

#[test]
fn test_eval_dbinsert_with_literals() {
    let mut executor = make_executor_with(MockDatabase::new());
    let context = Context::new();

    let op = Operator::DbInsert(DbInsertOp {
        collection: "posts".to_string(),
        document: vec![
            entry("title", lit(vstr("New Post"))),
            entry("status", lit(vstr("draft"))),
        ],
        validate: false,
    });

    let result = executor.eval_operator(&context, &op).unwrap();

    assert!(value_eq(field(&result, "title").unwrap(), &vstr("New Post")));
    assert!(value_eq(field(&result, "status").unwrap(), &vstr("draft")));
    assert!(field(&result, "_id").is_some());
}

#[test]
fn test_eval_dbinsert_with_operators() {
    let mut executor = make_executor_with(MockDatabase::new());
    let context = Context::new()
        .with_var("user", vobj(vec![("id", vstr("user123")), ("name", vstr("Alice"))]))
        .with_var("title", vstr("My Post"));

    let op = Operator::DbInsert(DbInsertOp {
        collection: "posts".to_string(),
        document: vec![
            entry("title", get_path("title")),
            entry("authorId", get_path("user.id")),
            entry(
                "createdAt",
                OperatorValue::Operator(Box::new(Operator::Now(NowOp::default()))),
            ),
        ],
        validate: false,
    });

    let result = executor.eval_operator(&context, &op).unwrap();

    assert!(value_eq(field(&result, "title").unwrap(), &vstr("My Post")));
    assert!(value_eq(field(&result, "authorId").unwrap(), &vstr("user123")));
    assert!(value_eq(field(&result, "createdAt").unwrap(), &vstr("2025-01-01T00:00:00Z")));
    assert!(field(&result, "_id").is_some());
}

#[test]
fn test_eval_dbinsert_with_provided_id() {
    let mut executor = make_executor_with(MockDatabase::new());
    let context = Context::new();

    let op = Operator::DbInsert(DbInsertOp {
        collection: "posts".to_string(),
        document: vec![
            entry("_id", lit(vstr("custom-id-123"))),
            entry("title", lit(vstr("Post with ID"))),
        ],
        validate: false,
    });

    let result = executor.eval_operator(&context, &op).unwrap();

    assert!(value_eq(field(&result, "_id").unwrap(), &vstr("custom-id-123")));
    assert!(value_eq(field(&result, "title").unwrap(), &vstr("Post with ID")));
}

#[test]
fn test_eval_dbinsert_into_new_collection() {
    let mut executor = make_executor_with(MockDatabase::new());
    let context = Context::new();

    let op = Operator::DbInsert(DbInsertOp {
        collection: "users".to_string(),
        document: vec![entry("name", lit(vstr("First User")))],
        validate: false,
    });

    let result = executor.eval_operator(&context, &op).unwrap();

    assert!(value_eq(field(&result, "name").unwrap(), &vstr("First User")));
    assert!(field(&result, "_id").is_some());
}

#[test]
fn test_eval_dbinsert_can_query_inserted() {
    let mut executor = make_executor_with(MockDatabase::new());
    let context = Context::new();

    let insert_op = Operator::DbInsert(DbInsertOp {
        collection: "posts".to_string(),
        document: vec![
            entry("title", lit(vstr("Test Post"))),
            entry("status", lit(vstr("published"))),
        ],
        validate: false,
    });

    let inserted = executor.eval_operator(&context, &insert_op).unwrap();
    let inserted_id = field(&inserted, "_id").unwrap().clone();

    let query_op = plain_query("posts");

    let results = executor.eval_operator(&context, &query_op).unwrap();
    let items = as_arr(&results);

    assert_eq!(items.len(), 1);
    assert!(value_eq(field(&items[0], "_id").unwrap(), &inserted_id));
    assert!(value_eq(field(&items[0], "title").unwrap(), &vstr("Test Post")));
}

#[test]
fn test_eval_dbinsert_with_nested_object() {
    let mut executor = make_executor_with(MockDatabase::new());
    let context = Context::new();

    let op = Operator::DbInsert(DbInsertOp {
        collection: "users".to_string(),
        document: vec![
            entry("name", lit(vstr("Alice"))),
            entry("address", lit(vobj(vec![("city", vstr("NYC")), ("zip", vstr("10001"))]))),
        ],
        validate: false,
    });

    let result = executor.eval_operator(&context, &op).unwrap();

    assert!(value_eq(field(&result, "name").unwrap(), &vstr("Alice")));
    let address = field(&result, "address").unwrap();
    assert!(value_eq(field(address, "city").unwrap(), &vstr("NYC")));
    assert!(value_eq(field(address, "zip").unwrap(), &vstr("10001")));
}

#[test]
fn test_eval_dbinsert_with_merge() {
    let mut executor = make_executor_with(MockDatabase::new());
    let context = Context::new()
        .with_var(
            "defaults",
            vobj(vec![("status", vstr("draft")), ("featured", Value::Bool(false))]),
        )
        .with_var("userInput", vobj(vec![("title", vstr("My Post"))]));

    let op = Operator::DbInsert(DbInsertOp {
        collection: "posts".to_string(),
        document: vec![entry(
            "_combined",
            OperatorValue::Operator(Box::new(Operator::Merge(MergeOp {
                objects: vec![get_path("defaults"), get_path("userInput")],
            }))),
        )],
        validate: false,
    });

    let result = executor.eval_operator(&context, &op).unwrap();

    let combined = field(&result, "_combined").unwrap();
    assert!(value_eq(field(combined, "status").unwrap(), &vstr("draft")));
    assert!(value_eq(field(combined, "featured").unwrap(), &Value::Bool(false)));
    assert!(value_eq(field(combined, "title").unwrap(), &vstr("My Post")));
}

#[test]
fn test_eval_dbupdate_simple() {
    let db = MockDatabase::new().with_collection(
        "posts",
        vec![
            vobj(vec![("_id", vstr("1")), ("title", vstr("Old Title")), ("status", vstr("draft"))]),
            vobj(vec![("_id", vstr("2")), ("title", vstr("Another Post")), ("status", vstr("published"))]),
        ],
    );
    let mut executor = make_executor_with(db);
    let context = Context::new();

    let op = Operator::DbUpdate(DbUpdateOp {
        collection: "posts".to_string(),
        filter: vec![entry("_id", lit(vstr("1")))],
        update: vec![
            entry("title", lit(vstr("New Title"))),
            entry("status", lit(vstr("published"))),
        ],
        validate: false,
    });

    let result = executor.eval_operator(&context, &op).unwrap();
    let items = as_arr(&result);

    assert_eq!(items.len(), 1);
    assert!(value_eq(field(&items[0], "_id").unwrap(), &vstr("1")));
    assert!(value_eq(field(&items[0], "title").unwrap(), &vstr("New Title")));
    assert!(value_eq(field(&items[0], "status").unwrap(), &vstr("published")));
}

#[test]
fn test_eval_dbupdate_with_operators() {
    let db = MockDatabase::new().with_collection(
        "posts",
        vec![vobj(vec![("_id", vstr("1")), ("title", vstr("Post")), ("views", Value::Num(100))])],
    );
    let mut executor = make_executor_with(db);
    let context = Context::new().with_var("postId", vstr("1"));

    let op = Operator::DbUpdate(DbUpdateOp {
        collection: "posts".to_string(),
        filter: vec![entry("_id", get_path("postId"))],
        update: vec![entry(
            "updatedAt",
            OperatorValue::Operator(Box::new(Operator::Now(NowOp::default()))),
        )],
        validate: false,
    });

    let result = executor.eval_operator(&context, &op).unwrap();
    let items = as_arr(&result);

    assert_eq!(items.len(), 1);
    assert!(value_eq(field(&items[0], "updatedAt").unwrap(), &vstr("2025-01-01T00:00:00Z")));
}

#[test]
fn test_eval_dbupdate_multiple_documents() {
    let db = MockDatabase::new().with_collection(
        "posts",
        vec![
            vobj(vec![("_id", vstr("1")), ("status", vstr("draft")), ("featured", Value::Bool(false))]),
            vobj(vec![("_id", vstr("2")), ("status", vstr("draft")), ("featured", Value::Bool(false))]),
            vobj(vec![("_id", vstr("3")), ("status", vstr("published")), ("featured", Value::Bool(false))]),
        ],
    );
    let mut executor = make_executor_with(db);
    let context = Context::new();

    let op = Operator::DbUpdate(DbUpdateOp {
        collection: "posts".to_string(),
        filter: vec![entry("status", lit(vstr("draft")))],
        update: vec![entry("featured", lit(Value::Bool(true)))],
        validate: false,
    });

    let result = executor.eval_operator(&context, &op).unwrap();
    let items = as_arr(&result);

    assert_eq!(items.len(), 2);
    assert!(items.iter().all(|doc| value_eq(field(doc, "featured").unwrap(), &Value::Bool(true))));
}

#[test]
fn test_eval_dbupdate_empty_results() {
    let db = MockDatabase::new().with_collection(
        "posts",
        vec![vobj(vec![("_id", vstr("1")), ("status", vstr("published"))])],
    );
    let mut executor = make_executor_with(db);
    let context = Context::new();

    let op = Operator::DbUpdate(DbUpdateOp {
        collection: "posts".to_string(),
        filter: vec![entry("status", lit(vstr("draft")))],
        update: vec![entry("title", lit(vstr("Updated")))],
        validate: false,
    });

    let result = executor.eval_operator(&context, &op).unwrap();
    assert_eq!(as_arr(&result).len(), 0);
}

#[test]
fn test_eval_dbdelete_simple() {
    let db = MockDatabase::new().with_collection(
        "posts",
        vec![
            vobj(vec![("_id", vstr("1")), ("title", vstr("Post 1"))]),
            vobj(vec![("_id", vstr("2")), ("title", vstr("Post 2"))]),
        ],
    );
    let mut executor = make_executor_with(db);
    let context = Context::new();

    let op = Operator::DbDelete(DbDeleteOp {
        collection: "posts".to_string(),
        filter: vec![entry("_id", lit(vstr("1")))],
    });

    let result = executor.eval_operator(&context, &op).unwrap();
    let items = as_arr(&result);

    assert_eq!(items.len(), 1);
    assert!(value_eq(field(&items[0], "_id").unwrap(), &vstr("1")));
    assert!(value_eq(field(&items[0], "title").unwrap(), &vstr("Post 1")));
}

#[test]
fn test_eval_dbdelete_multiple() {
    let db = MockDatabase::new().with_collection(
        "posts",
        vec![
            vobj(vec![("_id", vstr("1")), ("status", vstr("draft"))]),
            vobj(vec![("_id", vstr("2")), ("status", vstr("draft"))]),
            vobj(vec![("_id", vstr("3")), ("status", vstr("published"))]),
        ],
    );
    let mut executor = make_executor_with(db);
    let context = Context::new();

    let op = Operator::DbDelete(DbDeleteOp {
        collection: "posts".to_string(),
        filter: vec![entry("status", lit(vstr("draft")))],
    });

    let result = executor.eval_operator(&context, &op).unwrap();
    let items = as_arr(&result);

    assert_eq!(items.len(), 2);
    assert!(items.iter().all(|doc| value_eq(field(doc, "status").unwrap(), &vstr("draft"))));
}

#[test]
fn test_eval_dbdelete_with_operator_filter() {
    let db = MockDatabase::new().with_collection(
        "posts",
        vec![
            vobj(vec![("_id", vstr("1")), ("authorId", vstr("user123"))]),
            vobj(vec![("_id", vstr("2")), ("authorId", vstr("user456"))]),
        ],
    );
    let mut executor = make_executor_with(db);
    let context = Context::new().with_var("userId", vstr("user123"));

    let op = Operator::DbDelete(DbDeleteOp {
        collection: "posts".to_string(),
        filter: vec![entry("authorId", get_path("userId"))],
    });

    let result = executor.eval_operator(&context, &op).unwrap();
    let items = as_arr(&result);

    assert_eq!(items.len(), 1);
    assert!(value_eq(field(&items[0], "authorId").unwrap(), &vstr("user123")));
}

#[test]
fn test_eval_dbdelete_empty_results() {
    let db = MockDatabase::new().with_collection(
        "posts",
        vec![vobj(vec![("_id", vstr("1")), ("status", vstr("published"))])],
    );
    let mut executor = make_executor_with(db);
    let context = Context::new();

    let op = Operator::DbDelete(DbDeleteOp {
        collection: "posts".to_string(),
        filter: vec![entry("status", lit(vstr("draft")))],
    });

    let result = executor.eval_operator(&context, &op).unwrap();
    assert_eq!(as_arr(&result).len(), 0);
}

#[test]
fn test_eval_dbdelete_verifies_deletion() {
    let db = MockDatabase::new().with_collection(
        "posts",
        vec![
            vobj(vec![("_id", vstr("1")), ("title", vstr("Post 1"))]),
            vobj(vec![("_id", vstr("2")), ("title", vstr("Post 2"))]),
        ],
    );
    let mut executor = make_executor_with(db);
    let context = Context::new();

    let delete_op = Operator::DbDelete(DbDeleteOp {
        collection: "posts".to_string(),
        filter: vec![entry("_id", lit(vstr("1")))],
    });

    executor.eval_operator(&context, &delete_op).unwrap();

    let query_op = plain_query("posts");

    let results = executor.eval_operator(&context, &query_op).unwrap();
    let items = as_arr(&results);

    assert_eq!(items.len(), 1);
    assert!(value_eq(field(&items[0], "_id").unwrap(), &vstr("2")));
}
