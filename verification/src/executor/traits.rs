use vstd::prelude::*;

use crate::operators::SortOrder;
use crate::pipeline::ExecutionError;
use crate::value::{
    clone_values, dec_digits, entries_model, obj_lookup, seq_model, strs_model, val_eq, Val, Value,
};

verus! {

/// The mathematical state of the storage collaborator: the collections
/// by name, and the stream of identifiers the store will assign.
pub struct DbModel {
    /// Documents of each collection, in insertion order.
    pub collections: Map<Seq<char>, Seq<Val>>,
    /// The identifier assigned to the n-th generated id.
    pub gen: spec_fn(u64) -> Seq<char>,
    /// How many identifiers have been generated so far; wraps at the
    /// machine bound.
    pub next: u64,
}

/// The id counter after one more identifier.
pub open spec fn wrap_inc(n: u64) -> u64 {
    if n == u64::MAX {
        0
    } else {
        (n + 1) as u64
    }
}

/// The documents of a collection; a missing collection reads as empty.
pub open spec fn coll_of(db: DbModel, name: Seq<char>) -> Seq<Val> {
    if db.collections.contains_key(name) {
        db.collections[name]
    } else {
        Seq::empty()
    }
}

/// Whether a document's entries satisfy every field of an equality
/// filter; a missing field matches only an explicit null.
pub open spec fn fields_match(entries: Seq<(Seq<char>, Val)>, filter: Seq<(Seq<char>, Val)>) -> bool
    decreases filter.len(),
{
    if filter.len() == 0 {
        true
    } else {
        (match obj_lookup(entries, filter[0].0) {
            Some(dv) => val_eq(dv, filter[0].1),
            None => filter[0].1 is Null,
        }) && fields_match(entries, filter.drop_first())
    }
}

/// Whether a document matches an equality filter; a non-object never
/// matches.
pub open spec fn doc_matches(doc: Val, filter: Seq<(Seq<char>, Val)>) -> bool {
    match doc {
        Val::Obj(entries) => fields_match(entries, filter),
        _ => false,
    }
}

/// The documents that match the filter, in order.
pub open spec fn filter_docs(docs: Seq<Val>, filter: Seq<(Seq<char>, Val)>) -> Seq<Val>
    decreases docs.len(),
{
    if docs.len() == 0 {
        Seq::empty()
    } else {
        (if doc_matches(docs[0], filter) {
            seq![docs[0]]
        } else {
            Seq::empty()
        }) + filter_docs(docs.drop_first(), filter)
    }
}

/// A field of a document; `None` on a non-object or a missing key.
pub open spec fn doc_field(doc: Val, key: Seq<char>) -> Option<Val> {
    match doc {
        Val::Obj(entries) => obj_lookup(entries, key),
        _ => None,
    }
}

/// Lexicographic comparison of two character sequences by code point:
/// -1, 0 or 1.
pub open spec fn str_cmp(x: Seq<char>, y: Seq<char>) -> int
    decreases x.len(),
{
    if x.len() == 0 && y.len() == 0 {
        0
    } else if x.len() == 0 {
        -1
    } else if y.len() == 0 {
        1
    } else if x[0] == y[0] {
        str_cmp(x.drop_first(), y.drop_first())
    } else if (x[0] as u32) < (y[0] as u32) {
        -1
    } else {
        1
    }
}

/// Comparison of two documents by one field: numbers by value, strings
/// lexicographically, a present field after a missing one, anything
/// else equal.
pub open spec fn key_cmp(a: Val, b: Val, field: Seq<char>) -> int {
    match (doc_field(a, field), doc_field(b, field)) {
        (Some(Val::Num(x)), Some(Val::Num(y))) => if x < y {
            -1
        } else if x == y {
            0
        } else {
            1
        },
        (Some(Val::Str(x)), Some(Val::Str(y))) => str_cmp(x, y),
        (Some(_), None) => 1,
        (None, Some(_)) => -1,
        _ => 0,
    }
}

/// `key_cmp`, reversed for a descending sort.
pub open spec fn cmp_ord(a: Val, b: Val, field: Seq<char>, order: SortOrder) -> int {
    match order {
        SortOrder::Ascending => key_cmp(a, b, field),
        SortOrder::Descending => -key_cmp(a, b, field),
    }
}

/// Stable insertion of `d` after every element that does not compare
/// greater.
pub open spec fn insert_sorted(sorted: Seq<Val>, d: Val, field: Seq<char>, order: SortOrder) -> Seq<
    Val,
>
    decreases sorted.len(),
{
    if sorted.len() > 0 && cmp_ord(sorted[0], d, field, order) <= 0 {
        seq![sorted[0]] + insert_sorted(sorted.drop_first(), d, field, order)
    } else {
        seq![d] + sorted
    }
}

/// Stable sort of the documents by one field: the insertion sort of
/// the list, element by element.
pub open spec fn sort_docs(docs: Seq<Val>, field: Seq<char>, order: SortOrder) -> Seq<Val>
    decreases docs.len(),
{
    if docs.len() == 0 {
        Seq::empty()
    } else {
        insert_sorted(sort_docs(docs.drop_last(), field, order), docs.last(), field, order)
    }
}

/// The entries a projection keeps: the selected fields, in the order
/// of the selection, where the document has them.
pub open spec fn project_entries(entries: Seq<(Seq<char>, Val)>, select: Seq<Seq<char>>) -> Seq<
    (Seq<char>, Val),
>
    decreases select.len(),
{
    if select.len() == 0 {
        Seq::empty()
    } else {
        (match obj_lookup(entries, select[0]) {
            Some(v) => seq![(select[0], v)],
            None => Seq::empty(),
        }) + project_entries(entries, select.drop_first())
    }
}

/// Field projection of one document; a non-object passes unchanged.
pub open spec fn project_doc(doc: Val, select: Seq<Seq<char>>) -> Val {
    match doc {
        Val::Obj(entries) => Val::Obj(project_entries(entries, select)),
        _ => doc,
    }
}

/// Field projection of each document.
pub open spec fn project_docs(docs: Seq<Val>, select: Seq<Seq<char>>) -> Seq<Val> {
    Seq::new(docs.len(), |i: int| project_doc(docs[i], select))
}

/// What a query returns: the collection's documents filtered, sorted
/// by the first sort field, cut by skip and limit, and projected.
pub open spec fn query_model(
    db: DbModel,
    name: Seq<char>,
    filter: Option<Seq<(Seq<char>, Val)>>,
    select: Option<Seq<Seq<char>>>,
    limit: Option<u32>,
    skip: Option<u32>,
    sort: Option<Seq<(Seq<char>, SortOrder)>>,
) -> Seq<Val> {
    let docs = coll_of(db, name);
    let filtered = match filter {
        Some(f) => filter_docs(docs, f),
        None => docs,
    };
    let sorted = match sort {
        Some(s) => if s.len() > 0 {
            sort_docs(filtered, s[0].0, s[0].1)
        } else {
            filtered
        },
        None => filtered,
    };
    let skipped = match skip {
        Some(k) => if k <= sorted.len() {
            sorted.skip(k as int)
        } else {
            Seq::empty()
        },
        None => sorted,
    };
    let limited = match limit {
        Some(l) => if l <= skipped.len() {
            skipped.take(l as int)
        } else {
            skipped
        },
        None => skipped,
    };
    match select {
        Some(sel) => project_docs(limited, sel),
        None => limited,
    }
}

/// What an insert does: the document gets a fresh `_id` if it has
/// none, and is appended to the collection; the result is the new
/// state and the stored document.
pub open spec fn insert_model(db: DbModel, name: Seq<char>, doc: Seq<(Seq<char>, Val)>) -> (
    DbModel,
    Val,
) {
    let has_id = obj_lookup(doc, "_id"@) is Some;
    let entries = if has_id {
        doc
    } else {
        doc.push(("_id"@, Val::Str((db.gen)(db.next))))
    };
    let stored = Val::Obj(entries);
    let db2 = DbModel {
        collections: db.collections.insert(name, coll_of(db, name).push(stored)),
        gen: db.gen,
        next: if has_id {
            db.next
        } else {
            wrap_inc(db.next)
        },
    };
    (db2, stored)
}

/// The update map merged into one document's entries, key by key.
pub open spec fn obj_insert_all(
    entries: Seq<(Seq<char>, Val)>,
    upd: Seq<(Seq<char>, Val)>,
) -> Seq<(Seq<char>, Val)>
    decreases upd.len(),
{
    if upd.len() == 0 {
        entries
    } else {
        obj_insert_all(
            crate::value::obj_insert(entries, upd[0].0, upd[0].1),
            upd.drop_first(),
        )
    }
}

/// A shallow merge of the update map into a document; a non-object
/// passes unchanged.
pub open spec fn merge_into(doc: Val, upd: Seq<(Seq<char>, Val)>) -> Val {
    match doc {
        Val::Obj(entries) => Val::Obj(obj_insert_all(entries, upd)),
        _ => doc,
    }
}

/// Each document of the collection after an update: matching ones
/// merged, others unchanged.
pub open spec fn update_docs(docs: Seq<Val>, filter: Seq<(Seq<char>, Val)>, upd: Seq<(Seq<char>, Val)>) -> Seq<Val> {
    Seq::new(
        docs.len(),
        |i: int| if doc_matches(docs[i], filter) {
            merge_into(docs[i], upd)
        } else {
            docs[i]
        },
    )
}

/// The post-update versions of the matching documents, in order.
pub open spec fn updated_list(docs: Seq<Val>, filter: Seq<(Seq<char>, Val)>, upd: Seq<(Seq<char>, Val)>) -> Seq<Val>
    decreases docs.len(),
{
    if docs.len() == 0 {
        Seq::empty()
    } else {
        (if doc_matches(docs[0], filter) {
            seq![merge_into(docs[0], upd)]
        } else {
            Seq::empty()
        }) + updated_list(docs.drop_first(), filter, upd)
    }
}

/// What an update does: the new state and the list of updated
/// documents.
pub open spec fn update_model(db: DbModel, name: Seq<char>, filter: Seq<(Seq<char>, Val)>, upd: Seq<(Seq<char>, Val)>) -> (
    DbModel,
    Seq<Val>,
) {
    if !db.collections.contains_key(name) {
        (db, Seq::empty())
    } else {
        let docs = db.collections[name];
        let db2 = DbModel {
            collections: db.collections.insert(name, update_docs(docs, filter, upd)),
            gen: db.gen,
            next: db.next,
        };
        (db2, updated_list(docs, filter, upd))
    }
}

/// The documents that do not match the filter, in order.
pub open spec fn keep_docs(docs: Seq<Val>, filter: Seq<(Seq<char>, Val)>) -> Seq<Val>
    decreases docs.len(),
{
    if docs.len() == 0 {
        Seq::empty()
    } else {
        (if doc_matches(docs[0], filter) {
            Seq::empty()
        } else {
            seq![docs[0]]
        }) + keep_docs(docs.drop_first(), filter)
    }
}

/// What a delete does: the matching documents leave the collection and
/// are returned, in order, as the audit trail.
pub open spec fn delete_model(db: DbModel, name: Seq<char>, filter: Seq<(Seq<char>, Val)>) -> (
    DbModel,
    Seq<Val>,
) {
    if !db.collections.contains_key(name) {
        (db, Seq::empty())
    } else {
        let docs = db.collections[name];
        let db2 = DbModel {
            collections: db.collections.insert(name, keep_docs(docs, filter)),
            gen: db.gen,
            next: db.next,
        };
        (db2, filter_docs(docs, filter))
    }
}

/// The model of an optional entry list.
pub open spec fn opt_entries_model(o: Option<&Vec<(String, Value)>>) -> Option<Seq<(Seq<char>, Val)>> {
    match o {
        Some(v) => Some(entries_model(v@)),
        None => None,
    }
}

/// The model of an optional string list.
pub open spec fn opt_strs_model(o: Option<&Vec<String>>) -> Option<Seq<Seq<char>>> {
    match o {
        Some(v) => Some(strs_model(v@)),
        None => None,
    }
}

/// The model of an optional sort map.
pub open spec fn opt_sort_model(o: Option<&Vec<(String, SortOrder)>>) -> Option<Seq<(Seq<char>, SortOrder)>> {
    match o {
        Some(v) => Some(sort_entries_model(v@)),
        None => None,
    }
}

/// The models of a sort map's entries.
pub open spec fn sort_entries_model(s: Seq<(String, SortOrder)>) -> Seq<(Seq<char>, SortOrder)> {
    Seq::new(s.len(), |i: int| (s[i].0@, s[i].1))
}

/// The storage collaborator: an in-memory document store with
/// equality filters, single-field sort, pagination, projection,
/// merge updates and an audit trail on delete.
pub trait DatabaseProvider: Sized {
    /// The mathematical state of the store.
    spec fn db_model(&self) -> DbModel;

    /// Queries documents from a collection, as `query_model` states.
    fn query(
        &self,
        collection: &str,
        filter: Option<&Vec<(String, Value)>>,
        select: Option<&Vec<String>>,
        limit: Option<u32>,
        skip: Option<u32>,
        sort: Option<&Vec<(String, SortOrder)>>,
    ) -> (r: Result<Vec<Value>, ExecutionError>)
        ensures
            r matches Ok(docs) && seq_model(docs@) == query_model(
                self.db_model(),
                collection@,
                opt_entries_model(filter),
                opt_strs_model(select),
                limit,
                skip,
                opt_sort_model(sort),
            ),
    ;

    /// Inserts a document into a collection, as `insert_model` states.
    fn insert(&mut self, collection: &str, document: &Vec<(String, Value)>) -> (r: Result<
        Value,
        ExecutionError,
    >)
        ensures
            ({
                let (db2, stored) = insert_model(
                    old(self).db_model(),
                    collection@,
                    entries_model(document@),
                );
                final(self).db_model() == db2 && (r matches Ok(d) && d@ == stored)
            }),
    ;

    /// Updates the matching documents, as `update_model` states.
    fn update(
        &mut self,
        collection: &str,
        filter: &Vec<(String, Value)>,
        update: &Vec<(String, Value)>,
    ) -> (r: Result<Vec<Value>, ExecutionError>)
        ensures
            ({
                let (db2, updated) = update_model(
                    old(self).db_model(),
                    collection@,
                    entries_model(filter@),
                    entries_model(update@),
                );
                final(self).db_model() == db2 && (r matches Ok(docs) && seq_model(docs@) == updated)
            }),
    ;

    /// Deletes the matching documents, as `delete_model` states.
    fn delete(&mut self, collection: &str, filter: &Vec<(String, Value)>) -> (r: Result<
        Vec<Value>,
        ExecutionError,
    >)
        ensures
            ({
                let (db2, deleted) = delete_model(
                    old(self).db_model(),
                    collection@,
                    entries_model(filter@),
                );
                final(self).db_model() == db2 && (r matches Ok(docs) && seq_model(docs@) == deleted)
            }),
    ;
}

/// The clock collaborator.
pub trait TimeProvider: Sized {
    /// The ISO-8601 timestamp the clock reports.
    spec fn iso_model(&self) -> Seq<char>;

    /// The Unix-epoch seconds the clock reports.
    spec fn epoch_model(&self) -> i64;

    /// The current timestamp as an ISO 8601 string.
    fn now(&self) -> (r: String)
        ensures
            r@ == self.iso_model(),
    ;

    /// The current Unix timestamp in seconds.
    fn unix_timestamp(&self) -> (r: i64)
        ensures
            r == self.epoch_model(),
    ;
}

/// The read-only request surface an HTTP collaborator provides.
pub trait RequestContext: Sized {
    /// Named path segments of the matched route.
    fn params(&self) -> &Vec<(String, String)>;

    /// Query string parameters.
    fn query(&self) -> &Vec<(String, String)>;

    /// Request headers.
    fn headers(&self) -> &Vec<(String, String)>;

    /// The request body, when one was sent as JSON.
    fn body(&self) -> Option<&Value>;

    /// The HTTP method.
    fn method(&self) -> &str;

    /// The request path.
    fn path(&self) -> &str;
}

/// A clock that always reports the same instant, for tests.
#[derive(Debug, Clone)]
pub struct FixedTimeProvider {
    timestamp: String,
    unix_timestamp: i64,
}

impl FixedTimeProvider {
    /// A clock fixed at the given timestamp.
    pub fn new(timestamp: &str, unix_timestamp: i64) -> (r: FixedTimeProvider)
        ensures
            r.iso_model() == timestamp@,
            r.epoch_model() == unix_timestamp,
    {
        FixedTimeProvider { timestamp: timestamp.to_owned(), unix_timestamp }
    }
}

impl TimeProvider for FixedTimeProvider {
    closed spec fn iso_model(&self) -> Seq<char> {
        self.timestamp@
    }

    closed spec fn epoch_model(&self) -> i64 {
        self.unix_timestamp
    }

    fn now(&self) -> (r: String) {
        self.timestamp.clone()
    }

    fn unix_timestamp(&self) -> (r: i64) {
        self.unix_timestamp
    }
}

/// A request surface with fixed contents, for tests.
#[derive(Debug)]
pub struct MockRequestContext {
    pub params: Vec<(String, String)>,
    pub query: Vec<(String, String)>,
    pub headers: Vec<(String, String)>,
    pub body: Option<Value>,
    pub method: String,
    pub path: String,
}

impl MockRequestContext {
    /// An empty request.
    pub fn new() -> (r: MockRequestContext)
        ensures
            r.params@.len() == 0,
            r.query@.len() == 0,
            r.headers@.len() == 0,
            r.body is None,
    {
        MockRequestContext {
            params: Vec::new(),
            query: Vec::new(),
            headers: Vec::new(),
            body: None,
            method: String::new(),
            path: String::new(),
        }
    }

    /// This request with one more path parameter.
    pub fn with_param(self, key: &str, value: &str) -> (r: MockRequestContext)
        ensures
            r.params@.len() == self.params@.len() + 1,
            r.params@.drop_last() == self.params@,
            r.params@.last().0@ == key@,
            r.params@.last().1@ == value@,
    {
        let mut r = self;
        r.params.push((key.to_owned(), value.to_owned()));
        r
    }

    /// This request with a JSON body.
    pub fn with_body(self, body: Value) -> (r: MockRequestContext)
        ensures
            r.body matches Some(b) && b@ == body@,
    {
        let mut r = self;
        r.body = Some(body);
        r
    }
}

impl RequestContext for MockRequestContext {
    fn params(&self) -> &Vec<(String, String)> {
        &self.params
    }

    fn query(&self) -> &Vec<(String, String)> {
        &self.query
    }

    fn headers(&self) -> &Vec<(String, String)> {
        &self.headers
    }

    fn body(&self) -> Option<&Value> {
        match &self.body {
            Some(b) => Some(b),
            None => None,
        }
    }

    fn method(&self) -> &str {
        self.method.as_str()
    }

    fn path(&self) -> &str {
        self.path.as_str()
    }
}

/// Index of the first collection with that name, or -1.
pub open spec fn coll_index(s: Seq<(String, Vec<Value>)>, name: Seq<char>) -> int
    decreases s.len(),
{
    if s.len() == 0 {
        -1
    } else if s[0].0@ == name {
        0
    } else {
        let r = coll_index(s.drop_first(), name);
        if r < 0 {
            -1
        } else {
            r + 1
        }
    }
}

/// The collection list read as a map from name to documents; on a
/// repeated name the first entry wins.
pub open spec fn colls_map(s: Seq<(String, Vec<Value>)>) -> Map<Seq<char>, Seq<Val>>
    decreases s.len(),
{
    if s.len() == 0 {
        Map::empty()
    } else {
        colls_map(s.drop_first()).insert(s[0].0@, seq_model(s[0].1@))
    }
}

/// `colls_map` holds exactly the names in the list, each name bound to
/// the documents of its first entry.
pub proof fn lemma_colls_map(s: Seq<(String, Vec<Value>)>, name: Seq<char>)
    ensures
        coll_index(s, name) == -1 <==> !colls_map(s).contains_key(name),
        coll_index(s, name) >= 0 ==> {
            let j = coll_index(s, name);
            &&& j < s.len()
            &&& s[j].0@ == name
            &&& colls_map(s).contains_key(name)
            &&& colls_map(s)[name] == seq_model(s[j].1@)
            &&& forall|k: int| 0 <= k < j ==> (#[trigger] s[k].0)@ != name
        },
    decreases s.len(),
{
    if s.len() > 0 && s[0].0@ != name {
        lemma_colls_map(s.drop_first(), name);
        assert forall|i: int| 1 <= i < s.len() implies s.drop_first()[i - 1] == s[i] by {}
    }
}

/// Replacing the first entry of a name replaces that name's documents
/// in the map.
pub proof fn lemma_colls_map_update(s: Seq<(String, Vec<Value>)>, j: int, pair: (String, Vec<Value>))
    requires
        0 <= j < s.len(),
        pair.0@ == s[j].0@,
        forall|k: int| 0 <= k < j ==> (#[trigger] s[k].0)@ != s[j].0@,
    ensures
        colls_map(s.update(j, pair)) =~= colls_map(s).insert(s[j].0@, seq_model(pair.1@)),
    decreases s.len(),
{
    let s2 = s.update(j, pair);
    if j == 0 {
        assert(s2.drop_first() =~= s.drop_first());
        assert(s2[0] == pair);
    } else {
        assert forall|i: int| 1 <= i < s.len() implies s.drop_first()[i - 1] == s[i] by {}
        assert(s.drop_first()[j - 1].0@ == pair.0@);
        assert(forall|k: int|
            0 <= k < j - 1 ==> (#[trigger] s.drop_first()[k].0)@ != s.drop_first()[j - 1].0@);
        lemma_colls_map_update(s.drop_first(), j - 1, pair);
        assert(s.drop_first().update(j - 1, pair) =~= s2.drop_first());
        assert(colls_map(s2.drop_first()) == colls_map(s.drop_first()).insert(
            s[j].0@,
            seq_model(pair.1@),
        ));
        assert(s2[0] == s[0]);
        assert(s[0].0@ != s[j].0@);
        assert(colls_map(s2) == colls_map(s2.drop_first()).insert(s[0].0@, seq_model(s[0].1@)));
    }
}

/// Appending a collection of a new name adds it to the map.
pub proof fn lemma_colls_map_push(s: Seq<(String, Vec<Value>)>, pair: (String, Vec<Value>))
    requires
        coll_index(s, pair.0@) < 0,
    ensures
        colls_map(s.push(pair)) =~~= colls_map(s).insert(pair.0@, seq_model(pair.1@)),
    decreases s.len(),
{
    reveal_with_fuel(colls_map, 2);
    if s.len() == 0 {
        assert(s.push(pair).drop_first() =~= Seq::<(String, Vec<Value>)>::empty());
        assert(s.push(pair)[0] == pair);
    } else {
        assert(s.push(pair).drop_first() =~= s.drop_first().push(pair));
        lemma_colls_map_push(s.drop_first(), pair);
        assert(colls_map(s.drop_first().push(pair)) == colls_map(s.drop_first()).insert(
            pair.0@,
            seq_model(pair.1@),
        ));
        assert(s.push(pair)[0] == s[0]);
        assert(s[0].0@ != pair.0@);
        assert(colls_map(s.push(pair)) == colls_map(s.push(pair).drop_first()).insert(
            s[0].0@,
            seq_model(s[0].1@),
        ));
    }
}

/// Index of the first collection named `name`, scanning in order.
pub fn coll_find(colls: &Vec<(String, Vec<Value>)>, name: &str) -> (r: Option<usize>)
    ensures
        match r {
            Some(j) => j == coll_index(colls@, name@) && j < colls@.len() && colls@[j as int].0@
                == name@,
            None => coll_index(colls@, name@) == -1,
        },
{
    let ghost cm = colls@;
    proof {
        lemma_colls_map(cm, name@);
    }
    let key: String = name.to_owned();
    let mut i: usize = 0;
    while i < colls.len()
        invariant
            i <= colls.len(),
            cm == colls@,
            key@ == name@,
            forall|k: int| 0 <= k < i ==> (#[trigger] cm[k].0)@ != name@,
        decreases colls.len() - i,
    {
        if colls[i].0 == key {
            proof {
                lemma_coll_index_at(cm, name@, i as int);
            }
            return Some(i);
        }
        i = i + 1;
    }
    proof {
        lemma_coll_index_none(cm, name@);
    }
    None
}

/// If position `j` holds the first entry of the name, `coll_index`
/// finds it.
proof fn lemma_coll_index_at(s: Seq<(String, Vec<Value>)>, name: Seq<char>, j: int)
    requires
        0 <= j < s.len(),
        s[j].0@ == name,
        forall|k: int| 0 <= k < j ==> (#[trigger] s[k].0)@ != name,
    ensures
        coll_index(s, name) == j,
    decreases j,
{
    if j > 0 {
        lemma_coll_index_at(s.drop_first(), name, j - 1);
    }
}

/// With no entry of the name, `coll_index` reports none.
proof fn lemma_coll_index_none(s: Seq<(String, Vec<Value>)>, name: Seq<char>)
    requires
        forall|k: int| 0 <= k < s.len() ==> (#[trigger] s[k].0)@ != name,
    ensures
        coll_index(s, name) == -1,
    decreases s.len(),
{
    if s.len() > 0 {
        lemma_coll_index_none(s.drop_first(), name);
    }
}

/// Whether the document matches the equality filter, as `doc_matches`
/// states.
pub fn matches_filter(doc: &Value, filter: &Vec<(String, Value)>) -> (r: bool)
    ensures
        r == doc_matches(doc@, entries_model(filter@)),
{
    match doc {
        Value::Obj(entries) => {
            let ghost em = entries_model(entries@);
            let ghost fm = entries_model(filter@);
            proof {
                assert(fm.skip(0) =~= fm);
            }
            let mut i: usize = 0;
            while i < filter.len()
                invariant
                    i <= filter.len(),
                    *doc == Value::Obj(*entries),
                    doc@ == Val::Obj(em),
                    em == entries_model(entries@),
                    fm == entries_model(filter@),
                    fields_match(em, fm) == fields_match(em, fm.skip(i as int)),
                decreases filter.len() - i,
            {
                proof {
                    assert(fm.skip(i as int)[0] == fm[i as int]);
                    assert(fm.skip(i as int).drop_first() =~= fm.skip(i + 1));
                }
                let ok: bool = match crate::pipeline::obj_get_entry(entries, filter[i].0.as_str()) {
                    Some(dv) => crate::value::value_eq(dv, &filter[i].1),
                    None => matches!(&filter[i].1, Value::Null),
                };
                if !ok {
                    return false;
                }
                i = i + 1;
            }
            proof {
                assert(fm.skip(filter@.len() as int).len() == 0);
            }
            true
        },
        _ => false,
    }
}

/// The document with only the selected fields kept, as `project_doc`
/// states.
pub fn project_fields(doc: &Value, select: &Vec<String>) -> (r: Value)
    ensures
        r@ == project_doc(doc@, strs_model(select@)),
{
    match doc {
        Value::Obj(entries) => {
            let ghost em = entries_model(entries@);
            let ghost sm = strs_model(select@);
            let mut out: Vec<(String, Value)> = Vec::new();
            proof {
                assert(sm.skip(0) =~= sm);
                assert(entries_model(out@) + project_entries(em, sm) =~= project_entries(em, sm));
            }
            let mut i: usize = 0;
            while i < select.len()
                invariant
                    i <= select.len(),
                    *doc == Value::Obj(*entries),
                    doc@ == Val::Obj(em),
                    em == entries_model(entries@),
                    sm == strs_model(select@),
                    entries_model(out@) + project_entries(em, sm.skip(i as int))
                        =~= project_entries(em, sm),
                decreases select.len() - i,
            {
                proof {
                    assert(sm.skip(i as int)[0] == sm[i as int]);
                    assert(sm.skip(i as int).drop_first() =~= sm.skip(i + 1));
                }
                let ghost before = out@;
                match crate::pipeline::obj_get_entry(entries, select[i].as_str()) {
                    Some(v) => {
                        out.push((select[i].clone(), v.clone()));
                        proof {
                            assert(entries_model(out@) =~= entries_model(before).push(
                                (sm[i as int], v@),
                            ));
                        }
                    },
                    None => {},
                }
                i = i + 1;
            }
            proof {
                assert(project_entries(em, sm.skip(select@.len() as int)) =~= Seq::<(
                    Seq<char>,
                    Val,
                )>::empty());
                assert(entries_model(out@) =~= entries_model(out@) + Seq::<(
                    Seq<char>,
                    Val,
                )>::empty());
            }
            Value::Obj(out)
        },
        _ => doc.clone(),
    }
}

/// The value of one document field, as `doc_field` states.
pub fn doc_field_get<'a>(doc: &'a Value, field: &str) -> (r: Option<&'a Value>)
    ensures
        match r {
            Some(v) => doc_field(doc@, field@) == Some(v@),
            None => doc_field(doc@, field@) is None,
        },
{
    match doc {
        Value::Obj(entries) => crate::pipeline::obj_get_entry(entries, field),
        _ => None,
    }
}

/// Lexicographic comparison of two strings, as `str_cmp` states.
pub fn str_cmp_exec(x: &str, y: &str) -> (r: i32)
    ensures
        r as int == str_cmp(x@, y@),
        -1 <= r <= 1,
{
    let xn = x.unicode_len();
    let yn = y.unicode_len();
    let mut i: usize = 0;
    proof {
        assert(x@.skip(0) =~= x@);
        assert(y@.skip(0) =~= y@);
    }
    while i < xn && i < yn
        invariant
            i <= xn,
            i <= yn,
            xn == x@.len(),
            yn == y@.len(),
            str_cmp(x@, y@) == str_cmp(x@.skip(i as int), y@.skip(i as int)),
        decreases xn - i,
    {
        proof {
            assert(x@.skip(i as int)[0] == x@[i as int]);
            assert(y@.skip(i as int)[0] == y@[i as int]);
            assert(x@.skip(i as int).drop_first() =~= x@.skip(i + 1));
            assert(y@.skip(i as int).drop_first() =~= y@.skip(i + 1));
        }
        let a = x.get_char(i);
        let b = y.get_char(i);
        let cx = a as u32;
        let cy = b as u32;
        if cx < cy {
            proof {
                assert(a != b);
            }
            return -1;
        }
        if cx > cy {
            proof {
                assert(a != b);
            }
            return 1;
        }
        proof {
            assert(a == b);
        }
        i = i + 1;
    }
    proof {
        assert(x@.skip(i as int).len() == x@.len() - i);
        assert(y@.skip(i as int).len() == y@.len() - i);
    }
    if i < yn {
        -1
    } else if i < xn {
        1
    } else {
        0
    }
}

/// One-field document comparison, as `key_cmp` states.
pub fn key_cmp_exec(a: &Value, b: &Value, field: &str) -> (r: i32)
    ensures
        r as int == key_cmp(a@, b@, field@),
        -1 <= r <= 1,
{
    let fa = doc_field_get(a, field);
    let fb = doc_field_get(b, field);
    match (fa, fb) {
        (Some(va), Some(vb)) => match (va, vb) {
            (Value::Num(xv), Value::Num(yv)) => {
                if *xv < *yv {
                    -1
                } else if *xv == *yv {
                    0
                } else {
                    1
                }
            },
            (Value::Str(xs), Value::Str(ys)) => str_cmp_exec(xs.as_str(), ys.as_str()),
            _ => 0,
        },
        (Some(_), None) => 1,
        (None, Some(_)) => -1,
        _ => 0,
    }
}

/// `key_cmp` oriented by the sort order, as `cmp_ord` states.
pub fn cmp_ord_exec(a: &Value, b: &Value, field: &str, order: SortOrder) -> (r: i32)
    ensures
        r as int == cmp_ord(a@, b@, field@, order),
        -1 <= r <= 1,
{
    let c = key_cmp_exec(a, b, field);
    match order {
        SortOrder::Ascending => c,
        SortOrder::Descending => -c,
    }
}

/// Inserting at the first position whose element compares greater is
/// what `insert_sorted` does.
proof fn lemma_insert_sorted_at(s: Seq<Val>, d: Val, field: Seq<char>, order: SortOrder, j: int)
    requires
        0 <= j <= s.len(),
        forall|k: int| 0 <= k < j ==> cmp_ord(#[trigger] s[k], d, field, order) <= 0,
        j == s.len() || cmp_ord(s[j], d, field, order) > 0,
    ensures
        insert_sorted(s, d, field, order) == s.take(j) + seq![d] + s.skip(j),
    decreases j,
{
    if j == 0 {
        assert(s.take(0) + seq![d] + s.skip(0) =~= seq![d] + s);
    } else {
        assert forall|i: int| 1 <= i < s.len() implies s.drop_first()[i - 1] == s[i] by {}
        lemma_insert_sorted_at(s.drop_first(), d, field, order, j - 1);
        assert(s.take(j) + seq![d] + s.skip(j) =~= seq![s[0]] + (s.drop_first().take(j - 1)
            + seq![d] + s.drop_first().skip(j - 1)));
    }
}

/// Sorts the documents by one field, stably, as `sort_docs` states.
pub fn sort_documents(docs: Vec<Value>, field: &str, order: SortOrder) -> (r: Vec<Value>)
    ensures
        seq_model(r@) == sort_docs(seq_model(docs@), field@, order),
{
    let ghost dm = seq_model(docs@);
    let mut out: Vec<Value> = Vec::new();
    let mut i: usize = 0;
    proof {
        assert(dm.take(0) =~= Seq::<Val>::empty());
        assert(seq_model(out@) =~= sort_docs(dm.take(0), field@, order));
    }
    while i < docs.len()
        invariant
            i <= docs.len(),
            dm == seq_model(docs@),
            seq_model(out@) == sort_docs(dm.take(i as int), field@, order),
        decreases docs.len() - i,
    {
        let ghost before = seq_model(out@);
        let d = &docs[i];
        let mut j: usize = 0;
        while j < out.len() && cmp_ord_exec(&out[j], d, field, order) <= 0
            invariant
                j <= out@.len(),
                dm == seq_model(docs@),
                i < docs.len(),
                d@ == dm[i as int],
                before == seq_model(out@),
                forall|k: int|
                    0 <= k < j ==> cmp_ord(#[trigger] seq_model(out@)[k], dm[i as int], field@, order)
                        <= 0,
            decreases out.len() - j,
        {
            proof {
                assert(seq_model(out@)[j as int] == out@[j as int]@);
                assert(dm[i as int] == docs@[i as int]@);
            }
            j = j + 1;
        }
        proof {
            lemma_insert_sorted_at(before, dm[i as int], field@, order, j as int);
        }
        out.insert(j, docs[i].clone());
        proof {
            assert(seq_model(out@) =~= before.take(j as int) + seq![dm[i as int]] + before.skip(
                j as int,
            ));
            assert(dm.take(i + 1).drop_last() =~= dm.take(i as int));
            assert(dm.take(i + 1).last() == dm[i as int]);
        }
        i = i + 1;
    }
    proof {
        assert(dm.take(docs@.len() as int) =~= dm);
    }
    out
}

/// The identifier the in-memory store assigns to the n-th generated
/// id: `id_1`, `id_2`, and so on.
pub open spec fn mock_id(n: u64) -> Seq<char> {
    "id_"@ + dec_digits(wrap_inc(n) as nat)
}

/// The in-memory storage provider: collections of documents with
/// equality filters, single-field sort, pagination, projection, merge
/// updates and an audit trail on delete. It is the reference
/// implementation of `DatabaseProvider` and serves the tests.
#[derive(Debug)]
pub struct MockDatabase {
    /// The collections, by name, in creation order.
    collections: Vec<(String, Vec<Value>)>,
    /// How many identifiers have been generated.
    next_id: u64,
}

impl MockDatabase {
    /// An empty store whose ids count up from `id_1`.
    pub fn new() -> (r: MockDatabase)
        ensures
            r.db_model().collections == Map::<Seq<char>, Seq<Val>>::empty(),
            r.db_model().next == 0,
            forall|n: u64| #[trigger] (r.db_model().gen)(n) == mock_id(n),
    {
        MockDatabase { collections: Vec::new(), next_id: 0 }
    }

    /// This store with one collection set to the given documents.
    pub fn with_collection(self, name: &str, documents: Vec<Value>) -> (r: MockDatabase)
        ensures
            r.db_model().collections == self.db_model().collections.insert(
                name@,
                seq_model(documents@),
            ),
            r.db_model().next == self.db_model().next,
            r.db_model().gen == self.db_model().gen,
    {
        let ghost cm = self.collections@;
        let mut out = self;
        match coll_find(&out.collections, name) {
            Some(j) => {
                proof {
                    lemma_colls_map(cm, name@);
                }
                out.collections[j] = (name.to_owned(), documents);
                proof {
                    lemma_colls_map_update(cm, j as int, out.collections@[j as int]);
                    assert(out.collections@ =~= cm.update(j as int, out.collections@[j as int]));
                }
            },
            None => {
                out.collections.push((name.to_owned(), documents));
                proof {
                    lemma_colls_map_push(cm, out.collections@.last());
                    assert(out.collections@ =~= cm.push(out.collections@.last()));
                }
            },
        }
        out
    }
}

impl Default for MockDatabase {
    /// The same empty store `new` builds.
    fn default() -> (r: MockDatabase)
        ensures
            r.db_model().collections == Map::<Seq<char>, Seq<Val>>::empty(),
            r.db_model().next == 0,
            forall|n: u64| #[trigger] (r.db_model().gen)(n) == mock_id(n),
    {
        MockDatabase::new()
    }
}

impl DatabaseProvider for MockDatabase {
    closed spec fn db_model(&self) -> DbModel {
        DbModel {
            collections: colls_map(self.collections@),
            gen: |n: u64| mock_id(n),
            next: self.next_id,
        }
    }

    #[verifier::rlimit(60)]
    fn query(
        &self,
        collection: &str,
        filter: Option<&Vec<(String, Value)>>,
        select: Option<&Vec<String>>,
        limit: Option<u32>,
        skip: Option<u32>,
        sort: Option<&Vec<(String, SortOrder)>>,
    ) -> (r: Result<Vec<Value>, ExecutionError>) {
        let ghost db = self.db_model();
        let docs: Vec<Value> = match coll_find(&self.collections, collection) {
            Some(j) => clone_values(&self.collections[j].1),
            None => Vec::new(),
        };
        proof {
            lemma_colls_map(self.collections@, collection@);
            assert(seq_model(docs@) =~= coll_of(db, collection@));
        }
        let filtered: Vec<Value> = match filter {
            Some(f) => {
                let ghost dm = seq_model(docs@);
                let ghost fm = entries_model(f@);
                let mut out: Vec<Value> = Vec::new();
                let mut i: usize = 0;
                proof {
                    assert(dm.skip(0) =~= dm);
                    assert(seq_model(out@) + filter_docs(dm, fm) =~= filter_docs(dm, fm));
                }
                while i < docs.len()
                    invariant
                        i <= docs.len(),
                        dm == seq_model(docs@),
                        fm == entries_model(f@),
                        seq_model(out@) + filter_docs(dm.skip(i as int), fm) =~= filter_docs(
                            dm,
                            fm,
                        ),
                    decreases docs.len() - i,
                {
                    proof {
                        assert(dm.skip(i as int)[0] == dm[i as int]);
                        assert(dm[i as int] == docs@[i as int]@);
                        assert(dm.skip(i as int).drop_first() =~= dm.skip(i + 1));
                    }
                    let ghost before = seq_model(out@);
                    if matches_filter(&docs[i], f) {
                        out.push(docs[i].clone());
                        proof {
                            assert(seq_model(out@) =~= before.push(dm[i as int]));
                            assert(before.push(dm[i as int]) =~= before + seq![dm[i as int]]);
                        }
                    }
                    i = i + 1;
                }
                proof {
                    assert(filter_docs(dm.skip(docs@.len() as int), fm) =~= Seq::<Val>::empty());
                    assert(seq_model(out@) =~= seq_model(out@) + Seq::<Val>::empty());
                }
                out
            },
            None => docs,
        };
        let sorted: Vec<Value> = match sort {
            Some(sv) => {
                if sv.len() > 0 {
                    proof {
                        assert(sort_entries_model(sv@)[0] == (sv@[0].0@, sv@[0].1));
                    }
                    sort_documents(filtered, sv[0].0.as_str(), sv[0].1)
                } else {
                    filtered
                }
            },
            None => filtered,
        };
        let skipped: Vec<Value> = match skip {
            Some(k) => {
                let ghost sm = seq_model(sorted@);
                let kk: usize = if (k as usize) <= sorted.len() {
                    k as usize
                } else {
                    sorted.len()
                };
                let mut out: Vec<Value> = Vec::new();
                let mut i: usize = kk;
                while i < sorted.len()
                    invariant
                        kk <= i <= sorted.len(),
                        sm == seq_model(sorted@),
                        out@.len() == i - kk,
                        forall|t: int| 0 <= t < out@.len() ==> out@[t]@ == sm[kk + t],
                    decreases sorted.len() - i,
                {
                    out.push(sorted[i].clone());
                    i = i + 1;
                }
                proof {
                    if k <= sm.len() {
                        assert(seq_model(out@) =~= sm.skip(k as int));
                    } else {
                        assert(seq_model(out@) =~= Seq::<Val>::empty());
                    }
                }
                out
            },
            None => sorted,
        };
        let limited: Vec<Value> = match limit {
            Some(l) => {
                let ghost km = seq_model(skipped@);
                let mut v = skipped;
                if (l as usize) <= v.len() {
                    v.truncate(l as usize);
                    proof {
                        assert(seq_model(v@) =~= km.take(l as int));
                    }
                }
                v
            },
            None => skipped,
        };
        let result: Vec<Value> = match select {
            Some(sel) => {
                let ghost lm = seq_model(limited@);
                let mut out: Vec<Value> = Vec::new();
                let mut i: usize = 0;
                while i < limited.len()
                    invariant
                        i <= limited.len(),
                        lm == seq_model(limited@),
                        out@.len() == i as int,
                        forall|t: int|
                            0 <= t < i ==> out@[t]@ == project_doc(lm[t], strs_model(sel@)),
                    decreases limited.len() - i,
                {
                    proof {
                        assert(lm[i as int] == limited@[i as int]@);
                    }
                    out.push(project_fields(&limited[i], sel));
                    i = i + 1;
                }
                proof {
                    assert(seq_model(out@) =~= project_docs(lm, strs_model(sel@)));
                }
                out
            },
            None => limited,
        };
        Ok(result)
    }

    #[verifier::rlimit(60)]
    fn insert(&mut self, collection: &str, document: &Vec<(String, Value)>) -> (r: Result<
        Value,
        ExecutionError,
    >) {
        let ghost db = old(self).db_model();
        let ghost cm = old(self).collections@;
        let mut entries = crate::value::clone_entries(document);
        let idkey: String = String::from_str("_id");
        proof {
            reveal_strlit("_id");
            reveal_strlit("id_");
            crate::value::lemma_obj_index(entries_model(entries@), "_id"@);
        }
        let ghost dm = entries_model(document@);
        match crate::value::obj_find(&entries, &idkey) {
            Some(_) => {
                proof {
                    assert(obj_lookup(dm, "_id"@) is Some);
                }
            },
            None => {
                proof {
                    assert(obj_lookup(dm, "_id"@) is None);
                }
                let c: u64 = if self.next_id == u64::MAX {
                    0
                } else {
                    self.next_id + 1
                };
                let mut id = String::from_str("id_");
                id.append(crate::value::u64_to_string(c).as_str());
                let ghost ebefore = entries_model(entries@);
                let ghost idchars = id@;
                proof {
                    assert(idchars == mock_id(db.next));
                    assert((db.gen)(db.next) == mock_id(db.next));
                }
                entries.push((idkey, Value::Str(id)));
                proof {
                    assert(entries_model(entries@) =~= ebefore.push(("_id"@, Val::Str(idchars))));
                }
                self.next_id = c;
            },
        }
        let doc = Value::Obj(entries);
        proof {
            if obj_lookup(dm, "_id"@) is Some {
                assert(doc@ == insert_model(db, collection@, dm).1);
            } else {
                assert(doc@->Obj_0 =~= dm.push(("_id"@, Val::Str((db.gen)(db.next)))));
                assert(doc@ == insert_model(db, collection@, dm).1);
            }
        }
        match coll_find(&self.collections, collection) {
            Some(j) => {
                proof {
                    lemma_colls_map(cm, collection@);
                }
                let name2 = self.collections[j].0.clone();
                let mut docs2 = clone_values(&self.collections[j].1);
                docs2.push(doc.clone());
                proof {
                    assert(seq_model(docs2@) =~= coll_of(db, collection@).push(doc@));
                }
                self.collections[j] = (name2, docs2);
                proof {
                    lemma_colls_map_update(cm, j as int, self.collections@[j as int]);
                    assert(self.collections@ =~= cm.update(j as int, self.collections@[j as int]));
                    assert(self.db_model().collections =~= insert_model(
                        db,
                        collection@,
                        entries_model(document@),
                    ).0.collections);
                }
            },
            None => {
                let mut docs2: Vec<Value> = Vec::new();
                docs2.push(doc.clone());
                proof {
                    lemma_colls_map(cm, collection@);
                    assert(seq_model(docs2@) =~= coll_of(db, collection@).push(doc@));
                }
                self.collections.push((collection.to_owned(), docs2));
                proof {
                    lemma_colls_map_push(cm, self.collections@.last());
                    assert(self.collections@ =~= cm.push(self.collections@.last()));
                    assert(self.db_model().collections =~= insert_model(
                        db,
                        collection@,
                        entries_model(document@),
                    ).0.collections);
                }
            },
        }
        Ok(doc)
    }

    fn update(
        &mut self,
        collection: &str,
        filter: &Vec<(String, Value)>,
        update: &Vec<(String, Value)>,
    ) -> (r: Result<Vec<Value>, ExecutionError>) {
        let ghost db = old(self).db_model();
        let ghost cm = old(self).collections@;
        let ghost fm = entries_model(filter@);
        let ghost um = entries_model(update@);
        let j: usize = match coll_find(&self.collections, collection) {
            Some(j) => j,
            None => {
                proof {
                    lemma_colls_map(cm, collection@);
                }
                return Ok(Vec::new());
            },
        };
        proof {
            lemma_colls_map(cm, collection@);
        }
        let docs = clone_values(&self.collections[j].1);
        let ghost dm = seq_model(docs@);
        proof {
            assert(dm == db.collections[collection@]);
            assert(dm.skip(0) =~= dm);
        }
        let mut newdocs: Vec<Value> = Vec::new();
        let mut updated: Vec<Value> = Vec::new();
        let mut i: usize = 0;
        proof {
            assert(seq_model(updated@) + updated_list(dm, fm, um) =~= updated_list(dm, fm, um));
        }
        while i < docs.len()
            invariant
                i <= docs.len(),
                dm == seq_model(docs@),
                fm == entries_model(filter@),
                um == entries_model(update@),
                newdocs@.len() == i as int,
                forall|t: int|
                    0 <= t < i ==> newdocs@[t]@ == (if doc_matches(dm[t], fm) {
                        merge_into(dm[t], um)
                    } else {
                        dm[t]
                    }),
                seq_model(updated@) + updated_list(dm.skip(i as int), fm, um) =~= updated_list(
                    dm,
                    fm,
                    um,
                ),
            decreases docs.len() - i,
        {
            proof {
                assert(dm.skip(i as int)[0] == dm[i as int]);
                assert(dm[i as int] == docs@[i as int]@);
                assert(dm.skip(i as int).drop_first() =~= dm.skip(i + 1));
            }
            let ghost ubefore = seq_model(updated@);
            if matches_filter(&docs[i], filter) {
                let nd = merge_update(&docs[i], update);
                updated.push(nd.clone());
                newdocs.push(nd);
                proof {
                    assert(seq_model(updated@) =~= ubefore.push(merge_into(dm[i as int], um)));
                    assert(ubefore.push(merge_into(dm[i as int], um)) =~= ubefore + seq![
                        merge_into(dm[i as int], um),
                    ]);
                }
            } else {
                newdocs.push(docs[i].clone());
            }
            i = i + 1;
        }
        proof {
            assert(updated_list(dm.skip(docs@.len() as int), fm, um) =~= Seq::<Val>::empty());
            assert(seq_model(updated@) =~= seq_model(updated@) + Seq::<Val>::empty());
            assert(seq_model(updated@) =~= updated_list(dm, fm, um));
        }
        let name2 = self.collections[j].0.clone();
        self.collections[j] = (name2, newdocs);
        proof {
            assert(seq_model(self.collections@[j as int].1@) =~= update_docs(dm, fm, um));
            lemma_colls_map_update(cm, j as int, self.collections@[j as int]);
            assert(self.collections@ =~= cm.update(j as int, self.collections@[j as int]));
            assert(self.db_model().collections =~= update_model(db, collection@, fm, um)
                .0.collections);
        }
        Ok(updated)
    }

    fn delete(&mut self, collection: &str, filter: &Vec<(String, Value)>) -> (r: Result<
        Vec<Value>,
        ExecutionError,
    >) {
        let ghost db = old(self).db_model();
        let ghost cm = old(self).collections@;
        let ghost fm = entries_model(filter@);
        let j: usize = match coll_find(&self.collections, collection) {
            Some(j) => j,
            None => {
                proof {
                    lemma_colls_map(cm, collection@);
                }
                return Ok(Vec::new());
            },
        };
        proof {
            lemma_colls_map(cm, collection@);
        }
        let docs = clone_values(&self.collections[j].1);
        let ghost dm = seq_model(docs@);
        proof {
            assert(dm == db.collections[collection@]);
            assert(dm.skip(0) =~= dm);
        }
        let mut kept: Vec<Value> = Vec::new();
        let mut deleted: Vec<Value> = Vec::new();
        let mut i: usize = 0;
        proof {
            assert(seq_model(deleted@) + filter_docs(dm, fm) =~= filter_docs(dm, fm));
            assert(seq_model(kept@) + keep_docs(dm, fm) =~= keep_docs(dm, fm));
        }
        while i < docs.len()
            invariant
                i <= docs.len(),
                dm == seq_model(docs@),
                fm == entries_model(filter@),
                seq_model(deleted@) + filter_docs(dm.skip(i as int), fm) =~= filter_docs(dm, fm),
                seq_model(kept@) + keep_docs(dm.skip(i as int), fm) =~= keep_docs(dm, fm),
            decreases docs.len() - i,
        {
            proof {
                assert(dm.skip(i as int)[0] == dm[i as int]);
                assert(dm[i as int] == docs@[i as int]@);
                assert(dm.skip(i as int).drop_first() =~= dm.skip(i + 1));
            }
            let ghost dbefore = seq_model(deleted@);
            let ghost kbefore = seq_model(kept@);
            if matches_filter(&docs[i], filter) {
                deleted.push(docs[i].clone());
                proof {
                    assert(seq_model(deleted@) =~= dbefore.push(dm[i as int]));
                    assert(dbefore.push(dm[i as int]) =~= dbefore + seq![dm[i as int]]);
                }
            } else {
                kept.push(docs[i].clone());
                proof {
                    assert(seq_model(kept@) =~= kbefore.push(dm[i as int]));
                    assert(kbefore.push(dm[i as int]) =~= kbefore + seq![dm[i as int]]);
                }
            }
            i = i + 1;
        }
        proof {
            assert(filter_docs(dm.skip(docs@.len() as int), fm) =~= Seq::<Val>::empty());
            assert(keep_docs(dm.skip(docs@.len() as int), fm) =~= Seq::<Val>::empty());
            assert(seq_model(deleted@) =~= seq_model(deleted@) + Seq::<Val>::empty());
            assert(seq_model(kept@) =~= seq_model(kept@) + Seq::<Val>::empty());
        }
        let name2 = self.collections[j].0.clone();
        self.collections[j] = (name2, kept);
        proof {
            lemma_colls_map_update(cm, j as int, self.collections@[j as int]);
            assert(self.collections@ =~= cm.update(j as int, self.collections@[j as int]));
            assert(self.db_model().collections =~= delete_model(db, collection@, fm).0.collections);
        }
        Ok(deleted)
    }
}

/// The document with the update map's fields merged in, as
/// `merge_into` states.
pub fn merge_update(doc: &Value, update: &Vec<(String, Value)>) -> (r: Value)
    ensures
        r@ == merge_into(doc@, entries_model(update@)),
{
    match doc {
        Value::Obj(entries) => {
            let ghost em = entries_model(entries@);
            let ghost um = entries_model(update@);
            let mut out = crate::value::clone_entries(entries);
            let mut i: usize = 0;
            proof {
                assert(um.skip(0) =~= um);
            }
            while i < update.len()
                invariant
                    i <= update.len(),
                    um == entries_model(update@),
                    obj_insert_all(entries_model(out@), um.skip(i as int)) == obj_insert_all(
                        em,
                        um,
                    ),
                decreases update.len() - i,
            {
                proof {
                    assert(um.skip(i as int)[0] == um[i as int]);
                    assert(um.skip(i as int).drop_first() =~= um.skip(i + 1));
                }
                crate::value::obj_set(&mut out, update[i].0.clone(), update[i].1.clone());
                i = i + 1;
            }
            proof {
                assert(um.skip(update@.len() as int).len() == 0);
            }
            Value::Obj(out)
        },
        _ => doc.clone(),
    }
}

} // verus!
