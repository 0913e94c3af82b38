use vstd::prelude::*;

use crate::executor::traits::{
    coll_of, doc_matches, filter_docs, insert_model, keep_docs, obj_insert_all, query_model,
    str_cmp, DbModel,
};
use crate::executor::{compare_model, eval_and_model, eval_model, eval_op_model, eval_or_model};
use crate::operators::{Operator, OperatorValue};
use crate::pipeline::error::ErrModel;
use crate::value::{obj_insert, obj_lookup, truthy, val_eq, Val, Value};

verus! {


/// Literal identity: evaluating a literal returns its value unchanged
/// and touches nothing.
pub proof fn literal_identity(
    now: Seq<char>,
    db: DbModel,
    ctx: Seq<(Seq<char>, Val)>,
    v: Value,
)
    ensures
        eval_model(now, db, ctx, OperatorValue::Literal(v)) == (Ok::<Val, ErrModel>(v@), db),
{
}

/// Binding identity: a name just bound looks up to its value.
pub proof fn bind_get(c: Seq<(Seq<char>, Val)>, n: Seq<char>, v: Val)
    ensures
        obj_lookup(obj_insert(c, n, v), n) == Some(v),
    decreases c.len(),
{
    if c.len() > 0 && c[0].0 != n {
        assert(obj_insert(c, n, v).drop_first() =~= obj_insert(c.drop_first(), n, v));
        bind_get(c.drop_first(), n, v);
    } else {
        assert(obj_insert(c, n, v)[0] == (n, v));
    }
}

/// A binding of a different name does not disturb a lookup.
pub proof fn bind_get_other(c: Seq<(Seq<char>, Val)>, n: Seq<char>, v: Val, m: Seq<char>)
    requires
        m != n,
    ensures
        obj_lookup(obj_insert(c, n, v), m) == obj_lookup(c, m),
    decreases c.len(),
{
    reveal_with_fuel(obj_lookup, 2);
    if c.len() > 0 && c[0].0 != n {
        assert(obj_insert(c, n, v).drop_first() =~= obj_insert(c.drop_first(), n, v));
        assert(obj_insert(c, n, v)[0] == c[0]);
        bind_get_other(c.drop_first(), n, v, m);
    } else if c.len() > 0 {
        assert(obj_insert(c, n, v)[0] == (n, v));
        assert(obj_insert(c, n, v).drop_first() =~= c.drop_first());
    } else {
        assert(obj_insert(c, n, v)[0] == (n, v));
        assert(obj_insert(c, n, v).drop_first() =~= Seq::<(Seq<char>, Val)>::empty());
    }
}

/// Context shadowing: binding a name twice leaves the later value.
pub proof fn bind_shadows(c: Seq<(Seq<char>, Val)>, n: Seq<char>, v1: Val, v2: Val)
    ensures
        obj_lookup(obj_insert(obj_insert(c, n, v1), n, v2), n) == Some(v2),
{
    bind_get(obj_insert(c, n, v1), n, v2);
}

/// Short-circuit conjunction: once a prefix of the conditions yields
/// false, the remaining conditions are never evaluated — the whole
/// `$and` returns exactly what the prefix returned, whatever the
/// suffix would do or raise.
pub proof fn and_short_circuit(
    now: Seq<char>,
    db: DbModel,
    ctx: Seq<(Seq<char>, Val)>,
    prefix: Seq<OperatorValue>,
    suffix: Seq<OperatorValue>,
)
    requires
        eval_and_model(now, db, ctx, prefix).0 == Ok::<Val, ErrModel>(Val::Bool(false)),
    ensures
        eval_and_model(now, db, ctx, prefix + suffix) == eval_and_model(now, db, ctx, prefix),
    decreases prefix.len(),
{
    if prefix.len() == 0 {
        assert(eval_and_model(now, db, ctx, prefix).0 == Ok::<Val, ErrModel>(Val::Bool(true)));
    } else {
        assert((prefix + suffix)[0] == prefix[0]);
        assert((prefix + suffix).len() > 0);
        assert((prefix + suffix).drop_first() =~= prefix.drop_first() + suffix);
        let (c, db1) = eval_model(now, db, ctx, prefix[0]);
        match c {
            Err(_) => {},
            Ok(v) => {
                if truthy(v) {
                    and_short_circuit(now, db1, ctx, prefix.drop_first(), suffix);
                }
            },
        }
    }
}

/// Short-circuit disjunction: once a prefix yields true, the suffix is
/// never evaluated.
pub proof fn or_short_circuit(
    now: Seq<char>,
    db: DbModel,
    ctx: Seq<(Seq<char>, Val)>,
    prefix: Seq<OperatorValue>,
    suffix: Seq<OperatorValue>,
)
    requires
        eval_or_model(now, db, ctx, prefix).0 == Ok::<Val, ErrModel>(Val::Bool(true)),
    ensures
        eval_or_model(now, db, ctx, prefix + suffix) == eval_or_model(now, db, ctx, prefix),
    decreases prefix.len(),
{
    if prefix.len() == 0 {
        assert(eval_or_model(now, db, ctx, prefix).0 == Ok::<Val, ErrModel>(Val::Bool(false)));
    } else {
        assert((prefix + suffix)[0] == prefix[0]);
        assert((prefix + suffix).len() > 0);
        assert((prefix + suffix).drop_first() =~= prefix.drop_first() + suffix);
        let (c, db1) = eval_model(now, db, ctx, prefix[0]);
        match c {
            Err(_) => {},
            Ok(v) => {
                if !truthy(v) {
                    or_short_circuit(now, db1, ctx, prefix.drop_first(), suffix);
                }
            },
        }
    }
}

/// Vacuous logic: `$and` of nothing is true, `$or` of nothing is
/// false, and `$not` negates its argument's truthiness.
pub proof fn vacuous_logic(
    now: Seq<char>,
    db: DbModel,
    ctx: Seq<(Seq<char>, Val)>,
    cond: OperatorValue,
    v: Val,
    db1: DbModel,
)
    requires
        eval_model(now, db, ctx, cond) == (Ok::<Val, ErrModel>(v), db1),
    ensures
        eval_and_model(now, db, ctx, Seq::empty()) == (Ok::<Val, ErrModel>(Val::Bool(true)), db),
        eval_or_model(now, db, ctx, Seq::empty()) == (Ok::<Val, ErrModel>(Val::Bool(false)), db),
        eval_op_model(now, db, ctx, Operator::Not { condition: cond }) == (
            Ok::<Val, ErrModel>(Val::Bool(!truthy(v))),
            db1,
        ),
{
}

/// A zero string comparison means the strings are equal.
proof fn str_cmp_zero(x: Seq<char>, y: Seq<char>)
    ensures
        str_cmp(x, y) == 0 <==> x == y,
    decreases x.len(),
{
    if x.len() > 0 && y.len() > 0 && x[0] == y[0] {
        str_cmp_zero(x.drop_first(), y.drop_first());
        if str_cmp(x, y) == 0 {
            assert(x.drop_first() == y.drop_first());
            assert(x.len() == y.len());
            assert forall|i: int| 0 <= i < x.len() implies x[i] == y[i] by {
                if i >= 1 {
                    assert(x[i] == x.drop_first()[i - 1]);
                    assert(y[i] == y.drop_first()[i - 1]);
                }
            }
            assert(x =~= y);
        }
        if x == y {
            assert(x.drop_first() =~= y.drop_first());
        }
    } else if x.len() == 0 && y.len() == 0 {
        assert(x =~= y);
    } else {
        if x == y {
            assert(x.len() == y.len());
        }
    }
}

/// Comparison totality: on two numbers or two strings the comparison
/// succeeds, exactly one of greater, structurally-equal and less
/// holds, and the non-strict operators are the strict one or
/// equality.
pub proof fn comparison_totality(l: Val, r: Val)
    requires
        (l is Num && r is Num) || (l is Str && r is Str),
    ensures
        compare_model(l, r) matches Ok(c) && {
            let gt = c > 0;
            let eq = val_eq(l, r);
            let lt = c < 0;
            &&& (gt || eq || lt)
            &&& !(gt && eq)
            &&& !(gt && lt)
            &&& !(eq && lt)
            &&& (c >= 0 <==> gt || eq)
            &&& (c <= 0 <==> lt || eq)
        },
{
    match (l, r) {
        (Val::Str(x), Val::Str(y)) => {
            str_cmp_zero(x, y);
            str_cmp_range(x, y);
        },
        _ => {},
    }
}

/// A string comparison is -1, 0 or 1.
proof fn str_cmp_range(x: Seq<char>, y: Seq<char>)
    ensures
        -1 <= str_cmp(x, y) <= 1,
    decreases x.len(),
{
    if x.len() > 0 && y.len() > 0 && x[0] == y[0] {
        str_cmp_range(x.drop_first(), y.drop_first());
    }
}

/// Filtering distributes over appending one document.
proof fn filter_docs_push(docs: Seq<Val>, d: Val, f: Seq<(Seq<char>, Val)>)
    ensures
        filter_docs(docs.push(d), f) == filter_docs(docs, f) + (if doc_matches(d, f) {
            seq![d]
        } else {
            Seq::<Val>::empty()
        }),
    decreases docs.len(),
{
    reveal_with_fuel(filter_docs, 2);
    if docs.len() == 0 {
        assert(docs.push(d)[0] == d);
        assert(docs.push(d).drop_first() =~= Seq::<Val>::empty());
        if doc_matches(d, f) {
            assert(filter_docs(docs.push(d), f) =~= filter_docs(docs, f) + seq![d]);
        } else {
            assert(filter_docs(docs.push(d), f) =~= filter_docs(docs, f) + Seq::<Val>::empty());
        }
    } else {
        assert(docs.push(d)[0] == docs[0]);
        assert(docs.push(d).drop_first() =~= docs.drop_first().push(d));
        filter_docs_push(docs.drop_first(), d, f);
        let head = if doc_matches(docs[0], f) {
            seq![docs[0]]
        } else {
            Seq::<Val>::empty()
        };
        let tail = if doc_matches(d, f) {
            seq![d]
        } else {
            Seq::<Val>::empty()
        };
        assert(filter_docs(docs.push(d), f) == head + filter_docs(docs.drop_first().push(d), f));
        assert(filter_docs(docs.push(d), f) == head + (filter_docs(docs.drop_first(), f) + tail));
        assert(filter_docs(docs, f) == head + filter_docs(docs.drop_first(), f));
        assert(head + (filter_docs(docs.drop_first(), f) + tail) =~= (head + filter_docs(
            docs.drop_first(),
            f,
        )) + tail);
    }
}

/// With no matching document, the filter keeps nothing.
proof fn filter_docs_none(docs: Seq<Val>, f: Seq<(Seq<char>, Val)>)
    requires
        forall|i: int| 0 <= i < docs.len() ==> !doc_matches(#[trigger] docs[i], f),
    ensures
        filter_docs(docs, f) == Seq::<Val>::empty(),
    decreases docs.len(),
{
    if docs.len() > 0 {
        assert forall|i: int| 1 <= i < docs.len() implies docs.drop_first()[i - 1] == docs[i] by {}
        filter_docs_none(docs.drop_first(), f);
        assert(filter_docs(docs, f) =~= Seq::<Val>::empty());
    } else {
        assert(filter_docs(docs, f) =~= Seq::<Val>::empty());
    }
}

/// Insert then query: a document inserted without an `_id` gets one,
/// and a query filtered on exactly that `_id` returns exactly the
/// stored document — provided no existing document of the collection
/// already carries the freshly assigned identifier.
pub proof fn insert_then_query(db: DbModel, coll: Seq<char>, doc: Seq<(Seq<char>, Val)>)
    requires
        obj_lookup(doc, "_id"@) is None,
        forall|i: int|
            0 <= i < coll_of(db, coll).len() ==> !doc_matches(
                #[trigger] coll_of(db, coll)[i],
                seq![("_id"@, Val::Str((db.gen)(db.next)))],
            ),
    ensures
        ({
            let (db2, stored) = insert_model(db, coll, doc);
            query_model(
                db2,
                coll,
                Some(seq![("_id"@, Val::Str((db.gen)(db.next)))]),
                None,
                None,
                None,
                None,
            ) == seq![stored]
        }),
{
    let id = Val::Str((db.gen)(db.next));
    let f = seq![("_id"@, id)];
    let (db2, stored) = insert_model(db, coll, doc);
    let entries = doc.push(("_id"@, id));
    bind_get_push(doc, "_id"@, id);
    assert(stored == Val::Obj(entries));
    assert(doc_matches(stored, f)) by {
        assert(obj_lookup(entries, "_id"@) == Some(id));
        assert(f[0] == ("_id"@, id));
        assert(f.drop_first() =~= Seq::<(Seq<char>, Val)>::empty());
        assert(crate::executor::traits::fields_match(entries, f.drop_first()));
        assert(val_eq(id, id));
        assert(crate::executor::traits::fields_match(entries, f));
    }
    assert(db2.collections.contains_key(coll));
    assert(coll_of(db2, coll) == coll_of(db, coll).push(stored));
    filter_docs_push(coll_of(db, coll), stored, f);
    filter_docs_none(coll_of(db, coll), f);
    assert(filter_docs(coll_of(db2, coll), f) =~= seq![stored]);
}

/// Appending a fresh key makes it visible to lookup.
proof fn bind_get_push(c: Seq<(Seq<char>, Val)>, n: Seq<char>, v: Val)
    requires
        obj_lookup(c, n) is None,
    ensures
        obj_lookup(c.push((n, v)), n) == Some(v),
    decreases c.len(),
{
    if c.len() == 0 {
        assert(c.push((n, v))[0] == (n, v));
    } else {
        assert(c.push((n, v))[0] == c[0]);
        assert(c.push((n, v)).drop_first() =~= c.drop_first().push((n, v)));
        bind_get_push(c.drop_first(), n, v);
    }
}

/// What survives a delete never matches the delete's filter.
proof fn keep_docs_clean(docs: Seq<Val>, f: Seq<(Seq<char>, Val)>)
    ensures
        forall|i: int|
            0 <= i < keep_docs(docs, f).len() ==> !doc_matches(#[trigger] keep_docs(docs, f)[i], f),
    decreases docs.len(),
{
    if docs.len() > 0 {
        keep_docs_clean(docs.drop_first(), f);
        let kd = keep_docs(docs, f);
        let rest = keep_docs(docs.drop_first(), f);
        if doc_matches(docs[0], f) {
            assert(kd =~= rest);
        } else {
            assert(kd =~= seq![docs[0]] + rest);
            assert forall|i: int| 0 <= i < kd.len() implies !doc_matches(kd[i], f) by {
                if i > 0 {
                    assert(kd[i] == rest[i - 1]);
                }
            }
        }
    }
}

/// Delete then query: after a delete, a filterless query of the
/// collection sees only the kept documents, and none of them matches
/// the delete's filter — so no deleted document is visible.
pub proof fn delete_then_query(db: DbModel, coll: Seq<char>, f: Seq<(Seq<char>, Val)>)
    requires
        db.collections.contains_key(coll),
    ensures
        ({
            let (db2, _deleted) = crate::executor::traits::delete_model(db, coll, f);
            let visible = query_model(db2, coll, None, None, None, None, None);
            &&& visible == keep_docs(coll_of(db, coll), f)
            &&& forall|i: int|
                0 <= i < visible.len() ==> !doc_matches(#[trigger] visible[i], f)
        }),
{
    keep_docs_clean(coll_of(db, coll), f);
}

/// Merge precedence: looking up a key in the merge of `a` and `b`
/// gives `b`'s value where `b` has the key (its keys being unique),
/// else `a`'s; so the merged keys are the union of both.
pub proof fn merge_precedence(a: Seq<(Seq<char>, Val)>, b: Seq<(Seq<char>, Val)>, k: Seq<char>)
    requires
        forall|i: int, j: int|
            0 <= i < j < b.len() ==> (#[trigger] b[i].0) != (#[trigger] b[j].0),
    ensures
        obj_lookup(obj_insert_all(a, b), k) == (match obj_lookup(b, k) {
            Some(v) => Some(v),
            None => obj_lookup(a, k),
        }),
    decreases b.len(),
{
    if b.len() > 0 {
        assert forall|i: int| 1 <= i < b.len() implies b.drop_first()[i - 1] == b[i] by {}
        merge_precedence(obj_insert(a, b[0].0, b[0].1), b.drop_first(), k);
        if obj_lookup(b.drop_first(), k) is None {
            if k == b[0].0 {
                bind_get(a, b[0].0, b[0].1);
            } else {
                bind_get_other(a, b[0].0, b[0].1, k);
            }
        } else {
            lookup_some_means_key(b.drop_first(), k);
        }
    }
}

/// A successful lookup means some entry has the key.
proof fn lookup_some_means_key(c: Seq<(Seq<char>, Val)>, k: Seq<char>)
    requires
        obj_lookup(c, k) is Some,
    ensures
        exists|i: int| 0 <= i < c.len() && (#[trigger] c[i].0) == k,
    decreases c.len(),
{
    if c.len() > 0 && c[0].0 != k {
        lookup_some_means_key(c.drop_first(), k);
        let i = choose|i: int| 0 <= i < c.drop_first().len() && (#[trigger] c.drop_first()[i].0)
            == k;
        assert(c[i + 1].0 == k);
    }
}

/// Validate identity: when the data evaluates cleanly and satisfies
/// the schema, `$validate` returns the data unchanged.
pub proof fn validate_identity(
    now: Seq<char>,
    db: DbModel,
    ctx: Seq<(Seq<char>, Val)>,
    op: crate::operators::ValidateOp,
    d: Val,
    db1: DbModel,
)
    requires
        eval_model(now, db, ctx, op.data) == (Ok::<Val, ErrModel>(d), db1),
        crate::executor::schema_verdict(op.schema@, d) == Ok::<Seq<Seq<char>>, Seq<char>>(
            Seq::empty(),
        ),
    ensures
        eval_op_model(now, db, ctx, Operator::Validate(op)) == (Ok::<Val, ErrModel>(d), db1),
{
}

} // verus!
