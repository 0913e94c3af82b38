use vstd::prelude::*;

verus! {

/// The JSON-shaped value domain of the operator language.
///
/// Numbers are 64-bit signed integers. Objects are insertion-ordered
/// lists of key/value entries; all constructors in this crate keep the
/// keys of an object unique by replacing an existing entry in place.
#[derive(Debug)]
pub enum Value {
    Null,
    Bool(bool),
    Num(i64),
    Str(String),
    Arr(Vec<Value>),
    Obj(Vec<(String, Value)>),
}

/// The mathematical model of a `Value`.
#[verifier::ext_equal]
pub enum Val {
    Null,
    Bool(bool),
    Num(int),
    Str(Seq<char>),
    Arr(Seq<Val>),
    Obj(Seq<(Seq<char>, Val)>),
}

impl Value {
    pub open spec fn model(&self) -> Val
        decreases self,
    {
        match self {
            Value::Null => Val::Null,
            Value::Bool(b) => Val::Bool(*b),
            Value::Num(n) => Val::Num(*n as int),
            Value::Str(s) => Val::Str(s@),
            Value::Arr(items) => Val::Arr(seq_model(items@)),
            Value::Obj(entries) => Val::Obj(entries_model(entries@)),
        }
    }
}

impl View for Value {
    type V = Val;

    open spec fn view(&self) -> Val {
        self.model()
    }
}

/// The models of a sequence of values.
pub open spec fn seq_model(s: Seq<Value>) -> Seq<Val>
    decreases s,
{
    Seq::new(
        s.len(),
        |i: int|
            if 0 <= i < s.len() {
                s[i].model()
            } else {
                Val::Null
            },
    )
}

/// The models of a sequence of strings.
pub open spec fn strs_model(s: Seq<String>) -> Seq<Seq<char>> {
    Seq::new(s.len(), |i: int| s[i]@)
}

/// The models of a sequence of named values.
pub open spec fn entries_model(s: Seq<(String, Value)>) -> Seq<(Seq<char>, Val)>
    decreases s,
{
    Seq::new(
        s.len(),
        |i: int|
            if 0 <= i < s.len() {
                (s[i].0@, s[i].1.model())
            } else {
                ("".view(), Val::Null)
            },
    )
}

/// First entry of `entries` whose key is `key`, if any.
pub open spec fn obj_lookup(entries: Seq<(Seq<char>, Val)>, key: Seq<char>) -> Option<Val>
    decreases entries.len(),
{
    if entries.len() == 0 {
        None
    } else if entries[0].0 == key {
        Some(entries[0].1)
    } else {
        obj_lookup(entries.drop_first(), key)
    }
}

/// Index of the first entry of `entries` whose key is `key`, or -1.
pub open spec fn obj_index(entries: Seq<(Seq<char>, Val)>, key: Seq<char>) -> int
    decreases entries.len(),
{
    if entries.len() == 0 {
        -1
    } else if entries[0].0 == key {
        0
    } else {
        let r = obj_index(entries.drop_first(), key);
        if r < 0 {
            -1
        } else {
            r + 1
        }
    }
}

/// Binding `key` to `value`: replaces the first entry with that key, or
/// appends a new entry at the end.
pub open spec fn obj_insert(entries: Seq<(Seq<char>, Val)>, key: Seq<char>, value: Val) -> Seq<
    (Seq<char>, Val),
>
    decreases entries.len(),
{
    if entries.len() == 0 {
        seq![(key, value)]
    } else if entries[0].0 == key {
        seq![(key, value)] + entries.drop_first()
    } else {
        seq![entries[0]] + obj_insert(entries.drop_first(), key, value)
    }
}

/// Truthiness: null and false are false; zero is false; empty strings,
/// arrays and objects are false; everything else is true.
pub open spec fn truthy(v: Val) -> bool {
    match v {
        Val::Null => false,
        Val::Bool(b) => b,
        Val::Num(n) => n != 0,
        Val::Str(s) => s.len() != 0,
        Val::Arr(items) => items.len() != 0,
        Val::Obj(entries) => entries.len() != 0,
    }
}

/// The name of a value's type, as used in error messages.
pub open spec fn type_name_of(v: Val) -> Seq<char> {
    match v {
        Val::Null => "null"@,
        Val::Bool(_) => "boolean"@,
        Val::Num(_) => "number"@,
        Val::Str(_) => "string"@,
        Val::Arr(_) => "array"@,
        Val::Obj(_) => "object"@,
    }
}

/// Structural equality on the value domain.
///
/// Arrays compare element by element in order; objects compare as
/// key/value mappings, each side's entries resolved against the other
/// side by first-match lookup, so the order of keys does not matter.
pub open spec fn val_eq(a: Val, b: Val) -> bool
    decreases a, 0int,
{
    match (a, b) {
        (Val::Null, Val::Null) => true,
        (Val::Bool(x), Val::Bool(y)) => x == y,
        (Val::Num(x), Val::Num(y)) => x == y,
        (Val::Str(x), Val::Str(y)) => x == y,
        (Val::Arr(x), Val::Arr(y)) => x.len() == y.len() && arr_eq_elems(x, y),
        (Val::Obj(x), Val::Obj(y)) => obj_eq_fwd(x, y) && obj_eq_rev(x, y),
        _ => false,
    }
}

/// Pairwise `val_eq` of two arrays' elements, in order.
pub open spec fn arr_eq_elems(x: Seq<Val>, y: Seq<Val>) -> bool
    decreases x, 0int,
{
    if x.len() == 0 {
        true
    } else {
        y.len() > 0 && val_eq(x[0], y[0]) && arr_eq_elems(x.drop_first(), y.drop_first())
    }
}

/// Every entry of `x` has a `val_eq`-matching entry in `y`, resolved by
/// first-match lookup.
pub open spec fn obj_eq_fwd(x: Seq<(Seq<char>, Val)>, y: Seq<(Seq<char>, Val)>) -> bool
    decreases x, 0int,
{
    if x.len() == 0 {
        true
    } else {
        0 <= obj_index(y, x[0].0) < y.len() && val_eq(x[0].1, y[obj_index(y, x[0].0)].1)
            && obj_eq_fwd(x.drop_first(), y)
    }
}

/// Every entry of `y` has a `val_eq`-matching entry in `x`, resolved by
/// first-match lookup.
pub open spec fn obj_eq_rev(x: Seq<(Seq<char>, Val)>, y: Seq<(Seq<char>, Val)>) -> bool
    decreases x, y.len(),
{
    if y.len() == 0 {
        true
    } else {
        0 <= obj_index(x, y[0].0) < x.len() && val_eq(x[obj_index(x, y[0].0)].1, y[0].1)
            && obj_eq_rev(x, y.drop_first())
    }
}

/// What `obj_index` finds: the first entry with the key, scanning left
/// to right, and -1 exactly when no entry has the key.
pub proof fn lemma_obj_index(entries: Seq<(Seq<char>, Val)>, key: Seq<char>)
    ensures
        obj_index(entries, key) == -1 <==> obj_lookup(entries, key) is None,
        obj_index(entries, key) == -1 <==> (forall|i: int|
            0 <= i < entries.len() ==> (#[trigger] entries[i].0) != key),
        obj_index(entries, key) >= 0 ==> {
            let j = obj_index(entries, key);
            &&& j < entries.len()
            &&& entries[j].0 == key
            &&& obj_lookup(entries, key) == Some(entries[j].1)
            &&& forall|i: int| 0 <= i < j ==> (#[trigger] entries[i].0) != key
        },
    decreases entries.len(),
{
    if entries.len() > 0 && entries[0].0 != key {
        lemma_obj_index(entries.drop_first(), key);
        assert forall|i: int| 1 <= i < entries.len() implies entries.drop_first()[i - 1]
            == entries[i] by {}
    }
}

impl Clone for Value {
    /// A deep copy with the same model.
    fn clone(&self) -> (res: Value)
        ensures
            res@ == self@,
        decreases self,
    {
        match self {
            Value::Null => Value::Null,
            Value::Bool(b) => Value::Bool(*b),
            Value::Num(n) => Value::Num(*n),
            Value::Str(s) => Value::Str(s.clone()),
            Value::Arr(items) => {
                let mut out: Vec<Value> = Vec::new();
                let mut i: usize = 0;
                while i < items.len()
                    invariant
                        *self == Value::Arr(*items),
                        i <= items.len(),
                        out@.len() == i as int,
                        forall|k: int| 0 <= k < i ==> out@[k]@ == items@[k]@,
                    decreases items.len() - i,
                {
                    proof {
                        assert(decreases_to!(self => self->Arr_0));
                        assert(decreases_to!(self->Arr_0 => self->Arr_0@[i as int]));
                        assert(decreases_to!(self => items@[i as int]));
                    }
                    out.push(items[i].clone());
                    i = i + 1;
                }
                proof {
                    assert(seq_model(out@) =~= seq_model(items@));
                }
                Value::Arr(out)
            },
            Value::Obj(entries) => {
                let mut out: Vec<(String, Value)> = Vec::new();
                let mut i: usize = 0;
                while i < entries.len()
                    invariant
                        *self == Value::Obj(*entries),
                        i <= entries.len(),
                        out@.len() == i as int,
                        forall|k: int|
                            0 <= k < i ==> out@[k].0@ == entries@[k].0@ && out@[k].1@
                                == entries@[k].1@,
                    decreases entries.len() - i,
                {
                    proof {
                        assert(decreases_to!(self => self->Obj_0));
                        assert(decreases_to!(self->Obj_0 => self->Obj_0@[i as int]));
                        assert(decreases_to!(self->Obj_0@[i as int] => self->Obj_0@[i as int].1));
                        assert(decreases_to!(self => entries@[i as int].1));
                    }
                    out.push((entries[i].0.clone(), entries[i].1.clone()));
                    i = i + 1;
                }
                proof {
                    assert(entries_model(out@) =~= entries_model(entries@));
                }
                Value::Obj(out)
            },
        }
    }
}

/// Index of the first entry of `entries` whose key is `key`.
pub fn obj_find(entries: &Vec<(String, Value)>, key: &String) -> (r: Option<usize>)
    ensures
        match r {
            Some(j) => j == obj_index(entries_model(entries@), key@) && j < entries@.len()
                && entries@[j as int].0@ == key@,
            None => obj_index(entries_model(entries@), key@) == -1,
        },
{
    let ghost em = entries_model(entries@);
    proof {
        lemma_obj_index(em, key@);
    }
    let mut i: usize = 0;
    while i < entries.len()
        invariant
            i <= entries.len(),
            em == entries_model(entries@),
            forall|k: int| 0 <= k < i ==> (#[trigger] em[k]).0 != key@,
        decreases entries.len() - i,
    {
        if entries[i].0 == *key {
            proof {
                lemma_obj_index(em, key@);
                assert(em[i as int].0 == key@);
                if obj_index(em, key@) == -1 {
                    assert(false);
                }
                let j = obj_index(em, key@);
                assert(!(j < i)) by {
                    if j < i {
                        assert(em[j].0 != key@);
                    }
                }
                assert(!(i < j));
            }
            return Some(i);
        }
        proof {
            assert(em[i as int].0 != key@);
        }
        i = i + 1;
    }
    proof {
        lemma_obj_index(em, key@);
    }
    None
}

/// Binds `key` to `value` in `entries`: replaces the first entry with
/// that key, or appends a new one.
pub fn obj_set(entries: &mut Vec<(String, Value)>, key: String, value: Value)
    ensures
        entries_model(final(entries)@) == obj_insert(entries_model(old(entries)@), key@, value@),
{
    let ghost em = entries_model(old(entries)@);
    proof {
        lemma_obj_index(em, key@);
        lemma_obj_insert(em, key@, value@);
    }
    match obj_find(entries, &key) {
        Some(j) => {
            entries[j] = (key, value);
            proof {
                assert(entries_model(entries@) =~= em.update(
                    obj_index(em, key@),
                    (key@, value@),
                ));
            }
        },
        None => {
            entries.push((key, value));
            proof {
                assert(entries_model(entries@) =~= em.push((key@, value@)));
            }
        },
    }
}

/// `obj_insert` either updates the first entry with the key in place,
/// or appends a new entry at the end.
pub proof fn lemma_obj_insert(entries: Seq<(Seq<char>, Val)>, key: Seq<char>, value: Val)
    ensures
        obj_index(entries, key) == -1 ==> obj_insert(entries, key, value) =~= entries.push(
            (key, value),
        ),
        obj_index(entries, key) >= 0 ==> obj_insert(entries, key, value) =~= entries.update(
            obj_index(entries, key),
            (key, value),
        ),
    decreases entries.len(),
{
    lemma_obj_index(entries, key);
    if entries.len() > 0 && entries[0].0 != key {
        lemma_obj_insert(entries.drop_first(), key, value);
        lemma_obj_index(entries.drop_first(), key);
    }
}

/// Structural equality of two values, as `val_eq` states it.
pub fn value_eq(a: &Value, b: &Value) -> (r: bool)
    ensures
        r == val_eq(a@, b@),
    decreases a,
{
    match (a, b) {
        (Value::Null, Value::Null) => true,
        (Value::Bool(x), Value::Bool(y)) => *x == *y,
        (Value::Num(x), Value::Num(y)) => *x == *y,
        (Value::Str(x), Value::Str(y)) => *x == *y,
        (Value::Arr(x), Value::Arr(y)) => {
            if x.len() != y.len() {
                return false;
            }
            let ghost s1 = seq_model(x@);
            let ghost s2 = seq_model(y@);
            proof {
                assert(s1.skip(0) =~= s1);
                assert(s2.skip(0) =~= s2);
            }
            let mut i: usize = 0;
            while i < x.len()
                invariant
                    *a == Value::Arr(*x),
                    *b == Value::Arr(*y),
                    i <= x.len(),
                    x@.len() == y@.len(),
                    a@ == Val::Arr(s1),
                    b@ == Val::Arr(s2),
                    s1 == seq_model(x@),
                    s2 == seq_model(y@),
                    arr_eq_elems(s1, s2) == arr_eq_elems(s1.skip(i as int), s2.skip(i as int)),
                decreases x.len() - i,
            {
                proof {
                    assert(decreases_to!(a => a->Arr_0));
                    assert(decreases_to!(a->Arr_0 => a->Arr_0@[i as int]));
                    assert(decreases_to!(a => x@[i as int]));
                    assert(s1.skip(i as int)[0] == s1[i as int]);
                    assert(s2.skip(i as int)[0] == s2[i as int]);
                }
                if !value_eq(&x[i], &y[i]) {
                    proof {
                        assert(!arr_eq_elems(s1.skip(i as int), s2.skip(i as int)));
                    }
                    return false;
                }
                proof {
                    assert(s1.skip(i as int).drop_first() =~= s1.skip(i + 1));
                    assert(s2.skip(i as int).drop_first() =~= s2.skip(i + 1));
                }
                i = i + 1;
            }
            proof {
                assert(s1.skip(x@.len() as int).len() == 0);
            }
            true
        },
        (Value::Obj(x), Value::Obj(y)) => {
            let ghost xm = entries_model(x@);
            let ghost ym = entries_model(y@);
            proof {
                assert(xm.skip(0) =~= xm);
                assert(ym.skip(0) =~= ym);
            }
            let mut i: usize = 0;
            while i < x.len()
                invariant
                    *a == Value::Obj(*x),
                    *b == Value::Obj(*y),
                    i <= x.len(),
                    a@ == Val::Obj(xm),
                    b@ == Val::Obj(ym),
                    xm == entries_model(x@),
                    ym == entries_model(y@),
                    obj_eq_fwd(xm, ym) == obj_eq_fwd(xm.skip(i as int), ym),
                decreases x.len() - i,
            {
                proof {
                    assert(xm.skip(i as int)[0] == xm[i as int]);
                    assert(xm[i as int] == (x@[i as int].0@, x@[i as int].1@));
                }
                match obj_find(y, &x[i].0) {
                    Some(j) => {
                        proof {
                            assert(decreases_to!(a => a->Obj_0));
                            assert(decreases_to!(a->Obj_0 => a->Obj_0@[i as int]));
                            assert(decreases_to!(a->Obj_0@[i as int] => a->Obj_0@[i as int].1));
                            assert(decreases_to!(a => x@[i as int].1));
                            assert(ym[j as int] == (y@[j as int].0@, y@[j as int].1@));
                        }
                        if !value_eq(&x[i].1, &y[j].1) {
                            proof {
                                assert(!obj_eq_fwd(xm.skip(i as int), ym));
                            }
                            return false;
                        }
                    },
                    None => {
                        proof {
                            assert(!obj_eq_fwd(xm.skip(i as int), ym));
                        }
                        return false;
                    },
                }
                proof {
                    assert(xm.skip(i as int).drop_first() =~= xm.skip(i + 1));
                }
                i = i + 1;
            }
            proof {
                assert(xm.skip(x@.len() as int).len() == 0);
            }
            let mut i: usize = 0;
            while i < y.len()
                invariant
                    *a == Value::Obj(*x),
                    *b == Value::Obj(*y),
                    i <= y.len(),
                    a@ == Val::Obj(xm),
                    b@ == Val::Obj(ym),
                    xm == entries_model(x@),
                    ym == entries_model(y@),
                    obj_eq_fwd(xm, ym),
                    obj_eq_rev(xm, ym) == obj_eq_rev(xm, ym.skip(i as int)),
                decreases y.len() - i,
            {
                proof {
                    assert(ym.skip(i as int)[0] == ym[i as int]);
                    assert(ym[i as int] == (y@[i as int].0@, y@[i as int].1@));
                }
                match obj_find(x, &y[i].0) {
                    Some(j) => {
                        proof {
                            assert(decreases_to!(a => a->Obj_0));
                            assert(decreases_to!(a->Obj_0 => a->Obj_0@[j as int]));
                            assert(decreases_to!(a->Obj_0@[j as int] => a->Obj_0@[j as int].1));
                            assert(decreases_to!(a => x@[j as int].1));
                            assert(xm[j as int] == (x@[j as int].0@, x@[j as int].1@));
                        }
                        if !value_eq(&x[j].1, &y[i].1) {
                            proof {
                                assert(!obj_eq_rev(xm, ym.skip(i as int)));
                            }
                            return false;
                        }
                    },
                    None => {
                        proof {
                            assert(!obj_eq_rev(xm, ym.skip(i as int)));
                        }
                        return false;
                    },
                }
                proof {
                    assert(ym.skip(i as int).drop_first() =~= ym.skip(i + 1));
                }
                i = i + 1;
            }
            proof {
                assert(ym.skip(y@.len() as int).len() == 0);
            }
            true
        },
        _ => false,
    }
}

/// The decimal digit characters of `n`, most significant first.
pub open spec fn dec_digits(n: nat) -> Seq<char>
    decreases n,
{
    if n < 10 {
        seq![digit_char(n as int)]
    } else {
        dec_digits(n / 10) + seq![digit_char((n % 10) as int)]
    }
}

/// The character for one decimal digit.
pub open spec fn digit_char(d: int) -> char {
    if d == 0 {
        '0'
    } else if d == 1 {
        '1'
    } else if d == 2 {
        '2'
    } else if d == 3 {
        '3'
    } else if d == 4 {
        '4'
    } else if d == 5 {
        '5'
    } else if d == 6 {
        '6'
    } else if d == 7 {
        '7'
    } else if d == 8 {
        '8'
    } else {
        '9'
    }
}

/// One decimal digit as a string slice.
fn digit_str(d: u64) -> (r: &'static str)
    requires
        d < 10,
    ensures
        r@ == seq![digit_char(d as int)],
{
    let r: &'static str = if d == 0 {
        "0"
    } else if d == 1 {
        "1"
    } else if d == 2 {
        "2"
    } else if d == 3 {
        "3"
    } else if d == 4 {
        "4"
    } else if d == 5 {
        "5"
    } else if d == 6 {
        "6"
    } else if d == 7 {
        "7"
    } else if d == 8 {
        "8"
    } else {
        "9"
    };
    proof {
        reveal_strlit("0");
        reveal_strlit("1");
        reveal_strlit("2");
        reveal_strlit("3");
        reveal_strlit("4");
        reveal_strlit("5");
        reveal_strlit("6");
        reveal_strlit("7");
        reveal_strlit("8");
        reveal_strlit("9");
        assert(r@ =~= seq![digit_char(d as int)]);
    }
    r
}

/// The decimal representation of `n`.
pub fn u64_to_string(n: u64) -> (r: String)
    ensures
        r@ == dec_digits(n as nat),
    decreases n,
{
    if n < 10 {
        String::from_str(digit_str(n))
    } else {
        let mut s = u64_to_string(n / 10);
        s.append(digit_str(n % 10));
        s
    }
}

/// A deep copy of a value list, with the same models.
pub fn clone_values(items: &Vec<Value>) -> (r: Vec<Value>)
    ensures
        seq_model(r@) == seq_model(items@),
{
    let mut out: Vec<Value> = Vec::new();
    let mut i: usize = 0;
    while i < items.len()
        invariant
            i <= items.len(),
            out@.len() == i as int,
            forall|k: int| 0 <= k < i ==> out@[k]@ == items@[k]@,
        decreases items.len() - i,
    {
        out.push(items[i].clone());
        i = i + 1;
    }
    proof {
        assert(seq_model(out@) =~= seq_model(items@));
    }
    out
}

/// A deep copy of an entry list, with the same models.
pub fn clone_entries(entries: &Vec<(String, Value)>) -> (r: Vec<(String, Value)>)
    ensures
        entries_model(r@) == entries_model(entries@),
{
    let mut out: Vec<(String, Value)> = Vec::new();
    let mut i: usize = 0;
    while i < entries.len()
        invariant
            i <= entries.len(),
            out@.len() == i as int,
            forall|k: int|
                0 <= k < i ==> out@[k].0@ == entries@[k].0@ && out@[k].1@ == entries@[k].1@,
        decreases entries.len() - i,
    {
        out.push((entries[i].0.clone(), entries[i].1.clone()));
        i = i + 1;
    }
    proof {
        assert(entries_model(out@) =~= entries_model(entries@));
    }
    out
}

} // verus!
