use vstd::prelude::*;

use crate::value::{
    entries_model, obj_find, obj_insert, obj_lookup, obj_set, strs_model, Val, Value,
};

verus! {

/// The execution context: a path-addressable binding of variable names
/// to values for a single request.
///
/// The evaluator treats a context as immutable; the pipeline runner
/// produces a new logical context by binding a step's result under a
/// name. Binding a name twice shadows the earlier value in place, so
/// the entry order stays stable.
#[derive(Debug)]
pub struct Context {
    /// The named values, in binding order, with unique names.
    vars: Vec<(String, Value)>,
}

impl View for Context {
    type V = Seq<(Seq<char>, Val)>;

    closed spec fn view(&self) -> Seq<(Seq<char>, Val)> {
        entries_model(self.vars@)
    }
}

/// Position of the first `.` in `p`, or -1.
pub open spec fn first_dot(p: Seq<char>) -> int
    decreases p.len(),
{
    if p.len() == 0 {
        -1
    } else if p[0] == '.' {
        0
    } else {
        let r = first_dot(p.drop_first());
        if r < 0 {
            -1
        } else {
            r + 1
        }
    }
}

/// The segments of a dotted path, split on `.`; an empty path yields
/// one empty segment, as `"a..b"` yields an empty middle segment.
pub open spec fn dot_split(p: Seq<char>) -> Seq<Seq<char>>
    decreases p.len(),
{
    let d = first_dot(p);
    if d < 0 || d >= p.len() {
        seq![p]
    } else {
        seq![p.take(d)] + dot_split(p.skip(d + 1))
    }
}

/// Whether `c` is a decimal digit.
pub open spec fn is_digit(c: char) -> bool {
    48 <= c as u32 <= 57
}

/// Whether every character of `s` is a decimal digit.
pub open spec fn all_digits(s: Seq<char>) -> bool
    decreases s.len(),
{
    if s.len() == 0 {
        true
    } else {
        is_digit(s[0]) && all_digits(s.drop_first())
    }
}

/// The number the digit string `s` denotes.
pub open spec fn digits_val(s: Seq<char>) -> int
    decreases s.len(),
{
    if s.len() == 0 {
        0
    } else {
        digits_val(s.drop_last()) * 10 + (s.last() as u32 - 48)
    }
}

/// A path segment read as an array index: all digits, and small enough
/// for a `usize`.
pub open spec fn parse_index(s: Seq<char>) -> Option<int> {
    if s.len() == 0 || !all_digits(s) {
        None
    } else if digits_val(s) > usize::MAX {
        None
    } else {
        Some(digits_val(s))
    }
}

/// Descends from `v` through the remaining path segments: by key
/// through an object, by decimal index through an array; an empty
/// segment, a missing key, an out-of-range index or a non-container
/// all yield `None`.
pub open spec fn descend(v: Val, segs: Seq<Seq<char>>) -> Option<Val>
    decreases segs.len(),
{
    if segs.len() == 0 {
        Some(v)
    } else if segs[0].len() == 0 {
        None
    } else {
        match v {
            Val::Obj(entries) => match obj_lookup(entries, segs[0]) {
                Some(w) => descend(w, segs.drop_first()),
                None => None,
            },
            Val::Arr(items) => match parse_index(segs[0]) {
                Some(i) => if 0 <= i < items.len() {
                    descend(items[i], segs.drop_first())
                } else {
                    None
                },
                None => None,
            },
            _ => None,
        }
    }
}

/// What `get_path` returns: the first segment is a variable name, the
/// rest descend through the value.
pub open spec fn path_lookup(vars: Seq<(Seq<char>, Val)>, path: Seq<char>) -> Option<Val> {
    let segs = dot_split(path);
    if segs[0].len() == 0 {
        None
    } else {
        match obj_lookup(vars, segs[0]) {
            Some(v) => descend(v, segs.drop_first()),
            None => None,
        }
    }
}

impl Clone for Context {
    /// A deep copy with the same bindings.
    fn clone(&self) -> (r: Context)
        ensures
            r@ == self@,
    {
        Context { vars: crate::value::clone_entries(&self.vars) }
    }
}

impl Context {
    /// An empty context.
    pub fn new() -> (r: Context)
        ensures
            r@ == Seq::<(Seq<char>, Val)>::empty(),
    {
        let r = Context { vars: Vec::new() };
        proof {
            assert(r@ =~= Seq::<(Seq<char>, Val)>::empty());
        }
        r
    }

    /// This context with `name` bound to `value`; shadows an earlier
    /// binding of the same name.
    pub fn with_var(self, name: &str, value: Value) -> (r: Context)
        ensures
            r@ == obj_insert(self@, name@, value@),
    {
        let mut r = self;
        r.set_var(name, value);
        r
    }

    /// Binds `name` to `value`, shadowing an earlier binding.
    pub fn set_var(&mut self, name: &str, value: Value)
        ensures
            final(self)@ == obj_insert(old(self)@, name@, value@),
    {
        obj_set(&mut self.vars, name.to_owned(), value);
    }

    /// Top-level lookup of a variable.
    pub fn get(&self, name: &str) -> (r: Option<&Value>)
        ensures
            match r {
                Some(v) => obj_lookup(self@, name@) == Some(v@),
                None => obj_lookup(self@, name@) is None,
            },
    {
        obj_get_str(&self.vars, name)
    }

    /// Dotted-path lookup, descending objects by key and arrays by
    /// decimal index.
    pub fn get_path(&self, path: &str) -> (r: Option<&Value>)
        ensures
            match r {
                Some(v) => path_lookup(self@, path@) == Some(v@),
                None => path_lookup(self@, path@) is None,
            },
    {
        let segs = split_dots(path);
        let ghost sm = strs_model(segs@);
        if segs[0].as_str().unicode_len() == 0 {
            return None;
        }
        let first = match obj_get_str(&self.vars, segs[0].as_str()) {
            Some(v) => v,
            None => {
                return None;
            },
        };
        let mut cur: &Value = first;
        let mut i: usize = 1;
        proof {
            assert(sm.skip(1) =~= dot_split(path@).drop_first());
        }
        while i < segs.len()
            invariant
                1 <= i <= segs.len(),
                sm == strs_model(segs@),
                sm == dot_split(path@),
                path_lookup(self@, path@) == descend(cur@, sm.skip(i as int)),
            decreases segs.len() - i,
        {
            proof {
                assert(sm.skip(i as int)[0] == segs@[i as int]@);
                assert(sm.skip(i as int).drop_first() =~= sm.skip(i + 1));
            }
            let seg = &segs[i];
            if seg.as_str().unicode_len() == 0 {
                return None;
            }
            match cur {
                Value::Obj(entries) => {
                    match obj_get_str(entries, seg.as_str()) {
                        Some(v) => {
                            cur = v;
                        },
                        None => {
                            return None;
                        },
                    }
                },
                Value::Arr(items) => {
                    match parse_index_exec(seg.as_str()) {
                        Some(idx) => {
                            if idx < items.len() {
                                cur = &items[idx];
                            } else {
                                return None;
                            }
                        },
                        None => {
                            return None;
                        },
                    }
                },
                _ => {
                    return None;
                },
            }
            i = i + 1;
        }
        proof {
            assert(sm.skip(segs@.len() as int).len() == 0);
        }
        Some(cur)
    }

    /// The variable list, in binding order.
    pub fn variables(&self) -> (r: &Vec<(String, Value)>)
        ensures
            entries_model(r@) == self@,
    {
        &self.vars
    }

    /// Whether a variable of that name exists.
    pub fn has(&self, name: &str) -> (r: bool)
        ensures
            r == (obj_lookup(self@, name@) is Some),
    {
        match self.get(name) {
            Some(_) => true,
            None => false,
        }
    }

    /// Whether the dotted path resolves to a value.
    pub fn has_path(&self, path: &str) -> (r: bool)
        ensures
            r == (path_lookup(self@, path@) is Some),
    {
        match self.get_path(path) {
            Some(_) => true,
            None => false,
        }
    }
}

/// First value bound to the key `key` in `entries`, if any; the key is
/// given as a string slice.
pub fn obj_get_str<'a>(entries: &'a Vec<(String, Value)>, key: &str) -> (r: Option<&'a Value>)
    ensures
        match r {
            Some(v) => obj_lookup(entries_model(entries@), key@) == Some(v@),
            None => obj_lookup(entries_model(entries@), key@) is None,
        },
{
    proof {
        crate::value::lemma_obj_index(entries_model(entries@), key@);
    }
    match obj_find(entries, &key.to_owned()) {
        Some(j) => Some(&entries[j].1),
        None => None,
    }
}

/// Splits `path` on `.` into its segments, as `dot_split` states.
pub fn split_dots(path: &str) -> (r: Vec<String>)
    ensures
        strs_model(r@) == dot_split(path@),
        r@.len() >= 1,
{
    let n = path.unicode_len();
    let mut segs: Vec<String> = Vec::new();
    let mut seg_start: usize = 0;
    let mut pos: usize = 0;
    proof {
        assert(path@.skip(0) =~= path@);
        assert(strs_model(segs@) =~= Seq::<Seq<char>>::empty());
        assert(Seq::<Seq<char>>::empty() + dot_split(path@) =~= dot_split(path@));
    }
    while pos < n
        invariant
            seg_start <= pos <= n,
            n == path@.len(),
            strs_model(segs@) + dot_split(path@.skip(seg_start as int))
                =~= dot_split(path@),
            forall|k: int| seg_start <= k < pos ==> path@[k] != '.',
        decreases n - pos,
    {
        if path.get_char(pos) == '.' {
            let seg = path.substring_char(seg_start, pos);
            segs.push(seg.to_owned());
            proof {
                lemma_first_dot(path@.skip(seg_start as int), (pos - seg_start) as int);
                assert(path@.skip(seg_start as int).take(pos - seg_start as int) =~= seg@);
                assert(path@.skip(seg_start as int).skip(pos - seg_start as int + 1) =~= path@.skip(
                    pos + 1,
                ));
                assert(strs_model(segs@) =~= strs_model(
                    segs@.drop_last(),
                ).push(seg@));
            }
            seg_start = pos + 1;
        }
        pos = pos + 1;
    }
    let seg = path.substring_char(seg_start, n);
    segs.push(seg.to_owned());
    proof {
        lemma_first_dot_none(path@.skip(seg_start as int));
        assert(path@.skip(seg_start as int) =~= seg@);
        assert(strs_model(segs@) =~= strs_model(
            segs@.drop_last(),
        ).push(seg@));
        assert(strs_model(segs@) =~= dot_split(path@));
    }
    segs
}

/// If position `d` holds the first `.` of `p`, `first_dot` finds it.
proof fn lemma_first_dot(p: Seq<char>, d: int)
    requires
        0 <= d < p.len(),
        p[d] == '.',
        forall|k: int| 0 <= k < d ==> p[k] != '.',
    ensures
        first_dot(p) == d,
    decreases d,
{
    if d > 0 {
        lemma_first_dot(p.drop_first(), d - 1);
    }
}

/// If `p` has no dot at all, `first_dot` reports none.
proof fn lemma_first_dot_none(p: Seq<char>)
    requires
        forall|k: int| 0 <= k < p.len() ==> p[k] != '.',
    ensures
        first_dot(p) == -1,
    decreases p.len(),
{
    if p.len() > 0 {
        lemma_first_dot_none(p.drop_first());
    }
}

/// Parses `s` as a decimal array index, as `parse_index` states.
pub fn parse_index_exec(s: &str) -> (r: Option<usize>)
    ensures
        match r {
            Some(i) => parse_index(s@) == Some(i as int),
            None => parse_index(s@) is None,
        },
{
    let n = s.unicode_len();
    if n == 0 {
        return None;
    }
    let mut acc: usize = 0;
    let mut i: usize = 0;
    while i < n
        invariant
            i <= n,
            n == s@.len(),
            all_digits(s@.take(i as int)),
            acc == digits_val(s@.take(i as int)),
        decreases n - i,
    {
        let c = s.get_char(i);
        let cv = c as u32;
        if cv < 48 || cv > 57 {
            proof {
                lemma_not_all_digits(s@, i as int);
            }
            return None;
        }
        let d = (cv - 48) as usize;
        let next = match acc.checked_mul(10) {
            Some(m) => m.checked_add(d),
            None => None,
        };
        match next {
            Some(v) => {
                acc = v;
                proof {
                    assert(s@.take(i + 1).drop_last() =~= s@.take(i as int));
                    lemma_all_digits_push(s@, i as int);
                }
            },
            None => {
                proof {
                    assert(s@.take(i + 1).drop_last() =~= s@.take(i as int));
                    lemma_digits_val_grows(s@, i + 1);
                }
                return None;
            },
        }
        i = i + 1;
    }
    proof {
        assert(s@.take(n as int) =~= s@);
    }
    Some(acc)
}

/// A non-digit at position `i` refutes `all_digits`.
proof fn lemma_not_all_digits(s: Seq<char>, i: int)
    requires
        0 <= i < s.len(),
        !is_digit(s[i]),
    ensures
        !all_digits(s),
    decreases i,
{
    if i > 0 {
        lemma_not_all_digits(s.drop_first(), i - 1);
    }
}

/// Appending one digit keeps `all_digits`.
proof fn lemma_all_digits_push(s: Seq<char>, i: int)
    requires
        0 <= i < s.len(),
        all_digits(s.take(i)),
        is_digit(s[i]),
    ensures
        all_digits(s.take(i + 1)),
    decreases i,
{
    if i == 0 {
        assert(s.take(1).drop_first() =~= s.take(0));
    } else {
        assert(s.drop_first().take(i - 1) =~= s.take(i).drop_first());
        assert(s.drop_first()[i - 1] == s[i]);
        lemma_all_digits_push(s.drop_first(), i - 1);
        assert(s.drop_first().take(i) =~= s.take(i + 1).drop_first());
    }
}

/// Once a digit prefix exceeds `usize::MAX`, every longer prefix does.
proof fn lemma_digits_val_grows(s: Seq<char>, j: int)
    requires
        0 <= j <= s.len(),
        digits_val(s.take(j)) > usize::MAX,
    ensures
        digits_val(s) > usize::MAX,
    decreases s.len() - j,
{
    if j < s.len() {
        assert(s.take(j + 1).drop_last() =~= s.take(j));
        assert(digits_val(s.take(j + 1)) == digits_val(s.take(j)) * 10 + (s.take(j + 1).last()
            as u32 - 48));
        assert(digits_val(s.take(j)) * 10 >= digits_val(s.take(j))) by (nonlinear_arith)
            requires
                digits_val(s.take(j)) > 0,
        ;
        lemma_digits_val_grows(s, j + 1);
    } else {
        assert(s.take(j) =~= s);
    }
}

} // verus!
