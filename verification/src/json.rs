//! A JSON document model for the values that the daemon inspects: persisted
//! job inputs and outputs, compiler results and agent plans. Object entries
//! keep their order; a lookup returns the first entry with the key.
use vstd::prelude::*;
use crate::text::{copy_string, str_eq};

verus! {

/// A JSON number as stored by the parser: a non-negative integer, a negative
/// integer, or a binary64 value carried by its IEEE-754 bit pattern.
#[derive(Debug, Clone, Copy, PartialEq, Eq)]
pub enum JsonNumber {
    PosInt(u64),
    NegInt(i64),
    Float(u64),
}

#[derive(Debug)]
pub enum JsonValue {
    Null,
    Bool(bool),
    Number(JsonNumber),
    Str(String),
    Array(Vec<JsonValue>),
    Object(Vec<(String, JsonValue)>),
}

/// First value stored under `key` in an ordered list of object entries.
pub open spec fn object_lookup(entries: Seq<(String, JsonValue)>, key: Seq<char>) -> Option<
    JsonValue,
>
    decreases entries.len(),
{
    if entries.len() == 0 {
        None
    } else if entries[0].0@ == key {
        Some(entries[0].1)
    } else {
        object_lookup(entries.drop_first(), key)
    }
}

impl JsonValue {
    /// The member `key` of an object; `None` for a missing key or a non-object.
    pub open spec fn field(self, key: Seq<char>) -> Option<JsonValue> {
        match self {
            JsonValue::Object(entries) => object_lookup(entries@, key),
            _ => None,
        }
    }

    pub open spec fn str_view(self) -> Option<Seq<char>> {
        match self {
            JsonValue::Str(s) => Some(s@),
            _ => None,
        }
    }

    pub open spec fn u64_view(self) -> Option<u64> {
        match self {
            JsonValue::Number(JsonNumber::PosInt(n)) => Some(n),
            _ => None,
        }
    }

    pub open spec fn bool_view(self) -> Option<bool> {
        match self {
            JsonValue::Bool(b) => Some(b),
            _ => None,
        }
    }

    /// `self.field(key)` read as a string.
    pub open spec fn field_str(self, key: Seq<char>) -> Option<Seq<char>> {
        match self.field(key) {
            Some(v) => v.str_view(),
            None => None,
        }
    }

    pub open spec fn field_u64(self, key: Seq<char>) -> Option<u64> {
        match self.field(key) {
            Some(v) => v.u64_view(),
            None => None,
        }
    }

    pub open spec fn field_bool(self, key: Seq<char>) -> Option<bool> {
        match self.field(key) {
            Some(v) => v.bool_view(),
            None => None,
        }
    }

    /// Member lookup (`Value::get` with a string key).
    pub fn get(&self, key: &str) -> (r: Option<&JsonValue>)
        ensures
            match r {
                Some(v) => self.field(key@) == Some(*v),
                None => self.field(key@) is None,
            },
    {
        match self {
            JsonValue::Object(entries) => {
                assert(self.field(key@) == object_lookup(entries@, key@));
                let mut i: usize = 0;
                assert(entries@.subrange(0, entries.len() as int) =~= entries@);
                while i < entries.len()
                    invariant
                        i <= entries.len(),
                        self.field(key@) == object_lookup(entries@, key@),
                        object_lookup(entries@, key@) == object_lookup(
                            entries@.subrange(i as int, entries.len() as int),
                            key@,
                        ),
                    decreases entries.len() - i,
                {
                    let ghost rest = entries@.subrange(i as int, entries.len() as int);
                    assert(rest.drop_first() =~= entries@.subrange(i + 1, entries.len() as int));
                    assert(rest[0] == entries@[i as int]);
                    if str_eq(entries[i].0.as_str(), key) {
                        assert(object_lookup(rest, key@) == Some(entries@[i as int].1));
                        return Some(&entries[i].1);
                    }
                    i += 1;
                }
                None
            },
            _ => None,
        }
    }

    /// The string content of a JSON string (`Value::as_str`).
    pub fn as_str(&self) -> (r: Option<&str>)
        ensures
            match r {
                Some(s) => self.str_view() == Some(s@),
                None => self.str_view() is None,
            },
    {
        match self {
            JsonValue::Str(s) => Some(s.as_str()),
            _ => None,
        }
    }

    /// A non-negative integer (`Value::as_u64`).
    pub fn as_u64(&self) -> (r: Option<u64>)
        ensures
            r == self.u64_view(),
    {
        match self {
            JsonValue::Number(JsonNumber::PosInt(n)) => Some(*n),
            _ => None,
        }
    }

    /// A boolean (`Value::as_bool`).
    pub fn as_bool(&self) -> (r: Option<bool>)
        ensures
            r == self.bool_view(),
    {
        match self {
            JsonValue::Bool(b) => Some(*b),
            _ => None,
        }
    }

    pub fn get_str(&self, key: &str) -> (r: Option<&str>)
        ensures
            match r {
                Some(s) => self.field_str(key@) == Some(s@),
                None => self.field_str(key@) is None,
            },
    {
        match self.get(key) {
            Some(v) => v.as_str(),
            None => None,
        }
    }

    pub fn get_u64(&self, key: &str) -> (r: Option<u64>)
        ensures
            r == self.field_u64(key@),
    {
        match self.get(key) {
            Some(v) => v.as_u64(),
            None => None,
        }
    }

    pub fn get_bool(&self, key: &str) -> (r: Option<bool>)
        ensures
            r == self.field_bool(key@),
    {
        match self.get(key) {
            Some(v) => v.as_bool(),
            None => None,
        }
    }
}

} // verus!

verus! {

/// Two JSON values hold the same data: the same kind, equal scalars and
/// strings, and members and elements that are the same in the same order.
/// Numbers compare by their stored representation.
pub open spec fn json_same(a: JsonValue, b: JsonValue) -> bool
    decreases a, 0nat,
{
    match (a, b) {
        (JsonValue::Null, JsonValue::Null) => true,
        (JsonValue::Bool(x), JsonValue::Bool(y)) => x == y,
        (JsonValue::Number(x), JsonValue::Number(y)) => x == y,
        (JsonValue::Str(x), JsonValue::Str(y)) => x@ == y@,
        (JsonValue::Array(x), JsonValue::Array(y)) => items_same(x@, y@),
        (JsonValue::Object(x), JsonValue::Object(y)) => entries_same(x@, y@),
        _ => false,
    }
}

pub open spec fn items_same(x: Seq<JsonValue>, y: Seq<JsonValue>) -> bool
    decreases x, x.len(),
{
    if x.len() != y.len() {
        false
    } else if x.len() == 0 {
        true
    } else {
        json_same(x[0], y[0]) && items_same(x.drop_first(), y.drop_first())
    }
}

pub open spec fn entries_same(x: Seq<(String, JsonValue)>, y: Seq<(String, JsonValue)>) -> bool
    decreases x, x.len(),
{
    if x.len() != y.len() {
        false
    } else if x.len() == 0 {
        true
    } else {
        x[0].0@ == y[0].0@ && json_same(x[0].1, y[0].1) && entries_same(x.drop_first(), y.drop_first())
    }
}

fn scalar_equal(a: &JsonValue, b: &JsonValue) -> (r: bool)
    requires
        !(a is Array) && !(a is Object),
    ensures
        r == json_same(*a, *b),
{
    match (a, b) {
        (JsonValue::Null, JsonValue::Null) => true,
        (JsonValue::Bool(x), JsonValue::Bool(y)) => *x == *y,
        (JsonValue::Number(x), JsonValue::Number(y)) => match (x, y) {
            (JsonNumber::PosInt(p), JsonNumber::PosInt(q)) => *p == *q,
            (JsonNumber::NegInt(p), JsonNumber::NegInt(q)) => *p == *q,
            (JsonNumber::Float(p), JsonNumber::Float(q)) => *p == *q,
            _ => false,
        },
        (JsonValue::Str(x), JsonValue::Str(y)) => str_eq(x.as_str(), y.as_str()),
        _ => false,
    }
}

/// Whether two JSON values hold the same data (see `json_same`).
pub fn json_equal(a: &JsonValue, b: &JsonValue) -> (r: bool)
    ensures
        r == json_same(*a, *b),
    decreases a,
{
    match a {
        JsonValue::Array(x) => match b {
            JsonValue::Array(y) => {
                if x.len() != y.len() {
                    return false;
                }
                let mut i: usize = 0;
                assert(x@.subrange(0, x.len() as int) =~= x@);
                assert(y@.subrange(0, y.len() as int) =~= y@);
                while i < x.len()
                    invariant
                        i <= x.len(),
                        x.len() == y.len(),
                        *a == JsonValue::Array(*x),
                        json_same(*a, *b) == items_same(
                            x@.subrange(i as int, x.len() as int),
                            y@.subrange(i as int, y.len() as int),
                        ),
                    decreases x.len() - i,
                {
                    let ghost xs = x@.subrange(i as int, x.len() as int);
                    let ghost ys = y@.subrange(i as int, y.len() as int);
                    assert(xs[0] == x@[i as int]);
                    assert(ys[0] == y@[i as int]);
                    assert(xs.drop_first() =~= x@.subrange(i + 1, x.len() as int));
                    assert(ys.drop_first() =~= y@.subrange(i + 1, y.len() as int));
                    if !json_equal(&x[i], &y[i]) {
                        return false;
                    }
                    i += 1;
                }
                true
            },
            _ => false,
        },
        JsonValue::Object(x) => match b {
            JsonValue::Object(y) => {
                if x.len() != y.len() {
                    return false;
                }
                let mut i: usize = 0;
                assert(x@.subrange(0, x.len() as int) =~= x@);
                assert(y@.subrange(0, y.len() as int) =~= y@);
                while i < x.len()
                    invariant
                        i <= x.len(),
                        x.len() == y.len(),
                        *a == JsonValue::Object(*x),
                        json_same(*a, *b) == entries_same(
                            x@.subrange(i as int, x.len() as int),
                            y@.subrange(i as int, y.len() as int),
                        ),
                    decreases x.len() - i,
                {
                    let ghost xs = x@.subrange(i as int, x.len() as int);
                    let ghost ys = y@.subrange(i as int, y.len() as int);
                    assert(xs[0] == x@[i as int]);
                    assert(ys[0] == y@[i as int]);
                    assert(xs.drop_first() =~= x@.subrange(i + 1, x.len() as int));
                    assert(ys.drop_first() =~= y@.subrange(i + 1, y.len() as int));
                    if !str_eq(x[i].0.as_str(), y[i].0.as_str()) {
                        return false;
                    }
                    proof {
                        vstd::std_specs::vec::axiom_vec_index_decreases(*x, i as int);
                        assert(decreases_to!(*a => (*a)->Object_0));
                        assert((*a)->Object_0 == *x);
                        assert(decreases_to!(x[i as int] => x[i as int].1));
                        assert(decreases_to!(*a => x[i as int].1));
                    }
                    if !json_equal(&x[i].1, &y[i].1) {
                        return false;
                    }
                    i += 1;
                }
                true
            },
            _ => false,
        },
        _ => scalar_equal(a, b),
    }
}


/// A deep copy of a JSON value.
pub fn json_clone(v: &JsonValue) -> (r: JsonValue)
    ensures
        json_same(r, *v),
    decreases v,
{
    match v {
        JsonValue::Null => JsonValue::Null,
        JsonValue::Bool(b) => JsonValue::Bool(*b),
        JsonValue::Number(n) => JsonValue::Number(*n),
        JsonValue::Str(s) => JsonValue::Str(s.clone()),
        JsonValue::Array(x) => {
            let mut out: Vec<JsonValue> = Vec::new();
            let mut i: usize = 0;
            while i < x.len()
                invariant
                    i <= x.len(),
                    *v == JsonValue::Array(*x),
                    out.len() == i,
                    forall|j: int| 0 <= j < i ==> json_same(#[trigger] out@[j], x@[j]),
                decreases x.len() - i,
            {
                proof {
                    vstd::std_specs::vec::axiom_vec_index_decreases(*x, i as int);
                    assert(decreases_to!(*v => (*v)->Array_0));
                }
                let c = json_clone(&x[i]);
                out.push(c);
                i += 1;
            }
            proof {
                lemma_items_same_pointwise(out@, x@);
            }
            JsonValue::Array(out)
        },
        JsonValue::Object(x) => {
            let mut out: Vec<(String, JsonValue)> = Vec::new();
            let mut i: usize = 0;
            while i < x.len()
                invariant
                    i <= x.len(),
                    *v == JsonValue::Object(*x),
                    out.len() == i,
                    forall|j: int|
                        0 <= j < i ==> (#[trigger] out@[j]).0@ == x@[j].0@ && json_same(
                            out@[j].1,
                            x@[j].1,
                        ),
                decreases x.len() - i,
            {
                proof {
                    vstd::std_specs::vec::axiom_vec_index_decreases(*x, i as int);
                    assert(decreases_to!(*v => (*v)->Object_0));
                    assert(decreases_to!(x[i as int] => x[i as int].1));
                }
                let c = json_clone(&x[i].1);
                out.push((x[i].0.clone(), c));
                i += 1;
            }
            proof {
                lemma_entries_same_pointwise(out@, x@);
            }
            JsonValue::Object(out)
        },
    }
}

proof fn lemma_items_same_pointwise(a: Seq<JsonValue>, b: Seq<JsonValue>)
    requires
        a.len() == b.len(),
        forall|j: int| 0 <= j < a.len() ==> json_same(#[trigger] a[j], b[j]),
    ensures
        items_same(a, b),
    decreases a.len(),
{
    if a.len() > 0 {
        assert forall|j: int| 0 <= j < a.drop_first().len() implies json_same(
            #[trigger] a.drop_first()[j],
            b.drop_first()[j],
        ) by {
            assert(json_same(a[j + 1], b[j + 1]));
        }
        assert(json_same(a[0], b[0]));
        lemma_items_same_pointwise(a.drop_first(), b.drop_first());
    }
}

proof fn lemma_entries_same_pointwise(a: Seq<(String, JsonValue)>, b: Seq<(String, JsonValue)>)
    requires
        a.len() == b.len(),
        forall|j: int|
            0 <= j < a.len() ==> (#[trigger] a[j]).0@ == b[j].0@ && json_same(a[j].1, b[j].1),
    ensures
        entries_same(a, b),
    decreases a.len(),
{
    if a.len() > 0 {
        assert forall|j: int| 0 <= j < a.drop_first().len() implies (
        #[trigger] a.drop_first()[j]).0@ == b.drop_first()[j].0@ && json_same(
            a.drop_first()[j].1,
            b.drop_first()[j].1,
        ) by {
            assert(a[j + 1].0@ == b[j + 1].0@);
        }
        assert(a[0].0@ == b[0].0@);
        lemma_entries_same_pointwise(a.drop_first(), b.drop_first());
    }
}


/// Sets `key` in an ordered list of object entries (`Map::insert`): the first
/// entry with the key gets the value, or a new entry is appended.
pub fn insert_entry(entries: &mut Vec<(String, JsonValue)>, key: &str, value: JsonValue)
    ensures
        object_lookup(final(entries)@, key@) == Some(value),
        forall|k: Seq<char>| k != key@ ==> object_lookup(final(entries)@, k) == object_lookup(
            old(entries)@,
            k,
        ),
{
    let ghost before = entries@;
    let mut i: usize = 0;
    assert(entries@.subrange(0, entries.len() as int) =~= entries@);
    while i < entries.len()
        invariant
            i <= entries.len(),
            entries@ == before,
            before == old(entries)@,
            forall|j: int| 0 <= j < i ==> entries@[j].0@ != key@,
        decreases entries.len() - i,
    {
        if str_eq(entries[i].0.as_str(), key) {
            let name = entries[i].0.clone();
            let mut slot = (name, value);
            std::mem::swap(&mut slot, &mut entries[i]);
            proof {
                assert(entries@ =~= before.update(i as int, entries@[i as int]));
                lemma_lookup_update(before, i as int, entries@[i as int], key@, key@);
                assert forall|k: Seq<char>| k != key@ implies object_lookup(entries@, k)
                    == object_lookup(before, k) by {
                    lemma_lookup_update(before, i as int, entries@[i as int], key@, k);
                }
            }
            return;
        }
        i += 1;
    }
    entries.push((copy_string(key), value));
    proof {
        let e = entries@[before.len() as int];
        assert(entries@ == before.push(e));
        lemma_lookup_append(before, e, key@, key@);
        assert forall|k: Seq<char>| k != key@ implies object_lookup(entries@, k) == object_lookup(
            before,
            k,
        ) by {
            lemma_lookup_append(before, e, key@, k);
        }
    }
}

proof fn lemma_lookup_update(
    s: Seq<(String, JsonValue)>,
    i: int,
    e: (String, JsonValue),
    key: Seq<char>,
    k: Seq<char>,
)
    requires
        0 <= i < s.len(),
        s[i].0@ == key,
        e.0@ == key,
        forall|j: int| 0 <= j < i ==> s[j].0@ != key,
    ensures
        object_lookup(s.update(i, e), key) == Some(e.1),
        k != key ==> object_lookup(s.update(i, e), k) == object_lookup(s, k),
    decreases s.len(),
{
    if i == 0 {
        assert(s.update(i, e).drop_first() =~= s.drop_first());
    } else {
        assert(s.update(i, e).drop_first() =~= s.drop_first().update(i - 1, e));
        lemma_lookup_update(s.drop_first(), i - 1, e, key, k);
    }
}

proof fn lemma_lookup_append(
    s: Seq<(String, JsonValue)>,
    e: (String, JsonValue),
    key: Seq<char>,
    k: Seq<char>,
)
    requires
        e.0@ == key,
        forall|j: int| 0 <= j < s.len() ==> s[j].0@ != key,
    ensures
        object_lookup(s.push(e), key) == Some(e.1),
        k != key ==> object_lookup(s.push(e), k) == object_lookup(s, k),
    decreases s.len(),
{
    if s.len() > 0 {
        assert(s.push(e).drop_first() =~= s.drop_first().push(e));
        assert(s.push(e)[0] == s[0]);
        lemma_lookup_append(s.drop_first(), e, key, k);
        if k != key {
            assert(object_lookup(s.push(e), k) == object_lookup(s, k));
        }
    } else {
        assert(s.push(e)[0] == e);
        assert(s.push(e).drop_first() =~= Seq::<(String, JsonValue)>::empty());
        if k != key {
            assert(s.push(e)[0].0@ != k);
            assert(object_lookup(s.push(e), k) == object_lookup(s.push(e).drop_first(), k));
            assert(object_lookup(s.push(e), k) == object_lookup(s, k));
        }
    }
}

} // verus!
