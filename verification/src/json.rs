//! A JSON document model: the values that JSON-RPC messages carry.
//!
//! Objects keep their members in order; a member is found by its first
//! occurrence.
use vstd::prelude::*;
use crate::text::owned;

verus! {

/// A JSON number: a non-negative integer, a negative integer, or a
/// floating-point number given by its IEEE-754 bit pattern.
#[derive(Debug, Clone, Copy, PartialEq, Eq, Structural)]
pub enum JsonNumber {
    PosInt(u64),
    NegInt(i64),
    Float(u64),
}

/// A JSON value.
#[derive(Debug)]
pub enum JsonValue {
    Null,
    Bool(bool),
    Number(JsonNumber),
    String(String),
    Array(Vec<JsonValue>),
    Object(Vec<(String, JsonValue)>),
}

/// The mathematical model of a [`JsonValue`].
pub ghost enum JsonModel {
    Null,
    Bool(bool),
    Number(JsonNumber),
    String(Seq<char>),
    Array(Seq<JsonModel>),
    Object(Seq<(Seq<char>, JsonModel)>),
}

impl JsonValue {
    pub open spec fn model(self) -> JsonModel
        decreases self,
    {
        match self {
            JsonValue::Null => JsonModel::Null,
            JsonValue::Bool(b) => JsonModel::Bool(b),
            JsonValue::Number(n) => JsonModel::Number(n),
            JsonValue::String(s) => JsonModel::String(s@),
            JsonValue::Array(items) => JsonModel::Array(
                Seq::new(
                    items@.len(),
                    |i: int|
                        if 0 <= i < items@.len() {
                            proof {
                                assert(decreases_to!(self => items));
                                assert(decreases_to!(items => items@));
                                assert(decreases_to!(items@ => items@[i]));
                            }
                            items@[i].model()
                        } else {
                            JsonModel::Null
                        },
                ),
            ),
            JsonValue::Object(es) => JsonModel::Object(
                Seq::new(
                    es@.len(),
                    |i: int|
                        if 0 <= i < es@.len() {
                            proof {
                                assert(decreases_to!(es@ => es@[i]));
                                assert(decreases_to!(es@[i] => es@[i].1));
                            }
                            (es@[i].0@, es@[i].1.model())
                        } else {
                            (Seq::empty(), JsonModel::Null)
                        },
                ),
            ),
        }
    }
}

impl View for JsonValue {
    type V = JsonModel;

    open spec fn view(&self) -> JsonModel {
        self.model()
    }
}

/// The model of a list of object members.
pub open spec fn members_model(es: Seq<(String, JsonValue)>) -> Seq<(Seq<char>, JsonModel)> {
    Seq::new(es.len(), |i: int| (es[i].0@, es[i].1@))
}

/// The model of a list of values.
pub open spec fn items_model(items: Seq<JsonValue>) -> Seq<JsonModel> {
    Seq::new(items.len(), |i: int| items[i]@)
}

pub proof fn lemma_object_model(es: Vec<(String, JsonValue)>)
    ensures
        JsonValue::Object(es)@ == JsonModel::Object(members_model(es@)),
{
    assert(JsonValue::Object(es)@->Object_0 =~= members_model(es@));
}

pub proof fn lemma_array_model(items: Vec<JsonValue>)
    ensures
        JsonValue::Array(items)@ == JsonModel::Array(items_model(items@)),
{
    assert(JsonValue::Array(items)@->Array_0 =~= items_model(items@));
}

/// The value of the first member named `key`.
pub open spec fn lookup(es: Seq<(Seq<char>, JsonModel)>, key: Seq<char>) -> Option<JsonModel>
    decreases es.len(),
{
    if es.len() == 0 {
        None
    } else if es[0].0 == key {
        Some(es[0].1)
    } else {
        lookup(es.drop_first(), key)
    }
}

impl JsonModel {
    /// The member `key` of an object; nothing for any other value.
    pub open spec fn get(self, key: Seq<char>) -> Option<JsonModel> {
        match self {
            JsonModel::Object(es) => lookup(es, key),
            _ => None,
        }
    }

    /// The text of a string value.
    pub open spec fn as_str(self) -> Option<Seq<char>> {
        match self {
            JsonModel::String(s) => Some(s),
            _ => None,
        }
    }

    /// The text of the string member `key`, if there is one.
    pub open spec fn get_str(self, key: Seq<char>) -> Option<Seq<char>> {
        match self.get(key) {
            Some(v) => v.as_str(),
            None => None,
        }
    }

    /// `{}`
    pub open spec fn empty_object() -> JsonModel {
        JsonModel::Object(seq![])
    }
}

/// The model of an optional value.
pub open spec fn opt_model(v: Option<JsonValue>) -> Option<JsonModel> {
    match v {
        Some(x) => Some(x@),
        None => None,
    }
}

impl JsonValue {
    /// The member `key` of an object (`None` for any other value), as
    /// `serde_json::Value::get` finds it.
    pub fn get(&self, key: &str) -> (r: Option<&JsonValue>)
        ensures
            match r {
                Some(v) => self@.get(key@) == Some(v@),
                None => self@.get(key@) is None,
            },
    {
        match self {
            JsonValue::Object(es) => {
                let k = owned(key);
                let ghost m = members_model(es@);
                proof {
                    lemma_object_model(*es);
                    assert(m.skip(0) == m);
                }
                let mut i: usize = 0;
                while i < es.len()
                    invariant
                        m == members_model(es@),
                        k@ == key@,
                        i <= es@.len(),
                        lookup(m, key@) == lookup(m.skip(i as int), key@),
                        self@ == JsonModel::Object(m),
                    decreases es@.len() - i,
                {
                    assert(m.skip(i as int)[0] == m[i as int]);
                    if es[i].0 == k {
                        return Some(&es[i].1);
                    }
                    assert(m.skip(i as int).drop_first() == m.skip(i + 1));
                    i = i + 1;
                }
                None
            },
            _ => None,
        }
    }

    /// The text of a string value.
    pub fn as_str(&self) -> (r: Option<&str>)
        ensures
            match r {
                Some(s) => self@.as_str() == Some(s@),
                None => self@.as_str() is None,
            },
    {
        match self {
            JsonValue::String(s) => Some(s.as_str()),
            _ => None,
        }
    }

    /// The text of the string member `key`.
    pub fn get_str(&self, key: &str) -> (r: Option<&str>)
        ensures
            match r {
                Some(s) => self@.get_str(key@) == Some(s@),
                None => self@.get_str(key@) is None,
            },
    {
        match self.get(key) {
            Some(v) => v.as_str(),
            None => None,
        }
    }

    /// A string value.
    pub fn string(s: &str) -> (r: JsonValue)
        ensures
            r@ == JsonModel::String(s@),
    {
        JsonValue::String(owned(s))
    }

    /// `{}`
    pub fn empty_object() -> (r: JsonValue)
        ensures
            r@ == JsonModel::empty_object(),
    {
        let r = JsonValue::Object(Vec::new());
        proof {
            assert(r@->Object_0 =~= Seq::<(Seq<char>, JsonModel)>::empty());
        }
        r
    }
}

/// A deep copy of a value, member for member.
#[verifier::loop_isolation(false)]
pub fn copy_value(v: &JsonValue) -> (r: JsonValue)
    ensures
        r@ == v@,
    decreases v,
{
    match v {
        JsonValue::Null => JsonValue::Null,
        JsonValue::Bool(b) => JsonValue::Bool(*b),
        JsonValue::Number(n) => JsonValue::Number(*n),
        JsonValue::String(s) => JsonValue::String(s.clone()),
        JsonValue::Array(items) => {
            let mut out: Vec<JsonValue> = Vec::new();
            let mut i: usize = 0;
            while i < items.len()
                invariant
                    i <= items@.len(),
                    out@.len() == i,
                    forall|k: int| 0 <= k < i ==> (#[trigger] out@[k])@ == items@[k]@,
                decreases items@.len() - i,
            {
                assert(decreases_to!(*v => *items));
                assert(decreases_to!(*items => items@));
                assert(decreases_to!(items@ => items@[i as int]));
                let x = copy_value(&items[i]);
                out.push(x);
                i = i + 1;
            }
            proof {
                lemma_array_model(out);
                lemma_array_model(*items);
                assert(items_model(out@) =~= items_model(items@));
            }
            JsonValue::Array(out)
        },
        JsonValue::Object(es) => {
            let mut out: Vec<(String, JsonValue)> = Vec::new();
            let mut i: usize = 0;
            while i < es.len()
                invariant
                    i <= es@.len(),
                    out@.len() == i,
                    forall|k: int| 0 <= k < i ==> (#[trigger] out@[k]).0@ == es@[k].0@ && out@[k].1@ == es@[k].1@,
                decreases es@.len() - i,
            {
                assert(decreases_to!(*v => *es));
                assert(decreases_to!(*es => es@));
                assert(decreases_to!(es@ => es@[i as int]));
                assert(decreases_to!(es@[i as int] => es@[i as int].1));
                let x = copy_value(&es[i].1);
                out.push((es[i].0.clone(), x));
                i = i + 1;
            }
            proof {
                lemma_object_model(out);
                lemma_object_model(*es);
                assert(members_model(out@) =~= members_model(es@));
            }
            JsonValue::Object(out)
        },
    }
}

impl Clone for JsonValue {
    fn clone(&self) -> (r: Self)
        ensures
            r@ == self@,
    {
        copy_value(self)
    }
}

/// A deep copy of an optional value.
pub fn copy_opt(v: &Option<JsonValue>) -> (r: Option<JsonValue>)
    ensures
        opt_model(r) == opt_model(*v),
{
    match v {
        Some(x) => Some(copy_value(x)),
        None => None,
    }
}


/// An object with the given members, in order.
pub fn object(es: Vec<(String, JsonValue)>) -> (r: JsonValue)
    ensures
        r@ == JsonModel::Object(members_model(es@)),
{
    proof {
        lemma_object_model(es);
    }
    JsonValue::Object(es)
}

/// An array with the given items, in order.
pub fn array(items: Vec<JsonValue>) -> (r: JsonValue)
    ensures
        r@ == JsonModel::Array(items_model(items@)),
{
    proof {
        lemma_array_model(items);
    }
    JsonValue::Array(items)
}

/// A member `key: value`.
pub fn member(key: &str, value: JsonValue) -> (r: (String, JsonValue))
    ensures
        r.0@ == key@,
        r.1@ == value@,
{
    (owned(key), value)
}

/// A string, or `null` for none.
pub open spec fn string_or_null(s: Option<Seq<char>>) -> JsonModel {
    match s {
        Some(x) => JsonModel::String(x),
        None => JsonModel::Null,
    }
}

/// A string value, or `null` for none.
pub fn string_or_null_value(s: &Option<String>) -> (r: JsonValue)
    ensures
        r@ == string_or_null(match *s { Some(x) => Some(x@), None => None }),
{
    match s {
        Some(x) => JsonValue::String(x.clone()),
        None => JsonValue::Null,
    }
}


/// The members with `key` set to `v`: the first member named `key` gets the
/// new value, or a new member is added at the end.
pub open spec fn set_first(es: Seq<(Seq<char>, JsonModel)>, key: Seq<char>, v: JsonModel) -> Seq<(Seq<char>, JsonModel)>
    decreases es.len(),
{
    if es.len() == 0 {
        seq![(key, v)]
    } else if es[0].0 == key {
        seq![(key, v)] + es.drop_first()
    } else {
        seq![es[0]] + set_first(es.drop_first(), key, v)
    }
}

impl JsonModel {
    /// An object with member `key` set to `v`; any other value unchanged.
    pub open spec fn with_member(self, key: Seq<char>, v: JsonModel) -> JsonModel {
        match self {
            JsonModel::Object(es) => JsonModel::Object(set_first(es, key, v)),
            other => other,
        }
    }
}

proof fn lemma_set_first(es: Seq<(Seq<char>, JsonModel)>, key: Seq<char>, v: JsonModel, i: int)
    requires
        0 <= i <= es.len(),
        forall|k: int| 0 <= k < i ==> es[k].0 != key,
    ensures
        i < es.len() && es[i].0 == key ==> set_first(es, key, v) == es.update(i, (key, v)),
        i == es.len() ==> set_first(es, key, v) == es.push((key, v)),
    decreases es.len(),
{
    if es.len() > 0 && i > 0 {
        let rest = es.drop_first();
        assert forall|k: int| 0 <= k < i - 1 implies rest[k].0 != key by {
            assert(rest[k] == es[k + 1]);
        }
        lemma_set_first(rest, key, v, i - 1);
        if i < es.len() && es[i].0 == key {
            assert(rest[i - 1] == es[i]);
            assert(seq![es[0]] + rest.update(i - 1, (key, v)) =~= es.update(i, (key, v)));
        }
        if i == es.len() {
            assert(seq![es[0]] + rest.push((key, v)) =~= es.push((key, v)));
        }
    } else if es.len() > 0 && i == 0 {
        if es[0].0 == key {
            assert(seq![(key, v)] + es.drop_first() =~= es.update(0, (key, v)));
        }
    } else {
        assert(seq![(key, v)] =~= es.push((key, v)));
    }
}

proof fn lemma_set_first_lookup(es: Seq<(Seq<char>, JsonModel)>, key: Seq<char>, v: JsonModel, other: Seq<char>)
    ensures
        lookup(set_first(es, key, v), key) == Some(v),
        other != key ==> lookup(set_first(es, key, v), other) == lookup(es, other),
    decreases es.len(),
{
    if es.len() == 0 {
        assert(lookup(seq![(key, v)].drop_first(), other) == lookup(es, other));
    } else if es[0].0 == key {
        let r = seq![(key, v)] + es.drop_first();
        assert(r.drop_first() =~= es.drop_first());
    } else {
        let rest = es.drop_first();
        lemma_set_first_lookup(rest, key, v, other);
        let r = seq![es[0]] + set_first(rest, key, v);
        assert(r.drop_first() =~= set_first(rest, key, v));
    }
}

/// Setting a member of an object and reading it back gives the value set;
/// every other member reads as before.
pub proof fn lemma_with_member_get(m: JsonModel, key: Seq<char>, v: JsonModel)
    requires
        m is Object,
    ensures
        m.with_member(key, v).get(key) == Some(v),
        forall|other: Seq<char>| other != key ==> #[trigger] m.with_member(key, v).get(other) == m.get(other),
{
    lemma_set_first_lookup(m->Object_0, key, v, key);
    assert forall|other: Seq<char>| other != key implies #[trigger] m.with_member(key, v).get(other) == m.get(other) by {
        lemma_set_first_lookup(m->Object_0, key, v, other);
    }
}

/// The value with member `key` set to `value`, as `insert` on the members of
/// an object does; any other value is returned unchanged.
#[verifier::loop_isolation(false)]
pub fn with_member(v: JsonValue, key: &str, value: JsonValue) -> (r: JsonValue)
    ensures
        r@ == v@.with_member(key@, value@),
{
    let ghost vm = v@;
    match v {
        JsonValue::Object(es) => {
            let ghost m = members_model(es@);
            proof {
                lemma_object_model(es);
            }
            let mut es = es;
            let k = owned(key);
            let mut i: usize = 0;
            while i < es.len()
                invariant
                    m == members_model(es@),
                    vm == JsonModel::Object(m),
                    k@ == key@,
                    i <= es@.len(),
                    forall|j: int| 0 <= j < i ==> m[j].0 != key@,
                decreases es@.len() - i,
            {
                if es[i].0 == k {
                    proof {
                        assert(m[i as int].0 == key@);
                        lemma_set_first(m, key@, value@, i as int);
                        assert(set_first(m, key@, value@) == m.update(i as int, (key@, value@)));
                    }
                    es.set(i, (k, value));
                    proof {
                        assert(members_model(es@) =~= m.update(i as int, (key@, value@)));
                        assert(vm.with_member(key@, value@) == JsonModel::Object(members_model(es@)));
                    }
                    return object(es);
                }
                i = i + 1;
            }
            proof {
                lemma_set_first(m, key@, value@, es@.len() as int);
            }
            es.push((k, value));
            proof {
                assert(members_model(es@) =~= m.push((key@, value@)));
            }
            object(es)
        },
        other => other,
    }
}

} // verus!
