//! Decoding JSON values into structures, field by field, the way serde's
//! derived deserializers read `serde_json` values: an object member by
//! member, in the order the members stand, or an array element by element.
use vstd::prelude::*;
use crate::json::{JsonModel, JsonNumber, JsonValue, copy_value, items_model, members_model, opt_model};
use crate::text::{concat, concat3, debug_string, debug_text, decimal_string, decimal_text, owned, str_eq};

verus! {

/// Why a JSON value does not decode into a structure.
#[derive(Debug)]
pub enum DecodeError {
    /// A value of the wrong kind: how the value reads, then what was
    /// expected.
    InvalidType(String, String),
    /// An array of the wrong length: its length, then what was expected.
    InvalidLength(usize, String),
    /// A required member is absent.
    MissingField(String),
    /// A member occurs twice.
    DuplicateField(String),
}

pub ghost enum DecodeErrorModel {
    InvalidType(Seq<char>, Seq<char>),
    InvalidLength(nat, Seq<char>),
    MissingField(Seq<char>),
    DuplicateField(Seq<char>),
}

impl View for DecodeError {
    type V = DecodeErrorModel;

    open spec fn view(&self) -> DecodeErrorModel {
        match self {
            DecodeError::InvalidType(u, e) => DecodeErrorModel::InvalidType(u@, e@),
            DecodeError::InvalidLength(n, e) => DecodeErrorModel::InvalidLength(*n as nat, e@),
            DecodeError::MissingField(f) => DecodeErrorModel::MissingField(f@),
            DecodeError::DuplicateField(f) => DecodeErrorModel::DuplicateField(f@),
        }
    }
}

impl DecodeErrorModel {
    /// The text of the error, in serde's words.
    pub open spec fn message(self) -> Seq<char> {
        match self {
            DecodeErrorModel::InvalidType(u, e) => "invalid type: "@ + u + ", expected "@ + e,
            DecodeErrorModel::InvalidLength(n, e) => "invalid length "@ + decimal_text(n) + ", expected "@ + e,
            DecodeErrorModel::MissingField(f) => "missing field `"@ + f + "`"@,
            DecodeErrorModel::DuplicateField(f) => "duplicate field `"@ + f + "`"@,
        }
    }
}

impl DecodeError {
    /// The text of the error.
    pub fn message(&self) -> (r: String)
        ensures
            r@ == self@.message(),
    {
        match self {
            DecodeError::InvalidType(u, e) => {
                let head = concat3("invalid type: ", u.as_str(), ", expected ");
                concat(head.as_str(), e.as_str())
            },
            DecodeError::InvalidLength(n, e) => {
                let d = decimal_string(*n as u64);
                let head = concat3("invalid length ", d.as_str(), ", expected ");
                concat(head.as_str(), e.as_str())
            },
            DecodeError::MissingField(f) => concat3("missing field `", f.as_str(), "`"),
            DecodeError::DuplicateField(f) => concat3("duplicate field `", f.as_str(), "`"),
        }
    }
}

/// A signed number in decimal.
pub open spec fn signed_text(i: int) -> Seq<char> {
    if i < 0 {
        "-"@ + decimal_text((-i) as nat)
    } else {
        decimal_text(i as nat)
    }
}

/// How an error names a value that is not of the expected kind.  A
/// floating-point number is named by its kind alone.
pub open spec fn unexpected_text(m: JsonModel) -> Seq<char> {
    match m {
        JsonModel::Null => "null"@,
        JsonModel::Bool(b) => if b { "boolean `true`"@ } else { "boolean `false`"@ },
        JsonModel::Number(JsonNumber::PosInt(u)) => "integer `"@ + decimal_text(u as nat) + "`"@,
        JsonModel::Number(JsonNumber::NegInt(i)) => "integer `"@ + signed_text(i as int) + "`"@,
        JsonModel::Number(JsonNumber::Float(_)) => "floating point"@,
        JsonModel::String(s) => "string "@ + debug_text(s),
        JsonModel::Array(_) => "sequence"@,
        JsonModel::Object(_) => "map"@,
    }
}

fn signed_string(i: i64) -> (r: String)
    ensures
        r@ == signed_text(i as int),
{
    if i < 0 {
        let magnitude: u64 = if i == i64::MIN { 9223372036854775808u64 } else { (-i) as u64 };
        let d = decimal_string(magnitude);
        concat("-", d.as_str())
    } else {
        decimal_string(i as u64)
    }
}

fn unexpected_string(v: &JsonValue) -> (r: String)
    ensures
        r@ == unexpected_text(v@),
{
    match v {
        JsonValue::Null => owned("null"),
        JsonValue::Bool(b) => if *b { owned("boolean `true`") } else { owned("boolean `false`") },
        JsonValue::Number(JsonNumber::PosInt(u)) => {
            let d = decimal_string(*u);
            concat3("integer `", d.as_str(), "`")
        },
        JsonValue::Number(JsonNumber::NegInt(i)) => {
            let d = signed_string(*i);
            concat3("integer `", d.as_str(), "`")
        },
        JsonValue::Number(JsonNumber::Float(_)) => owned("floating point"),
        JsonValue::String(s) => {
            let d = debug_string(s.as_str());
            concat("string ", d.as_str())
        },
        JsonValue::Array(_) => owned("sequence"),
        JsonValue::Object(_) => owned("map"),
    }
}

/// The kind of a structure's field.
#[derive(Debug, Clone, Copy)]
pub enum FieldKind {
    /// A string, required.
    Text,
    /// A string; absent or `null` is none.
    OptionalText,
    /// Any value, required (`null` included).
    Value,
    /// Any value; absent or `null` is none.
    OptionalValue,
}

pub open spec fn is_optional(k: FieldKind) -> bool {
    k is OptionalText || k is OptionalValue
}

/// A field's value decoded: the value kept, or none for an optional field
/// that holds `null`.
pub open spec fn decode_field(kind: FieldKind, v: JsonModel) -> Result<Option<JsonModel>, DecodeErrorModel> {
    match kind {
        FieldKind::Text => if v is String {
            Ok(Some(v))
        } else {
            Err(DecodeErrorModel::InvalidType(unexpected_text(v), "a string"@))
        },
        FieldKind::OptionalText => if v is Null {
            Ok(None)
        } else if v is String {
            Ok(Some(v))
        } else {
            Err(DecodeErrorModel::InvalidType(unexpected_text(v), "a string"@))
        },
        FieldKind::Value => Ok(Some(v)),
        FieldKind::OptionalValue => if v is Null { Ok(None) } else { Ok(Some(v)) },
    }
}

/// Whether a decoded value is of its field's kind.
pub open spec fn fits(kind: FieldKind, x: Option<JsonModel>) -> bool {
    match kind {
        FieldKind::Text => x matches Some(JsonModel::String(_)),
        FieldKind::OptionalText => x is None || x matches Some(JsonModel::String(_)),
        FieldKind::Value => x is Some,
        FieldKind::OptionalValue => true,
    }
}

/// The first field, from position `f` on, named `key`.
pub open spec fn field_index(fields: Seq<(Seq<char>, FieldKind)>, key: Seq<char>, f: int) -> Option<int>
    decreases fields.len() - f,
{
    if f < 0 || f >= fields.len() {
        None
    } else if fields[f].0 == key {
        Some(f)
    } else {
        field_index(fields, key, f + 1)
    }
}

/// Reads the members of an object from position `i` on: a member that
/// names a field decodes into it (a field met twice is an error), other
/// members are ignored.
pub open spec fn visit_map(
    fields: Seq<(Seq<char>, FieldKind)>,
    es: Seq<(Seq<char>, JsonModel)>,
    i: int,
    state: Seq<Option<Option<JsonModel>>>,
) -> Result<Seq<Option<Option<JsonModel>>>, DecodeErrorModel>
    decreases es.len() - i,
{
    if i < 0 || i >= es.len() {
        Ok(state)
    } else {
        match field_index(fields, es[i].0, 0) {
            None => visit_map(fields, es, i + 1, state),
            Some(f) => if state[f] is Some {
                Err(DecodeErrorModel::DuplicateField(es[i].0))
            } else {
                match decode_field(fields[f].1, es[i].1) {
                    Err(e) => Err(e),
                    Ok(x) => visit_map(fields, es, i + 1, state.update(f, Some(x))),
                }
            },
        }
    }
}

/// The fields after the members were read, in declaration order from `f`
/// on: an absent optional field is none, an absent required one an error.
pub open spec fn finish_fields(
    fields: Seq<(Seq<char>, FieldKind)>,
    state: Seq<Option<Option<JsonModel>>>,
    f: int,
    acc: Seq<Option<JsonModel>>,
) -> Result<Seq<Option<JsonModel>>, DecodeErrorModel>
    decreases fields.len() - f,
{
    if f < 0 || f >= fields.len() {
        Ok(acc)
    } else {
        match state[f] {
            Some(x) => finish_fields(fields, state, f + 1, acc.push(x)),
            None => if is_optional(fields[f].1) {
                finish_fields(fields, state, f + 1, acc.push(None))
            } else {
                Err(DecodeErrorModel::MissingField(fields[f].0))
            },
        }
    }
}

/// Reads the fields from the elements of an array, in order from field `f`
/// on; an array too short for the fields is an error.
pub open spec fn visit_seq(
    fields: Seq<(Seq<char>, FieldKind)>,
    items: Seq<JsonModel>,
    f: int,
    acc: Seq<Option<JsonModel>>,
    expecting: Seq<char>,
) -> Result<Seq<Option<JsonModel>>, DecodeErrorModel>
    decreases fields.len() - f,
{
    if f < 0 || f >= fields.len() {
        Ok(acc)
    } else if f >= items.len() {
        Err(DecodeErrorModel::InvalidLength(f as nat, expecting))
    } else {
        match decode_field(fields[f].1, items[f]) {
            Err(e) => Err(e),
            Ok(x) => visit_seq(fields, items, f + 1, acc.push(x), expecting),
        }
    }
}

/// What an array that holds a structure was expected to be.
pub open spec fn seq_expecting(name: Seq<char>, n: nat) -> Seq<char> {
    "struct "@ + name + " with "@ + decimal_text(n) + if n == 1 { " element"@ } else { " elements"@ }
}

/// Decodes the structure `name` with the given fields: from an object, its
/// members in order, then the absent fields; from an array, its elements
/// in field order, with no element left over; any other value is an error.
pub open spec fn decode_struct(
    name: Seq<char>,
    fields: Seq<(Seq<char>, FieldKind)>,
    m: JsonModel,
) -> Result<Seq<Option<JsonModel>>, DecodeErrorModel> {
    match m {
        JsonModel::Object(es) => match visit_map(fields, es, 0, Seq::new(fields.len(), |i: int| None)) {
            Err(e) => Err(e),
            Ok(state) => finish_fields(fields, state, 0, seq![]),
        },
        JsonModel::Array(items) => match visit_seq(fields, items, 0, seq![], seq_expecting(name, fields.len())) {
            Err(e) => Err(e),
            Ok(vals) => if items.len() > fields.len() {
                Err(DecodeErrorModel::InvalidLength(items.len(), "fewer elements in array"@))
            } else {
                Ok(vals)
            },
        },
        other => Err(DecodeErrorModel::InvalidType(unexpected_text(other), "struct "@ + name)),
    }
}

/// The text of a decoded string field.
pub open spec fn text_of(x: Option<JsonModel>) -> Seq<char> {
    match x {
        Some(JsonModel::String(s)) => s,
        _ => seq![],
    }
}

/// The text of a decoded optional string field.
pub open spec fn opt_text_of(x: Option<JsonModel>) -> Option<Seq<char>> {
    match x {
        Some(JsonModel::String(s)) => Some(s),
        _ => None,
    }
}

/// The value of a decoded required value field.
pub open spec fn value_of(x: Option<JsonModel>) -> JsonModel {
    match x {
        Some(v) => v,
        None => JsonModel::Null,
    }
}

pub open spec fn fields_model(fields: Seq<(&str, FieldKind)>) -> Seq<(Seq<char>, FieldKind)> {
    Seq::new(fields.len(), |i: int| (fields[i].0@, fields[i].1))
}

pub open spec fn vals_model(vals: Seq<Option<JsonValue>>) -> Seq<Option<JsonModel>> {
    Seq::new(vals.len(), |i: int| opt_model(vals[i]))
}

pub open spec fn state_model(state: Seq<Option<Option<JsonValue>>>) -> Seq<Option<Option<JsonModel>>> {
    Seq::new(
        state.len(),
        |i: int| match state[i] {
            Some(x) => Some(opt_model(x)),
            None => None,
        },
    )
}

fn find_field(fields: &Vec<(&str, FieldKind)>, key: &str) -> (r: Option<usize>)
    ensures
        match r {
            Some(f) => field_index(fields_model(fields@), key@, 0) == Some(f as int) && f < fields@.len(),
            None => field_index(fields_model(fields@), key@, 0) is None,
        },
{
    let ghost fm = fields_model(fields@);
    let mut f: usize = 0;
    while f < fields.len()
        invariant
            fm == fields_model(fields@),
            f <= fields@.len(),
            field_index(fm, key@, 0) == field_index(fm, key@, f as int),
        decreases fields@.len() - f,
    {
        if str_eq(fields[f].0, key) {
            return Some(f);
        }
        f = f + 1;
    }
    None
}

fn decode_field_value(kind: FieldKind, v: &JsonValue) -> (r: Result<Option<JsonValue>, DecodeError>)
    ensures
        match r {
            Ok(x) => decode_field(kind, v@) == Ok::<Option<JsonModel>, DecodeErrorModel>(opt_model(x)),
            Err(e) => decode_field(kind, v@) == Err::<Option<JsonModel>, DecodeErrorModel>(e@),
        },
{
    let is_null = matches!(v, JsonValue::Null);
    let is_text = matches!(v, JsonValue::String(_));
    match kind {
        FieldKind::Text => if is_text {
            Ok(Some(copy_value(v)))
        } else {
            Err(DecodeError::InvalidType(unexpected_string(v), owned("a string")))
        },
        FieldKind::OptionalText => if is_null {
            Ok(None)
        } else if is_text {
            Ok(Some(copy_value(v)))
        } else {
            Err(DecodeError::InvalidType(unexpected_string(v), owned("a string")))
        },
        FieldKind::Value => Ok(Some(copy_value(v))),
        FieldKind::OptionalValue => if is_null { Ok(None) } else { Ok(Some(copy_value(v))) },
    }
}

fn copy_field(x: &Option<JsonValue>) -> (r: Option<JsonValue>)
    ensures
        opt_model(r) == opt_model(*x),
{
    match x {
        Some(v) => Some(copy_value(v)),
        None => None,
    }
}

/// Decodes the structure `name` with the given fields, as `decode_struct`
/// says; the decoded values are of their fields' kinds.
pub fn decode_struct_value(v: &JsonValue, name: &str, fields: &Vec<(&str, FieldKind)>) -> (r: Result<Vec<Option<JsonValue>>, DecodeError>)
    ensures
        match r {
            Ok(vals) => decode_struct(name@, fields_model(fields@), v@) == Ok::<Seq<Option<JsonModel>>, DecodeErrorModel>(vals_model(vals@)),
            Err(e) => decode_struct(name@, fields_model(fields@), v@) == Err::<Seq<Option<JsonModel>>, DecodeErrorModel>(e@),
        },
        r matches Ok(vals) ==> vals@.len() == fields@.len()
            && forall|f: int| 0 <= f < vals@.len() ==> fits(fields@[f].1, #[trigger] opt_model(vals@[f])),
{
    let ghost fm = fields_model(fields@);
    match v {
        JsonValue::Object(es) => {
            let ghost m = members_model(es@);
            assert(v@ == JsonModel::Object(m)) by {
                assert(v@->Object_0 =~= m);
            }
            let ghost init: Seq<Option<Option<JsonModel>>> = Seq::new(fm.len(), |i: int| None);
            let mut state: Vec<Option<Option<JsonValue>>> = Vec::new();
            let mut k: usize = 0;
            while k < fields.len()
                invariant
                    k <= fields@.len(),
                    state@.len() == k,
                    forall|j: int| 0 <= j < k ==> (#[trigger] state@[j]) is None,
                decreases fields@.len() - k,
            {
                state.push(None);
                k = k + 1;
            }
            assert(state_model(state@) =~= init);
            let mut i: usize = 0;
            while i < es.len()
                invariant
                    fm == fields_model(fields@),
                    m == members_model(es@),
                    i <= es@.len(),
                    state@.len() == fields@.len(),
                    v@ == JsonModel::Object(m),
                    init == Seq::new(fm.len(), |i: int| None::<Option<JsonModel>>),
                    visit_map(fm, m, 0, init) == visit_map(fm, m, i as int, state_model(state@)),
                    forall|f: int| 0 <= f < state@.len() ==> (#[trigger] state_model(state@)[f] matches Some(x) ==> fits(fm[f].1, x)),
                decreases es@.len() - i,
            {
                let key = es[i].0.as_str();
                match find_field(fields, key) {
                    None => {},
                    Some(f) => {
                        if state[f].is_some() {
                            return Err(DecodeError::DuplicateField(owned(key)));
                        }
                        match decode_field_value(fields[f].1, &es[i].1) {
                            Err(e) => {
                                return Err(e);
                            },
                            Ok(x) => {
                                let ghost before = state_model(state@);
                                state.set(f, Some(x));
                                proof {
                                    assert(state_model(state@) =~= before.update(f as int, Some(opt_model(x))));
                                }
                            },
                        }
                    },
                }
                i = i + 1;
            }
            let ghost sm = state_model(state@);
            let mut out: Vec<Option<JsonValue>> = Vec::new();
            let mut f: usize = 0;
            assert(vals_model(out@) =~= Seq::<Option<JsonModel>>::empty());
            while f < fields.len()
                invariant
                    fm == fields_model(fields@),
                    sm == state_model(state@),
                    state@.len() == fields@.len(),
                    f <= fields@.len(),
                    out@.len() == f,
                    v@ == JsonModel::Object(m),
                    init == Seq::new(fm.len(), |i: int| None::<Option<JsonModel>>),
                    visit_map(fm, m, 0, init) == Ok::<Seq<Option<Option<JsonModel>>>, DecodeErrorModel>(sm),
                    finish_fields(fm, sm, 0, seq![]) == finish_fields(fm, sm, f as int, vals_model(out@)),
                    forall|g: int| 0 <= g < state@.len() ==> (#[trigger] sm[g] matches Some(x) ==> fits(fm[g].1, x)),
                    forall|g: int| 0 <= g < out@.len() ==> fits(fields@[g].1, #[trigger] opt_model(out@[g])),
                decreases fields@.len() - f,
            {
                let ghost before = vals_model(out@);
                match &state[f] {
                    Some(x) => {
                        let c = copy_field(x);
                        out.push(c);
                        proof {
                            assert(vals_model(out@) =~= before.push(opt_model(c)));
                        }
                    },
                    None => {
                        let optional = match fields[f].1 {
                            FieldKind::OptionalText => true,
                            FieldKind::OptionalValue => true,
                            _ => false,
                        };
                        if optional {
                            out.push(None);
                            proof {
                                assert(vals_model(out@) =~= before.push(None));
                            }
                        } else {
                            return Err(DecodeError::MissingField(owned(fields[f].0)));
                        }
                    },
                }
                f = f + 1;
            }
            Ok(out)
        },
        JsonValue::Array(items) => {
            let ghost m = items_model(items@);
            assert(v@ == JsonModel::Array(m)) by {
                assert(v@->Array_0 =~= m);
            }
            let n = fields.len();
            let expecting = {
                let count = decimal_string(n as u64);
                let head = concat3("struct ", name, " with ");
                let head = concat(head.as_str(), count.as_str());
                if n == 1 { concat(head.as_str(), " element") } else { concat(head.as_str(), " elements") }
            };
            assert(expecting@ == seq_expecting(name@, fm.len()));
            let mut out: Vec<Option<JsonValue>> = Vec::new();
            let mut f: usize = 0;
            assert(vals_model(out@) =~= Seq::<Option<JsonModel>>::empty());
            while f < n
                invariant
                    fm == fields_model(fields@),
                    m == items_model(items@),
                    n == fields@.len(),
                    f <= n,
                    out@.len() == f,
                    expecting@ == seq_expecting(name@, fm.len()),
                    v@ == JsonModel::Array(m),
                    visit_seq(fm, m, 0, seq![], expecting@) == visit_seq(fm, m, f as int, vals_model(out@), expecting@),
                    forall|g: int| 0 <= g < out@.len() ==> fits(fields@[g].1, #[trigger] opt_model(out@[g])),
                decreases n - f,
            {
                if f >= items.len() {
                    return Err(DecodeError::InvalidLength(f, expecting));
                }
                match decode_field_value(fields[f].1, &items[f]) {
                    Err(e) => {
                        return Err(e);
                    },
                    Ok(x) => {
                        let ghost before = vals_model(out@);
                        out.push(x);
                        proof {
                            assert(vals_model(out@) =~= before.push(opt_model(x)));
                        }
                    },
                }
                f = f + 1;
            }
            if items.len() > n {
                return Err(DecodeError::InvalidLength(items.len(), owned("fewer elements in array")));
            }
            Ok(out)
        },
        _ => {
            let u = unexpected_string(v);
            Err(DecodeError::InvalidType(u, concat("struct ", name)))
        },
    }
}

/// The text of a decoded string field.
pub fn take_text(x: &Option<JsonValue>) -> (r: String)
    requires
        fits(FieldKind::Text, opt_model(*x)),
    ensures
        r@ == text_of(opt_model(*x)),
{
    match x {
        Some(JsonValue::String(s)) => s.clone(),
        _ => owned(""),
    }
}

/// The text of a decoded optional string field.
pub fn take_opt_text(x: &Option<JsonValue>) -> (r: Option<String>)
    requires
        fits(FieldKind::OptionalText, opt_model(*x)),
    ensures
        match r {
            Some(s) => opt_text_of(opt_model(*x)) == Some(s@),
            None => opt_text_of(opt_model(*x)) is None,
        },
{
    match x {
        Some(JsonValue::String(s)) => Some(s.clone()),
        _ => None,
    }
}

/// The value of a decoded required value field.
pub fn take_value(x: &Option<JsonValue>) -> (r: JsonValue)
    requires
        fits(FieldKind::Value, opt_model(*x)),
    ensures
        r@ == value_of(opt_model(*x)),
{
    match x {
        Some(v) => copy_value(v),
        None => JsonValue::Null,
    }
}

/// A copy of a decoded optional value field.
pub fn take_opt_value(x: &Option<JsonValue>) -> (r: Option<JsonValue>)
    ensures
        opt_model(r) == opt_model(*x),
{
    copy_field(x)
}

} // verus!
