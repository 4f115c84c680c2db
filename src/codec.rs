use vstd::prelude::*;
use crate::error::ActionError;
use crate::field::FieldType;
use crate::value::{same_value, ObjectId, Value};

verus! {

/// A value in the document store's own form: the types it keeps, with
/// documents as ordered lists of named values.
#[derive(Debug)]
pub enum BsonValue {
    Null,
    Boolean(bool),
    Int32(i32),
    Int64(i64),
    String(String),
    ObjectId(ObjectId),
    DateTime(i64),
    Array(Vec<BsonValue>),
    Document(Vec<(String, BsonValue)>),
}

/// Milliseconds in a day.
pub const DAY_MS: i64 = 86_400_000;

/// Whether a value can be stored in a document: neither a decimal nor an
/// embedded object occurs in it.
pub open spec fn encodable(v: Value) -> bool
    decreases v,
{
    match v {
        Value::Decimal(_) => false,
        Value::Object(_) => false,
        Value::Vec(vs) => forall|i: int| 0 <= i < vs@.len() ==> encodable(#[trigger] vs@[i]),
        Value::Dict(es) => forall|i: int| 0 <= i < es@.len() ==> encodable((#[trigger] es@[i]).1),
        _ => true,
    }
}

/// `b` is the stored form of `v`. A date is stored as the date-time of its
/// midnight.
pub open spec fn encodes(v: Value, b: BsonValue) -> bool
    decreases v,
{
    match v {
        Value::Null => b is Null,
        Value::Bool(x) => b == BsonValue::Boolean(x),
        Value::I32(x) => b == BsonValue::Int32(x),
        Value::I64(x) => b == BsonValue::Int64(x),
        Value::String(s) => b is String && b->String_0@ == s@,
        Value::ObjectId(o) => b == BsonValue::ObjectId(o),
        Value::Date(d) => b is DateTime && b->DateTime_0 == d as int * DAY_MS,
        Value::DateTime(t) => b == BsonValue::DateTime(t),
        Value::Vec(vs) => {
            &&& b is Array
            &&& b->Array_0@.len() == vs@.len()
            &&& forall|i: int| 0 <= i < vs@.len() ==> encodes(#[trigger] vs@[i], b->Array_0@[i])
        },
        Value::Dict(es) => {
            &&& b is Document
            &&& b->Document_0@.len() == es@.len()
            &&& forall|i: int|
                0 <= i < es@.len() ==> (#[trigger] es@[i]).0@ == b->Document_0@[i].0@ && encodes(
                    es@[i].1,
                    b->Document_0@[i].1,
                )
        },
        _ => false,
    }
}

/// The item type of a sequence or map type.
pub open spec fn item_type(ft: FieldType) -> FieldType {
    match ft {
        FieldType::Vec(f) => f.field_type,
        FieldType::Dictionary(f) => f.field_type,
        _ => ft,
    }
}

/// A value of the declared type, or null.
pub open spec fn conforms(ft: FieldType, v: Value) -> bool
    decreases v,
{
    match v {
        Value::Null => true,
        Value::Bool(_) => ft is Bool,
        Value::I32(_) => ft is I32,
        Value::I64(_) => ft is I64,
        Value::String(_) => ft is String || ft is Enum,
        Value::ObjectId(_) => ft is ObjectId,
        Value::Date(_) => ft is Date,
        Value::DateTime(_) => ft is DateTime,
        Value::Decimal(_) => ft is Decimal,
        Value::Object(_) => ft is Object,
        Value::Vec(vs) => ft is Vec && forall|i: int| 0 <= i < vs@.len() ==> conforms(item_type(ft), #[trigger] vs@[i]),
        Value::Dict(es) => ft is Dictionary && forall|i: int|
            0 <= i < es@.len() ==> conforms(item_type(ft), (#[trigger] es@[i]).1),
    }
}

/// Whether a stored value can be read as the declared type.
pub open spec fn decodable(ft: FieldType, b: BsonValue) -> bool
    decreases b,
{
    match b {
        BsonValue::Null => true,
        BsonValue::Boolean(_) => ft is Bool,
        BsonValue::Int32(_) => ft is I32 || ft is I64,
        BsonValue::Int64(_) => ft is I64,
        BsonValue::String(_) => ft is String || ft is Enum,
        BsonValue::ObjectId(_) => ft is ObjectId,
        BsonValue::DateTime(t) => ft is DateTime || (ft is Date && t % DAY_MS == 0 && i32::MIN <= t / DAY_MS
            <= i32::MAX),
        BsonValue::Array(bs) => ft is Vec && forall|i: int| 0 <= i < bs@.len() ==> decodable(item_type(ft), #[trigger] bs@[i]),
        BsonValue::Document(es) => ft is Dictionary && forall|i: int|
            0 <= i < es@.len() ==> decodable(item_type(ft), (#[trigger] es@[i]).1),
    }
}

/// `v` is what the stored value `b` reads as under the declared type.
pub open spec fn decodes(ft: FieldType, b: BsonValue, v: Value) -> bool
    decreases b,
{
    match b {
        BsonValue::Null => v is Null,
        BsonValue::Boolean(x) => v == Value::Bool(x),
        BsonValue::Int32(x) => if ft is I64 { v == Value::I64(x as i64) } else { v == Value::I32(x) },
        BsonValue::Int64(x) => v == Value::I64(x),
        BsonValue::String(s) => v is String && v->String_0@ == s@,
        BsonValue::ObjectId(o) => v == Value::ObjectId(o),
        BsonValue::DateTime(t) => if ft is Date { v == Value::Date((t / DAY_MS) as i32) } else { v == Value::DateTime(t) },
        BsonValue::Array(bs) => {
            &&& v is Vec
            &&& v->Vec_0@.len() == bs@.len()
            &&& forall|i: int| 0 <= i < bs@.len() ==> decodes(item_type(ft), #[trigger] bs@[i], v->Vec_0@[i])
        },
        BsonValue::Document(es) => {
            &&& v is Dict
            &&& v->Dict_0@.len() == es@.len()
            &&& forall|i: int|
                0 <= i < es@.len() ==> (#[trigger] es@[i]).0@ == v->Dict_0@[i].0@ && decodes(
                    item_type(ft),
                    es@[i].1,
                    v->Dict_0@[i].1,
                )
        },
    }
}

/// The stored form of a value. A decimal or an embedded object cannot be
/// stored, and says so.
pub fn encode(v: &Value) -> (r: Result<BsonValue, ActionError>)
    ensures
        r is Ok <==> encodable(*v),
        r is Ok ==> encodes(*v, r->Ok_0),
    decreases *v,
{
    match v {
        Value::Null => Ok(BsonValue::Null),
        Value::Bool(b) => Ok(BsonValue::Boolean(*b)),
        Value::I32(i) => Ok(BsonValue::Int32(*i)),
        Value::I64(i) => Ok(BsonValue::Int64(*i)),
        Value::String(s) => Ok(BsonValue::String(s.clone())),
        Value::ObjectId(o) => Ok(BsonValue::ObjectId(*o)),
        Value::Date(d) => Ok(BsonValue::DateTime(*d as i64 * DAY_MS)),
        Value::DateTime(t) => Ok(BsonValue::DateTime(*t)),
        Value::Decimal(_) => Err(ActionError::internal_server_error("Decimal is not supported by the document store.".to_string())),
        Value::Object(_) => Err(ActionError::internal_server_error("Embedded objects cannot be saved.".to_string())),
        Value::Vec(vs) => {
            let mut out: Vec<BsonValue> = Vec::new();
            let mut i: usize = 0;
            while i < vs.len()
                invariant
                    *v == Value::Vec(*vs),
                    0 <= i <= vs@.len(),
                    out@.len() == i,
                    forall|j: int| 0 <= j < i ==> encodable(#[trigger] vs@[j]) && encodes(vs@[j], out@[j]),
                decreases vs.len() - i,
            {
                proof {
                    assert(decreases_to!(*v => v->Vec_0));
                    assert(decreases_to!(*vs => vs@));
                    assert(decreases_to!(vs@ => vs@[i as int]));
                }
                match encode(&vs[i]) {
                    Ok(b) => out.push(b),
                    Err(e) => {
                        return Err(e);
                    },
                }
                i = i + 1;
            }
            Ok(BsonValue::Array(out))
        },
        Value::Dict(es) => {
            let mut out: Vec<(String, BsonValue)> = Vec::new();
            let mut i: usize = 0;
            while i < es.len()
                invariant
                    *v == Value::Dict(*es),
                    0 <= i <= es@.len(),
                    out@.len() == i,
                    forall|j: int|
                        0 <= j < i ==> encodable((#[trigger] es@[j]).1) && es@[j].0@ == out@[j].0@ && encodes(
                            es@[j].1,
                            out@[j].1,
                        ),
                decreases es.len() - i,
            {
                proof {
                    assert(decreases_to!(*v => v->Dict_0));
                    assert(decreases_to!(*es => es@));
                    assert(decreases_to!(es@ => es@[i as int]));
                    assert(decreases_to!(es@[i as int] => es@[i as int].1));
                }
                let e = &es[i];
                match encode(&e.1) {
                    Ok(b) => out.push((e.0.clone(), b)),
                    Err(err) => {
                        return Err(err);
                    },
                }
                i = i + 1;
            }
            Ok(BsonValue::Document(out))
        },
    }
}

fn type_mismatch() -> (r: ActionError)
    ensures
        r.error_type == crate::error::ActionErrorType::InternalServerError,
{
    ActionError::internal_server_error("Stored value does not match the field type.".to_string())
}

fn days_of(t: i64) -> (r: Option<i32>)
    ensures
        r is Some <==> (t % DAY_MS == 0 && i32::MIN <= t / DAY_MS <= i32::MAX),
        r is Some ==> r->Some_0 == t / DAY_MS,
{
    let q: i64;
    if t >= 0 {
        if t % DAY_MS != 0 {
            return None;
        }
        q = t / DAY_MS;
    } else {
        if t == i64::MIN {
            assert(t % DAY_MS != 0);
            return None;
        }
        let u: i64 = -t;
        let uq = u / DAY_MS;
        let ur = u % DAY_MS;
        assert(u == uq * DAY_MS + ur) by (nonlinear_arith)
            requires uq == u / DAY_MS, ur == u % DAY_MS, u > 0;
        if ur != 0 {
            assert(t % DAY_MS != 0) by (nonlinear_arith)
                requires t == -(uq * DAY_MS + ur), 0 < ur < DAY_MS;
            return None;
        }
        q = -uq;
        assert(t % DAY_MS == 0 && t / DAY_MS == q) by (nonlinear_arith)
            requires t == -(uq * DAY_MS), q == -uq;
    }
    if q < i32::MIN as i64 || q > i32::MAX as i64 {
        return None;
    }
    Some(q as i32)
}

/// Reads a stored value as the declared type.
pub fn decode(ft: &FieldType, b: &BsonValue) -> (r: Result<Value, ActionError>)
    ensures
        r is Ok <==> decodable(*ft, *b),
        r is Ok ==> decodes(*ft, *b, r->Ok_0),
    decreases *b,
{
    match b {
        BsonValue::Null => Ok(Value::Null),
        BsonValue::Boolean(x) => if matches!(ft, FieldType::Bool) { Ok(Value::Bool(*x)) } else { Err(type_mismatch()) },
        BsonValue::Int32(x) => match ft {
            FieldType::I32 => Ok(Value::I32(*x)),
            FieldType::I64 => Ok(Value::I64(*x as i64)),
            _ => Err(type_mismatch()),
        },
        BsonValue::Int64(x) => if matches!(ft, FieldType::I64) { Ok(Value::I64(*x)) } else { Err(type_mismatch()) },
        BsonValue::String(s) => if matches!(ft, FieldType::String) || matches!(ft, FieldType::Enum(_)) {
            Ok(Value::String(s.clone()))
        } else {
            Err(type_mismatch())
        },
        BsonValue::ObjectId(o) => if matches!(ft, FieldType::ObjectId) { Ok(Value::ObjectId(*o)) } else { Err(type_mismatch()) },
        BsonValue::DateTime(t) => match ft {
            FieldType::DateTime => Ok(Value::DateTime(*t)),
            FieldType::Date => match days_of(*t) {
                Some(d) => Ok(Value::Date(d)),
                None => Err(ActionError::internal_server_error("Stored date is not a whole day.".to_string())),
            },
            _ => Err(type_mismatch()),
        },
        BsonValue::Array(bs) => {
            let inner = match ft {
                FieldType::Vec(f) => &f.field_type,
                _ => {
                    return Err(type_mismatch());
                },
            };
            let mut out: Vec<Value> = Vec::new();
            let mut i: usize = 0;
            while i < bs.len()
                invariant
                    *b == BsonValue::Array(*bs),
                    *inner == item_type(*ft),
                    ft is Vec,
                    0 <= i <= bs@.len(),
                    out@.len() == i,
                    forall|j: int| 0 <= j < i ==> decodable(*inner, #[trigger] bs@[j]) && decodes(*inner, bs@[j], out@[j]),
                decreases bs.len() - i,
            {
                proof {
                    assert(decreases_to!(*b => b->Array_0));
                    assert(decreases_to!(*bs => bs@));
                    assert(decreases_to!(bs@ => bs@[i as int]));
                }
                match decode(inner, &bs[i]) {
                    Ok(v) => out.push(v),
                    Err(e) => {
                        return Err(e);
                    },
                }
                i = i + 1;
            }
            Ok(Value::Vec(out))
        },
        BsonValue::Document(es) => {
            let inner = match ft {
                FieldType::Dictionary(f) => &f.field_type,
                _ => {
                    return Err(type_mismatch());
                },
            };
            let mut out: Vec<(String, Value)> = Vec::new();
            let mut i: usize = 0;
            while i < es.len()
                invariant
                    *b == BsonValue::Document(*es),
                    *inner == item_type(*ft),
                    ft is Dictionary,
                    0 <= i <= es@.len(),
                    out@.len() == i,
                    forall|j: int|
                        0 <= j < i ==> decodable(*inner, (#[trigger] es@[j]).1) && es@[j].0@ == out@[j].0@
                            && decodes(*inner, es@[j].1, out@[j].1),
                decreases es.len() - i,
            {
                proof {
                    assert(decreases_to!(*b => b->Document_0));
                    assert(decreases_to!(*es => es@));
                    assert(decreases_to!(es@ => es@[i as int]));
                    assert(decreases_to!(es@[i as int] => es@[i as int].1));
                }
                let e = &es[i];
                match decode(inner, &e.1) {
                    Ok(v) => out.push((e.0.clone(), v)),
                    Err(err) => {
                        return Err(err);
                    },
                }
                i = i + 1;
            }
            Ok(Value::Dict(out))
        },
    }
}

/// Storing a value and reading the stored form back under the value's
/// declared type gives the same value; a value holding a decimal or an
/// embedded object cannot be stored at all.
pub proof fn lemma_round_trip(ft: FieldType, v: Value, b: BsonValue, w: Value)
    requires
        conforms(ft, v),
        encodes(v, b),
    ensures
        decodable(ft, b),
        decodes(ft, b, w) ==> same_value(v, w),
    decreases v,
{
    match v {
        Value::Date(d) => {
            let t = b->DateTime_0;
            assert(t % DAY_MS == 0 && t / DAY_MS == d) by (nonlinear_arith)
                requires t == d as int * DAY_MS;
        },
        Value::Vec(vs) => {
            let bs = b->Array_0;
            assert forall|i: int| 0 <= i < bs@.len() implies decodable(item_type(ft), #[trigger] bs@[i]) by {
                assert(decreases_to!(v => v->Vec_0));
                assert(decreases_to!(vs => vs@));
                assert(decreases_to!(vs@ => vs@[i]));
                lemma_round_trip(item_type(ft), vs@[i], bs@[i], vs@[i]);
            }
            if decodes(ft, b, w) {
                assert forall|i: int| 0 <= i < vs@.len() implies same_value(#[trigger] vs@[i], w->Vec_0@[i]) by {
                    assert(decreases_to!(v => v->Vec_0));
                    assert(decreases_to!(vs => vs@));
                    assert(decreases_to!(vs@ => vs@[i]));
                    lemma_round_trip(item_type(ft), vs@[i], bs@[i], w->Vec_0@[i]);
                }
            }
        },
        Value::Dict(es) => {
            let bes = b->Document_0;
            assert forall|i: int| 0 <= i < bes@.len() implies decodable(item_type(ft), (#[trigger] bes@[i]).1) by {
                assert(decreases_to!(v => v->Dict_0));
                assert(decreases_to!(es => es@));
                assert(decreases_to!(es@ => es@[i]));
                assert(decreases_to!(es@[i] => es@[i].1));
                lemma_round_trip(item_type(ft), es@[i].1, bes@[i].1, es@[i].1);
            }
            if decodes(ft, b, w) {
                assert forall|i: int| 0 <= i < es@.len() implies (#[trigger] es@[i]).0@ == w->Dict_0@[i].0@
                    && same_value(es@[i].1, w->Dict_0@[i].1) by {
                    assert(decreases_to!(v => v->Dict_0));
                    assert(decreases_to!(es => es@));
                    assert(decreases_to!(es@ => es@[i]));
                    assert(decreases_to!(es@[i] => es@[i].1));
                    lemma_round_trip(item_type(ft), es@[i].1, bes@[i].1, w->Dict_0@[i].1);
                }
            }
        },
        _ => {},
    }
}

} // verus!
