use vstd::prelude::*;

use crate::error::{ActionError, ActionErrorType};
use crate::outside::{parse_date, parsed_date_days};

verus! {

/// A 96-bit document identifier, held as its high four and low eight bytes.
#[derive(Debug, Clone, Copy, PartialEq, Eq, Structural)]
pub struct ObjectId {
    pub high: u32,
    pub low: u64,
}

/// A decimal number `mantissa * 10^-scale`.
#[derive(Debug, Clone, Copy, PartialEq, Eq, Structural)]
pub struct Decimal {
    pub mantissa: i128,
    pub scale: u32,
}

/// A reference to an in-memory object of the named model.
#[derive(Debug)]
pub struct ObjectRef {
    pub model: String,
}

/// The backend-agnostic value: scalars, dates, identifiers, ordered
/// sequences, maps that keep their keys in order, and object references.
///
/// A `Date` is a count of days since 1970-01-01; a `DateTime` is a count of
/// milliseconds since 1970-01-01T00:00:00Z.
#[derive(Debug)]
pub enum Value {
    Null,
    Bool(bool),
    I32(i32),
    I64(i64),
    String(String),
    ObjectId(ObjectId),
    Date(i32),
    DateTime(i64),
    Decimal(Decimal),
    Vec(Vec<Value>),
    Dict(Vec<(String, Value)>),
    Object(ObjectRef),
}

/// Two values are the same: same variant, same scalars, same characters,
/// and, inside sequences and maps, the same entries in the same order.
pub open spec fn same_value(a: Value, b: Value) -> bool
    decreases a,
{
    match (a, b) {
        (Value::String(x), Value::String(y)) => x@ == y@,
        (Value::Vec(xs), Value::Vec(ys)) => {
            &&& xs@.len() == ys@.len()
            &&& forall|i: int| 0 <= i < xs@.len() ==> same_value(#[trigger] xs@[i], ys@[i])
        },
        (Value::Dict(xs), Value::Dict(ys)) => {
            &&& xs@.len() == ys@.len()
            &&& forall|i: int|
                0 <= i < xs@.len() ==> (#[trigger] xs@[i]).0@ == ys@[i].0@ && same_value(
                    xs@[i].1,
                    ys@[i].1,
                )
        },
        (Value::Object(x), Value::Object(y)) => x.model@ == y.model@,
        (Value::Null, Value::Null) => true,
        (Value::Bool(x), Value::Bool(y)) => x == y,
        (Value::I32(x), Value::I32(y)) => x == y,
        (Value::I64(x), Value::I64(y)) => x == y,
        (Value::ObjectId(x), Value::ObjectId(y)) => x == y,
        (Value::Date(x), Value::Date(y)) => x == y,
        (Value::DateTime(x), Value::DateTime(y)) => x == y,
        (Value::Decimal(x), Value::Decimal(y)) => x == y,
        _ => false,
    }
}

/// The first entry of `entries` under `key`, if any.
pub open spec fn entry_index(entries: Seq<(String, Value)>, key: Seq<char>) -> Option<int>
    decreases entries.len(),
{
    if entries.len() == 0 {
        None
    } else if entries[0].0@ == key {
        Some(0)
    } else {
        match entry_index(entries.drop_first(), key) {
            Some(i) => Some(i + 1),
            None => None,
        }
    }
}

pub proof fn lemma_entry_index(entries: Seq<(String, Value)>, key: Seq<char>)
    ensures
        match entry_index(entries, key) {
            Some(i) => 0 <= i < entries.len() && entries[i].0@ == key && forall|j: int|
                0 <= j < i ==> entries[j].0@ != key,
            None => forall|j: int| 0 <= j < entries.len() ==> entries[j].0@ != key,
        },
    decreases entries.len(),
{
    if entries.len() > 0 {
        lemma_entry_index(entries.drop_first(), key);
        if entries[0].0@ != key {
            assert forall|j: int| 1 <= j < entries.len() implies entries[j] == entries.drop_first()[j
                - 1] by {}
        }
    }
}

/// What a map value holds under `key`: `None` where the value is no map or
/// holds no such key.
pub open spec fn spec_get(v: Value, key: Seq<char>) -> Option<Value> {
    match v {
        Value::Dict(entries) => match entry_index(entries@, key) {
            Some(i) => Some(entries@[i].1),
            None => None,
        },
        _ => None,
    }
}

/// The integer that a value holds, if it is an integer.
pub open spec fn int_of(v: Value) -> Option<int> {
    match v {
        Value::I32(i) => Some(i as int),
        Value::I64(i) => Some(i as int),
        _ => None,
    }
}

impl Value {
    /// The value under `key`, the first entry of that key, where this is a map.
    pub fn get(&self, key: &String) -> (r: Option<&Value>)
        ensures
            match spec_get(*self, key@) {
                Some(v) => r is Some && *r->Some_0 == v,
                None => r is None,
            },
    {
        match self {
            Value::Dict(entries) => {
                proof {
                    lemma_entry_index(entries@, key@);
                }
                let mut i: usize = 0;
                while i < entries.len()
                    invariant
                        *self == Value::Dict(*entries),
                        0 <= i <= entries@.len(),
                        forall|j: int| 0 <= j < i ==> entries@[j].0@ != key@,
                        match entry_index(entries@, key@) {
                            Some(k) => 0 <= k < entries@.len() && entries@[k].0@ == key@
                                && forall|j: int| 0 <= j < k ==> entries@[j].0@ != key@,
                            None => forall|j: int| 0 <= j < entries@.len() ==> entries@[j].0@ != key@,
                        },
                    decreases entries.len() - i,
                {
                    if entries[i].0 == *key {
                        assert(entry_index(entries@, key@) == Some(i as int));
                        let e = &entries[i];
                        let r = Some(&e.1);
                        return r;
                    }
                    i = i + 1;
                }
                None
            },
            _ => None,
        }
    }

    /// The integer this value holds, where it is one.
    pub fn as_int(&self) -> (r: Option<i64>)
        ensures
            match int_of(*self) {
                Some(i) => r == Some(i as i64),
                None => r is None,
            },
    {
        match self {
            Value::I32(i) => Some(*i as i64),
            Value::I64(i) => Some(*i),
            _ => None,
        }
    }

    /// A copy of this value.
    pub fn duplicate(&self) -> (r: Value)
        ensures
            same_value(*self, r),
        decreases *self,
    {
        match self {
            Value::Null => Value::Null,
            Value::Bool(b) => Value::Bool(*b),
            Value::I32(i) => Value::I32(*i),
            Value::I64(i) => Value::I64(*i),
            Value::String(s) => Value::String(s.clone()),
            Value::ObjectId(o) => Value::ObjectId(*o),
            Value::Date(d) => Value::Date(*d),
            Value::DateTime(d) => Value::DateTime(*d),
            Value::Decimal(d) => Value::Decimal(*d),
            Value::Object(o) => Value::Object(ObjectRef { model: o.model.clone() }),
            Value::Vec(vs) => {
                let mut out: Vec<Value> = Vec::new();
                let mut i: usize = 0;
                while i < vs.len()
                    invariant
                        *self == Value::Vec(*vs),
                        0 <= i <= vs@.len(),
                        out@.len() == i,
                        forall|j: int| 0 <= j < i ==> same_value(#[trigger] vs@[j], out@[j]),
                    decreases vs.len() - i,
                {
                    proof {
                        assert(decreases_to!(*self => self->Vec_0));
                        assert(decreases_to!(*vs => vs@));
                        assert(decreases_to!(vs@ => vs@[i as int]));
                        assert(decreases_to!(*self => vs@[i as int]));
                    }
                    out.push(vs[i].duplicate());
                    i = i + 1;
                }
                Value::Vec(out)
            },
            Value::Dict(es) => {
                let mut out: Vec<(String, Value)> = Vec::new();
                let mut i: usize = 0;
                while i < es.len()
                    invariant
                        *self == Value::Dict(*es),
                        0 <= i <= es@.len(),
                        out@.len() == i,
                        forall|j: int|
                            0 <= j < i ==> (#[trigger] es@[j]).0@ == out@[j].0@ && same_value(
                                es@[j].1,
                                out@[j].1,
                            ),
                    decreases es.len() - i,
                {
                    proof {
                        assert(decreases_to!(*self => self->Dict_0));
                        assert(decreases_to!(*es => es@));
                        assert(decreases_to!(es@ => es@[i as int]));
                        assert(decreases_to!(es@[i as int] => es@[i as int].1));
                        assert(decreases_to!(*self => es@[i as int].1));
                    }
                    let e = &es[i];
                    out.push((e.0.clone(), e.1.duplicate()));
                    i = i + 1;
                }
                Value::Dict(out)
            },
        }
    }
}

/// The date of a day count: a date where the count fits, else a date
/// format error.
pub fn date_from_days(days: Option<i64>) -> (r: Result<Value, ActionError>)
    ensures
        match days {
            Some(d) => if i32::MIN <= d <= i32::MAX {
                r == Ok::<Value, ActionError>(Value::Date(d as i32))
            } else {
                r is Err && r->Err_0.error_type == ActionErrorType::WrongDateFormat
            },
            None => r is Err && r->Err_0.error_type == ActionErrorType::WrongDateFormat,
        },
{
    match days {
        Some(d) if d >= i32::MIN as i64 && d <= i32::MAX as i64 => Ok(Value::Date(d as i32)),
        _ => Err(ActionError::wrong_date_format()),
    }
}

/// The date that a `YYYY-MM-DD` string writes.
pub fn date_constructor(s: &str) -> (r: Result<Value, ActionError>)
    ensures
        match parsed_date_days(s@, "%Y-%m-%d"@) {
            Some(d) => if i32::MIN <= d <= i32::MAX {
                r == Ok::<Value, ActionError>(Value::Date(d as i32))
            } else {
                r is Err && r->Err_0.error_type == ActionErrorType::WrongDateFormat
            },
            None => r is Err && r->Err_0.error_type == ActionErrorType::WrongDateFormat,
        },
{
    date_from_days(parse_date(s, "%Y-%m-%d"))
}

} // verus!
