use vstd::prelude::*;
use crate::codec::{decodable, decode, decodes, encodable, encode, encodes, BsonValue};
use crate::error::{names_one_key, ActionError, ActionErrorType};
use crate::outside::{first_capture, regex_first_group};
use crate::search::{first_index, lemma_first_index, str_eq};
use crate::value::{int_of, spec_get, Value};
use crate::aggregation::opt_value;
use crate::model::{spec_field, spec_field_with_column, spec_relation, spec_model, Graph, Model};
use crate::field::{column_of, Field};
use vstd::string::StrSliceExecFns;

verus! {

/// The code with which the document store reports a duplicate key.
pub const DUPLICATE_KEY: i32 = 11000;

/// A write error as the document store reports it: its code and message.
#[derive(Debug)]
pub struct WriteFailure {
    pub code: i32,
    pub message: String,
}

/// The pattern that finds the offending field in a duplicate-key message.
pub open spec fn dup_key_pattern() -> Seq<char> {
    "dup key: \\{ (.+?):"@
}

/// The error reports a duplicated unique value under `field`.
pub open spec fn duplicated_error(r: ActionError, field: Seq<char>) -> bool {
    &&& names_one_key(r, ActionErrorType::UniqueValueDuplicated, field)
    &&& r.message@ == "Input is not valid."@
    &&& r.errors->Some_0@[0].1@ == "Unique value duplicated."@
}

/// The error reports an unknown write failure.
pub open spec fn unknown_write_error(r: ActionError) -> bool {
    &&& r.error_type == ActionErrorType::UnknownDatabaseWriteError
    &&& r.message@ == "An unknown database write error occurred."@
    &&& r.errors is None
}

/// The domain error for a write error whose message yielded `field`: a
/// duplicated unique value naming the field, where the code is the
/// duplicate-key code and a field was found; else an unknown write error.
pub fn write_error_from_capture(code: i32, field: Option<String>) -> (r: ActionError)
    ensures
        code == DUPLICATE_KEY && field is Some ==> duplicated_error(r, field->Some_0@),
        !(code == DUPLICATE_KEY && field is Some) ==> unknown_write_error(r),
{
    match field {
        Some(f) if code == DUPLICATE_KEY => ActionError::unique_value_duplicated(f.as_str()),
        _ => ActionError::unknown_database_write_error(),
    }
}

/// The domain error for a failed write: a duplicate key becomes a
/// duplicated unique value naming the field that the message names; every
/// other failure, and one that is no write error, an unknown write error.
pub fn handle_write_error(failure: Option<&WriteFailure>) -> (r: ActionError)
    ensures
        match failure {
            Some(f) => if f.code == DUPLICATE_KEY && regex_first_group(dup_key_pattern(), f.message@) is Some {
                duplicated_error(r, regex_first_group(dup_key_pattern(), f.message@)->Some_0)
            } else {
                unknown_write_error(r)
            },
            None => unknown_write_error(r),
        },
{
    match failure {
        None => ActionError::unknown_database_write_error(),
        Some(f) => {
            if f.code != DUPLICATE_KEY {
                return ActionError::unknown_database_write_error();
            }
            let field = first_capture("dup key: \\{ (.+?):", f.message.as_str());
            write_error_from_capture(f.code, field)
        },
    }
}

/// The rows in the order they are returned to the caller: turned around
/// where the last rows were asked for, since the store then reads them in
/// descending order.
pub fn arrange_found<T>(rows: Vec<T>, reverse: bool) -> (r: Vec<T>)
    ensures
        reverse ==> r@ == rows@.reverse(),
        !reverse ==> r@ == rows@,
{
    if !reverse {
        return rows;
    }
    let mut rows = rows;
    let ghost orig = rows@;
    let mut r: Vec<T> = Vec::new();
    while rows.len() > 0
        invariant
            rows@ == orig.subrange(0, rows@.len() as int),
            r@ == orig.subrange(rows@.len() as int, orig.len() as int).reverse(),
            rows@.len() <= orig.len(),
        decreases rows.len(),
    {
        let x = rows.pop().unwrap();
        proof {
            assert(orig.subrange(rows@.len() as int, orig.len() as int) =~= seq![x] + orig.subrange(
                (rows@.len() + 1) as int,
                orig.len() as int,
            ));
        }
        r.push(x);
        assert(r@ =~= orig.subrange(rows@.len() as int, orig.len() as int).reverse());
    }
    assert(orig.subrange(0, orig.len() as int) =~= orig);
    r
}

/// The first row, or that no object was found.
pub fn first_found<T>(rows: Vec<T>) -> (r: Result<T, ActionError>)
    ensures
        rows@.len() == 0 ==> r is Err && r->Err_0.error_type == ActionErrorType::ObjectNotFound,
        rows@.len() > 0 ==> r == Ok::<T, ActionError>(rows@[0]),
{
    let mut rows = rows;
    if rows.len() == 0 {
        return Err(ActionError::object_not_found());
    }
    Ok(rows.swap_remove(0))
}

/// The value that a document holds under `key`.
pub open spec fn doc_get(doc: Seq<(String, BsonValue)>, key: Seq<char>) -> Option<BsonValue> {
    match crate::search::first_index(doc, |e: (String, BsonValue)| e.0@ == key) {
        Some(i) => Some(doc[i].1),
        None => None,
    }
}

pub fn doc_lookup<'a>(doc: &'a Vec<(String, BsonValue)>, key: &str) -> (r: Option<&'a BsonValue>)
    ensures
        match doc_get(doc@, key@) {
            Some(b) => r == Some(&b),
            None => r is None,
        },
{
    let ghost p = |e: (String, BsonValue)| e.0@ == key@;
    proof {
        crate::search::lemma_first_index(doc@, p);
    }
    let mut i: usize = 0;
    while i < doc.len()
        invariant
            0 <= i <= doc@.len(),
            p == (|e: (String, BsonValue)| e.0@ == key@),
            forall|j: int| 0 <= j < i ==> !p(#[trigger] doc@[j]),
            match crate::search::first_index(doc@, p) {
                Some(k) => 0 <= k < doc@.len() && p(doc@[k]) && forall|j: int| 0 <= j < k ==> !p(#[trigger] doc@[j]),
                None => forall|j: int| 0 <= j < doc@.len() ==> !p(#[trigger] doc@[j]),
            },
        decreases doc.len() - i,
    {
        if str_eq(doc[i].0.as_str(), key) {
            assert(crate::search::first_index(doc@, p) == Some(i as int));
            return Some(&doc[i].1);
        }
        i = i + 1;
    }
    None
}

/// The count that a counting pipeline returned: none when it returned no
/// row, else the `count` of its first row.
pub open spec fn count_of(rows: Seq<BsonValue>) -> Option<int> {
    if rows.len() == 0 {
        Some(0)
    } else if rows[0] is Document {
        match doc_get(rows[0]->Document_0@, "count"@) {
            Some(BsonValue::Int32(i)) => if i >= 0 { Some(i as int) } else { None },
            Some(BsonValue::Int64(i)) => if i >= 0 { Some(i as int) } else { None },
            _ => None,
        }
    } else {
        None
    }
}

pub fn decode_count(rows: &Vec<BsonValue>) -> (r: Result<u64, ActionError>)
    ensures
        match count_of(rows@) {
            Some(n) => r == Ok::<u64, ActionError>(n as u64),
            None => r is Err,
        },
{
    if rows.len() == 0 {
        return Ok(0);
    }
    let doc = match &rows[0] {
        BsonValue::Document(d) => d,
        _ => {
            return Err(ActionError::unknown_database_find_error());
        },
    };
    match doc_lookup(doc, "count") {
        Some(BsonValue::Int32(i)) if *i >= 0 => Ok(*i as u64),
        Some(BsonValue::Int64(i)) if *i >= 0 => Ok(*i as u64),
        _ => Err(ActionError::unknown_database_find_error()),
    }
}

/// What an aggregate reports for a metric of the group `group` over no
/// rows: zero for counts, null for every other metric.
pub open spec fn default_metric(group: Seq<char>) -> Value {
    if group == "_count"@ {
        Value::I64(0)
    } else {
        Value::Null
    }
}

/// The entries of a map value; none for any other value.
pub open spec fn entries_of(v: Value) -> Seq<(String, Value)> {
    if v is Dict {
        v->Dict_0@
    } else {
        Seq::empty()
    }
}

/// The result of an aggregate over no rows: every requested metric of every
/// requested group, with its default.
pub fn aggregate_defaults(finder: &Value) -> (r: Value)
    ensures
        r is Dict,
        r->Dict_0@.len() == entries_of(*finder).len(),
        forall|i: int|
            #![trigger r->Dict_0@[i]]
            0 <= i < entries_of(*finder).len() ==> {
                let g = entries_of(*finder)[i];
                let out = r->Dict_0@[i];
                &&& out.0@ == g.0@
                &&& out.1 is Dict
                &&& out.1->Dict_0@.len() == entries_of(g.1).len()
                &&& forall|j: int|
                    0 <= j < entries_of(g.1).len() ==> (#[trigger] out.1->Dict_0@[j]).0@ == entries_of(g.1)[j].0@
                        && out.1->Dict_0@[j].1 == default_metric(g.0@)
            },
{
    let mut out: Vec<(String, Value)> = Vec::new();
    let groups = match finder {
        Value::Dict(es) => es,
        _ => {
            return Value::Dict(out);
        },
    };
    let mut i: usize = 0;
    while i < groups.len()
        invariant
            *finder == Value::Dict(*groups),
            0 <= i <= groups@.len(),
            out@.len() == i,
            forall|k: int|
                #![trigger out@[k]]
                0 <= k < i ==> {
                    let g = groups@[k];
                    &&& out@[k].0@ == g.0@
                    &&& out@[k].1 is Dict
                    &&& out@[k].1->Dict_0@.len() == entries_of(g.1).len()
                    &&& forall|j: int|
                        0 <= j < entries_of(g.1).len() ==> (#[trigger] out@[k].1->Dict_0@[j]).0@ == entries_of(
                            g.1,
                        )[j].0@ && out@[k].1->Dict_0@[j].1 == default_metric(g.0@)
                },
        decreases groups.len() - i,
    {
        let g = &groups[i];
        let is_count = str_eq(g.0.as_str(), "_count");
        let mut metrics: Vec<(String, Value)> = Vec::new();
        match &g.1 {
            Value::Dict(ms) => {
                let mut j: usize = 0;
                while j < ms.len()
                    invariant
                        g.1 == Value::Dict(*ms),
                        is_count == (g.0@ == "_count"@),
                        0 <= j <= ms@.len(),
                        metrics@.len() == j,
                        forall|k: int|
                            0 <= k < j ==> (#[trigger] metrics@[k]).0@ == ms@[k].0@ && metrics@[k].1 == default_metric(g.0@),
                    decreases ms.len() - j,
                {
                    let v = if is_count { Value::I64(0) } else { Value::Null };
                    metrics.push((ms[j].0.clone(), v));
                    j = j + 1;
                }
            },
            _ => {},
        }
        out.push((g.0.clone(), Value::Dict(metrics)));
        i = i + 1;
    }
    Value::Dict(out)
}

/// The value of an aggregate metric as the store returns it; none for a
/// form that is not read.
pub open spec fn metric_value(b: BsonValue) -> Option<Value> {
    match b {
        BsonValue::Int32(i) => Some(Value::I32(i)),
        BsonValue::Int64(i) => Some(Value::I64(i)),
        BsonValue::Null => Some(Value::Null),
        _ => None,
    }
}

fn read_metric(b: &BsonValue) -> (r: Option<Value>)
    ensures
        r == metric_value(*b),
{
    match b {
        BsonValue::Int32(i) => Some(Value::I32(*i)),
        BsonValue::Int64(i) => Some(Value::I64(*i)),
        BsonValue::Null => Some(Value::Null),
        _ => None,
    }
}

fn starts_with_underscore(s: &String) -> (r: bool)
    ensures
        r == (s@.len() > 0 && s@[0] == '_'),
{
    let t = s.as_str();
    t.unicode_len() > 0 && t.get_char(0) == '_'
}

/// The metrics of a metric group, in order, leaving out the forms that are
/// not read.
pub open spec fn metrics_of(ms: Seq<(String, BsonValue)>) -> Seq<(Seq<char>, Value)>
    decreases ms.len(),
{
    if ms.len() == 0 {
        Seq::empty()
    } else {
        metrics_of(ms.drop_last()) + match metric_value(ms.last().1) {
            Some(v) => seq![(ms.last().0@, v)],
            None => Seq::empty(),
        }
    }
}

pub open spec fn entry_views(es: Seq<(String, Value)>) -> Seq<(Seq<char>, Value)> {
    es.map_values(|e: (String, Value)| (e.0@, e.1))
}

/// A key of a result row other than `_id` gives `out`: a metric group
/// (its key begins with `_`) gives the map of its metrics; a grouped field
/// gives the field's value read as its type.
#[verifier::opaque]
pub open spec fn row_entry(m: Model, e: (String, BsonValue), out: (String, Value)) -> bool {
    &&& out.0@ == e.0@
    &&& if e.0@.len() > 0 && e.0@[0] == '_' {
        &&& e.1 is Document
        &&& out.1 is Dict
        &&& entry_views(out.1->Dict_0@) == metrics_of(e.1->Document_0@)
    } else {
        &&& spec_field(m, e.0@) is Some
        &&& decodes(spec_field(m, e.0@)->Some_0.field_type, e.1, out.1)
    }
}

fn read_metrics(ms: &Vec<(String, BsonValue)>) -> (r: Vec<(String, Value)>)
    ensures
        entry_views(r@) == metrics_of(ms@),
{
    let mut out: Vec<(String, Value)> = Vec::new();
    let mut j: usize = 0;
    while j < ms.len()
        invariant
            0 <= j <= ms@.len(),
            entry_views(out@) == metrics_of(ms@.subrange(0, j as int)),
        decreases ms.len() - j,
    {
        let ghost before = out@;
        match read_metric(&ms[j].1) {
            Some(v) => out.push((ms[j].0.clone(), v)),
            None => {},
        }
        proof {
            let t = ms@.subrange(0, j + 1);
            assert(t.drop_last() =~= ms@.subrange(0, j as int));
            assert(entry_views(out@) =~= entry_views(before) + match metric_value(t.last().1) {
                Some(v) => seq![(t.last().0@, v)],
                None => Seq::empty(),
            });
        }
        j = j + 1;
    }
    assert(ms@.subrange(0, ms@.len() as int) =~= ms@);
    out
}

/// One entry of a stored row can be read: `_id` is skipped, a metric group
/// holds a document, a grouped field names a field of the model and its
/// value reads as the field's type.
#[verifier::opaque]
pub open spec fn row_entry_ok(m: Model, e: (String, BsonValue)) -> bool {
    e.0@ != "_id"@ ==> if e.0@.len() > 0 && e.0@[0] == '_' {
        e.1 is Document
    } else {
        spec_field(m, e.0@) is Some && decodable(spec_field(m, e.0@)->Some_0.field_type, e.1)
    }
}

/// A stored row can be read: it is a document whose entries can be read.
pub open spec fn row_decodable(m: Model, row: BsonValue) -> bool {
    &&& row is Document
    &&& forall|i: int| 0 <= i < row->Document_0@.len() ==> row_entry_ok(m, #[trigger] row->Document_0@[i])
}

/// The decoded row `v` holds one entry for each entry of the stored row
/// other than `_id`, and nothing else.
pub open spec fn row_decoded(m: Model, row: BsonValue, v: Value) -> bool {
    &&& row is Document
    &&& v is Dict
    &&& forall|i: int| 0 <= i < v->Dict_0@.len() ==> from_row(m, row->Document_0@, #[trigger] v->Dict_0@[i])
    &&& forall|k: int|
        0 <= k < row->Document_0@.len() && (#[trigger] row->Document_0@[k]).0@ != "_id"@ ==> read_into(
            m,
            row->Document_0@[k],
            v->Dict_0@,
        )
}

/// The decoded entry comes from an entry of the stored row other than `_id`.
pub open spec fn from_row(m: Model, doc: Seq<(String, BsonValue)>, out: (String, Value)) -> bool {
    out.0@ != "_id"@ && exists|k: int| 0 <= k < doc.len() && row_entry(m, #[trigger] doc[k], out)
}

/// The stored entry is read into one of the decoded entries.
pub open spec fn read_into(m: Model, e: (String, BsonValue), outs: Seq<(String, Value)>) -> bool {
    exists|i: int| 0 <= i < outs.len() && row_entry(m, e, #[trigger] outs[i])
}

fn decode_row_entry(model: &Model, e: &(String, BsonValue)) -> (r: Result<(String, Value), ActionError>)
    requires
        e.0@ != "_id"@,
    ensures
        r is Ok <==> row_entry_ok(*model, *e),
        r is Ok ==> row_entry(*model, *e, r->Ok_0) && r->Ok_0.0@ == e.0@,
{
    reveal(row_entry);
    reveal(row_entry_ok);
    if starts_with_underscore(&e.0) {
        match &e.1 {
            BsonValue::Document(ms) => Ok((e.0.clone(), Value::Dict(read_metrics(ms)))),
            _ => Err(ActionError::unknown_database_find_error()),
        }
    } else {
        let field = match model.field(e.0.as_str()) {
            Some(f) => f,
            None => {
                return Err(ActionError::unknown_database_find_error());
            },
        };
        match decode(&field.field_type, &e.1) {
            Ok(v) => Ok((e.0.clone(), v)),
            Err(err) => Err(err),
        }
    }
}

/// One row of an aggregate or group-by result: the key `_id` is left out,
/// a key that begins with `_` holds a map of computed metrics, and every
/// other key is a grouped field, read as that field's type.
pub fn decode_aggregate_row(model: &Model, row: &BsonValue) -> (r: Result<Value, ActionError>)
    ensures
        r is Ok <==> row_decodable(*model, *row),
        r is Ok ==> row_decoded(*model, *row, r->Ok_0),
{
    let doc = match row {
        BsonValue::Document(d) => d,
        _ => {
            return Err(ActionError::unknown_database_find_error());
        },
    };
    let mut out: Vec<(String, Value)> = Vec::new();
    let mut i: usize = 0;
    while i < doc.len()
        invariant
            *row == BsonValue::Document(*doc),
            0 <= i <= doc@.len(),
            forall|k: int| 0 <= k < out@.len() ==> from_row(*model, doc@, #[trigger] out@[k]),
            forall|j: int| 0 <= j < i ==> row_entry_ok(*model, #[trigger] doc@[j]),
            forall|j: int| 0 <= j < i && (#[trigger] doc@[j]).0@ != "_id"@ ==> read_into(*model, doc@[j], out@),
        decreases doc.len() - i,
    {
        let e = &doc[i];
        assert(doc@[i as int] == *e);
        if str_eq(e.0.as_str(), "_id") {
            proof {
                reveal(row_entry_ok);
            }
            i = i + 1;
            continue;
        }
        let ghost before = out@;
        match decode_row_entry(model, e) {
            Ok(x) => out.push(x),
            Err(err) => {
                assert(row->Document_0@[i as int] == doc@[i as int]);
                return Err(err);
            },
        }
        proof {
            let last = out@.len() - 1;
            assert(row_entry(*model, doc@[i as int], out@[last]));
            assert(from_row(*model, doc@, out@[last]));
            assert forall|k: int| 0 <= k < out@.len() implies from_row(*model, doc@, #[trigger] out@[k]) by {
                if k < before.len() {
                    assert(out@[k] == before[k]);
                }
            }
            assert(read_into(*model, doc@[i as int], out@));
            assert forall|j: int| 0 <= j < i && (#[trigger] doc@[j]).0@ != "_id"@ implies read_into(*model, doc@[j], out@) by {
                let k = choose|k: int| 0 <= k < before.len() && row_entry(*model, doc@[j], #[trigger] before[k]);
                assert(out@[k] == before[k]);
            }
        }
        i = i + 1;
    }
    assert(row->Document_0@ == doc@);
    Ok(Value::Dict(out))
}

/// The result of an aggregate: its one row, or the defaults where no row
/// matched.
pub fn aggregate_result(model: &Model, rows: &Vec<BsonValue>, finder: &Value) -> (r: Result<Value, ActionError>)
    ensures
        rows@.len() == 0 ==> r is Ok && r->Ok_0 is Dict && r->Ok_0->Dict_0@.len() == entries_of(*finder).len(),
        rows@.len() == 0 ==> forall|i: int|
            #![trigger r->Ok_0->Dict_0@[i]]
            0 <= i < entries_of(*finder).len() ==> {
                let g = entries_of(*finder)[i];
                let out = r->Ok_0->Dict_0@[i];
                &&& out.0@ == g.0@
                &&& out.1 is Dict
                &&& out.1->Dict_0@.len() == entries_of(g.1).len()
                &&& forall|j: int|
                    0 <= j < entries_of(g.1).len() ==> (#[trigger] out.1->Dict_0@[j]).0@ == entries_of(g.1)[j].0@
                        && out.1->Dict_0@[j].1 == default_metric(g.0@)
            },
        rows@.len() > 0 ==> (r is Ok <==> row_decodable(*model, rows@[0])),
        rows@.len() > 0 && r is Ok ==> row_decoded(*model, rows@[0], r->Ok_0),
{
    if rows.len() == 0 {
        Ok(aggregate_defaults(finder))
    } else {
        decode_aggregate_row(model, &rows[0])
    }
}

/// The result of a group-by: one decoded row per group, and an empty
/// sequence where no row matched.
pub fn group_by_result(model: &Model, rows: &Vec<BsonValue>) -> (r: Result<Value, ActionError>)
    ensures
        r is Ok <==> forall|i: int| 0 <= i < rows@.len() ==> row_decodable(*model, #[trigger] rows@[i]),
        r is Ok ==> r->Ok_0 is Vec && r->Ok_0->Vec_0@.len() == rows@.len(),
        r is Ok ==> forall|i: int| 0 <= i < rows@.len() ==> row_decoded(*model, #[trigger] rows@[i], r->Ok_0->Vec_0@[i]),
{
    let mut out: Vec<Value> = Vec::new();
    let mut i: usize = 0;
    while i < rows.len()
        invariant
            0 <= i <= rows@.len(),
            out@.len() == i,
            forall|a: int| 0 <= a < i ==> row_decoded(*model, #[trigger] rows@[a], out@[a]),
            forall|a: int| 0 <= a < i ==> row_decodable(*model, #[trigger] rows@[a]),
        decreases rows.len() - i,
    {
        match decode_aggregate_row(model, &rows[i]) {
            Ok(v) => {
                let ghost before = out@;
                out.push(v);
                assert forall|a: int| 0 <= a < i implies out@[a] == before[a] by {}
            },
            Err(e) => {
                return Err(e);
            },
        }
        i = i + 1;
    }
    Ok(Value::Vec(out))
}

/// An update operator that is applied to the stored value itself.
#[derive(Debug, Clone, Copy, PartialEq, Eq, Structural)]
pub enum AtomicOp {
    Increment,
    Decrement,
    Multiply,
    Divide,
    Push,
}

/// How a field is updated: set to a value, or changed in place.
#[derive(Debug)]
pub enum FieldUpdate {
    Assign(Value),
    Atomic(AtomicOp, Value),
}

/// An update of one stored document, by operator.
#[derive(Debug)]
pub struct UpdatePlan {
    pub set: Vec<(String, BsonValue)>,
    pub unset: Vec<String>,
    pub inc: Vec<(String, BsonValue)>,
    pub mul: Vec<(String, BsonValue)>,
    pub push: Vec<(String, BsonValue)>,
}

impl UpdatePlan {
    pub open spec fn spec_returns_new(&self) -> bool {
        self.inc@.len() > 0 || self.mul@.len() > 0 || self.push@.len() > 0
    }

    /// Whether the update changes a value in place, so that the stored
    /// result must be read back.
    pub fn returns_new(&self) -> (r: bool)
        ensures
            r == self.spec_returns_new(),
    {
        self.inc.len() > 0 || self.mul.len() > 0 || self.push.len() > 0
    }

    pub fn is_empty(&self) -> (r: bool)
        ensures
            r == (self.set@.len() == 0 && self.unset@.len() == 0 && !self.spec_returns_new()),
    {
        self.set.len() == 0 && self.unset.len() == 0 && !self.returns_new()
    }
}

/// The value with its sign turned, for integers whose negation fits.
pub open spec fn negated(v: Value) -> Option<Value> {
    match v {
        Value::I32(x) => if x > i32::MIN { Some(Value::I32((-x) as i32)) } else { None },
        Value::I64(x) => if x > i64::MIN { Some(Value::I64((-x) as i64)) } else { None },
        _ => None,
    }
}

/// An update can be carried out: its value can be stored, a decrement is
/// an increment by the negated integer, and a division, which would multiply
/// by a fractional reciprocal, is not carried out.
pub open spec fn update_ok(u: FieldUpdate) -> bool {
    match u {
        FieldUpdate::Assign(v) => encodable(v),
        FieldUpdate::Atomic(AtomicOp::Decrement, v) => negated(v) is Some,
        FieldUpdate::Atomic(AtomicOp::Divide, _) => false,
        FieldUpdate::Atomic(_, v) => encodable(v),
    }
}

pub open spec fn has_entry(list: Seq<(String, BsonValue)>, column: Seq<char>, v: Value) -> bool {
    exists|j: int| 0 <= j < list.len() && (#[trigger] list[j]).0@ == column && encodes(v, list[j].1)
}

/// Where an update lands in the plan: a null is unset, a value set, an
/// increment or decrement goes to the increments (a decrement negated), a
/// multiplication to the multiplications, an append to the pushes.
pub open spec fn lands(p: UpdatePlan, column: Seq<char>, u: FieldUpdate) -> bool {
    match u {
        FieldUpdate::Assign(Value::Null) => exists|j: int| 0 <= j < p.unset@.len() && (#[trigger] p.unset@[j])@ == column,
        FieldUpdate::Assign(v) => has_entry(p.set@, column, v),
        FieldUpdate::Atomic(AtomicOp::Increment, v) => has_entry(p.inc@, column, v),
        FieldUpdate::Atomic(AtomicOp::Decrement, v) => has_entry(p.inc@, column, negated(v)->Some_0),
        FieldUpdate::Atomic(AtomicOp::Multiply, v) => has_entry(p.mul@, column, v),
        FieldUpdate::Atomic(AtomicOp::Push, v) => has_entry(p.push@, column, v),
        FieldUpdate::Atomic(AtomicOp::Divide, _) => false,
    }
}

fn negate(v: &Value) -> (r: Option<Value>)
    ensures
        r == negated(*v),
{
    match v {
        Value::I32(x) => if *x > i32::MIN { Some(Value::I32(-*x)) } else { None },
        Value::I64(x) => if *x > i64::MIN { Some(Value::I64(-*x)) } else { None },
        _ => None,
    }
}

proof fn lemma_entry_kept(old: Seq<(String, BsonValue)>, x: (String, BsonValue), column: Seq<char>, v: Value)
    requires
        has_entry(old, column, v),
    ensures
        has_entry(old.push(x), column, v),
{
    let j = choose|j: int| 0 <= j < old.len() && (#[trigger] old[j]).0@ == column && encodes(v, old[j].1);
    assert(old.push(x)[j] == old[j]);
}

proof fn lemma_lands_kept(p: UpdatePlan, q: UpdatePlan, column: Seq<char>, u: FieldUpdate)
    requires
        lands(p, column, u),
        p.set@.len() <= q.set@.len() && forall|j: int| 0 <= j < p.set@.len() ==> q.set@[j] == p.set@[j],
        p.unset@.len() <= q.unset@.len() && forall|j: int| 0 <= j < p.unset@.len() ==> q.unset@[j] == p.unset@[j],
        p.inc@.len() <= q.inc@.len() && forall|j: int| 0 <= j < p.inc@.len() ==> q.inc@[j] == p.inc@[j],
        p.mul@.len() <= q.mul@.len() && forall|j: int| 0 <= j < p.mul@.len() ==> q.mul@[j] == p.mul@[j],
        p.push@.len() <= q.push@.len() && forall|j: int| 0 <= j < p.push@.len() ==> q.push@[j] == p.push@[j],
    ensures
        lands(q, column, u),
{
    match u {
        FieldUpdate::Assign(Value::Null) => {
            let j = choose|j: int| 0 <= j < p.unset@.len() && (#[trigger] p.unset@[j])@ == column;
            assert(q.unset@[j] == p.unset@[j]);
        },
        FieldUpdate::Assign(v) => {
            let j = choose|j: int| 0 <= j < p.set@.len() && (#[trigger] p.set@[j]).0@ == column && encodes(v, p.set@[j].1);
            assert(q.set@[j] == p.set@[j]);
        },
        FieldUpdate::Atomic(AtomicOp::Increment, v) => {
            let j = choose|j: int| 0 <= j < p.inc@.len() && (#[trigger] p.inc@[j]).0@ == column && encodes(v, p.inc@[j].1);
            assert(q.inc@[j] == p.inc@[j]);
        },
        FieldUpdate::Atomic(AtomicOp::Decrement, v) => {
            let n = negated(v)->Some_0;
            let j = choose|j: int| 0 <= j < p.inc@.len() && (#[trigger] p.inc@[j]).0@ == column && encodes(n, p.inc@[j].1);
            assert(q.inc@[j] == p.inc@[j]);
        },
        FieldUpdate::Atomic(AtomicOp::Multiply, v) => {
            let j = choose|j: int| 0 <= j < p.mul@.len() && (#[trigger] p.mul@[j]).0@ == column && encodes(v, p.mul@[j].1);
            assert(q.mul@[j] == p.mul@[j]);
        },
        FieldUpdate::Atomic(AtomicOp::Push, v) => {
            let j = choose|j: int| 0 <= j < p.push@.len() && (#[trigger] p.push@[j]).0@ == column && encodes(v, p.push@[j].1);
            assert(q.push@[j] == p.push@[j]);
        },
        FieldUpdate::Atomic(AtomicOp::Divide, _) => {},
    }
}

/// Sorts the updates of one document by operator. Any update that changes
/// a value in place makes the plan one whose result is read back.
pub fn build_update(model: &Model, updates: &Vec<(String, FieldUpdate)>) -> (r: Result<UpdatePlan, ActionError>)
    ensures
        r is Ok <==> forall|i: int|
            0 <= i < updates@.len() ==> spec_field(*model, (#[trigger] updates@[i]).0@) is Some && update_ok(updates@[i].1),
        r is Ok ==> (r->Ok_0.spec_returns_new() <==> exists|i: int|
            0 <= i < updates@.len() && (#[trigger] updates@[i]).1 is Atomic),
        r is Ok ==> forall|i: int|
            0 <= i < updates@.len() ==> lands(
                r->Ok_0,
                column_of(spec_field(*model, (#[trigger] updates@[i]).0@)->Some_0),
                updates@[i].1,
            ),
{
    let mut p = UpdatePlan { set: Vec::new(), unset: Vec::new(), inc: Vec::new(), mul: Vec::new(), push: Vec::new() };
    let mut i: usize = 0;
    while i < updates.len()
        invariant
            0 <= i <= updates@.len(),
            forall|k: int|
                0 <= k < i ==> spec_field(*model, (#[trigger] updates@[k]).0@) is Some && update_ok(updates@[k].1),
            forall|k: int|
                0 <= k < i ==> lands(p, column_of(spec_field(*model, (#[trigger] updates@[k]).0@)->Some_0), updates@[k].1),
            p.spec_returns_new() <==> exists|k: int| 0 <= k < i && (#[trigger] updates@[k]).1 is Atomic,
        decreases updates.len() - i,
    {
        let ghost before = p;
        let field = match model.field(updates[i].0.as_str()) {
            Some(f) => f,
            None => {
                return Err(ActionError::invalid_input("update", "The update names an unknown field.".to_string()));
            },
        };
        proof {
            let q = |f: Field| f.name@ == updates@[i as int].0@;
            crate::search::lemma_first_index(model.fields@, q);
        }
        let column = &field.column_name().to_string();
        assert(column@ == column_of(spec_field(*model, updates@[i as int].0@)->Some_0));
        match &updates[i].1 {
            FieldUpdate::Assign(v) => {
                if matches!(v, Value::Null) {
                    p.unset.push(column.clone());
                    assert(p.unset@[p.unset@.len() - 1]@ == column@);
                } else {
                    match encode(v) {
                        Ok(b) => {
                            p.set.push((column.clone(), b));
                            assert(p.set@[p.set@.len() - 1].0@ == column@);
                        },
                        Err(e) => {
                            return Err(e);
                        },
                    }
                }
            },
            FieldUpdate::Atomic(op, v) => {
                let encoded = match op {
                    AtomicOp::Decrement => match negate(v) {
                        Some(n) => encode(&n),
                        None => {
                            return Err(ActionError::invalid_input("decrement", "Only integers can be decremented.".to_string()));
                        },
                    },
                    AtomicOp::Divide => {
                        return Err(ActionError::invalid_input("divide", "Division by a stored factor is not supported.".to_string()));
                    },
                    _ => encode(v),
                };
                let b = match encoded {
                    Ok(b) => b,
                    Err(e) => {
                        return Err(e);
                    },
                };
                match op {
                    AtomicOp::Multiply => {
                        p.mul.push((column.clone(), b));
                        assert(p.mul@[p.mul@.len() - 1].0@ == column@);
                    },
                    AtomicOp::Push => {
                        p.push.push((column.clone(), b));
                        assert(p.push@[p.push@.len() - 1].0@ == column@);
                    },
                    _ => {
                        p.inc.push((column.clone(), b));
                        assert(p.inc@[p.inc@.len() - 1].0@ == column@);
                    },
                }
            },
        }
        proof {
            assert forall|k: int|
                0 <= k < i implies lands(p, column_of(spec_field(*model, (#[trigger] updates@[k]).0@)->Some_0), updates@[k].1) by {
                lemma_lands_kept(before, p, column_of(spec_field(*model, updates@[k].0@)->Some_0), updates@[k].1);
            }
            assert(update_ok(updates@[i as int].1));
            assert(lands(p, column_of(spec_field(*model, updates@[i as int].0@)->Some_0), updates@[i as int].1));
            if updates@[i as int].1 is Atomic {
                assert(p.spec_returns_new());
            }
        }
        i = i + 1;
    }
    Ok(p)
}

/// `e` is the field called `name` with the value that the document holds
/// in the field's column.
pub open spec fn read_back_entry(m: Model, doc: Seq<(String, BsonValue)>, name: Seq<char>, e: (String, Value)) -> bool {
    let f = spec_field(m, name)->Some_0;
    &&& spec_field(m, name) is Some
    &&& e.0@ == name
    &&& doc_get(doc, column_of(f)) is Some
    &&& decodes(f.field_type, doc_get(doc, column_of(f))->Some_0, e.1)
}

/// The field called `name` exists, its column is in the document, and the
/// value there reads as the field's type.
pub open spec fn read_back_ok(m: Model, doc: Seq<(String, BsonValue)>, name: Seq<char>) -> bool {
    let f = spec_field(m, name)->Some_0;
    &&& spec_field(m, name) is Some
    &&& doc_get(doc, column_of(f)) is Some
    &&& decodable(f.field_type, doc_get(doc, column_of(f))->Some_0)
}

/// The new values of the fields that an in-place update changed, read from
/// the document that the store returned after the update.
pub fn read_back(model: &Model, fields: &Vec<String>, returned: &BsonValue) -> (r: Result<Vec<(String, Value)>, ActionError>)
    ensures
        r is Ok <==> returned is Document && forall|i: int|
            0 <= i < fields@.len() ==> read_back_ok(*model, returned->Document_0@, #[trigger] fields@[i]@),
        r is Ok ==> returned is Document && r->Ok_0@.len() == fields@.len() && forall|i: int|
            0 <= i < fields@.len() ==> read_back_entry(*model, returned->Document_0@, fields@[i]@, #[trigger] r->Ok_0@[i]),
{
    let doc = match returned {
        BsonValue::Document(d) => d,
        _ => {
            return Err(ActionError::unknown_database_write_error());
        },
    };
    let mut out: Vec<(String, Value)> = Vec::new();
    let mut i: usize = 0;
    while i < fields.len()
        invariant
            *returned == BsonValue::Document(*doc),
            0 <= i <= fields@.len(),
            out@.len() == i,
            forall|k: int| 0 <= k < i ==> read_back_entry(*model, doc@, fields@[k]@, #[trigger] out@[k]),
            forall|k: int| 0 <= k < i ==> read_back_ok(*model, doc@, #[trigger] fields@[k]@),
        decreases fields.len() - i,
    {
        proof {
            let p = |f: Field| f.name@ == fields@[i as int]@;
            crate::search::lemma_first_index(model.fields@, p);
        }
        let field = match model.field(fields[i].as_str()) {
            Some(f) => f,
            None => {
                assert(!read_back_ok(*model, returned->Document_0@, fields@[i as int]@));
                return Err(ActionError::unknown_database_write_error());
            },
        };
        assert(spec_field(*model, fields@[i as int]@) == Some(*field));
        let stored = match doc_lookup(doc, field.column_name()) {
            Some(b) => b,
            None => {
                assert(!read_back_ok(*model, returned->Document_0@, fields@[i as int]@));
                return Err(ActionError::unknown_database_write_error());
            },
        };
        match decode(&field.field_type, stored) {
            Ok(v) => {
                let ghost before = out@;
                out.push((fields[i].clone(), v));
                assert(spec_field(*model, fields@[i as int]@) == Some(*field));
                assert(doc_get(doc@, column_of(*field)) == Some(*stored));
                assert(read_back_entry(*model, doc@, fields@[i as int]@, out@[i as int]));
                assert forall|k: int| 0 <= k < i implies out@[k] == before[k] by {}
            },
            Err(e) => {
                assert(!read_back_ok(*model, returned->Document_0@, fields@[i as int]@));
                return Err(e);
            },
        }
        i = i + 1;
    }
    Ok(out)
}

/// The stored entry `e` comes from the value `v` of a field of the model.
pub open spec fn value_gives(m: Model, v: (String, Value), e: (String, BsonValue)) -> bool {
    &&& spec_field(m, v.0@) is Some
    &&& !(v.1 is Null)
    &&& column_of(spec_field(m, v.0@)->Some_0) == e.0@
    &&& encodes(v.1, e.1)
}

/// The document holds an entry that the value `v` gives.
pub open spec fn stored_in(m: Model, v: (String, Value), doc: Seq<(String, BsonValue)>) -> bool {
    exists|j: int| 0 <= j < doc.len() && value_gives(m, v, #[trigger] doc[j])
}

pub open spec fn from_values(m: Model, values: Seq<(String, Value)>, e: (String, BsonValue)) -> bool {
    exists|i: int| 0 <= i < values.len() && value_gives(m, #[trigger] values[i], e)
}

/// The document that creates an object: each value of a field of the model
/// under the field's column, where the value is not null.
pub fn insert_document(model: &Model, values: &Vec<(String, Value)>) -> (r: Result<Vec<(String, BsonValue)>, ActionError>)
    ensures
        r is Ok <==> forall|i: int|
            0 <= i < values@.len() && spec_field(*model, (#[trigger] values@[i]).0@) is Some ==> encodable(values@[i].1),
        r is Ok ==> forall|j: int| 0 <= j < r->Ok_0@.len() ==> from_values(*model, values@, #[trigger] r->Ok_0@[j]),
        r is Ok ==> forall|i: int|
            0 <= i < values@.len() && spec_field(*model, (#[trigger] values@[i]).0@) is Some && !(values@[i].1 is Null)
                ==> stored_in(*model, values@[i], r->Ok_0@),
{
    let mut doc: Vec<(String, BsonValue)> = Vec::new();
    let mut i: usize = 0;
    while i < values.len()
        invariant
            0 <= i <= values@.len(),
            forall|k: int|
                0 <= k < i && spec_field(*model, (#[trigger] values@[k]).0@) is Some ==> encodable(values@[k].1),
            forall|j: int| 0 <= j < doc@.len() ==> from_values(*model, values@, #[trigger] doc@[j]),
            forall|k: int|
                0 <= k < i && spec_field(*model, (#[trigger] values@[k]).0@) is Some && !(values@[k].1 is Null)
                    ==> stored_in(*model, values@[k], doc@),
        decreases values.len() - i,
    {
        let e = &values[i];
        match model.field(e.0.as_str()) {
            Some(field) => {
                if !matches!(e.1, Value::Null) {
                    match encode(&e.1) {
                        Ok(b) => {
                            let ghost before = doc@;
                            doc.push((field.column_name().to_string(), b));
                            proof {
                                let p = |f: Field| f.name@ == e.0@;
                                crate::search::lemma_first_index(model.fields@, p);
                                assert(value_gives(*model, values@[i as int], doc@[doc@.len() - 1]));
                            }
                            assert forall|j: int| 0 <= j < doc@.len() implies from_values(*model, values@, #[trigger] doc@[j]) by {
                                if j < before.len() {
                                    assert(doc@[j] == before[j]);
                                }
                            }
                            assert(stored_in(*model, values@[i as int], doc@));
                            assert forall|k: int|
                                0 <= k < i && spec_field(*model, (#[trigger] values@[k]).0@) is Some && !(values@[k].1 is Null)
                                    implies stored_in(*model, values@[k], doc@) by {
                                let j = choose|j: int| 0 <= j < before.len() && value_gives(*model, values@[k], #[trigger] before[j]);
                                assert(doc@[j] == before[j]);
                            }
                        },
                        Err(err) => {
                            return Err(err);
                        },
                    }
                }
            },
            None => {},
        }
        i = i + 1;
    }
    Ok(doc)
}

/// The identifier that the store assigned on insert, for each field that
/// the database assigns and that is stored as the document key.
pub fn backfill_ids(model: &Model, inserted: &BsonValue) -> (r: Vec<(String, Value)>)
    ensures
        !(inserted is ObjectId) ==> r@.len() == 0,
        forall|j: int|
            0 <= j < r@.len() ==> (#[trigger] r@[j]).1 == Value::ObjectId(inserted->ObjectId_0) && exists|k: int|
                0 <= k < model.fields@.len() && (#[trigger] model.fields@[k]).auto && column_of(model.fields@[k])
                    == "_id"@ && model.fields@[k].name@ == r@[j].0@,
        inserted is ObjectId ==> forall|k: int|
            0 <= k < model.fields@.len() && (#[trigger] model.fields@[k]).auto && column_of(model.fields@[k]) == "_id"@
                ==> backfilled(r@, model.fields@[k].name@),
{
    let mut out: Vec<(String, Value)> = Vec::new();
    let id = match inserted {
        BsonValue::ObjectId(o) => *o,
        _ => {
            return out;
        },
    };
    let mut k: usize = 0;
    while k < model.fields.len()
        invariant
            0 <= k <= model.fields@.len(),
            *inserted == BsonValue::ObjectId(id),
            forall|j: int|
                0 <= j < out@.len() ==> (#[trigger] out@[j]).1 == Value::ObjectId(id) && exists|m: int|
                    0 <= m < model.fields@.len() && (#[trigger] model.fields@[m]).auto && column_of(model.fields@[m])
                        == "_id"@ && model.fields@[m].name@ == out@[j].0@,
            forall|m: int|
                0 <= m < k && (#[trigger] model.fields@[m]).auto && column_of(model.fields@[m]) == "_id"@
                    ==> backfilled(out@, model.fields@[m].name@),
        decreases model.fields.len() - k,
    {
        let f = &model.fields[k];
        assert(model.fields@[k as int] == *f);
        if f.auto && str_eq(f.column_name(), "_id") {
            let ghost before = out@;
            out.push((f.name.clone(), Value::ObjectId(id)));
            assert(out@[out@.len() - 1].0@ == f.name@);
            assert forall|m: int|
                0 <= m < k + 1 && (#[trigger] model.fields@[m]).auto && column_of(model.fields@[m]) == "_id"@
                    implies backfilled(out@, model.fields@[m].name@) by {
                if m < k {
                    let j = choose|j: int| 0 <= j < before.len() && (#[trigger] before[j]).0@ == model.fields@[m].name@;
                    assert(out@[j] == before[j]);
                }
            }
            assert forall|j: int| 0 <= j < out@.len() implies (#[trigger] out@[j]).1 == Value::ObjectId(id)
                && exists|m: int|
                0 <= m < model.fields@.len() && (#[trigger] model.fields@[m]).auto && column_of(model.fields@[m])
                    == "_id"@ && model.fields@[m].name@ == out@[j].0@ by {
                if j < before.len() {
                    assert(out@[j] == before[j]);
                } else {
                    assert(model.fields@[k as int] == *f);
                }
            }
        }
        k = k + 1;
    }
    out
}

/// Some entry carries the name.
pub open spec fn backfilled(r: Seq<(String, Value)>, name: Seq<char>) -> bool {
    exists|j: int| 0 <= j < r.len() && (#[trigger] r[j]).0@ == name
}

/// The value under `name`, its first entry.
pub open spec fn value_of(values: Seq<(String, Value)>, name: Seq<char>) -> Option<Value> {
    match first_index(values, |e: (String, Value)| e.0@ == name) {
        Some(i) => Some(values[i].1),
        None => None,
    }
}

fn find_value<'a>(values: &'a Vec<(String, Value)>, name: &String) -> (r: Option<&'a Value>)
    ensures
        match value_of(values@, name@) {
            Some(v) => r is Some && *r->Some_0 == v,
            None => r is None,
        },
{
    let ghost p = |e: (String, Value)| e.0@ == name@;
    proof {
        lemma_first_index(values@, p);
    }
    let mut i: usize = 0;
    while i < values.len()
        invariant
            0 <= i <= values@.len(),
            p == (|e: (String, Value)| e.0@ == name@),
            forall|j: int| 0 <= j < i ==> !p(#[trigger] values@[j]),
            match first_index(values@, p) {
                Some(k) => 0 <= k < values@.len() && p(values@[k]) && forall|j: int| 0 <= j < k ==> !p(#[trigger] values@[j]),
                None => forall|j: int| 0 <= j < values@.len() ==> !p(#[trigger] values@[j]),
            },
        decreases values.len() - i,
    {
        if values[i].0 == *name {
            assert(first_index(values@, p) == Some(i as int));
            return Some(&values[i].1);
        }
        i = i + 1;
    }
    None
}

/// Every primary field has a value that can be stored.
pub open spec fn identity_ok(m: Model, values: Seq<(String, Value)>) -> bool {
    forall|k: int|
        0 <= k < m.fields@.len() && (#[trigger] m.fields@[k]).primary ==> value_of(values, m.fields@[k].name@) is Some
            && encodable(value_of(values, m.fields@[k].name@)->Some_0)
}

/// The filter holds the primary field's value under its column.
pub open spec fn filters_on(f: Field, values: Seq<(String, Value)>, filter: Seq<(String, BsonValue)>) -> bool {
    exists|j: int|
        0 <= j < filter.len() && (#[trigger] filter[j]).0@ == column_of(f) && encodes(value_of(values, f.name@)->Some_0, filter[j].1)
}

/// A primary field of the model is stored in the column.
pub open spec fn primary_column(m: Model, column: Seq<char>) -> bool {
    exists|k: int| 0 <= k < m.fields@.len() && (#[trigger] m.fields@[k]).primary && column_of(m.fields@[k]) == column
}

/// The filter that identifies a stored object for deletion: an object that
/// was never saved cannot be deleted; else each primary field's value under
/// its column.
pub fn delete_filter(is_new: bool, model: &Model, values: &Vec<(String, Value)>) -> (r: Result<Vec<(String, BsonValue)>, ActionError>)
    ensures
        is_new ==> r is Err && r->Err_0.error_type == ActionErrorType::ObjectNotSaved,
        r is Ok <==> !is_new && identity_ok(*model, values@),
        r is Ok ==> forall|j: int| 0 <= j < r->Ok_0@.len() ==> primary_column(*model, (#[trigger] r->Ok_0@[j]).0@),
        r is Ok ==> forall|k: int|
            0 <= k < model.fields@.len() && (#[trigger] model.fields@[k]).primary ==> filters_on(model.fields@[k], values@, r->Ok_0@),
{
    if is_new {
        return Err(ActionError::object_is_not_saved());
    }
    let mut filter: Vec<(String, BsonValue)> = Vec::new();
    let mut k: usize = 0;
    while k < model.fields.len()
        invariant
            0 <= k <= model.fields@.len(),
            !is_new,
            forall|j: int| 0 <= j < filter@.len() ==> primary_column(*model, (#[trigger] filter@[j]).0@),
            forall|m: int|
                0 <= m < k && (#[trigger] model.fields@[m]).primary ==> value_of(values@, model.fields@[m].name@) is Some
                    && encodable(value_of(values@, model.fields@[m].name@)->Some_0) && filters_on(model.fields@[m], values@, filter@),
        decreases model.fields.len() - k,
    {
        let f = &model.fields[k];
        assert(model.fields@[k as int] == *f);
        if f.primary {
            let v = match find_value(values, &f.name) {
                Some(v) => v,
                None => {
                    assert(!identity_ok(*model, values@));
                    return Err(ActionError::object_is_not_saved());
                },
            };
            let b = match encode(v) {
                Ok(b) => b,
                Err(e) => {
                    assert(!identity_ok(*model, values@));
                    return Err(e);
                },
            };
            let ghost before = filter@;
            filter.push((f.column_name().to_string(), b));
            assert(*v == value_of(values@, f.name@)->Some_0);
            assert(filter@[filter@.len() - 1].0@ == column_of(*f));
            assert(encodes(value_of(values@, f.name@)->Some_0, filter@[filter@.len() - 1].1));
            assert(filters_on(*f, values@, filter@));
            assert forall|j: int| 0 <= j < filter@.len() implies primary_column(*model, (#[trigger] filter@[j]).0@) by {
                if j < before.len() {
                    assert(filter@[j] == before[j]);
                }
            }
            assert forall|m: int| 0 <= m < k && (#[trigger] model.fields@[m]).primary implies filters_on(model.fields@[m], values@, filter@) by {
                let j = choose|j: int|
                    0 <= j < before.len() && (#[trigger] before[j]).0@ == column_of(model.fields@[m]) && encodes(
                        value_of(values@, model.fields@[m].name@)->Some_0,
                        before[j].1,
                    );
                assert(filter@[j] == before[j]);
            }
        }
        k = k + 1;
    }
    Ok(filter)
}

/// An object read from the store: its field values, the objects of each
/// included relation, and whether it is new and initialised.
#[derive(Debug)]
pub struct Object {
    pub model: String,
    pub values: Vec<(String, Value)>,
    pub relations: Vec<(String, Vec<Object>)>,
    pub is_new: bool,
    pub is_initialized: bool,
    pub select: Vec<String>,
}

/// The value entry `e` is read from an entry of the document whose key is
/// the column of the field named in `e`.
pub open spec fn decoded_from(m: Model, doc: Seq<(String, BsonValue)>, e: (String, Value)) -> bool {
    exists|i: int|
        0 <= i < doc.len() && spec_field_with_column(m, (#[trigger] doc[i]).0@) is Some && spec_field_with_column(
            m,
            doc[i].0@,
        )->Some_0.name@ == e.0@ && decodes(spec_field_with_column(m, doc[i].0@)->Some_0.field_type, doc[i].1, e.1)
}

/// The values hold the value read from the document entry `e`, under the
/// name of the field whose column is the entry's key.
pub open spec fn gives_value(m: Model, e: (String, BsonValue), values: Seq<(String, Value)>) -> bool {
    let f = spec_field_with_column(m, e.0@)->Some_0;
    exists|k: int| 0 <= k < values.len() && (#[trigger] values[k]).0@ == f.name@ && decodes(f.field_type, e.1, values[k].1)
}

/// What a finder part holds under `key`.
pub open spec fn nested_key(v: Option<Value>, key: Seq<char>) -> Option<Value> {
    match v {
        Some(x) => spec_get(x, key),
        None => None,
    }
}

/// The names that a select map turns on, in order.
pub open spec fn selected_names(es: Seq<(String, Value)>) -> Seq<Seq<char>>
    decreases es.len(),
{
    if es.len() == 0 {
        Seq::empty()
    } else {
        selected_names(es.drop_last()) + if es.last().1 == Value::Bool(true) {
            seq![es.last().0@]
        } else {
            Seq::empty()
        }
    }
}

/// The select mask of a finder part: the names it turns on.
pub open spec fn select_mask(sel: Option<Value>) -> Seq<Seq<char>> {
    match sel {
        Some(v) => selected_names(entries_of(v)),
        None => Seq::empty(),
    }
}

fn select_names(sel: Option<&Value>) -> (r: Vec<String>)
    ensures
        r@.map_values(|s: String| s@) == select_mask(opt_value(sel)),
{
    let mut r: Vec<String> = Vec::new();
    let es = match sel {
        Some(Value::Dict(es)) => es,
        _ => {
            assert(r@.map_values(|s: String| s@) =~= select_mask(opt_value(sel)));
            return r;
        },
    };
    let mut i: usize = 0;
    while i < es.len()
        invariant
            opt_value(sel) == Some(Value::Dict(*es)),
            0 <= i <= es@.len(),
            r@.map_values(|s: String| s@) == selected_names(es@.subrange(0, i as int)),
        decreases es.len() - i,
    {
        let ghost before = r@;
        if matches!(es[i].1, Value::Bool(true)) {
            r.push(es[i].0.clone());
        }
        proof {
            let t = es@.subrange(0, i + 1);
            assert(t.drop_last() =~= es@.subrange(0, i as int));
            assert(r@.map_values(|s: String| s@) =~= before.map_values(|s: String| s@) + if t.last().1 == Value::Bool(true) {
                seq![t.last().0@]
            } else {
                Seq::empty()
            });
        }
        i = i + 1;
    }
    assert(es@.subrange(0, es@.len() as int) =~= es@);
    r
}

/// One entry of a stored document can be read: an entry keyed by a
/// field's column reads as the field's type; an entry named by a relation
/// (and no column) is an array of documents that can be read as objects of
/// the related model, which exists.
pub open spec fn entry_ok(g: Graph, m: Model, e: (String, BsonValue)) -> bool
    decreases e, 1int,
{
    if spec_field_with_column(m, e.0@) is Some {
        decodable(spec_field_with_column(m, e.0@)->Some_0.field_type, e.1)
    } else if spec_relation(m, e.0@) is Some {
        &&& spec_model(g, spec_relation(m, e.0@)->Some_0.model@) is Some
        &&& e.1 is Array
        &&& forall|j: int|
            #![trigger e.1->Array_0@[j]]
            0 <= j < e.1->Array_0@.len() ==> e.1->Array_0@[j] is Document && object_ok(
                g,
                spec_model(g, spec_relation(m, e.0@)->Some_0.model@)->Some_0,
                e.1->Array_0@[j]->Document_0@,
            )
    } else {
        true
    }
}

/// A stored document can be read as an object of the model: each of its
/// entries can be read.
pub open spec fn object_ok(g: Graph, m: Model, doc: Seq<(String, BsonValue)>) -> bool
    decreases doc, 2int,
{
    forall|i: int| 0 <= i < doc.len() ==> entry_ok(g, m, #[trigger] doc[i])
}

/// `o` is the object read from the stored document: its model, saved and
/// initialised, the select mask of `sel`, a value for every field entry and
/// no other, and for every relation entry the related objects, one for each
/// stored document in order, each read the same way with the nested
/// select and include of `inc`.
pub open spec fn object_of(
    g: Graph,
    m: Model,
    doc: Seq<(String, BsonValue)>,
    sel: Option<Value>,
    inc: Option<Value>,
    o: Object,
) -> bool
    decreases doc, 2int,
{
    &&& o.model@ == m.name@
    &&& !o.is_new
    &&& o.is_initialized
    &&& o.select@.map_values(|s: String| s@) == select_mask(sel)
    &&& forall|k: int| 0 <= k < o.values@.len() ==> decoded_from(m, doc, #[trigger] o.values@[k])
    &&& forall|i: int|
        0 <= i < doc.len() && spec_field_with_column(m, (#[trigger] doc[i]).0@) is Some ==> gives_value(m, doc[i], o.values@)
    &&& o.relations@.len() == relation_entries(m, doc).len()
    &&& forall|k: int|
        0 <= k < o.relations@.len() ==> related_from(g, m, doc, inc, relation_entries(m, doc)[k], #[trigger] o.relations@[k])
}

/// An entry is named by a relation of the model and by no column.
pub open spec fn is_relation_entry(m: Model, e: (String, BsonValue)) -> bool {
    spec_field_with_column(m, e.0@) is None && spec_relation(m, e.0@) is Some
}

/// The positions of the relation entries of a document, in order.
pub open spec fn relation_entries(m: Model, doc: Seq<(String, BsonValue)>) -> Seq<int>
    decreases doc.len(),
{
    if doc.len() == 0 {
        Seq::empty()
    } else {
        relation_entries(m, doc.drop_last()) + if is_relation_entry(m, doc.last()) {
            seq![doc.len() - 1]
        } else {
            Seq::empty()
        }
    }
}


fn nested_get<'a>(v: Option<&'a Value>, key: &str) -> (r: Option<&'a Value>)
    ensures
        opt_value(r) == nested_key(opt_value(v), key@),
{
    match v {
        Some(x) => {
            let k = key.to_string();
            let r = x.get(&k);
            r
        },
        None => None,
    }
}

/// Reads each stored document of an included relation as an object of the
/// related model, in order.
#[verifier::rlimit(40)]
pub fn read_related(
    graph: &Graph,
    target: &Model,
    items: &Vec<BsonValue>,
    select: Option<&Value>,
    includes: Option<&Value>,
) -> (r: Result<Vec<Object>, ActionError>)
    ensures
        r is Ok <==> forall|j: int|
            0 <= j < items@.len() ==> (#[trigger] items@[j]) is Document && object_ok(*graph, *target, items@[j]->Document_0@),
        r is Ok ==> r->Ok_0@.len() == items@.len() && forall|j: int|
            #![trigger r->Ok_0@[j]]
            0 <= j < items@.len() ==> object_of(
                *graph,
                *target,
                items@[j]->Document_0@,
                opt_value(select),
                opt_value(includes),
                r->Ok_0@[j],
            ),
    decreases items@,
{
    let mut related: Vec<Object> = Vec::new();
    let mut j: usize = 0;
    while j < items.len()
        invariant
            0 <= j <= items@.len(),
            related@.len() == j,
            forall|a: int| 0 <= a < j ==> (#[trigger] items@[a]) is Document && object_ok(*graph, *target, items@[a]->Document_0@),
            forall|a: int|
                #![trigger related@[a]]
                0 <= a < j ==> object_of(
                    *graph,
                    *target,
                    items@[a]->Document_0@,
                    opt_value(select),
                    opt_value(includes),
                    related@[a],
                ),
        decreases items.len() - j,
    {
        let nested = match &items[j] {
            BsonValue::Document(nd) => nd,
            _ => {
                return Err(ActionError::unknown_database_find_error());
            },
        };
        proof {
            assert(decreases_to!(items@ => items@[j as int]));
            assert(decreases_to!(items@[j as int] => items@[j as int]->Document_0));
            assert(decreases_to!(*nested => nested@));
        }
        let ghost before = related@;
        match document_to_object(graph, target, nested, select, includes) {
            Ok(o) => related.push(o),
            Err(err) => {
                return Err(err);
            },
        }
        assert forall|a: int| 0 <= a < j implies related@[a] == before[a] by {}
        j = j + 1;
    }
    Ok(related)
}

/// The related objects `rel` are read from an entry of the document named
/// by a relation of the model: one object for each stored document, in
/// order, with the nested select and include of `inc`.
pub open spec fn related_from(
    g: Graph,
    m: Model,
    doc: Seq<(String, BsonValue)>,
    inc: Option<Value>,
    a: int,
    rel: (String, Vec<Object>),
) -> bool
    decreases doc, 0int,
{
    &&& 0 <= a < doc.len()
    &&& doc[a].0@ == rel.0@
    &&& spec_field_with_column(m, doc[a].0@) is None
    &&& spec_relation(m, doc[a].0@) is Some
    &&& doc[a].1 is Array
    &&& rel.1@.len() == doc[a].1->Array_0@.len()
    &&& forall|j: int|
        #![trigger rel.1@[j]]
        0 <= j < doc[a].1->Array_0@.len() ==> doc[a].1->Array_0@[j] is Document && object_of(
            g,
            spec_model(g, spec_relation(m, doc[a].0@)->Some_0.model@)->Some_0,
            doc[a].1->Array_0@[j]->Document_0@,
            nested_key(nested_key(inc, doc[a].0@), "select"@),
            nested_key(nested_key(inc, doc[a].0@), "include"@),
            rel.1@[j],
        )
}

/// Reads a stored document into an object of the model: a key that is a
/// field's column gives that field's value, read as its type; a key that
/// names a relation gives the related objects, read the same way with the
/// select and include that `includes` holds for it; other keys are left out.
/// The object is marked as saved and initialised and takes the select mask.
#[verifier::rlimit(40)]
pub fn document_to_object(
    graph: &Graph,
    model: &Model,
    doc: &Vec<(String, BsonValue)>,
    select: Option<&Value>,
    includes: Option<&Value>,
) -> (r: Result<Object, ActionError>)
    ensures
        r is Ok <==> object_ok(*graph, *model, doc@),
        r is Ok ==> object_of(*graph, *model, doc@, opt_value(select), opt_value(includes), r->Ok_0),
    decreases doc@,
{
    let mut values: Vec<(String, Value)> = Vec::new();
    let mut relations: Vec<(String, Vec<Object>)> = Vec::new();
    let ghost g = *graph;
    let ghost m = *model;
    let ghost d = doc@;
    let ghost inc = opt_value(includes);
    let mut i: usize = 0;
    while i < doc.len()
        invariant
            g == *graph && m == *model && d == doc@ && inc == opt_value(includes),
            0 <= i <= doc@.len(),
            forall|a: int| 0 <= a < i ==> entry_ok(g, m, #[trigger] d[a]),
            forall|k: int| 0 <= k < values@.len() ==> decoded_from(m, d, #[trigger] values@[k]),
            forall|a: int|
                0 <= a < i && spec_field_with_column(m, (#[trigger] d[a]).0@) is Some ==> gives_value(m, d[a], values@),
            relations@.len() == relation_entries(m, d.subrange(0, i as int)).len(),
            forall|k: int|
                0 <= k < relations@.len() ==> related_from(
                    g,
                    m,
                    d,
                    inc,
                    relation_entries(m, d.subrange(0, i as int))[k],
                    #[trigger] relations@[k],
                ),
        decreases doc.len() - i,
    {
        let e = &doc[i];
        assert(d[i as int] == *e);
        let ghost values_before = values@;
        let ghost relations_before = relations@;
        let ghost entries_before = relation_entries(m, d.subrange(0, i as int));
        proof {
            assert(d.subrange(0, i + 1).drop_last() =~= d.subrange(0, i as int));
            assert(d.subrange(0, i + 1).last() == d[i as int]);
        }
        match model.field_with_column_name(e.0.as_str()) {
            Some(field) => {
                let v = match decode(&field.field_type, &e.1) {
                    Ok(v) => v,
                    Err(err) => {
                        assert(!entry_ok(g, m, d[i as int]));
                        return Err(err);
                    },
                };
                values.push((field.name.clone(), v));
                proof {
                    assert(relation_entries(m, d.subrange(0, i + 1)) =~= entries_before);
                    assert(entry_ok(g, m, d[i as int]));
                    assert(decoded_from(m, d, values@[values@.len() - 1]));
                    assert forall|k: int| 0 <= k < values@.len() implies decoded_from(m, d, #[trigger] values@[k]) by {
                        if k < values_before.len() {
                            assert(values@[k] == values_before[k]);
                        }
                    }
                    assert(gives_value(m, d[i as int], values@));
                    assert forall|a: int|
                        0 <= a < i + 1 && spec_field_with_column(m, (#[trigger] d[a]).0@) is Some implies gives_value(
                            m,
                            d[a],
                            values@,
                        ) by {
                        if a < i {
                            let k = choose|k: int|
                                0 <= k < values_before.len() && (#[trigger] values_before[k]).0@ == spec_field_with_column(
                                    m,
                                    d[a].0@,
                                )->Some_0.name@ && decodes(
                                    spec_field_with_column(m, d[a].0@)->Some_0.field_type,
                                    d[a].1,
                                    values_before[k].1,
                                );
                            assert(values@[k] == values_before[k]);
                        }
                    }
                }
            },
            None => {
                let relation = match model.relation(e.0.as_str()) {
                    Some(rel) => rel,
                    None => {
                        assert(entry_ok(g, m, d[i as int]));
                        assert(relation_entries(m, d.subrange(0, i + 1)) =~= entries_before);
                        i = i + 1;
                        continue;
                    },
                };
                let target = match graph.model(relation.model.as_str()) {
                    Some(t) => t,
                    None => {
                        assert(!entry_ok(g, m, d[i as int]));
                        return Err(ActionError::unknown_database_find_error());
                    },
                };
                proof {
                    crate::search::lemma_first_index(g.models@, |x: Model| x.name@ == relation.model@);
                    assert(spec_model(g, relation.model@) == Some(*target));
                }
                let items = match &e.1 {
                    BsonValue::Array(items) => items,
                    _ => {
                        assert(!entry_ok(g, m, d[i as int]));
                        return Err(ActionError::unknown_database_find_error());
                    },
                };
                let inner = nested_get(includes, e.0.as_str());
                let inner_select = nested_get(inner, "select");
                let inner_include = nested_get(inner, "include");
                proof {
                    assert(decreases_to!(d => d[i as int]));
                    assert(decreases_to!(d[i as int] => d[i as int].1));
                    assert(decreases_to!(d[i as int].1 => d[i as int].1->Array_0));
                    assert(decreases_to!(*items => items@));
                }
                let related = match read_related(graph, target, items, inner_select, inner_include) {
                    Ok(r) => r,
                    Err(err) => {
                        assert(!entry_ok(g, m, d[i as int]));
                        return Err(err);
                    },
                };
                relations.push((e.0.clone(), related));
                proof {
                    assert(entry_ok(g, m, d[i as int]));
                    let last = relations@.len() - 1;
                    assert(related_from(g, m, d, inc, i as int, relations@[last]));
                    assert(relation_entries(m, d.subrange(0, i + 1)) =~= entries_before.push(i as int));
                    assert forall|k: int| 0 <= k < relations@.len() implies related_from(
                        g,
                        m,
                        d,
                        inc,
                        relation_entries(m, d.subrange(0, i + 1))[k],
                        #[trigger] relations@[k],
                    ) by {
                        if k < relations_before.len() {
                            assert(relations@[k] == relations_before[k]);
                            assert(relation_entries(m, d.subrange(0, i + 1))[k] == entries_before[k]);
                        } else {
                            assert(k == last);
                        }
                    }
                }
            },
        }
        i = i + 1;
    }
    assert(d.subrange(0, d.len() as int) =~= d);
    let sel = select_names(select);
    Ok(Object { model: model.name.clone(), values, relations, is_new: false, is_initialized: true, select: sel })
}

/// Some update of the field `name` changes its stored value in place.
pub open spec fn updated_in_place(updates: Seq<(String, FieldUpdate)>, name: Seq<char>) -> bool {
    exists|k: int| 0 <= k < updates.len() && (#[trigger] updates[k]).1 is Atomic && updates[k].0@ == name
}

pub open spec fn listed(names: Seq<String>, name: Seq<char>) -> bool {
    exists|j: int| 0 <= j < names.len() && (#[trigger] names[j])@ == name
}

/// The fields, in order, whose update changes the stored value in place.
pub fn atomic_fields(updates: &Vec<(String, FieldUpdate)>) -> (r: Vec<String>)
    ensures
        r@.len() <= updates@.len(),
        forall|j: int| 0 <= j < r@.len() ==> updated_in_place(updates@, (#[trigger] r@[j])@),
        forall|i: int| 0 <= i < updates@.len() && (#[trigger] updates@[i]).1 is Atomic ==> listed(r@, updates@[i].0@),
{
    let mut r: Vec<String> = Vec::new();
    let mut i: usize = 0;
    while i < updates.len()
        invariant
            0 <= i <= updates@.len(),
            r@.len() <= i,
            forall|j: int| 0 <= j < r@.len() ==> updated_in_place(updates@, (#[trigger] r@[j])@),
            forall|k: int| 0 <= k < i && (#[trigger] updates@[k]).1 is Atomic ==> listed(r@, updates@[k].0@),
        decreases updates.len() - i,
    {
        if matches!(updates[i].1, FieldUpdate::Atomic(_, _)) {
            let ghost before = r@;
            r.push(updates[i].0.clone());
            assert(r@[r@.len() - 1]@ == updates@[i as int].0@);
            assert(updated_in_place(updates@, updates@[i as int].0@));
            assert forall|j: int| 0 <= j < r@.len() implies updated_in_place(updates@, (#[trigger] r@[j])@) by {
                if j < before.len() {
                    assert(r@[j] == before[j]);
                }
            }
            assert forall|k: int| 0 <= k < i + 1 && (#[trigger] updates@[k]).1 is Atomic implies listed(r@, updates@[k].0@) by {
                if k < i {
                    let j = choose|j: int| 0 <= j < before.len() && (#[trigger] before[j])@ == updates@[k].0@;
                    assert(r@[j] == before[j]);
                } else {
                    assert(r@[r@.len() - 1]@ == updates@[k].0@);
                }
            }
        }
        i = i + 1;
    }
    r
}

/// The stored entries of computed properties, which are kept under their
/// own names: a value that is not null is set, a null is unset.
pub struct PropertyWrites {
    pub set: Vec<(String, BsonValue)>,
    pub unset: Vec<String>,
}

/// The property value is set under its name.
pub open spec fn property_set(set: Seq<(String, BsonValue)>, p: (String, Value)) -> bool {
    exists|j: int| 0 <= j < set.len() && (#[trigger] set[j]).0@ == p.0@ && encodes(p.1, set[j].1)
}

/// The property name is unset.
pub open spec fn property_unset(unset: Seq<String>, p: (String, Value)) -> bool {
    exists|j: int| 0 <= j < unset.len() && (#[trigger] unset[j])@ == p.0@
}

/// What saving computed properties writes: each non-null value set under
/// the property's name, each null unset; an error where a value cannot be
/// stored.
pub fn property_entries(properties: &Vec<(String, Value)>) -> (r: Result<PropertyWrites, ActionError>)
    ensures
        r is Ok <==> forall|i: int| 0 <= i < properties@.len() ==> encodable((#[trigger] properties@[i]).1),
        r is Ok ==> r->Ok_0.set@.len() + r->Ok_0.unset@.len() == properties@.len(),
        r is Ok ==> forall|i: int|
            0 <= i < properties@.len() ==> if (#[trigger] properties@[i]).1 is Null {
                property_unset(r->Ok_0.unset@, properties@[i])
            } else {
                property_set(r->Ok_0.set@, properties@[i])
            },
{
    let mut w = PropertyWrites { set: Vec::new(), unset: Vec::new() };
    let mut i: usize = 0;
    while i < properties.len()
        invariant
            0 <= i <= properties@.len(),
            w.set@.len() + w.unset@.len() == i,
            forall|k: int| 0 <= k < i ==> encodable((#[trigger] properties@[k]).1),
            forall|k: int|
                0 <= k < i ==> if (#[trigger] properties@[k]).1 is Null {
                    property_unset(w.unset@, properties@[k])
                } else {
                    property_set(w.set@, properties@[k])
                },
        decreases properties.len() - i,
    {
        let p = &properties[i];
        assert(properties@[i as int] == *p);
        let ghost set_before = w.set@;
        let ghost unset_before = w.unset@;
        if matches!(p.1, Value::Null) {
            w.unset.push(p.0.clone());
            assert(w.unset@[w.unset@.len() - 1]@ == p.0@);
        } else {
            match encode(&p.1) {
                Ok(b) => {
                    w.set.push((p.0.clone(), b));
                    assert(w.set@[w.set@.len() - 1].0@ == p.0@);
                },
                Err(e) => {
                    return Err(e);
                },
            }
        }
        assert forall|k: int|
            0 <= k < i + 1 implies if (#[trigger] properties@[k]).1 is Null {
                property_unset(w.unset@, properties@[k])
            } else {
                property_set(w.set@, properties@[k])
            } by {
            if k < i {
                if properties@[k].1 is Null {
                    let j = choose|j: int| 0 <= j < unset_before.len() && (#[trigger] unset_before[j])@ == properties@[k].0@;
                    assert(w.unset@[j] == unset_before[j]);
                } else {
                    let j = choose|j: int|
                        0 <= j < set_before.len() && (#[trigger] set_before[j]).0@ == properties@[k].0@ && encodes(
                            properties@[k].1,
                            set_before[j].1,
                        );
                    assert(w.set@[j] == set_before[j]);
                }
            }
        }
        i = i + 1;
    }
    Ok(w)
}

} // verus!
