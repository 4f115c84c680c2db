use vstd::prelude::*;
use vstd::string::StringExecFns;
use crate::error::{ActionError, ActionErrorType};
use crate::field::{column_of, Sort};
use crate::model::{spec_field, spec_model, spec_relation, Graph, Model, Relation};
use crate::search::str_eq;
use crate::value::{int_of, lemma_entry_index, same_value, spec_get, entry_index, Value};

verus! {

/// What a query asks for: one object by a unique key, the first match, or
/// every match.
#[derive(Debug, Clone, Copy, PartialEq, Eq, Structural)]
pub enum QueryPipelineType {
    Unique,
    First,
    Many,
}

/// A comparison of a stored column against a value.
#[derive(Debug, Clone, Copy, PartialEq, Eq, Structural)]
pub enum CmpOp {
    Equals,
    Not,
    Gt,
    Gte,
    Lt,
    Lte,
}

/// `column op value`.
#[derive(Debug)]
pub struct Condition {
    pub column: String,
    pub op: CmpOp,
    pub value: Value,
}

/// The child's `field` equals the correlation variable `variable`.
#[derive(Debug)]
pub struct CorrelationEq {
    pub field: String,
    pub variable: String,
}

/// A match predicate: the conjunction of its conditions and of its
/// correlation equalities.
#[derive(Debug)]
pub struct Predicate {
    pub conditions: Vec<Condition>,
    pub correlations: Vec<CorrelationEq>,
}

/// A join of related documents: the documents of `from` that the nested
/// `pipeline` selects, with `bindings` giving each correlation variable its
/// value from the parent document, placed under `alias`.
#[derive(Debug)]
pub struct Lookup {
    pub from: String,
    pub alias: String,
    pub bindings: Vec<(String, String)>,
    pub pipeline: Vec<Stage>,
}

/// A stage of a document-store pipeline.
#[derive(Debug)]
pub enum Stage {
    Match(Predicate),
    SortByKey(Sort),
    Skip(i64),
    Limit(i64),
    Lookup(Lookup),
    Count,
}

pub open spec fn op_named(name: Seq<char>) -> Option<CmpOp> {
    if name == "equals"@ {
        Some(CmpOp::Equals)
    } else if name == "not"@ {
        Some(CmpOp::Not)
    } else if name == "gt"@ {
        Some(CmpOp::Gt)
    } else if name == "gte"@ {
        Some(CmpOp::Gte)
    } else if name == "lt"@ {
        Some(CmpOp::Lt)
    } else if name == "lte"@ {
        Some(CmpOp::Lte)
    } else {
        None
    }
}

fn op_from_name(name: &String) -> (r: Option<CmpOp>)
    ensures
        r == op_named(name@),
{
    let s = name.as_str();
    if str_eq(s, "equals") {
        Some(CmpOp::Equals)
    } else if str_eq(s, "not") {
        Some(CmpOp::Not)
    } else if str_eq(s, "gt") {
        Some(CmpOp::Gt)
    } else if str_eq(s, "gte") {
        Some(CmpOp::Gte)
    } else if str_eq(s, "lt") {
        Some(CmpOp::Lt)
    } else if str_eq(s, "lte") {
        Some(CmpOp::Lte)
    } else {
        None
    }
}

pub open spec fn opt_value(v: Option<&Value>) -> Option<Value> {
    match v {
        Some(x) => Some(*x),
        None => None,
    }
}

/// An entry of a `where` map names a field of the model and holds either a
/// value to equal or a non-empty map of known comparison operators.
pub open spec fn where_entry_ok(m: Model, e: (String, Value)) -> bool {
    &&& spec_field(m, e.0@) is Some
    &&& match e.1 {
        Value::Dict(ops) => ops@.len() > 0 && forall|j: int|
            0 <= j < ops@.len() ==> op_named(#[trigger] ops@[j].0@) is Some,
        _ => true,
    }
}

/// A `where` is absent or a map of valid entries.
pub open spec fn where_ok(m: Model, w: Option<Value>) -> bool {
    match w {
        None => true,
        Some(v) => v is Dict && where_entries_ok(m, v->Dict_0@),
    }
}

pub open spec fn where_entries_ok(m: Model, es: Seq<(String, Value)>) -> bool {
    forall|i: int| 0 <= i < es.len() ==> where_entry_ok(m, #[trigger] es[i])
}

/// A `where` that asks for nothing: absent or an empty map.
pub open spec fn where_is_empty(w: Option<Value>) -> bool {
    match w {
        None => true,
        Some(Value::Dict(es)) => es@.len() == 0,
        Some(_) => false,
    }
}

/// Every condition is on a column of the model.
pub open spec fn on_model_columns(m: Model, cs: Seq<Condition>) -> bool {
    forall|i: int|
        0 <= i < cs.len() ==> exists|k: int|
            0 <= k < m.fields@.len() && column_of(m.fields@[k]) == (#[trigger] cs[i]).column@
}

fn condition(column: &str, op: CmpOp, value: &Value) -> (r: Condition)
    ensures
        r.column@ == column@,
        r.op == op,
        same_value(*value, r.value),
{
    Condition { column: column.to_string(), op, value: value.duplicate() }
}

/// The comparisons that one `where` entry asks for: one per operator of
/// an operator map, else one equality; each on the column of the named
/// field.
pub open spec fn entry_conditions(m: Model, e: (String, Value)) -> Seq<(Seq<char>, CmpOp, Value)> {
    let column = column_of(spec_field(m, e.0@)->Some_0);
    if e.1 is Dict {
        e.1->Dict_0@.map_values(|o: (String, Value)| (column, op_named(o.0@)->Some_0, o.1))
    } else {
        seq![(column, CmpOp::Equals, e.1)]
    }
}

/// The comparisons of all entries, in order.
pub open spec fn where_conditions(m: Model, es: Seq<(String, Value)>) -> Seq<(Seq<char>, CmpOp, Value)>
    decreases es.len(),
{
    if es.len() == 0 {
        Seq::empty()
    } else {
        where_conditions(m, es.drop_last()) + entry_conditions(m, es.last())
    }
}

pub open spec fn where_entries(w: Option<Value>) -> Seq<(String, Value)> {
    match w {
        Some(v) => if v is Dict { v->Dict_0@ } else { Seq::empty() },
        None => Seq::empty(),
    }
}

/// The conditions are the comparisons, one for one.
pub open spec fn matches_conditions(cs: Seq<Condition>, ws: Seq<(Seq<char>, CmpOp, Value)>) -> bool {
    &&& cs.len() == ws.len()
    &&& forall|i: int|
        0 <= i < cs.len() ==> (#[trigger] cs[i]).column@ == ws[i].0 && cs[i].op == ws[i].1 && same_value(
            ws[i].2,
            cs[i].value,
        )
}

proof fn lemma_matches_push(cs: Seq<Condition>, ws: Seq<(Seq<char>, CmpOp, Value)>, c: Condition, w: (Seq<char>, CmpOp, Value))
    requires
        matches_conditions(cs, ws),
        c.column@ == w.0 && c.op == w.1 && same_value(w.2, c.value),
    ensures
        matches_conditions(cs.push(c), ws.push(w)),
{
    assert forall|i: int| 0 <= i < cs.len() + 1 implies (#[trigger] cs.push(c)[i]).column@ == ws.push(w)[i].0
        && cs.push(c)[i].op == ws.push(w)[i].1 && same_value(ws.push(w)[i].2, cs.push(c)[i].value) by {
        if i < cs.len() {
            assert(cs.push(c)[i] == cs[i]);
            assert(ws.push(w)[i] == ws[i]);
        }
    }
}

/// Translates a `where` map into a match predicate on the model's columns.
pub fn build_where_input(model: &Model, where_input: Option<&Value>) -> (r: Result<Predicate, ActionError>)
    ensures
        r is Err ==> r->Err_0.error_type == ActionErrorType::InvalidQueryInput,
        r is Ok <==> where_ok(*model, opt_value(where_input)),
        r is Ok ==> {
            let p = r->Ok_0;
            &&& p.correlations@.len() == 0
            &&& (p.conditions@.len() == 0 <==> where_is_empty(opt_value(where_input)))
            &&& on_model_columns(*model, p.conditions@)
            &&& matches_conditions(p.conditions@, where_conditions(*model, where_entries(opt_value(where_input))))
        },
{
    let mut p = Predicate { conditions: Vec::new(), correlations: Vec::new() };
    let w = match where_input {
        None => {
            return Ok(p);
        },
        Some(w) => w,
    };
    let es = match w {
        Value::Dict(es) => es,
        _ => {
            return Err(ActionError::invalid_query_input("'where' is not an object. Please check your input.".to_string()));
        },
    };
    let mut i: usize = 0;
    while i < es.len()
        invariant
            *w == Value::Dict(*es),
            opt_value(where_input) == Some(*w),
            0 <= i <= es@.len(),
            forall|j: int| 0 <= j < i ==> where_entry_ok(*model, #[trigger] es@[j]),
            p.correlations@.len() == 0,
            p.conditions@.len() >= i,
            i == 0 ==> p.conditions@.len() == 0,
            on_model_columns(*model, p.conditions@),
            matches_conditions(p.conditions@, where_conditions(*model, es@.subrange(0, i as int))),
        decreases es.len() - i,
    {
        let e = &es[i];
        let field = match model.field(e.0.as_str()) {
            Some(f) => f,
            None => {
                assert(!where_entry_ok(*model, es@[i as int]));
                assert(!where_entries_ok(*model, es@));
                return Err(ActionError::invalid_query_input("'where' names an unknown field. Please check your input.".to_string()));
            },
        };
        let column = field.column_name();
        let ghost prefix = where_conditions(*model, es@.subrange(0, i as int));
        proof {
            let k = crate::model::field_position(*model, e.0@)->Some_0;
            crate::search::lemma_first_index(model.fields@, |f: crate::field::Field| f.name@ == e.0@);
            assert(column_of(model.fields@[k]) == column@);
            assert(es@.subrange(0, i + 1).drop_last() =~= es@.subrange(0, i as int));
            assert(es@.subrange(0, i + 1).last() == *e);
            assert(column@ == column_of(spec_field(*model, e.0@)->Some_0));
        }
        match &e.1 {
            Value::Dict(ops) => {
                if ops.len() == 0 {
                    assert(!where_entry_ok(*model, es@[i as int]));
                assert(!where_entries_ok(*model, es@));
                    return Err(ActionError::invalid_query_input("'where' holds an empty filter. Please check your input.".to_string()));
                }
                let mut j: usize = 0;
                while j < ops.len()
                    invariant
                        e.1 == Value::Dict(*ops),
                        *w == Value::Dict(*es),
                        opt_value(where_input) == Some(*w),
                        0 <= i < es@.len(),
                        *e == es@[i as int],
                        forall|k: int| 0 <= k < i ==> where_entry_ok(*model, #[trigger] es@[k]),
                        spec_field(*model, e.0@) is Some,
                        0 <= j <= ops@.len(),
                        forall|k: int| 0 <= k < j ==> op_named(#[trigger] ops@[k].0@) is Some,
                        p.correlations@.len() == 0,
                        p.conditions@.len() >= i + j,
                        on_model_columns(*model, p.conditions@),
                        exists|k: int| 0 <= k < model.fields@.len() && column_of(model.fields@[k]) == column@,
                        column@ == column_of(spec_field(*model, e.0@)->Some_0),
                        prefix == where_conditions(*model, es@.subrange(0, i as int)),
                        matches_conditions(
                            p.conditions@,
                            prefix + ops@.subrange(0, j as int).map_values(
                                |o: (String, Value)| (column@, op_named(o.0@)->Some_0, o.1),
                            ),
                        ),
                    decreases ops.len() - j,
                {
                    let o = &ops[j];
                    let op = match op_from_name(&o.0) {
                        Some(op) => op,
                        None => {
                            assert(es@[i as int].1->Dict_0@[j as int] == ops@[j as int]);
                            assert(op_named(es@[i as int].1->Dict_0@[j as int].0@) is None);
                            assert(!where_entry_ok(*model, es@[i as int]));
                assert(!where_entries_ok(*model, es@));
                            return Err(ActionError::invalid_query_input("'where' holds an unknown operator. Please check your input.".to_string()));
                        },
                    };
                    let ghost cs = p.conditions@;
                    let c = condition(column, op, &o.1);
                    let ghost cv = c;
                    p.conditions.push(c);
                    proof {
                        let f = |o: (String, Value)| (column@, op_named(o.0@)->Some_0, o.1);
                        let ws = prefix + ops@.subrange(0, j as int).map_values(f);
                        lemma_matches_push(cs, ws, cv, f(ops@[j as int]));
                        assert(prefix + ops@.subrange(0, j + 1).map_values(f) =~= ws.push(f(ops@[j as int])));
                    }
                    j = j + 1;
                }
                assert(where_entry_ok(*model, es@[i as int]));
                assert(ops@.subrange(0, ops@.len() as int) =~= ops@);
            },
            v => {
                let ghost cs = p.conditions@;
                let c = condition(column, CmpOp::Equals, v);
                let ghost cv = c;
                p.conditions.push(c);
                proof {
                    lemma_matches_push(cs, prefix, cv, (column@, CmpOp::Equals, *v));
                    assert(entry_conditions(*model, *e) == seq![(column@, CmpOp::Equals, *v)]);
                    assert(prefix + entry_conditions(*model, *e) =~= prefix.push((column@, CmpOp::Equals, *v)));
                }
                assert(where_entry_ok(*model, es@[i as int]));
            },
        }
        i = i + 1;
    }
    assert(es@.subrange(0, es@.len() as int) =~= es@);
    Ok(p)
}

pub open spec fn key_page_size() -> Seq<char> {
    "pageSize"@
}

pub open spec fn key_page_number() -> Seq<char> {
    "pageNumber"@
}

pub open spec fn key_skip() -> Seq<char> {
    "skip"@
}

pub open spec fn key_take() -> Seq<char> {
    "take"@
}

pub open spec fn key_where() -> Seq<char> {
    "where"@
}

pub open spec fn key_include() -> Seq<char> {
    "include"@
}

/// The integer that the finder holds under `key`.
pub open spec fn finder_int(f: Value, key: Seq<char>) -> int {
    int_of(spec_get(f, key)->Some_0)->Some_0
}

pub open spec fn has_key(f: Value, key: Seq<char>) -> bool {
    spec_get(f, key) is Some
}

/// The finder holds an integer under `key`.
pub open spec fn int_at(f: Value, key: Seq<char>) -> bool {
    has_key(f, key) && int_of(spec_get(f, key)->Some_0) is Some
}

/// Both `pageSize` and `pageNumber` are given: they decide the page.
pub open spec fn paged(f: Value) -> bool {
    has_key(f, key_page_size()) && has_key(f, key_page_number())
}

/// A negative `take` asks for the last rows, so the rows are taken in
/// descending key order and turned back afterwards.
pub open spec fn takes_last(f: Value) -> bool {
    !paged(f) && int_at(f, key_take()) && finder_int(f, key_take()) < 0
}

pub open spec fn abs(i: int) -> int {
    if i < 0 {
        -i
    } else {
        i
    }
}

/// The pagination keys are well formed: page numbers start at 1, sizes
/// and skips are not negative, and every count fits in an `i64`.
pub open spec fn pagination_ok(f: Value) -> bool {
    if paged(f) {
        &&& int_at(f, key_page_size())
        &&& int_at(f, key_page_number())
        &&& finder_int(f, key_page_size()) >= 0
        &&& finder_int(f, key_page_number()) >= 1
        &&& (finder_int(f, key_page_number()) - 1) * finder_int(f, key_page_size()) <= i64::MAX
    } else {
        &&& (has_key(f, key_skip()) ==> int_at(f, key_skip()) && finder_int(f, key_skip()) >= 0)
        &&& (has_key(f, key_take()) ==> int_at(f, key_take()) && finder_int(f, key_take())
            > i64::MIN)
    }
}

/// The skip and limit stages of a finder: the page's offset and size when
/// both page keys are given, else `skip` and then `take` as far as given.
pub open spec fn page_stages(f: Value) -> Seq<Stage> {
    if paged(f) {
        seq![
            Stage::Skip(((finder_int(f, key_page_number()) - 1) * finder_int(f, key_page_size())) as i64),
            Stage::Limit(finder_int(f, key_page_size()) as i64),
        ]
    } else {
        (if has_key(f, key_skip()) {
            seq![Stage::Skip(finder_int(f, key_skip()) as i64)]
        } else {
            Seq::empty()
        }) + (if has_key(f, key_take()) {
            seq![Stage::Limit(abs(finder_int(f, key_take())) as i64)]
        } else {
            Seq::empty()
        })
    }
}

/// The ordering stage: present only where the last rows are asked for.
pub open spec fn sort_stages(f: Value) -> Seq<Stage> {
    if takes_last(f) {
        seq![Stage::SortByKey(Sort::Desc)]
    } else {
        Seq::empty()
    }
}

fn get_key<'a>(f: &'a Value, key: &str) -> (r: Option<&'a Value>)
    ensures
        match spec_get(*f, key@) {
            Some(v) => r is Some && *r->Some_0 == v,
            None => r is None,
        },
{
    let k = key.to_string();
    f.get(&k)
}

/// The ordering and pagination stages of a finder.
pub fn build_pagination(finder: &Value) -> (r: Result<Vec<Stage>, ActionError>)
    ensures
        r is Err ==> r->Err_0.error_type == ActionErrorType::InvalidQueryInput,
        r is Ok <==> pagination_ok(*finder),
        r is Ok ==> r->Ok_0@ == sort_stages(*finder) + page_stages(*finder),
{
    let mut st: Vec<Stage> = Vec::new();
    let page_size = get_key(finder, "pageSize");
    let page_number = get_key(finder, "pageNumber");
    if page_size.is_some() && page_number.is_some() {
        let ps = page_size.unwrap().as_int();
        let pn = page_number.unwrap().as_int();
        if ps.is_none() || pn.is_none() {
            return Err(ActionError::invalid_query_input("'pageSize' and 'pageNumber' must be integers.".to_string()));
        }
        let ps = ps.unwrap();
        let pn = pn.unwrap();
        if ps < 0 || pn < 1 {
            return Err(ActionError::invalid_query_input("'pageSize' must not be negative and 'pageNumber' starts at 1.".to_string()));
        }
        let a: i128 = pn as i128 - 1;
        let b: i128 = ps as i128;
        assert(0 <= a * b <= 0x7fff_ffff_ffff_ffffi128 * 0x7fff_ffff_ffff_ffffi128) by (nonlinear_arith)
            requires
                0 <= a <= 0x7fff_ffff_ffff_ffffi128,
                0 <= b <= 0x7fff_ffff_ffff_ffffi128,
        ;
        let offset: i128 = a * b;
        if offset > i64::MAX as i128 {
            return Err(ActionError::invalid_query_input("The page offset is too large.".to_string()));
        }
        st.push(Stage::Skip(offset as i64));
        st.push(Stage::Limit(ps));
        assert(st@ =~= sort_stages(*finder) + page_stages(*finder));
        return Ok(st);
    }
    let skip = get_key(finder, "skip");
    let take = get_key(finder, "take");
    let mut skip_n: i64 = 0;
    let mut take_n: i64 = 0;
    if skip.is_some() {
        match skip.unwrap().as_int() {
            Some(n) if n >= 0 => {
                skip_n = n;
            },
            _ => {
                return Err(ActionError::invalid_query_input("'skip' must be an integer that is not negative.".to_string()));
            },
        }
    }
    if take.is_some() {
        match take.unwrap().as_int() {
            Some(n) if n > i64::MIN => {
                take_n = n;
            },
            _ => {
                return Err(ActionError::invalid_query_input("'take' must be an integer.".to_string()));
            },
        }
    }
    if take.is_some() && take_n < 0 {
        st.push(Stage::SortByKey(Sort::Desc));
    }
    if skip.is_some() {
        st.push(Stage::Skip(skip_n));
    }
    if take.is_some() {
        st.push(Stage::Limit(if take_n < 0 { -take_n } else { take_n }));
    }
    assert(st@ =~= sort_stages(*finder) + page_stages(*finder));
    Ok(st)
}

/// Every relation of the model pairs as many local fields as referenced
/// ones, and at least one.
pub open spec fn model_wf(m: Model) -> bool {
    forall|i: int| 0 <= i < m.relations@.len() ==> (#[trigger] m.relations@[i]).wf()
}

pub open spec fn graph_wf(g: Graph) -> bool {
    forall|i: int| 0 <= i < g.models@.len() ==> model_wf(#[trigger] g.models@[i])
}

/// The relation that an includes key names.
pub open spec fn include_relation(m: Model, key: Seq<char>) -> Relation {
    spec_relation(m, key)->Some_0
}

/// The model that an includes key leads to.
pub open spec fn include_model(g: Graph, m: Model, key: Seq<char>) -> Model {
    spec_model(g, include_relation(m, key).model@)->Some_0
}

/// A finder is well formed: its `where` and pagination are, and each
/// `includes` entry names a relation of the model whose target model exists,
/// with `true` or a well-formed finder for that model.
pub open spec fn finder_ok(g: Graph, m: Model, f: Value) -> bool
    decreases f,
{
    &&& where_ok(m, spec_get(f, key_where()))
    &&& pagination_ok(f)
    &&& forall|i: int|
        #![trigger f->Dict_0@[i]]
        f is Dict && 0 <= i < f->Dict_0@.len() && entry_index(f->Dict_0@, key_include()) == Some(i)
            ==> {
            let inc = f->Dict_0@[i].1;
            &&& inc is Dict
            &&& forall|j: int|
                #![trigger inc->Dict_0@[j]]
                0 <= j < inc->Dict_0@.len() ==> {
                    let e = inc->Dict_0@[j];
                    &&& spec_relation(m, e.0@) is Some
                    &&& spec_model(g, include_relation(m, e.0@).model@) is Some
                    &&& (e.1 is Bool || (e.1 is Dict && finder_ok(g, include_model(g, m, e.0@), e.1)))
                }
        }
}

/// One `includes` entry is well formed.
pub open spec fn include_entry_ok(g: Graph, m: Model, e: (String, Value)) -> bool {
    &&& spec_relation(m, e.0@) is Some
    &&& spec_model(g, include_relation(m, e.0@).model@) is Some
    &&& (e.1 is Bool || (e.1 is Dict && finder_ok(g, include_model(g, m, e.0@), e.1)))
}

/// An `includes` value is a map of well-formed entries.
pub open spec fn includes_ok(g: Graph, m: Model, inc: Value) -> bool {
    &&& inc is Dict
    &&& forall|j: int| 0 <= j < inc->Dict_0@.len() ==> include_entry_ok(g, m, #[trigger] inc->Dict_0@[j])
}

/// `finder_ok` in terms of the finder's own keys.
pub proof fn lemma_finder_ok(g: Graph, m: Model, f: Value)
    ensures
        finder_ok(g, m, f) == {
            &&& where_ok(m, spec_get(f, key_where()))
            &&& pagination_ok(f)
            &&& (has_key(f, key_include()) ==> includes_ok(g, m, spec_get(f, key_include())->Some_0))
        },
{
    if f is Dict {
        lemma_entry_index(f->Dict_0@, key_include());
        if has_key(f, key_include()) {
            let i = entry_index(f->Dict_0@, key_include())->Some_0;
            let inc = f->Dict_0@[i].1;
            if inc is Dict {
                assert forall|j: int| 0 <= j < inc->Dict_0@.len() implies include_entry_ok(g, m, inc->Dict_0@[j])
                    == ({
                    let e = inc->Dict_0@[j];
                    &&& spec_relation(m, e.0@) is Some
                    &&& spec_model(g, include_relation(m, e.0@).model@) is Some
                    &&& (e.1 is Bool || (e.1 is Dict && finder_ok(g, include_model(g, m, e.0@), e.1)))
                }) by {}
            }
        }
    }
}

/// The entries of a finder's `includes` map.
pub open spec fn include_entries(f: Value) -> Seq<(String, Value)> {
    if has_key(f, key_include()) && spec_get(f, key_include())->Some_0 is Dict {
        spec_get(f, key_include())->Some_0->Dict_0@
    } else {
        Seq::empty()
    }
}

/// The stage `s` joins the relation of the includes entry `e`: it reads the
/// target model's collection into the entry's key, binds each local field
/// to the value of the parent's referenced field, and its nested pipeline
/// opens with a match whose correlation equalities pair, in order, each
/// referenced field on the child with the variable of its local field.
pub open spec fn lookup_compiled(g: Graph, m: Model, e: (String, Value), s: Stage) -> bool {
    let rel = include_relation(m, e.0@);
    let target = include_model(g, m, e.0@);
    &&& s is Lookup
    &&& s->Lookup_0.from@ == target.table_name@
    &&& s->Lookup_0.alias@ == e.0@
    &&& s->Lookup_0.bindings@.len() == rel.fields@.len()
    &&& forall|j: int|
        0 <= j < rel.fields@.len() ==> (#[trigger] s->Lookup_0.bindings@[j]).0@ == rel.fields@[j]@
            && s->Lookup_0.bindings@[j].1@ == "$"@ + rel.references@[j]@
    &&& s->Lookup_0.pipeline@.len() >= 1
    &&& s->Lookup_0.pipeline@[0] is Match
    &&& correlated(s->Lookup_0.pipeline@[0]->Match_0.correlations@, rel)
    &&& forall|k: int| 1 <= k < s->Lookup_0.pipeline@.len() ==> !(#[trigger] s->Lookup_0.pipeline@[k] is Match)
    &&& (e.1 is Bool ==> s->Lookup_0.pipeline@.len() == 1 && s->Lookup_0.pipeline@[0]->Match_0.conditions@.len() == 0)
    &&& (e.1 is Dict ==> exists|inner: Seq<Stage>|
        compiled_shape(g, target, e.1, inner) && #[trigger] kept_after_merge(inner, s->Lookup_0.pipeline@))
}

/// The predicate's correlation equalities are exactly those of the
/// relation, pairwise in order.
pub open spec fn correlated(cs: Seq<CorrelationEq>, rel: Relation) -> bool {
    &&& cs.len() == rel.fields@.len()
    &&& forall|j: int|
        0 <= j < rel.fields@.len() ==> (#[trigger] cs[j]).field@ == rel.references@[j]@
            && cs[j].variable@ == rel.fields@[j]@
}

/// The stages compiled from a well-formed finder: a match stage exactly
/// where `where` asks for something, then the ordering and pagination
/// stages, then one join for each `includes` entry, in order.
pub open spec fn compiled(g: Graph, m: Model, f: Value, st: Seq<Stage>) -> bool {
    let np: int = if where_is_empty(spec_get(f, key_where())) { 0 } else { 1 };
    let pg = sort_stages(f) + page_stages(f);
    let inc = include_entries(f);
    &&& compiled_shape(g, m, f, st)
    &&& forall|i: int| 0 <= i < inc.len() ==> lookup_compiled(g, m, #[trigger] inc[i], st[np + pg.len() + i])
}

/// The stages of a well-formed finder, up to the insides of its joins: the
/// match stage where `where` asks for something, the ordering and
/// pagination stages, then one join per `includes` entry under its key.
pub open spec fn compiled_shape(g: Graph, m: Model, f: Value, st: Seq<Stage>) -> bool {
    let np: int = if where_is_empty(spec_get(f, key_where())) { 0 } else { 1 };
    let pg = sort_stages(f) + page_stages(f);
    let inc = include_entries(f);
    &&& st.len() == np + pg.len() + inc.len()
    &&& (np == 1 ==> st[0] is Match && st[0]->Match_0.correlations@.len() == 0)
    &&& forall|i: int| np <= i < st.len() ==> !(#[trigger] st[i] is Match)
    &&& st.subrange(np, np + pg.len()) == pg
    &&& forall|i: int|
        0 <= i < inc.len() ==> st[np + pg.len() + i] is Lookup && st[np + pg.len() + i]->Lookup_0.alias@
            == (#[trigger] inc[i]).0@
}

/// The joined pipeline `p` is the nested pipeline `inner` with the
/// correlation equalities merged in: into its opening match, whose
/// conditions are kept, or into a new match put in front of it.
pub open spec fn kept_after_merge(inner: Seq<Stage>, p: Seq<Stage>) -> bool {
    if inner.len() > 0 && inner[0] is Match {
        &&& p.len() == inner.len()
        &&& p[0] is Match
        &&& p[0]->Match_0.conditions == inner[0]->Match_0.conditions
        &&& forall|k: int| 1 <= k < inner.len() ==> #[trigger] p[k] == inner[k]
    } else {
        &&& p.len() == inner.len() + 1
        &&& p[0] is Match
        &&& p[0]->Match_0.conditions@.len() == 0
        &&& forall|k: int| 0 <= k < inner.len() ==> #[trigger] p[k + 1] == inner[k]
    }
}

/// Compiles a finder into the ordered stages of a document-store pipeline:
/// predicate, then ordering and pagination, then relation joins.
pub fn build_query_pipeline(
    graph: &Graph,
    model: &Model,
    kind: QueryPipelineType,
    mutation_mode: bool,
    finder: &Value,
) -> (r: Result<Vec<Stage>, ActionError>)
    requires
        graph_wf(*graph),
        model_wf(*model),
    ensures
        r is Err ==> r->Err_0.error_type == ActionErrorType::InvalidQueryInput,
        r is Ok <==> finder_ok(*graph, *model, *finder),
        r is Ok ==> compiled(*graph, *model, *finder, r->Ok_0@),
    decreases *finder,
{
    proof {
        lemma_finder_ok(*graph, *model, *finder);
    }
    let w = get_key(finder, "where");
    let pred = match build_where_input(model, w) {
        Ok(p) => p,
        Err(e) => {
            return Err(e);
        },
    };
    let mut st: Vec<Stage> = Vec::new();
    if pred.conditions.len() > 0 {
        st.push(Stage::Match(pred));
    }
    let ghost np: int = st@.len() as int;
    let mut pg = match build_pagination(finder) {
        Ok(pg) => pg,
        Err(e) => {
            return Err(e);
        },
    };
    let ghost pgv = pg@;
    st.append(&mut pg);
    match get_key(finder, "include") {
        None => {
            assert(st@.subrange(np as int, (np + pgv.len()) as int) =~= pgv);
        },
        Some(inc) => {
            proof {
                let fes = finder->Dict_0@;
                lemma_entry_index(fes, key_include());
                let i = entry_index(fes, key_include())->Some_0;
                assert(decreases_to!(*finder => finder->Dict_0));
                assert(decreases_to!(finder->Dict_0 => fes));
                assert(decreases_to!(fes => fes[i]));
                assert(decreases_to!(fes[i] => fes[i].1));
            }
            let mut lookups = match build_lookup_inputs(graph, model, kind, mutation_mode, inc) {
                Ok(l) => l,
                Err(e) => {
                    return Err(e);
                },
            };
            let ghost before = st@;
            let ghost lv = lookups@;
            st.append(&mut lookups);
            assert(st@.subrange(np as int, (np + pgv.len()) as int) =~= pgv);
            assert forall|i: int| 0 <= i < include_entries(*finder).len() implies lookup_compiled(
                *graph,
                *model,
                #[trigger] include_entries(*finder)[i],
                st@[np + pgv.len() + i],
            ) by {
                assert(st@[np + pgv.len() + i] == lv[i]);
            }
        },
    }
    Ok(st)
}

/// The correlation bindings and equalities of a relation.
fn correlation(rel: &Relation) -> (r: (Vec<(String, String)>, Vec<CorrelationEq>))
    requires
        rel.wf(),
    ensures
        r.0@.len() == rel.fields@.len(),
        forall|j: int|
            0 <= j < rel.fields@.len() ==> (#[trigger] r.0@[j]).0@ == rel.fields@[j]@ && r.0@[j].1@
                == "$"@ + rel.references@[j]@,
        correlated(r.1@, *rel),
{
    let mut bindings: Vec<(String, String)> = Vec::new();
    let mut eqs: Vec<CorrelationEq> = Vec::new();
    let mut j: usize = 0;
    while j < rel.fields.len()
        invariant
            rel.wf(),
            0 <= j <= rel.fields@.len(),
            bindings@.len() == j,
            eqs@.len() == j,
            forall|k: int|
                0 <= k < j ==> (#[trigger] bindings@[k]).0@ == rel.fields@[k]@ && bindings@[k].1@ == "$"@
                    + rel.references@[k]@,
            forall|k: int|
                0 <= k < j ==> (#[trigger] eqs@[k]).field@ == rel.references@[k]@ && eqs@[k].variable@
                    == rel.fields@[k]@,
        decreases rel.fields.len() - j,
    {
        let field = &rel.fields[j];
        let reference = &rel.references[j];
        let mut bound = "$".to_string();
        bound.append(reference.as_str());
        bindings.push((field.clone(), bound));
        eqs.push(CorrelationEq { field: reference.clone(), variable: field.clone() });
        j = j + 1;
    }
    (bindings, eqs)
}

/// Puts the correlation equalities into the pipeline's opening match,
/// adding a match in front where the pipeline has none.
fn merge_correlations(inner: &mut Vec<Stage>, eqs: Vec<CorrelationEq>)
    requires
        forall|k: int| 1 <= k < old(inner)@.len() ==> !(#[trigger] old(inner)@[k] is Match),
        old(inner)@.len() >= 1 && old(inner)@[0] is Match ==> old(inner)@[0]->Match_0.correlations@.len() == 0,
    ensures
        final(inner)@.len() >= 1,
        final(inner)@[0] is Match,
        final(inner)@[0]->Match_0.correlations@ == eqs@,
        forall|k: int| 1 <= k < final(inner)@.len() ==> !(#[trigger] final(inner)@[k] is Match),
        old(inner)@.len() == 0 ==> final(inner)@.len() == 1 && final(inner)@[0]->Match_0.conditions@.len() == 0,
        kept_after_merge(old(inner)@, final(inner)@),
{
    if inner.len() > 0 {
        let first = inner.remove(0);
        match first {
            Stage::Match(p) => {
                let mut p = p;
                let mut eqs = eqs;
                p.correlations.append(&mut eqs);
                inner.insert(0, Stage::Match(p));
                assert forall|k: int| 1 <= k < old(inner)@.len() implies #[trigger] inner@[k] == old(inner)@[k] by {}
                return;
            },
            other => {
                inner.insert(0, other);
                assert(inner@ =~= old(inner)@);
            },
        }
    }
    inner.insert(0, Stage::Match(Predicate { conditions: Vec::new(), correlations: eqs }));
    assert forall|k: int| 0 <= k < old(inner)@.len() implies #[trigger] inner@[k + 1] == old(inner)@[k] by {}
}

/// Compiles each `includes` entry into a join stage, in order.
pub fn build_lookup_inputs(
    graph: &Graph,
    model: &Model,
    kind: QueryPipelineType,
    mutation_mode: bool,
    includes: &Value,
) -> (r: Result<Vec<Stage>, ActionError>)
    requires
        graph_wf(*graph),
        model_wf(*model),
    ensures
        r is Ok <==> includes_ok(*graph, *model, *includes),
        r is Ok ==> r->Ok_0@.len() == includes->Dict_0@.len() && forall|j: int|
            0 <= j < r->Ok_0@.len() ==> lookup_compiled(*graph, *model, includes->Dict_0@[j], #[trigger] r->Ok_0@[j]),
        r is Err ==> r->Err_0.error_type == ActionErrorType::InvalidQueryInput,
        includes is Dict ==> forall|j: int|
            0 <= j < includes->Dict_0@.len() && spec_relation(*model, (#[trigger] includes->Dict_0@[j]).0@) is None
                && (forall|k: int| 0 <= k < j ==> include_entry_ok(*graph, *model, includes->Dict_0@[k])) ==> r is Err
                && r->Err_0.message@ == "Relation '"@ + includes->Dict_0@[j].0@ + "' on model '"@ + model.name@
                + "' is not exist. Please check your input."@,
    decreases *includes,
{
    let es = match includes {
        Value::Dict(es) => es,
        _ => {
            let mut msg = "'include' on model '".to_string();
            msg.append(model.name.as_str());
            msg.append("' is not an object. Please check your input.");
            return Err(ActionError::invalid_query_input(msg));
        },
    };
    let mut out: Vec<Stage> = Vec::new();
    let mut j: usize = 0;
    while j < es.len()
        invariant
            graph_wf(*graph),
            model_wf(*model),
            *includes == Value::Dict(*es),
            0 <= j <= es@.len(),
            out@.len() == j,
            forall|k: int| 0 <= k < j ==> include_entry_ok(*graph, *model, #[trigger] es@[k]),
            forall|k: int| 0 <= k < j ==> lookup_compiled(*graph, *model, es@[k], #[trigger] out@[k]),
            forall|k: int| 0 <= k < j ==> spec_relation(*model, (#[trigger] es@[k]).0@) is Some,
        decreases es.len() - j,
    {
        let e = &es[j];
        let relation = match model.relation(e.0.as_str()) {
            Some(rel) => rel,
            None => {
                assert(!include_entry_ok(*graph, *model, includes->Dict_0@[j as int]));
                let mut msg = "Relation '".to_string();
                msg.append(e.0.as_str());
                msg.append("' on model '");
                msg.append(model.name.as_str());
                msg.append("' is not exist. Please check your input.");
                proof {
                    assert forall|jj: int|
                        0 <= jj < includes->Dict_0@.len() && spec_relation(*model, (#[trigger] includes->Dict_0@[jj]).0@) is None
                            && (forall|k: int| 0 <= k < jj ==> include_entry_ok(*graph, *model, includes->Dict_0@[k]))
                            implies jj == j by {
                        if jj < j {
                            assert(spec_relation(*model, es@[jj].0@) is Some);
                        }
                        if jj > j {
                            assert(!include_entry_ok(*graph, *model, includes->Dict_0@[j as int]));
                        }
                    }
                }
                return Err(ActionError::invalid_query_input(msg));
            },
        };
        proof {
            crate::search::lemma_first_index(model.relations@, |x: Relation| x.name@ == e.0@);
        }
        let target = match graph.model(relation.model.as_str()) {
            Some(t) => t,
            None => {
                assert(!include_entry_ok(*graph, *model, includes->Dict_0@[j as int]));
                let mut msg = "Relation '".to_string();
                msg.append(e.0.as_str());
                msg.append("' leads to an unknown model. Please check your input.");
                return Err(ActionError::invalid_query_input(msg));
            },
        };
        proof {
            crate::search::lemma_first_index(graph.models@, |x: Model| x.name@ == relation.model@);
        }
        let mut inner: Vec<Stage> = match &e.1 {
            Value::Bool(_) => Vec::new(),
            Value::Dict(_) => {
                proof {
                    assert(decreases_to!(*includes => includes->Dict_0));
                    assert(decreases_to!(includes->Dict_0 => es@));
                    assert(decreases_to!(es@ => es@[j as int]));
                    assert(decreases_to!(es@[j as int] => es@[j as int].1));
                }
                match build_query_pipeline(graph, target, kind, mutation_mode, &e.1) {
                    Ok(st) => st,
                    Err(err) => {
                        assert(!include_entry_ok(*graph, *model, includes->Dict_0@[j as int]));
                        return Err(err);
                    },
                }
            },
            _ => {
                assert(!include_entry_ok(*graph, *model, includes->Dict_0@[j as int]));
                let mut msg = "Relation '".to_string();
                msg.append(e.0.as_str());
                msg.append("' on model '");
                msg.append(model.name.as_str());
                msg.append("' has a unrecognized value. It's either a boolean or an object. Please check your input.");
                return Err(ActionError::invalid_query_input(msg));
            },
        };
        let (bindings, eqs) = correlation(relation);
        let ghost eqv = eqs@;
        let ghost inner0 = inner@;
        merge_correlations(&mut inner, eqs);
        proof {
            if e.1 is Dict {
                assert(compiled_shape(*graph, *target, e.1, inner0));
                assert(kept_after_merge(inner0, inner@));
            }
        }
        let lookup = Lookup {
            from: target.table_name.clone(),
            alias: e.0.clone(),
            bindings,
            pipeline: inner,
        };
        out.push(Stage::Lookup(lookup));
        j = j + 1;
    }
    Ok(out)
}

/// A finder whose `where` is absent or empty compiles to a pipeline with
/// no match stage.
pub proof fn lemma_empty_where_no_match(g: Graph, m: Model, f: Value, st: Seq<Stage>)
    requires
        compiled(g, m, f, st),
        where_is_empty(spec_get(f, key_where())),
    ensures
        forall|i: int| 0 <= i < st.len() ==> !(#[trigger] st[i] is Match),
{
}

/// With both `pageSize = p` and `pageNumber = n`, the pipeline skips
/// `(n - 1) * p` rows and keeps `p`, whatever `skip` and `take` say.
pub proof fn lemma_page_window(g: Graph, m: Model, f: Value, st: Seq<Stage>)
    requires
        compiled(g, m, f, st),
        paged(f),
    ensures
        ({
            let np: int = if where_is_empty(spec_get(f, key_where())) { 0 } else { 1 };
            &&& st[np] == Stage::Skip(((finder_int(f, key_page_number()) - 1) * finder_int(f, key_page_size())) as i64)
            &&& st[np + 1] == Stage::Limit(finder_int(f, key_page_size()) as i64)
        }),
{
    let np: int = if where_is_empty(spec_get(f, key_where())) { 0 } else { 1 };
    let pg = sort_stages(f) + page_stages(f);
    assert(pg.len() == 2);
    assert(st.subrange(np, np + 2) == pg);
    assert(st[np] == st.subrange(np, np + 2)[0]);
    assert(st[np + 1] == st.subrange(np, np + 2)[1]);
}

/// For a relation of `k` field pairs, the join of an included relation has
/// exactly `k` correlation bindings and `k` correlation equalities, the
/// `j`-th of each built from the `j`-th pair.
pub proof fn lemma_correlation_pairs(g: Graph, m: Model, f: Value, st: Seq<Stage>, i: int)
    requires
        compiled(g, m, f, st),
        0 <= i < include_entries(f).len(),
    ensures
        ({
            let rel = include_relation(m, include_entries(f)[i].0@);
            let np: int = if where_is_empty(spec_get(f, key_where())) { 0 } else { 1 };
            let l = st[np + (sort_stages(f) + page_stages(f)).len() + i]->Lookup_0;
            let eqs = l.pipeline@[0]->Match_0.correlations@;
            &&& l.bindings@.len() == rel.fields@.len()
            &&& eqs.len() == rel.fields@.len()
            &&& forall|j: int|
                0 <= j < rel.fields@.len() ==> (#[trigger] l.bindings@[j]).0@ == rel.fields@[j]@ && l.bindings@[j].1@
                    == "$"@ + rel.references@[j]@ && eqs[j].variable@ == rel.fields@[j]@ && eqs[j].field@
                    == rel.references@[j]@
        }),
{
    let np: int = if where_is_empty(spec_get(f, key_where())) { 0 } else { 1 };
    let pg = sort_stages(f) + page_stages(f);
    assert(lookup_compiled(g, m, include_entries(f)[i], st[np + pg.len() + i]));
}

/// Whether the finder asks for the last rows, which then come back in
/// descending order and are turned around.
pub fn has_negative_take(finder: &Value) -> (r: bool)
    ensures
        r == takes_last(*finder),
{
    let ps = get_key(finder, "pageSize");
    let pn = get_key(finder, "pageNumber");
    if ps.is_some() && pn.is_some() {
        return false;
    }
    match get_key(finder, "take") {
        Some(t) => match t.as_int() {
            Some(n) => n < 0,
            None => false,
        },
        None => false,
    }
}

fn relations_wf(m: &Model) -> (r: bool)
    ensures
        r == model_wf(*m),
{
    let mut i: usize = 0;
    while i < m.relations.len()
        invariant
            0 <= i <= m.relations@.len(),
            forall|k: int| 0 <= k < i ==> (#[trigger] m.relations@[k]).wf(),
        decreases m.relations.len() - i,
    {
        let r = &m.relations[i];
        if r.fields.len() != r.references.len() || r.fields.len() == 0 {
            assert(!m.relations@[i as int].wf());
            return false;
        }
        i = i + 1;
    }
    true
}

/// Whether every relation of the graph's models and of `model` pairs as
/// many local fields as referenced ones, and at least one: what compiling
/// a finder asks of them.
pub fn model_wf_holds(graph: &Graph, model: &Model) -> (r: bool)
    ensures
        r == (graph_wf(*graph) && model_wf(*model)),
{
    let mut i: usize = 0;
    while i < graph.models.len()
        invariant
            0 <= i <= graph.models@.len(),
            forall|k: int| 0 <= k < i ==> model_wf(#[trigger] graph.models@[k]),
        decreases graph.models.len() - i,
    {
        if !relations_wf(&graph.models[i]) {
            return false;
        }
        i = i + 1;
    }
    relations_wf(model)
}

/// The pipeline that counts what a finder selects: its stages, then a
/// stage that counts the rows into `count`.
pub fn build_count_pipeline(graph: &Graph, model: &Model, finder: &Value) -> (r: Result<Vec<Stage>, ActionError>)
    requires
        graph_wf(*graph),
        model_wf(*model),
    ensures
        r is Err ==> r->Err_0.error_type == ActionErrorType::InvalidQueryInput,
        r is Ok <==> finder_ok(*graph, *model, *finder),
        r is Ok ==> r->Ok_0@.len() >= 1 && r->Ok_0@.last() is Count && compiled(
            *graph,
            *model,
            *finder,
            r->Ok_0@.drop_last(),
        ),
{
    let mut st = match build_query_pipeline(graph, model, QueryPipelineType::Many, false, finder) {
        Ok(st) => st,
        Err(e) => {
            return Err(e);
        },
    };
    let ghost before = st@;
    st.push(Stage::Count);
    assert(st@.drop_last() =~= before);
    Ok(st)
}

} // verus!
