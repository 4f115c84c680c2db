use teo_core::codec::{decode, encode, BsonValue, DAY_MS};
use teo_core::connector::{
    aggregate_result, backfill_ids, build_update, decode_count, delete_filter, document_to_object, first_found,
    handle_write_error, insert_document, read_back, write_error_from_capture, AtomicOp, FieldUpdate, WriteFailure,
};
use teo_core::error::{ActionError, ActionErrorType};
use teo_core::builders::FieldBuilder;
use teo_core::field::{Field, FieldType, Sort};
use teo_core::indices::{reconcile_indices, IndexOperation, IndexSpec};
use teo_core::model::{Graph, IndexItem, Model, ModelIndex, ModelIndexType, Relation};
use teo_core::value::{Decimal, ObjectId, ObjectRef, Value};

fn s(x: &str) -> String {
    x.to_string()
}

fn dict(entries: Vec<(&str, Value)>) -> Value {
    Value::Dict(entries.into_iter().map(|(k, v)| (s(k), v)).collect())
}

fn field(name: &'static str, build: impl Fn(&mut FieldBuilder)) -> Field {
    let mut b = FieldBuilder::new(name);
    build(&mut b);
    Field::new(b)
}

fn post_model() -> Model {
    let mut id = field("id", |f| {
        f.object_id().primary().assigned_by_database();
    });
    id.column_name = Some(s("_id"));
    Model {
        name: s("Post"),
        table_name: s("posts"),
        fields: vec![
            id,
            field("title", |f| {
                f.string().unique();
            }),
            field("viewCount", |f| {
                f.i32().atomic();
            }),
        ],
        relations: vec![],
        indices: vec![
            ModelIndex {
                index_type: ModelIndexType::Unique,
                name: s("title_1"),
                items: vec![IndexItem { field_name: s("title"), sort: Sort::Asc, length: None }],
            },
            ModelIndex {
                index_type: ModelIndexType::Index,
                name: s("views"),
                items: vec![IndexItem { field_name: s("viewCount"), sort: Sort::Desc, length: None }],
            },
        ],
        is_virtual: false,
    }
}

fn spec_of(name: &str, unique: bool, keys: Vec<(&str, Sort)>) -> IndexSpec {
    IndexSpec { name: s(name), unique, keys: keys.into_iter().map(|(k, o)| (s(k), o)).collect() }
}

fn apply(live: &mut Vec<IndexSpec>, ops: Vec<IndexOperation>) {
    for op in ops {
        match op {
            IndexOperation::DropIndex(n) => live.retain(|x| x.name != n),
            IndexOperation::CreateIndex(x) => live.push(x),
        }
    }
}

#[test]
fn index_reconciliation_is_idempotent() {
    let m = post_model();
    let mut live = vec![
        spec_of("_id_", true, vec![("_id", Sort::Asc)]),
        spec_of("title_1", false, vec![("title", Sort::Asc)]),
        spec_of("stale", false, vec![("old", Sort::Asc)]),
    ];
    let ops = reconcile_indices(&m, &live);
    assert_eq!(ops.len(), 4);
    assert!(matches!(&ops[0], IndexOperation::DropIndex(n) if n == "title_1"));
    assert!(matches!(&ops[1], IndexOperation::CreateIndex(x) if x.name == "title_1" && x.unique));
    assert!(matches!(&ops[2], IndexOperation::DropIndex(n) if n == "stale"));
    assert!(matches!(&ops[3], IndexOperation::CreateIndex(x) if x.name == "views" && !x.unique && x.keys == vec![(s("viewCount"), Sort::Desc)]));
    apply(&mut live, ops);
    assert!(reconcile_indices(&m, &live).is_empty());
}

#[test]
fn round_trip_of_supported_values() {
    let cases: Vec<(FieldType, Value)> = vec![
        (FieldType::Bool, Value::Bool(true)),
        (FieldType::I32, Value::I32(-7)),
        (FieldType::I64, Value::I64(1 << 40)),
        (FieldType::String, Value::String(s("hello"))),
        (FieldType::ObjectId, Value::ObjectId(ObjectId { high: 1, low: 2 })),
        (FieldType::Date, Value::Date(-3)),
        (FieldType::DateTime, Value::DateTime(1_600_000_000_123)),
        (FieldType::String, Value::Null),
    ];
    for (ft, v) in cases {
        let b = encode(&v).unwrap();
        let back = decode(&ft, &b).unwrap();
        assert_eq!(format!("{:?}", back), format!("{:?}", v));
    }
    let inner = field("", |f| {
        f.i32();
    });
    let ft = FieldType::Vec(Box::new(inner));
    let v = Value::Vec(vec![Value::I32(1), Value::Null, Value::I32(3)]);
    let back = decode(&ft, &encode(&v).unwrap()).unwrap();
    assert_eq!(format!("{:?}", back), format!("{:?}", v));
}

#[test]
fn date_is_stored_as_midnight() {
    let b = encode(&Value::Date(2)).unwrap();
    assert!(matches!(b, BsonValue::DateTime(t) if t == 2 * DAY_MS));
    assert!(decode(&FieldType::Date, &BsonValue::DateTime(DAY_MS + 1)).is_err());
}

#[test]
fn unsupported_values_fail_to_encode() {
    assert!(encode(&Value::Decimal(Decimal { mantissa: 15, scale: 1 })).is_err());
    assert!(encode(&Value::Object(ObjectRef { model: s("Post") })).is_err());
    assert!(encode(&Value::Vec(vec![Value::I32(1), Value::Decimal(Decimal { mantissa: 1, scale: 0 })])).is_err());
}

#[test]
fn aggregate_over_no_rows_gives_defaults() {
    let m = post_model();
    let finder = dict(vec![
        ("_count", dict(vec![("id", Value::Bool(true))])),
        ("_sum", dict(vec![("viewCount", Value::Bool(true))])),
    ]);
    let r = aggregate_result(&m, &vec![], &finder).unwrap();
    let expected = dict(vec![
        ("_count", dict(vec![("id", Value::I64(0))])),
        ("_sum", dict(vec![("viewCount", Value::Null)])),
    ]);
    assert_eq!(format!("{:?}", r), format!("{:?}", expected));
}

#[test]
fn increment_reads_back_stored_value() {
    let updates = vec![(s("viewCount"), FieldUpdate::Atomic(AtomicOp::Increment, Value::I32(1)))];
    let m = post_model();
    let plan = build_update(&m, &updates).unwrap();
    assert!(plan.returns_new());
    assert_eq!(plan.inc.len(), 1);
    assert!(matches!(&plan.inc[0], (c, BsonValue::Int32(1)) if c == "viewCount"));
    let returned = BsonValue::Document(vec![(s("_id"), BsonValue::ObjectId(ObjectId { high: 0, low: 9 })), (s("viewCount"), BsonValue::Int32(6))]);
    let values = read_back(&m, &vec![s("viewCount")], &returned).unwrap();
    assert_eq!(values.len(), 1);
    assert_eq!(values[0].0, "viewCount");
    assert!(matches!(values[0].1, Value::I32(6)));
}

#[test]
fn decrement_is_negated_increment_and_set_is_direct() {
    let m = post_model();
    let updates = vec![
        (s("viewCount"), FieldUpdate::Atomic(AtomicOp::Decrement, Value::I32(2))),
        (s("title"), FieldUpdate::Assign(Value::String(s("x")))),
    ];
    let plan = build_update(&m, &updates).unwrap();
    assert!(matches!(&plan.inc[0], (_, BsonValue::Int32(-2))));
    assert_eq!(plan.set.len(), 1);
    assert_eq!(teo_core::connector::atomic_fields(&updates), vec![s("viewCount")]);
    let cleared = build_update(&m, &vec![(s("title"), FieldUpdate::Assign(Value::Null))]).unwrap();
    assert_eq!(cleared.unset, vec![s("title")]);
    assert!(!cleared.returns_new());
    let direct = build_update(&m, &vec![(s("title"), FieldUpdate::Assign(Value::String(s("y"))))]).unwrap();
    assert!(!direct.returns_new());
    assert!(build_update(&m, &vec![(s("viewCount"), FieldUpdate::Atomic(AtomicOp::Divide, Value::I32(2)))]).is_err());
    assert!(build_update(&m, &vec![(s("body"), FieldUpdate::Assign(Value::Null))]).is_err());
}

#[test]
fn duplicate_key_names_the_field() {
    let failure = WriteFailure {
        code: 11000,
        message: s("E11000 duplicate key error collection: blog.posts index: title_1 dup key: { title: \"Hello\" }"),
    };
    let e = handle_write_error(Some(&failure));
    assert_eq!(e.error_type, ActionErrorType::UniqueValueDuplicated);
    assert_eq!(e.message, "Input is not valid.");
    assert_eq!(e.errors.unwrap(), vec![(s("title"), s("Unique value duplicated."))]);
    let other = WriteFailure { code: 121, message: s("Document failed validation") };
    assert_eq!(handle_write_error(Some(&other)).error_type, ActionErrorType::UnknownDatabaseWriteError);
    assert_eq!(handle_write_error(None).error_type, ActionErrorType::UnknownDatabaseWriteError);
    assert_eq!(write_error_from_capture(11000, None).error_type, ActionErrorType::UnknownDatabaseWriteError);
}

#[test]
fn second_insert_of_unique_value_is_duplicated() {
    let m = post_model();
    let values = vec![(s("title"), Value::String(s("Hello"))), (s("viewCount"), Value::I32(0))];
    let first = insert_document(&m, &values).unwrap();
    let second = insert_document(&m, &values).unwrap();
    assert_eq!(format!("{:?}", first), format!("{:?}", second));
    // The store refuses the second document on the unique title index.
    let refusal = WriteFailure { code: 11000, message: s("E11000 duplicate key error collection: blog.posts index: title_1 dup key: { title: \"Hello\" }") };
    let e = handle_write_error(Some(&refusal));
    assert_eq!(e.error_type, ActionErrorType::UniqueValueDuplicated);
    assert_eq!(e.errors.as_ref().unwrap()[0].0, "title");
    assert_eq!(e.errors.unwrap()[0].1, "Unique value duplicated.");
}

#[test]
fn insert_skips_nulls_and_backfills_ids() {
    let m = post_model();
    let doc = insert_document(&m, &vec![(s("title"), Value::Null), (s("viewCount"), Value::I32(3))]).unwrap();
    assert_eq!(doc.len(), 1);
    assert_eq!(doc[0].0, "viewCount");
    let ids = backfill_ids(&m, &BsonValue::ObjectId(ObjectId { high: 5, low: 6 }));
    assert_eq!(ids.len(), 1);
    assert_eq!(ids[0].0, "id");
    assert!(backfill_ids(&m, &BsonValue::Null).is_empty());
}

#[test]
fn deleting_unsaved_object_fails() {
    let m = post_model();
    let e = delete_filter(true, &m, &vec![]).unwrap_err();
    assert_eq!(e.error_type, ActionErrorType::ObjectNotSaved);
    let f = delete_filter(false, &m, &vec![(s("id"), Value::ObjectId(ObjectId { high: 0, low: 1 }))]).unwrap();
    assert_eq!(f.len(), 1);
    assert_eq!(f[0].0, "_id");
}

#[test]
fn find_unique_without_rows_is_not_found() {
    let e: ActionError = first_found(Vec::<i32>::new()).unwrap_err();
    assert_eq!(e.error_type, ActionErrorType::ObjectNotFound);
    assert_eq!(first_found(vec![4, 5]).unwrap(), 4);
}

#[test]
fn count_reads_first_row() {
    assert_eq!(decode_count(&vec![]).unwrap(), 0);
    let row = BsonValue::Document(vec![(s("count"), BsonValue::Int64(12))]);
    assert_eq!(decode_count(&vec![row]).unwrap(), 12);
    let bad = BsonValue::Document(vec![(s("count"), BsonValue::String(s("x")))]);
    assert!(decode_count(&vec![bad]).is_err());
}

#[test]
fn document_decodes_fields_and_relations() {
    let m = Model {
        relations: vec![Relation { name: s("related"), model: s("Post"), fields: vec![s("id")], references: vec![s("id")] }],
        ..post_model()
    };
    let g = Graph { models: vec![post_model()] };
    let doc = vec![
        (s("_id"), BsonValue::ObjectId(ObjectId { high: 0, low: 1 })),
        (s("viewCount"), BsonValue::Int32(4)),
        (s("related"), BsonValue::Array(vec![BsonValue::Document(vec![(s("title"), BsonValue::String(s("t")))])])),
        (s("unknown"), BsonValue::Null),
    ];
    let finder = dict(vec![("select", dict(vec![("title", Value::Bool(true)), ("id", Value::Bool(false))]))]);
    let o = document_to_object(&g, &m, &doc, finder.get(&s("select")), None).unwrap();
    assert_eq!(o.select, vec![s("title")]);
    assert!(!o.is_new);
    assert!(o.is_initialized);
    assert_eq!(o.values.len(), 2);
    assert_eq!(o.values[0].0, "id");
    assert_eq!(o.relations.len(), 1);
    assert_eq!(o.relations[0].1.len(), 1);
    assert_eq!(o.relations[0].1[0].values[0].0, "title");
    let bad = vec![(s("related"), BsonValue::Int32(1))];
    assert!(document_to_object(&g, &m, &bad, None, None).is_err());
}

#[test]
fn aggregate_row_reads_metrics_and_groups() {
    let m = post_model();
    let row = BsonValue::Document(vec![
        (s("_id"), BsonValue::Null),
        (s("_count"), BsonValue::Document(vec![(s("id"), BsonValue::Int32(3))])),
        (s("_max"), BsonValue::Document(vec![(s("viewCount"), BsonValue::Int64(9)), (s("title"), BsonValue::Null)])),
        (s("title"), BsonValue::String(s("Hello"))),
    ]);
    let v = teo_core::connector::decode_aggregate_row(&m, &row).unwrap();
    let expected = dict(vec![
        ("_count", dict(vec![("id", Value::I32(3))])),
        ("_max", dict(vec![("viewCount", Value::I64(9)), ("title", Value::Null)])),
        ("title", Value::String(s("Hello"))),
    ]);
    assert_eq!(format!("{:?}", v), format!("{:?}", expected));
    let grouped = teo_core::connector::group_by_result(&m, &vec![row]).unwrap();
    assert!(matches!(grouped, Value::Vec(ref rows) if rows.len() == 1));
    let none = teo_core::connector::group_by_result(&m, &vec![]).unwrap();
    assert!(matches!(none, Value::Vec(ref rows) if rows.is_empty()));
    let aggregated = aggregate_result(&m, &vec![BsonValue::Document(vec![(s("_sum"), BsonValue::Document(vec![(s("viewCount"), BsonValue::Int64(4))]))])], &dict(vec![])).unwrap();
    assert_eq!(format!("{:?}", aggregated), format!("{:?}", dict(vec![("_sum", dict(vec![("viewCount", Value::I64(4))]))])));
}

#[test]
fn date_literals_parse_to_day_counts() {
    assert!(matches!(teo_core::value::date_constructor("1970-01-03"), Ok(Value::Date(2))));
    assert!(matches!(teo_core::value::date_constructor("1969-12-31"), Ok(Value::Date(-1))));
    let e = teo_core::value::date_constructor("2020-13-01").unwrap_err();
    assert_eq!(e.error_type, ActionErrorType::WrongDateFormat);
    assert!(teo_core::value::date_from_days(Some(1i64 << 40)).is_err());
}

#[test]
fn properties_are_set_or_unset_by_name() {
    let w = teo_core::connector::property_entries(&vec![(s("slug"), Value::String(s("a-b"))), (s("score"), Value::Null)]).unwrap();
    assert_eq!(w.set.len(), 1);
    assert!(matches!(&w.set[0], (k, BsonValue::String(v)) if k == "slug" && v == "a-b"));
    assert_eq!(w.unset, vec![s("score")]);
    assert!(teo_core::connector::property_entries(&vec![(s("x"), Value::Decimal(Decimal { mantissa: 1, scale: 0 }))]).is_err());
}

#[test]
fn read_back_fails_without_the_column() {
    let m = post_model();
    let returned = BsonValue::Document(vec![(s("title"), BsonValue::String(s("t")))]);
    assert!(read_back(&m, &vec![s("viewCount")], &returned).is_err());
    assert!(read_back(&m, &vec![s("viewCount")], &BsonValue::Null).is_err());
}
