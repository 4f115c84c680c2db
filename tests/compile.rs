use teo_core::aggregation::{build_pagination, build_query_pipeline, has_negative_take, CmpOp, QueryPipelineType, Stage};
use teo_core::builders::FieldBuilder;
use teo_core::connector::arrange_found;
use teo_core::error::ActionErrorType;
use teo_core::field::{Field, Sort};
use teo_core::model::{Graph, Model, Relation};
use teo_core::value::Value;

fn s(x: &str) -> String {
    x.to_string()
}

fn dict(entries: Vec<(&str, Value)>) -> Value {
    Value::Dict(entries.into_iter().map(|(k, v)| (s(k), v)).collect())
}

fn field(name: &'static str, build: impl Fn(&mut FieldBuilder)) -> Field {
    let mut b = FieldBuilder::new(name);
    build(&mut b);
    Field::new(b)
}

fn user_model() -> Model {
    Model {
        name: s("User"),
        table_name: s("users"),
        fields: vec![
            field("id", |f| {
                f.object_id().primary();
            }),
            field("email", |f| {
                f.string().unique();
            }),
        ],
        relations: vec![Relation {
            name: s("posts"),
            model: s("Post"),
            fields: vec![s("id"), s("email")],
            references: vec![s("authorId"), s("authorEmail")],
        }],
        indices: vec![],
        is_virtual: false,
    }
}

fn post_model() -> Model {
    Model {
        name: s("Post"),
        table_name: s("posts"),
        fields: vec![
            field("id", |f| {
                f.object_id().primary();
            }),
            field("title", |f| {
                f.string();
            }),
            field("authorId", |f| {
                f.object_id();
            }),
            field("authorEmail", |f| {
                f.string();
            }),
        ],
        relations: vec![],
        indices: vec![],
        is_virtual: false,
    }
}

fn graph() -> Graph {
    Graph { models: vec![user_model(), post_model()] }
}

#[test]
fn empty_where_has_no_match_stage() {
    let g = graph();
    let m = user_model();
    let finder = dict(vec![("where", dict(vec![])), ("take", Value::I64(2))]);
    let st = build_query_pipeline(&g, &m, QueryPipelineType::Many, false, &finder).unwrap();
    assert!(st.iter().all(|x| !matches!(x, Stage::Match(_))));
    assert_eq!(st.len(), 1);
    let absent = dict(vec![]);
    let st = build_query_pipeline(&g, &m, QueryPipelineType::Many, false, &absent).unwrap();
    assert!(st.is_empty());
}

#[test]
fn where_compiles_to_leading_match() {
    let g = graph();
    let m = user_model();
    let finder = dict(vec![(
        "where",
        dict(vec![("email", Value::String(s("a@b.c"))), ("id", dict(vec![("not", Value::Null)]))]),
    )]);
    let st = build_query_pipeline(&g, &m, QueryPipelineType::First, false, &finder).unwrap();
    assert_eq!(st.len(), 1);
    match &st[0] {
        Stage::Match(p) => {
            assert_eq!(p.conditions.len(), 2);
            assert_eq!(p.conditions[0].column, "email");
            assert_eq!(p.conditions[0].op, CmpOp::Equals);
            assert_eq!(p.conditions[1].op, CmpOp::Not);
            assert!(p.correlations.is_empty());
        }
        _ => panic!("expected a match stage"),
    }
}

#[test]
fn bad_where_is_invalid_query_input() {
    let g = graph();
    let m = user_model();
    let unknown = dict(vec![("where", dict(vec![("nickname", Value::I32(1))]))]);
    let e = build_query_pipeline(&g, &m, QueryPipelineType::Many, false, &unknown).unwrap_err();
    assert_eq!(e.error_type, ActionErrorType::InvalidQueryInput);
    let not_map = dict(vec![("where", Value::I32(1))]);
    let e = build_query_pipeline(&g, &m, QueryPipelineType::Many, false, &not_map).unwrap_err();
    assert_eq!(e.error_type, ActionErrorType::InvalidQueryInput);
    let bad_op = dict(vec![("where", dict(vec![("email", dict(vec![("like", Value::Null)]))]))]);
    assert!(build_query_pipeline(&g, &m, QueryPipelineType::Many, false, &bad_op).is_err());
}

#[test]
fn page_takes_precedence_over_skip_and_take() {
    let finder = dict(vec![
        ("pageSize", Value::I64(10)),
        ("pageNumber", Value::I64(3)),
        ("skip", Value::I64(5)),
        ("take", Value::I64(7)),
    ]);
    let st = build_pagination(&finder).unwrap();
    assert_eq!(st.len(), 2);
    assert!(matches!(st[0], Stage::Skip(20)));
    assert!(matches!(st[1], Stage::Limit(10)));
    let first = dict(vec![("pageSize", Value::I32(4)), ("pageNumber", Value::I32(1))]);
    let st = build_pagination(&first).unwrap();
    assert!(matches!(st[0], Stage::Skip(0)));
    assert!(matches!(st[1], Stage::Limit(4)));
}

#[test]
fn page_number_zero_is_rejected() {
    let finder = dict(vec![("pageSize", Value::I64(10)), ("pageNumber", Value::I64(0))]);
    let e = build_pagination(&finder).unwrap_err();
    assert_eq!(e.error_type, ActionErrorType::InvalidQueryInput);
}

#[test]
fn take_limits_by_take_not_skip() {
    let finder = dict(vec![("skip", Value::I64(2)), ("take", Value::I64(5))]);
    let st = build_pagination(&finder).unwrap();
    assert_eq!(st.len(), 2);
    assert!(matches!(st[0], Stage::Skip(2)));
    assert!(matches!(st[1], Stage::Limit(5)));
    let only_take = dict(vec![("take", Value::I64(5))]);
    let st = build_pagination(&only_take).unwrap();
    assert_eq!(st.len(), 1);
    assert!(matches!(st[0], Stage::Limit(5)));
}

#[test]
fn negative_take_returns_last_rows_in_ascending_order() {
    let finder = dict(vec![("take", Value::I64(-3))]);
    assert!(has_negative_take(&finder));
    let st = build_pagination(&finder).unwrap();
    assert_eq!(st.len(), 2);
    assert!(matches!(st[0], Stage::SortByKey(Sort::Desc)));
    assert!(matches!(st[1], Stage::Limit(3)));
    // The store runs the plan over rows 1..=5: descending order, first three.
    let mut rows: Vec<i32> = (1..=5).collect();
    rows.sort_by(|a, b| b.cmp(a));
    rows.truncate(3);
    assert_eq!(rows, vec![5, 4, 3]);
    let found = arrange_found(rows, has_negative_take(&finder));
    assert_eq!(found, vec![3, 4, 5]);
}

#[test]
fn include_builds_positional_correlation() {
    let g = graph();
    let m = user_model();
    let finder = dict(vec![
        ("pageSize", Value::I64(2)),
        ("pageNumber", Value::I64(2)),
        ("include", dict(vec![("posts", Value::Bool(true))])),
    ]);
    let st = build_query_pipeline(&g, &m, QueryPipelineType::Many, false, &finder).unwrap();
    assert_eq!(st.len(), 3);
    assert!(matches!(st[0], Stage::Skip(2)));
    assert!(matches!(st[1], Stage::Limit(2)));
    match &st[2] {
        Stage::Lookup(l) => {
            assert_eq!(l.from, "posts");
            assert_eq!(l.alias, "posts");
            assert_eq!(l.bindings, vec![(s("id"), s("$authorId")), (s("email"), s("$authorEmail"))]);
            assert_eq!(l.pipeline.len(), 1);
            match &l.pipeline[0] {
                Stage::Match(p) => {
                    assert_eq!(p.correlations.len(), 2);
                    assert_eq!(p.correlations[0].field, "authorId");
                    assert_eq!(p.correlations[0].variable, "id");
                    assert_eq!(p.correlations[1].field, "authorEmail");
                    assert_eq!(p.correlations[1].variable, "email");
                    assert!(p.conditions.is_empty());
                }
                _ => panic!("expected a match stage"),
            }
        }
        _ => panic!("expected a lookup stage"),
    }
}

#[test]
fn nested_include_merges_into_existing_match() {
    let g = graph();
    let m = user_model();
    let nested = dict(vec![("where", dict(vec![("title", Value::String(s("Hello")))])), ("take", Value::I64(1))]);
    let finder = dict(vec![("include", dict(vec![("posts", nested)]))]);
    let st = build_query_pipeline(&g, &m, QueryPipelineType::Many, false, &finder).unwrap();
    assert_eq!(st.len(), 1);
    match &st[0] {
        Stage::Lookup(l) => {
            assert_eq!(l.pipeline.len(), 2);
            match &l.pipeline[0] {
                Stage::Match(p) => {
                    assert_eq!(p.conditions.len(), 1);
                    assert_eq!(p.conditions[0].column, "title");
                    assert_eq!(p.correlations.len(), 2);
                }
                _ => panic!("expected a match stage"),
            }
            assert!(matches!(l.pipeline[1], Stage::Limit(1)));
        }
        _ => panic!("expected a lookup stage"),
    }
}

#[test]
fn unknown_relation_is_invalid_query_input() {
    let g = graph();
    let m = user_model();
    let finder = dict(vec![("include", dict(vec![("comments", Value::Bool(true))]))]);
    let e = build_query_pipeline(&g, &m, QueryPipelineType::Many, false, &finder).unwrap_err();
    assert_eq!(e.error_type, ActionErrorType::InvalidQueryInput);
    assert_eq!(e.message, "Relation 'comments' on model 'User' is not exist. Please check your input.");
    let bad_value = dict(vec![("include", dict(vec![("posts", Value::I32(1))]))]);
    assert!(build_query_pipeline(&g, &m, QueryPipelineType::Many, false, &bad_value).is_err());
    let not_map = dict(vec![("include", Value::Bool(true))]);
    assert!(build_query_pipeline(&g, &m, QueryPipelineType::Many, false, &not_map).is_err());
}
