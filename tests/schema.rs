use teo_core::builders::{ActionBuilder, ActionType, FieldBuilder, GraphBuilder, ModelBuilder};
use teo_core::error::{ActionError, ActionErrorType};
use teo_core::field::{Field, FieldType, Optionality, Store, WriteRule};
use teo_core::items::{PadEndItem, RegexMatchModifier, ToSentenceCaseItem};
use teo_core::model::Model;
use teo_core::pipeline::{Modifier, Pipeline};
use teo_core::sql::{
    database_setup_sql, plan_table, reconcile_columns, SQLAlterTableStatement, SQLColumn, SQLDialect, SQLUseStatement,
    TableOperation,
};
use teo_core::value::Value;

fn s(x: &str) -> String {
    x.to_string()
}

#[test]
fn error_codes() {
    assert_eq!(ActionErrorType::ObjectNotFound.code(), 404);
    assert_eq!(ActionErrorType::InvalidQueryInput.code(), 400);
    assert_eq!(ActionErrorType::UnknownDatabaseWriteError.code(), 500);
    let e = ActionError::invalid_input("name", s("too short"));
    assert_eq!(e.errors.unwrap(), vec![(s("name"), s("too short"))]);
    assert_eq!(ActionError::object_not_found().message, "The requested object is not exist.");
}

#[test]
fn field_builder_chains() {
    let mut b = FieldBuilder::new("age");
    b.i32().optional().readonly();
    assert!(matches!(b.field_type, FieldType::I32));
    assert_eq!(b.availability, Optionality::Optional);
    assert_eq!(b.write_rule, WriteRule::NoWrite);
    b.calculated();
    assert!(matches!(b.store, Store::Calculated));
    let f = Field::new(b);
    assert_eq!(f.name(), "age");
    assert_eq!(f.column_name(), "age");
    assert!(!f.needs_on_save_callback());
}

#[test]
fn item_pipelines_make_callbacks_needed() {
    let mut item = FieldBuilder::new("");
    let mut p = Pipeline::new();
    p.str_append("!").is_null();
    assert_eq!(p.modifiers.len(), 2);
    assert!(matches!(p.modifiers[0], Modifier::StrAppend("!")));
    item.string().on_save(p);
    let mut list = FieldBuilder::new("tags");
    list.vec(item);
    let f = Field::new(list);
    assert!(f.needs_on_save_callback());
    assert!(!f.needs_on_output_callback());
}

#[test]
fn model_actions_enable_and_disable() {
    let mut m = ModelBuilder::new("Post");
    assert_eq!(m.actions.len(), 13);
    let mut off = ActionBuilder::new();
    off.delete().delete_many();
    m.disable(off);
    assert_eq!(m.actions.len(), 11);
    assert!(!m.actions.contains(&ActionType::Delete));
    let mut on = ActionBuilder::new();
    on.find_many().find_many().count();
    m.enable(on);
    assert_eq!(m.actions, vec![ActionType::FindMany, ActionType::Count]);
    let mut g = GraphBuilder::new();
    g.enumeration("Sex", vec!["MALE", "FEMALE"]);
    g.enumeration("Sex", vec!["OTHER"]);
    assert_eq!(g.enums.len(), 1);
    assert_eq!(g.enums[0].1, vec!["OTHER"]);
    g.model(m);
    g.reset_database();
    assert!(g.reset_database);
    assert_eq!(g.models.len(), 1);
}

#[test]
fn pad_puts_characters_in_front() {
    let item = PadEndItem::new('0', Value::I64(5));
    let r = item.call(&Value::String(s("12"))).unwrap();
    assert!(matches!(r, Value::String(ref x) if x == "00012"));
    let wide = item.call(&Value::String(s("123456"))).unwrap();
    assert!(matches!(wide, Value::String(ref x) if x == "123456"));
    assert!(item.call(&Value::I32(1)).is_err());
}

#[test]
fn sentence_case_item() {
    let r = ToSentenceCaseItem::new().call(&Value::String(s("hello_world"))).unwrap();
    assert!(matches!(r, Value::String(ref x) if x == "Hello world"));
    assert!(ToSentenceCaseItem::new().call(&Value::Null).is_err());
}

#[test]
fn regex_match_modifier() {
    let m = RegexMatchModifier::new(Value::String(s("^[a-z]+$")));
    assert_eq!(m.name(), "regexMatch");
    assert!(m.call(&Value::String(s("abc"))).is_ok());
    let e = m.call(&Value::String(s("ab1"))).unwrap_err();
    assert_eq!(e.error_type, ActionErrorType::ValidationError);
    assert!(m.call(&Value::I32(3)).is_err());
}

fn model() -> Model {
    let mut id = FieldBuilder::new("id");
    id.i32().primary().auto_increment();
    let mut name = FieldBuilder::new("name");
    name.string();
    let mut tmp = FieldBuilder::new("tmp");
    tmp.string().temp();
    Model {
        name: s("User"),
        table_name: s("users"),
        fields: vec![Field::new(id), Field::new(name), Field::new(tmp)],
        relations: vec![],
        indices: vec![],
        is_virtual: false,
    }
}

fn col(name: &str, t: &str, not_null: bool, ai: bool, pk: bool) -> SQLColumn {
    SQLColumn { name: s(name), column_type: s(t), not_null, auto_increment: ai, primary_key: pk }
}

#[test]
fn column_reconciliation_is_idempotent() {
    let m = model();
    let mut live = vec![col("id", "INT", true, true, true), col("name", "TEXT", true, false, false), col("age", "INT", false, false, false)];
    let ops = reconcile_columns(SQLDialect::MySQL, &m, &live);
    assert_eq!(ops.len(), 2);
    assert!(matches!(&ops[0], TableOperation::ModifyColumn(c) if c.name == "name" && c.column_type == "VARCHAR(191)"));
    assert!(matches!(&ops[1], TableOperation::DropColumn(n) if n == "age"));
    for op in ops {
        match op {
            TableOperation::DropColumn(n) => live.retain(|c| c.name != n),
            TableOperation::ModifyColumn(c) => {
                let i = live.iter().position(|x| x.name == c.name).unwrap();
                live[i] = c;
            }
            TableOperation::AddColumn(c) => live.push(c),
            TableOperation::CreateTable(_) => unreachable!(),
        }
    }
    assert!(reconcile_columns(SQLDialect::MySQL, &m, &live).is_empty());
}

#[test]
fn missing_table_is_created() {
    let m = model();
    let ops = plan_table(SQLDialect::PostgreSQL, &m, false, &vec![]);
    assert_eq!(ops.len(), 1);
    match &ops[0] {
        TableOperation::CreateTable(cols) => {
            assert_eq!(cols.len(), 2);
            assert_eq!(cols[1].column_type, "TEXT");
        }
        _ => panic!("expected a table"),
    }
    let virt = Model { is_virtual: true, ..model() };
    assert!(plan_table(SQLDialect::MySQL, &virt, false, &vec![]).is_empty());
}

#[test]
fn statements_per_dialect() {
    let u = SQLUseStatement {};
    assert_eq!(u.database("shop").to_sql(SQLDialect::MySQL), "USE `shop`");
    assert_eq!(u.database("shop").to_sql(SQLDialect::PostgreSQL), "SET search_path TO shop");
    let alter = SQLAlterTableStatement { table: s("users") };
    assert_eq!(alter.drop_column("age").to_sql(SQLDialect::MySQL), "ALTER TABLE `users` DROP COLUMN `age`");
    assert_eq!(
        alter.add(col("age", "INT", false, false, false)).to_sql(SQLDialect::MySQL),
        "ALTER TABLE `users` ADD `age` INT NULL"
    );
    assert_eq!(
        alter.modify(col("id", "INT", true, true, true)).to_sql(SQLDialect::MySQL),
        "ALTER TABLE `users` MODIFY `id` INT NOT NULL AUTO_INCREMENT PRIMARY KEY"
    );
    let pg = database_setup_sql(SQLDialect::PostgreSQL, "shop", false, true);
    assert_eq!(pg, vec![s("SET search_path TO shop")]);
    let my = database_setup_sql(SQLDialect::MySQL, "shop", true, false);
    assert_eq!(my, vec![s("DROP DATABASE IF EXISTS `shop`"), s("CREATE DATABASE IF NOT EXISTS `shop`"), s("USE `shop`")]);
}

#[test]
fn described_column_is_normalised() {
    let c = teo_core::sql::column_from_description("id", "int", "NO", "PRI", "auto_increment");
    assert_eq!(c.column_type, "INT");
    assert!(c.not_null && c.primary_key && c.auto_increment);
    let d = teo_core::sql::column_from_description("name", "varchar(191)", "YES", "", "");
    assert_eq!(d.column_type, "VARCHAR(191)");
    assert!(!d.not_null && !d.primary_key && !d.auto_increment);
}

#[test]
fn index_decorator_declares_indices() {
    let mut m = ModelBuilder::new("Post");
    teo_core::decorators::index_decorator(&Value::String(s("title")), &mut m).unwrap();
    teo_core::decorators::index_decorator(&Value::Vec(vec![Value::String(s("a")), Value::String(s("b"))]), &mut m).unwrap();
    assert_eq!(m.indices, vec![vec![s("title")], vec![s("a"), s("b")]]);
    assert!(teo_core::decorators::index_decorator(&Value::I32(1), &mut m).is_err());
    assert_eq!(m.indices.len(), 2);
    let mut f = FieldBuilder::new("count");
    teo_core::decorators::atomic_decorator(&mut f);
    teo_core::decorators::auto_decorator(&mut f);
    assert!(f.atomic && f.assigned_by_database);
}

#[test]
fn config_starts_unresolved() {
    let c = teo_core::config::Config::new(3, 1, vec![4, 5], teo_core::config::Span { start: 0, end: 10 });
    assert_eq!(c.id, 3);
    assert_eq!(c.items, vec![4, 5]);
    assert!(c.bind.is_none() && c.jwt_secret.is_none() && c.path_prefix.is_none());
}


#[test]
fn column_rows_are_read_per_dialect() {
    let my = teo_core::sql::column_from_row(SQLDialect::MySQL, &vec![s("id"), s("int"), s("NO"), s("PRI"), s(""), s("auto_increment")]).unwrap();
    assert!(my.not_null && my.primary_key && my.auto_increment);
    assert_eq!(my.column_type, "INT");
    let pg = teo_core::sql::column_from_row(SQLDialect::PostgreSQL, &vec![s("name"), s("text"), s("YES")]).unwrap();
    assert_eq!(pg.column_type, "TEXT");
    assert!(!pg.not_null && !pg.primary_key);
    let lite = teo_core::sql::column_from_row(SQLDialect::SQLite, &vec![s("0"), s("id"), s("integer"), s("1"), s(""), s("1")]).unwrap();
    assert_eq!(lite.name, "id");
    assert_eq!(lite.column_type, "INTEGER");
    assert!(lite.not_null && lite.primary_key);
    assert!(teo_core::sql::column_from_row(SQLDialect::SQLite, &vec![s("0")]).is_none());
}

#[test]
fn modify_statement_per_dialect() {
    let op = TableOperation::ModifyColumn(col("age", "INT", true, false, false));
    assert_eq!(teo_core::sql::operation_sql(SQLDialect::PostgreSQL, "users", op), "ALTER TABLE \"users\" ALTER COLUMN \"age\" TYPE INT");
    let op = TableOperation::ModifyColumn(col("age", "INT", true, false, false));
    assert_eq!(teo_core::sql::operation_sql(SQLDialect::MySQL, "users", op), "ALTER TABLE `users` MODIFY `age` INT NOT NULL");
    let pg = database_setup_sql(SQLDialect::PostgreSQL, "shop", false, false);
    assert_eq!(pg, vec![s("CREATE DATABASE \"shop\""), s("SET search_path TO shop")]);
}

#[test]
fn missing_columns_are_added_not_modified() {
    let m = model();
    let live = vec![col("id", "INT", true, true, true)];
    let ops = reconcile_columns(SQLDialect::MySQL, &m, &live);
    assert_eq!(ops.len(), 1);
    assert!(matches!(&ops[0], TableOperation::AddColumn(c) if c.name == "name"));
}
