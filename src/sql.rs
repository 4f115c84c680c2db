use vstd::prelude::*;
use vstd::string::StringExecFns;
use crate::convergence::{
    item_changes, lemma_reconcile_idempotent, live_changes, missing_changes, reconcile_changes,
    visited, state_of, apply_changes, unique_names, named, Change, Rules,
};
use crate::field::{column_of, persisted, Field, FieldType, Optionality};
use crate::model::Model;
use crate::search::{first_index, lemma_first_index, str_eq};
use crate::outside::{uppercase, uppercase_of};

verus! {

/// The SQL dialects that the relational backend speaks.
#[derive(Debug, Clone, Copy, PartialEq, Eq, Structural)]
pub enum SQLDialect {
    MySQL,
    PostgreSQL,
    SQLite,
}

/// A column definition that every dialect agrees on, so that a declared
/// column and a live one compare alike in all of them.
#[derive(Debug)]
pub struct SQLColumn {
    pub name: String,
    pub column_type: String,
    pub not_null: bool,
    pub auto_increment: bool,
    pub primary_key: bool,
}

pub struct SQLColumnV {
    pub name: Seq<char>,
    pub column_type: Seq<char>,
    pub not_null: bool,
    pub auto_increment: bool,
    pub primary_key: bool,
}

impl View for SQLColumn {
    type V = SQLColumnV;

    open spec fn view(&self) -> SQLColumnV {
        SQLColumnV {
            name: self.name@,
            column_type: self.column_type@,
            not_null: self.not_null,
            auto_increment: self.auto_increment,
            primary_key: self.primary_key,
        }
    }
}

impl SQLColumn {
    pub fn duplicate(&self) -> (r: SQLColumn)
        ensures
            r@ == self@,
    {
        SQLColumn {
            name: self.name.clone(),
            column_type: self.column_type.clone(),
            not_null: self.not_null,
            auto_increment: self.auto_increment,
            primary_key: self.primary_key,
        }
    }

    pub fn same_as(&self, other: &SQLColumn) -> (r: bool)
        ensures
            r == (self@ == other@),
    {
        self.name == other.name && self.column_type == other.column_type && self.not_null == other.not_null
            && self.auto_increment == other.auto_increment && self.primary_key == other.primary_key
    }
}

/// The native type of a field type in a dialect; `None` for a type that
/// has no column.
pub open spec fn native_type(dialect: SQLDialect, t: FieldType) -> Option<Seq<char>> {
    match dialect {
        SQLDialect::MySQL => match t {
            FieldType::Bool => Some("TINYINT(1)"@),
            FieldType::I8 => Some("TINYINT"@),
            FieldType::I16 => Some("SMALLINT"@),
            FieldType::I32 => Some("INT"@),
            FieldType::I64 => Some("BIGINT"@),
            FieldType::U8 => Some("TINYINT UNSIGNED"@),
            FieldType::U16 => Some("SMALLINT UNSIGNED"@),
            FieldType::U32 => Some("INT UNSIGNED"@),
            FieldType::U64 => Some("BIGINT UNSIGNED"@),
            FieldType::F32 => Some("FLOAT"@),
            FieldType::F64 => Some("DOUBLE"@),
            FieldType::Decimal => Some("DECIMAL(65,30)"@),
            FieldType::String => Some("VARCHAR(191)"@),
            FieldType::Enum(_) => Some("VARCHAR(191)"@),
            FieldType::Date => Some("DATE"@),
            FieldType::DateTime => Some("DATETIME(3)"@),
            _ => None,
        },
        SQLDialect::PostgreSQL => match t {
            FieldType::Bool => Some("BOOLEAN"@),
            FieldType::I8 => Some("SMALLINT"@),
            FieldType::I16 => Some("SMALLINT"@),
            FieldType::I32 => Some("INTEGER"@),
            FieldType::I64 => Some("BIGINT"@),
            FieldType::F32 => Some("REAL"@),
            FieldType::F64 => Some("DOUBLE PRECISION"@),
            FieldType::Decimal => Some("DECIMAL(65,30)"@),
            FieldType::String => Some("TEXT"@),
            FieldType::Enum(_) => Some("TEXT"@),
            FieldType::Date => Some("DATE"@),
            FieldType::DateTime => Some("TIMESTAMP(3)"@),
            _ => None,
        },
        SQLDialect::SQLite => match t {
            FieldType::Bool => Some("INTEGER"@),
            FieldType::I8 => Some("INTEGER"@),
            FieldType::I16 => Some("INTEGER"@),
            FieldType::I32 => Some("INTEGER"@),
            FieldType::I64 => Some("INTEGER"@),
            FieldType::U8 => Some("INTEGER"@),
            FieldType::U16 => Some("INTEGER"@),
            FieldType::U32 => Some("INTEGER"@),
            FieldType::F32 => Some("REAL"@),
            FieldType::F64 => Some("REAL"@),
            FieldType::Decimal => Some("TEXT"@),
            FieldType::String => Some("TEXT"@),
            FieldType::Enum(_) => Some("TEXT"@),
            FieldType::Date => Some("TEXT"@),
            FieldType::DateTime => Some("TEXT"@),
            _ => None,
        },
    }
}

fn native_type_of(dialect: SQLDialect, t: &FieldType) -> (r: Option<&'static str>)
    ensures
        match native_type(dialect, *t) {
            Some(s) => r is Some && r->Some_0@ == s,
            None => r is None,
        },
{
    match dialect {
        SQLDialect::MySQL => match t {
            FieldType::Bool => Some("TINYINT(1)"),
            FieldType::I8 => Some("TINYINT"),
            FieldType::I16 => Some("SMALLINT"),
            FieldType::I32 => Some("INT"),
            FieldType::I64 => Some("BIGINT"),
            FieldType::U8 => Some("TINYINT UNSIGNED"),
            FieldType::U16 => Some("SMALLINT UNSIGNED"),
            FieldType::U32 => Some("INT UNSIGNED"),
            FieldType::U64 => Some("BIGINT UNSIGNED"),
            FieldType::F32 => Some("FLOAT"),
            FieldType::F64 => Some("DOUBLE"),
            FieldType::Decimal => Some("DECIMAL(65,30)"),
            FieldType::String => Some("VARCHAR(191)"),
            FieldType::Enum(_) => Some("VARCHAR(191)"),
            FieldType::Date => Some("DATE"),
            FieldType::DateTime => Some("DATETIME(3)"),
            _ => None,
        },
        SQLDialect::PostgreSQL => match t {
            FieldType::Bool => Some("BOOLEAN"),
            FieldType::I8 => Some("SMALLINT"),
            FieldType::I16 => Some("SMALLINT"),
            FieldType::I32 => Some("INTEGER"),
            FieldType::I64 => Some("BIGINT"),
            FieldType::F32 => Some("REAL"),
            FieldType::F64 => Some("DOUBLE PRECISION"),
            FieldType::Decimal => Some("DECIMAL(65,30)"),
            FieldType::String => Some("TEXT"),
            FieldType::Enum(_) => Some("TEXT"),
            FieldType::Date => Some("DATE"),
            FieldType::DateTime => Some("TIMESTAMP(3)"),
            _ => None,
        },
        SQLDialect::SQLite => match t {
            FieldType::Bool => Some("INTEGER"),
            FieldType::I8 => Some("INTEGER"),
            FieldType::I16 => Some("INTEGER"),
            FieldType::I32 => Some("INTEGER"),
            FieldType::I64 => Some("INTEGER"),
            FieldType::U8 => Some("INTEGER"),
            FieldType::U16 => Some("INTEGER"),
            FieldType::U32 => Some("INTEGER"),
            FieldType::F32 => Some("REAL"),
            FieldType::F64 => Some("REAL"),
            FieldType::Decimal => Some("TEXT"),
            FieldType::String => Some("TEXT"),
            FieldType::Enum(_) => Some("TEXT"),
            FieldType::Date => Some("TEXT"),
            FieldType::DateTime => Some("TEXT"),
            _ => None,
        },
    }
}

/// A field has a column in the dialect: it is persisted and its type has a
/// native form there.
pub open spec fn has_column(dialect: SQLDialect, f: Field) -> bool {
    persisted(f) && native_type(dialect, f.field_type) is Some
}

/// The column of a field.
pub open spec fn declared_column(dialect: SQLDialect, f: Field) -> SQLColumnV {
    SQLColumnV {
        name: column_of(f),
        column_type: native_type(dialect, f.field_type)->Some_0,
        not_null: f.optionality == Optionality::Required,
        auto_increment: f.auto_increment,
        primary_key: f.primary,
    }
}

/// The column of a field that has one.
pub fn column_for_field(dialect: SQLDialect, field: &Field) -> (r: Option<SQLColumn>)
    ensures
        r is Some <==> has_column(dialect, *field),
        r is Some ==> r->Some_0@ == declared_column(dialect, *field),
{
    if matches!(field.store, crate::field::Store::Temp) || matches!(field.store, crate::field::Store::Calculated) {
        return None;
    }
    match native_type_of(dialect, &field.field_type) {
        None => None,
        Some(t) => Some(
            SQLColumn {
                name: field.column_name().to_string(),
                column_type: t.to_string(),
                not_null: field.optionality == Optionality::Required,
                auto_increment: field.auto_increment,
                primary_key: field.primary,
            },
        ),
    }
}

/// The columns of the model's fields that have one, in field order.
pub open spec fn declared_columns(dialect: SQLDialect, m: Model) -> Seq<SQLColumnV>
    decreases m.fields@.len(),
{
    columns_of(dialect, m.fields@)
}

pub open spec fn columns_of(dialect: SQLDialect, fs: Seq<Field>) -> Seq<SQLColumnV>
    decreases fs.len(),
{
    if fs.len() == 0 {
        Seq::empty()
    } else {
        columns_of(dialect, fs.drop_last()) + if has_column(dialect, fs.last()) {
            seq![declared_column(dialect, fs.last())]
        } else {
            Seq::empty()
        }
    }
}

pub open spec fn columns_view(s: Seq<SQLColumn>) -> Seq<SQLColumnV> {
    s.map_values(|c: SQLColumn| c@)
}

/// The columns of the model's fields that have one.
pub fn model_columns(dialect: SQLDialect, model: &Model) -> (r: Vec<SQLColumn>)
    ensures
        columns_view(r@) == declared_columns(dialect, *model),
{
    let mut r: Vec<SQLColumn> = Vec::new();
    let mut i: usize = 0;
    while i < model.fields.len()
        invariant
            0 <= i <= model.fields@.len(),
            columns_view(r@) == columns_of(dialect, model.fields@.subrange(0, i as int)),
        decreases model.fields.len() - i,
    {
        let ghost before = r@;
        match column_for_field(dialect, &model.fields[i]) {
            Some(c) => {
                r.push(c);
            },
            None => {},
        }
        proof {
            let s = model.fields@.subrange(0, i + 1);
            assert(s.drop_last() =~= model.fields@.subrange(0, i as int));
            assert(columns_view(r@) =~= columns_view(before) + if has_column(dialect, s.last()) {
                seq![declared_column(dialect, s.last())]
            } else {
                Seq::empty()
            });
        }
        i = i + 1;
    }
    assert(model.fields@.subrange(0, model.fields@.len() as int) =~= model.fields@);
    r
}

/// A change to a table, or the creation of a missing table with its
/// columns.
#[derive(Debug)]
pub enum TableOperation {
    CreateTable(Vec<SQLColumn>),
    DropColumn(String),
    ModifyColumn(SQLColumn),
    AddColumn(SQLColumn),
}

/// What a column change does to the table's columns; creating a table is
/// not a column change.
pub open spec fn column_change(op: TableOperation) -> Change<SQLColumnV> {
    match op {
        TableOperation::DropColumn(n) => Change::Drop(n@),
        TableOperation::ModifyColumn(c) => Change::Put(c@),
        TableOperation::AddColumn(c) => Change::Put(c@),
        TableOperation::CreateTable(_) => Change::Drop(Seq::empty()),
    }
}

pub open spec fn column_changes(ops: Seq<TableOperation>) -> Seq<Change<SQLColumnV>> {
    ops.map_values(|op: TableOperation| column_change(op))
}

/// How columns are reconciled: by column name, a changed column is
/// modified in place, and every live column is visited.
pub open spec fn column_rules() -> Rules<SQLColumnV> {
    Rules { name_of: |c: SQLColumnV| c.name, drop_then_put: false, skipped: None }
}

fn find_column(columns: &Vec<SQLColumn>, name: &String) -> (r: Option<usize>)
    ensures
        match first_index(columns_view(columns@), named(column_rules().name_of, name@)) {
            Some(k) => r == Some(k as usize),
            None => r is None,
        },
{
    let ghost p = named(column_rules().name_of, name@);
    let ghost v = columns_view(columns@);
    proof {
        lemma_first_index(v, p);
    }
    let mut i: usize = 0;
    while i < columns.len()
        invariant
            0 <= i <= columns@.len(),
            v == columns_view(columns@),
            p == named(column_rules().name_of, name@),
            forall|j: int| 0 <= j < i ==> !p(#[trigger] v[j]),
            match first_index(v, p) {
                Some(k) => 0 <= k < v.len() && p(v[k]) && forall|j: int| 0 <= j < k ==> !p(#[trigger] v[j]),
                None => forall|j: int| 0 <= j < v.len() ==> !p(#[trigger] v[j]),
            },
        decreases columns.len() - i,
    {
        if columns[i].name == *name {
            assert(p(v[i as int]));
            return Some(i);
        }
        assert(!p(v[i as int]));
        i = i + 1;
    }
    None
}

fn has_column_named(columns: &Vec<SQLColumn>, name: &String) -> (r: bool)
    ensures
        r == visited(column_rules(), columns_view(columns@)).contains(name@),
{
    let ghost v = columns_view(columns@);
    let mut i: usize = 0;
    while i < columns.len()
        invariant
            0 <= i <= columns@.len(),
            v == columns_view(columns@),
            forall|j: int| 0 <= j < i ==> (#[trigger] v[j]).name != name@,
        decreases columns.len() - i,
    {
        if columns[i].name == *name {
            assert((column_rules().name_of)(v[i as int]) == name@);
            return true;
        }
        i = i + 1;
    }
    false
}

proof fn lemma_changes_push(ops: Seq<TableOperation>, op: TableOperation)
    ensures
        column_changes(ops.push(op)) == column_changes(ops).push(column_change(op)),
{
    assert(column_changes(ops.push(op)) =~= column_changes(ops).push(column_change(op)));
}

/// The column changes that bring a table's live columns to the model's
/// declared ones: live columns that no field stores are dropped, changed
/// ones are modified, declared ones that are missing are added.
pub fn reconcile_columns(dialect: SQLDialect, model: &Model, live: &Vec<SQLColumn>) -> (r: Vec<TableOperation>)
    ensures
        column_changes(r@) == reconcile_changes(column_rules(), declared_columns(dialect, *model), columns_view(live@)),
        forall|i: int| 0 <= i < r@.len() ==> !(#[trigger] r@[i] is CreateTable),
        forall|i: int|
            0 <= i < r@.len() ==> ((#[trigger] r@[i] is AddColumn) <==> i >= live_changes(
                column_rules(),
                declared_columns(dialect, *model),
                columns_view(live@),
            ).len()),
{
    let declared = model_columns(dialect, model);
    let ghost rules = column_rules();
    let ghost d = declared_columns(dialect, *model);
    let ghost lv = columns_view(live@);
    let mut ops: Vec<TableOperation> = Vec::new();
    let mut i: usize = 0;
    while i < live.len()
        invariant
            0 <= i <= live@.len(),
            rules == column_rules(),
            d == columns_view(declared@),
            lv == columns_view(live@),
            column_changes(ops@) == live_changes(rules, d, lv.subrange(0, i as int)),
            forall|k: int| 0 <= k < ops@.len() ==> !(#[trigger] ops@[k] is CreateTable),
            forall|k: int| 0 <= k < ops@.len() ==> !(#[trigger] ops@[k] is AddColumn),
        decreases live.len() - i,
    {
        let l = &live[i];
        let ghost before = ops@;
        proof {
            lemma_first_index(d, named(rules.name_of, l.name@));
        }
        match find_column(&declared, &l.name) {
            None => {
                ops.push(TableOperation::DropColumn(l.name.clone()));
                proof {
                    lemma_changes_push(before, ops@.last());
                    assert(ops@ == before.push(ops@.last()));
                }
            },
            Some(k) => {
                if !declared[k].same_as(l) {
                    ops.push(TableOperation::ModifyColumn(declared[k].duplicate()));
                    proof {
                        lemma_changes_push(before, ops@.last());
                        assert(ops@ == before.push(ops@.last()));
                    }
                }
            },
        }
        proof {
            assert(lv.subrange(0, i + 1).drop_last() =~= lv.subrange(0, i as int));
            assert(lv.subrange(0, i + 1).last() == l@);
            assert(column_changes(ops@) =~= column_changes(before) + item_changes(rules, d, l@));
        }
        i = i + 1;
    }
    assert(lv.subrange(0, lv.len() as int) =~= lv);
    let ghost rv = visited(rules, lv);
    let ghost lc = column_changes(ops@);
    let ghost n0 = ops@.len();
    assert(lc.len() == n0);
    let mut j: usize = 0;
    while j < declared.len()
        invariant
            0 <= j <= declared@.len(),
            rules == column_rules(),
            d == columns_view(declared@),
            lv == columns_view(live@),
            rv == visited(rules, lv),
            lc == live_changes(rules, d, lv),
            column_changes(ops@) == lc + missing_changes(rules, d.subrange(0, j as int), rv),
            forall|k: int| 0 <= k < ops@.len() ==> !(#[trigger] ops@[k] is CreateTable),
            n0 == lc.len(),
            ops@.len() >= n0,
            forall|k: int| 0 <= k < ops@.len() ==> ((#[trigger] ops@[k] is AddColumn) <==> k >= n0),
        decreases declared.len() - j,
    {
        let ghost before = ops@;
        if !has_column_named(live, &declared[j].name) {
            ops.push(TableOperation::AddColumn(declared[j].duplicate()));
            proof {
                lemma_changes_push(before, ops@.last());
                assert(ops@ == before.push(ops@.last()));
            }
        }
        proof {
            assert(d.subrange(0, j + 1).drop_last() =~= d.subrange(0, j as int));
            assert(d.subrange(0, j + 1).last() == declared@[j as int]@);
            let tail = if rv.contains(declared@[j as int]@.name) {
                Seq::<Change<SQLColumnV>>::empty()
            } else {
                seq![Change::Put(declared@[j as int]@)]
            };
            assert(column_changes(ops@) =~= column_changes(before) + tail);
        }
        j = j + 1;
    }
    assert(d.subrange(0, d.len() as int) =~= d);
    ops
}

/// The changes that bring a model's table to its declaration: nothing for
/// a virtual model, the whole table where it is missing, else the column
/// changes.
pub fn plan_table(dialect: SQLDialect, model: &Model, table_exists: bool, live: &Vec<SQLColumn>) -> (r: Vec<TableOperation>)
    ensures
        model.is_virtual ==> r@.len() == 0,
        !model.is_virtual && !table_exists ==> r@.len() == 1 && r@[0] is CreateTable && columns_view(
            r@[0]->CreateTable_0@,
        ) == declared_columns(dialect, *model),
        !model.is_virtual && table_exists ==> column_changes(r@) == reconcile_changes(
            column_rules(),
            declared_columns(dialect, *model),
            columns_view(live@),
        ),
{
    if model.is_virtual {
        Vec::new()
    } else if !table_exists {
        let mut r: Vec<TableOperation> = Vec::new();
        r.push(TableOperation::CreateTable(model_columns(dialect, model)));
        r
    } else {
        reconcile_columns(dialect, model, live)
    }
}

/// Column reconciliation is idempotent: after the column changes have been
/// made, reconciling the model against any listing of the table's columns
/// yields no change. Column names are unique among the declared columns and
/// in each listing.
pub proof fn lemma_column_reconcile_idempotent(
    dialect: SQLDialect,
    model: Model,
    live: Seq<SQLColumnV>,
    relisted: Seq<SQLColumnV>,
)
    requires
        unique_names(column_rules().name_of, declared_columns(dialect, model)),
        unique_names(column_rules().name_of, live),
        unique_names(column_rules().name_of, relisted),
        state_of(column_rules().name_of, relisted) == apply_changes(
            column_rules().name_of,
            state_of(column_rules().name_of, live),
            reconcile_changes(column_rules(), declared_columns(dialect, model), live),
        ),
    ensures
        reconcile_changes(column_rules(), declared_columns(dialect, model), relisted) == Seq::<
            Change<SQLColumnV>,
        >::empty(),
{
    lemma_reconcile_idempotent(column_rules(), declared_columns(dialect, model), live, relisted);
}

/// A name quoted as the dialect quotes identifiers.
pub open spec fn quoted(dialect: SQLDialect, name: Seq<char>) -> Seq<char> {
    if dialect == SQLDialect::PostgreSQL {
        "\""@ + name + "\""@
    } else {
        "`"@ + name + "`"@
    }
}

fn quote(dialect: SQLDialect, name: &str) -> (r: String)
    ensures
        r@ == quoted(dialect, name@),
{
    let q = if dialect == SQLDialect::PostgreSQL { "\"" } else { "`" };
    let mut r = q.to_string();
    r.append(name);
    r.append(q);
    r
}

/// A column definition: quoted name, type, then the constraints that
/// hold.
pub open spec fn column_text(dialect: SQLDialect, c: SQLColumnV) -> Seq<char> {
    quoted(dialect, c.name) + " "@ + c.column_type + (if c.not_null { " NOT NULL"@ } else { " NULL"@ }) + (if c.auto_increment {
        if dialect == SQLDialect::MySQL { " AUTO_INCREMENT"@ } else { Seq::empty() }
    } else {
        Seq::empty()
    }) + (if c.primary_key { " PRIMARY KEY"@ } else { Seq::empty() })
}

impl SQLColumn {
    /// This column's definition in the dialect.
    pub fn to_sql(&self, dialect: SQLDialect) -> (r: String)
        ensures
            r@ == column_text(dialect, self@),
    {
        let mut r = quote(dialect, self.name.as_str());
        r.append(" ");
        r.append(self.column_type.as_str());
        r.append(if self.not_null { " NOT NULL" } else { " NULL" });
        if self.auto_increment && dialect == SQLDialect::MySQL {
            r.append(" AUTO_INCREMENT");
        }
        if self.primary_key {
            r.append(" PRIMARY KEY");
        }
        proof {
            reveal_strlit("");
        }
        assert(r@ =~= column_text(dialect, self@));
        r
    }
}

/// Selecting a database.
pub struct SQLUseStatement {}

pub struct SQLUseDatabaseStatement {
    pub database: String,
}

impl SQLUseStatement {
    pub fn database(&self, database: &str) -> (r: SQLUseDatabaseStatement)
        ensures
            r.database@ == database@,
    {
        SQLUseDatabaseStatement { database: database.to_string() }
    }
}

impl SQLUseDatabaseStatement {
    /// PostgreSQL has no `USE`: it selects the schema search path instead.
    pub fn to_sql(&self, dialect: SQLDialect) -> (r: String)
        ensures
            dialect == SQLDialect::PostgreSQL ==> r@ == "SET search_path TO "@ + self.database@,
            dialect != SQLDialect::PostgreSQL ==> r@ == "USE "@ + quoted(dialect, self.database@),
    {
        if dialect == SQLDialect::PostgreSQL {
            let mut r = "SET search_path TO ".to_string();
            r.append(self.database.as_str());
            r
        } else {
            let mut r = "USE ".to_string();
            let q = quote(dialect, self.database.as_str());
            r.append(q.as_str());
            r
        }
    }
}

/// Changing a table.
pub struct SQLAlterTableStatement {
    pub table: String,
}

pub struct SQLAlterTableDropColumnStatement {
    pub table: String,
    pub column: String,
}

pub struct SQLAlterTableModifyStatement {
    pub table: String,
    pub column_def: SQLColumn,
}

pub struct SQLAlterTableAddStatement {
    pub table: String,
    pub column_def: SQLColumn,
}

impl SQLAlterTableStatement {
    pub fn drop_column(&self, column: &str) -> (r: SQLAlterTableDropColumnStatement)
        ensures
            r.table@ == self.table@,
            r.column@ == column@,
    {
        SQLAlterTableDropColumnStatement { table: self.table.clone(), column: column.to_string() }
    }

    pub fn modify(&self, column_def: SQLColumn) -> (r: SQLAlterTableModifyStatement)
        ensures
            r.table@ == self.table@,
            r.column_def == column_def,
    {
        SQLAlterTableModifyStatement { table: self.table.clone(), column_def }
    }

    pub fn add(&self, column_def: SQLColumn) -> (r: SQLAlterTableAddStatement)
        ensures
            r.table@ == self.table@,
            r.column_def == column_def,
    {
        SQLAlterTableAddStatement { table: self.table.clone(), column_def }
    }
}

impl SQLAlterTableDropColumnStatement {
    pub fn to_sql(&self, dialect: SQLDialect) -> (r: String)
        ensures
            r@ == "ALTER TABLE "@ + quoted(dialect, self.table@) + " DROP COLUMN "@ + quoted(dialect, self.column@),
    {
        let mut r = "ALTER TABLE ".to_string();
        r.append(quote(dialect, self.table.as_str()).as_str());
        r.append(" DROP COLUMN ");
        r.append(quote(dialect, self.column.as_str()).as_str());
        r
    }
}

impl SQLAlterTableModifyStatement {
    /// PostgreSQL changes a column's type with `ALTER COLUMN ... TYPE`.
    pub fn to_sql(&self, dialect: SQLDialect) -> (r: String)
        ensures
            dialect == SQLDialect::PostgreSQL ==> r@ == "ALTER TABLE "@ + quoted(dialect, self.table@)
                + " ALTER COLUMN "@ + quoted(dialect, self.column_def.name@) + " TYPE "@
                + self.column_def.column_type@,
            dialect != SQLDialect::PostgreSQL ==> r@ == "ALTER TABLE "@ + quoted(dialect, self.table@)
                + " MODIFY "@ + column_text(dialect, self.column_def@),
    {
        let mut r = "ALTER TABLE ".to_string();
        r.append(quote(dialect, self.table.as_str()).as_str());
        if dialect == SQLDialect::PostgreSQL {
            r.append(" ALTER COLUMN ");
            r.append(quote(dialect, self.column_def.name.as_str()).as_str());
            r.append(" TYPE ");
            r.append(self.column_def.column_type.as_str());
        } else {
            r.append(" MODIFY ");
            r.append(self.column_def.to_sql(dialect).as_str());
        }
        r
    }
}

impl SQLAlterTableAddStatement {
    pub fn to_sql(&self, dialect: SQLDialect) -> (r: String)
        ensures
            r@ == "ALTER TABLE "@ + quoted(dialect, self.table@) + " ADD "@ + column_text(dialect, self.column_def@),
    {
        let mut r = "ALTER TABLE ".to_string();
        r.append(quote(dialect, self.table.as_str()).as_str());
        r.append(" ADD ");
        r.append(self.column_def.to_sql(dialect).as_str());
        r
    }
}

/// The column definitions joined by commas.
pub open spec fn columns_text(dialect: SQLDialect, cs: Seq<SQLColumnV>) -> Seq<char>
    decreases cs.len(),
{
    if cs.len() == 0 {
        Seq::empty()
    } else if cs.len() == 1 {
        column_text(dialect, cs[0])
    } else {
        columns_text(dialect, cs.drop_last()) + ", "@ + column_text(dialect, cs.last())
    }
}

/// `CREATE TABLE` for the given columns.
pub fn create_table_sql(dialect: SQLDialect, table: &str, columns: &Vec<SQLColumn>) -> (r: String)
    ensures
        r@ == "CREATE TABLE IF NOT EXISTS "@ + quoted(dialect, table@) + " ("@ + columns_text(
            dialect,
            columns_view(columns@),
        ) + ")"@,
{
    let mut body = String::new();
    let mut i: usize = 0;
    while i < columns.len()
        invariant
            0 <= i <= columns@.len(),
            body@ == columns_text(dialect, columns_view(columns@).subrange(0, i as int)),
        decreases columns.len() - i,
    {
        if i > 0 {
            body.append(", ");
        }
        body.append(columns[i].to_sql(dialect).as_str());
        proof {
            let s = columns_view(columns@).subrange(0, i + 1);
            assert(s.drop_last() =~= columns_view(columns@).subrange(0, i as int));
            if i == 0 {
                assert(body@ =~= column_text(dialect, s[0]));
            }
        }
        i = i + 1;
    }
    assert(columns_view(columns@).subrange(0, columns@.len() as int) =~= columns_view(columns@));
    let mut r = "CREATE TABLE IF NOT EXISTS ".to_string();
    r.append(quote(dialect, table).as_str());
    r.append(" (");
    r.append(body.as_str());
    r.append(")");
    r
}

/// The statement that carries out a table change.
pub fn operation_sql(dialect: SQLDialect, table: &str, op: TableOperation) -> (r: String)
    ensures
        match op {
            TableOperation::CreateTable(cs) => r@ == "CREATE TABLE IF NOT EXISTS "@ + quoted(dialect, table@) + " ("@
                + columns_text(dialect, columns_view(cs@)) + ")"@,
            TableOperation::DropColumn(c) => r@ == "ALTER TABLE "@ + quoted(dialect, table@) + " DROP COLUMN "@
                + quoted(dialect, c@),
            TableOperation::AddColumn(c) => r@ == "ALTER TABLE "@ + quoted(dialect, table@) + " ADD "@
                + column_text(dialect, c@),
            TableOperation::ModifyColumn(c) => if dialect == SQLDialect::PostgreSQL {
                r@ == "ALTER TABLE "@ + quoted(dialect, table@) + " ALTER COLUMN "@ + quoted(dialect, c.name@) + " TYPE "@
                    + c.column_type@
            } else {
                r@ == "ALTER TABLE "@ + quoted(dialect, table@) + " MODIFY "@ + column_text(dialect, c@)
            },
        },
{
    let alter = SQLAlterTableStatement { table: table.to_string() };
    match op {
        TableOperation::CreateTable(cs) => create_table_sql(dialect, table, &cs),
        TableOperation::DropColumn(c) => alter.drop_column(c.as_str()).to_sql(dialect),
        TableOperation::AddColumn(c) => alter.add(c).to_sql(dialect),
        TableOperation::ModifyColumn(c) => alter.modify(c).to_sql(dialect),
    }
}

/// The statements that prepare the database: drop it first where asked,
/// create it where it is missing, and select it. PostgreSQL cannot create
/// a database only if it is missing, so `present` says whether it is there;
/// the other dialects ask the server.
pub fn database_setup_sql(dialect: SQLDialect, database: &str, reset: bool, present: bool) -> (r: Vec<String>)
    ensures
        r@.len() == (if reset { 1int } else { 0 }) + (if dialect == SQLDialect::PostgreSQL && present && !reset { 0int } else { 1 }) + 1,
        reset ==> r@[0]@ == "DROP DATABASE IF EXISTS "@ + quoted(dialect, database@),
        dialect != SQLDialect::PostgreSQL ==> r@[r@.len() - 2]@ == "CREATE DATABASE IF NOT EXISTS "@ + quoted(
            dialect,
            database@,
        ),
        dialect == SQLDialect::PostgreSQL && (!present || reset) ==> r@[r@.len() - 2]@ == "CREATE DATABASE "@
            + quoted(dialect, database@),
        r@.last()@ == (if dialect == SQLDialect::PostgreSQL {
            "SET search_path TO "@ + database@
        } else {
            "USE "@ + quoted(dialect, database@)
        }),
{
    let mut r: Vec<String> = Vec::new();
    if reset {
        let mut s = "DROP DATABASE IF EXISTS ".to_string();
        s.append(quote(dialect, database).as_str());
        r.push(s);
    }
    if dialect == SQLDialect::PostgreSQL {
        if !present || reset {
            let mut s = "CREATE DATABASE ".to_string();
            s.append(quote(dialect, database).as_str());
            r.push(s);
        }
    } else {
        let mut s = "CREATE DATABASE IF NOT EXISTS ".to_string();
        s.append(quote(dialect, database).as_str());
        r.push(s);
    }
    let u = SQLUseStatement {};
    r.push(u.database(database).to_sql(dialect));
    r
}

/// The query whose answer says whether a PostgreSQL database exists.
pub fn database_exists_sql(database: &str) -> (r: String)
    ensures
        r@ == "select from pg_database where datname = '"@ + database@ + "'"@,
{
    let mut r = "select from pg_database where datname = '".to_string();
    r.append(database);
    r.append("'");
    r
}

/// The query that lists a table's columns.
pub fn describe_sql(dialect: SQLDialect, table: &str) -> (r: String)
    ensures
        dialect == SQLDialect::PostgreSQL ==> r@ == "SELECT column_name, data_type, is_nullable FROM information_schema.columns WHERE table_name = '"@ + table@ + "'"@,
        dialect == SQLDialect::SQLite ==> r@ == "PRAGMA table_info("@ + quoted(dialect, table@) + ")"@,
        dialect == SQLDialect::MySQL ==> r@ == "DESCRIBE "@ + quoted(dialect, table@),
{
    match dialect {
        SQLDialect::PostgreSQL => {
            let mut r = "SELECT column_name, data_type, is_nullable FROM information_schema.columns WHERE table_name = '".to_string();
            r.append(table);
            r.append("'");
            r
        },
        SQLDialect::SQLite => {
            let mut r = "PRAGMA table_info(".to_string();
            r.append(quote(dialect, table).as_str());
            r.append(")");
            r
        },
        SQLDialect::MySQL => {
            let mut r = "DESCRIBE ".to_string();
            r.append(quote(dialect, table).as_str());
            r
        },
    }
}

/// The query that finds whether a table exists.
pub fn show_table_sql(dialect: SQLDialect, table: &str) -> (r: String)
    ensures
        dialect == SQLDialect::PostgreSQL ==> r@ == "SELECT tablename FROM pg_tables WHERE tablename = '"@ + table@ + "'"@,
        dialect == SQLDialect::SQLite ==> r@ == "SELECT name FROM sqlite_master WHERE type = 'table' AND name = '"@ + table@ + "'"@,
        dialect == SQLDialect::MySQL ==> r@ == "SHOW TABLES LIKE '"@ + table@ + "'"@,
{
    let mut r = match dialect {
        SQLDialect::PostgreSQL => "SELECT tablename FROM pg_tables WHERE tablename = '".to_string(),
        SQLDialect::SQLite => "SELECT name FROM sqlite_master WHERE type = 'table' AND name = '".to_string(),
        SQLDialect::MySQL => "SHOW TABLES LIKE '".to_string(),
    };
    r.append(table);
    r.append("'");
    r
}

/// A live column as one row of a table description reports it: its name,
/// its type (compared in upper case), `NO` where it may not be null, `PRI`
/// for the primary key, `auto_increment` where the database counts it.
pub open spec fn described_column(
    name: Seq<char>,
    column_type: Seq<char>,
    nullable: Seq<char>,
    key: Seq<char>,
    extra: Seq<char>,
) -> SQLColumnV {
    SQLColumnV {
        name,
        column_type: uppercase_of(column_type),
        not_null: nullable == "NO"@,
        auto_increment: extra == "auto_increment"@,
        primary_key: key == "PRI"@,
    }
}

/// The live column that a row of a table description reports.
pub fn column_from_description(name: &str, column_type: &str, nullable: &str, key: &str, extra: &str) -> (r: SQLColumn)
    ensures
        r@ == described_column(name@, column_type@, nullable@, key@, extra@),
{
    SQLColumn {
        name: name.to_string(),
        column_type: uppercase(column_type),
        not_null: str_eq(nullable, "NO"),
        auto_increment: str_eq(extra, "auto_increment"),
        primary_key: str_eq(key, "PRI"),
    }
}

/// The live column that one row of a dialect's table description reports,
/// its cells read as text: MySQL's `DESCRIBE` gives name, type, nullable,
/// key, default and extra; PostgreSQL's column listing gives name, type and
/// nullable; SQLite's `table_info` gives position, name, type, not-null
/// flag, default and primary-key flag. None where the row is too short.
pub open spec fn row_column(dialect: SQLDialect, cells: Seq<Seq<char>>) -> Option<SQLColumnV> {
    match dialect {
        SQLDialect::MySQL => if cells.len() >= 6 {
            Some(described_column(cells[0], cells[1], cells[2], cells[3], cells[5]))
        } else {
            None
        },
        SQLDialect::PostgreSQL => if cells.len() >= 3 {
            Some(described_column(cells[0], cells[1], cells[2], Seq::empty(), Seq::empty()))
        } else {
            None
        },
        SQLDialect::SQLite => if cells.len() >= 6 {
            Some(
                SQLColumnV {
                    name: cells[1],
                    column_type: uppercase_of(cells[2]),
                    not_null: cells[3] == "1"@,
                    auto_increment: false,
                    primary_key: cells[5] == "1"@,
                },
            )
        } else {
            None
        },
    }
}

pub open spec fn cells_view(cells: Seq<String>) -> Seq<Seq<char>> {
    cells.map_values(|c: String| c@)
}

/// The live column that a row of the dialect's table description reports.
pub fn column_from_row(dialect: SQLDialect, cells: &Vec<String>) -> (r: Option<SQLColumn>)
    ensures
        match row_column(dialect, cells_view(cells@)) {
            Some(c) => r is Some && r->Some_0@ == c,
            None => r is None,
        },
{
    proof {
        reveal_strlit("");
    }
    match dialect {
        SQLDialect::MySQL => {
            if cells.len() < 6 {
                return None;
            }
            Some(
                column_from_description(
                    cells[0].as_str(),
                    cells[1].as_str(),
                    cells[2].as_str(),
                    cells[3].as_str(),
                    cells[5].as_str(),
                ),
            )
        },
        SQLDialect::PostgreSQL => {
            if cells.len() < 3 {
                return None;
            }
            let c = column_from_description(cells[0].as_str(), cells[1].as_str(), cells[2].as_str(), "", "");
            assert(""@ =~= Seq::<char>::empty());
            Some(c)
        },
        SQLDialect::SQLite => {
            if cells.len() < 6 {
                return None;
            }
            Some(
                SQLColumn {
                    name: cells[1].clone(),
                    column_type: uppercase(cells[2].as_str()),
                    not_null: str_eq(cells[3].as_str(), "1"),
                    auto_increment: false,
                    primary_key: str_eq(cells[5].as_str(), "1"),
                },
            )
        },
    }
}

} // verus!
