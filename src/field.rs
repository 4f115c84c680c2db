use vstd::prelude::*;
use crate::pipeline::Pipeline;
use crate::value::Value;

verus! {

#[derive(Debug, Clone, Copy, PartialEq, Eq, Structural)]
pub enum Optionality {
    Optional,
    Required,
}

#[derive(Debug, Clone, Copy, PartialEq, Eq, Structural)]
pub enum ReadRule {
    Read,
    NoRead,
}

#[derive(Debug, Clone, Copy, PartialEq, Eq, Structural)]
pub enum WriteRule {
    Write,
    NoWrite,
    WriteOnce,
    WriteOnCreate,
    WriteNonNull,
}

#[derive(Debug, Clone, Copy, PartialEq, Eq, Structural)]
pub enum DeleteRule {
    Nullify,
    Cascade,
    Deny,
}

#[derive(Debug, Clone, Copy, PartialEq, Eq, Structural)]
pub enum QueryAbility {
    Queryable,
    Unqueryable,
}

#[derive(Debug, Clone, Copy, PartialEq, Eq, Structural)]
pub enum ObjectAssignment {
    Reference,
    Copy,
}

#[derive(Debug, Clone, Copy, PartialEq, Eq, Structural)]
pub enum Sort {
    Asc,
    Desc,
}

/// How a field takes part in an index: its sort order and an optional
/// prefix length.
#[derive(Debug, Clone, Copy, PartialEq, Eq, Structural)]
pub struct IndexSettings {
    pub sort: Sort,
    pub length: Option<usize>,
}

impl IndexSettings {
    pub fn default() -> (r: Self)
        ensures
            r.sort == Sort::Asc,
            r.length is None,
    {
        IndexSettings { sort: Sort::Asc, length: None }
    }
}

/// How a field is indexed: alone, or together with the other fields that
/// name the same compound key.
#[derive(Debug, Clone, Copy)]
pub enum FieldIndex {
    NoIndex,
    Index(IndexSettings),
    Unique(IndexSettings),
    CompoundIndex(&'static str),
    CompoundUnique(&'static str),
}

/// Where a field's value lives.
#[derive(Debug, Clone, Copy)]
pub enum Store {
    Embedded,
    LocalKey,
    ForeignKey(&'static str),
    Temp,
    Calculated,
}

/// The declared type of a field. A sequence or map field declares the
/// field that describes its items.
#[derive(Debug)]
pub enum FieldType {
    Undefined,
    ObjectId,
    Bool,
    I8,
    I16,
    I32,
    I64,
    I128,
    U8,
    U16,
    U32,
    U64,
    U128,
    F32,
    F64,
    Decimal,
    String,
    Date,
    DateTime,
    Enum(&'static str),
    Vec(Box<Field>),
    Dictionary(Box<Field>),
    Object(&'static str),
}

/// A field's default: a value, or a pipeline that computes one.
#[derive(Debug)]
pub enum Argument {
    ValueArgument(Value),
    PipelineArgument(Pipeline),
}

/// A declared field of a model.
#[derive(Debug)]
pub struct Field {
    pub name: String,
    pub localized_name: String,
    pub description: String,
    pub field_type: FieldType,
    pub optionality: Optionality,
    pub store: Store,
    pub atomic: bool,
    pub primary: bool,
    pub read_rule: ReadRule,
    pub write_rule: WriteRule,
    pub index: FieldIndex,
    pub query_ability: QueryAbility,
    pub object_assignment: ObjectAssignment,
    pub auto: bool,
    pub auto_increment: bool,
    pub auth_identity: bool,
    pub dropped: bool,
    pub default: Option<Argument>,
    pub on_set_pipeline: Pipeline,
    pub on_save_pipeline: Pipeline,
    pub on_output_pipeline: Pipeline,
    pub column_name: Option<String>,
}

/// The storage column of a field: its own column name, or else its name.
pub open spec fn column_of(f: Field) -> Seq<char> {
    match f.column_name {
        Some(c) => c@,
        None => f.name@,
    }
}

/// A field is persisted unless it is temporary or calculated.
pub open spec fn persisted(f: Field) -> bool {
    !(f.store is Temp) && !(f.store is Calculated)
}

/// The field, or the item field of a sequence field at any depth, has an
/// on-save pipeline with a modifier.
pub open spec fn needs_save_callback(f: Field) -> bool
    decreases f,
{
    f.on_save_pipeline.modifiers@.len() > 0 || match f.field_type {
        FieldType::Vec(inner) => needs_save_callback(*inner),
        _ => false,
    }
}

/// As `needs_save_callback`, for the on-output pipeline.
pub open spec fn needs_output_callback(f: Field) -> bool
    decreases f,
{
    f.on_output_pipeline.modifiers@.len() > 0 || match f.field_type {
        FieldType::Vec(inner) => needs_output_callback(*inner),
        _ => false,
    }
}

impl Field {
    pub fn name(&self) -> (r: &str)
        ensures
            r@ == self.name@,
    {
        self.name.as_str()
    }

    pub fn localized_name(&self) -> (r: &str)
        ensures
            r@ == self.localized_name@,
    {
        self.localized_name.as_str()
    }

    pub fn description(&self) -> (r: &str)
        ensures
            r@ == self.description@,
    {
        self.description.as_str()
    }

    pub fn column_name(&self) -> (r: &str)
        ensures
            r@ == column_of(*self),
    {
        match &self.column_name {
            Some(c) => c.as_str(),
            None => self.name.as_str(),
        }
    }

    pub fn is_optional(&self) -> (r: bool)
        ensures
            r == (self.optionality == Optionality::Optional),
    {
        self.optionality == Optionality::Optional
    }

    pub fn needs_on_save_callback(&self) -> (r: bool)
        ensures
            r == needs_save_callback(*self),
        decreases *self,
    {
        if self.on_save_pipeline.has_any_modifier() {
            return true;
        }
        match &self.field_type {
            FieldType::Vec(inner) => inner.needs_on_save_callback(),
            _ => false,
        }
    }

    pub fn needs_on_output_callback(&self) -> (r: bool)
        ensures
            r == needs_output_callback(*self),
        decreases *self,
    {
        if self.on_output_pipeline.has_any_modifier() {
            return true;
        }
        match &self.field_type {
            FieldType::Vec(inner) => inner.needs_on_output_callback(),
            _ => false,
        }
    }
}

} // verus!
