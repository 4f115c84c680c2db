use vstd::prelude::*;
use crate::field::{column_of, Field, Sort};
use crate::search::{first_index, lemma_first_index, str_eq};

verus! {

/// A relation from the owning model to the model named `model`: the
/// `i`-th local field is paired with the `i`-th referenced field.
#[derive(Debug)]
pub struct Relation {
    pub name: String,
    pub model: String,
    pub fields: Vec<String>,
    pub references: Vec<String>,
}

impl Relation {
    pub open spec fn wf(&self) -> bool {
        &&& self.fields@.len() == self.references@.len()
        &&& self.fields@.len() >= 1
    }
}

#[derive(Debug, Clone, Copy, PartialEq, Eq, Structural)]
pub enum ModelIndexType {
    Primary,
    Unique,
    Index,
}

/// One member of an index: a field, its sort order, and an optional
/// prefix length.
#[derive(Debug)]
pub struct IndexItem {
    pub field_name: String,
    pub sort: Sort,
    pub length: Option<usize>,
}

/// A named index over an ordered list of fields.
#[derive(Debug)]
pub struct ModelIndex {
    pub index_type: ModelIndexType,
    pub name: String,
    pub items: Vec<IndexItem>,
}

/// Two index members are the same field with the same order and length.
pub open spec fn same_item(a: IndexItem, b: IndexItem) -> bool {
    a.field_name@ == b.field_name@ && a.sort == b.sort && a.length == b.length
}

/// Two indices have the same structure: the same kind and the same members
/// in the same order. Their names are not compared.
pub open spec fn same_definition(a: ModelIndex, b: ModelIndex) -> bool {
    &&& a.index_type == b.index_type
    &&& a.items@.len() == b.items@.len()
    &&& forall|i: int| 0 <= i < a.items@.len() ==> same_item(#[trigger] a.items@[i], b.items@[i])
}

impl ModelIndex {
    /// Whether `other` has the same kind and members as this index.
    pub fn same_as(&self, other: &ModelIndex) -> (r: bool)
        ensures
            r == same_definition(*self, *other),
    {
        if self.index_type != other.index_type || self.items.len() != other.items.len() {
            return false;
        }
        let mut i: usize = 0;
        while i < self.items.len()
            invariant
                0 <= i <= self.items@.len(),
                self.items@.len() == other.items@.len(),
                self.index_type == other.index_type,
                forall|j: int| 0 <= j < i ==> same_item(#[trigger] self.items@[j], other.items@[j]),
            decreases self.items.len() - i,
        {
            let a = &self.items[i];
            let b = &other.items[i];
            if a.field_name != b.field_name || a.sort != b.sort || a.length != b.length {
                return false;
            }
            i = i + 1;
        }
        true
    }
}

/// A declared model: its fields, relations and indices, and the table or
/// collection that stores it. A virtual model is not persisted.
#[derive(Debug)]
pub struct Model {
    pub name: String,
    pub table_name: String,
    pub fields: Vec<Field>,
    pub relations: Vec<Relation>,
    pub indices: Vec<ModelIndex>,
    pub is_virtual: bool,
}

/// The registry of all models.
#[derive(Debug)]
pub struct Graph {
    pub models: Vec<Model>,
}

pub open spec fn field_position(m: Model, name: Seq<char>) -> Option<int> {
    first_index(m.fields@, |f: Field| f.name@ == name)
}

pub open spec fn column_position(m: Model, column: Seq<char>) -> Option<int> {
    first_index(m.fields@, |f: Field| column_of(f) == column)
}

pub open spec fn relation_position(m: Model, name: Seq<char>) -> Option<int> {
    first_index(m.relations@, |r: Relation| r.name@ == name)
}

pub open spec fn model_position(g: Graph, name: Seq<char>) -> Option<int> {
    first_index(g.models@, |m: Model| m.name@ == name)
}

/// The model of the graph called `name`.
pub open spec fn spec_model(g: Graph, name: Seq<char>) -> Option<Model> {
    match model_position(g, name) {
        Some(i) => Some(g.models@[i]),
        None => None,
    }
}

/// The relation of the model called `name`.
pub open spec fn spec_relation(m: Model, name: Seq<char>) -> Option<Relation> {
    match relation_position(m, name) {
        Some(i) => Some(m.relations@[i]),
        None => None,
    }
}

/// The field of the model stored in the column `column`.
pub open spec fn spec_field_with_column(m: Model, column: Seq<char>) -> Option<Field> {
    match column_position(m, column) {
        Some(i) => Some(m.fields@[i]),
        None => None,
    }
}

/// The field of the model called `name`.
pub open spec fn spec_field(m: Model, name: Seq<char>) -> Option<Field> {
    match field_position(m, name) {
        Some(i) => Some(m.fields@[i]),
        None => None,
    }
}

impl Model {
    /// The first field called `name`.
    pub fn field(&self, name: &str) -> (r: Option<&Field>)
        ensures
            match spec_field(*self, name@) {
                Some(x) => r == Some(&x),
                None => r is None,
            },
    {
        let ghost p = |x: Field| x.name@ == name@;
        proof {
            lemma_first_index(self.fields@, p);
        }
        let mut i: usize = 0;
        while i < self.fields.len()
            invariant
                0 <= i <= self.fields@.len(),
                forall|j: int| 0 <= j < i ==> !p(#[trigger] self.fields@[j]),
                p == (|x: Field| x.name@ == name@),
                match first_index(self.fields@, p) {
                    Some(k) => 0 <= k < self.fields@.len() && p(self.fields@[k]) && forall|j: int|
                        0 <= j < k ==> !p(#[trigger] self.fields@[j]),
                    None => forall|j: int| 0 <= j < self.fields@.len() ==> !p(#[trigger] self.fields@[j]),
                },
            decreases self.fields.len() - i,
        {
            if str_eq(self.fields[i].name.as_str(), name) {
                assert(first_index(self.fields@, p) == Some(i as int));
                return Some(&self.fields[i]);
            }
            i = i + 1;
        }
        None
    }

    /// The first field stored in the column `column`.
    pub fn field_with_column_name(&self, column: &str) -> (r: Option<&Field>)
        ensures
            match spec_field_with_column(*self, column@) {
                Some(x) => r == Some(&x),
                None => r is None,
            },
    {
        let ghost p = |x: Field| column_of(x) == column@;
        proof {
            lemma_first_index(self.fields@, p);
        }
        let mut i: usize = 0;
        while i < self.fields.len()
            invariant
                0 <= i <= self.fields@.len(),
                forall|j: int| 0 <= j < i ==> !p(#[trigger] self.fields@[j]),
                p == (|x: Field| column_of(x) == column@),
                match first_index(self.fields@, p) {
                    Some(k) => 0 <= k < self.fields@.len() && p(self.fields@[k]) && forall|j: int|
                        0 <= j < k ==> !p(#[trigger] self.fields@[j]),
                    None => forall|j: int| 0 <= j < self.fields@.len() ==> !p(#[trigger] self.fields@[j]),
                },
            decreases self.fields.len() - i,
        {
            if str_eq(self.fields[i].column_name(), column) {
                assert(first_index(self.fields@, p) == Some(i as int));
                return Some(&self.fields[i]);
            }
            i = i + 1;
        }
        None
    }

    /// The first relation called `name`.
    pub fn relation(&self, name: &str) -> (r: Option<&Relation>)
        ensures
            match spec_relation(*self, name@) {
                Some(x) => r == Some(&x),
                None => r is None,
            },
    {
        let ghost p = |x: Relation| x.name@ == name@;
        proof {
            lemma_first_index(self.relations@, p);
        }
        let mut i: usize = 0;
        while i < self.relations.len()
            invariant
                0 <= i <= self.relations@.len(),
                forall|j: int| 0 <= j < i ==> !p(#[trigger] self.relations@[j]),
                p == (|x: Relation| x.name@ == name@),
                match first_index(self.relations@, p) {
                    Some(k) => 0 <= k < self.relations@.len() && p(self.relations@[k]) && forall|j: int|
                        0 <= j < k ==> !p(#[trigger] self.relations@[j]),
                    None => forall|j: int| 0 <= j < self.relations@.len() ==> !p(#[trigger] self.relations@[j]),
                },
            decreases self.relations.len() - i,
        {
            if str_eq(self.relations[i].name.as_str(), name) {
                assert(first_index(self.relations@, p) == Some(i as int));
                return Some(&self.relations[i]);
            }
            i = i + 1;
        }
        None
    }
}

impl Graph {
    /// The first model called `name`.
    pub fn model(&self, name: &str) -> (r: Option<&Model>)
        ensures
            match spec_model(*self, name@) {
                Some(x) => r == Some(&x),
                None => r is None,
            },
    {
        let ghost p = |x: Model| x.name@ == name@;
        proof {
            lemma_first_index(self.models@, p);
        }
        let mut i: usize = 0;
        while i < self.models.len()
            invariant
                0 <= i <= self.models@.len(),
                forall|j: int| 0 <= j < i ==> !p(#[trigger] self.models@[j]),
                p == (|x: Model| x.name@ == name@),
                match first_index(self.models@, p) {
                    Some(k) => 0 <= k < self.models@.len() && p(self.models@[k]) && forall|j: int|
                        0 <= j < k ==> !p(#[trigger] self.models@[j]),
                    None => forall|j: int| 0 <= j < self.models@.len() ==> !p(#[trigger] self.models@[j]),
                },
            decreases self.models.len() - i,
        {
            if str_eq(self.models[i].name.as_str(), name) {
                assert(first_index(self.models@, p) == Some(i as int));
                return Some(&self.models[i]);
            }
            i = i + 1;
        }
        None
    }
}

} // verus!
