use vstd::prelude::*;
use crate::convergence::{
    item_changes, lemma_reconcile_idempotent, live_changes, missing_changes, reconcile_changes,
    visited, state_of, apply_changes, unique_names, find_named, named, is_skipped, Change, Rules,
};
use crate::field::{column_of, Sort};
use crate::model::{spec_field, IndexItem, Model, ModelIndex, ModelIndexType};
use crate::search::{first_index, lemma_first_index, str_eq};

verus! {

/// An index as the document store keeps it: a name, whether it is unique,
/// and its keys as columns with a sort order.
#[derive(Debug)]
pub struct IndexSpec {
    pub name: String,
    pub unique: bool,
    pub keys: Vec<(String, Sort)>,
}

/// The value that an `IndexSpec` stands for.
pub struct IndexSpecV {
    pub name: Seq<char>,
    pub unique: bool,
    pub keys: Seq<(Seq<char>, Sort)>,
}

impl View for IndexSpec {
    type V = IndexSpecV;

    open spec fn view(&self) -> IndexSpecV {
        IndexSpecV {
            name: self.name@,
            unique: self.unique,
            keys: self.keys@.map_values(|k: (String, Sort)| (k.0@, k.1)),
        }
    }
}

/// A change to a collection's indices. Indices are always created sparse.
#[derive(Debug)]
pub enum IndexOperation {
    DropIndex(String),
    CreateIndex(IndexSpec),
}

pub open spec fn op_view(op: IndexOperation) -> Change<IndexSpecV> {
    match op {
        IndexOperation::DropIndex(n) => Change::Drop(n@),
        IndexOperation::CreateIndex(s) => Change::Put(s@),
    }
}

pub open spec fn ops_view(ops: Seq<IndexOperation>) -> Seq<Change<IndexSpecV>> {
    ops.map_values(|op: IndexOperation| op_view(op))
}

pub open spec fn specs_view(s: Seq<IndexSpec>) -> Seq<IndexSpecV> {
    s.map_values(|x: IndexSpec| x@)
}

/// The name of the index that the store keeps on the primary key; it is
/// never visited.
pub open spec fn key_index_name() -> Seq<char> {
    "_id_"@
}

/// How indices are reconciled: by name, a changed index is dropped and
/// created again, and the primary-key index is left alone.
pub open spec fn index_rules() -> Rules<IndexSpecV> {
    Rules { name_of: |x: IndexSpecV| x.name, drop_then_put: true, skipped: Some(key_index_name()) }
}

/// Every index of the model names fields of the model.
pub open spec fn indices_wf(m: Model) -> bool {
    forall|i: int, j: int|
        0 <= i < m.indices@.len() && 0 <= j < m.indices@[i].items@.len() ==> spec_field(
            m,
            (#[trigger] m.indices@[i].items@[j]).field_name@,
        ) is Some
}

/// The stored form of a declared index: unique for the unique and primary
/// kinds, keyed by the columns of its fields.
pub open spec fn declared_spec(m: Model, ix: ModelIndex) -> IndexSpecV {
    IndexSpecV {
        name: ix.name@,
        unique: ix.index_type == ModelIndexType::Unique || ix.index_type == ModelIndexType::Primary,
        keys: ix.items@.map_values(
            |it: IndexItem| (column_of(spec_field(m, it.field_name@)->Some_0), it.sort),
        ),
    }
}

pub open spec fn declared_specs(m: Model) -> Seq<IndexSpecV> {
    m.indices@.map_values(|ix: ModelIndex| declared_spec(m, ix))
}

/// The stored form of a declared index of the model.
pub fn index_spec(model: &Model, index: &ModelIndex) -> (r: IndexSpec)
    requires
        forall|j: int| 0 <= j < index.items@.len() ==> spec_field(*model, (#[trigger] index.items@[j]).field_name@) is Some,
    ensures
        r@ == declared_spec(*model, *index),
{
    let mut keys: Vec<(String, Sort)> = Vec::new();
    let mut j: usize = 0;
    while j < index.items.len()
        invariant
            0 <= j <= index.items@.len(),
            forall|k: int| 0 <= k < index.items@.len() ==> spec_field(*model, (#[trigger] index.items@[k]).field_name@) is Some,
            keys@.len() == j,
            forall|k: int|
                0 <= k < j ==> (#[trigger] keys@[k]).0@ == column_of(spec_field(*model, index.items@[k].field_name@)->Some_0)
                    && keys@[k].1 == index.items@[k].sort,
        decreases index.items.len() - j,
    {
        let item = &index.items[j];
        let field = model.field(item.field_name.as_str()).unwrap();
        keys.push((field.column_name().to_string(), item.sort));
        j = j + 1;
    }
    let unique = index.index_type == ModelIndexType::Unique || index.index_type == ModelIndexType::Primary;
    let r = IndexSpec { name: index.name.clone(), unique, keys };
    assert(r@.keys =~= declared_spec(*model, *index).keys);
    r
}

impl IndexSpec {
    /// A copy of this index.
    pub fn duplicate(&self) -> (r: IndexSpec)
        ensures
            r@ == self@,
    {
        let mut keys: Vec<(String, Sort)> = Vec::new();
        let mut j: usize = 0;
        while j < self.keys.len()
            invariant
                0 <= j <= self.keys@.len(),
                keys@.len() == j,
                forall|k: int| 0 <= k < j ==> (#[trigger] keys@[k]).0@ == self.keys@[k].0@ && keys@[k].1 == self.keys@[k].1,
            decreases self.keys.len() - j,
        {
            keys.push((self.keys[j].0.clone(), self.keys[j].1));
            j = j + 1;
        }
        let r = IndexSpec { name: self.name.clone(), unique: self.unique, keys };
        assert(r@.keys =~= self@.keys);
        r
    }

    /// Whether the two indices stand for the same value.
    pub fn same_as(&self, other: &IndexSpec) -> (r: bool)
        ensures
            r == (self@ == other@),
    {
        if self.name != other.name || self.unique != other.unique || self.keys.len() != other.keys.len() {
            assert(self@.name != other@.name || self@.unique != other@.unique || self@.keys.len() != other@.keys.len());
            return false;
        }
        let mut j: usize = 0;
        while j < self.keys.len()
            invariant
                0 <= j <= self.keys@.len(),
                self.keys@.len() == other.keys@.len(),
                forall|k: int| 0 <= k < j ==> (#[trigger] self@.keys[k]) == other@.keys[k],
            decreases self.keys.len() - j,
        {
            if self.keys[j].0 != other.keys[j].0 || self.keys[j].1 != other.keys[j].1 {
                assert(self@.keys[j as int] != other@.keys[j as int]);
                return false;
            }
            j = j + 1;
        }
        assert(self@.keys =~= other@.keys);
        true
    }
}

/// The stored forms of the model's declared indices, in order.
pub fn declared_index_specs(model: &Model) -> (r: Vec<IndexSpec>)
    requires
        indices_wf(*model),
    ensures
        specs_view(r@) == declared_specs(*model),
{
    let mut r: Vec<IndexSpec> = Vec::new();
    let mut i: usize = 0;
    while i < model.indices.len()
        invariant
            indices_wf(*model),
            0 <= i <= model.indices@.len(),
            r@.len() == i,
            forall|k: int| 0 <= k < i ==> (#[trigger] r@[k])@ == declared_spec(*model, model.indices@[k]),
        decreases model.indices.len() - i,
    {
        let ix = &model.indices[i];
        assert forall|j: int| 0 <= j < ix.items@.len() implies spec_field(*model, (#[trigger] ix.items@[j]).field_name@) is Some by {
            assert(model.indices@[i as int].items@[j] == ix.items@[j]);
        }
        r.push(index_spec(model, ix));
        i = i + 1;
    }
    assert(specs_view(r@) =~= declared_specs(*model));
    r
}

fn find_by_name(specs: &Vec<IndexSpec>, name: &String) -> (r: Option<usize>)
    ensures
        match first_index(specs_view(specs@), named(index_rules().name_of, name@)) {
            Some(k) => r == Some(k as usize),
            None => r is None,
        },
{
    let ghost p = named(index_rules().name_of, name@);
    let ghost v = specs_view(specs@);
    proof {
        lemma_first_index(v, p);
    }
    let mut i: usize = 0;
    while i < specs.len()
        invariant
            0 <= i <= specs@.len(),
            v == specs_view(specs@),
            p == named(index_rules().name_of, name@),
            forall|j: int| 0 <= j < i ==> !p(#[trigger] v[j]),
            match first_index(v, p) {
                Some(k) => 0 <= k < v.len() && p(v[k]) && forall|j: int| 0 <= j < k ==> !p(#[trigger] v[j]),
                None => forall|j: int| 0 <= j < v.len() ==> !p(#[trigger] v[j]),
            },
        decreases specs.len() - i,
    {
        if specs[i].name == *name {
            assert(p(v[i as int]));
            assert(first_index(v, p) == Some(i as int));
            return Some(i);
        }
        assert(!p(v[i as int]));
        i = i + 1;
    }
    None
}

fn is_key_index(name: &String) -> (r: bool)
    ensures
        r == (name@ == key_index_name()),
{
    str_eq(name.as_str(), "_id_")
}

fn is_visited(live: &Vec<IndexSpec>, name: &String) -> (r: bool)
    ensures
        r == visited(index_rules(), specs_view(live@)).contains(name@),
{
    let ghost v = specs_view(live@);
    let mut i: usize = 0;
    while i < live.len()
        invariant
            0 <= i <= live@.len(),
            v == specs_view(live@),
            forall|j: int| 0 <= j < i ==> !(!is_skipped(index_rules(), v[j]) && (#[trigger] v[j]).name == name@),
        decreases live.len() - i,
    {
        if !is_key_index(&live[i].name) && live[i].name == *name {
            assert(!is_skipped(index_rules(), v[i as int]) && (index_rules().name_of)(v[i as int]) == name@);
            return true;
        }
        i = i + 1;
    }
    false
}

proof fn lemma_ops_view_push(ops: Seq<IndexOperation>, op: IndexOperation)
    ensures
        ops_view(ops.push(op)) == ops_view(ops).push(op_view(op)),
{
    assert(ops_view(ops.push(op)) =~= ops_view(ops).push(op_view(op)));
}

/// The index changes that bring a collection's live indices to the model's
/// declared ones: live indices that are not declared are dropped, changed
/// ones are dropped and created again, declared ones that are missing are
/// created; the primary-key index is left alone.
pub fn reconcile_indices(model: &Model, live: &Vec<IndexSpec>) -> (r: Vec<IndexOperation>)
    requires
        indices_wf(*model),
    ensures
        ops_view(r@) == reconcile_changes(index_rules(), declared_specs(*model), specs_view(live@)),
{
    let declared = declared_index_specs(model);
    let ghost rules = index_rules();
    let ghost d = declared_specs(*model);
    let ghost lv = specs_view(live@);
    let mut ops: Vec<IndexOperation> = Vec::new();
    let mut i: usize = 0;
    while i < live.len()
        invariant
            0 <= i <= live@.len(),
            rules == index_rules(),
            d == specs_view(declared@),
            lv == specs_view(live@),
            ops_view(ops@) == live_changes(rules, d, lv.subrange(0, i as int)),
        decreases live.len() - i,
    {
        let l = &live[i];
        let ghost before = ops@;
        proof {
            lemma_first_index(d, named(rules.name_of, l.name@));
        }
        if !is_key_index(&l.name) {
            match find_by_name(&declared, &l.name) {
                None => {
                    ops.push(IndexOperation::DropIndex(l.name.clone()));
                    proof {
                        lemma_ops_view_push(before, ops@.last());
                        assert(ops@ == before.push(ops@.last()));
                    }
                },
                Some(k) => {
                    if !declared[k].same_as(l) {
                        ops.push(IndexOperation::DropIndex(l.name.clone()));
                        let ghost mid = ops@;
                        proof {
                            lemma_ops_view_push(before, ops@.last());
                            assert(ops@ == before.push(ops@.last()));
                        }
                        ops.push(IndexOperation::CreateIndex(declared[k].duplicate()));
                        proof {
                            lemma_ops_view_push(mid, ops@.last());
                            assert(ops@ == mid.push(ops@.last()));
                        }
                    }
                },
            }
        }
        proof {
            assert(lv.subrange(0, i + 1).drop_last() =~= lv.subrange(0, i as int));
            assert(lv.subrange(0, i + 1).last() == l@);
            assert(ops_view(ops@) =~= ops_view(before) + item_changes(rules, d, l@));
        }
        i = i + 1;
    }
    assert(lv.subrange(0, lv.len() as int) =~= lv);
    let ghost rv = visited(rules, lv);
    let ghost lc = ops_view(ops@);
    let mut j: usize = 0;
    while j < declared.len()
        invariant
            0 <= j <= declared@.len(),
            rules == index_rules(),
            d == specs_view(declared@),
            lv == specs_view(live@),
            rv == visited(rules, lv),
            lc == live_changes(rules, d, lv),
            ops_view(ops@) == lc + missing_changes(rules, d.subrange(0, j as int), rv),
        decreases declared.len() - j,
    {
        let ghost before = ops@;
        if !is_visited(live, &declared[j].name) {
            ops.push(IndexOperation::CreateIndex(declared[j].duplicate()));
            proof {
                lemma_ops_view_push(before, ops@.last());
                assert(ops@ == before.push(ops@.last()));
            }
        }
        proof {
            assert(d.subrange(0, j + 1).drop_last() =~= d.subrange(0, j as int));
            assert(d.subrange(0, j + 1).last() == declared@[j as int]@);
            let tail = if rv.contains(declared@[j as int]@.name) {
                Seq::<Change<IndexSpecV>>::empty()
            } else {
                seq![Change::Put(declared@[j as int]@)]
            };
            assert(ops_view(ops@) =~= ops_view(before) + tail);
        }
        j = j + 1;
    }
    assert(d.subrange(0, d.len() as int) =~= d);
    ops
}

/// Index reconciliation is idempotent: after the index changes have been
/// made, reconciling the model against any listing of the collection's
/// indices yields no change. Index names are unique in the model, in the
/// live listing and in the new listing, and no declared index bears the
/// name of the primary-key index.
pub proof fn lemma_index_reconcile_idempotent(model: Model, live: Seq<IndexSpecV>, relisted: Seq<IndexSpecV>)
    requires
        unique_names(index_rules().name_of, declared_specs(model)),
        unique_names(index_rules().name_of, live),
        unique_names(index_rules().name_of, relisted),
        forall|i: int| 0 <= i < declared_specs(model).len() ==> (#[trigger] declared_specs(model)[i]).name != key_index_name(),
        state_of(index_rules().name_of, relisted) == apply_changes(
            index_rules().name_of,
            state_of(index_rules().name_of, live),
            reconcile_changes(index_rules(), declared_specs(model), live),
        ),
    ensures
        reconcile_changes(index_rules(), declared_specs(model), relisted) == Seq::<Change<IndexSpecV>>::empty(),
{
    let d = declared_specs(model);
    assert forall|i: int| 0 <= i < d.len() implies !is_skipped(index_rules(), #[trigger] d[i]) by {
        assert(d[i].name != key_index_name());
    }
    lemma_reconcile_idempotent(index_rules(), d, live, relisted);
}

/// Whether every index of the model names fields of the model: what
/// reconciling its indices asks of it.
pub fn indices_wf_holds(model: &Model) -> (r: bool)
    ensures
        r == indices_wf(*model),
{
    let mut i: usize = 0;
    while i < model.indices.len()
        invariant
            0 <= i <= model.indices@.len(),
            forall|a: int, b: int|
                0 <= a < i && 0 <= b < model.indices@[a].items@.len() ==> spec_field(
                    *model,
                    (#[trigger] model.indices@[a].items@[b]).field_name@,
                ) is Some,
        decreases model.indices.len() - i,
    {
        let ix = &model.indices[i];
        let mut j: usize = 0;
        while j < ix.items.len()
            invariant
                0 <= i < model.indices@.len(),
                *ix == model.indices@[i as int],
                0 <= j <= ix.items@.len(),
                forall|a: int, b: int|
                    0 <= a < i && 0 <= b < model.indices@[a].items@.len() ==> spec_field(
                        *model,
                        (#[trigger] model.indices@[a].items@[b]).field_name@,
                    ) is Some,
                forall|b: int| 0 <= b < j ==> spec_field(*model, (#[trigger] ix.items@[b]).field_name@) is Some,
            decreases ix.items.len() - j,
        {
            if model.field(ix.items[j].field_name.as_str()).is_none() {
                assert(spec_field(*model, model.indices@[i as int].items@[j as int].field_name@) is None);
                return false;
            }
            j = j + 1;
        }
        i = i + 1;
    }
    true
}

} // verus!
