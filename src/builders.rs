use vstd::prelude::*;
use crate::field::{
    Argument, Field, FieldIndex, FieldType, IndexSettings, ObjectAssignment, Optionality,
    QueryAbility, ReadRule, Store, WriteRule,
};
use crate::pipeline::Pipeline;
use crate::value::Value;
use crate::search::{str_eq, first_index, lemma_first_index, lemma_push_contains};

verus! {

/// The actions that a model can serve.
#[derive(Debug, Clone, Copy, PartialEq, Eq, Structural)]
pub enum ActionType {
    FindUnique,
    FindFirst,
    FindMany,
    Create,
    Update,
    Upsert,
    Delete,
    CreateMany,
    UpdateMany,
    DeleteMany,
    Count,
    Aggregate,
    GroupBy,
}

/// The set that a list of actions stands for.
pub open spec fn action_set(v: Seq<ActionType>) -> Set<ActionType> {
    v.to_set()
}

/// Every action, once each.
pub fn all_actions() -> (r: Vec<ActionType>)
    ensures
        r@.no_duplicates(),
        forall|t: ActionType| action_set(r@).contains(t),
{
    let r = vec![
        ActionType::FindUnique,
        ActionType::FindFirst,
        ActionType::FindMany,
        ActionType::Create,
        ActionType::Update,
        ActionType::Upsert,
        ActionType::Delete,
        ActionType::CreateMany,
        ActionType::UpdateMany,
        ActionType::DeleteMany,
        ActionType::Count,
        ActionType::Aggregate,
        ActionType::GroupBy,
    ];
    assert forall|t: ActionType| action_set(r@).contains(t) by {
        match t {
            ActionType::FindUnique => assert(r@[0] == t),
            ActionType::FindFirst => assert(r@[1] == t),
            ActionType::FindMany => assert(r@[2] == t),
            ActionType::Create => assert(r@[3] == t),
            ActionType::Update => assert(r@[4] == t),
            ActionType::Upsert => assert(r@[5] == t),
            ActionType::Delete => assert(r@[6] == t),
            ActionType::CreateMany => assert(r@[7] == t),
            ActionType::UpdateMany => assert(r@[8] == t),
            ActionType::DeleteMany => assert(r@[9] == t),
            ActionType::Count => assert(r@[10] == t),
            ActionType::Aggregate => assert(r@[11] == t),
            ActionType::GroupBy => assert(r@[12] == t),
        }
    }
    r
}

fn contains_action(v: &Vec<ActionType>, t: ActionType) -> (r: bool)
    ensures
        r == v@.contains(t),
{
    let mut i: usize = 0;
    while i < v.len()
        invariant
            0 <= i <= v@.len(),
            forall|j: int| 0 <= j < i ==> v@[j] != t,
        decreases v.len() - i,
    {
        if v[i] == t {
            return true;
        }
        i = i + 1;
    }
    false
}

fn insert_action(v: &mut Vec<ActionType>, t: ActionType)
    requires
        old(v)@.no_duplicates(),
    ensures
        final(v)@.no_duplicates(),
        action_set(final(v)@) == action_set(old(v)@).insert(t),
{
    if !contains_action(v, t) {
        v.push(t);
        proof {
            lemma_push_contains(old(v)@, t);
        }
        assert(action_set(v@) =~= action_set(old(v)@).insert(t));
    } else {
        assert(action_set(v@) =~= action_set(old(v)@).insert(t));
    }
}

/// The actions of `a` that `b` does not hold, in the order of `a`.
fn action_difference(a: &Vec<ActionType>, b: &Vec<ActionType>) -> (r: Vec<ActionType>)
    requires
        a@.no_duplicates(),
    ensures
        r@.no_duplicates(),
        action_set(r@) == action_set(a@).difference(action_set(b@)),
{
    let mut r: Vec<ActionType> = Vec::new();
    let mut i: usize = 0;
    while i < a.len()
        invariant
            0 <= i <= a@.len(),
            a@.no_duplicates(),
            r@.no_duplicates(),
            forall|t: ActionType| r@.contains(t) <==> (a@.subrange(0, i as int).contains(t) && !b@.contains(t)),
        decreases a.len() - i,
    {
        let t = a[i];
        proof {
            assert(a@.subrange(0, i + 1) == a@.subrange(0, i as int).push(t));
            lemma_push_contains(a@.subrange(0, i as int), t);
            lemma_push_contains(r@, t);
        }
        if !contains_action(b, t) {
            assert(!a@.subrange(0, i as int).contains(t));
            r.push(t);
        }
        i = i + 1;
    }
    assert(a@.subrange(0, a@.len() as int) == a@);
    assert(action_set(r@) =~= action_set(a@).difference(action_set(b@)));
    r
}

/// Collects the actions that a model enables or disables.
pub struct ActionBuilder {
    pub actions: Vec<ActionType>,
}

impl ActionBuilder {
    pub fn new() -> (r: Self)
        ensures
            r.actions@.len() == 0,
    {
        ActionBuilder { actions: Vec::new() }
    }

    pub open spec fn wf(&self) -> bool {
        self.actions@.no_duplicates()
    }

    fn add(&mut self, t: ActionType) -> (r: &mut Self)
        requires
            old(self).wf(),
        ensures
            r.wf(),
            action_set(r.actions@) == action_set(old(self).actions@).insert(t),
            *final(r) == *final(self),
    {
        insert_action(&mut self.actions, t);
        self
    }

    pub fn find_unique(&mut self) -> (r: &mut Self)
        requires
            old(self).wf(),
        ensures
            r.wf(),
            action_set(r.actions@) == action_set(old(self).actions@).insert(ActionType::FindUnique),
            *final(r) == *final(self),
    {
        self.add(ActionType::FindUnique)
    }

    pub fn find_first(&mut self) -> (r: &mut Self)
        requires
            old(self).wf(),
        ensures
            r.wf(),
            action_set(r.actions@) == action_set(old(self).actions@).insert(ActionType::FindFirst),
            *final(r) == *final(self),
    {
        self.add(ActionType::FindFirst)
    }

    pub fn find_many(&mut self) -> (r: &mut Self)
        requires
            old(self).wf(),
        ensures
            r.wf(),
            action_set(r.actions@) == action_set(old(self).actions@).insert(ActionType::FindMany),
            *final(r) == *final(self),
    {
        self.add(ActionType::FindMany)
    }

    pub fn create(&mut self) -> (r: &mut Self)
        requires
            old(self).wf(),
        ensures
            r.wf(),
            action_set(r.actions@) == action_set(old(self).actions@).insert(ActionType::Create),
            *final(r) == *final(self),
    {
        self.add(ActionType::Create)
    }

    pub fn update(&mut self) -> (r: &mut Self)
        requires
            old(self).wf(),
        ensures
            r.wf(),
            action_set(r.actions@) == action_set(old(self).actions@).insert(ActionType::Update),
            *final(r) == *final(self),
    {
        self.add(ActionType::Update)
    }

    pub fn upsert(&mut self) -> (r: &mut Self)
        requires
            old(self).wf(),
        ensures
            r.wf(),
            action_set(r.actions@) == action_set(old(self).actions@).insert(ActionType::Upsert),
            *final(r) == *final(self),
    {
        self.add(ActionType::Upsert)
    }

    pub fn delete(&mut self) -> (r: &mut Self)
        requires
            old(self).wf(),
        ensures
            r.wf(),
            action_set(r.actions@) == action_set(old(self).actions@).insert(ActionType::Delete),
            *final(r) == *final(self),
    {
        self.add(ActionType::Delete)
    }

    pub fn create_many(&mut self) -> (r: &mut Self)
        requires
            old(self).wf(),
        ensures
            r.wf(),
            action_set(r.actions@) == action_set(old(self).actions@).insert(ActionType::CreateMany),
            *final(r) == *final(self),
    {
        self.add(ActionType::CreateMany)
    }

    pub fn update_many(&mut self) -> (r: &mut Self)
        requires
            old(self).wf(),
        ensures
            r.wf(),
            action_set(r.actions@) == action_set(old(self).actions@).insert(ActionType::UpdateMany),
            *final(r) == *final(self),
    {
        self.add(ActionType::UpdateMany)
    }

    pub fn delete_many(&mut self) -> (r: &mut Self)
        requires
            old(self).wf(),
        ensures
            r.wf(),
            action_set(r.actions@) == action_set(old(self).actions@).insert(ActionType::DeleteMany),
            *final(r) == *final(self),
    {
        self.add(ActionType::DeleteMany)
    }

    pub fn count(&mut self) -> (r: &mut Self)
        requires
            old(self).wf(),
        ensures
            r.wf(),
            action_set(r.actions@) == action_set(old(self).actions@).insert(ActionType::Count),
            *final(r) == *final(self),
    {
        self.add(ActionType::Count)
    }

    pub fn aggregate(&mut self) -> (r: &mut Self)
        requires
            old(self).wf(),
        ensures
            r.wf(),
            action_set(r.actions@) == action_set(old(self).actions@).insert(ActionType::Aggregate),
            *final(r) == *final(self),
    {
        self.add(ActionType::Aggregate)
    }

    pub fn group_by(&mut self) -> (r: &mut Self)
        requires
            old(self).wf(),
        ensures
            r.wf(),
            action_set(r.actions@) == action_set(old(self).actions@).insert(ActionType::GroupBy),
            *final(r) == *final(self),
    {
        self.add(ActionType::GroupBy)
    }
}

/// The backends that a graph can be connected to.
#[derive(Debug, Clone, Copy, PartialEq, Eq, Structural)]
pub enum Backend {
    MongoDB,
    MySQL,
    PostgreSQL,
    SQLite,
}

/// Which backend to connect to, and where.
#[derive(Debug, Clone, Copy)]
pub struct ConnectorBuilder {
    pub backend: Backend,
    pub url: &'static str,
}

/// The declaration of a model, built step by step.
pub struct ModelBuilder {
    pub name: &'static str,
    pub table_name: &'static str,
    pub url_segment_name: &'static str,
    pub localized_name: &'static str,
    pub description: &'static str,
    pub identity: bool,
    pub fields: Vec<FieldBuilder>,
    pub actions: Vec<ActionType>,
    pub indices: Vec<Vec<String>>,
    pub after_delete_pipeline: Pipeline,
}

impl ModelBuilder {
    pub open spec fn wf(&self) -> bool {
        self.actions@.no_duplicates()
    }

    /// A model with no fields that serves every action.
    pub fn new(name: &'static str) -> (r: ModelBuilder)
        ensures
            r.wf(),
            r.name == name,
            r.table_name@.len() == 0,
            r.url_segment_name@.len() == 0,
            r.localized_name@.len() == 0,
            r.description@.len() == 0,
            !r.identity,
            r.fields@.len() == 0,
            r.indices@.len() == 0,
            r.after_delete_pipeline.modifiers@.len() == 0,
            forall|t: ActionType| action_set(r.actions@).contains(t),
    {
        proof {
            reveal_strlit("");
        }
        ModelBuilder {
            name,
            table_name: "",
            url_segment_name: "",
            localized_name: "",
            description: "",
            identity: false,
            fields: Vec::new(),
            actions: all_actions(),
            indices: Vec::new(),
            after_delete_pipeline: Pipeline::new(),
        }
    }

    pub fn table_name(&mut self, table_name: &'static str)
        ensures
            *final(self) == (ModelBuilder { table_name, ..*old(self) }),
    {
        self.table_name = table_name;
    }

    pub fn url_segment_name(&mut self, url_segment_name: &'static str)
        ensures
            *final(self) == (ModelBuilder { url_segment_name, ..*old(self) }),
    {
        self.url_segment_name = url_segment_name;
    }

    pub fn localized_name(&mut self, localized_name: &'static str)
        ensures
            *final(self) == (ModelBuilder { localized_name, ..*old(self) }),
    {
        self.localized_name = localized_name;
    }

    pub fn description(&mut self, description: &'static str)
        ensures
            *final(self) == (ModelBuilder { description, ..*old(self) }),
    {
        self.description = description;
    }

    pub fn identity(&mut self)
        ensures
            *final(self) == (ModelBuilder { identity: true, ..*old(self) }),
    {
        self.identity = true;
    }

    /// Appends a finished field declaration.
    pub fn field(&mut self, field: FieldBuilder)
        ensures
            final(self).fields@ == old(self).fields@.push(field),
            *final(self) == (ModelBuilder { fields: final(self).fields, ..*old(self) }),
    {
        self.fields.push(field);
    }

    /// Declares an index over the named fields, in order.
    pub fn index(&mut self, fields: Vec<String>)
        ensures
            final(self).indices@ == old(self).indices@.push(fields),
            *final(self) == (ModelBuilder { indices: final(self).indices, ..*old(self) }),
    {
        self.indices.push(fields);
    }

    /// The model serves no action.
    pub fn internal(&mut self)
        ensures
            final(self).wf(),
            final(self).actions@.len() == 0,
            *final(self) == (ModelBuilder { actions: final(self).actions, ..*old(self) }),
    {
        self.actions = Vec::new();
    }

    /// The model serves exactly the actions that `actions` holds.
    pub fn enable(&mut self, actions: ActionBuilder)
        requires
            actions.wf(),
        ensures
            final(self).wf(),
            final(self).actions@ == actions.actions@,
            *final(self) == (ModelBuilder { actions: final(self).actions, ..*old(self) }),
    {
        self.internal();
        self.actions = actions.actions;
    }

    /// The model no longer serves the actions that `actions` holds.
    pub fn disable(&mut self, actions: ActionBuilder)
        requires
            old(self).wf(),
        ensures
            final(self).wf(),
            action_set(final(self).actions@) == action_set(old(self).actions@).difference(
                action_set(actions.actions@),
            ),
            *final(self) == (ModelBuilder { actions: final(self).actions, ..*old(self) }),
    {
        self.actions = action_difference(&self.actions, &actions.actions);
    }
}

/// The position of the enum called `name`.
pub open spec fn enum_position(enums: Seq<(&'static str, Vec<&'static str>)>, name: Seq<char>) -> Option<int> {
    first_index(enums, |e: (&'static str, Vec<&'static str>)| e.0@ == name)
}

/// The declaration of a whole schema: enums, models, and the backend.
pub struct GraphBuilder {
    pub enums: Vec<(&'static str, Vec<&'static str>)>,
    pub models: Vec<ModelBuilder>,
    pub connector_builder: Option<ConnectorBuilder>,
    pub reset_database: bool,
}

impl GraphBuilder {
    pub fn new() -> (r: GraphBuilder)
        ensures
            r.enums@.len() == 0,
            r.models@.len() == 0,
            r.connector_builder is None,
            !r.reset_database,
    {
        GraphBuilder { enums: Vec::new(), models: Vec::new(), connector_builder: None, reset_database: false }
    }

    pub fn connector_builder(&self) -> (r: &ConnectorBuilder)
        requires
            self.connector_builder is Some,
        ensures
            *r == self.connector_builder->Some_0,
    {
        match &self.connector_builder {
            Some(c) => c,
            None => {
                proof {
                    assert(false);
                }
                &self.connector_builder.as_ref().unwrap()
            },
        }
    }

    pub fn connector(&mut self, connector: ConnectorBuilder)
        ensures
            *final(self) == (GraphBuilder { connector_builder: Some(connector), ..*old(self) }),
    {
        self.connector_builder = Some(connector);
    }

    /// Declares the enum `name` with its choices, replacing an earlier
    /// declaration of that name.
    pub fn enumeration(&mut self, name: &'static str, values: Vec<&'static str>)
        ensures
            final(self).enums@ == match enum_position(old(self).enums@, name@) {
                Some(i) => old(self).enums@.update(i, (name, values)),
                None => old(self).enums@.push((name, values)),
            },
            *final(self) == (GraphBuilder { enums: final(self).enums, ..*old(self) }),
    {
        let ghost p = |e: (&'static str, Vec<&'static str>)| e.0@ == name@;
        proof {
            lemma_first_index(self.enums@, p);
        }
        let mut i: usize = 0;
        while i < self.enums.len()
            invariant
                0 <= i <= self.enums@.len(),
                *self == *old(self),
                forall|j: int| 0 <= j < i ==> !p(#[trigger] self.enums@[j]),
                p == (|e: (&'static str, Vec<&'static str>)| e.0@ == name@),
                enum_position(old(self).enums@, name@) == first_index(self.enums@, p),
                match first_index(self.enums@, p) {
                    Some(k) => 0 <= k < self.enums@.len() && p(self.enums@[k]) && forall|j: int|
                        0 <= j < k ==> !p(#[trigger] self.enums@[j]),
                    None => forall|j: int| 0 <= j < self.enums@.len() ==> !p(#[trigger] self.enums@[j]),
                },
            decreases self.enums.len() - i,
        {
            if str_eq(self.enums[i].0, name) {
                assert(first_index(self.enums@, p) == Some(i as int));
                self.enums.set(i, (name, values));
                return;
            }
            i = i + 1;
        }
        self.enums.push((name, values));
    }

    pub fn model(&mut self, model: ModelBuilder)
        ensures
            final(self).models@ == old(self).models@.push(model),
            *final(self) == (GraphBuilder { models: final(self).models, ..*old(self) }),
    {
        self.models.push(model);
    }

    pub fn reset_database(&mut self)
        ensures
            *final(self) == (GraphBuilder { reset_database: true, ..*old(self) }),
    {
        self.reset_database = true;
    }
}

/// The declaration of a field, built step by step.
pub struct FieldBuilder {
    pub name: &'static str,
    pub localized_name: &'static str,
    pub description: &'static str,
    pub field_type: FieldType,
    pub availability: Optionality,
    pub store: Store,
    pub primary: bool,
    pub read_rule: ReadRule,
    pub write_rule: WriteRule,
    pub index: FieldIndex,
    pub query_ability: QueryAbility,
    pub object_assignment: ObjectAssignment,
    pub assigned_by_database: bool,
    pub auto_increment: bool,
    pub auth_identity: bool,
    pub atomic: bool,
    pub default: Option<Argument>,
    pub on_set_pipeline: Pipeline,
    pub on_save_pipeline: Pipeline,
    pub on_output_pipeline: Pipeline,
}

impl FieldBuilder {
    pub fn new(name: &'static str) -> (r: Self)
        ensures
            r.name == name,
            r.localized_name@.len() == 0,
            r.description@.len() == 0,
            r.field_type is Undefined,
            r.availability == Optionality::Required,
            r.store is Embedded,
            !r.primary,
            r.read_rule == ReadRule::Read,
            r.write_rule == WriteRule::Write,
            r.index is NoIndex,
            r.query_ability == QueryAbility::Queryable,
            r.object_assignment == ObjectAssignment::Reference,
            !r.assigned_by_database,
            !r.auto_increment,
            !r.auth_identity,
            !r.atomic,
            r.default is None,
            r.on_set_pipeline.modifiers@.len() == 0,
            r.on_save_pipeline.modifiers@.len() == 0,
            r.on_output_pipeline.modifiers@.len() == 0,
    {
        proof {
            reveal_strlit("");
        }
        FieldBuilder {
            name,
            localized_name: "",
            description: "",
            field_type: FieldType::Undefined,
            availability: Optionality::Required,
            store: Store::Embedded,
            primary: false,
            read_rule: ReadRule::Read,
            write_rule: WriteRule::Write,
            index: FieldIndex::NoIndex,
            query_ability: QueryAbility::Queryable,
            object_assignment: ObjectAssignment::Reference,
            assigned_by_database: false,
            auto_increment: false,
            auth_identity: false,
            atomic: false,
            default: None,
            on_set_pipeline: Pipeline::new(),
            on_save_pipeline: Pipeline::new(),
            on_output_pipeline: Pipeline::new(),
        }
    }

    pub fn localized_name(&mut self, localized_name: &'static str)
        ensures
            *final(self) == (FieldBuilder { localized_name, ..*old(self) }),
    {
        self.localized_name = localized_name;
    }

    pub fn description(&mut self, description: &'static str)
        ensures
            *final(self) == (FieldBuilder { description, ..*old(self) }),
    {
        self.description = description;
    }

    pub fn object_id(&mut self) -> (r: &mut Self)
        ensures
            *r == (FieldBuilder { field_type: FieldType::ObjectId, ..*old(self) }),
            *final(r) == *final(self),
    {
        self.field_type = FieldType::ObjectId;
        self
    }

    pub fn bool(&mut self) -> (r: &mut Self)
        ensures
            *r == (FieldBuilder { field_type: FieldType::Bool, ..*old(self) }),
            *final(r) == *final(self),
    {
        self.field_type = FieldType::Bool;
        self
    }

    pub fn i8(&mut self) -> (r: &mut Self)
        ensures
            *r == (FieldBuilder { field_type: FieldType::I8, ..*old(self) }),
            *final(r) == *final(self),
    {
        self.field_type = FieldType::I8;
        self
    }

    pub fn i16(&mut self) -> (r: &mut Self)
        ensures
            *r == (FieldBuilder { field_type: FieldType::I16, ..*old(self) }),
            *final(r) == *final(self),
    {
        self.field_type = FieldType::I16;
        self
    }

    pub fn i32(&mut self) -> (r: &mut Self)
        ensures
            *r == (FieldBuilder { field_type: FieldType::I32, ..*old(self) }),
            *final(r) == *final(self),
    {
        self.field_type = FieldType::I32;
        self
    }

    pub fn i64(&mut self) -> (r: &mut Self)
        ensures
            *r == (FieldBuilder { field_type: FieldType::I64, ..*old(self) }),
            *final(r) == *final(self),
    {
        self.field_type = FieldType::I64;
        self
    }

    pub fn i128(&mut self) -> (r: &mut Self)
        ensures
            *r == (FieldBuilder { field_type: FieldType::I128, ..*old(self) }),
            *final(r) == *final(self),
    {
        self.field_type = FieldType::I128;
        self
    }

    pub fn u8(&mut self) -> (r: &mut Self)
        ensures
            *r == (FieldBuilder { field_type: FieldType::U8, ..*old(self) }),
            *final(r) == *final(self),
    {
        self.field_type = FieldType::U8;
        self
    }

    pub fn u16(&mut self) -> (r: &mut Self)
        ensures
            *r == (FieldBuilder { field_type: FieldType::U16, ..*old(self) }),
            *final(r) == *final(self),
    {
        self.field_type = FieldType::U16;
        self
    }

    pub fn u32(&mut self) -> (r: &mut Self)
        ensures
            *r == (FieldBuilder { field_type: FieldType::U32, ..*old(self) }),
            *final(r) == *final(self),
    {
        self.field_type = FieldType::U32;
        self
    }

    pub fn u64(&mut self) -> (r: &mut Self)
        ensures
            *r == (FieldBuilder { field_type: FieldType::U64, ..*old(self) }),
            *final(r) == *final(self),
    {
        self.field_type = FieldType::U64;
        self
    }

    pub fn u128(&mut self) -> (r: &mut Self)
        ensures
            *r == (FieldBuilder { field_type: FieldType::U128, ..*old(self) }),
            *final(r) == *final(self),
    {
        self.field_type = FieldType::U128;
        self
    }

    pub fn float32(&mut self) -> (r: &mut Self)
        ensures
            *r == (FieldBuilder { field_type: FieldType::F32, ..*old(self) }),
            *final(r) == *final(self),
    {
        self.field_type = FieldType::F32;
        self
    }

    pub fn float64(&mut self) -> (r: &mut Self)
        ensures
            *r == (FieldBuilder { field_type: FieldType::F64, ..*old(self) }),
            *final(r) == *final(self),
    {
        self.field_type = FieldType::F64;
        self
    }

    pub fn decimal(&mut self) -> (r: &mut Self)
        ensures
            *r == (FieldBuilder { field_type: FieldType::Decimal, ..*old(self) }),
            *final(r) == *final(self),
    {
        self.field_type = FieldType::Decimal;
        self
    }

    pub fn string(&mut self) -> (r: &mut Self)
        ensures
            *r == (FieldBuilder { field_type: FieldType::String, ..*old(self) }),
            *final(r) == *final(self),
    {
        self.field_type = FieldType::String;
        self
    }

    pub fn date(&mut self) -> (r: &mut Self)
        ensures
            *r == (FieldBuilder { field_type: FieldType::Date, ..*old(self) }),
            *final(r) == *final(self),
    {
        self.field_type = FieldType::Date;
        self
    }

    pub fn datetime(&mut self) -> (r: &mut Self)
        ensures
            *r == (FieldBuilder { field_type: FieldType::DateTime, ..*old(self) }),
            *final(r) == *final(self),
    {
        self.field_type = FieldType::DateTime;
        self
    }

    pub fn enumeration(&mut self, name: &'static str) -> (r: &mut Self)
        ensures
            *r == (FieldBuilder { field_type: FieldType::Enum(name), ..*old(self) }),
            *final(r) == *final(self),
    {
        self.field_type = FieldType::Enum(name);
        self
    }

    pub fn object(&mut self, model: &'static str) -> (r: &mut Self)
        ensures
            *r == (FieldBuilder { field_type: FieldType::Object(model), ..*old(self) }),
            *final(r) == *final(self),
    {
        self.field_type = FieldType::Object(model);
        self
    }

    pub fn primary(&mut self) -> (r: &mut Self)
        ensures
            *r == (FieldBuilder { primary: true, ..*old(self) }),
            *final(r) == *final(self),
    {
        self.primary = true;
        self
    }

    pub fn internal(&mut self) -> (r: &mut Self)
        ensures
            *r == (FieldBuilder { write_rule: WriteRule::NoWrite, read_rule: ReadRule::NoRead, ..*old(self) }),
            *final(r) == *final(self),
    {
        self.write_rule = WriteRule::NoWrite;
        self.read_rule = ReadRule::NoRead;
        self
    }

    pub fn readonly(&mut self) -> (r: &mut Self)
        ensures
            *r == (FieldBuilder { write_rule: WriteRule::NoWrite, ..*old(self) }),
            *final(r) == *final(self),
    {
        self.write_rule = WriteRule::NoWrite;
        self
    }

    pub fn writeonly(&mut self) -> (r: &mut Self)
        ensures
            *r == (FieldBuilder { read_rule: ReadRule::NoRead, query_ability: QueryAbility::Unqueryable, ..*old(self) }),
            *final(r) == *final(self),
    {
        self.read_rule = ReadRule::NoRead;
        self.query_ability = QueryAbility::Unqueryable;
        self
    }

    pub fn write_once(&mut self) -> (r: &mut Self)
        ensures
            *r == (FieldBuilder { write_rule: WriteRule::WriteOnce, ..*old(self) }),
            *final(r) == *final(self),
    {
        self.write_rule = WriteRule::WriteOnce;
        self
    }

    pub fn write_on_create(&mut self) -> (r: &mut Self)
        ensures
            *r == (FieldBuilder { write_rule: WriteRule::WriteOnCreate, ..*old(self) }),
            *final(r) == *final(self),
    {
        self.write_rule = WriteRule::WriteOnCreate;
        self
    }

    pub fn write_nonnull(&mut self) -> (r: &mut Self)
        ensures
            *r == (FieldBuilder { write_rule: WriteRule::WriteNonNull, ..*old(self) }),
            *final(r) == *final(self),
    {
        self.write_rule = WriteRule::WriteNonNull;
        self
    }

    pub fn unique(&mut self) -> (r: &mut Self)
        ensures
            *r == (FieldBuilder { index: FieldIndex::Unique(IndexSettings { sort: crate::field::Sort::Asc, length: None }), ..*old(self) }),
            *final(r) == *final(self),
    {
        self.index = FieldIndex::Unique(IndexSettings { sort: crate::field::Sort::Asc, length: None });
        self
    }

    pub fn compound_unique(&mut self, key: &'static str) -> (r: &mut Self)
        ensures
            *r == (FieldBuilder { index: FieldIndex::CompoundUnique(key), ..*old(self) }),
            *final(r) == *final(self),
    {
        self.index = FieldIndex::CompoundUnique(key);
        self
    }

    pub fn index(&mut self) -> (r: &mut Self)
        ensures
            *r == (FieldBuilder { index: FieldIndex::Index(IndexSettings { sort: crate::field::Sort::Asc, length: None }), ..*old(self) }),
            *final(r) == *final(self),
    {
        self.index = FieldIndex::Index(IndexSettings { sort: crate::field::Sort::Asc, length: None });
        self
    }

    pub fn compound_index(&mut self, key: &'static str) -> (r: &mut Self)
        ensures
            *r == (FieldBuilder { index: FieldIndex::CompoundIndex(key), ..*old(self) }),
            *final(r) == *final(self),
    {
        self.index = FieldIndex::CompoundIndex(key);
        self
    }

    pub fn optional(&mut self) -> (r: &mut Self)
        ensures
            *r == (FieldBuilder { availability: Optionality::Optional, ..*old(self) }),
            *final(r) == *final(self),
    {
        self.availability = Optionality::Optional;
        self
    }

    pub fn required(&mut self) -> (r: &mut Self)
        ensures
            *r == (FieldBuilder { availability: Optionality::Required, ..*old(self) }),
            *final(r) == *final(self),
    {
        self.availability = Optionality::Required;
        self
    }

    pub fn linked_by(&mut self, field: &'static str) -> (r: &mut Self)
        ensures
            *r == (FieldBuilder { store: Store::ForeignKey(field), ..*old(self) }),
            *final(r) == *final(self),
    {
        self.store = Store::ForeignKey(field);
        self
    }

    pub fn link_to(&mut self) -> (r: &mut Self)
        ensures
            *r == (FieldBuilder { store: Store::LocalKey, ..*old(self) }),
            *final(r) == *final(self),
    {
        self.store = Store::LocalKey;
        self
    }

    pub fn temp(&mut self) -> (r: &mut Self)
        ensures
            *r == (FieldBuilder { store: Store::Temp, ..*old(self) }),
            *final(r) == *final(self),
    {
        self.store = Store::Temp;
        self
    }

    pub fn calculated(&mut self) -> (r: &mut Self)
        ensures
            *r == (FieldBuilder { store: Store::Calculated, write_rule: WriteRule::NoWrite, ..*old(self) }),
            *final(r) == *final(self),
    {
        self.store = Store::Calculated;
        self.write_rule = WriteRule::NoWrite;
        self
    }

    pub fn copy(&mut self) -> (r: &mut Self)
        ensures
            *r == (FieldBuilder { object_assignment: ObjectAssignment::Copy, ..*old(self) }),
            *final(r) == *final(self),
    {
        self.object_assignment = ObjectAssignment::Copy;
        self
    }

    pub fn auth_identity(&mut self) -> (r: &mut Self)
        ensures
            *r == (FieldBuilder { auth_identity: true, ..*old(self) }),
            *final(r) == *final(self),
    {
        self.auth_identity = true;
        self
    }

    pub fn assigned_by_database(&mut self) -> (r: &mut Self)
        ensures
            *r == (FieldBuilder { assigned_by_database: true, ..*old(self) }),
            *final(r) == *final(self),
    {
        self.assigned_by_database = true;
        self
    }

    pub fn auto_increment(&mut self) -> (r: &mut Self)
        ensures
            *r == (FieldBuilder { assigned_by_database: true, auto_increment: true, ..*old(self) }),
            *final(r) == *final(self),
    {
        self.assigned_by_database = true;
        self.auto_increment = true;
        self
    }

    pub fn atomic(&mut self) -> (r: &mut Self)
        ensures
            *r == (FieldBuilder { atomic: true, ..*old(self) }),
            *final(r) == *final(self),
    {
        self.atomic = true;
        self
    }

    /// The field holds a sequence whose items `item` declares.
    pub fn vec(&mut self, item: FieldBuilder) -> (r: &mut Self)
        ensures
            r.field_type is Vec,
            built_from(*r.field_type->Vec_0, item),
            *r == (FieldBuilder { field_type: r.field_type, ..*old(self) }),
            *final(r) == *final(self),
    {
        self.field_type = FieldType::Vec(Box::new(Field::new(item)));
        self
    }

    /// The field holds a map whose values `item` declares.
    pub fn map(&mut self, item: FieldBuilder) -> (r: &mut Self)
        ensures
            r.field_type is Dictionary,
            built_from(*r.field_type->Dictionary_0, item),
            *r == (FieldBuilder { field_type: r.field_type, ..*old(self) }),
            *final(r) == *final(self),
    {
        self.field_type = FieldType::Dictionary(Box::new(Field::new(item)));
        self
    }

    pub fn on_set(&mut self, pipeline: Pipeline) -> (r: &mut Self)
        ensures
            *r == (FieldBuilder { on_set_pipeline: pipeline, ..*old(self) }),
            *final(r) == *final(self),
    {
        self.on_set_pipeline = pipeline;
        self
    }

    pub fn on_save(&mut self, pipeline: Pipeline) -> (r: &mut Self)
        ensures
            *r == (FieldBuilder { on_save_pipeline: pipeline, ..*old(self) }),
            *final(r) == *final(self),
    {
        self.on_save_pipeline = pipeline;
        self
    }

    pub fn on_output(&mut self, pipeline: Pipeline) -> (r: &mut Self)
        ensures
            *r == (FieldBuilder { on_output_pipeline: pipeline, ..*old(self) }),
            *final(r) == *final(self),
    {
        self.on_output_pipeline = pipeline;
        self
    }

    /// Identity is assigned by the authentication layer; the declaration
    /// itself is left as it is.
    pub fn assign_identity(&mut self) -> (r: &mut Self)
        ensures
            *r == *old(self),
            *final(r) == *final(self),
    {
        self
    }

    pub fn default(&mut self, value: Value) -> (r: &mut Self)
        ensures
            *r == (FieldBuilder { default: Some(Argument::ValueArgument(value)), ..*old(self) }),
            *final(r) == *final(self),
    {
        self.default = Some(Argument::ValueArgument(value));
        self
    }

    pub fn default_by_pipeline(&mut self, pipeline: Pipeline) -> (r: &mut Self)
        ensures
            *r == (FieldBuilder { default: Some(Argument::PipelineArgument(pipeline)), ..*old(self) }),
            *final(r) == *final(self),
    {
        self.default = Some(Argument::PipelineArgument(pipeline));
        self
    }
}

/// `f` is the field that the declaration `b` describes.
pub open spec fn built_from(f: Field, b: FieldBuilder) -> bool {
    &&& f.name@ == b.name@
    &&& f.localized_name@ == b.localized_name@
    &&& f.description@ == b.description@
    &&& f.field_type == b.field_type
    &&& f.optionality == b.availability
    &&& f.store == b.store
    &&& f.primary == b.primary
    &&& f.read_rule == b.read_rule
    &&& f.write_rule == b.write_rule
    &&& f.index == b.index
    &&& f.query_ability == b.query_ability
    &&& f.object_assignment == b.object_assignment
    &&& f.auto == b.assigned_by_database
    &&& f.auto_increment == b.auto_increment
    &&& f.auth_identity == b.auth_identity
    &&& f.atomic == b.atomic
    &&& !f.dropped
    &&& f.default == b.default
    &&& f.on_set_pipeline == b.on_set_pipeline
    &&& f.on_save_pipeline == b.on_save_pipeline
    &&& f.on_output_pipeline == b.on_output_pipeline
    &&& f.column_name is None
}

impl Field {
    /// The field that a finished declaration describes.
    pub fn new(b: FieldBuilder) -> (r: Field)
        ensures
            built_from(r, b),
    {
        Field {
            name: b.name.to_string(),
            localized_name: b.localized_name.to_string(),
            description: b.description.to_string(),
            field_type: b.field_type,
            optionality: b.availability,
            store: b.store,
            atomic: b.atomic,
            primary: b.primary,
            read_rule: b.read_rule,
            write_rule: b.write_rule,
            index: b.index,
            query_ability: b.query_ability,
            object_assignment: b.object_assignment,
            auto: b.assigned_by_database,
            auto_increment: b.auto_increment,
            auth_identity: b.auth_identity,
            dropped: false,
            default: b.default,
            on_set_pipeline: b.on_set_pipeline,
            on_save_pipeline: b.on_save_pipeline,
            on_output_pipeline: b.on_output_pipeline,
            column_name: None,
        }
    }
}

} // verus!
