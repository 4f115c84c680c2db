use vstd::prelude::*;
use crate::builders::{FieldBuilder, ModelBuilder};
use crate::error::ActionError;
use crate::field::Field;
use crate::pipeline::Pipeline;
use crate::value::Value;

verus! {

/// `@atomic`: the field may be updated in place.
pub fn atomic_decorator(field: &mut FieldBuilder)
    ensures
        *final(field) == (FieldBuilder { atomic: true, ..*old(field) }),
{
    field.atomic = true;
}

/// `@auto`: the database assigns the field's value.
pub fn auto_decorator(field: &mut FieldBuilder)
    ensures
        *final(field) == (FieldBuilder { assigned_by_database: true, ..*old(field) }),
{
    field.assigned_by_database = true;
}

/// `@dropped`: the field is no longer part of the model.
pub fn dropped_decorator(field: &mut Field)
    ensures
        *final(field) == (Field { dropped: true, ..*old(field) }),
{
    field.dropped = true;
}

/// `@afterDelete`: the pipeline runs after an object is deleted.
pub fn after_delete_decorator(pipeline: Pipeline, model: &mut ModelBuilder)
    ensures
        *final(model) == (ModelBuilder { after_delete_pipeline: pipeline, ..*old(model) }),
{
    model.after_delete_pipeline = pipeline;
}

/// The field names that an `@index` argument gives: one name, or a
/// sequence of names.
pub open spec fn index_names_ok(arg: Value) -> bool {
    match arg {
        Value::String(_) => true,
        Value::Vec(vs) => forall|i: int| 0 <= i < vs@.len() ==> (#[trigger] vs@[i]) is String,
        _ => false,
    }
}

/// `@index`: declares an index over the named fields, in order.
pub fn index_decorator(arg: &Value, model: &mut ModelBuilder) -> (r: Result<(), ActionError>)
    ensures
        r is Ok <==> index_names_ok(*arg),
        r is Ok ==> final(model).indices@.len() == old(model).indices@.len() + 1,
        r is Ok ==> (match *arg {
            Value::String(s) => final(model).indices@.last()@.len() == 1 && final(model).indices@.last()@[0]@ == s@,
            Value::Vec(vs) => final(model).indices@.last()@.len() == vs@.len() && forall|i: int|
                0 <= i < vs@.len() ==> (#[trigger] final(model).indices@.last()@[i])@ == vs@[i]->String_0@,
            _ => false,
        }),
        r is Err ==> *final(model) == *old(model),
{
    match arg {
        Value::String(s) => {
            let mut names: Vec<String> = Vec::new();
            names.push(s.clone());
            model.index(names);
            Ok(())
        },
        Value::Vec(vs) => {
            let mut names: Vec<String> = Vec::new();
            let mut i: usize = 0;
            while i < vs.len()
                invariant
                    *arg == Value::Vec(*vs),
                    0 <= i <= vs@.len(),
                    names@.len() == i,
                    forall|k: int| 0 <= k < i ==> (#[trigger] vs@[k]) is String && names@[k]@ == vs@[k]->String_0@,
                decreases vs.len() - i,
            {
                match &vs[i] {
                    Value::String(s) => names.push(s.clone()),
                    _ => {
                        return Err(ActionError::invalid_input("index", "Only a name or a list of names can be indexed.".to_string()));
                    },
                }
                i = i + 1;
            }
            model.index(names);
            Ok(())
        },
        _ => Err(ActionError::invalid_input("index", "Only a name or a list of names can be indexed.".to_string())),
    }
}

} // verus!
