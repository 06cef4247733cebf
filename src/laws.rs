//! Properties that relate several operations of the world, proved from the
//! operations' contracts.

use crate::component_data::ComponentData;
use crate::component_data_storage::of_entity;
use crate::component_definition::{ComponentDefinition, schema_names};
use crate::component_info::ComponentInfo;
use crate::component_storage::component_hash;
use crate::ecs_world::{ECSWorld, register_component_outcome, set_component_data_outcome};
use crate::entity::EntityId;
use crate::errors::SetComponentDataError;
use vstd::prelude::*;

verus! {

/// Registration is deterministic: whenever the same name and definition
/// are registered with success, in any two worlds, the handle is the same,
/// and it is the content hash of the two.
pub proof fn lemma_register_same_handle(
    w1: ECSWorld,
    w1_after: ECSWorld,
    w2: ECSWorld,
    w2_after: ECSWorld,
    name: Seq<char>,
    definition: ComponentDefinition,
    r1: Result<ComponentInfo, String>,
    r2: Result<ComponentInfo, String>,
)
    requires
        register_component_outcome(w1, name, definition, w1_after, r1),
        register_component_outcome(w2, name, definition, w2_after, r2),
        r1 is Ok,
        r2 is Ok,
    ensures
        r1 == r2,
        r1->Ok_0.hash == component_hash(definition@, name),
{
}

/// A name keeps its first registration: registering it again, with any
/// definition, fails and leaves the name bound to the first handle. The
/// first definition stays retrievable under that handle unless the handle
/// already had a definition before the first registration.
pub proof fn lemma_name_kept(
    w0: ECSWorld,
    w1: ECSWorld,
    w2: ECSWorld,
    name: Seq<char>,
    d1: ComponentDefinition,
    d2: ComponentDefinition,
    r1: Result<ComponentInfo, String>,
    r2: Result<ComponentInfo, String>,
)
    requires
        !w0.names().contains_key(name),
        register_component_outcome(w0, name, d1, w1, r1),
        register_component_outcome(w1, name, d2, w2, r2),
    ensures
        r1 is Ok,
        r2 is Err,
        w2.names()[name] == r1->Ok_0,
        r1->Ok_0.hash == component_hash(d1@, name),
        !w0.definitions().contains_key(r1->Ok_0) ==> w2.definitions()[w2.names()[name]] == d1,
{
}

/// The first write of a component's data attaches the component to the
/// entity, and every field the component declares holds the value written
/// (or `Nil` where the written data lacks it).
pub proof fn lemma_first_write_attaches(
    w: ECSWorld,
    w2: ECSWorld,
    e: EntityId,
    c: Seq<char>,
    data: ComponentData,
    r: Result<(), SetComponentDataError>,
    k: Seq<char>,
)
    requires
        w.is_registered(e),
        w.names().contains_key(c),
        set_component_data_outcome(w, e, c, data@, w2, r),
        schema_names(w.schema_of(c)).contains(k),
    ensures
        r is Ok,
        w2.data().contains_key((e, c)),
        w2.data()[(e, c)].0 == e,
        w2.data()[(e, c)].1.contains_key(k),
        w2.data()[(e, c)].1[k] == data.field_or_nil(k),
{
}

/// A write never stores a field the component does not declare.
pub proof fn lemma_undeclared_field_absent(
    w: ECSWorld,
    w2: ECSWorld,
    e: EntityId,
    c: Seq<char>,
    data: ComponentData,
    r: Result<(), SetComponentDataError>,
    k: Seq<char>,
)
    requires
        set_component_data_outcome(w, e, c, data@, w2, r),
        r is Ok,
        !schema_names(w.schema_of(c)).contains(k),
    ensures
        w2.data().contains_key((e, c)),
        !w2.data()[(e, c)].1.contains_key(k),
{
}

/// A newly created entity carries no component: it is registered, and no
/// stored record belongs to it. This holds unless the new id is one that
/// was registered already and carries data.
pub proof fn lemma_new_entity_is_empty(w: ECSWorld, w2: ECSWorld, e: EntityId)
    requires
        w.wf(),
        !w.is_registered(e) || !w.store().has_entity_spec(e),
        w2.entities() == w.entities().push(e),
        w2.records() == w.records(),
    ensures
        w2.is_registered(e),
        w2.records().filter(of_entity(e)) == Seq::<crate::component_data_storage::RecordView>::empty(),
{
    let p = of_entity(e);
    let f = w.records().filter(p);
    assert(w2.entities()[w.entities().len() as int] == e);
    if f.len() > 0 {
        w.records().lemma_filter_pred(p, 0);
        assert(f.contains(f[0]));
        w.records().lemma_filter_contains_rev(p, f[0]);
        let i = choose|i: int| 0 <= i < w.records().len() && w.records()[i] == f[0];
        w.store().lemma_record_at(i);
        assert(w.data().contains_key((e, w.records()[i].1)));
        assert(w.store().has_entity_spec(e));
    }
    assert(f =~= Seq::<crate::component_data_storage::RecordView>::empty());
}

} // verus!
