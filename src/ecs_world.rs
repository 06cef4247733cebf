use crate::component_data::{ComponentData, DataView};
use crate::component_data_storage::{GCSComponentDataStorage, RecordView, of_component, of_entity};
use crate::component_definition::{ComponentDefinition, FieldView, schema_names};
use crate::component_info::ComponentInfo;
use crate::component_storage::{GCSComponentStorage, component_hash};
use crate::component_value::ComponentValue;
use crate::entity::EntityId;
use crate::errors::{
    GetComponentDataError,
    GetComponentOfEntityError,
    GetComponentsOfEntityError,
    HasEntityComponentResult,
    RegisterEntityError,
    SetComponentDataError,
};
use vstd::prelude::*;
use vstd::string::StringExecFns;

verus! {

broadcast use vstd::string::group_string_axioms;

/// The value a read of field `k` gives on `fields`: the field's value, or
/// `Nil` where it is absent.
pub open spec fn value_or_nil(fields: Map<Seq<char>, ComponentValue>, k: Seq<char>) -> ComponentValue {
    if fields.contains_key(k) {
        fields[k]
    } else {
        ComponentValue::Nil
    }
}

/// The fields a write stores: every declared field, taken from the input
/// or `Nil` where the input lacks it; nothing else.
pub open spec fn declared_fields(declared: Set<Seq<char>>, input: Map<Seq<char>, ComponentValue>) -> Map<
    Seq<char>,
    ComponentValue,
> {
    Map::new(|k: Seq<char>| declared.contains(k), |k: Seq<char>| value_or_nil(input, k))
}

/// `prior` with every field in `names` overwritten from `input` (or set
/// to `Nil` where the input lacks it).
pub open spec fn overwrite(
    prior: Map<Seq<char>, ComponentValue>,
    names: Set<Seq<char>>,
    input: Map<Seq<char>, ComponentValue>,
) -> Map<Seq<char>, ComponentValue> {
    Map::new(
        |k: Seq<char>| prior.contains_key(k) || names.contains(k),
        |k: Seq<char>|
            if names.contains(k) {
                value_or_nil(input, k)
            } else {
                prior[k]
            },
    )
}

/// The text of the error for a name that is already registered.
pub open spec fn already_registered_text(name: Seq<char>) -> Seq<char> {
    "Component with name '"@ + name + "' already registered"@
}

/// What registering `definition` under `name` does to a world `w`,
/// leaving `w2` and returning `r`: a name is registered once; the handle is
/// the content hash of the definition and the name; the definition is kept
/// under the handle unless the handle already has one.
pub open spec fn register_component_outcome(
    w: ECSWorld,
    name: Seq<char>,
    definition: ComponentDefinition,
    w2: ECSWorld,
    r: Result<ComponentInfo, String>,
) -> bool {
    &&& w2.entities() == w.entities()
    &&& w2.records() == w.records()
    &&& if w.names().contains_key(name) {
        &&& r is Err && r->Err_0@ == already_registered_text(name)
        &&& w2.names() == w.names()
        &&& w2.definitions() == w.definitions()
    } else {
        let info = ComponentInfo { hash: component_hash(definition@, name) };
        &&& r == Ok::<ComponentInfo, String>(info)
        &&& w2.names() == w.names().insert(name, info)
        &&& w2.definitions() == if w.definitions().contains_key(info) {
            w.definitions()
        } else {
            w.definitions().insert(info, definition)
        }
    }
}

/// What writing `input` as the data of component `c` of entity `e` does to
/// a world `w`, leaving `w2` and returning `r`. The entity must be
/// registered, then the component; on success the stored data of the pair
/// holds exactly the fields the component declares, each taken from the
/// input or `Nil` where the input lacks it.
pub open spec fn set_component_data_outcome(
    w: ECSWorld,
    e: EntityId,
    c: Seq<char>,
    input: Map<Seq<char>, ComponentValue>,
    w2: ECSWorld,
    r: Result<(), SetComponentDataError>,
) -> bool {
    &&& w2.entities() == w.entities()
    &&& w2.names() == w.names()
    &&& w2.definitions() == w.definitions()
    &&& if !w.is_registered(e) {
        r == Err::<(), SetComponentDataError>(SetComponentDataError::EntityNotFound) && w2.records()
            == w.records()
    } else if !w.names().contains_key(c) {
        r == Err::<(), SetComponentDataError>(SetComponentDataError::ComponentNotFound) && w2.records()
            == w.records()
    } else {
        let stored: DataView = (e, declared_fields(schema_names(w.schema_of(c)), input));
        &&& r == Ok::<(), SetComponentDataError>(())
        &&& w2.data() == w.data().insert((e, c), stored)
        &&& w2.records() == if w.store().holds(e, c) {
            w.records().update(w.store().index_of(e, c), (e, c, stored))
        } else {
            w.records().push((e, c, stored))
        }
    }
}

/// The store as a whole: the schema registry, the registry of entities,
/// and the data the entities hold.
pub struct ECSWorld {
    component_storage: GCSComponentStorage,
    entities: Vec<EntityId>,
    component_data: GCSComponentDataStorage,
}

pub fn create_ecs_world() -> (r: ECSWorld)
    ensures
        r.wf(),
        r.names() == Map::<Seq<char>, ComponentInfo>::empty(),
        r.definitions() == Map::<ComponentInfo, ComponentDefinition>::empty(),
        r.entities() == Seq::<EntityId>::empty(),
        r.records() == Seq::<RecordView>::empty(),
{
    ECSWorld::new()
}

impl ECSWorld {
    pub closed spec fn schemas(&self) -> GCSComponentStorage {
        self.component_storage
    }

    pub closed spec fn store(&self) -> GCSComponentDataStorage {
        self.component_data
    }

    /// Registered entities, in the order they were registered.
    pub closed spec fn entities(&self) -> Seq<EntityId> {
        self.entities@
    }

    /// Registered component names and their handles.
    pub open spec fn names(&self) -> Map<Seq<char>, ComponentInfo> {
        self.schemas().names()
    }

    /// Stored schemas by handle.
    pub open spec fn definitions(&self) -> Map<ComponentInfo, ComponentDefinition> {
        self.schemas().definitions()
    }

    /// Stored component data, as records in storage order.
    pub open spec fn records(&self) -> Seq<RecordView> {
        self.store().records()
    }

    /// Stored component data by entity and component name.
    pub open spec fn data(&self) -> Map<(EntityId, Seq<char>), DataView> {
        self.store().data()
    }

    pub open spec fn is_registered(&self, e: EntityId) -> bool {
        self.entities().contains(e)
    }

    /// The schema that governs the data of component `c`.
    pub open spec fn schema_of(&self, c: Seq<char>) -> Seq<FieldView> {
        self.definitions()[self.names()[c]]@
    }

    /// Both storages are well formed, and every stored data belongs to a
    /// registered entity, is owned by it, is of a registered component, and
    /// holds only fields that component declares.
    pub open spec fn wf(&self) -> bool {
        &&& self.schemas().wf()
        &&& self.store().wf()
        &&& forall|k: (EntityId, Seq<char>)| #[trigger] self.data().contains_key(k) ==> self.data_fits(k)
    }

    /// The data stored under `k` belongs to a registered entity, is owned
    /// by it, is of a registered component, and holds only fields that
    /// component declares.
    pub open spec fn data_fits(&self, k: (EntityId, Seq<char>)) -> bool {
        &&& self.is_registered(k.0)
        &&& self.names().contains_key(k.1)
        &&& self.data()[k].0 == k.0
        &&& self.data()[k].1.dom().subset_of(schema_names(self.schema_of(k.1)))
    }

    /// The invariant survives a change that keeps every registered entity,
    /// every registered name and every stored definition, and that touches
    /// the stored data only under the keys in `changed`, where the new data
    /// fits.
    proof fn lemma_wf_kept(&self, other: &Self, changed: Set<(EntityId, Seq<char>)>)
        requires
            self.wf(),
            other.schemas().wf(),
            other.store().wf(),
            forall|e: EntityId| self.is_registered(e) ==> #[trigger] other.is_registered(e),
            forall|c: Seq<char>| #[trigger]
                self.names().contains_key(c) ==> other.names().contains_key(c) && other.names()[c]
                    == self.names()[c],
            forall|i: ComponentInfo| #[trigger]
                self.definitions().contains_key(i) ==> other.definitions().contains_key(i)
                    && other.definitions()[i] == self.definitions()[i],
            forall|k: (EntityId, Seq<char>)| #[trigger]
                other.data().contains_key(k) && !changed.contains(k) ==> self.data().contains_key(k)
                    && other.data()[k] == self.data()[k],
            forall|k: (EntityId, Seq<char>)| #[trigger]
                changed.contains(k) && other.data().contains_key(k) ==> other.data_fits(k),
        ensures
            other.wf(),
    {
        assert forall|k: (EntityId, Seq<char>)| #[trigger] other.data().contains_key(k) implies other.data_fits(k) by {
            if !changed.contains(k) {
                assert(self.data().contains_key(k));
                assert(self.names().contains_key(k.1));
                let info = self.names()[k.1];
                assert(self.definitions().contains_key(info));
                assert(other.names()[k.1] == info);
                assert(other.definitions()[info] == self.definitions()[info]);
            }
        }
    }

    pub fn new() -> (r: Self)
        ensures
            r.wf(),
            r.names() == Map::<Seq<char>, ComponentInfo>::empty(),
            r.definitions() == Map::<ComponentInfo, ComponentDefinition>::empty(),
            r.entities() == Seq::<EntityId>::empty(),
            r.records() == Seq::<RecordView>::empty(),
    {
        let r = ECSWorld {
            component_storage: GCSComponentStorage::new(),
            entities: Vec::new(),
            component_data: GCSComponentDataStorage::new(),
        };
        assert(r.data() =~= Map::<(EntityId, Seq<char>), DataView>::empty());
        r
    }

    fn contains_entity(&self, entity: &EntityId) -> (r: bool)
        ensures
            r == self.is_registered(*entity),
    {
        let mut i: usize = 0;
        while i < self.entities.len()
            invariant
                i <= self.entities@.len(),
                forall|j: int| 0 <= j < i ==> self.entities@[j] != *entity,
            decreases self.entities@.len() - i,
        {
            if self.entities[i] == *entity {
                assert(self.entities@[i as int] == *entity);
                return true;
            }
            i = i + 1;
        }
        false
    }

    /// The schema registry, for reading.
    pub fn component_storage(&self) -> (r: &GCSComponentStorage)
        ensures
            *r == self.schemas(),
    {
        &self.component_storage
    }

    pub fn has_component(&self, name: &str) -> (r: bool)
        requires
            self.wf(),
        ensures
            r == self.names().contains_key(name@),
    {
        self.component_storage.has_component(name)
    }

    pub fn register_component(&mut self, name: &str, component_definition: ComponentDefinition) -> (r:
        Result<ComponentInfo, String>)
        requires
            old(self).wf(),
        ensures
            final(self).wf(),
            register_component_outcome(*old(self), name@, component_definition, *final(self), r),
    {
        let ghost before = *self;
        let r = self.component_storage.add_component(name, component_definition);
        proof {
            assert(self.entities() == before.entities());
            before.lemma_wf_kept(self, Set::empty());
        }
        match r {
            Ok(info) => Ok(info),
            Err(_) => {
                let mut message = "Component with name '".to_string();
                message.append(name);
                message.append("' already registered");
                Err(message)
            },
        }
    }

    /// Registers a fresh random id and returns it.
    pub fn create_entity(&mut self) -> (r: EntityId)
        requires
            old(self).wf(),
        ensures
            final(self).wf(),
            (r.id >> 76u128) & 0xfu128 == 4,
            (r.id >> 62u128) & 0x3u128 == 2,
            final(self).entities() == old(self).entities().push(r),
            final(self).names() == old(self).names(),
            final(self).definitions() == old(self).definitions(),
            final(self).records() == old(self).records(),
    {
        let ghost before = *self;
        let id = EntityId::create();
        self.entities.push(id);
        proof {
            assert forall|e: EntityId| before.is_registered(e) implies #[trigger] self.is_registered(e) by {
                let j = choose|j: int| 0 <= j < before.entities@.len() && before.entities@[j] == e;
                assert(self.entities@[j] == e);
            }
            before.lemma_wf_kept(self, Set::empty());
        }
        id
    }

    /// Registers an id that came from elsewhere; an id is registered once.
    pub fn register_entity(&mut self, id: &EntityId) -> (r: Result<(), RegisterEntityError>)
        requires
            old(self).wf(),
        ensures
            final(self).wf(),
            final(self).names() == old(self).names(),
            final(self).definitions() == old(self).definitions(),
            final(self).records() == old(self).records(),
            old(self).is_registered(*id) ==> r == Err::<(), RegisterEntityError>(
                RegisterEntityError::AlreadyRegistered,
            ) && final(self).entities() == old(self).entities(),
            !old(self).is_registered(*id) ==> r == Ok::<(), RegisterEntityError>(())
                && final(self).entities() == old(self).entities().push(*id),
    {
        if self.contains_entity(id) {
            return Err(RegisterEntityError::AlreadyRegistered);
        }
        let ghost before = *self;
        self.entities.push(*id);
        proof {
            assert forall|e: EntityId| before.is_registered(e) implies #[trigger] self.is_registered(e) by {
                let j = choose|j: int| 0 <= j < before.entities@.len() && before.entities@[j] == e;
                assert(self.entities@[j] == e);
            }
            before.lemma_wf_kept(self, Set::empty());
        }
        Ok(())
    }

    /// Writes the declared fields of component `component` of an entity
    /// from `data`, attaching the component to the entity first where it
    /// is not attached yet. Fields of `data` the component does not declare
    /// are left out; declared fields `data` lacks are written as `Nil`.
    /// The world is borrowed exclusively for the write, so no other access
    /// to the stored data can be in progress and `DataInUse` never comes.
    pub fn set_component_data(&mut self, entity_id: &EntityId, component: &str, data: &ComponentData) -> (r:
        Result<(), SetComponentDataError>)
        requires
            old(self).wf(),
            data.wf(),
        ensures
            final(self).wf(),
            set_component_data_outcome(*old(self), *entity_id, component@, data@, *final(self), r),
    {
        if !self.contains_entity(entity_id) {
            return Err(SetComponentDataError::EntityNotFound);
        }
        if !self.component_storage.has_component(component) {
            return Err(SetComponentDataError::ComponentNotFound);
        }
        let ghost before = *self;
        let ghost c = component@;
        let ghost e = *entity_id;
        // A registered name always has a handle with a stored definition
        // (`wf`), so neither lookup below misses.
        let info = match self.component_storage.get_component_info(component) {
            Some(info) => *info,
            None => {
                return Err(SetComponentDataError::ComponentNotFound);
            },
        };
        let definition = match self.component_storage.get_component_definition(&info) {
            Some(d) => d,
            None => {
                return Err(SetComponentDataError::ComponentNotFound);
            },
        };
        let mut stored = match self.component_data.get_of_entity(entity_id, component) {
            Ok(d) => d.clone(),
            Err(_) => ComponentData::new(*entity_id),
        };
        let ghost prior = stored@;
        assert(stored.entity == e) by {
            if before.data().contains_key((e, c)) {
                assert(before.data()[(e, c)].0 == e);
            }
        }
        let ghost declared = schema_names(definition@);
        assert(definition@ == before.schema_of(c));
        assert(prior.dom().subset_of(declared)) by {
            if before.data().contains_key((e, c)) {
                assert(before.data()[(e, c)].1.dom().subset_of(schema_names(before.schema_of(c))));
            } else {
                assert(prior.dom() =~= Set::<Seq<char>>::empty());
            }
        }
        assert(prior =~= overwrite(prior, schema_names(definition@.subrange(0, 0)), data@));
        let mut i: usize = 0;
        while i < definition.fields.len()
            invariant
                i <= definition.fields@.len(),
                stored.wf(),
                stored.entity == e,
                data.wf(),
                stored@ == overwrite(prior, schema_names(definition@.subrange(0, i as int)), data@),
            decreases definition.fields@.len() - i,
        {
            let name = definition.fields[i].name.clone();
            let value = data.get_field(definition.fields[i].name.clone());
            let ghost before_step = stored@;
            stored.set_field(name, &value);
            proof {
                let k = definition.fields@[i as int].name@;
                let old_names = schema_names(definition@.subrange(0, i as int));
                let new_names = schema_names(definition@.subrange(0, i + 1));
                assert(new_names =~= old_names.insert(k)) by {
                    assert forall|x: Seq<char>| new_names.contains(x) <==> old_names.insert(k).contains(x) by {
                        if new_names.contains(x) {
                            let j = choose|j: int|
                                0 <= j < definition@.subrange(0, i + 1).len()
                                    && #[trigger] definition@.subrange(0, i + 1)[j].0 == x;
                            if j < i {
                                assert(definition@.subrange(0, i as int)[j].0 == x);
                            }
                        }
                        if old_names.contains(x) {
                            let j = choose|j: int|
                                0 <= j < definition@.subrange(0, i as int).len()
                                    && #[trigger] definition@.subrange(0, i as int)[j].0 == x;
                            assert(definition@.subrange(0, i + 1)[j].0 == x);
                        }
                        if x == k {
                            assert(definition@.subrange(0, i + 1)[i as int].0 == x);
                        }
                    }
                }
                assert(stored@ =~= overwrite(prior, new_names, data@));
            }
            i = i + 1;
        }
        assert(definition@.subrange(0, definition.fields@.len() as int) =~= definition@);
        assert(stored@ =~= declared_fields(declared, data@));
        self.component_data.set_component_of_entity(entity_id, component, &stored);
        proof {
            assert(self.entities() == before.entities());
            before.lemma_wf_kept(self, set![(e, c)]);
        }
        Ok(())
    }

    /// Attaches component `component` to an entity with no fields set. The
    /// component must be registered, then the entity, and the pair must
    /// not be attached yet.
    pub fn add_component_to_entity(&mut self, entity_id: &EntityId, component: &str) -> (r: Result<(), String>)
        requires
            old(self).wf(),
        ensures
            final(self).wf(),
            final(self).entities() == old(self).entities(),
            final(self).names() == old(self).names(),
            final(self).definitions() == old(self).definitions(),
            !old(self).names().contains_key(component@) ==> r is Err && r->Err_0@
                == "Component is not registered"@ && final(self).records() == old(self).records(),
            old(self).names().contains_key(component@) && !old(self).is_registered(*entity_id) ==> r is Err
                && r->Err_0@ == "Entity is not registered"@ && final(self).records() == old(self).records(),
            old(self).names().contains_key(component@) && old(self).is_registered(*entity_id)
                && old(self).data().contains_key((*entity_id, component@)) ==> r is Err && r->Err_0@
                == "Component was already added for that entity"@ && final(self).records() == old(
                self,
            ).records(),
            old(self).names().contains_key(component@) && old(self).is_registered(*entity_id)
                && !old(self).data().contains_key((*entity_id, component@)) ==> r is Ok && final(self).records()
                == old(self).records().push(
                (*entity_id, component@, (*entity_id, Map::<Seq<char>, ComponentValue>::empty())),
            ),
    {
        if !self.component_storage.has_component(component) {
            return Err("Component is not registered".to_string());
        }
        if !self.contains_entity(entity_id) {
            return Err("Entity is not registered".to_string());
        }
        if self.component_data.get_of_entity(entity_id, component).is_ok() {
            return Err("Component was already added for that entity".to_string());
        }
        let ghost before = *self;
        let ghost e = *entity_id;
        let ghost c = component@;
        let data = ComponentData::new(*entity_id);
        self.component_data.set_component_of_entity(entity_id, component, &data);
        proof {
            assert(self.entities() == before.entities());
            before.lemma_wf_kept(self, set![(e, c)]);
        }
        Ok(())
    }

    /// Whether an entity carries a component; an entity that is not
    /// registered is reported as such.
    pub fn is_component_added_to_entity(&self, entity_id: &EntityId, component: &str) -> (r:
        HasEntityComponentResult)
        requires
            self.wf(),
        ensures
            r == if !self.is_registered(*entity_id) {
                HasEntityComponentResult::EntityNotFound
            } else if self.data().contains_key((*entity_id, component@)) {
                HasEntityComponentResult::EntityHasComponent
            } else {
                HasEntityComponentResult::EntityDoesNotHaveComponent
            },
    {
        if !self.contains_entity(entity_id) {
            HasEntityComponentResult::EntityNotFound
        } else if self.component_data.get_of_entity(entity_id, component).is_ok() {
            HasEntityComponentResult::EntityHasComponent
        } else {
            HasEntityComponentResult::EntityDoesNotHaveComponent
        }
    }

    /// The names of the components an entity carries, once each; empty
    /// for a registered entity without components.
    pub fn get_components_of_entity(&self, entity_id: &EntityId) -> (r: Result<
        Vec<String>,
        GetComponentsOfEntityError,
    >)
        requires
            self.wf(),
        ensures
            !self.is_registered(*entity_id) ==> r == Err::<Vec<String>, GetComponentsOfEntityError>(
                GetComponentsOfEntityError::EntityNotFound,
            ),
            self.is_registered(*entity_id) ==> r is Ok && ({
                let v = r->Ok_0;
                let f = self.records().filter(of_entity(*entity_id));
                &&& v@.len() == f.len()
                &&& forall|j: int| 0 <= j < v@.len() ==> (#[trigger] v@[j])@ == f[j].1
                &&& forall|c: Seq<char>|
                    self.data().contains_key((*entity_id, c)) <==> exists|j: int|
                        0 <= j < v@.len() && (#[trigger] v@[j])@ == c
            }),
    {
        let ghost e = *entity_id;
        let ghost p = of_entity(e);
        let ghost f = self.records().filter(p);
        let v: Vec<String> = match self.component_data.get_components_of_entity(entity_id) {
            Some(v) => v,
            None => {
                if !self.contains_entity(entity_id) {
                    return Err(GetComponentsOfEntityError::EntityNotFound);
                }
                proof {
                    if f.len() > 0 {
                        self.records().lemma_filter_pred(p, 0);
                        assert(f.contains(f[0]));
                        self.records().lemma_filter_contains_rev(p, f[0]);
                        let i = choose|i: int| 0 <= i < self.records().len() && self.records()[i] == f[0];
                        assert(self.records()[i].0 == e);
                    }
                }
                Vec::new()
            },
        };
        proof {
            if self.store().has_entity_spec(e) {
                let i = choose|i: int| 0 <= i < self.records().len() && #[trigger] self.records()[i].0 == e;
                self.store().lemma_record_at(i);
                assert(self.data().contains_key((e, self.records()[i].1)));
            }
            assert forall|c: Seq<char>|
                self.data().contains_key((e, c)) <==> exists|j: int| 0 <= j < v@.len() && (#[trigger] v@[j])@ == c by {
                if self.data().contains_key((e, c)) {
                    let i = self.store().index_of(e, c);
                    self.records().lemma_filter_contains(p, i);
                    let j = choose|j: int| 0 <= j < f.len() && f[j] == self.records()[i];
                    assert(v@[j]@ == c);
                }
                if exists|j: int| 0 <= j < v@.len() && (#[trigger] v@[j])@ == c {
                    let j = choose|j: int| 0 <= j < v@.len() && (#[trigger] v@[j])@ == c;
                    self.records().lemma_filter_pred(p, j);
                    assert(f.contains(f[j]));
                    self.records().lemma_filter_contains_rev(p, f[j]);
                    let i = choose|i: int| 0 <= i < self.records().len() && self.records()[i] == f[j];
                    self.store().lemma_record_at(i);
                }
            }
        }
        Ok(v)
    }

    /// A copy of the data an entity holds for a component. An unregistered
    /// component is reported first, then an unregistered entity, then a
    /// component the entity does not carry.
    pub fn get_component_of_entity(&self, entity_id: &EntityId, component: &str) -> (r: Result<
        ComponentData,
        GetComponentOfEntityError,
    >)
        requires
            self.wf(),
        ensures
            r == Err::<ComponentData, GetComponentOfEntityError>(GetComponentOfEntityError::ComponentNotFound)
                <==> !self.names().contains_key(component@),
            r == Err::<ComponentData, GetComponentOfEntityError>(GetComponentOfEntityError::EntityNotFound)
                <==> self.names().contains_key(component@) && !self.is_registered(*entity_id),
            r == Err::<ComponentData, GetComponentOfEntityError>(GetComponentOfEntityError::ComponentNotInEntity)
                <==> self.names().contains_key(component@) && self.is_registered(*entity_id)
                && !self.data().contains_key((*entity_id, component@)),
            r is Ok <==> self.names().contains_key(component@) && self.is_registered(*entity_id)
                && self.data().contains_key((*entity_id, component@)),
            r matches Ok(d) ==> d.wf() && self.data().contains_key((*entity_id, component@)) && d.data_view()
                == self.data()[(*entity_id, component@)],
    {
        if !self.component_storage.has_component(component) {
            return Err(GetComponentOfEntityError::ComponentNotFound);
        }
        if !self.contains_entity(entity_id) {
            return Err(GetComponentOfEntityError::EntityNotFound);
        }
        match self.component_data.get_of_entity(entity_id, component) {
            Ok(d) => Ok(d.clone()),
            Err(_) => Err(GetComponentOfEntityError::ComponentNotInEntity),
        }
    }

    /// Copies of the data of every entity that carries the component, in
    /// storage order.
    pub fn get_component_data(&self, name: &str) -> (r: Result<Vec<ComponentData>, GetComponentDataError>)
        requires
            self.wf(),
        ensures
            !self.names().contains_key(name@) ==> r == Err::<Vec<ComponentData>, GetComponentDataError>(
                GetComponentDataError::ComponentNotFound,
            ),
            self.names().contains_key(name@) ==> r is Ok && ({
                let v = r->Ok_0;
                let f = self.records().filter(of_component(name@));
                &&& v@.len() == f.len()
                &&& forall|j: int| 0 <= j < v@.len() ==> (#[trigger] v@[j]).data_view() == f[j].2
            }),
    {
        if !self.component_storage.has_component(name) {
            return Err(GetComponentDataError::ComponentNotFound);
        }
        let ghost f = self.records().filter(of_component(name@));
        let found = self.component_data.get_all_of_component(name);
        let mut out: Vec<ComponentData> = Vec::new();
        match found {
            Some(refs) => {
                let mut i: usize = 0;
                while i < refs.len()
                    invariant
                        i <= refs@.len(),
                        refs@.len() == f.len(),
                        forall|j: int| 0 <= j < refs@.len() ==> (#[trigger] refs@[j]).data_view() == f[j].2,
                        out@.len() == i,
                        forall|j: int| 0 <= j < i ==> (#[trigger] out@[j]).data_view() == f[j].2,
                    decreases refs@.len() - i,
                {
                    out.push(refs[i].clone());
                    i = i + 1;
                }
            },
            None => {},
        }
        Ok(out)
    }
}

impl Default for ECSWorld {
    fn default() -> (r: Self)
        ensures
            r.wf(),
            r.names() == Map::<Seq<char>, ComponentInfo>::empty(),
            r.definitions() == Map::<ComponentInfo, ComponentDefinition>::empty(),
            r.entities() == Seq::<EntityId>::empty(),
            r.records() == Seq::<RecordView>::empty(),
    {
        ECSWorld::new()
    }
}

} // verus!
