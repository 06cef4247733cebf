use crate::component_data::{ComponentData, DataView};
use crate::entity::EntityId;
use crate::errors::{GetComponentOfEntityError, HasEntityComponentResult};
use vstd::prelude::*;

verus! {

broadcast use vstd::string::group_string_axioms;

/// One stored record: an entity, a component name, and the data the entity
/// holds for that component.
pub type RecordView = (EntityId, Seq<char>, DataView);

/// Records of one component.
pub open spec fn of_component(c: Seq<char>) -> spec_fn(RecordView) -> bool {
    |rec: RecordView| rec.1 == c
}

/// Records of one entity.
pub open spec fn of_entity(e: EntityId) -> spec_fn(RecordView) -> bool {
    |rec: RecordView| rec.0 == e
}

struct DataRecord {
    entity: EntityId,
    name: String,
    data: ComponentData,
}

/// Per-entity component data: at most one record for each pair of entity
/// and component name.
pub struct GCSComponentDataStorage {
    records: Vec<DataRecord>,
}

impl GCSComponentDataStorage {
    /// The records, in the order they were first stored.
    pub closed spec fn records(&self) -> Seq<RecordView> {
        self.records@.map_values(|r: DataRecord| (r.entity, r.name@, r.data.data_view()))
    }

    pub closed spec fn stored_data_wf(&self) -> bool {
        forall|i: int| 0 <= i < self.records@.len() ==> #[trigger] self.records@[i].data.wf()
    }

    /// Keys are unique and every stored data is well formed.
    pub open spec fn wf(&self) -> bool {
        &&& self.stored_data_wf()
        &&& forall|i: int, j: int|
            0 <= i < self.records().len() && 0 <= j < self.records().len() && i != j ==> (
            #[trigger] self.records()[i]).0 != (#[trigger] self.records()[j]).0 || self.records()[i].1
                != self.records()[j].1
    }

    pub open spec fn holds(&self, e: EntityId, c: Seq<char>) -> bool {
        exists|i: int| 0 <= i < self.records().len() && #[trigger] self.records()[i].0 == e && self.records()[i].1 == c
    }

    pub open spec fn index_of(&self, e: EntityId, c: Seq<char>) -> int {
        choose|i: int| 0 <= i < self.records().len() && #[trigger] self.records()[i].0 == e && self.records()[i].1 == c
    }

    /// The stored data by entity and component name.
    pub open spec fn data(&self) -> Map<(EntityId, Seq<char>), DataView> {
        Map::new(
            |k: (EntityId, Seq<char>)| self.holds(k.0, k.1),
            |k: (EntityId, Seq<char>)| self.records()[self.index_of(k.0, k.1)].2,
        )
    }

    /// The entity has at least one component stored.
    pub open spec fn has_entity_spec(&self, e: EntityId) -> bool {
        exists|i: int| 0 <= i < self.records().len() && #[trigger] self.records()[i].0 == e
    }

    pub proof fn lemma_record_at(&self, i: int)
        requires
            self.wf(),
            0 <= i < self.records().len(),
        ensures
            self.data().contains_key((self.records()[i].0, self.records()[i].1)),
            self.data()[(self.records()[i].0, self.records()[i].1)] == self.records()[i].2,
    {
        let e = self.records()[i].0;
        let c = self.records()[i].1;
        assert(self.holds(e, c));
        let j = self.index_of(e, c);
        assert(self.records()[j].0 == e && self.records()[j].1 == c);
    }

    pub fn new() -> (r: Self)
        ensures
            r.wf(),
            r.records() == Seq::<RecordView>::empty(),
    {
        let r = GCSComponentDataStorage { records: Vec::new() };
        assert(r.records() =~= Seq::<RecordView>::empty());
        r
    }

    fn find(&self, entity: &EntityId, component_name: &str) -> (r: Option<usize>)
        requires
            self.wf(),
        ensures
            r matches Some(i) ==> i < self.records().len() && self.records()[i as int].0 == *entity
                && self.records()[i as int].1 == component_name@,
            r is None ==> !self.holds(*entity, component_name@),
    {
        let key = component_name.to_string();
        let mut i: usize = 0;
        while i < self.records.len()
            invariant
                self.wf(),
                key@ == component_name@,
                i <= self.records@.len(),
                forall|j: int|
                    0 <= j < i ==> !(#[trigger] self.records()[j].0 == *entity && self.records()[j].1
                        == component_name@),
            decreases self.records@.len() - i,
        {
            if self.records[i].entity == *entity && self.records[i].name == key {
                return Some(i);
            }
            i = i + 1;
        }
        None
    }

    pub fn has_entity(&self, entity: &EntityId) -> (r: bool)
        requires
            self.wf(),
        ensures
            r == self.has_entity_spec(*entity),
    {
        let mut i: usize = 0;
        while i < self.records.len()
            invariant
                i <= self.records@.len(),
                forall|j: int| 0 <= j < i ==> #[trigger] self.records()[j].0 != *entity,
            decreases self.records@.len() - i,
        {
            if self.records[i].entity == *entity {
                assert(self.records()[i as int].0 == *entity);
                return true;
            }
            i = i + 1;
        }
        false
    }

    pub fn does_entity_have_component(&self, entity: &EntityId, component_name: &str) -> (r:
        HasEntityComponentResult)
        requires
            self.wf(),
        ensures
            r == if !self.has_entity_spec(*entity) {
                HasEntityComponentResult::EntityNotFound
            } else if self.data().contains_key((*entity, component_name@)) {
                HasEntityComponentResult::EntityHasComponent
            } else {
                HasEntityComponentResult::EntityDoesNotHaveComponent
            },
    {
        if !self.has_entity(entity) {
            HasEntityComponentResult::EntityNotFound
        } else {
            match self.find(entity, component_name) {
                Some(i) => {
                    proof {
                        self.lemma_record_at(i as int);
                    }
                    HasEntityComponentResult::EntityHasComponent
                },
                None => HasEntityComponentResult::EntityDoesNotHaveComponent,
            }
        }
    }

    pub fn get_of_entity(&self, entity: &EntityId, component_name: &str) -> (r: Result<
        &ComponentData,
        GetComponentOfEntityError,
    >)
        requires
            self.wf(),
        ensures
            match r {
                Ok(d) => self.data().contains_key((*entity, component_name@)) && d.data_view()
                    == self.data()[(*entity, component_name@)] && d.wf(),
                Err(e) => e == if self.has_entity_spec(*entity) {
                    GetComponentOfEntityError::ComponentNotInEntity
                } else {
                    GetComponentOfEntityError::EntityNotFound
                } && !self.data().contains_key((*entity, component_name@)),
            },
    {
        match self.find(entity, component_name) {
            Some(i) => {
                proof {
                    self.lemma_record_at(i as int);
                    assert(self.records@[i as int].data.wf());
                }
                Ok(&self.records[i].data)
            },
            None => {
                if self.has_entity(entity) {
                    Err(GetComponentOfEntityError::ComponentNotInEntity)
                } else {
                    Err(GetComponentOfEntityError::EntityNotFound)
                }
            },
        }
    }

    /// Stores a copy of `component_data` under the entity and component
    /// name, replacing what was there; a new pair is appended.
    pub fn set_component_of_entity(
        &mut self,
        entity: &EntityId,
        component_name: &str,
        component_data: &ComponentData,
    )
        requires
            old(self).wf(),
            component_data.wf(),
        ensures
            final(self).wf(),
            final(self).data() == old(self).data().insert(
                (*entity, component_name@),
                component_data.data_view(),
            ),
            final(self).records() == if old(self).holds(*entity, component_name@) {
                old(self).records().update(
                    old(self).index_of(*entity, component_name@),
                    (*entity, component_name@, component_data.data_view()),
                )
            } else {
                old(self).records().push((*entity, component_name@, component_data.data_view()))
            },
    {
        let ghost before = *self;
        let ghost k = (*entity, component_name@);
        let ghost dv = component_data.data_view();
        let record = DataRecord {
            entity: *entity,
            name: component_name.to_string(),
            data: component_data.clone(),
        };
        match self.find(entity, component_name) {
            Some(i) => {
                proof {
                    before.lemma_record_at(i as int);
                    let j = before.index_of(k.0, k.1);
                    assert(before.records()[j].0 == k.0 && before.records()[j].1 == k.1);
                    assert(i as int == j);
                }
                self.records.set(i, record);
                assert(self.records() =~= before.records().update(i as int, (k.0, k.1, dv)));
                assert(self.stored_data_wf());
                assert(self.wf());
                assert forall|key: (EntityId, Seq<char>)| #[trigger]
                    self.data().contains_key(key) == before.data().insert(k, dv).contains_key(key) && (
                    self.data().contains_key(key) ==> self.data()[key] == before.data().insert(k, dv)[key]) by {
                    if key == k {
                        self.lemma_record_at(i as int);
                    } else if before.holds(key.0, key.1) {
                        let j = before.index_of(key.0, key.1);
                        before.lemma_record_at(j);
                        self.lemma_record_at(j);
                    } else if self.holds(key.0, key.1) {
                        let j = self.index_of(key.0, key.1);
                        assert(before.records()[j].0 == key.0 && before.records()[j].1 == key.1);
                    }
                }
                assert(self.data() =~= before.data().insert(k, dv));
            },
            None => {
                self.records.push(record);
                let ghost n = (self.records@.len() - 1) as int;
                assert(self.records() =~= before.records().push((k.0, k.1, dv)));
                assert(self.stored_data_wf());
                assert(self.wf()) by {
                    assert forall|a: int, b: int|
                        0 <= a < self.records().len() && 0 <= b < self.records().len() && a != b implies (
                        #[trigger] self.records()[a]).0 != (#[trigger] self.records()[b]).0
                            || self.records()[a].1 != self.records()[b].1 by {
                        if a == n {
                            assert(!(before.records()[b].0 == k.0 && before.records()[b].1 == k.1));
                        } else if b == n {
                            assert(!(before.records()[a].0 == k.0 && before.records()[a].1 == k.1));
                        }
                    }
                }
                assert forall|key: (EntityId, Seq<char>)| #[trigger]
                    self.data().contains_key(key) == before.data().insert(k, dv).contains_key(key) && (
                    self.data().contains_key(key) ==> self.data()[key] == before.data().insert(k, dv)[key]) by {
                    if key == k {
                        self.lemma_record_at(n);
                    } else if before.holds(key.0, key.1) {
                        let j = before.index_of(key.0, key.1);
                        before.lemma_record_at(j);
                        self.lemma_record_at(j);
                    } else if self.holds(key.0, key.1) {
                        let j = self.index_of(key.0, key.1);
                        assert(j != n);
                        assert(before.records()[j].0 == key.0 && before.records()[j].1 == key.1);
                    }
                }
                assert(self.data() =~= before.data().insert(k, dv));
            },
        }
    }

    /// Every stored data, in record order.
    pub fn get_all(&self) -> (r: Vec<&ComponentData>)
        requires
            self.wf(),
        ensures
            r@.len() == self.records().len(),
            forall|j: int| 0 <= j < r@.len() ==> (#[trigger] r@[j]).data_view() == self.records()[j].2,
    {
        let mut out: Vec<&ComponentData> = Vec::new();
        let mut i: usize = 0;
        while i < self.records.len()
            invariant
                i <= self.records@.len(),
                out@.len() == i,
                forall|j: int| 0 <= j < i ==> (#[trigger] out@[j]).data_view() == self.records()[j].2,
            decreases self.records@.len() - i,
        {
            out.push(&self.records[i].data);
            i = i + 1;
        }
        out
    }

    /// The data of every entity that carries the component, in record
    /// order; `None` where no entity carries it.
    pub fn get_all_of_component(&self, component_name: &str) -> (r: Option<Vec<&ComponentData>>)
        requires
            self.wf(),
        ensures
            ({
                let f = self.records().filter(of_component(component_name@));
                &&& r is None <==> f.len() == 0
                &&& r matches Some(v) ==> v@.len() == f.len() && forall|j: int|
                    0 <= j < v@.len() ==> (#[trigger] v@[j]).data_view() == f[j].2
            }),
    {
        let ghost p = of_component(component_name@);
        let key = component_name.to_string();
        let mut out: Vec<&ComponentData> = Vec::new();
        let mut i: usize = 0;
        while i < self.records.len()
            invariant
                key@ == component_name@,
                p == of_component(component_name@),
                i <= self.records@.len(),
                out@.len() == self.records().subrange(0, i as int).filter(p).len(),
                forall|j: int|
                    0 <= j < out@.len() ==> (#[trigger] out@[j]).data_view() == self.records().subrange(
                        0,
                        i as int,
                    ).filter(p)[j].2,
            decreases self.records@.len() - i,
        {
            proof {
                assert(self.records().subrange(0, i + 1) =~= self.records().subrange(0, i as int).push(
                    self.records()[i as int],
                ));
                self.records().subrange(0, i as int).lemma_filter_push(self.records()[i as int], p);
            }
            if self.records[i].name == key {
                out.push(&self.records[i].data);
            }
            i = i + 1;
        }
        assert(self.records().subrange(0, self.records().len() as int) =~= self.records());
        if out.len() == 0 {
            None
        } else {
            Some(out)
        }
    }

    /// The data of every component the entity carries; `None` where it
    /// carries none.
    pub fn get_all_of_entity(&self, entity: &EntityId) -> (r: Option<Vec<&ComponentData>>)
        requires
            self.wf(),
        ensures
            ({
                let f = self.records().filter(of_entity(*entity));
                &&& r is None <==> !self.has_entity_spec(*entity)
                &&& r matches Some(v) ==> v@.len() == f.len() && forall|j: int|
                    0 <= j < v@.len() ==> (#[trigger] v@[j]).data_view() == f[j].2
            }),
    {
        let ghost p = of_entity(*entity);
        let mut out: Vec<&ComponentData> = Vec::new();
        let mut i: usize = 0;
        while i < self.records.len()
            invariant
                p == of_entity(*entity),
                i <= self.records@.len(),
                out@.len() == self.records().subrange(0, i as int).filter(p).len(),
                forall|j: int|
                    0 <= j < out@.len() ==> (#[trigger] out@[j]).data_view() == self.records().subrange(
                        0,
                        i as int,
                    ).filter(p)[j].2,
                out@.len() > 0 || forall|j: int| 0 <= j < i ==> #[trigger] self.records()[j].0 != *entity,
                out@.len() > 0 ==> self.has_entity_spec(*entity),
            decreases self.records@.len() - i,
        {
            proof {
                assert(self.records().subrange(0, i + 1) =~= self.records().subrange(0, i as int).push(
                    self.records()[i as int],
                ));
                self.records().subrange(0, i as int).lemma_filter_push(self.records()[i as int], p);
            }
            if self.records[i].entity == *entity {
                assert(self.records()[i as int].0 == *entity);
                out.push(&self.records[i].data);
            }
            i = i + 1;
        }
        assert(self.records().subrange(0, self.records().len() as int) =~= self.records());
        if out.len() == 0 {
            None
        } else {
            Some(out)
        }
    }

    /// The names of the components the entity carries; `None` where it
    /// carries none.
    pub fn get_components_of_entity(&self, entity: &EntityId) -> (r: Option<Vec<String>>)
        requires
            self.wf(),
        ensures
            ({
                let f = self.records().filter(of_entity(*entity));
                &&& r is None <==> !self.has_entity_spec(*entity)
                &&& r matches Some(v) ==> v@.len() == f.len() && forall|j: int|
                    0 <= j < v@.len() ==> (#[trigger] v@[j])@ == f[j].1
            }),
    {
        let ghost p = of_entity(*entity);
        let mut out: Vec<String> = Vec::new();
        let mut i: usize = 0;
        while i < self.records.len()
            invariant
                p == of_entity(*entity),
                i <= self.records@.len(),
                out@.len() == self.records().subrange(0, i as int).filter(p).len(),
                forall|j: int|
                    0 <= j < out@.len() ==> (#[trigger] out@[j])@ == self.records().subrange(
                        0,
                        i as int,
                    ).filter(p)[j].1,
                out@.len() > 0 || forall|j: int| 0 <= j < i ==> #[trigger] self.records()[j].0 != *entity,
                out@.len() > 0 ==> self.has_entity_spec(*entity),
            decreases self.records@.len() - i,
        {
            proof {
                assert(self.records().subrange(0, i + 1) =~= self.records().subrange(0, i as int).push(
                    self.records()[i as int],
                ));
                self.records().subrange(0, i as int).lemma_filter_push(self.records()[i as int], p);
            }
            if self.records[i].entity == *entity {
                assert(self.records()[i as int].0 == *entity);
                out.push(self.records[i].name.clone());
            }
            i = i + 1;
        }
        assert(self.records().subrange(0, self.records().len() as int) =~= self.records());
        if out.len() == 0 {
            None
        } else {
            Some(out)
        }
    }
}

impl Default for GCSComponentDataStorage {
    fn default() -> (r: Self)
        ensures
            r.wf(),
            r.records() == Seq::<RecordView>::empty(),
    {
        GCSComponentDataStorage::new()
    }
}

} // verus!
