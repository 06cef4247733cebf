use crate::component_value::ComponentValue;
use crate::entity::EntityId;
use vstd::prelude::*;

verus! {

/// Component data as a mathematical value: the owning entity and the
/// fields by name.
pub type DataView = (EntityId, Map<Seq<char>, ComponentValue>);

/// One stored field: its name and its value.
#[derive(Debug, PartialEq)]
pub struct ComponentField {
    pub name: String,
    pub value: ComponentValue,
}

impl Clone for ComponentField {
    fn clone(&self) -> (r: Self)
        ensures
            r == *self,
    {
        ComponentField { name: self.name.clone(), value: self.value.clone() }
    }
}

/// The field values one entity holds for one component. Field names are
/// unique; reading a field that is not there gives `Nil`.
#[derive(Debug, PartialEq)]
pub struct ComponentData {
    pub entity: EntityId,
    pub fields: Vec<ComponentField>,
}

impl ComponentData {
    /// Field names are unique.
    pub open spec fn wf(&self) -> bool {
        forall|i: int, j: int|
            0 <= i < self.fields@.len() && 0 <= j < self.fields@.len() && i != j
                ==> #[trigger] self.fields@[i].name@ != #[trigger] self.fields@[j].name@
    }

    pub open spec fn has_field(&self, k: Seq<char>) -> bool {
        exists|i: int| 0 <= i < self.fields@.len() && #[trigger] self.fields@[i].name@ == k
    }

    pub open spec fn index_of(&self, k: Seq<char>) -> int {
        choose|i: int| 0 <= i < self.fields@.len() && #[trigger] self.fields@[i].name@ == k
    }

    /// The data as a value: its entity and its fields.
    pub open spec fn data_view(&self) -> DataView {
        (self.entity, self@)
    }

    /// What a read of field `k` gives: its value, or `Nil` where it is absent.
    pub open spec fn field_or_nil(&self, k: Seq<char>) -> ComponentValue {
        if self@.contains_key(k) {
            self@[k]
        } else {
            ComponentValue::Nil
        }
    }

    pub proof fn lemma_field_at(&self, i: int)
        requires
            self.wf(),
            0 <= i < self.fields@.len(),
        ensures
            self@.contains_key(self.fields@[i].name@),
            self@[self.fields@[i].name@] == self.fields@[i].value,
    {
        let k = self.fields@[i].name@;
        assert(self.has_field(k));
        let j = self.index_of(k);
        assert(self.fields@[j].name@ == k);
    }

    fn find(&self, name: &String) -> (r: Option<usize>)
        ensures
            r matches Some(i) ==> i < self.fields@.len() && self.fields@[i as int].name@ == name@,
            r is None ==> !self.has_field(name@),
    {
        let mut i: usize = 0;
        while i < self.fields.len()
            invariant
                i <= self.fields@.len(),
                forall|j: int| 0 <= j < i ==> #[trigger] self.fields@[j].name@ != name@,
            decreases self.fields@.len() - i,
        {
            if self.fields[i].name == *name {
                return Some(i);
            }
            i = i + 1;
        }
        None
    }

    pub fn new(entity: EntityId) -> (r: Self)
        ensures
            r.wf(),
            r.entity == entity,
            r@ == Map::<Seq<char>, ComponentValue>::empty(),
    {
        let r = ComponentData { entity, fields: Vec::new() };
        assert(r@ =~= Map::<Seq<char>, ComponentValue>::empty());
        r
    }

    pub fn get_entity(&self) -> (r: EntityId)
        ensures
            r == self.entity,
    {
        self.entity
    }

    /// The value of `field`, or `Nil` where the data has no such field.
    pub fn get_field(&self, field: String) -> (r: ComponentValue)
        requires
            self.wf(),
        ensures
            r == self.field_or_nil(field@),
    {
        match self.find(&field) {
            Some(i) => {
                proof {
                    self.lemma_field_at(i as int);
                }
                self.fields[i].value.clone()
            },
            None => ComponentValue::Nil,
        }
    }

    pub fn set_field(&mut self, field: String, value: &ComponentValue)
        requires
            old(self).wf(),
        ensures
            final(self).wf(),
            final(self).entity == old(self).entity,
            final(self)@ == old(self)@.insert(field@, *value),
    {
        let ghost before = *self;
        let ghost k = field@;
        match self.find(&field) {
            Some(i) => {
                self.fields.set(i, ComponentField { name: field, value: value.clone() });
                assert(self.wf());
                assert forall|key: Seq<char>| #[trigger]
                    self@.contains_key(key) == before@.insert(k, *value).contains_key(key) && (
                    self@.contains_key(key) ==> self@[key] == before@.insert(k, *value)[key]) by {
                    if key == k {
                        self.lemma_field_at(i as int);
                    } else if before.has_field(key) {
                        let j = before.index_of(key);
                        before.lemma_field_at(j);
                        self.lemma_field_at(j);
                    } else if self.has_field(key) {
                        let j = self.index_of(key);
                        assert(before.fields@[j].name@ == key);
                    }
                }
                assert(self@ =~= before@.insert(k, *value));
            },
            None => {
                self.fields.push(ComponentField { name: field, value: value.clone() });
                let ghost n = (self.fields@.len() - 1) as int;
                assert(self.wf()) by {
                    assert forall|a: int, b: int|
                        0 <= a < self.fields@.len() && 0 <= b < self.fields@.len() && a != b
                            implies #[trigger] self.fields@[a].name@
                            != #[trigger] self.fields@[b].name@ by {
                        if a == n {
                            assert(before.fields@[b].name@ != k);
                        } else if b == n {
                            assert(before.fields@[a].name@ != k);
                        }
                    }
                }
                assert forall|key: Seq<char>| #[trigger]
                    self@.contains_key(key) == before@.insert(k, *value).contains_key(key) && (
                    self@.contains_key(key) ==> self@[key] == before@.insert(k, *value)[key]) by {
                    if key == k {
                        self.lemma_field_at(n);
                    } else if before.has_field(key) {
                        let j = before.index_of(key);
                        before.lemma_field_at(j);
                        self.lemma_field_at(j);
                    } else if self.has_field(key) {
                        let j = self.index_of(key);
                        assert(j != n);
                        assert(before.fields@[j].name@ == key);
                    }
                }
                assert(self@ =~= before@.insert(k, *value));
            },
        }
    }
}

impl View for ComponentData {
    type V = Map<Seq<char>, ComponentValue>;

    /// The fields as a map from name to value.
    open spec fn view(&self) -> Map<Seq<char>, ComponentValue> {
        Map::new(|k: Seq<char>| self.has_field(k), |k: Seq<char>| self.fields@[self.index_of(k)].value)
    }
}

impl Clone for ComponentData {
    fn clone(&self) -> (r: Self)
        ensures
            r.entity == self.entity,
            r.fields@ == self.fields@,
            r.data_view() == self.data_view(),
            r.wf() == self.wf(),
    {
        let mut out: Vec<ComponentField> = Vec::new();
        let mut i: usize = 0;
        while i < self.fields.len()
            invariant
                i <= self.fields@.len(),
                out@ == self.fields@.subrange(0, i as int),
            decreases self.fields@.len() - i,
        {
            out.push(self.fields[i].clone());
            i = i + 1;
            assert(out@ =~= self.fields@.subrange(0, i as int));
        }
        assert(out@ =~= self.fields@);
        ComponentData { entity: self.entity, fields: out }
    }
}

} // verus!
