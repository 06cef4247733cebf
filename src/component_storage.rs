use crate::component_definition::ComponentDefinition;
use crate::component_info::ComponentInfo;
use crate::errors::AddComponentError;
use crate::variant::VariantType;
use vstd::prelude::*;

verus! {

broadcast use vstd::string::group_string_axioms;

/// The content hash of a schema registered under a name: std's default
/// hasher fed the schema's fields (names and kinds, in order) and then the
/// name.
pub uninterp spec fn component_hash(definition: Seq<(Seq<char>, VariantType)>, name: Seq<char>) -> u64;

/// Relies on std::collections::hash_map::DefaultHasher, whose `new` uses
/// fixed keys: the hash depends on the hashed values alone. The derived
/// `Hash` of a definition writes its field names and kinds in order.
#[verifier::external_body]
fn content_hash(definition: &ComponentDefinition, name: &str) -> (r: u64)
    ensures
        r == component_hash(definition@, name@),
{
    let mut hasher = std::collections::hash_map::DefaultHasher::new();
    std::hash::Hash::hash(definition, &mut hasher);
    std::hash::Hash::hash(name, &mut hasher);
    std::hash::Hasher::finish(&hasher)
}

struct NamedInfo {
    name: String,
    info: ComponentInfo,
}

struct StoredDefinition {
    info: ComponentInfo,
    definition: ComponentDefinition,
}

/// The schema registry: each registered name is bound to a handle, and
/// each handle to the first definition that produced it.
pub struct GCSComponentStorage {
    component_names: Vec<NamedInfo>,
    component_definitions: Vec<StoredDefinition>,
}

impl GCSComponentStorage {
    spec fn has_name(&self, k: Seq<char>) -> bool {
        exists|i: int| 0 <= i < self.component_names@.len() && #[trigger] self.component_names@[i].name@ == k
    }

    spec fn name_index(&self, k: Seq<char>) -> int {
        choose|i: int| 0 <= i < self.component_names@.len() && #[trigger] self.component_names@[i].name@ == k
    }

    spec fn has_info(&self, k: ComponentInfo) -> bool {
        exists|i: int|
            0 <= i < self.component_definitions@.len() && #[trigger] self.component_definitions@[i].info == k
    }

    spec fn info_index(&self, k: ComponentInfo) -> int {
        choose|i: int|
            0 <= i < self.component_definitions@.len() && #[trigger] self.component_definitions@[i].info == k
    }

    /// Registered names and the handle bound to each.
    pub closed spec fn names(&self) -> Map<Seq<char>, ComponentInfo> {
        Map::new(|k: Seq<char>| self.has_name(k), |k: Seq<char>| self.component_names@[self.name_index(k)].info)
    }

    /// Stored definitions, by handle.
    pub closed spec fn definitions(&self) -> Map<ComponentInfo, ComponentDefinition> {
        Map::new(
            |k: ComponentInfo| self.has_info(k),
            |k: ComponentInfo| self.component_definitions@[self.info_index(k)].definition,
        )
    }

    pub closed spec fn unique_keys(&self) -> bool {
        &&& forall|i: int, j: int|
            0 <= i < self.component_names@.len() && 0 <= j < self.component_names@.len() && i != j
                ==> #[trigger] self.component_names@[i].name@ != #[trigger] self.component_names@[j].name@
        &&& forall|i: int, j: int|
            0 <= i < self.component_definitions@.len() && 0 <= j < self.component_definitions@.len() && i
                != j ==> #[trigger] self.component_definitions@[i].info
                != #[trigger] self.component_definitions@[j].info
    }

    /// Keys are unique, and every registered name's handle has a stored
    /// definition.
    pub open spec fn wf(&self) -> bool {
        &&& self.unique_keys()
        &&& forall|k: Seq<char>| #[trigger]
            self.names().contains_key(k) ==> self.definitions().contains_key(self.names()[k])
    }

    proof fn lemma_name_at(&self, i: int)
        requires
            self.unique_keys(),
            0 <= i < self.component_names@.len(),
        ensures
            self.names().contains_key(self.component_names@[i].name@),
            self.names()[self.component_names@[i].name@] == self.component_names@[i].info,
    {
        let k = self.component_names@[i].name@;
        assert(self.has_name(k));
        let j = self.name_index(k);
        assert(self.component_names@[j].name@ == k);
    }

    proof fn lemma_info_at(&self, i: int)
        requires
            self.unique_keys(),
            0 <= i < self.component_definitions@.len(),
        ensures
            self.definitions().contains_key(self.component_definitions@[i].info),
            self.definitions()[self.component_definitions@[i].info]
                == self.component_definitions@[i].definition,
    {
        let k = self.component_definitions@[i].info;
        assert(self.has_info(k));
        let j = self.info_index(k);
        assert(self.component_definitions@[j].info == k);
    }

    pub fn new() -> (r: Self)
        ensures
            r.wf(),
            r.names() == Map::<Seq<char>, ComponentInfo>::empty(),
            r.definitions() == Map::<ComponentInfo, ComponentDefinition>::empty(),
    {
        let r = GCSComponentStorage { component_names: Vec::new(), component_definitions: Vec::new() };
        assert(r.names() =~= Map::<Seq<char>, ComponentInfo>::empty());
        assert(r.definitions() =~= Map::<ComponentInfo, ComponentDefinition>::empty());
        r
    }

    fn find_name(&self, name: &str) -> (r: Option<usize>)
        requires
            self.unique_keys(),
        ensures
            r matches Some(i) ==> i < self.component_names@.len() && self.component_names@[i as int].name@
                == name@,
            r is None ==> !self.names().contains_key(name@),
    {
        let key = name.to_string();
        assert(key@ == name@);
        let mut i: usize = 0;
        while i < self.component_names.len()
            invariant
                i <= self.component_names@.len(),
                key@ == name@,
                forall|j: int| 0 <= j < i ==> #[trigger] self.component_names@[j].name@ != name@,
            decreases self.component_names@.len() - i,
        {
            if self.component_names[i].name == key {
                return Some(i);
            }
            i = i + 1;
        }
        None
    }

    fn find_info(&self, info: &ComponentInfo) -> (r: Option<usize>)
        requires
            self.unique_keys(),
        ensures
            r matches Some(i) ==> i < self.component_definitions@.len()
                && self.component_definitions@[i as int].info == *info,
            r is None ==> !self.definitions().contains_key(*info),
    {
        let mut i: usize = 0;
        while i < self.component_definitions.len()
            invariant
                i <= self.component_definitions@.len(),
                forall|j: int| 0 <= j < i ==> #[trigger] self.component_definitions@[j].info != *info,
            decreases self.component_definitions@.len() - i,
        {
            if self.component_definitions[i].info.hash == info.hash {
                return Some(i);
            }
            i = i + 1;
        }
        None
    }

    pub fn has_component(&self, component_name: &str) -> (r: bool)
        requires
            self.wf(),
        ensures
            r == self.names().contains_key(component_name@),
    {
        match self.find_name(component_name) {
            Some(i) => {
                proof {
                    self.lemma_name_at(i as int);
                }
                true
            },
            None => false,
        }
    }

    pub fn has_component_info(&self, component_info: &ComponentInfo) -> (r: bool)
        requires
            self.wf(),
        ensures
            r == self.definitions().contains_key(*component_info),
    {
        match self.find_info(component_info) {
            Some(i) => {
                proof {
                    self.lemma_info_at(i as int);
                }
                true
            },
            None => false,
        }
    }

    pub fn get_component_info(&self, component_name: &str) -> (r: Option<&ComponentInfo>)
        requires
            self.wf(),
        ensures
            match r {
                Some(info) => self.names().contains_key(component_name@) && *info
                    == self.names()[component_name@],
                None => !self.names().contains_key(component_name@),
            },
    {
        match self.find_name(component_name) {
            Some(i) => {
                proof {
                    self.lemma_name_at(i as int);
                }
                Some(&self.component_names[i].info)
            },
            None => None,
        }
    }

    pub fn get_component_definition(&self, component_info: &ComponentInfo) -> (r: Option<
        &ComponentDefinition,
    >)
        requires
            self.wf(),
        ensures
            match r {
                Some(d) => self.definitions().contains_key(*component_info) && *d
                    == self.definitions()[*component_info],
                None => !self.definitions().contains_key(*component_info),
            },
    {
        match self.find_info(component_info) {
            Some(i) => {
                proof {
                    self.lemma_info_at(i as int);
                }
                Some(&self.component_definitions[i].definition)
            },
            None => None,
        }
    }

    /// Every registered name, once each, in no particular order.
    pub fn get_component_names(&self) -> (r: Vec<String>)
        requires
            self.wf(),
        ensures
            forall|i: int| 0 <= i < r@.len() ==> self.names().contains_key(#[trigger] r@[i]@),
            forall|k: Seq<char>|
                #[trigger] self.names().contains_key(k) ==> exists|i: int| 0 <= i < r@.len() && r@[i]@ == k,
            forall|i: int, j: int| 0 <= i < j < r@.len() ==> #[trigger] r@[i]@ != #[trigger] r@[j]@,
    {
        let mut out: Vec<String> = Vec::new();
        let mut i: usize = 0;
        while i < self.component_names.len()
            invariant
                self.wf(),
                i <= self.component_names@.len(),
                out@.len() == i,
                forall|j: int| 0 <= j < i ==> #[trigger] out@[j]@ == self.component_names@[j].name@,
            decreases self.component_names@.len() - i,
        {
            out.push(self.component_names[i].name.clone());
            i = i + 1;
        }
        assert forall|j: int| 0 <= j < out@.len() implies self.names().contains_key(#[trigger] out@[j]@) by {
            self.lemma_name_at(j);
        }
        assert forall|k: Seq<char>| #[trigger]
            self.names().contains_key(k) implies exists|j: int| 0 <= j < out@.len() && out@[j]@ == k by {
            let j = self.name_index(k);
            assert(out@[j]@ == k);
        }
        assert forall|a: int, b: int| 0 <= a < b < out@.len() implies #[trigger] out@[a]@
            != #[trigger] out@[b]@ by {
            assert(self.component_names@[a].name@ != self.component_names@[b].name@);
        }
        out
    }

    /// Registers `component_definition` under `component_name`. The handle
    /// is the content hash of the definition and the name; the definition is
    /// stored under it unless that handle already has one. A name is
    /// registered at most once.
    pub fn add_component(&mut self, component_name: &str, component_definition: ComponentDefinition) -> (r:
        Result<ComponentInfo, AddComponentError>)
        requires
            old(self).wf(),
        ensures
            final(self).wf(),
            old(self).names().contains_key(component_name@) ==> {
                &&& r == Err::<ComponentInfo, AddComponentError>(AddComponentError::NameAlreadyAdded)
                &&& final(self).names() == old(self).names()
                &&& final(self).definitions() == old(self).definitions()
            },
            !old(self).names().contains_key(component_name@) ==> {
                let info = ComponentInfo { hash: component_hash(component_definition@, component_name@) };
                &&& r == Ok::<ComponentInfo, AddComponentError>(info)
                &&& final(self).names() == old(self).names().insert(component_name@, info)
                &&& final(self).definitions() == if old(self).definitions().contains_key(info) {
                    old(self).definitions()
                } else {
                    old(self).definitions().insert(info, component_definition)
                }
            },
    {
        if self.has_component(component_name) {
            return Err(AddComponentError::NameAlreadyAdded);
        }
        let ghost before = *self;
        let info = ComponentInfo { hash: content_hash(&component_definition, component_name) };
        let ghost def = component_definition;
        if !self.has_component_info(&info) {
            self.component_definitions.push(StoredDefinition { info, definition: component_definition });
            let ghost n = (self.component_definitions@.len() - 1) as int;
            assert(self.component_names@ == before.component_names@);
            assert(self.unique_keys()) by {
                assert forall|a: int, b: int|
                    0 <= a < self.component_definitions@.len() && 0 <= b < self.component_definitions@.len()
                        && a != b implies #[trigger] self.component_definitions@[a].info
                    != #[trigger] self.component_definitions@[b].info by {
                    if a == n {
                        assert(!before.has_info(info));
                        assert(before.component_definitions@[b].info != info);
                    } else if b == n {
                        assert(!before.has_info(info));
                        assert(before.component_definitions@[a].info != info);
                    }
                }
            }
            assert forall|k: ComponentInfo| #[trigger]
                self.definitions().contains_key(k) == before.definitions().insert(info, def).contains_key(k)
                    && (self.definitions().contains_key(k) ==> self.definitions()[k]
                    == before.definitions().insert(info, def)[k]) by {
                if k == info {
                    self.lemma_info_at(n);
                } else if before.has_info(k) {
                    let j = before.info_index(k);
                    before.lemma_info_at(j);
                    self.lemma_info_at(j);
                } else if self.has_info(k) {
                    let j = self.info_index(k);
                    assert(j != n);
                    assert(before.component_definitions@[j].info == k);
                }
            }
            assert(self.definitions() =~= before.definitions().insert(info, def));
        } else {
            assert(self.definitions() =~= before.definitions());
        }
        let ghost mid = *self;
        self.component_names.push(NamedInfo { name: component_name.to_string(), info });
        let ghost n = (self.component_names@.len() - 1) as int;
        assert(self.component_names@[n].name@ == component_name@);
        assert(self.component_definitions@ == mid.component_definitions@);
        assert(self.definitions() =~= mid.definitions());
        assert(self.unique_keys()) by {
            assert forall|a: int, b: int|
                0 <= a < self.component_names@.len() && 0 <= b < self.component_names@.len() && a != b
                    implies #[trigger] self.component_names@[a].name@ != #[trigger] self.component_names@[b].name@ by {
                if a == n {
                    assert(!before.has_name(component_name@));
                    assert(before.component_names@[b].name@ != component_name@);
                } else if b == n {
                    assert(!before.has_name(component_name@));
                    assert(before.component_names@[a].name@ != component_name@);
                }
            }
        }
        assert forall|k: Seq<char>| #[trigger]
            self.names().contains_key(k) == before.names().insert(component_name@, info).contains_key(k) && (
            self.names().contains_key(k) ==> self.names()[k] == before.names().insert(component_name@, info)[k]) by {
            if k == component_name@ {
                self.lemma_name_at(n);
            } else if before.has_name(k) {
                let j = before.name_index(k);
                before.lemma_name_at(j);
                self.lemma_name_at(j);
            } else if self.has_name(k) {
                let j = self.name_index(k);
                assert(j != n);
                assert(before.component_names@[j].name@ == k);
            }
        }
        assert(self.names() =~= before.names().insert(component_name@, info));
        assert(mid.definitions().contains_key(info));
        Ok(info)
    }
}

impl Default for GCSComponentStorage {
    fn default() -> (r: Self)
        ensures
            r.wf(),
            r.names() == Map::<Seq<char>, ComponentInfo>::empty(),
            r.definitions() == Map::<ComponentInfo, ComponentDefinition>::empty(),
    {
        GCSComponentStorage::new()
    }
}

} // verus!
