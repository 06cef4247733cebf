use vstd::prelude::*;

verus! {

/// A handle on a registered schema: the hash of its definition together
/// with the name it was registered under.
#[derive(Clone, Copy, PartialEq, Eq, Structural, Hash, Debug)]
pub struct ComponentInfo {
    pub hash: u64,
}

impl ComponentInfo {
    pub fn create(hash: u64) -> (r: Self)
        ensures
            r.hash == hash,
    {
        ComponentInfo { hash }
    }

    pub fn get_hash(&self) -> (r: u64)
        ensures
            r == self.hash,
    {
        self.hash
    }
}

pub fn create_component_info(hash: u64) -> (r: Box<ComponentInfo>)
    ensures
        r.hash == hash,
{
    Box::new(ComponentInfo::create(hash))
}

} // verus!
