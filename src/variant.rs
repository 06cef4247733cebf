use vstd::prelude::*;

verus! {

/// The kinds of value a host engine's dynamic variant can hold. Only the
/// five scalar kinds (`Nil`, `Bool`, `Int`, `Real`, `String`) have a
/// counterpart among component values; the others are carried as schema
/// information only.
#[derive(Clone, Copy, PartialEq, Eq, Structural, Hash, Debug)]
pub enum VariantType {
    Nil,
    Bool,
    Int,
    Real,
    String,
    Vector2,
    Rect2,
    Vector3,
    Transform2D,
    Plan,
    Quat,
    Aaab,
    Basis,
    Transform,
    Color,
    NodePath,
    Rid,
    Object,
    Dictionary,
    Array,
    PoolByteArray,
    PoolIntArray,
    PoolRealArray,
    PoolStringArray,
    PoolVector2Array,
    PoolVector3Array,
    PoolColorArray,
    VariantMax,
}

impl Default for VariantType {
    fn default() -> (r: Self)
        ensures
            r == VariantType::Nil,
    {
        VariantType::Nil
    }
}

} // verus!
