use vstd::prelude::*;

verus! {

/// Key of a row of the GameObjectDisplayInfo table. The table itself holds
/// floating-point fields and is not part of this library.
#[derive(Debug, Clone, Copy, PartialEq, Eq, Ord, PartialOrd, Hash)]
pub struct GameObjectDisplayInfoKey {
    pub id: i32,
}

impl GameObjectDisplayInfoKey {
    pub fn new(id: i32) -> (r: Self)
        ensures
            r.id == id,
    {
        Self { id }
    }
}

/// Key of a row of the ObjectEffectPackage table. Nothing checks that such a
/// row exists.
#[derive(Debug, Clone, Copy, PartialEq, Eq, Ord, PartialOrd, Hash)]
pub struct ObjectEffectPackageKey {
    pub id: i32,
}

impl ObjectEffectPackageKey {
    pub fn new(id: i32) -> (r: Self)
        ensures
            r.id == id,
    {
        Self { id }
    }
}

} // verus!
