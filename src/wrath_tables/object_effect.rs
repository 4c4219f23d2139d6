use vstd::prelude::*;

verus! {

/// Key of a row of the ObjectEffect table. The table itself holds
/// floating-point fields and is not part of this library.
#[derive(Debug, Clone, Copy, PartialEq, Eq, Ord, PartialOrd, Hash)]
pub struct ObjectEffectKey {
    pub id: i32,
}

impl ObjectEffectKey {
    pub fn new(id: i32) -> (r: Self)
        ensures
            r.id == id,
    {
        Self { id }
    }
}

/// Key of a row of the ObjectEffectGroup table. Nothing checks that such a row
/// exists.
#[derive(Debug, Clone, Copy, PartialEq, Eq, Ord, PartialOrd, Hash)]
pub struct ObjectEffectGroupKey {
    pub id: i32,
}

impl ObjectEffectGroupKey {
    pub fn new(id: i32) -> (r: Self)
        ensures
            r.id == id,
    {
        Self { id }
    }
}

/// Key of a row of the ObjectEffectModifier table. Nothing checks that such a
/// row exists.
#[derive(Debug, Clone, Copy, PartialEq, Eq, Ord, PartialOrd, Hash)]
pub struct ObjectEffectModifierKey {
    pub id: i32,
}

impl ObjectEffectModifierKey {
    pub fn new(id: i32) -> (r: Self)
        ensures
            r.id == id,
    {
        Self { id }
    }
}

} // verus!
