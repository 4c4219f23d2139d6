use vstd::prelude::*;

verus! {

/// Key of a row of the PetPersonality table. The table itself holds
/// floating-point fields and is not part of this library.
#[derive(Debug, Clone, Copy, PartialEq, Eq, Ord, PartialOrd, Hash)]
pub struct PetPersonalityKey {
    pub id: i32,
}

impl PetPersonalityKey {
    pub fn new(id: i32) -> (r: Self)
        ensures
            r.id == id,
    {
        Self { id }
    }
}

} // verus!
