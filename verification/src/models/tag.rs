use vstd::prelude::*;

verus! {

/// An entity tag (`tags.json` maps each UUID to a name).
pub struct EntityTag {
    pub uuid: String,
    pub name: String,
}

} // verus!
