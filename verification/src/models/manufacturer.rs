use vstd::prelude::*;

verus! {

/// A manufacturer entry as `manufacturers.json` holds it.
pub struct ManufacturerRaw {
    pub reference: Option<String>,
    pub name: Option<String>,
    pub code: Option<String>,
}

/// In-memory manufacturer record.
pub struct Manufacturer {
    pub uuid: String,
    pub name: String,
    pub code: String,
}

} // verus!
