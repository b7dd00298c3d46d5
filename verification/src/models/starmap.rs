use vstd::prelude::*;

use crate::json::{json_array, json_get, json_number, json_pointer, JsonNumber, JsonValue};
use crate::models::fields::{
    bool_field, bool_or_false, nonblank_field, nonblank_of, trimmed_field, trimmed_of,
};
use crate::query::opt_chars;
use crate::text::copy_str;

verus! {

/// A place on the star map (`starmap.json`).
pub struct StarmapLocation {
    pub uuid: String,
    pub name: String,
    pub description: Option<String>,
    pub type_label: String,
    /// The `size` number, as read (an `f64` once written out).
    pub size: Option<JsonNumber>,
    pub is_scannable: bool,
    pub block_travel: bool,
    pub parent_uuid: Option<String>,
    /// The name of the solar system the place belongs to, once resolved.
    pub system: Option<String>,
    pub amenities: Vec<Amenity>,
    /// The whole entry.
    pub data: JsonValue,
}

/// A service offered at a place.
pub struct Amenity {
    pub uuid: String,
    pub name: String,
    pub display_name: Option<String>,
}

/// The amenity that entry `a` describes, if it has a non-blank UUID: its
/// name defaults to the UUID.
pub open spec fn amenity_from(a: JsonValue, m: Amenity) -> bool {
    &&& nonblank_of(json_get(a, "uuid"@)) == Some(m.uuid@)
    &&& m.name@ == match nonblank_of(json_get(a, "name"@)) {
        Some(n) => n,
        None => m.uuid@,
    }
    &&& opt_chars(m.display_name) == nonblank_of(json_get(a, "displayName"@))
}

/// Whether entry `a` describes an amenity.
pub open spec fn is_amenity(a: JsonValue) -> bool {
    nonblank_of(json_get(a, "uuid"@)) is Some
}

/// The amenity entries of `entry`: its `amenities` array, or none.
pub open spec fn amenity_entries(entry: JsonValue) -> Seq<JsonValue> {
    match json_get(entry, "amenities"@) {
        Some(v) => match json_array(v) {
            Some(a) => a,
            None => Seq::empty(),
        },
        None => Seq::empty(),
    }
}

/// `ms` are the amenities that the entries `es` describe, in order, the
/// others skipped.
pub open spec fn amenities_from(es: Seq<JsonValue>, ms: Seq<Amenity>) -> bool
    decreases es.len(),
{
    if es.len() == 0 {
        ms.len() == 0
    } else if is_amenity(es.last()) {
        ms.len() > 0 && amenity_from(es.last(), ms.last()) && amenities_from(
            es.drop_last(),
            ms.drop_last(),
        )
    } else {
        amenities_from(es.drop_last(), ms)
    }
}

/// The number that `o` holds, if it holds one.
pub open spec fn number_of(o: Option<JsonValue>) -> Option<JsonNumber> {
    match o {
        Some(v) => json_number(v),
        None => None,
    }
}

/// `l` is the location that `entry` describes.
pub open spec fn location_from(entry: JsonValue, l: StarmapLocation) -> bool {
    &&& nonblank_of(json_get(entry, "uuid"@)) == Some(l.uuid@)
    &&& l.name@ == match nonblank_of(json_get(entry, "name"@)) {
        Some(n) => n,
        None => l.uuid@,
    }
    &&& l.type_label@ == match nonblank_of(json_pointer(entry, "/type/name"@)) {
        Some(n) => n,
        None => "Unknown"@,
    }
    &&& amenities_from(amenity_entries(entry), l.amenities@)
    &&& opt_chars(l.parent_uuid) == nonblank_of(json_get(entry, "parentUuid"@))
    &&& opt_chars(l.description) == nonblank_of(json_get(entry, "description"@))
    &&& l.size == number_of(json_get(entry, "size"@))
    &&& l.is_scannable == bool_or_false(json_get(entry, "isScannable"@))
    &&& l.block_travel == bool_or_false(json_get(entry, "blockTravel"@))
    &&& l.system is None
    &&& l.data == entry
}

/// Whether `entry` has a UUID that is not blank (`trimmed_of` keeps the
/// blank ones apart from the missing ones).
pub open spec fn entry_has_uuid(entry: JsonValue) -> bool {
    trimmed_of(json_get(entry, "uuid"@)) matches Some(t) && t.len() > 0
}

/// The amenity that entry `a` describes.
fn amenity_from_payload(a: &JsonValue) -> (r: Option<Amenity>)
    ensures
        r is Some <==> is_amenity(*a),
        r matches Some(m) ==> amenity_from(*a, m),
{
    let uuid = match nonblank_field(a.get("uuid")) {
        Some(u) => u,
        None => {
            return None;
        },
    };
    let name = match nonblank_field(a.get("name")) {
        Some(n) => n,
        None => copy_str(uuid.as_str()),
    };
    let display_name = nonblank_field(a.get("displayName"));
    Some(Amenity { uuid, name, display_name })
}

impl StarmapLocation {
    /// Builds the location that a star-map entry describes, if it has a
    /// non-blank UUID.
    pub fn from_payload(entry: JsonValue) -> (r: Option<Self>)
        ensures
            r is Some <==> entry_has_uuid(entry),
            r matches Some(l) ==> location_from(entry, l),
    {
        let uuid = match trimmed_field(entry.get("uuid")) {
            Some(u) => u,
            None => {
                return None;
            },
        };
        if uuid.as_str().is_empty() {
            return None;
        }
        let name = match nonblank_field(entry.get("name")) {
            Some(n) => n,
            None => copy_str(uuid.as_str()),
        };
        let type_label = match nonblank_field(entry.pointer("/type/name")) {
            Some(n) => n,
            None => copy_str("Unknown"),
        };
        let mut amenities: Vec<Amenity> = Vec::new();
        match entry.get("amenities") {
            Some(v) => match v.as_array() {
                Some(arr) => {
                    let mut i: usize = 0;
                    while i < arr.len()
                        invariant
                            i <= arr.len(),
                            amenity_entries(entry) == arr@,
                            amenities_from(arr@.take(i as int), amenities@),
                        decreases arr.len() - i,
                    {
                        let ghost before = amenities@;
                        assert(arr@.take(i + 1).drop_last() =~= arr@.take(i as int));
                        match amenity_from_payload(&arr[i]) {
                            Some(m) => {
                                amenities.push(m);
                                assert(amenities@.drop_last() =~= before);
                            },
                            None => {},
                        }
                        i += 1;
                    }
                    assert(arr@.take(i as int) =~= arr@);
                },
                None => {
                    assert(amenity_entries(entry) =~= Seq::<JsonValue>::empty());
                },
            },
            None => {
                assert(amenity_entries(entry) =~= Seq::<JsonValue>::empty());
            },
        }
        let parent_uuid = nonblank_field(entry.get("parentUuid"));
        let description = nonblank_field(entry.get("description"));
        let size = match entry.get("size") {
            Some(v) => v.as_number(),
            None => None,
        };
        let is_scannable = bool_field(entry.get("isScannable"));
        let block_travel = bool_field(entry.get("blockTravel"));
        Some(
            StarmapLocation {
                uuid,
                name,
                description,
                type_label,
                size,
                is_scannable,
                block_travel,
                parent_uuid,
                system: None,
                amenities,
                data: entry,
            },
        )
    }
}

} // verus!
