use vstd::prelude::*;

use crate::json::{json_array, json_get, json_number, JsonNumber, JsonValue};
use crate::models::fields::{
    bool_field, bool_or_false, nonblank_field, nonblank_of, str_of, trimmed_field, trimmed_of,
};
use crate::query::opt_chars;
use crate::text::copy_str;

verus! {

/// In-memory resource type record from `resource-types.json`.
pub struct ResourceType {
    pub uuid: String,
    pub key: String,
    pub name: String,
    pub description: String,
    pub refined_version_uuid: Option<String>,
    pub validate_default_cargo_box: bool,
    pub has_default_cargo_containers: bool,
    /// The box sizes in SCU, as read (each an `f64` once written out).
    pub box_sizes_scu: Vec<JsonNumber>,
    pub data: JsonValue,
}

/// The numbers among `es`, in order.
pub open spec fn numbers_in(es: Seq<JsonValue>) -> Seq<JsonNumber>
    decreases es.len(),
{
    if es.len() == 0 {
        Seq::empty()
    } else {
        match json_number(es.last()) {
            Some(n) => numbers_in(es.drop_last()).push(n),
            None => numbers_in(es.drop_last()),
        }
    }
}

/// The elements of the array that `o` holds, or none.
pub open spec fn array_or_empty(o: Option<JsonValue>) -> Seq<JsonValue> {
    match o {
        Some(v) => match json_array(v) {
            Some(a) => a,
            None => Seq::empty(),
        },
        None => Seq::empty(),
    }
}

/// The string that `o` holds, or the empty string.
pub open spec fn str_or_empty(o: Option<JsonValue>) -> Seq<char> {
    match str_of(o) {
        Some(s) => s,
        None => Seq::empty(),
    }
}

/// Whether `p` has a UUID and a key, neither blank.
pub open spec fn resource_type_present(p: JsonValue) -> bool {
    &&& trimmed_of(json_get(p, "uuid"@)) matches Some(u) && u.len() > 0
    &&& trimmed_of(json_get(p, "key"@)) matches Some(k) && k.len() > 0
}

/// `r` is the resource type that `p` describes.
pub open spec fn resource_type_from(p: JsonValue, r: ResourceType) -> bool {
    &&& trimmed_of(json_get(p, "uuid"@)) == Some(r.uuid@)
    &&& trimmed_of(json_get(p, "key"@)) == Some(r.key@)
    &&& r.name@ == str_or_empty(json_get(p, "name"@))
    &&& r.description@ == str_or_empty(json_get(p, "description"@))
    &&& opt_chars(r.refined_version_uuid) == nonblank_of(json_get(p, "refined_version_uuid"@))
    &&& r.validate_default_cargo_box == bool_or_false(json_get(p, "validate_default_cargo_box"@))
    &&& r.has_default_cargo_containers == bool_or_false(
        json_get(p, "has_default_cargo_containers"@),
    )
    &&& r.box_sizes_scu@ == numbers_in(array_or_empty(json_get(p, "box_sizes_scu"@)))
    &&& r.data == p
}

/// The string that `o` holds, copied, or the empty string.
fn str_or_empty_field(o: Option<&JsonValue>) -> (r: String)
    ensures
        r@ == str_or_empty(crate::models::fields::opt_doc(o)),
{
    match o {
        Some(v) => match v.as_str() {
            Some(s) => copy_str(s.as_str()),
            None => String::new(),
        },
        None => String::new(),
    }
}

impl ResourceType {
    /// Builds the resource type that `payload` describes, if it has a
    /// non-blank UUID and key.
    pub fn from_payload(payload: JsonValue) -> (r: Option<Self>)
        ensures
            r is Some <==> resource_type_present(payload),
            r matches Some(t) ==> resource_type_from(payload, t),
    {
        let uuid = match trimmed_field(payload.get("uuid")) {
            Some(u) => u,
            None => {
                return None;
            },
        };
        let key = match trimmed_field(payload.get("key")) {
            Some(k) => k,
            None => {
                return None;
            },
        };
        if uuid.as_str().is_empty() || key.as_str().is_empty() {
            return None;
        }
        let mut box_sizes: Vec<JsonNumber> = Vec::new();
        match payload.get("box_sizes_scu") {
            Some(v) => match v.as_array() {
                Some(arr) => {
                    let mut i: usize = 0;
                    while i < arr.len()
                        invariant
                            i <= arr.len(),
                            array_or_empty(json_get(payload, "box_sizes_scu"@)) == arr@,
                            box_sizes@ == numbers_in(arr@.take(i as int)),
                        decreases arr.len() - i,
                    {
                        assert(arr@.take(i + 1).drop_last() =~= arr@.take(i as int));
                        match arr[i].as_number() {
                            Some(n) => box_sizes.push(n),
                            None => {},
                        }
                        i += 1;
                    }
                    assert(arr@.take(i as int) =~= arr@);
                },
                None => {},
            },
            None => {},
        }
        let name = str_or_empty_field(payload.get("name"));
        let description = str_or_empty_field(payload.get("description"));
        let refined_version_uuid = nonblank_field(payload.get("refined_version_uuid"));
        let validate_default_cargo_box = bool_field(payload.get("validate_default_cargo_box"));
        let has_default_cargo_containers = bool_field(payload.get("has_default_cargo_containers"));
        Some(
            ResourceType {
                uuid,
                key,
                name,
                description,
                refined_version_uuid,
                validate_default_cargo_box,
                has_default_cargo_containers,
                box_sizes_scu: box_sizes,
                data: payload,
            },
        )
    }
}

} // verus!
