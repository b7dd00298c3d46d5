use vstd::prelude::*;

use crate::json::{json_array, json_bool, json_get, json_i64, json_pointer, obj_get, JsonValue};
use crate::models::fields::{nonblank_field, nonblank_of, str_of, trimmed_field, trimmed_of};
use crate::models::resource_type::array_or_empty;
use crate::query::opt_chars;
use crate::text::{chars_eq, chars_of, str_eq};

verus! {

/// In-memory blueprint record from `blueprints.json`.
pub struct Blueprint {
    pub uuid: String,
    pub key: String,
    pub category_uuid: String,
    pub output_item_uuid: Option<String>,
    pub output_name: Option<String>,
    pub output_class: Option<String>,
    pub craft_time_seconds: Option<i64>,
    pub is_available_by_default: bool,
    /// The resource types that the blueprint's tiers require, each once.
    pub ingredient_resource_type_uuids: Vec<String>,
    /// The whole blueprint entry.
    pub data: JsonValue,
}

/// The set of the characters of the strings of `v`.
pub open spec fn strings_set(v: Seq<String>) -> Set<Seq<char>> {
    v.map_values(|s: String| s@).to_set()
}

/// No two strings of `v` hold the same characters.
pub open spec fn strings_distinct(v: Seq<String>) -> bool {
    v.map_values(|s: String| s@).no_duplicates()
}

proof fn lemma_obj_get_member(es: Seq<(String, JsonValue)>, key: Seq<char>)
    ensures
        obj_get(es, key) matches Some(c) ==> exists|j: int| 0 <= j < es.len() && es[j].1 == c,
    decreases es.len(),
{
    if es.len() > 0 {
        lemma_obj_get_member(es.drop_last(), key);
        if obj_get(es, key) is Some && es.last().0@ != key {
            let j = choose|j: int| 0 <= j < es.drop_last().len() && es.drop_last()[j].1 == obj_get(es, key)->0;
            assert(es[j] == es.drop_last()[j]);
        }
        if es.last().0@ == key {
            assert(es[es.len() - 1].1 == obj_get(es, key)->0);
        }
    }
}

/// A member of an object is smaller than the object.
pub proof fn lemma_get_decreases(v: JsonValue, key: Seq<char>)
    ensures
        json_get(v, key) matches Some(c) ==> decreases_to!(v => c),
{
    broadcast use vstd::std_specs::vec::axiom_vec_index_decreases;

    match v {
        JsonValue::Object(m) => {
            lemma_obj_get_member(m@, key);
            if json_get(v, key) is Some {
                let c = json_get(v, key)->0;
                let j = choose|j: int| 0 <= j < m@.len() && m@[j].1 == c;
                assert(decreases_to!(v => v->Object_0));
                assert(decreases_to!(m => m[j]));
                assert(decreases_to!(m[j] => m[j].1));
            }
        },
        _ => {},
    }
}

/// An element of an array is smaller than the array.
pub proof fn lemma_array_decreases(v: JsonValue, i: int)
    requires
        json_array(v) matches Some(a) && 0 <= i < a.len(),
    ensures
        decreases_to!(v => json_array(v)->0[i]),
{
    broadcast use vstd::std_specs::vec::axiom_vec_index_decreases;

    match v {
        JsonValue::Array(a) => {
            assert(decreases_to!(v => v->Array_0));
            assert(decreases_to!(a => a[i]));
        },
        _ => {},
    }
}

/// The UUIDs of the resources that a requirement tree names: a node of
/// kind `resource` names its (non-blank, trimmed) UUID and ends the
/// search there; any other node is searched through its `children`.
pub open spec fn resource_uuids(node: JsonValue) -> Set<Seq<char>>
    decreases node,
{
    if str_of(json_get(node, "kind"@)) == Some("resource"@) {
        match nonblank_of(json_get(node, "uuid"@)) {
            Some(u) => set![u],
            None => Set::empty(),
        }
    } else {
        match json_get(node, "children"@) {
            Some(c) => match json_array(c) {
                Some(cs) => Set::new(
                    |u: Seq<char>|
                        exists|i: int|
                            0 <= i < cs.len() && {
                                proof {
                                    lemma_get_decreases(node, "children"@);
                                    lemma_array_decreases(c, i);
                                }
                                resource_uuids(cs[i]).contains(u)
                            },
                ),
                None => Set::empty(),
            },
            None => Set::empty(),
        }
    }
}

/// Whether the requirements of `tier` name the resource `u`.
pub open spec fn tier_names(tier: JsonValue, u: Seq<char>) -> bool {
    match json_get(tier, "requirements"@) {
        Some(r) => resource_uuids(r).contains(u),
        None => false,
    }
}

/// The resource types that the tiers of blueprint `p` require.
pub open spec fn ingredient_uuids(p: JsonValue) -> Set<Seq<char>> {
    let tiers = array_or_empty(json_get(p, "tiers"@));
    Set::new(
        |u: Seq<char>|
            exists|i: int|
                0 <= i < tiers.len() && #[trigger] tier_names(tiers[i], u),
    )
}

/// Whether `p` has a UUID, key, category and output UUID, none blank.
pub open spec fn blueprint_present(p: JsonValue) -> bool {
    &&& trimmed_of(json_get(p, "uuid"@)) matches Some(u) && u.len() > 0
    &&& trimmed_of(json_get(p, "key"@)) matches Some(k) && k.len() > 0
    &&& trimmed_of(json_get(p, "category_uuid"@)) matches Some(c) && c.len() > 0
    &&& trimmed_of(json_pointer(p, "/output/uuid"@)) matches Some(o) && o.len() > 0
}

/// The boolean that `o` holds, or `false`.
pub open spec fn bool_of(o: Option<JsonValue>) -> bool {
    match o {
        Some(v) => match json_bool(v) {
            Some(b) => b,
            None => false,
        },
        None => false,
    }
}

/// The integer that `o` holds, if it holds one that fits in an `i64`.
pub open spec fn i64_of(o: Option<JsonValue>) -> Option<i64> {
    match o {
        Some(v) => json_i64(v),
        None => None,
    }
}

/// `b` is the blueprint that `p` describes.
pub open spec fn blueprint_from(p: JsonValue, b: Blueprint) -> bool {
    &&& trimmed_of(json_get(p, "uuid"@)) == Some(b.uuid@)
    &&& trimmed_of(json_get(p, "key"@)) == Some(b.key@)
    &&& trimmed_of(json_get(p, "category_uuid"@)) == Some(b.category_uuid@)
    &&& opt_chars(b.output_item_uuid) == trimmed_of(json_pointer(p, "/output/uuid"@))
    &&& opt_chars(b.output_name) == nonblank_of(json_pointer(p, "/output/name"@))
    &&& opt_chars(b.output_class) == nonblank_of(json_pointer(p, "/output/class"@))
    &&& b.craft_time_seconds == i64_of(json_pointer(p, "/tiers/0/craft_time_seconds"@))
    &&& b.is_available_by_default == bool_of(json_pointer(p, "/availability/default"@))
    &&& strings_set(b.ingredient_resource_type_uuids@) == ingredient_uuids(p)
    &&& strings_distinct(b.ingredient_resource_type_uuids@)
    &&& b.data == p
}

/// Adds `u` to `uuids` unless it is there.
fn insert_distinct(uuids: &mut Vec<String>, u: String)
    requires
        strings_distinct(old(uuids)@),
    ensures
        strings_set(final(uuids)@) == strings_set(old(uuids)@).insert(u@),
        strings_distinct(final(uuids)@),
{
    let uc = chars_of(u.as_str());
    let ghost vs = uuids@.map_values(|s: String| s@);
    let mut i: usize = 0;
    while i < uuids.len()
        invariant
            i <= uuids.len(),
            uuids@ == old(uuids)@,
            uc@ == u@,
            strings_distinct(uuids@),
            vs == uuids@.map_values(|s: String| s@),
            forall|k: int| 0 <= k < i ==> vs[k] != uc@,
        decreases uuids.len() - i,
    {
        let c = chars_of(uuids[i].as_str());
        if chars_eq(&c, &uc) {
            assert(vs[i as int] == uuids@[i as int]@);
            assert(vs[i as int] == u@);
            assert(strings_set(uuids@) =~= strings_set(uuids@).insert(u@));
            return ;
        }
        i += 1;
    }
    uuids.push(u);
    let ghost ns = uuids@.map_values(|s: String| s@);
    assert(ns =~= vs.push(uc@));
    assert(ns.to_set() =~= vs.to_set().insert(uc@)) by {
        assert forall|x: Seq<char>| ns.to_set().contains(x) <==> vs.to_set().insert(uc@).contains(x) by {
            if ns.to_set().contains(x) {
                let k = choose|k: int| 0 <= k < ns.len() && ns[k] == x;
                if k < vs.len() {
                    assert(vs[k] == x);
                }
            }
            if vs.to_set().contains(x) {
                let k = choose|k: int| 0 <= k < vs.len() && vs[k] == x;
                assert(ns[k] == x);
            }
            if x == uc@ {
                assert(ns[ns.len() - 1] == x);
            }
        }
    }
}

/// Adds to `uuids` the resource UUIDs that the requirement tree `node` names.
fn collect_resource_uuids(node: &JsonValue, uuids: &mut Vec<String>)
    requires
        strings_distinct(old(uuids)@),
    ensures
        strings_set(final(uuids)@) == strings_set(old(uuids)@).union(resource_uuids(*node)),
        strings_distinct(final(uuids)@),
    decreases node,
{
    let is_resource = match node.get("kind") {
        Some(k) => match k.as_str() {
            Some(s) => str_eq(s.as_str(), "resource"),
            None => false,
        },
        None => false,
    };
    if is_resource {
        match nonblank_field(node.get("uuid")) {
            Some(u) => {
                insert_distinct(uuids, u);
                assert(set![u@] =~= Set::<Seq<char>>::empty().insert(u@));
                assert(strings_set(old(uuids)@).insert(u@) =~= strings_set(old(uuids)@).union(
                    set![u@],
                ));
            },
            None => {
                assert(strings_set(uuids@) =~= strings_set(uuids@).union(Set::empty()));
            },
        }
        return ;
    }
    match node.get("children") {
        Some(c) => match c.as_array() {
            Some(cs) => {
                let ghost start = strings_set(uuids@);
                let mut i: usize = 0;
                while i < cs.len()
                    invariant
                        i <= cs.len(),
                        json_get(*node, "children"@) == Some(*c),
                        json_array(*c) == Some(cs@),
                        strings_distinct(uuids@),
                        strings_set(uuids@) == start.union(
                            Set::new(
                                |u: Seq<char>|
                                    exists|k: int|
                                        0 <= k < i && resource_uuids(cs@[k]).contains(u),
                            ),
                        ),
                    decreases cs.len() - i,
                {
                    proof {
                        lemma_get_decreases(*node, "children"@);
                        lemma_array_decreases(*c, i as int);
                    }
                    let ghost before = strings_set(uuids@);
                    collect_resource_uuids(&cs[i], uuids);
                    assert(strings_set(uuids@) =~= start.union(
                        Set::new(
                            |u: Seq<char>|
                                exists|k: int| 0 <= k < i + 1 && resource_uuids(cs@[k]).contains(u),
                        ),
                    )) by {
                        assert forall|u: Seq<char>|
                            (exists|k: int| 0 <= k < i + 1 && resource_uuids(cs@[k]).contains(u))
                                <== (exists|k: int| 0 <= k < i && resource_uuids(cs@[k]).contains(u))
                                || resource_uuids(cs@[i as int]).contains(u) by {}
                        assert forall|u: Seq<char>|
                            (exists|k: int| 0 <= k < i + 1 && resource_uuids(cs@[k]).contains(u))
                                ==> (exists|k: int| 0 <= k < i && resource_uuids(cs@[k]).contains(u))
                                || resource_uuids(cs@[i as int]).contains(u) by {
                            if exists|k: int| 0 <= k < i + 1 && resource_uuids(cs@[k]).contains(u) {
                                let k = choose|k: int| 0 <= k < i + 1 && resource_uuids(cs@[k]).contains(u);
                                if k < i {
                                    assert(0 <= k < i && resource_uuids(cs@[k]).contains(u));
                                }
                            }
                        }
                    }
                    i += 1;
                }
                assert(strings_set(uuids@) =~= strings_set(old(uuids)@).union(resource_uuids(*node)));
            },
            None => {
                assert(strings_set(uuids@) =~= strings_set(uuids@).union(Set::empty()));
            },
        },
        None => {
            assert(strings_set(uuids@) =~= strings_set(uuids@).union(Set::empty()));
        },
    }
}

/// The resource types that the tiers of `payload` require, each once.
fn collect_ingredient_uuids(payload: &JsonValue) -> (r: Vec<String>)
    ensures
        strings_set(r@) == ingredient_uuids(*payload),
        strings_distinct(r@),
{
    let mut uuids: Vec<String> = Vec::new();
    assert(strings_set(uuids@) =~= Set::<Seq<char>>::empty());
    assert(strings_distinct(uuids@)) by {
        assert(uuids@.map_values(|s: String| s@) =~= Seq::<Seq<char>>::empty());
    }
    let ghost tiers = array_or_empty(json_get(*payload, "tiers"@));
    match payload.get("tiers") {
        Some(t) => match t.as_array() {
            Some(ts) => {
                let mut i: usize = 0;
                while i < ts.len()
                    invariant
                        i <= ts.len(),
                        tiers == ts@,
                        strings_distinct(uuids@),
                        strings_set(uuids@) == Set::new(
                            |u: Seq<char>|
                                exists|k: int|
                                    0 <= k < i && #[trigger] tier_names(ts@[k], u),
                        ),
                    decreases ts.len() - i,
                {
                    let ghost before = strings_set(uuids@);
                    let ghost add = match json_get(ts@[i as int], "requirements"@) {
                        Some(r) => resource_uuids(r),
                        None => Set::<Seq<char>>::empty(),
                    };
                    match ts[i].get("requirements") {
                        Some(req) => {
                            collect_resource_uuids(req, &mut uuids);
                        },
                        None => {
                            assert(strings_set(uuids@) =~= before.union(add));
                        },
                    }
                    assert(strings_set(uuids@) == before.union(add));
                    assert forall|u: Seq<char>|
                        strings_set(uuids@).contains(u) == (exists|k: int|
                            0 <= k < i + 1 && #[trigger] tier_names(ts@[k], u)) by {
                        assert(add.contains(u) == tier_names(ts@[i as int], u));
                        if strings_set(uuids@).contains(u) {
                            if before.contains(u) {
                                let k = choose|k: int| 0 <= k < i && #[trigger] tier_names(ts@[k], u);
                                assert(0 <= k < i + 1 && tier_names(ts@[k], u));
                            } else {
                                assert(tier_names(ts@[i as int], u));
                            }
                        }
                        if exists|k: int| 0 <= k < i + 1 && #[trigger] tier_names(ts@[k], u) {
                            let k = choose|k: int| 0 <= k < i + 1 && #[trigger] tier_names(ts@[k], u);
                            if k < i {
                                assert(before.contains(u));
                            }
                        }
                    }
                    assert(strings_set(uuids@) =~= Set::new(
                        |u: Seq<char>|
                            exists|k: int| 0 <= k < i + 1 && #[trigger] tier_names(ts@[k], u),
                    ));
                    i += 1;
                }
                assert(strings_set(uuids@) =~= ingredient_uuids(*payload));
            },
            None => {
                assert(ingredient_uuids(*payload) =~= Set::<Seq<char>>::empty());
            },
        },
        None => {
            assert(ingredient_uuids(*payload) =~= Set::<Seq<char>>::empty());
        },
    }
    uuids
}

impl Blueprint {
    /// Builds the blueprint that `payload` describes, if it has a
    /// non-blank UUID, key, category and output UUID.
    pub fn from_payload(payload: JsonValue) -> (r: Option<Self>)
        ensures
            r is Some <==> blueprint_present(payload),
            r matches Some(b) ==> blueprint_from(payload, b),
    {
        let uuid = match trimmed_field(payload.get("uuid")) {
            Some(x) => x,
            None => {
                return None;
            },
        };
        let key = match trimmed_field(payload.get("key")) {
            Some(x) => x,
            None => {
                return None;
            },
        };
        let category_uuid = match trimmed_field(payload.get("category_uuid")) {
            Some(x) => x,
            None => {
                return None;
            },
        };
        let output_uuid = match trimmed_field(payload.pointer("/output/uuid")) {
            Some(x) => x,
            None => {
                return None;
            },
        };
        if uuid.as_str().is_empty() || key.as_str().is_empty() || category_uuid.as_str().is_empty()
            || output_uuid.as_str().is_empty() {
            return None;
        }
        let output_name = nonblank_field(payload.pointer("/output/name"));
        let output_class = nonblank_field(payload.pointer("/output/class"));
        let craft_time_seconds = match payload.pointer("/tiers/0/craft_time_seconds") {
            Some(v) => v.as_i64(),
            None => None,
        };
        let is_available_by_default = match payload.pointer("/availability/default") {
            Some(v) => match v.as_bool() {
                Some(b) => b,
                None => false,
            },
            None => false,
        };
        let ingredient_resource_type_uuids = collect_ingredient_uuids(&payload);
        Some(
            Blueprint {
                uuid,
                key,
                category_uuid,
                output_item_uuid: Some(output_uuid),
                output_name,
                output_class,
                craft_time_seconds,
                is_available_by_default,
                ingredient_resource_type_uuids,
                data: payload,
            },
        )
    }
}

} // verus!
