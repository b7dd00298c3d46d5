use vstd::prelude::*;

use crate::assoc::{assoc_insert, assoc_set, keys_unique, pairs_view};
use crate::hierarchy::{resolve_starmap_hierarchy, system_of};
use crate::json::JsonValue;
use crate::models::blueprint::{blueprint_from, blueprint_present, Blueprint};
use crate::models::item::{description_label_of, item_from, Item, ItemFilePayload};
use crate::models::label::GameLabel;
use crate::models::manufacturer::{Manufacturer, ManufacturerRaw};
use crate::models::resource_type::{resource_type_from, resource_type_present, ResourceType};
use crate::models::starmap::{entry_has_uuid, location_from, StarmapLocation};
use crate::models::tag::EntityTag;
use crate::models::vehicle::Vehicle;
use crate::num::{decimal_string, usize_to_decimal};
use crate::text::{push_str, str_eq, trim, trim_str};
use crate::query::opt_chars;
use crate::text::{copy_str, lowercase, to_lowercase};
use vstd::hash_map::StringHashMap;

verus! {

/// The labels of the game, by key.
pub type Labels = StringHashMap<GameLabel>;

/// All game data, in memory, with indexes for lookup.
pub struct GameData {
    pub items: Vec<Item>,
    pub vehicles: Vec<Vehicle>,
    pub blueprints: Vec<Blueprint>,
    pub manufacturers: Vec<Manufacturer>,
    pub resource_types: Vec<ResourceType>,
    pub starmap_locations: Vec<StarmapLocation>,
    pub entity_tags: Vec<EntityTag>,
    pub labels: StringHashMap<GameLabel>,
    pub items_by_uuid: StringHashMap<usize>,
    pub items_by_name: StringHashMap<usize>,
    pub vehicles_by_uuid: StringHashMap<usize>,
    pub blueprints_by_uuid: StringHashMap<usize>,
    pub manufacturers_by_uuid: StringHashMap<usize>,
    pub manufacturers_by_code: StringHashMap<usize>,
    pub resource_types_by_uuid: StringHashMap<usize>,
    pub starmap_locations_by_uuid: StringHashMap<usize>,
    pub tags_by_uuid: StringHashMap<usize>,
}

/// The index of the last record whose key is `k` (records without a key
/// are skipped): an index built in order keeps the last record.
pub open spec fn last_index(keys: Seq<Option<Seq<char>>>, k: Seq<char>) -> Option<int>
    decreases keys.len(),
{
    if keys.len() == 0 {
        None
    } else if keys.last() == Some(k) {
        Some(keys.len() - 1)
    } else {
        last_index(keys.drop_last(), k)
    }
}

/// `m` is the index of the records whose keys are `keys`.
pub open spec fn index_ok(m: Map<Seq<char>, usize>, keys: Seq<Option<Seq<char>>>) -> bool {
    forall|k: Seq<char>|
        #![trigger m.contains_key(k)]
        #![trigger last_index(keys, k)]
        (m.contains_key(k) <==> last_index(keys, k) is Some) && (m.contains_key(k) ==> m[k]
            == last_index(keys, k)->0)
}

pub proof fn lemma_last_index(keys: Seq<Option<Seq<char>>>, k: Seq<char>)
    ensures
        last_index(keys, k) matches Some(j) ==> 0 <= j < keys.len() && keys[j] == Some(k)
            && forall|m: int| j < m < keys.len() ==> keys[m] != Some(k),
        last_index(keys, k) is None ==> forall|m: int| 0 <= m < keys.len() ==> keys[m] != Some(k),
    decreases keys.len(),
{
    if keys.len() > 0 {
        lemma_last_index(keys.drop_last(), k);
        assert forall|m: int| 0 <= m < keys.len() - 1 implies keys[m] == keys.drop_last()[m] by {}
    }
}

/// The keys of items by UUID.
pub open spec fn item_uuid_keys(v: Seq<Item>) -> Seq<Option<Seq<char>>> {
    v.map_values(|x: Item| Some(x.uuid@))
}

/// The keys of items by lowercase name.
pub open spec fn item_name_keys(v: Seq<Item>) -> Seq<Option<Seq<char>>> {
    v.map_values(|x: Item| Some(lowercase(x.name@)))
}

/// The keys of vehicles by UUID.
pub open spec fn vehicle_uuid_keys(v: Seq<Vehicle>) -> Seq<Option<Seq<char>>> {
    v.map_values(|x: Vehicle| Some(x.uuid@))
}

/// The keys of blueprints by UUID.
pub open spec fn blueprint_uuid_keys(v: Seq<Blueprint>) -> Seq<Option<Seq<char>>> {
    v.map_values(|x: Blueprint| Some(x.uuid@))
}

/// The keys of manufacturers by UUID.
pub open spec fn manufacturer_uuid_keys(v: Seq<Manufacturer>) -> Seq<Option<Seq<char>>> {
    v.map_values(|x: Manufacturer| Some(x.uuid@))
}

/// The keys of manufacturers by lowercase code; manufacturers without a code have none.
pub open spec fn manufacturer_code_keys(v: Seq<Manufacturer>) -> Seq<Option<Seq<char>>> {
    v.map_values(
        |x: Manufacturer|
            if x.code@.len() > 0 {
                Some(lowercase(x.code@))
            } else {
                None
            },
    )
}

/// The keys of resource types by UUID.
pub open spec fn resource_type_uuid_keys(v: Seq<ResourceType>) -> Seq<Option<Seq<char>>> {
    v.map_values(|x: ResourceType| Some(x.uuid@))
}

/// The keys of star-map locations by UUID.
pub open spec fn location_uuid_keys(v: Seq<StarmapLocation>) -> Seq<Option<Seq<char>>> {
    v.map_values(|x: StarmapLocation| Some(x.uuid@))
}

/// The keys of entity tags by UUID.
pub open spec fn tag_uuid_keys(v: Seq<EntityTag>) -> Seq<Option<Seq<char>>> {
    v.map_values(|x: EntityTag| Some(x.uuid@))
}

impl GameData {
    /// Every index lists the records of its collection.
    pub open spec fn wf(&self) -> bool {
        &&& index_ok(self.items_by_uuid@, item_uuid_keys(self.items@))
        &&& index_ok(self.items_by_name@, item_name_keys(self.items@))
        &&& index_ok(self.vehicles_by_uuid@, vehicle_uuid_keys(self.vehicles@))
        &&& index_ok(self.blueprints_by_uuid@, blueprint_uuid_keys(self.blueprints@))
        &&& index_ok(self.manufacturers_by_uuid@, manufacturer_uuid_keys(self.manufacturers@))
        &&& index_ok(self.manufacturers_by_code@, manufacturer_code_keys(self.manufacturers@))
        &&& index_ok(self.resource_types_by_uuid@, resource_type_uuid_keys(self.resource_types@))
        &&& index_ok(self.starmap_locations_by_uuid@, location_uuid_keys(self.starmap_locations@))
        &&& index_ok(self.tags_by_uuid@, tag_uuid_keys(self.entity_tags@))
    }
}

/// The characters of each optional string.
pub open spec fn opt_strings_view(v: Seq<Option<String>>) -> Seq<Option<Seq<char>>> {
    v.map_values(|o: Option<String>| opt_chars(o))
}

/// The index of records whose keys are `keys`.
pub fn build_index(keys: &Vec<Option<String>>) -> (m: StringHashMap<usize>)
    ensures
        index_ok(m@, opt_strings_view(keys@)),
{
    let ghost ks = opt_strings_view(keys@);
    let mut m: StringHashMap<usize> = StringHashMap::new();
    let mut i: usize = 0;
    while i < keys.len()
        invariant
            i <= keys.len(),
            ks == opt_strings_view(keys@),
            index_ok(m@, ks.take(i as int)),
        decreases keys.len() - i,
    {
        let ghost t = ks.take(i + 1);
        assert(t.drop_last() =~= ks.take(i as int));
        assert(t.last() == ks[i as int]);
        match &keys[i] {
            Some(k) => {
                m.insert(k.clone(), i);
            },
            None => {},
        }
        assert(index_ok(m@, t));
        i += 1;
    }
    assert(ks.take(i as int) =~= ks);
    m
}

impl GameData {
    /// Gathers the loaded collections and builds their indexes.
    pub fn new(
        items: Vec<Item>,
        vehicles: Vec<Vehicle>,
        blueprints: Vec<Blueprint>,
        manufacturers: Vec<Manufacturer>,
        resource_types: Vec<ResourceType>,
        starmap_locations: Vec<StarmapLocation>,
        entity_tags: Vec<EntityTag>,
        labels: StringHashMap<GameLabel>,
    ) -> (r: Self)
        ensures
            r.wf(),
            r.items == items,
            r.vehicles == vehicles,
            r.blueprints == blueprints,
            r.manufacturers == manufacturers,
            r.resource_types == resource_types,
            r.starmap_locations == starmap_locations,
            r.entity_tags == entity_tags,
            r.labels == labels,
    {
        let mut k: Vec<Option<String>> = Vec::new();
        let mut i: usize = 0;
        while i < items.len()
            invariant
                i <= items.len(),
                k@.len() == i,
                forall|j: int| 0 <= j < i ==> opt_chars(#[trigger] k@[j]) == item_uuid_keys(items@)[j],
            decreases items.len() - i,
        {
            k.push(Some(items[i].uuid.clone()));
            i += 1;
        }
        assert(opt_strings_view(k@) =~= item_uuid_keys(items@));
        let items_by_uuid = build_index(&k);
        let mut k: Vec<Option<String>> = Vec::new();
        let mut i: usize = 0;
        while i < items.len()
            invariant
                i <= items.len(),
                k@.len() == i,
                forall|j: int| 0 <= j < i ==> opt_chars(#[trigger] k@[j]) == item_name_keys(items@)[j],
            decreases items.len() - i,
        {
            k.push(Some(to_lowercase(items[i].name.as_str())));
            i += 1;
        }
        assert(opt_strings_view(k@) =~= item_name_keys(items@));
        let items_by_name = build_index(&k);
        let mut k: Vec<Option<String>> = Vec::new();
        let mut i: usize = 0;
        while i < vehicles.len()
            invariant
                i <= vehicles.len(),
                k@.len() == i,
                forall|j: int| 0 <= j < i ==> opt_chars(#[trigger] k@[j]) == vehicle_uuid_keys(vehicles@)[j],
            decreases vehicles.len() - i,
        {
            k.push(Some(vehicles[i].uuid.clone()));
            i += 1;
        }
        assert(opt_strings_view(k@) =~= vehicle_uuid_keys(vehicles@));
        let vehicles_by_uuid = build_index(&k);
        let mut k: Vec<Option<String>> = Vec::new();
        let mut i: usize = 0;
        while i < blueprints.len()
            invariant
                i <= blueprints.len(),
                k@.len() == i,
                forall|j: int| 0 <= j < i ==> opt_chars(#[trigger] k@[j]) == blueprint_uuid_keys(blueprints@)[j],
            decreases blueprints.len() - i,
        {
            k.push(Some(blueprints[i].uuid.clone()));
            i += 1;
        }
        assert(opt_strings_view(k@) =~= blueprint_uuid_keys(blueprints@));
        let blueprints_by_uuid = build_index(&k);
        let mut k: Vec<Option<String>> = Vec::new();
        let mut i: usize = 0;
        while i < manufacturers.len()
            invariant
                i <= manufacturers.len(),
                k@.len() == i,
                forall|j: int| 0 <= j < i ==> opt_chars(#[trigger] k@[j]) == manufacturer_uuid_keys(manufacturers@)[j],
            decreases manufacturers.len() - i,
        {
            k.push(Some(manufacturers[i].uuid.clone()));
            i += 1;
        }
        assert(opt_strings_view(k@) =~= manufacturer_uuid_keys(manufacturers@));
        let manufacturers_by_uuid = build_index(&k);
        let mut k: Vec<Option<String>> = Vec::new();
        let mut i: usize = 0;
        while i < manufacturers.len()
            invariant
                i <= manufacturers.len(),
                k@.len() == i,
                forall|j: int| 0 <= j < i ==> opt_chars(#[trigger] k@[j]) == manufacturer_code_keys(manufacturers@)[j],
            decreases manufacturers.len() - i,
        {
            if manufacturers[i].code.as_str().is_empty() {
                k.push(None);
            } else {
                k.push(Some(to_lowercase(manufacturers[i].code.as_str())));
            }
            i += 1;
        }
        assert(opt_strings_view(k@) =~= manufacturer_code_keys(manufacturers@));
        let manufacturers_by_code = build_index(&k);
        let mut k: Vec<Option<String>> = Vec::new();
        let mut i: usize = 0;
        while i < resource_types.len()
            invariant
                i <= resource_types.len(),
                k@.len() == i,
                forall|j: int| 0 <= j < i ==> opt_chars(#[trigger] k@[j]) == resource_type_uuid_keys(resource_types@)[j],
            decreases resource_types.len() - i,
        {
            k.push(Some(resource_types[i].uuid.clone()));
            i += 1;
        }
        assert(opt_strings_view(k@) =~= resource_type_uuid_keys(resource_types@));
        let resource_types_by_uuid = build_index(&k);
        let mut k: Vec<Option<String>> = Vec::new();
        let mut i: usize = 0;
        while i < starmap_locations.len()
            invariant
                i <= starmap_locations.len(),
                k@.len() == i,
                forall|j: int| 0 <= j < i ==> opt_chars(#[trigger] k@[j]) == location_uuid_keys(starmap_locations@)[j],
            decreases starmap_locations.len() - i,
        {
            k.push(Some(starmap_locations[i].uuid.clone()));
            i += 1;
        }
        assert(opt_strings_view(k@) =~= location_uuid_keys(starmap_locations@));
        let starmap_locations_by_uuid = build_index(&k);
        let mut k: Vec<Option<String>> = Vec::new();
        let mut i: usize = 0;
        while i < entity_tags.len()
            invariant
                i <= entity_tags.len(),
                k@.len() == i,
                forall|j: int| 0 <= j < i ==> opt_chars(#[trigger] k@[j]) == tag_uuid_keys(entity_tags@)[j],
            decreases entity_tags.len() - i,
        {
            k.push(Some(entity_tags[i].uuid.clone()));
            i += 1;
        }
        assert(opt_strings_view(k@) =~= tag_uuid_keys(entity_tags@));
        let tags_by_uuid = build_index(&k);
        GameData {
            items,
            vehicles,
            blueprints,
            manufacturers,
            resource_types,
            starmap_locations,
            entity_tags,
            labels,
            items_by_uuid,
            items_by_name,
            vehicles_by_uuid,
            blueprints_by_uuid,
            manufacturers_by_uuid,
            manufacturers_by_code,
            resource_types_by_uuid,
            starmap_locations_by_uuid,
            tags_by_uuid,
        }
    }
}


/// The UUID of the manufacturer that stands for unknown makers.
pub open spec fn unknown_uuid() -> Seq<char> {
    "00000000-0000-0000-0000-000000000000"@
}

/// A manufacturer as its UUID, name and code.
pub open spec fn manufacturer_view(m: Manufacturer) -> (Seq<char>, Seq<char>, Seq<char>) {
    (m.uuid@, m.name@, m.code@)
}

/// The manufacturer that a raw entry gives: its reference and name trimmed
/// and not blank, its code trimmed (empty when missing).
pub open spec fn manufacturer_of(r: ManufacturerRaw) -> Option<(Seq<char>, Seq<char>, Seq<char>)> {
    match (r.reference, r.name) {
        (Some(u), Some(n)) => if trim(u@).len() > 0 && trim(n@).len() > 0 {
            Some(
                (
                    trim(u@),
                    trim(n@),
                    match r.code {
                        Some(c) => trim(c@),
                        None => Seq::empty(),
                    },
                ),
            )
        } else {
            None
        },
        _ => None,
    }
}

/// The manufacturers that the raw entries give, in order.
pub open spec fn kept_manufacturers(rs: Seq<ManufacturerRaw>) -> Seq<(Seq<char>, Seq<char>, Seq<char>)>
    decreases rs.len(),
{
    if rs.len() == 0 {
        Seq::empty()
    } else {
        match manufacturer_of(rs.last()) {
            Some(m) => kept_manufacturers(rs.drop_last()).push(m),
            None => kept_manufacturers(rs.drop_last()),
        }
    }
}

/// The manufacturers of `manufacturers.json`: those the entries give, then
/// the unknown manufacturer unless one of them has its UUID.
pub open spec fn manufacturer_list(rs: Seq<ManufacturerRaw>) -> Seq<(Seq<char>, Seq<char>, Seq<char>)> {
    let kept = kept_manufacturers(rs);
    if exists|i: int| 0 <= i < kept.len() && (#[trigger] kept[i]).0 == unknown_uuid() {
        kept
    } else {
        kept.push((unknown_uuid(), "Unknown"@, "UNKN"@))
    }
}

/// The manufacturers that the entries of `manufacturers.json` give; with no
/// entries (a file that cannot be read), the unknown manufacturer alone.
pub fn manufacturers_from_raw(raw: Vec<ManufacturerRaw>) -> (r: Vec<Manufacturer>)
    ensures
        r@.map_values(|m: Manufacturer| manufacturer_view(m)) == manufacturer_list(raw@),
{
    broadcast use vstd::std_specs::vec::axiom_spec_into_iter;

    let ghost rs = raw@;
    let mut result: Vec<Manufacturer> = Vec::new();
    let mut has_unknown = false;
    for m in it: raw.into_iter()
        invariant
            it.seq() == rs,
            result@.map_values(|m: Manufacturer| manufacturer_view(m)) == kept_manufacturers(
                rs.take(it.index()),
            ),
            has_unknown == exists|i: int|
                0 <= i < result@.len() && (#[trigger] result@[i]).uuid@ == unknown_uuid(),
    {
        let ghost before = result@;
        assert(rs.take(it.index() + 1).drop_last() =~= rs.take(it.index()));
        assert(rs.take(it.index() + 1).last() == m);
        let uuid = match &m.reference {
            Some(u) => trim_str(u.as_str()),
            None => String::new(),
        };
        let name = match &m.name {
            Some(n) => trim_str(n.as_str()),
            None => String::new(),
        };
        if m.reference.is_some() && m.name.is_some() && !uuid.as_str().is_empty()
            && !name.as_str().is_empty() {
            let code = match &m.code {
                Some(c) => trim_str(c.as_str()),
                None => String::new(),
            };
            let is_unknown = str_eq(uuid.as_str(), "00000000-0000-0000-0000-000000000000");
            result.push(Manufacturer { uuid, name, code });
            assert(result@.map_values(|m: Manufacturer| manufacturer_view(m)) =~= before.map_values(
                |m: Manufacturer| manufacturer_view(m),
            ).push(manufacturer_view(result@.last())));
            proof {
                if has_unknown {
                    let i = choose|i: int| 0 <= i < before.len() && (#[trigger] before[i]).uuid@ == unknown_uuid();
                    assert(result@[i] == before[i]);
                }
                if is_unknown {
                    assert(result@[result@.len() - 1].uuid@ == unknown_uuid());
                }
                if exists|i: int| 0 <= i < result@.len() && (#[trigger] result@[i]).uuid@ == unknown_uuid() {
                    let i = choose|i: int| 0 <= i < result@.len() && (#[trigger] result@[i]).uuid@ == unknown_uuid();
                    if i < before.len() {
                        assert(before[i] == result@[i]);
                    }
                }
            }
            has_unknown = has_unknown || is_unknown;
        }
    }
    let ghost kept = kept_manufacturers(rs);
    assert(rs.take(rs.len() as int) =~= rs);
    proof {
        let vs = result@.map_values(|m: Manufacturer| manufacturer_view(m));
        assert forall|i: int| 0 <= i < kept.len() implies (#[trigger] kept[i]).0 == result@[i].uuid@ by {
            assert(vs[i] == kept[i]);
        }
        if exists|i: int| 0 <= i < kept.len() && (#[trigger] kept[i]).0 == unknown_uuid() {
            let i = choose|i: int| 0 <= i < kept.len() && (#[trigger] kept[i]).0 == unknown_uuid();
            assert(result@[i].uuid@ == unknown_uuid());
        }
        if has_unknown {
            let i = choose|i: int| 0 <= i < result@.len() && (#[trigger] result@[i]).uuid@ == unknown_uuid();
            assert(kept[i].0 == unknown_uuid());
        }
    }
    if !has_unknown {
        let ghost before = result@;
        result.push(
            Manufacturer {
                uuid: copy_str("00000000-0000-0000-0000-000000000000"),
                name: copy_str("Unknown"),
                code: copy_str("UNKN"),
            },
        );
        assert(result@.map_values(|m: Manufacturer| manufacturer_view(m)) =~= before.map_values(
            |m: Manufacturer| manufacturer_view(m),
        ).push(manufacturer_view(result@.last())));
    }
    result
}

/// The entity tags that the pairs of `tags.json` give: UUID and name
/// trimmed, pairs with a blank UUID or name skipped.
pub open spec fn kept_tags(rs: Seq<(String, String)>) -> Seq<(Seq<char>, Seq<char>)>
    decreases rs.len(),
{
    if rs.len() == 0 {
        Seq::empty()
    } else if trim(rs.last().0@).len() > 0 && trim(rs.last().1@).len() > 0 {
        kept_tags(rs.drop_last()).push((trim(rs.last().0@), trim(rs.last().1@)))
    } else {
        kept_tags(rs.drop_last())
    }
}

/// The entity tags that the (UUID, name) pairs of `tags.json` give.
pub fn entity_tags_from_pairs(raw: &Vec<(String, String)>) -> (r: Vec<EntityTag>)
    ensures
        r@.map_values(|t: EntityTag| (t.uuid@, t.name@)) == kept_tags(raw@),
{
    let mut r: Vec<EntityTag> = Vec::new();
    let mut i: usize = 0;
    while i < raw.len()
        invariant
            i <= raw.len(),
            r@.map_values(|t: EntityTag| (t.uuid@, t.name@)) == kept_tags(raw@.take(i as int)),
        decreases raw.len() - i,
    {
        assert(raw@.take(i + 1).drop_last() =~= raw@.take(i as int));
        assert(raw@.take(i + 1).last() == raw@[i as int]);
        let u = trim_str(raw[i].0.as_str());
        let n = trim_str(raw[i].1.as_str());
        if !u.as_str().is_empty() && !n.as_str().is_empty() {
            let ghost before = r@;
            r.push(EntityTag { uuid: u, name: n });
            assert(r@.map_values(|t: EntityTag| (t.uuid@, t.name@)) =~= before.map_values(
                |t: EntityTag| (t.uuid@, t.name@),
            ).push((r@.last().uuid@, r@.last().name@)));
        }
        i += 1;
    }
    assert(raw@.take(i as int) =~= raw@);
    r
}

/// The translations that the sections of an INI file give: later values
/// overwrite earlier ones; keys without a value are skipped.
pub open spec fn ini_fold(es: Seq<(String, Option<String>)>) -> Map<Seq<char>, String>
    decreases es.len(),
{
    if es.len() == 0 {
        Map::empty()
    } else {
        match es.last().1 {
            Some(v) => ini_fold(es.drop_last()).insert(es.last().0@, v),
            None => ini_fold(es.drop_last()),
        }
    }
}

/// The entries of all `sections` (each a name and its entries), in order.
pub open spec fn ini_entries(sections: Seq<(String, Vec<(String, Option<String>)>)>) -> Seq<
    (String, Option<String>),
>
    decreases sections.len(),
{
    if sections.len() == 0 {
        Seq::empty()
    } else {
        ini_entries(sections.drop_last()) + sections.last().1@
    }
}

/// The translations of an INI file whose sections, in the order they are
/// walked, are `sections`: each a name and its entries.
pub fn ini_translations(sections: &Vec<(String, Vec<(String, Option<String>)>)>) -> (r: StringHashMap<String>)
    ensures
        r@ == ini_fold(ini_entries(sections@)),
{
    let mut r: StringHashMap<String> = StringHashMap::new();
    let mut s: usize = 0;
    while s < sections.len()
        invariant
            s <= sections.len(),
            r@ == ini_fold(ini_entries(sections@.take(s as int))),
        decreases sections.len() - s,
    {
        let sec = &sections[s].1;
        let ghost base = ini_entries(sections@.take(s as int));
        assert(sections@.take(s + 1).drop_last() =~= sections@.take(s as int));
        let mut i: usize = 0;
        assert(base + sec@.take(0) =~= base);
        while i < sec.len()
            invariant
                i <= sec.len(),
                r@ == ini_fold(base + sec@.take(i as int)),
            decreases sec.len() - i,
        {
            let ghost t = base + sec@.take(i + 1);
            assert(t.drop_last() =~= base + sec@.take(i as int));
            assert(t.last() == sec@[i as int]);
            match &sec[i].1 {
                Some(v) => {
                    r.insert(sec[i].0.clone(), v.clone());
                },
                None => {},
            }
            i += 1;
        }
        assert(sec@.take(i as int) =~= sec@);
        s += 1;
    }
    assert(sections@.take(s as int) =~= sections@);
    r
}

/// `l` is the label for `key` with English text `en` and the German and
/// Chinese texts of `de` and `zh`, in that order.
pub open spec fn label_for(
    l: GameLabel,
    key: Seq<char>,
    en: Seq<char>,
    de: Map<Seq<char>, String>,
    zh: Map<Seq<char>, String>,
) -> bool {
    &&& l.key@ == key
    &&& pairs_view(l.translations@) == seq![("en"@, en)] + (if de.contains_key(key) {
        seq![("de"@, de[key]@)]
    } else {
        Seq::empty()
    }) + (if zh.contains_key(key) {
        seq![("zh"@, zh[key]@)]
    } else {
        Seq::empty()
    })
}

/// The keys of the English labels.
pub open spec fn english_keys(v: Seq<(String, String)>) -> Seq<Option<Seq<char>>> {
    v.map_values(|e: (String, String)| Some(e.0@))
}

/// The labels of the game: one per English label (the last of a key),
/// with its German and Chinese translations where the INI files have them.
pub fn merge_labels(
    english: &Vec<(String, String)>,
    german: &StringHashMap<String>,
    chinese: &StringHashMap<String>,
) -> (r: StringHashMap<GameLabel>)
    ensures
        forall|k: Seq<char>|
            #![trigger r@.contains_key(k)]
            (r@.contains_key(k) <==> last_index(english_keys(english@), k) is Some) && (
            r@.contains_key(k) ==> label_for(
                r@[k],
                k,
                english@[last_index(english_keys(english@), k)->0].1@,
                german@,
                chinese@,
            )),
{
    let mut r: StringHashMap<GameLabel> = StringHashMap::new();
    let mut i: usize = 0;
    while i < english.len()
        invariant
            i <= english.len(),
            forall|k: Seq<char>|
                #![trigger r@.contains_key(k)]
                (r@.contains_key(k) <==> last_index(english_keys(english@).take(i as int), k) is Some)
                    && (r@.contains_key(k) ==> label_for(
                    r@[k],
                    k,
                    english@[last_index(english_keys(english@).take(i as int), k)->0].1@,
                    german@,
                    chinese@,
                )),
        decreases english.len() - i,
    {
        let key = &english[i].0;
        let mut translations: Vec<(String, String)> = Vec::new();
        translations.push((copy_str("en"), english[i].1.clone()));
        match german.get(key.as_str()) {
            Some(de) => translations.push((copy_str("de"), de.clone())),
            None => {},
        }
        match chinese.get(key.as_str()) {
            Some(zh) => translations.push((copy_str("zh"), zh.clone())),
            None => {},
        }
        let label = GameLabel { key: key.clone(), translations };
        proof {
            assert(label_for(label, key@, english@[i as int].1@, german@, chinese@)) by {
                assert(pairs_view(label.translations@) =~= seq![("en"@, english@[i as int].1@)] + (
                if german@.contains_key(key@) {
                    seq![("de"@, german@[key@]@)]
                } else {
                    Seq::empty()
                }) + (if chinese@.contains_key(key@) {
                    seq![("zh"@, chinese@[key@]@)]
                } else {
                    Seq::empty()
                }));
            }
        }
        let ghost t = english_keys(english@).take(i + 1);
        assert(t.drop_last() =~= english_keys(english@).take(i as int));
        assert(t.last() == Some(key@));
        r.insert(key.clone(), label);
        i += 1;
    }
    assert(english_keys(english@).take(i as int) =~= english_keys(english@));
    r
}

/// The translations of item `it` once the non-English translations of the
/// label `tr` are added in order.
pub open spec fn add_label_translations(
    base: Seq<(Seq<char>, Seq<char>)>,
    tr: Seq<(Seq<char>, Seq<char>)>,
) -> Seq<(Seq<char>, Seq<char>)>
    decreases tr.len(),
{
    if tr.len() == 0 {
        base
    } else if tr.last().0 == "en"@ {
        add_label_translations(base, tr.drop_last())
    } else {
        assoc_insert(add_label_translations(base, tr.drop_last()), tr.last().0, tr.last().1)
    }
}

/// The translations that the label of an item's description gives: those
/// of the label whose key is the item's description label, if there is one.
pub open spec fn label_translations(raw: Option<JsonValue>, labels: Map<Seq<char>, GameLabel>) -> Seq<
    (Seq<char>, Seq<char>),
> {
    match description_label_of(raw) {
        Some(k) => if labels.contains_key(k) {
            pairs_view(labels[k].translations@)
        } else {
            Seq::empty()
        },
        None => Seq::empty(),
    }
}

/// The item that an item file gives, with the translations of its
/// description label (English aside) added.
pub fn item_from_file(payload: ItemFilePayload, labels: &StringHashMap<GameLabel>) -> (r: Option<Item>)
    ensures
        r is Some <==> (payload.item matches Some(v) && crate::models::fields::nonblank_of(
            crate::models::item::item_uuid_source(v),
        ) is Some),
        r matches Some(it) ==> {
            let v = payload.item->0;
            &&& it.uuid@ == crate::models::fields::nonblank_of(
                crate::models::item::item_uuid_source(v),
            )->0
            &&& exists|base: Item|
                #![trigger item_from(v, payload.raw, base)]
                item_from(v, payload.raw, base) && it.uuid == base.uuid && it.name == base.name
                    && it.class_name == base.class_name && it.item_type == base.item_type
                    && it.sub_type == base.sub_type && it.classification == base.classification
                    && it.size == base.size && it.grade == base.grade && it.class == base.class
                    && it.manufacturer_uuid == base.manufacturer_uuid && it.data == base.data
                    && it.entity_tags == base.entity_tags && pairs_view(it.translations@)
                    == add_label_translations(
                    pairs_view(base.translations@),
                    label_translations(payload.raw, labels@),
                )
        },
{
    let ItemFilePayload { item, raw } = payload;
    let item_val = match item {
        Some(v) => v,
        None => {
            return None;
        },
    };
    let mut it = match Item::from_payload(item_val, raw.as_ref()) {
        Some(x) => x,
        None => {
            return None;
        },
    };
    let ghost base = it;
    proof {
        assert(keys_unique(pairs_view(it.translations@))) by {
            assert(pairs_view(it.translations@).len() <= 1);
        }
    }
    let ghost tr: Seq<(Seq<char>, Seq<char>)> = Seq::empty();
    match Item::description_label(raw.as_ref()) {
        Some(key) => match labels.get(key.as_str()) {
            Some(label) => {
                let ghost ltr = pairs_view(label.translations@);
                let mut i: usize = 0;
                while i < label.translations.len()
                    invariant
                        i <= label.translations.len(),
                        ltr == pairs_view(label.translations@),
                        keys_unique(pairs_view(it.translations@)),
                        pairs_view(it.translations@) == add_label_translations(
                            pairs_view(base.translations@),
                            ltr.take(i as int),
                        ),
                        it.uuid == base.uuid,
                        it.name == base.name,
                        it.class_name == base.class_name,
                        it.item_type == base.item_type,
                        it.sub_type == base.sub_type,
                        it.classification == base.classification,
                        it.size == base.size,
                        it.grade == base.grade,
                        it.class == base.class,
                        it.manufacturer_uuid == base.manufacturer_uuid,
                        it.data == base.data,
                        it.entity_tags == base.entity_tags,
                    decreases label.translations.len() - i,
                {
                    let ghost t = ltr.take(i + 1);
                    assert(t.drop_last() =~= ltr.take(i as int));
                    assert(t.last() == ltr[i as int]);
                    let (loc, text) = &label.translations[i];
                    if !str_eq(loc.as_str(), "en") {
                        assoc_set(&mut it.translations, loc.clone(), text.clone());
                    }
                    i += 1;
                }
                assert(ltr.take(i as int) =~= ltr);
            },
            None => {},
        },
        None => {},
    }
    Some(it)
}

/// The records that `ps` describe, in order, the others skipped.
pub open spec fn resource_types_from(ps: Seq<JsonValue>, rs: Seq<ResourceType>) -> bool
    decreases ps.len(),
{
    if ps.len() == 0 {
        rs.len() == 0
    } else if resource_type_present(ps.last()) {
        rs.len() > 0 && resource_type_from(ps.last(), rs.last()) && resource_types_from(
            ps.drop_last(),
            rs.drop_last(),
        )
    } else {
        resource_types_from(ps.drop_last(), rs)
    }
}

/// The resource types that the entries of `resource-types.json` describe.
pub fn load_resource_types(raw: Vec<JsonValue>) -> (r: Vec<ResourceType>)
    ensures
        resource_types_from(raw@, r@),
{
    broadcast use vstd::std_specs::vec::axiom_spec_into_iter;

    let ghost ps = raw@;
    let mut r: Vec<ResourceType> = Vec::new();
    for p in it: raw.into_iter()
        invariant
            it.seq() == ps,
            resource_types_from(ps.take(it.index()), r@),
    {
        assert(ps.take(it.index() + 1).drop_last() =~= ps.take(it.index()));
        assert(ps.take(it.index() + 1).last() == p);
        let ghost before = r@;
        match ResourceType::from_payload(p) {
            Some(x) => {
                r.push(x);
                assert(r@.drop_last() =~= before);
            },
            None => {},
        }
    }
    assert(ps.take(ps.len() as int) =~= ps);
    r
}

/// The records that `ps` describe, in order, the others skipped.
pub open spec fn blueprints_from(ps: Seq<JsonValue>, rs: Seq<Blueprint>) -> bool
    decreases ps.len(),
{
    if ps.len() == 0 {
        rs.len() == 0
    } else if blueprint_present(ps.last()) {
        rs.len() > 0 && blueprint_from(ps.last(), rs.last()) && blueprints_from(
            ps.drop_last(),
            rs.drop_last(),
        )
    } else {
        blueprints_from(ps.drop_last(), rs)
    }
}

/// The blueprints that the entries of `blueprints.json` describe.
pub fn load_blueprints(raw: Vec<JsonValue>) -> (r: Vec<Blueprint>)
    ensures
        blueprints_from(raw@, r@),
{
    broadcast use vstd::std_specs::vec::axiom_spec_into_iter;

    let ghost ps = raw@;
    let mut r: Vec<Blueprint> = Vec::new();
    for p in it: raw.into_iter()
        invariant
            it.seq() == ps,
            blueprints_from(ps.take(it.index()), r@),
    {
        assert(ps.take(it.index() + 1).drop_last() =~= ps.take(it.index()));
        assert(ps.take(it.index() + 1).last() == p);
        let ghost before = r@;
        match Blueprint::from_payload(p) {
            Some(x) => {
                r.push(x);
                assert(r@.drop_last() =~= before);
            },
            None => {},
        }
    }
    assert(ps.take(ps.len() as int) =~= ps);
    r
}

/// The records that `ps` describe, in order, the others skipped.
pub open spec fn locations_from(ps: Seq<JsonValue>, rs: Seq<StarmapLocation>) -> bool
    decreases ps.len(),
{
    if ps.len() == 0 {
        rs.len() == 0
    } else if entry_has_uuid(ps.last()) {
        rs.len() > 0 && location_from(ps.last(), rs.last()) && locations_from(
            ps.drop_last(),
            rs.drop_last(),
        )
    } else {
        locations_from(ps.drop_last(), rs)
    }
}

/// The locations that the entries of `starmap.json` describe, each with
/// its solar system resolved.
pub fn load_starmap(raw: Vec<JsonValue>) -> (r: Vec<StarmapLocation>)
    ensures
        exists|parsed: Seq<StarmapLocation>|
            #![trigger locations_from(raw@, parsed)]
            locations_from(raw@, parsed) && r@.len() == parsed.len() && forall|i: int|
                0 <= i < parsed.len() ==> {
                    let a = #[trigger] r@[i];
                    let b = parsed[i];
                    &&& opt_chars(a.system) == system_of(parsed, i)
                    &&& a.uuid == b.uuid
                    &&& a.name == b.name
                    &&& a.description == b.description
                    &&& a.type_label == b.type_label
                    &&& a.size == b.size
                    &&& a.is_scannable == b.is_scannable
                    &&& a.block_travel == b.block_travel
                    &&& a.parent_uuid == b.parent_uuid
                    &&& a.amenities == b.amenities
                    &&& a.data == b.data
                },
{
    broadcast use vstd::std_specs::vec::axiom_spec_into_iter;

    let ghost ps = raw@;
    let mut r: Vec<StarmapLocation> = Vec::new();
    for p in it: raw.into_iter()
        invariant
            it.seq() == ps,
            locations_from(ps.take(it.index()), r@),
    {
        assert(ps.take(it.index() + 1).drop_last() =~= ps.take(it.index()));
        assert(ps.take(it.index() + 1).last() == p);
        let ghost before = r@;
        match StarmapLocation::from_payload(p) {
            Some(x) => {
                r.push(x);
                assert(r@.drop_last() =~= before);
            },
            None => {},
        }
    }
    assert(ps.take(ps.len() as int) =~= ps);
    let ghost parsed = r@;
    resolve_starmap_hierarchy(&mut r);
    assert(locations_from(raw@, parsed));
    r
}

impl GameData {
    /// A one-line count of each collection.
    pub fn memory_report(&self) -> (r: String)
        ensures
            r@ == "Items: "@ + decimal_string(self.items@.len()) + ", Vehicles: "@ + decimal_string(
                self.vehicles@.len(),
            ) + ", Blueprints: "@ + decimal_string(self.blueprints@.len()) + ", Manufacturers: "@
                + decimal_string(self.manufacturers@.len()) + ", ResourceTypes: "@
                + decimal_string(self.resource_types@.len()) + ", StarmapLocations: "@
                + decimal_string(self.starmap_locations@.len()) + ", EntityTags: "@
                + decimal_string(self.entity_tags@.len()) + ", Labels: "@ + decimal_string(
                self.labels@.len(),
            ),
    {
        let mut s = copy_str("Items: ");
        push_str(&mut s, usize_to_decimal(self.items.len()).as_str());
        push_str(&mut s, ", Vehicles: ");
        push_str(&mut s, usize_to_decimal(self.vehicles.len()).as_str());
        push_str(&mut s, ", Blueprints: ");
        push_str(&mut s, usize_to_decimal(self.blueprints.len()).as_str());
        push_str(&mut s, ", Manufacturers: ");
        push_str(&mut s, usize_to_decimal(self.manufacturers.len()).as_str());
        push_str(&mut s, ", ResourceTypes: ");
        push_str(&mut s, usize_to_decimal(self.resource_types.len()).as_str());
        push_str(&mut s, ", StarmapLocations: ");
        push_str(&mut s, usize_to_decimal(self.starmap_locations.len()).as_str());
        push_str(&mut s, ", EntityTags: ");
        push_str(&mut s, usize_to_decimal(self.entity_tags.len()).as_str());
        push_str(&mut s, ", Labels: ");
        push_str(&mut s, usize_to_decimal(self.labels.len()).as_str());
        s
    }
}

/// Whether `s` ends with `suffix`.
pub open spec fn ends_with(s: Seq<char>, suffix: Seq<char>) -> bool {
    suffix.len() <= s.len() && s.skip(s.len() - suffix.len()) == suffix
}

/// Whether a file of the ships directory holds raw data, which the vehicle
/// list skips: its name ends in `-raw.json`.
pub fn is_raw_vehicle_file(file_name: &str) -> (r: bool)
    ensures
        r == ends_with(file_name@, "-raw.json"@),
{
    let v = crate::text::chars_of(file_name);
    let suf = crate::text::chars_of("-raw.json");
    if suf.len() > v.len() {
        return false;
    }
    let start = v.len() - suf.len();
    let mut i: usize = 0;
    while i < suf.len()
        invariant
            v@ == file_name@,
            suf@ == "-raw.json"@,
            start == v.len() - suf.len(),
            i <= suf.len(),
            forall|k: int| 0 <= k < i ==> v@[start + k] == suf@[k],
        decreases suf.len() - i,
    {
        if v[start + i] != suf[i] {
            assert(v@.skip(start as int)[i as int] != suf@[i as int]);
            return false;
        }
        i = i + 1;
    }
    assert(v@.skip(start as int) =~= suf@);
    true
}

} // verus!
