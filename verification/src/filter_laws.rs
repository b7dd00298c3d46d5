//! What the listings keep: the item categories, and the filters and
//! searches of vehicles, star-map places, manufacturers and blueprints,
//! stated over the records' own fields.
use vstd::prelude::*;

use crate::handlers::items::{
    in_category, item_candidates, item_filter_ok, item_manufacturer, item_passes, item_search_ok,
};
use crate::handlers::vehicles::{
    vehicle_candidates, vehicle_filter_ok, vehicle_kind_ok, vehicle_manufacturer, vehicle_passes,
    vehicle_search_ok,
};
use crate::num::signed_decimal_string;
use crate::assoc::assoc_get;
use crate::handlers::blueprints::{blueprint_candidates, blueprint_filter_ok, blueprint_passes};
use crate::handlers::common::selected;
use crate::handlers::manufacturers::{
    manufacturer_candidates, manufacturer_found, manufacturer_named, manufacturer_passes,
};
use crate::handlers::starmap::{location_candidates, location_filter_ok, location_passes};
use crate::handlers::resource_types::{all_ingredients, resource_type_candidates};
use crate::laws::law_listing_exact;
use crate::models::blueprint::Blueprint;
use crate::models::starmap::StarmapLocation;
use crate::loader::GameData;
use crate::models::item::Item;
use crate::models::vehicle::Vehicle;
use crate::query::QueryModel;
use crate::text::{lowercase, seq_contains};

verus! {

/// The characters of an optional field; a missing field reads as empty.
pub open spec fn field_chars(o: Option<String>) -> Seq<char> {
    match o {
        Some(s) => s@,
        None => Seq::empty(),
    }
}

/// The item categories, by the lowercase type `t`, sub-type `st` and
/// classification `cl` of an item (a missing field reads as empty):
/// weapons have type `weapon` or a classification containing `weapon`;
/// weapon attachments type `weaponattachment` or a sub-type containing
/// `attachment`; clothes type `char_clothing`; armor type `char_armor` or a
/// classification containing `armor`, whatever the type; food type
/// `consumable` with sub-type `food` or `drink`; vehicle weapons type
/// `vehicleweapon`, or type `weapon` with a classification containing
/// `vehicle`; vehicle items a classification containing `vehicle` and any
/// type but `vehicleweapon`. Any other category holds every item.
pub proof fn law_item_categories(it: Item, other: Seq<char>)
    requires
        other != "weapons"@,
        other != "weapon-attachments"@,
        other != "clothes"@,
        other != "armor"@,
        other != "food"@,
        other != "vehicle-weapons"@,
        other != "vehicle-items"@,
    ensures
        ({
            let t = lowercase(field_chars(it.item_type));
            let st = lowercase(field_chars(it.sub_type));
            let cl = lowercase(field_chars(it.classification));
            &&& in_category(it, "weapons"@) <==> (t == "weapon"@ || seq_contains(cl, "weapon"@))
            &&& in_category(it, "weapon-attachments"@) <==> (t == "weaponattachment"@
                || seq_contains(st, "attachment"@))
            &&& in_category(it, "clothes"@) <==> t == "char_clothing"@
            &&& in_category(it, "armor"@) <==> (t == "char_armor"@ || seq_contains(cl, "armor"@))
            &&& in_category(it, "food"@) <==> (t == "consumable"@ && (st == "food"@ || st
                == "drink"@))
            &&& in_category(it, "vehicle-weapons"@) <==> (t == "vehicleweapon"@ || (t == "weapon"@
                && seq_contains(cl, "vehicle"@)))
            &&& in_category(it, "vehicle-items"@) <==> (seq_contains(cl, "vehicle"@) && t
                != "vehicleweapon"@)
            &&& in_category(it, other)
        }),
{
    reveal_strlit("weapons");
    reveal_strlit("weapon-attachments");
    reveal_strlit("clothes");
    reveal_strlit("armor");
    reveal_strlit("food");
    reveal_strlit("vehicle-weapons");
    reveal_strlit("vehicle-items");
    assert("weapons"@.len() == 7 && "weapon-attachments"@.len() == 18 && "clothes"@.len() == 7);
    assert("armor"@.len() == 5 && "food"@.len() == 4 && "vehicle-weapons"@.len() == 15);
    assert("vehicle-items"@.len() == 13);
    assert("weapons"@[0] != "clothes"@[0]);
}

/// With no filter and no search, the list of a category holds exactly the
/// items of that category.
pub proof fn law_category_listing(data: GameData, p: QueryModel, c: Seq<char>, i: int)
    requires
        p.filters.len() == 0,
        p.search is None,
        0 <= i < data.items@.len(),
    ensures
        item_candidates(data, p, Some(c)).contains(i as usize) <==> in_category(data.items@[i], c),
{
    let ok = Seq::new(data.items@.len(), |j: int| item_passes(data, p, Some(c), data.items@[j]));
    assert(data.items@.len() == data.items.len());
    law_listing_exact(ok);
    assert(ok[i] == item_passes(data, p, Some(c), data.items@[i]));
}

/// The vehicle filters, over the vehicle's own fields: `career`, `role` and
/// `class_name` keep the vehicles whose field, lowercased, equals the
/// lowercased value; `name` those whose lowercase name contains it;
/// `manufacturer` (or `manufacturer.name`) those whose manufacturer has that
/// name or code, ignoring case; a flag keeps the vehicles whose flag is set
/// exactly when the lowercased value is `true` or `1`.
pub proof fn law_vehicle_filters(data: GameData, v: Vehicle, x: Seq<char>)
    ensures
        vehicle_filter_ok(data, v, "career"@, x) <==> (v.career matches Some(c) && lowercase(c@)
            == lowercase(x)),
        vehicle_filter_ok(data, v, "role"@, x) <==> (v.role matches Some(c) && lowercase(c@)
            == lowercase(x)),
        vehicle_filter_ok(data, v, "class_name"@, x) <==> (v.class_name matches Some(c)
            && lowercase(c@) == lowercase(x)),
        vehicle_filter_ok(data, v, "name"@, x) <==> (v.name matches Some(n) && seq_contains(
            lowercase(n@),
            lowercase(x),
        )),
        vehicle_filter_ok(data, v, "manufacturer"@, x) <==> (vehicle_manufacturer(data, v) matches Some(
            m,
        ) && (lowercase(m.name@) == lowercase(x) || lowercase(m.code@) == lowercase(x))),
        vehicle_filter_ok(data, v, "manufacturer.name"@, x) == vehicle_filter_ok(
            data,
            v,
            "manufacturer"@,
            x,
        ),
        vehicle_filter_ok(data, v, "is_vehicle"@, x) <==> (v.is_vehicle <==> (lowercase(x)
            == "true"@ || lowercase(x) == "1"@)),
        vehicle_filter_ok(data, v, "is_gravlev"@, x) <==> (v.is_gravlev <==> (lowercase(x)
            == "true"@ || lowercase(x) == "1"@)),
        vehicle_filter_ok(data, v, "is_spaceship"@, x) <==> (v.is_spaceship <==> (lowercase(x)
            == "true"@ || lowercase(x) == "1"@)),
{
    reveal_strlit("manufacturer");
    reveal_strlit("manufacturer.name");
    reveal_strlit("class_name");
    reveal_strlit("name");
    reveal_strlit("career");
    reveal_strlit("role");
    reveal_strlit("is_vehicle");
    reveal_strlit("is_gravlev");
    reveal_strlit("is_spaceship");
    assert("manufacturer"@.len() == 12 && "manufacturer.name"@.len() == 17);
    assert("class_name"@.len() == 10 && "name"@.len() == 4 && "career"@.len() == 6);
    assert("role"@.len() == 4 && "is_vehicle"@.len() == 10 && "is_gravlev"@.len() == 10);
    assert("is_spaceship"@.len() == 12);
    assert("name"@[0] != "role"@[0]);
    assert("class_name"@[0] != "is_vehicle"@[0] && "class_name"@[0] != "is_gravlev"@[0]);
    assert("is_vehicle"@[3] != "is_gravlev"@[3]);
    assert("manufacturer"@[0] != "is_spaceship"@[0]);
}

/// With one filter and no search, the vehicles listed are exactly those
/// that pass that filter.
pub proof fn law_vehicle_single_filter(
    data: GameData,
    p: QueryModel,
    k: Seq<char>,
    x: Seq<char>,
    i: int,
)
    requires
        p.filters == seq![(k, x)],
        p.search is None,
        0 <= i < data.vehicles@.len(),
    ensures
        vehicle_candidates(data, p, None).contains(i as usize) <==> vehicle_filter_ok(
            data,
            data.vehicles@[i],
            k,
            x,
        ),
{
    let ok = Seq::new(
        data.vehicles@.len(),
        |j: int| vehicle_passes(data, p, None, data.vehicles@[j]),
    );
    assert(data.vehicles@.len() == data.vehicles.len());
    law_listing_exact(ok);
    let v = data.vehicles@[i];
    assert(vehicle_candidates(data, p, None) == selected(ok));
    assert(ok[i] == vehicle_passes(data, p, None, v));
    assert(p.filters[0] == (k, x));
    assert(vehicle_passes(data, p, None, v) ==> vehicle_filter_ok(
        data,
        v,
        p.filters[0].0,
        p.filters[0].1,
    ));
    if vehicle_filter_ok(data, v, k, x) {
        assert forall|j: int| 0 <= j < p.filters.len() implies #[trigger] vehicle_filter_ok(
            data,
            v,
            p.filters[j].0,
            p.filters[j].1,
        ) by {
            assert(j == 0);
        }
    }
}

/// The star-map filters, over the place's own fields: `type` (or
/// `type_name`) and `system` keep the places whose field, lowercased, equals
/// the lowercased value; `name` keeps those whose lowercase name contains
/// the lowercased value, so any part of a name selects it.
pub proof fn law_location_filters(loc: StarmapLocation, x: Seq<char>)
    ensures
        location_filter_ok(loc, "type"@, x) <==> lowercase(loc.type_label@) == lowercase(x),
        location_filter_ok(loc, "type_name"@, x) <==> lowercase(loc.type_label@) == lowercase(x),
        location_filter_ok(loc, "system"@, x) <==> (loc.system matches Some(s) && lowercase(s@)
            == lowercase(x)),
        location_filter_ok(loc, "name"@, x) <==> seq_contains(lowercase(loc.name@), lowercase(x)),
{
    reveal_strlit("type");
    reveal_strlit("type_name");
    reveal_strlit("system");
    reveal_strlit("name");
    assert("type"@.len() == 4 && "type_name"@.len() == 9 && "system"@.len() == 6);
    assert("name"@.len() == 4);
    assert("type"@[0] != "name"@[0]);
}

/// With one filter and no search, the places listed are exactly those that
/// pass that filter; with no filter and a search text, those whose name or
/// description contains it, ignoring case.
pub proof fn law_location_listing(data: GameData, p: QueryModel, i: int)
    requires
        0 <= i < data.starmap_locations@.len(),
    ensures
        p.search is None && p.filters.len() == 1 ==> (location_candidates(data, p).contains(
            i as usize,
        ) <==> location_filter_ok(data.starmap_locations@[i], p.filters[0].0, p.filters[0].1)),
        p.search matches Some(q) ==> (p.filters.len() == 0 ==> (location_candidates(
            data,
            p,
        ).contains(i as usize) <==> (seq_contains(
            lowercase(data.starmap_locations@[i].name@),
            lowercase(q),
        ) || (data.starmap_locations@[i].description matches Some(d) && seq_contains(
            lowercase(d@),
            lowercase(q),
        ))))),
{
    let ok = Seq::new(
        data.starmap_locations@.len(),
        |j: int| location_passes(p, data.starmap_locations@[j]),
    );
    assert(data.starmap_locations@.len() == data.starmap_locations.len());
    law_listing_exact(ok);
    let loc = data.starmap_locations@[i];
    assert(location_candidates(data, p) == selected(ok));
    assert(ok[i] == location_passes(p, loc));
    if p.filters.len() == 1 {
        assert(location_passes(p, loc) ==> location_filter_ok(loc, p.filters[0].0, p.filters[0].1));
        if location_filter_ok(loc, p.filters[0].0, p.filters[0].1) {
            assert forall|j: int| 0 <= j < p.filters.len() implies #[trigger] location_filter_ok(
                loc,
                p.filters[j].0,
                p.filters[j].1,
            ) by {
                assert(j == 0);
            }
        }
    }
}

/// The manufacturer listing: a search keeps the manufacturers whose
/// lowercase name or lowercase code contains the lowercase search text;
/// a `name` filter (where filters apply) those whose lowercase name
/// contains the lowercase filter value; where filters do not apply and there
/// is no search, every manufacturer is listed.
pub proof fn law_manufacturer_listing(data: GameData, p: QueryModel, with_filter: bool, i: int)
    requires
        0 <= i < data.manufacturers@.len(),
    ensures
        p.search matches Some(q) ==> ((!with_filter || assoc_get(p.filters, "name"@) is None) ==> (
        manufacturer_candidates(data, p, with_filter).contains(i as usize) <==> (seq_contains(
            lowercase(data.manufacturers@[i].name@),
            lowercase(q),
        ) || seq_contains(lowercase(data.manufacturers@[i].code@), lowercase(q))))),
        assoc_get(p.filters, "name"@) matches Some(f) ==> (with_filter && p.search is None ==> (
        manufacturer_candidates(data, p, with_filter).contains(i as usize) <==> seq_contains(
            lowercase(data.manufacturers@[i].name@),
            lowercase(f),
        ))),
        !with_filter && p.search is None ==> manufacturer_candidates(data, p, with_filter).contains(
            i as usize,
        ),
{
    let ok = Seq::new(
        data.manufacturers@.len(),
        |j: int| manufacturer_passes(p, with_filter, data.manufacturers@[j]),
    );
    assert(data.manufacturers@.len() == data.manufacturers.len());
    law_listing_exact(ok);
    assert(manufacturer_candidates(data, p, with_filter) == selected(ok));
    assert(ok[i] == manufacturer_passes(p, with_filter, data.manufacturers@[i]));
}

/// The blueprint filters, over the blueprint's own fields: `output.name`
/// and `output.class` keep the blueprints whose output name (or class),
/// lowercased, contains the lowercased value; `query` those whose lowercase
/// key or output name contains it; `default` those available by default
/// exactly when the lowercased value is `true` or `1`.
pub proof fn law_blueprint_filters(data: GameData, bp: Blueprint, x: Seq<char>)
    ensures
        blueprint_filter_ok(data, bp, "output.name"@, x) <==> (bp.output_name matches Some(n)
            && seq_contains(lowercase(n@), lowercase(x))),
        blueprint_filter_ok(data, bp, "output.class"@, x) <==> (bp.output_class matches Some(n)
            && seq_contains(lowercase(n@), lowercase(x))),
        blueprint_filter_ok(data, bp, "query"@, x) <==> (seq_contains(lowercase(bp.key@), lowercase(x))
            || (bp.output_name matches Some(n) && seq_contains(lowercase(n@), lowercase(x)))),
        blueprint_filter_ok(data, bp, "default"@, x) <==> (bp.is_available_by_default <==> (
        lowercase(x) == "true"@ || lowercase(x) == "1"@)),
{
    reveal_strlit("query");
    reveal_strlit("output.uuid");
    reveal_strlit("output.name");
    reveal_strlit("output.class");
    reveal_strlit("default");
    assert("query"@.len() == 5 && "output.uuid"@.len() == 11 && "output.name"@.len() == 11);
    assert("output.class"@.len() == 12 && "default"@.len() == 7);
    assert("output.uuid"@[7] != "output.name"@[7]);
}

/// With one filter and no search, the blueprints listed are exactly those
/// that pass that filter; with no filter and a search text, those whose key
/// or output name contains it, ignoring case.
pub proof fn law_blueprint_listing(data: GameData, p: QueryModel, i: int)
    requires
        0 <= i < data.blueprints@.len(),
    ensures
        p.search is None && p.filters.len() == 1 ==> (blueprint_candidates(data, p).contains(
            i as usize,
        ) <==> blueprint_filter_ok(data, data.blueprints@[i], p.filters[0].0, p.filters[0].1)),
        p.search matches Some(q) ==> (p.filters.len() == 0 ==> (blueprint_candidates(
            data,
            p,
        ).contains(i as usize) <==> (seq_contains(lowercase(data.blueprints@[i].key@), lowercase(q))
            || (data.blueprints@[i].output_name matches Some(n) && seq_contains(
            lowercase(n@),
            lowercase(q),
        ))))),
{
    let ok = Seq::new(data.blueprints@.len(), |j: int| blueprint_passes(data, p, data.blueprints@[j]));
    assert(data.blueprints@.len() == data.blueprints.len());
    law_listing_exact(ok);
    let bp = data.blueprints@[i];
    assert(blueprint_candidates(data, p) == selected(ok));
    assert(ok[i] == blueprint_passes(data, p, bp));
    if p.filters.len() == 1 {
        assert(blueprint_passes(data, p, bp) ==> blueprint_filter_ok(
            data,
            bp,
            p.filters[0].0,
            p.filters[0].1,
        ));
        if blueprint_filter_ok(data, bp, p.filters[0].0, p.filters[0].1) {
            assert forall|j: int| 0 <= j < p.filters.len() implies #[trigger] blueprint_filter_ok(
                data,
                bp,
                p.filters[j].0,
                p.filters[j].1,
            ) by {
                assert(j == 0);
            }
        }
    }
}

/// A search text with its underscores read as spaces.
pub open spec fn spaced(q: Seq<char>) -> Seq<char> {
    q.map_values(|c: char| if c == '_' { ' ' } else { c })
}

/// The item filters, over the item's own fields: `type`, `sub_type`,
/// `class_name`, `classification` and `class` keep the items whose field,
/// lowercased, equals the lowercased value; `name` those whose lowercase
/// name contains it; `size` and `grade` those whose number is written as the
/// value; `manufacturer` those whose manufacturer UUID is the value
/// (ignoring case), or whose manufacturer has that name or code (ignoring
/// case).
pub proof fn law_item_filters(data: GameData, it: Item, x: Seq<char>)
    ensures
        item_filter_ok(data, it, "type"@, x) <==> (it.item_type matches Some(c) && lowercase(c@)
            == lowercase(x)),
        item_filter_ok(data, it, "sub_type"@, x) <==> (it.sub_type matches Some(c) && lowercase(c@)
            == lowercase(x)),
        item_filter_ok(data, it, "class_name"@, x) <==> (it.class_name matches Some(c) && lowercase(
            c@,
        ) == lowercase(x)),
        item_filter_ok(data, it, "classification"@, x) <==> (it.classification matches Some(c)
            && lowercase(c@) == lowercase(x)),
        item_filter_ok(data, it, "class"@, x) <==> (it.class matches Some(c) && lowercase(c@)
            == lowercase(x)),
        item_filter_ok(data, it, "name"@, x) <==> seq_contains(lowercase(it.name@), lowercase(x)),
        item_filter_ok(data, it, "size"@, x) <==> (it.size matches Some(n) && signed_decimal_string(
            n as int,
        ) == x),
        item_filter_ok(data, it, "grade"@, x) <==> (it.grade matches Some(n) && signed_decimal_string(
            n as int,
        ) == x),
        item_filter_ok(data, it, "manufacturer"@, x) <==> (it.manufacturer_uuid matches Some(u) && (
        lowercase(u@) == lowercase(x) || (item_manufacturer(data, it) matches Some(m) && (lowercase(
            m.name@,
        ) == lowercase(x) || lowercase(m.code@) == lowercase(x))))),
{
    reveal_strlit("type");
    reveal_strlit("sub_type");
    reveal_strlit("manufacturer");
    reveal_strlit("class_name");
    reveal_strlit("name");
    reveal_strlit("classification");
    reveal_strlit("size");
    reveal_strlit("grade");
    reveal_strlit("class");
    assert("type"@.len() == 4 && "sub_type"@.len() == 8 && "manufacturer"@.len() == 12);
    assert("class_name"@.len() == 10 && "name"@.len() == 4 && "classification"@.len() == 14);
    assert("size"@.len() == 4 && "grade"@.len() == 5 && "class"@.len() == 5);
    assert("type"@[0] != "name"@[0] && "type"@[0] != "size"@[0] && "name"@[0] != "size"@[0]);
    assert("grade"@[0] != "class"@[0]);
}

/// The item search: an item matches the search text `q` (its underscores
/// read as spaces) when its lowercase name, or its lowercase class name,
/// contains the lowercase text.
pub proof fn law_item_search(it: Item, q: Seq<char>)
    ensures
        item_search_ok(it, q) <==> (seq_contains(lowercase(it.name@), lowercase(spaced(q))) || (
        it.class_name matches Some(c) && seq_contains(lowercase(c@), lowercase(spaced(q))))),
{
    assert(spaced(q) == crate::models::vehicle::underscores_to_spaces(q));
}

/// Without a category: with one filter and no search, the items listed are
/// exactly those that pass that filter; with no filter and a search text,
/// those that the search matches.
pub proof fn law_item_listing(data: GameData, p: QueryModel, i: int)
    requires
        0 <= i < data.items@.len(),
    ensures
        p.search is None && p.filters.len() == 1 ==> (item_candidates(data, p, None).contains(
            i as usize,
        ) <==> item_filter_ok(data, data.items@[i], p.filters[0].0, p.filters[0].1)),
        p.search matches Some(q) ==> (p.filters.len() == 0 ==> (item_candidates(data, p, None).contains(
            i as usize,
        ) <==> item_search_ok(data.items@[i], q))),
{
    let ok = Seq::new(data.items@.len(), |j: int| item_passes(data, p, None, data.items@[j]));
    assert(data.items@.len() == data.items.len());
    law_listing_exact(ok);
    let it = data.items@[i];
    assert(item_candidates(data, p, None) == selected(ok));
    assert(ok[i] == item_passes(data, p, None, it));
    if p.filters.len() == 1 {
        assert(item_passes(data, p, None, it) ==> item_filter_ok(
            data,
            it,
            p.filters[0].0,
            p.filters[0].1,
        ));
        if item_filter_ok(data, it, p.filters[0].0, p.filters[0].1) {
            assert forall|j: int| 0 <= j < p.filters.len() implies #[trigger] item_filter_ok(
                data,
                it,
                p.filters[j].0,
                p.filters[j].1,
            ) by {
                assert(j == 0);
            }
        }
    }
}

/// The vehicle kinds: `ground` holds the vehicles that are vehicles and do
/// not hover, `gravlev` those that hover, `spaceship` the spaceships; any
/// other kind, or none, holds every vehicle. The vehicle search matches a
/// vehicle when its lowercase name, display name or class name contains the
/// lowercase search text (its underscores read as spaces).
pub proof fn law_vehicle_kinds_and_search(v: Vehicle, other: Seq<char>, q: Seq<char>)
    requires
        other != "ground"@,
        other != "gravlev"@,
        other != "spaceship"@,
    ensures
        vehicle_kind_ok(v, Some("ground"@)) <==> (v.is_vehicle && !v.is_gravlev),
        vehicle_kind_ok(v, Some("gravlev"@)) <==> v.is_gravlev,
        vehicle_kind_ok(v, Some("spaceship"@)) <==> v.is_spaceship,
        vehicle_kind_ok(v, Some(other)),
        vehicle_kind_ok(v, None),
        vehicle_search_ok(v, q) <==> ((v.name matches Some(n) && seq_contains(
            lowercase(n@),
            lowercase(spaced(q)),
        )) || (v.display_name matches Some(n) && seq_contains(lowercase(n@), lowercase(spaced(q))))
            || (v.class_name matches Some(n) && seq_contains(lowercase(n@), lowercase(spaced(q))))),
{
    reveal_strlit("ground");
    reveal_strlit("gravlev");
    reveal_strlit("spaceship");
    assert("ground"@.len() == 6 && "gravlev"@.len() == 7 && "spaceship"@.len() == 9);
    assert(spaced(q) == crate::models::vehicle::underscores_to_spaces(q));
}

/// Among vehicles of kind `kind`, with no filter and no search, the
/// vehicles listed are exactly those of that kind; with no filter and a
/// search text, those of that kind that the search matches.
pub proof fn law_vehicle_listing(data: GameData, p: QueryModel, kind: Option<Seq<char>>, i: int)
    requires
        0 <= i < data.vehicles@.len(),
        p.filters.len() == 0,
    ensures
        p.search is None ==> (vehicle_candidates(data, p, kind).contains(i as usize)
            <==> vehicle_kind_ok(data.vehicles@[i], kind)),
        p.search matches Some(q) ==> (vehicle_candidates(data, p, kind).contains(i as usize) <==> (
        vehicle_kind_ok(data.vehicles@[i], kind) && vehicle_search_ok(data.vehicles@[i], q))),
{
    let ok = Seq::new(
        data.vehicles@.len(),
        |j: int| vehicle_passes(data, p, kind, data.vehicles@[j]),
    );
    assert(data.vehicles@.len() == data.vehicles.len());
    law_listing_exact(ok);
    assert(vehicle_candidates(data, p, kind) == selected(ok));
    assert(ok[i] == vehicle_passes(data, p, kind, data.vehicles@[i]));
}

proof fn lemma_ingredient_listed(bps: Seq<Blueprint>, b: int, j: int)
    requires
        0 <= b < bps.len(),
        0 <= j < bps[b].ingredient_resource_type_uuids@.len(),
    ensures
        all_ingredients(bps).contains(bps[b].ingredient_resource_type_uuids@[j]@),
    decreases bps.len(),
{
    let init = bps.drop_last();
    let last = crate::handlers::common::views(bps.last().ingredient_resource_type_uuids@);
    if b == bps.len() - 1 {
        assert(all_ingredients(bps)[all_ingredients(init).len() + j] == last[j]);
    } else {
        assert(bps[b] == init[b]);
        lemma_ingredient_listed(init, b, j);
        let k = choose|k: int|
            0 <= k < all_ingredients(init).len() && all_ingredients(init)[k]
                == bps[b].ingredient_resource_type_uuids@[j]@;
        assert(all_ingredients(bps)[k] == all_ingredients(init)[k]);
    }
}

proof fn lemma_ingredient_source(bps: Seq<Blueprint>, x: Seq<char>) -> (bj: (int, int))
    requires
        all_ingredients(bps).contains(x),
    ensures
        0 <= bj.0 < bps.len(),
        0 <= bj.1 < bps[bj.0].ingredient_resource_type_uuids@.len(),
        bps[bj.0].ingredient_resource_type_uuids@[bj.1]@ == x,
    decreases bps.len(),
{
    let init = bps.drop_last();
    let last = crate::handlers::common::views(bps.last().ingredient_resource_type_uuids@);
    let k = choose|k: int| 0 <= k < all_ingredients(bps).len() && all_ingredients(bps)[k] == x;
    if k >= all_ingredients(init).len() {
        let j = k - all_ingredients(init).len();
        assert(last[j] == x);
        (bps.len() - 1, j)
    } else {
        assert(all_ingredients(init)[k] == x);
        let bj = lemma_ingredient_source(init, x);
        assert(bps[bj.0] == init[bj.0]);
        bj
    }
}

/// The resource-type listing: where the `used` filter is exactly `true` or
/// `1`, it holds exactly the resource types that some blueprint requires;
/// otherwise it holds every resource type.
pub proof fn law_resource_type_listing(data: GameData, p: QueryModel, i: int)
    requires
        0 <= i < data.resource_types@.len(),
    ensures
        (assoc_get(p.filters, "used"@) == Some("true"@) || assoc_get(p.filters, "used"@) == Some(
            "1"@,
        )) ==> (resource_type_candidates(data, p).contains(i as usize) <==> exists|b: int, j: int|
            0 <= b < data.blueprints@.len() && 0 <= j
                < data.blueprints@[b].ingredient_resource_type_uuids@.len()
                && #[trigger] data.blueprints@[b].ingredient_resource_type_uuids@[j]@
                == data.resource_types@[i].uuid@),
        !(assoc_get(p.filters, "used"@) == Some("true"@) || assoc_get(p.filters, "used"@) == Some(
            "1"@,
        )) ==> resource_type_candidates(data, p).contains(i as usize),
{
    let u = data.resource_types@[i].uuid@;
    let ok = Seq::new(
        data.resource_types@.len(),
        |k: int|
            !crate::handlers::resource_types::only_used(p) || all_ingredients(
                data.blueprints@,
            ).contains(data.resource_types@[k].uuid@),
    );
    assert(data.resource_types@.len() == data.resource_types.len());
    law_listing_exact(ok);
    assert(resource_type_candidates(data, p) == selected(ok));
    assert(ok[i] == (!crate::handlers::resource_types::only_used(p) || all_ingredients(
        data.blueprints@,
    ).contains(u)));
    assert(crate::handlers::resource_types::only_used(p) <==> (assoc_get(p.filters, "used"@) == Some(
        "true"@,
    ) || assoc_get(p.filters, "used"@) == Some("1"@)));
    if all_ingredients(data.blueprints@).contains(u) {
        let bj = lemma_ingredient_source(data.blueprints@, u);
        assert(data.blueprints@[bj.0].ingredient_resource_type_uuids@[bj.1]@ == u);
    }
    if exists|b: int, j: int|
        0 <= b < data.blueprints@.len() && 0 <= j
            < data.blueprints@[b].ingredient_resource_type_uuids@.len()
            && #[trigger] data.blueprints@[b].ingredient_resource_type_uuids@[j]@ == u {
        let (b, j) = choose|b: int, j: int|
            0 <= b < data.blueprints@.len() && 0 <= j
                < data.blueprints@[b].ingredient_resource_type_uuids@.len()
                && #[trigger] data.blueprints@[b].ingredient_resource_type_uuids@[j]@ == u;
        lemma_ingredient_listed(data.blueprints@, b, j);
    }
}

/// GET /manufacturers/:identifier finds the first manufacturer whose UUID
/// is the identifier, or whose name or code equals it ignoring case; where
/// none does, it finds none.
pub proof fn law_manufacturer_lookup(data: GameData, id: Seq<char>, i: int)
    requires
        0 <= i <= data.manufacturers@.len(),
        forall|j: int|
            #![trigger data.manufacturers@[j]]
            0 <= j < i ==> !(data.manufacturers@[j].uuid@ == id || lowercase(
                data.manufacturers@[j].name@,
            ) == lowercase(id) || lowercase(data.manufacturers@[j].code@) == lowercase(id)),
    ensures
        i < data.manufacturers@.len() && (data.manufacturers@[i].uuid@ == id || lowercase(
            data.manufacturers@[i].name@,
        ) == lowercase(id) || lowercase(data.manufacturers@[i].code@) == lowercase(id))
            ==> manufacturer_found(data, id) == Some(data.manufacturers@[i]),
        i == data.manufacturers@.len() ==> manufacturer_found(data, id) is None,
{
    let ok = data.manufacturers@.map_values(|m: crate::models::manufacturer::Manufacturer| manufacturer_named(m, id));
    assert forall|j: int| 0 <= j < i implies !ok[j] by {
        assert(ok[j] == manufacturer_named(data.manufacturers@[j], id));
    }
    crate::handlers::common::lemma_first_true(ok, i);
}

} // verus!
