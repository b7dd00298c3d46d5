use vstd::prelude::*;

use crate::assoc::{assoc_get, assoc_lookup, pairs_view};
use crate::handlers::common::{
    has_member, indexed, is_str, lemma_selected_bounds, lemma_selected_step, lookup,
    lower_equals, lower_is, manufacturer_ref, manufacturer_ref_ok, member, not_found, not_found_ok,
    opt_i64_json, opt_i64_json_exec, opt_lower_is, opt_search_in, opt_string_json,
    opt_string_json_exec, order_selection, ordered_selection, replace_underscores, search_in,
    search_text, body_query, selected, single_json, single_ok, str_json, strings_json,
    strings_json_ok, distinct, views_json, first_true,
    lemma_first_true, distinct_strings, lists_ok, opt_views, single_data, quoted, with_search,
    not_found_message,
};
use crate::json::{json_same, JsonValue};
use crate::loader::GameData;
use crate::models::item::Item;
use crate::models::manufacturer::Manufacturer;
use crate::models::tag::EntityTag;
use crate::models::vehicle::{opt_as_str, opt_str_chars, underscores_to_spaces};
use crate::num::{i64_to_decimal, signed_decimal_string};
use crate::query::{matches_search, opt_chars, parse_query, QueryModel, QueryParams};
use crate::response::{
    page_end, page_shape, page_start, paginate, paginate_fits, PaginatedResponse,
};
use crate::text::{copy_str, lowercase, push_str, seq_contains, str_contains, str_eq, to_lowercase};

verus! {

/// The characters of `o`, or none.
pub open spec fn or_empty(o: Option<String>) -> Seq<char> {
    match o {
        Some(s) => s@,
        None => Seq::empty(),
    }
}

/// Whether item `it` belongs to the item category `cat` (by its lowercase
/// type, sub-type and classification); an unknown category holds every item.
pub open spec fn in_category(it: Item, cat: Seq<char>) -> bool {
    let t = lowercase(or_empty(it.item_type));
    let st = lowercase(or_empty(it.sub_type));
    let cl = lowercase(or_empty(it.classification));
    if cat == "weapons"@ {
        t == "weapon"@ || seq_contains(cl, "weapon"@)
    } else if cat == "weapon-attachments"@ {
        t == "weaponattachment"@ || seq_contains(st, "attachment"@)
    } else if cat == "clothes"@ {
        t == "char_clothing"@
    } else if cat == "armor"@ {
        t == "char_armor"@ || seq_contains(cl, "armor"@)
    } else if cat == "food"@ {
        t == "consumable"@ && (st == "food"@ || st == "drink"@)
    } else if cat == "vehicle-weapons"@ {
        t == "vehicleweapon"@ || (t == "weapon"@ && seq_contains(cl, "vehicle"@))
    } else if cat == "vehicle-items"@ {
        seq_contains(cl, "vehicle"@) && t != "vehicleweapon"@
    } else {
        true
    }
}

/// The manufacturer that item `it` names, as the index by UUID finds it.
pub open spec fn item_manufacturer(data: GameData, it: Item) -> Option<Manufacturer> {
    match it.manufacturer_uuid {
        Some(u) => indexed(data.manufacturers_by_uuid@, data.manufacturers@, u@),
        None => None,
    }
}

/// `o` holds an integer written as `value`.
pub open spec fn int_is(o: Option<i64>, value: Seq<char>) -> bool {
    match o {
        Some(i) => signed_decimal_string(i as int) == value,
        None => false,
    }
}

/// Whether item `it` passes the filter `filter[key]=value`; an unknown key
/// passes every item.
pub open spec fn item_filter_ok(data: GameData, it: Item, key: Seq<char>, value: Seq<char>) -> bool {
    let vl = lowercase(value);
    if key == "type"@ {
        lower_is(it.item_type, vl)
    } else if key == "sub_type"@ {
        lower_is(it.sub_type, vl)
    } else if key == "manufacturer"@ {
        match it.manufacturer_uuid {
            Some(u) => lowercase(u@) == vl || match item_manufacturer(data, it) {
                Some(m) => lowercase(m.name@) == vl || lowercase(m.code@) == vl,
                None => false,
            },
            None => false,
        }
    } else if key == "class_name"@ {
        lower_is(it.class_name, vl)
    } else if key == "name"@ {
        seq_contains(lowercase(it.name@), vl)
    } else if key == "classification"@ {
        lower_is(it.classification, vl)
    } else if key == "size"@ {
        int_is(it.size, value)
    } else if key == "grade"@ {
        int_is(it.grade, value)
    } else if key == "class"@ {
        lower_is(it.class, vl)
    } else {
        true
    }
}

/// Whether the search text `q` (underscores read as spaces) matches item
/// `it` by name or class name.
pub open spec fn item_search_ok(it: Item, q: Seq<char>) -> bool {
    let q2 = underscores_to_spaces(q);
    seq_contains(lowercase(it.name@), lowercase(q2)) || search_in(it.class_name, q2)
}

/// Whether item `it` is listed for the query `p` in the category `cat`.
pub open spec fn item_passes(data: GameData, p: QueryModel, cat: Option<Seq<char>>, it: Item) -> bool {
    &&& (cat matches Some(c) ==> in_category(it, c))
    &&& forall|k: int|
        0 <= k < p.filters.len() ==> #[trigger] item_filter_ok(
            data,
            it,
            p.filters[k].0,
            p.filters[k].1,
        )
    &&& (p.search matches Some(q) ==> item_search_ok(it, q))
}

/// The items listed for the query `p`, in the order of the data.
pub open spec fn item_candidates(data: GameData, p: QueryModel, cat: Option<Seq<char>>) -> Seq<usize> {
    selected(Seq::new(data.items@.len(), |i: int| item_passes(data, p, cat, data.items@[i])))
}

/// The documents of the items `sel`.
pub open spec fn item_docs(items: Seq<Item>, sel: Seq<usize>) -> Seq<JsonValue> {
    sel.map_values(|i: usize| items[i as int].data)
}

/// `r` lists the items for the query `p` in the category `cat`, in the
/// order that the query's sort asks for.
pub open spec fn item_selection(data: GameData, p: QueryModel, cat: Option<Seq<char>>, r: Seq<usize>) -> bool {
    let cand = item_candidates(data, p, cat);
    ordered_selection(cand, item_docs(data.items@, cand), p.sort, r)
}

/// The translation of an item's description for a locale, falling back to English.
pub open spec fn description_for(tr: Seq<(String, String)>, loc: Seq<char>) -> Option<Seq<char>> {
    match assoc_get(pairs_view(tr), loc) {
        Some(d) => Some(d),
        None => assoc_get(pairs_view(tr), "en"@),
    }
}

/// `v` is the description member of an item response: for a locale, the
/// translation (English by default) or `null`; without one, all
/// translations by locale, or `null` when there are none.
pub open spec fn description_ok(v: JsonValue, tr: Seq<(String, String)>, locale: Option<Seq<char>>) -> bool {
    match locale {
        Some(loc) => match description_for(tr, loc) {
            Some(d) => is_str(v, d),
            None => v is Null,
        },
        None => if tr.len() == 0 {
            v is Null
        } else {
            match v {
                JsonValue::Object(m) => m@.len() == tr.len() && forall|i: int|
                    0 <= i < tr.len() ==> (#[trigger] m@[i]).0@ == tr[i].0@ && is_str(
                        m@[i].1,
                        tr[i].1@,
                    ),
                _ => false,
            }
        },
    }
}

/// The entity tags that the UUIDs `uuids` name, in order, skipping unknown ones.
pub open spec fn tags_named(data: GameData, uuids: Seq<String>) -> Seq<EntityTag>
    decreases uuids.len(),
{
    if uuids.len() == 0 {
        Seq::empty()
    } else {
        let r = tags_named(data, uuids.drop_last());
        match indexed(data.tags_by_uuid@, data.entity_tags@, uuids.last()@) {
            Some(t) => r.push(t),
            None => r,
        }
    }
}

/// `v` is the array of `{"uuid", "name"}` objects of the tags `ts`.
pub open spec fn tag_map_ok(v: JsonValue, ts: Seq<EntityTag>) -> bool {
    match v {
        JsonValue::Array(a) => a@.len() == ts.len() && forall|i: int|
            0 <= i < ts.len() ==> tag_ok(#[trigger] a@[i], ts[i]),
        _ => false,
    }
}

/// `v` is the `{"uuid", "name"}` object of tag `t`.
pub open spec fn tag_ok(v: JsonValue, t: EntityTag) -> bool {
    match v {
        JsonValue::Object(e) => e@.len() == 2 && has_member(e@, 0, "uuid"@, str_json(t.uuid))
            && has_member(e@, 1, "name"@, str_json(t.name)),
        _ => false,
    }
}

/// `r` is the response for item `it` in the locale `locale`.
pub open spec fn item_response_ok(r: JsonValue, it: Item, data: GameData, locale: Option<Seq<char>>) -> bool {
    match r {
        JsonValue::Object(m) => {
            &&& m@.len() == 14
            &&& has_member(m@, 0, "uuid"@, str_json(it.uuid))
            &&& has_member(m@, 1, "name"@, str_json(it.name))
            &&& has_member(m@, 2, "class_name"@, opt_string_json(it.class_name))
            &&& has_member(m@, 3, "type"@, opt_string_json(it.item_type))
            &&& has_member(m@, 4, "sub_type"@, opt_string_json(it.sub_type))
            &&& has_member(m@, 5, "classification"@, opt_string_json(it.classification))
            &&& has_member(m@, 6, "size"@, opt_i64_json(it.size))
            &&& has_member(m@, 7, "grade"@, opt_i64_json(it.grade))
            &&& has_member(m@, 8, "class"@, opt_string_json(it.class))
            &&& m@[9].0@ == "description"@
            &&& description_ok(m@[9].1, it.translations@, locale)
            &&& m@[10].0@ == "manufacturer"@
            &&& manufacturer_ref_ok(m@[10].1, item_manufacturer(data, it))
            &&& m@[11].0@ == "entity_tags"@
            &&& strings_json_ok(m@[11].1, it.entity_tags@)
            &&& m@[12].0@ == "entity_tag_map"@
            &&& tag_map_ok(m@[12].1, tags_named(data, it.entity_tags@))
            &&& m@[13].0@ == "data"@
            &&& json_same(it.data, m@[13].1)
        },
        _ => false,
    }
}

/// `r` is the page of items for the query `p` (in category `cat`) with
/// links under `base`.
pub open spec fn items_page_ok(
    r: PaginatedResponse<JsonValue>,
    data: GameData,
    p: QueryModel,
    cat: Option<Seq<char>>,
    base: Seq<char>,
) -> bool {
    exists|sel: Seq<usize>|
        #![trigger item_selection(data, p, cat, sel)]
        {
            &&& item_selection(data, p, cat, sel)
            &&& page_shape(r, sel.len() as int, p.page as int, p.per_page as int, base)
            &&& forall|i: int|
                0 <= i < r.data@.len() ==> item_response_ok(
                    #[trigger] r.data@[i],
                    data.items@[sel[page_start(p.page as int, p.per_page as int) + i] as int],
                    data,
                    p.locale,
                )
        }
}

/// The query's page can be cut out of any list of the items.
pub open spec fn items_page_fits(data: GameData, p: QueryModel) -> bool {
    paginate_fits(p.page as int, p.per_page as int, data.items@.len() as int)
}

/// Whether item `item` belongs to the item category `category`.
pub fn matches_category(item: &Item, category: &str) -> (r: bool)
    ensures
        r == in_category(*item, category@),
{
    proof {
        reveal_strlit("");
    }
    let t = to_lowercase(
        match &item.item_type {
            Some(s) => s.as_str(),
            None => "",
        },
    );
    let st = to_lowercase(
        match &item.sub_type {
            Some(s) => s.as_str(),
            None => "",
        },
    );
    let cl = to_lowercase(
        match &item.classification {
            Some(s) => s.as_str(),
            None => "",
        },
    );
    proof {
        assert(""@ =~= Seq::<char>::empty());
    }
    let t = t.as_str();
    let st = st.as_str();
    let cl = cl.as_str();
    if str_eq(category, "weapons") {
        str_eq(t, "weapon") || str_contains(cl, "weapon")
    } else if str_eq(category, "weapon-attachments") {
        str_eq(t, "weaponattachment") || str_contains(st, "attachment")
    } else if str_eq(category, "clothes") {
        str_eq(t, "char_clothing")
    } else if str_eq(category, "armor") {
        str_eq(t, "char_armor") || str_contains(cl, "armor")
    } else if str_eq(category, "food") {
        str_eq(t, "consumable") && (str_eq(st, "food") || str_eq(st, "drink"))
    } else if str_eq(category, "vehicle-weapons") {
        str_eq(t, "vehicleweapon") || (str_eq(t, "weapon") && str_contains(cl, "vehicle"))
    } else if str_eq(category, "vehicle-items") {
        str_contains(cl, "vehicle") && !str_eq(t, "vehicleweapon")
    } else {
        true
    }
}

/// Whether `o` holds an integer written as `value`.
fn int_is_exec(o: Option<i64>, value: &str) -> (r: bool)
    ensures
        r == int_is(o, value@),
{
    match o {
        Some(i) => {
            let d = i64_to_decimal(i);
            str_eq(d.as_str(), value)
        },
        None => false,
    }
}

/// Whether item `it` passes the filter `filter[key]=value`; `vl` is `value` lowercased.
fn item_filter(data: &GameData, it: &Item, key: &str, value: &str, vl: &str) -> (r: bool)
    requires
        vl@ == lowercase(value@),
    ensures
        r == item_filter_ok(*data, *it, key@, value@),
{
    if str_eq(key, "type") {
        opt_lower_is(&it.item_type, vl)
    } else if str_eq(key, "sub_type") {
        opt_lower_is(&it.sub_type, vl)
    } else if str_eq(key, "manufacturer") {
        match &it.manufacturer_uuid {
            Some(u) => {
                if lower_equals(u.as_str(), vl) {
                    true
                } else {
                    match lookup(&data.manufacturers_by_uuid, &data.manufacturers, u.as_str()) {
                        Some(m) => lower_equals(m.name.as_str(), vl) || lower_equals(
                            m.code.as_str(),
                            vl,
                        ),
                        None => false,
                    }
                }
            },
            None => false,
        }
    } else if str_eq(key, "class_name") {
        opt_lower_is(&it.class_name, vl)
    } else if str_eq(key, "name") {
        matches_search(it.name.as_str(), value)
    } else if str_eq(key, "classification") {
        opt_lower_is(&it.classification, vl)
    } else if str_eq(key, "size") {
        int_is_exec(it.size, value)
    } else if str_eq(key, "grade") {
        int_is_exec(it.grade, value)
    } else if str_eq(key, "class") {
        opt_lower_is(&it.class, vl)
    } else {
        true
    }
}

/// The lowercase forms of the filter values.
fn lowered_values(params: &QueryParams) -> (r: Vec<String>)
    ensures
        r.len() == params.filters.len(),
        forall|k: int| 0 <= k < r.len() ==> (#[trigger] r@[k])@ == lowercase(params.filters@[k].1@),
{
    let mut r: Vec<String> = Vec::new();
    let mut k: usize = 0;
    while k < params.filters.len()
        invariant
            k <= params.filters.len(),
            r.len() == k,
            forall|j: int| 0 <= j < k ==> (#[trigger] r@[j])@ == lowercase(params.filters@[j].1@),
        decreases params.filters.len() - k,
    {
        r.push(to_lowercase(params.filters[k].1.as_str()));
        k = k + 1;
    }
    r
}

/// Whether item `it` is listed for the query `params` in the category `category`.
fn item_passes_exec(
    data: &GameData,
    params: &QueryParams,
    lows: &Vec<String>,
    search: &Option<String>,
    category: Option<&str>,
    it: &Item,
) -> (r: bool)
    requires
        lows.len() == params.filters.len(),
        forall|k: int| 0 <= k < lows.len() ==> (#[trigger] lows@[k])@ == lowercase(params.filters@[k].1@),
        match params@.search {
            Some(q) => search matches Some(s) && s@ == underscores_to_spaces(q),
            None => search is None,
        },
    ensures
        r == item_passes(*data, params@, crate::models::vehicle::opt_str_chars(category), *it),
{
    if let Some(c) = category {
        if !matches_category(it, c) {
            return false;
        }
    }
    let mut k: usize = 0;
    while k < params.filters.len()
        invariant
            k <= params.filters.len(),
            lows.len() == params.filters.len(),
            forall|j: int| 0 <= j < lows.len() ==> (#[trigger] lows@[j])@ == lowercase(params.filters@[j].1@),
            forall|j: int|
                0 <= j < k ==> #[trigger] item_filter_ok(
                    *data,
                    *it,
                    params@.filters[j].0,
                    params@.filters[j].1,
                ),
        decreases params.filters.len() - k,
    {
        let ok = item_filter(
            data,
            it,
            params.filters[k].0.as_str(),
            params.filters[k].1.as_str(),
            lows[k].as_str(),
        );
        if !ok {
            assert(!item_filter_ok(*data, *it, params@.filters[k as int].0, params@.filters[k as int].1));
            return false;
        }
        k = k + 1;
    }
    match search {
        Some(q) => {
            matches_search(it.name.as_str(), q.as_str()) || opt_search_in(&it.class_name, q.as_str())
        },
        None => true,
    }
}

/// The items listed for the query `params` in the category `category` (all
/// items without one): those that pass the category, every filter and the
/// search, in the order that the query's sort asks for.
pub fn filter_items(data: &GameData, params: &QueryParams, category: Option<&str>) -> (r: Vec<usize>)
    ensures
        item_selection(*data, params@, crate::models::vehicle::opt_str_chars(category), r@),
        forall|k: int| 0 <= k < r.len() ==> #[trigger] r@[k] < data.items.len(),
        r.len() <= data.items.len(),
{
    let ghost cat = crate::models::vehicle::opt_str_chars(category);
    let ghost oks = Seq::new(
        data.items@.len(),
        |i: int| item_passes(*data, params@, cat, data.items@[i]),
    );
    let lows = lowered_values(params);
    let search = match &params.search {
        Some(q) => Some(replace_underscores(q.as_str())),
        None => None,
    };
    let mut cand: Vec<usize> = Vec::new();
    let mut i: usize = 0;
    while i < data.items.len()
        invariant
            i <= data.items.len(),
            oks == Seq::new(data.items@.len(), |i: int| item_passes(*data, params@, cat, data.items@[i])),
            cat == crate::models::vehicle::opt_str_chars(category),
            lows.len() == params.filters.len(),
            forall|k: int| 0 <= k < lows.len() ==> (#[trigger] lows@[k])@ == lowercase(params.filters@[k].1@),
            match params@.search {
                Some(q) => search matches Some(s) && s@ == underscores_to_spaces(q),
                None => search is None,
            },
            cand@ == selected(oks.take(i as int)),
        decreases data.items.len() - i,
    {
        proof {
            lemma_selected_step(oks, i as int);
        }
        if item_passes_exec(data, params, &lows, &search, category, &data.items[i]) {
            cand.push(i);
        }
        i = i + 1;
    }
    proof {
        assert(oks.take(i as int) =~= oks);
        lemma_selected_bounds(oks);
    }
    let mut datas: Vec<&JsonValue> = Vec::new();
    let mut k: usize = 0;
    while k < cand.len()
        invariant
            k <= cand.len(),
            forall|j: int| 0 <= j < cand.len() ==> #[trigger] cand@[j] < data.items.len(),
            datas.len() == k,
            forall|j: int| 0 <= j < k ==> *(#[trigger] datas@[j]) == data.items@[cand@[j] as int].data,
        decreases cand.len() - k,
    {
        datas.push(&data.items[cand[k]].data);
        k = k + 1;
    }
    proof {
        assert(crate::sort::docs_of(datas@) =~= item_docs(data.items@, cand@));
        assert(cand.len() <= data.items.len());
    }
    order_selection(cand, &datas, &params.sort, Ghost(data.items.len() as nat))
}

/// The description member of an item response.
fn description_json(tr: &Vec<(String, String)>, locale: Option<&str>) -> (r: JsonValue)
    ensures
        description_ok(r, tr@, crate::models::vehicle::opt_str_chars(locale)),
{
    match locale {
        Some(loc) => {
            let found = match assoc_lookup(tr, loc) {
                Some(d) => Some(d),
                None => assoc_lookup(tr, "en"),
            };
            match found {
                Some(d) => JsonValue::String(d.clone()),
                None => JsonValue::Null,
            }
        },
        None => {
            if tr.len() == 0 {
                JsonValue::Null
            } else {
                let mut m: Vec<(String, JsonValue)> = Vec::new();
                let mut i: usize = 0;
                while i < tr.len()
                    invariant
                        i <= tr.len(),
                        m@.len() == i,
                        forall|k: int|
                            0 <= k < i ==> (#[trigger] m@[k]).0@ == tr@[k].0@ && is_str(
                                m@[k].1,
                                tr@[k].1@,
                            ),
                    decreases tr.len() - i,
                {
                    m.push((tr[i].0.clone(), JsonValue::String(tr[i].1.clone())));
                    i = i + 1;
                }
                JsonValue::Object(m)
            }
        },
    }
}

/// The `{"uuid", "name"}` objects of the entity tags that `uuids` name.
fn tag_map(data: &GameData, uuids: &Vec<String>) -> (r: JsonValue)
    ensures
        tag_map_ok(r, tags_named(*data, uuids@)),
{
    let mut a: Vec<JsonValue> = Vec::new();
    let mut i: usize = 0;
    while i < uuids.len()
        invariant
            i <= uuids.len(),
            tag_map_ok(JsonValue::Array(a), tags_named(*data, uuids@.take(i as int))),
        decreases uuids.len() - i,
    {
        assert(uuids@.take(i + 1).drop_last() =~= uuids@.take(i as int));
        match lookup(&data.tags_by_uuid, &data.entity_tags, uuids[i].as_str()) {
            Some(t) => {
                let mut e: Vec<(String, JsonValue)> = Vec::new();
                e.push(member("uuid", JsonValue::String(t.uuid.clone())));
                e.push(member("name", JsonValue::String(t.name.clone())));
                a.push(JsonValue::Object(e));
            },
            None => {},
        }
        i = i + 1;
    }
    assert(uuids@.take(i as int) =~= uuids@);
    JsonValue::Array(a)
}

/// The response for an item in the locale `locale`.
pub fn item_to_response(item: &Item, data: &GameData, locale: Option<&str>) -> (r: JsonValue)
    ensures
        item_response_ok(r, *item, *data, crate::models::vehicle::opt_str_chars(locale)),
{
    let manufacturer = match &item.manufacturer_uuid {
        Some(u) => lookup(&data.manufacturers_by_uuid, &data.manufacturers, u.as_str()),
        None => None,
    };
    let mut m: Vec<(String, JsonValue)> = Vec::new();
    m.push(member("uuid", JsonValue::String(item.uuid.clone())));
    m.push(member("name", JsonValue::String(item.name.clone())));
    m.push(member("class_name", opt_string_json_exec(&item.class_name)));
    m.push(member("type", opt_string_json_exec(&item.item_type)));
    m.push(member("sub_type", opt_string_json_exec(&item.sub_type)));
    m.push(member("classification", opt_string_json_exec(&item.classification)));
    m.push(member("size", opt_i64_json_exec(item.size)));
    m.push(member("grade", opt_i64_json_exec(item.grade)));
    m.push(member("class", opt_string_json_exec(&item.class)));
    m.push(member("description", description_json(&item.translations, locale)));
    m.push(member("manufacturer", manufacturer_ref(manufacturer)));
    m.push(member("entity_tags", strings_json(&item.entity_tags)));
    m.push(member("entity_tag_map", tag_map(data, &item.entity_tags)));
    m.push(member("data", item.data.deep_copy()));
    JsonValue::Object(m)
}

/// The page of items for the query `params` in the category `category`.
fn items_page(data: &GameData, params: &QueryParams, category: Option<&str>, base_url: &str) -> (r:
    PaginatedResponse<JsonValue>)
    requires
        items_page_fits(*data, params@),
    ensures
        items_page_ok(r, *data, params@, opt_str_chars(category), base_url@),
{
    let sel = filter_items(data, params, category);
    let pg = paginate(sel.as_slice(), params.page, params.per_page, base_url);
    let locale = opt_as_str(&params.locale);
    let ghost start = page_start(params.page as int, params.per_page as int);
    let mut out: Vec<JsonValue> = Vec::new();
    let mut k: usize = 0;
    while k < pg.data.len()
        invariant
            k <= pg.data.len(),
            out.len() == k,
            pg.data@.len() == page_end(params.page as int, params.per_page as int, sel@.len() as int)
                - start,
            forall|i: int| 0 <= i < pg.data@.len() ==> #[trigger] pg.data@[i] == sel@[start + i],
            forall|j: int| 0 <= j < sel.len() ==> #[trigger] sel@[j] < data.items.len(),
            start == page_start(params.page as int, params.per_page as int),
            opt_str_chars(locale) == params@.locale,
            forall|i: int|
                0 <= i < k ==> item_response_ok(
                    #[trigger] out@[i],
                    data.items@[sel@[start + i] as int],
                    *data,
                    params@.locale,
                ),
        decreases pg.data.len() - k,
    {
        let idx = pg.data[k];
        assert(idx == sel@[start + k]);
        out.push(item_to_response(&data.items[idx], data, locale));
        k = k + 1;
    }
    let r = PaginatedResponse { data: out, links: pg.links, meta: pg.meta };
    assert(page_shape(r, sel@.len() as int, params.page as int, params.per_page as int, base_url@));
    r
}

/// GET /items: the page of items that the query asks for.
pub fn list_items(data: &GameData, query: &str, base_url: &str) -> (r: PaginatedResponse<JsonValue>)
    requires
        items_page_fits(*data, parse_query(query@)),
    ensures
        items_page_ok(r, *data, parse_query(query@), None, base_url@),
{
    let params = QueryParams::from_query(query);
    items_page(data, &params, None, base_url)
}

/// POST /items/search: as `list_items`, with the search text of the request body.
pub fn search_items(data: &GameData, query: &str, base_url: &str, body: &JsonValue) -> (r:
    PaginatedResponse<JsonValue>)
    requires
        items_page_fits(*data, parse_query(query@)),
    ensures
        items_page_ok(r, *data, with_search(parse_query(query@), body_query(*body)), None, base_url@),
{
    let mut params = QueryParams::from_query(query);
    match search_text(body) {
        Some(q) => {
            params.search = Some(q);
        },
        None => {},
    }
    assert(params@ == with_search(parse_query(query@), body_query(*body)));
    items_page(data, &params, None, base_url)
}

/// The page of items of the category `category` that the query asks for.
pub fn list_items_by_category(data: &GameData, query: &str, base_url: &str, category: &str) -> (r:
    PaginatedResponse<JsonValue>)
    requires
        items_page_fits(*data, parse_query(query@)),
    ensures
        items_page_ok(r, *data, parse_query(query@), Some(category@), base_url@),
{
    let params = QueryParams::from_query(query);
    items_page(data, &params, Some(category), base_url)
}

/// The item that an identifier names: by UUID, else by lowercase name.
pub open spec fn item_index(data: GameData, id: Seq<char>) -> Option<usize> {
    if data.items_by_uuid@.contains_key(id) {
        Some(data.items_by_uuid@[id])
    } else if data.items_by_name@.contains_key(lowercase(id)) {
        Some(data.items_by_name@[lowercase(id)])
    } else {
        None
    }
}

/// `r` answers a request for one item: the single-record response of the
/// item `found`, or the not-found answer with `message`.
pub open spec fn item_answer_ok(
    r: JsonValue,
    found: Option<Item>,
    data: GameData,
    locale: Option<Seq<char>>,
    message: Seq<char>,
) -> bool {
    match found {
        Some(it) => single_ok(r, single_data(r)) && item_response_ok(single_data(r), it, data, locale),
        None => not_found_ok(r, message),
    }
}

/// The item at an index, if the index is within the items.
pub open spec fn item_at(data: GameData, i: Option<usize>) -> Option<Item> {
    match i {
        Some(k) => if k < data.items@.len() {
            Some(data.items@[k as int])
        } else {
            None
        },
        None => None,
    }
}


/// GET /items/:identifier: the item with that UUID, else with that name
/// (ignoring case).
pub fn get_item(data: &GameData, identifier: &str, query: &str) -> (r: JsonValue)
    ensures
        item_answer_ok(
            r,
            item_at(*data, item_index(*data, identifier@)),
            *data,
            parse_query(query@).locale,
            quoted("Item "@, identifier@, " not found"@),
        ),
{
    let params = QueryParams::from_query(query);
    let idx = match data.items_by_uuid.get(identifier) {
        Some(i) => Some(*i),
        None => {
            let lower = to_lowercase(identifier);
            match data.items_by_name.get(lower.as_str()) {
                Some(i) => Some(*i),
                None => None,
            }
        },
    };
    let item = match idx {
        Some(i) => if i < data.items.len() {
            Some(&data.items[i])
        } else {
            None
        },
        None => None,
    };
    match item {
        Some(it) => {
            let resp = item_to_response(it, data, opt_as_str(&params.locale));
            single_json(resp)
        },
        None => not_found(not_found_message("Item ", identifier)),
    }
}

/// Whether item `it` answers to `id` (its UUID, or its name ignoring case) in category `cat`.
pub open spec fn item_named_in(it: Item, id: Seq<char>, cat: Seq<char>) -> bool {
    (it.uuid@ == id || lowercase(it.name@) == lowercase(id)) && in_category(it, cat)
}

/// The first item that answers to `id` in category `cat`.
pub open spec fn item_in_category(data: GameData, id: Seq<char>, cat: Seq<char>) -> Option<Item> {
    match first_true(data.items@.map_values(|it: Item| item_named_in(it, id, cat))) {
        Some(i) => Some(data.items@[i]),
        None => None,
    }
}

/// A request for one item of category `category`: the first item with that
/// UUID or name (ignoring case) in the category.
pub fn get_item_by_category(data: &GameData, identifier: &str, query: &str, category: &str) -> (r:
    JsonValue)
    ensures
        item_answer_ok(
            r,
            item_in_category(*data, identifier@, category@),
            *data,
            parse_query(query@).locale,
            quoted(category@ + " "@, identifier@, " not found"@),
        ),
{
    let params = QueryParams::from_query(query);
    let id_lower = to_lowercase(identifier);
    let ghost ok = data.items@.map_values(|it: Item| item_named_in(it, identifier@, category@));
    let mut i: usize = 0;
    while i < data.items.len()
        invariant
            i <= data.items.len(),
            ok == data.items@.map_values(|it: Item| item_named_in(it, identifier@, category@)),
            id_lower@ == lowercase(identifier@),
            params@ == parse_query(query@),
            forall|j: int| 0 <= j < i ==> !ok[j],
        decreases data.items.len() - i,
    {
        let it = &data.items[i];
        let named = str_eq(it.uuid.as_str(), identifier) || lower_equals(
            it.name.as_str(),
            id_lower.as_str(),
        );
        if named && matches_category(it, category) {
            proof {
                assert(ok[i as int]);
                lemma_first_true(ok, i as int);
            }
            let resp = item_to_response(it, data, opt_as_str(&params.locale));
            return single_json(resp);
        }
        i = i + 1;
    }
    proof {
        lemma_first_true(ok, i as int);
    }
    let mut before = copy_str(category);
    push_str(&mut before, " ");
    not_found(not_found_message(before.as_str(), identifier))
}

/// The item types, one per item.
pub open spec fn item_types(items: Seq<Item>) -> Seq<Option<Seq<char>>> {
    items.map_values(|it: Item| opt_chars(it.item_type))
}

/// The item sub-types, one per item.
pub open spec fn item_sub_types(items: Seq<Item>) -> Seq<Option<Seq<char>>> {
    items.map_values(|it: Item| opt_chars(it.sub_type))
}

/// The item classifications, one per item.
pub open spec fn item_classifications(items: Seq<Item>) -> Seq<Option<Seq<char>>> {
    items.map_values(|it: Item| opt_chars(it.classification))
}

/// GET /items/filters: the types, sub-types and classifications that
/// items have, each once.
pub fn item_filters(data: &GameData) -> (r: JsonValue)
    ensures
        lists_ok(
            r,
            seq!["type"@, "sub_type"@, "classification"@],
            seq![
                distinct(item_types(data.items@)),
                distinct(item_sub_types(data.items@)),
                distinct(item_classifications(data.items@)),
            ],
        ),
{
    let mut ts: Vec<&Option<String>> = Vec::new();
    let mut sts: Vec<&Option<String>> = Vec::new();
    let mut cls: Vec<&Option<String>> = Vec::new();
    let mut i: usize = 0;
    while i < data.items.len()
        invariant
            i <= data.items.len(),
            ts.len() == i,
            sts.len() == i,
            cls.len() == i,
            opt_views(ts@) == item_types(data.items@).take(i as int),
            opt_views(sts@) == item_sub_types(data.items@).take(i as int),
            opt_views(cls@) == item_classifications(data.items@).take(i as int),
        decreases data.items.len() - i,
    {
        let it = &data.items[i];
        ts.push(&it.item_type);
        assert(opt_views(ts@) =~= item_types(data.items@).take(i + 1));
        sts.push(&it.sub_type);
        assert(opt_views(sts@) =~= item_sub_types(data.items@).take(i + 1));
        cls.push(&it.classification);
        assert(opt_views(cls@) =~= item_classifications(data.items@).take(i + 1));
        i = i + 1;
    }
    assert(item_types(data.items@).take(i as int) =~= item_types(data.items@));
    assert(item_sub_types(data.items@).take(i as int) =~= item_sub_types(data.items@));
    assert(item_classifications(data.items@).take(i as int) =~= item_classifications(data.items@));
    let a = distinct_strings(&ts);
    let b = distinct_strings(&sts);
    let c = distinct_strings(&cls);
    let mut m: Vec<(String, JsonValue)> = Vec::new();
    m.push(member("type", views_json(&a)));
    m.push(member("sub_type", views_json(&b)));
    m.push(member("classification", views_json(&c)));
    let r = JsonValue::Object(m);
    assert(lists_ok(
        r,
        seq!["type"@, "sub_type"@, "classification"@],
        seq![
            distinct(item_types(data.items@)),
            distinct(item_sub_types(data.items@)),
            distinct(item_classifications(data.items@)),
        ],
    ));
    r
}

/// The page of weapons that the query asks for.
pub fn list_weapons(data: &GameData, query: &str, base_url: &str) -> (r: PaginatedResponse<JsonValue>)
    requires
        items_page_fits(*data, parse_query(query@)),
    ensures
        items_page_ok(r, *data, parse_query(query@), Some("weapons"@), base_url@),
{
    list_items_by_category(data, query, base_url, "weapons")
}

/// One of the weapons, by UUID or name.
pub fn get_weapon(data: &GameData, identifier: &str, query: &str) -> (r: JsonValue)
    ensures
        item_answer_ok(
            r,
            item_in_category(*data, identifier@, "weapons"@),
            *data,
            parse_query(query@).locale,
            quoted("weapons"@ + " "@, identifier@, " not found"@),
        ),
{
    get_item_by_category(data, identifier, query, "weapons")
}

/// The page of weapon attachments that the query asks for.
pub fn list_weapon_attachments(data: &GameData, query: &str, base_url: &str) -> (r: PaginatedResponse<JsonValue>)
    requires
        items_page_fits(*data, parse_query(query@)),
    ensures
        items_page_ok(r, *data, parse_query(query@), Some("weapon-attachments"@), base_url@),
{
    list_items_by_category(data, query, base_url, "weapon-attachments")
}

/// One of the weapon attachments, by UUID or name.
pub fn get_weapon_attachment(data: &GameData, identifier: &str, query: &str) -> (r: JsonValue)
    ensures
        item_answer_ok(
            r,
            item_in_category(*data, identifier@, "weapon-attachments"@),
            *data,
            parse_query(query@).locale,
            quoted("weapon-attachments"@ + " "@, identifier@, " not found"@),
        ),
{
    get_item_by_category(data, identifier, query, "weapon-attachments")
}

/// The page of clothes that the query asks for.
pub fn list_clothes(data: &GameData, query: &str, base_url: &str) -> (r: PaginatedResponse<JsonValue>)
    requires
        items_page_fits(*data, parse_query(query@)),
    ensures
        items_page_ok(r, *data, parse_query(query@), Some("clothes"@), base_url@),
{
    list_items_by_category(data, query, base_url, "clothes")
}

/// One of the clothes, by UUID or name.
pub fn get_cloth(data: &GameData, identifier: &str, query: &str) -> (r: JsonValue)
    ensures
        item_answer_ok(
            r,
            item_in_category(*data, identifier@, "clothes"@),
            *data,
            parse_query(query@).locale,
            quoted("clothes"@ + " "@, identifier@, " not found"@),
        ),
{
    get_item_by_category(data, identifier, query, "clothes")
}

/// The page of armor that the query asks for.
pub fn list_armor(data: &GameData, query: &str, base_url: &str) -> (r: PaginatedResponse<JsonValue>)
    requires
        items_page_fits(*data, parse_query(query@)),
    ensures
        items_page_ok(r, *data, parse_query(query@), Some("armor"@), base_url@),
{
    list_items_by_category(data, query, base_url, "armor")
}

/// One of the armor, by UUID or name.
pub fn get_armor(data: &GameData, identifier: &str, query: &str) -> (r: JsonValue)
    ensures
        item_answer_ok(
            r,
            item_in_category(*data, identifier@, "armor"@),
            *data,
            parse_query(query@).locale,
            quoted("armor"@ + " "@, identifier@, " not found"@),
        ),
{
    get_item_by_category(data, identifier, query, "armor")
}

/// The page of food that the query asks for.
pub fn list_food(data: &GameData, query: &str, base_url: &str) -> (r: PaginatedResponse<JsonValue>)
    requires
        items_page_fits(*data, parse_query(query@)),
    ensures
        items_page_ok(r, *data, parse_query(query@), Some("food"@), base_url@),
{
    list_items_by_category(data, query, base_url, "food")
}

/// One of the food, by UUID or name.
pub fn get_food(data: &GameData, identifier: &str, query: &str) -> (r: JsonValue)
    ensures
        item_answer_ok(
            r,
            item_in_category(*data, identifier@, "food"@),
            *data,
            parse_query(query@).locale,
            quoted("food"@ + " "@, identifier@, " not found"@),
        ),
{
    get_item_by_category(data, identifier, query, "food")
}

/// The page of vehicle weapons that the query asks for.
pub fn list_vehicle_weapons(data: &GameData, query: &str, base_url: &str) -> (r: PaginatedResponse<JsonValue>)
    requires
        items_page_fits(*data, parse_query(query@)),
    ensures
        items_page_ok(r, *data, parse_query(query@), Some("vehicle-weapons"@), base_url@),
{
    list_items_by_category(data, query, base_url, "vehicle-weapons")
}

/// One of the vehicle weapons, by UUID or name.
pub fn get_vehicle_weapon(data: &GameData, identifier: &str, query: &str) -> (r: JsonValue)
    ensures
        item_answer_ok(
            r,
            item_in_category(*data, identifier@, "vehicle-weapons"@),
            *data,
            parse_query(query@).locale,
            quoted("vehicle-weapons"@ + " "@, identifier@, " not found"@),
        ),
{
    get_item_by_category(data, identifier, query, "vehicle-weapons")
}

/// The page of vehicle items that the query asks for.
pub fn list_vehicle_items(data: &GameData, query: &str, base_url: &str) -> (r: PaginatedResponse<JsonValue>)
    requires
        items_page_fits(*data, parse_query(query@)),
    ensures
        items_page_ok(r, *data, parse_query(query@), Some("vehicle-items"@), base_url@),
{
    list_items_by_category(data, query, base_url, "vehicle-items")
}

/// One of the vehicle items, by UUID or name.
pub fn get_vehicle_item(data: &GameData, identifier: &str, query: &str) -> (r: JsonValue)
    ensures
        item_answer_ok(
            r,
            item_in_category(*data, identifier@, "vehicle-items"@),
            *data,
            parse_query(query@).locale,
            quoted("vehicle-items"@ + " "@, identifier@, " not found"@),
        ),
{
    get_item_by_category(data, identifier, query, "vehicle-items")
}

} // verus!
