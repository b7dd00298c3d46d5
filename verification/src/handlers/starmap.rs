use vstd::prelude::*;

use crate::handlers::common::{
    distinct, distinct_strings, has_member, indexed, lemma_selected_bounds, lemma_selected_step,
    lists_ok, lookup, lower_equals, lower_is, member, not_found, not_found_message, not_found_ok,
    opt_lower_is, opt_search_in, opt_string_json, opt_string_json_exec, opt_views, quoted,
    search_in, selected, single_data, single_json, single_ok, str_json, views_json,
};
use crate::json::{json_same, JsonNumber, JsonValue};
use crate::loader::GameData;
use crate::models::starmap::{Amenity, StarmapLocation};
use crate::query::{matches_search, opt_chars, parse_query, QueryModel, QueryParams};
use crate::response::{page_end, page_shape, page_start, paginate, paginate_fits, PaginatedResponse};
use crate::sort::{f64_bits, number_as_f64};
use crate::text::{lowercase, seq_contains, str_eq, to_lowercase};

verus! {

/// Whether amenity `a` matches the filter value `value`: by name, exact
/// UUID, or display name.
pub open spec fn amenity_matches(a: Amenity, value: Seq<char>) -> bool {
    seq_contains(lowercase(a.name@), lowercase(value)) || a.uuid@ == value || search_in(
        a.display_name,
        value,
    )
}

/// Whether place `loc` passes the filter `filter[key]=value`; an unknown key
/// passes every place.
pub open spec fn location_filter_ok(loc: StarmapLocation, key: Seq<char>, value: Seq<char>) -> bool {
    let vl = lowercase(value);
    if key == "type"@ || key == "type_name"@ {
        lowercase(loc.type_label@) == vl
    } else if key == "system"@ {
        lower_is(loc.system, vl)
    } else if key == "name"@ {
        seq_contains(lowercase(loc.name@), vl)
    } else if key == "amenity"@ {
        exists|i: int| 0 <= i < loc.amenities@.len() && #[trigger] amenity_matches(loc.amenities@[i], value)
    } else {
        true
    }
}

/// Whether place `loc` is listed for the query `p`: it passes every filter,
/// and the search text matches its name or description.
pub open spec fn location_passes(p: QueryModel, loc: StarmapLocation) -> bool {
    &&& forall|k: int|
        0 <= k < p.filters.len() ==> #[trigger] location_filter_ok(loc, p.filters[k].0, p.filters[k].1)
    &&& (p.search matches Some(q) ==> seq_contains(lowercase(loc.name@), lowercase(q)) || search_in(
        loc.description,
        q,
    ))
}

/// The places listed for the query `p`, in the order of the data.
pub open spec fn location_candidates(data: GameData, p: QueryModel) -> Seq<usize> {
    selected(Seq::new(data.starmap_locations@.len(), |i: int| location_passes(p, data.starmap_locations@[i])))
}

/// A place's size as JSON: the `f64` it was read as, or `null`.
pub open spec fn size_json(o: Option<JsonNumber>) -> JsonValue {
    match o {
        Some(n) => JsonValue::Number(JsonNumber::Float(f64_bits(n) as u64)),
        None => JsonValue::Null,
    }
}

/// `v` is the `{"uuid", "name", "display_name"}` object of amenity `a`.
pub open spec fn amenity_ok(v: JsonValue, a: Amenity) -> bool {
    match v {
        JsonValue::Object(e) => e@.len() == 3 && has_member(e@, 0, "uuid"@, str_json(a.uuid))
            && has_member(e@, 1, "name"@, str_json(a.name)) && has_member(
            e@,
            2,
            "display_name"@,
            opt_string_json(a.display_name),
        ),
        _ => false,
    }
}

/// `r` is the response for place `loc`.
pub open spec fn location_response_ok(r: JsonValue, loc: StarmapLocation) -> bool {
    match r {
        JsonValue::Object(m) => {
            &&& m@.len() == 11
            &&& has_member(m@, 0, "uuid"@, str_json(loc.uuid))
            &&& has_member(m@, 1, "name"@, str_json(loc.name))
            &&& has_member(m@, 2, "description"@, opt_string_json(loc.description))
            &&& has_member(m@, 3, "type_name"@, str_json(loc.type_label))
            &&& has_member(m@, 4, "size"@, size_json(loc.size))
            &&& has_member(m@, 5, "is_scannable"@, JsonValue::Bool(loc.is_scannable))
            &&& has_member(m@, 6, "block_travel"@, JsonValue::Bool(loc.block_travel))
            &&& has_member(m@, 7, "parent_uuid"@, opt_string_json(loc.parent_uuid))
            &&& has_member(m@, 8, "system"@, opt_string_json(loc.system))
            &&& m@[9].0@ == "amenities"@
            &&& match m@[9].1 {
                JsonValue::Array(a) => a@.len() == loc.amenities@.len() && forall|i: int|
                    0 <= i < a@.len() ==> amenity_ok(#[trigger] a@[i], loc.amenities@[i]),
                _ => false,
            }
            &&& m@[10].0@ == "data"@
            &&& json_same(loc.data, m@[10].1)
        },
        _ => false,
    }
}

/// `r` is the page of places for the query `p` with links under `base`.
pub open spec fn locations_page_ok(r: PaginatedResponse<JsonValue>, data: GameData, p: QueryModel, base: Seq<char>) -> bool {
    let sel = location_candidates(data, p);
    &&& page_shape(r, sel.len() as int, p.page as int, p.per_page as int, base)
    &&& forall|i: int|
        0 <= i < r.data@.len() ==> location_response_ok(
            #[trigger] r.data@[i],
            data.starmap_locations@[sel[page_start(p.page as int, p.per_page as int) + i] as int],
        )
}

/// The query's page can be cut out of any list of the places.
pub open spec fn locations_page_fits(data: GameData, p: QueryModel) -> bool {
    paginate_fits(p.page as int, p.per_page as int, data.starmap_locations@.len() as int)
}

/// Whether some amenity of place `loc` matches `value`.
fn any_amenity(loc: &StarmapLocation, value: &str) -> (r: bool)
    ensures
        r == exists|i: int|
            0 <= i < loc.amenities@.len() && #[trigger] amenity_matches(loc.amenities@[i], value@),
{
    let mut i: usize = 0;
    while i < loc.amenities.len()
        invariant
            i <= loc.amenities.len(),
            forall|j: int| 0 <= j < i ==> !#[trigger] amenity_matches(loc.amenities@[j], value@),
        decreases loc.amenities.len() - i,
    {
        let a = &loc.amenities[i];
        if matches_search(a.name.as_str(), value) || str_eq(a.uuid.as_str(), value)
            || opt_search_in(&a.display_name, value) {
            assert(amenity_matches(loc.amenities@[i as int], value@));
            return true;
        }
        i = i + 1;
    }
    false
}

/// Whether place `loc` passes the filter `filter[key]=value`; `vl` is `value` lowercased.
fn location_filter(loc: &StarmapLocation, key: &str, value: &str, vl: &str) -> (r: bool)
    requires
        vl@ == lowercase(value@),
    ensures
        r == location_filter_ok(*loc, key@, value@),
{
    if str_eq(key, "type") || str_eq(key, "type_name") {
        lower_equals(loc.type_label.as_str(), vl)
    } else if str_eq(key, "system") {
        opt_lower_is(&loc.system, vl)
    } else if str_eq(key, "name") {
        matches_search(loc.name.as_str(), value)
    } else if str_eq(key, "amenity") {
        any_amenity(loc, value)
    } else {
        true
    }
}

/// Whether place `loc` is listed for the query `params`.
fn location_passes_exec(params: &QueryParams, lows: &Vec<String>, loc: &StarmapLocation) -> (r: bool)
    requires
        lows.len() == params.filters.len(),
        forall|k: int| 0 <= k < lows.len() ==> (#[trigger] lows@[k])@ == lowercase(params.filters@[k].1@),
    ensures
        r == location_passes(params@, *loc),
{
    let mut k: usize = 0;
    while k < params.filters.len()
        invariant
            k <= params.filters.len(),
            lows.len() == params.filters.len(),
            forall|j: int| 0 <= j < lows.len() ==> (#[trigger] lows@[j])@ == lowercase(params.filters@[j].1@),
            forall|j: int|
                0 <= j < k ==> #[trigger] location_filter_ok(
                    *loc,
                    params@.filters[j].0,
                    params@.filters[j].1,
                ),
        decreases params.filters.len() - k,
    {
        let ok = location_filter(
            loc,
            params.filters[k].0.as_str(),
            params.filters[k].1.as_str(),
            lows[k].as_str(),
        );
        if !ok {
            assert(!location_filter_ok(*loc, params@.filters[k as int].0, params@.filters[k as int].1));
            return false;
        }
        k = k + 1;
    }
    match &params.search {
        Some(q) => matches_search(loc.name.as_str(), q.as_str()) || opt_search_in(
            &loc.description,
            q.as_str(),
        ),
        None => true,
    }
}

/// The places listed for the query `params`: those that pass every filter
/// and the search, in the order of the data.
pub fn filter_locations(data: &GameData, params: &QueryParams) -> (r: Vec<usize>)
    ensures
        r@ == location_candidates(*data, params@),
        forall|k: int| 0 <= k < r.len() ==> #[trigger] r@[k] < data.starmap_locations.len(),
        r.len() <= data.starmap_locations.len(),
{
    let ghost oks = Seq::new(
        data.starmap_locations@.len(),
        |i: int| location_passes(params@, data.starmap_locations@[i]),
    );
    let mut lows: Vec<String> = Vec::new();
    let mut k: usize = 0;
    while k < params.filters.len()
        invariant
            k <= params.filters.len(),
            lows.len() == k,
            forall|j: int| 0 <= j < k ==> (#[trigger] lows@[j])@ == lowercase(params.filters@[j].1@),
        decreases params.filters.len() - k,
    {
        lows.push(to_lowercase(params.filters[k].1.as_str()));
        k = k + 1;
    }
    let mut cand: Vec<usize> = Vec::new();
    let mut i: usize = 0;
    while i < data.starmap_locations.len()
        invariant
            i <= data.starmap_locations.len(),
            oks == Seq::new(
                data.starmap_locations@.len(),
                |i: int| location_passes(params@, data.starmap_locations@[i]),
            ),
            lows.len() == params.filters.len(),
            forall|k: int| 0 <= k < lows.len() ==> (#[trigger] lows@[k])@ == lowercase(params.filters@[k].1@),
            cand@ == selected(oks.take(i as int)),
        decreases data.starmap_locations.len() - i,
    {
        proof {
            lemma_selected_step(oks, i as int);
        }
        if location_passes_exec(params, &lows, &data.starmap_locations[i]) {
            cand.push(i);
        }
        i = i + 1;
    }
    proof {
        assert(oks.take(i as int) =~= oks);
        lemma_selected_bounds(oks);
    }
    cand
}

/// The response for a place.
pub fn location_to_response(loc: &StarmapLocation) -> (r: JsonValue)
    ensures
        location_response_ok(r, *loc),
{
    let mut am: Vec<JsonValue> = Vec::new();
    let mut i: usize = 0;
    while i < loc.amenities.len()
        invariant
            i <= loc.amenities.len(),
            am@.len() == i,
            forall|k: int| 0 <= k < i ==> amenity_ok(#[trigger] am@[k], loc.amenities@[k]),
        decreases loc.amenities.len() - i,
    {
        let a = &loc.amenities[i];
        let mut e: Vec<(String, JsonValue)> = Vec::new();
        e.push(member("uuid", JsonValue::String(a.uuid.clone())));
        e.push(member("name", JsonValue::String(a.name.clone())));
        e.push(member("display_name", opt_string_json_exec(&a.display_name)));
        am.push(JsonValue::Object(e));
        i = i + 1;
    }
    let size = match loc.size {
        Some(n) => JsonValue::Number(number_as_f64(n)),
        None => JsonValue::Null,
    };
    let mut m: Vec<(String, JsonValue)> = Vec::new();
    m.push(member("uuid", JsonValue::String(loc.uuid.clone())));
    m.push(member("name", JsonValue::String(loc.name.clone())));
    m.push(member("description", opt_string_json_exec(&loc.description)));
    m.push(member("type_name", JsonValue::String(loc.type_label.clone())));
    m.push(member("size", size));
    m.push(member("is_scannable", JsonValue::Bool(loc.is_scannable)));
    m.push(member("block_travel", JsonValue::Bool(loc.block_travel)));
    m.push(member("parent_uuid", opt_string_json_exec(&loc.parent_uuid)));
    m.push(member("system", opt_string_json_exec(&loc.system)));
    m.push(member("amenities", JsonValue::Array(am)));
    m.push(member("data", loc.data.deep_copy()));
    JsonValue::Object(m)
}

/// GET /starmap/locations: the page of places that the query asks for.
pub fn list_locations(data: &GameData, query: &str, base_url: &str) -> (r: PaginatedResponse<
    JsonValue,
>)
    requires
        locations_page_fits(*data, parse_query(query@)),
    ensures
        locations_page_ok(r, *data, parse_query(query@), base_url@),
{
    let params = QueryParams::from_query(query);
    let sel = filter_locations(data, &params);
    let pg = paginate(sel.as_slice(), params.page, params.per_page, base_url);
    let ghost start = page_start(params.page as int, params.per_page as int);
    let mut out: Vec<JsonValue> = Vec::new();
    let mut k: usize = 0;
    while k < pg.data.len()
        invariant
            k <= pg.data.len(),
            out.len() == k,
            pg.data@.len() == page_end(params.page as int, params.per_page as int, sel@.len() as int)
                - start,
            forall|i: int| 0 <= i < pg.data@.len() ==> #[trigger] pg.data@[i] == sel@[start + i],
            forall|j: int| 0 <= j < sel.len() ==> #[trigger] sel@[j] < data.starmap_locations.len(),
            start == page_start(params.page as int, params.per_page as int),
            forall|i: int|
                0 <= i < k ==> location_response_ok(
                    #[trigger] out@[i],
                    data.starmap_locations@[sel@[start + i] as int],
                ),
        decreases pg.data.len() - k,
    {
        let idx = pg.data[k];
        assert(idx == sel@[start + k]);
        out.push(location_to_response(&data.starmap_locations[idx]));
        k = k + 1;
    }
    let r = PaginatedResponse { data: out, links: pg.links, meta: pg.meta };
    assert(page_shape(r, sel@.len() as int, params.page as int, params.per_page as int, base_url@));
    r
}

/// `r` answers a request for one place: the single-record response of the
/// place `found`, or the not-found answer with `message`.
pub open spec fn location_answer_ok(r: JsonValue, found: Option<StarmapLocation>, message: Seq<char>) -> bool {
    match found {
        Some(loc) => single_ok(r, single_data(r)) && location_response_ok(single_data(r), loc),
        None => not_found_ok(r, message),
    }
}

/// GET /starmap/locations/:identifier: the place with that UUID.
pub fn get_location(data: &GameData, identifier: &str) -> (r: JsonValue)
    ensures
        location_answer_ok(
            r,
            indexed(data.starmap_locations_by_uuid@, data.starmap_locations@, identifier@),
            quoted("Location "@, identifier@, " not found"@),
        ),
{
    match lookup(&data.starmap_locations_by_uuid, &data.starmap_locations, identifier) {
        Some(loc) => single_json(location_to_response(loc)),
        None => not_found(not_found_message("Location ", identifier)),
    }
}

/// The kinds of places, one per place.
pub open spec fn location_types(ls: Seq<StarmapLocation>) -> Seq<Option<Seq<char>>> {
    ls.map_values(|l: StarmapLocation| Some(l.type_label@))
}

/// The systems of places, one per place.
pub open spec fn location_systems(ls: Seq<StarmapLocation>) -> Seq<Option<Seq<char>>> {
    ls.map_values(|l: StarmapLocation| opt_chars(l.system))
}

/// GET /starmap/filters: the kinds of places and the systems, each once.
pub fn location_filters(data: &GameData) -> (r: JsonValue)
    ensures
        lists_ok(
            r,
            seq!["type_name"@, "system"@],
            seq![
                distinct(location_types(data.starmap_locations@)),
                distinct(location_systems(data.starmap_locations@)),
            ],
        ),
{
    let mut ts: Vec<Option<String>> = Vec::new();
    let mut ss: Vec<&Option<String>> = Vec::new();
    let mut i: usize = 0;
    while i < data.starmap_locations.len()
        invariant
            i <= data.starmap_locations.len(),
            ts.len() == i,
            ss.len() == i,
            ts@.map_values(|o: Option<String>| opt_chars(o)) == location_types(
                data.starmap_locations@,
            ).take(i as int),
            opt_views(ss@) == location_systems(data.starmap_locations@).take(i as int),
        decreases data.starmap_locations.len() - i,
    {
        let l = &data.starmap_locations[i];
        ts.push(Some(l.type_label.clone()));
        assert(ts@.map_values(|o: Option<String>| opt_chars(o)) =~= location_types(
            data.starmap_locations@,
        ).take(i + 1));
        ss.push(&l.system);
        assert(opt_views(ss@) =~= location_systems(data.starmap_locations@).take(i + 1));
        i = i + 1;
    }
    assert(location_types(data.starmap_locations@).take(i as int) =~= location_types(
        data.starmap_locations@,
    ));
    assert(location_systems(data.starmap_locations@).take(i as int) =~= location_systems(
        data.starmap_locations@,
    ));
    let mut tr: Vec<&Option<String>> = Vec::new();
    let mut j: usize = 0;
    while j < ts.len()
        invariant
            j <= ts.len(),
            tr.len() == j,
            forall|k: int| 0 <= k < j ==> *(#[trigger] tr@[k]) == ts@[k],
        decreases ts.len() - j,
    {
        tr.push(&ts[j]);
        j = j + 1;
    }
    assert(opt_views(tr@) =~= ts@.map_values(|o: Option<String>| opt_chars(o)));
    let a = distinct_strings(&tr);
    let b = distinct_strings(&ss);
    let mut m: Vec<(String, JsonValue)> = Vec::new();
    m.push(member("type_name", views_json(&a)));
    m.push(member("system", views_json(&b)));
    let r = JsonValue::Object(m);
    assert(lists_ok(
        r,
        seq!["type_name"@, "system"@],
        seq![
            distinct(location_types(data.starmap_locations@)),
            distinct(location_systems(data.starmap_locations@)),
        ],
    ));
    r
}

} // verus!
