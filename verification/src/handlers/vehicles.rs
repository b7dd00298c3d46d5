use vstd::prelude::*;

use crate::handlers::common::{
    bare_not_found, bare_not_found_ok, body_query, distinct, distinct_strings, first_true,
    has_member, indexed, lemma_first_true, lemma_selected_bounds, lemma_selected_step, lists_ok,
    lookup, lower_equals, lower_is, manufacturer_ref, manufacturer_ref_ok, member, not_found,
    not_found_message, not_found_ok, opt_lower_is, opt_search_in, opt_string_json,
    opt_string_json_exec, opt_views, order_selection, ordered_selection, quoted,
    replace_underscores, search_in, search_text, selected, single_data, single_json, single_ok,
    str_json, truthy, is_truthy, views_json, with_search,
};
use crate::json::{json_same, JsonValue};
use crate::loader::GameData;
use crate::models::manufacturer::Manufacturer;
use crate::models::vehicle::{opt_str_chars, underscores_to_spaces, Vehicle};
use crate::query::{opt_chars, parse_query, QueryModel, QueryParams};
use crate::response::{page_end, page_shape, page_start, paginate, paginate_fits, PaginatedResponse};
use crate::text::{lowercase, str_eq, to_lowercase};

verus! {

/// The manufacturer that vehicle `v` names, as the index by UUID finds it.
pub open spec fn vehicle_manufacturer(data: GameData, v: Vehicle) -> Option<Manufacturer> {
    match v.manufacturer_uuid {
        Some(u) => indexed(data.manufacturers_by_uuid@, data.manufacturers@, u@),
        None => None,
    }
}

/// Whether vehicle `v` is of the kind `kind`: `ground` (a vehicle that does
/// not hover), `gravlev` or `spaceship`; any other kind, or none, holds all.
pub open spec fn vehicle_kind_ok(v: Vehicle, kind: Option<Seq<char>>) -> bool {
    match kind {
        Some(k) => if k == "ground"@ {
            v.is_vehicle && !v.is_gravlev
        } else if k == "gravlev"@ {
            v.is_gravlev
        } else if k == "spaceship"@ {
            v.is_spaceship
        } else {
            true
        },
        None => true,
    }
}

/// Whether vehicle `v` passes the filter `filter[key]=value`; an unknown key
/// passes every vehicle.
pub open spec fn vehicle_filter_ok(data: GameData, v: Vehicle, key: Seq<char>, value: Seq<char>) -> bool {
    let vl = lowercase(value);
    if key == "manufacturer"@ || key == "manufacturer.name"@ {
        match vehicle_manufacturer(data, v) {
            Some(m) => lowercase(m.name@) == vl || lowercase(m.code@) == vl,
            None => false,
        }
    } else if key == "class_name"@ {
        lower_is(v.class_name, vl)
    } else if key == "name"@ {
        search_in(v.name, value)
    } else if key == "career"@ {
        lower_is(v.career, vl)
    } else if key == "role"@ {
        lower_is(v.role, vl)
    } else if key == "is_vehicle"@ {
        v.is_vehicle == truthy(vl)
    } else if key == "is_gravlev"@ {
        v.is_gravlev == truthy(vl)
    } else if key == "is_spaceship"@ {
        v.is_spaceship == truthy(vl)
    } else {
        true
    }
}

/// Whether the search text `q` (underscores read as spaces) matches vehicle
/// `v` by name, display name or class name.
pub open spec fn vehicle_search_ok(v: Vehicle, q: Seq<char>) -> bool {
    let q2 = underscores_to_spaces(q);
    search_in(v.name, q2) || search_in(v.display_name, q2) || search_in(v.class_name, q2)
}

/// Whether vehicle `v` is listed for the query `p` among vehicles of kind `kind`.
pub open spec fn vehicle_passes(data: GameData, p: QueryModel, kind: Option<Seq<char>>, v: Vehicle) -> bool {
    &&& vehicle_kind_ok(v, kind)
    &&& forall|k: int|
        0 <= k < p.filters.len() ==> #[trigger] vehicle_filter_ok(
            data,
            v,
            p.filters[k].0,
            p.filters[k].1,
        )
    &&& (p.search matches Some(q) ==> vehicle_search_ok(v, q))
}

/// The vehicles listed for the query `p`, in the order of the data.
pub open spec fn vehicle_candidates(data: GameData, p: QueryModel, kind: Option<Seq<char>>) -> Seq<usize> {
    selected(Seq::new(data.vehicles@.len(), |i: int| vehicle_passes(data, p, kind, data.vehicles@[i])))
}

/// The documents of the vehicles `sel`.
pub open spec fn vehicle_docs(vs: Seq<Vehicle>, sel: Seq<usize>) -> Seq<JsonValue> {
    sel.map_values(|i: usize| vs[i as int].data)
}

/// `r` lists the vehicles for the query `p` among those of kind `kind`, in
/// the order that the query's sort asks for.
pub open spec fn vehicle_selection(data: GameData, p: QueryModel, kind: Option<Seq<char>>, r: Seq<usize>) -> bool {
    let cand = vehicle_candidates(data, p, kind);
    ordered_selection(cand, vehicle_docs(data.vehicles@, cand), p.sort, r)
}

/// `r` is the response for vehicle `v`.
pub open spec fn vehicle_response_ok(r: JsonValue, v: Vehicle, data: GameData) -> bool {
    match r {
        JsonValue::Object(m) => {
            &&& m@.len() == 12
            &&& has_member(m@, 0, "uuid"@, str_json(v.uuid))
            &&& has_member(m@, 1, "name"@, opt_string_json(v.name))
            &&& has_member(m@, 2, "display_name"@, opt_string_json(v.display_name))
            &&& has_member(m@, 3, "class_name"@, opt_string_json(v.class_name))
            &&& has_member(m@, 4, "career"@, opt_string_json(v.career))
            &&& has_member(m@, 5, "role"@, opt_string_json(v.role))
            &&& has_member(m@, 6, "is_vehicle"@, JsonValue::Bool(v.is_vehicle))
            &&& has_member(m@, 7, "is_gravlev"@, JsonValue::Bool(v.is_gravlev))
            &&& has_member(m@, 8, "is_spaceship"@, JsonValue::Bool(v.is_spaceship))
            &&& m@[9].0@ == "size"@
            &&& match v.size {
                Some(sz) => json_same(sz, m@[9].1),
                None => m@[9].1 is Null,
            }
            &&& m@[10].0@ == "manufacturer"@
            &&& manufacturer_ref_ok(m@[10].1, vehicle_manufacturer(data, v))
            &&& m@[11].0@ == "data"@
            &&& json_same(v.data, m@[11].1)
        },
        _ => false,
    }
}

/// `r` is the page of vehicles for the query `p` (of kind `kind`) with links under `base`.
pub open spec fn vehicles_page_ok(
    r: PaginatedResponse<JsonValue>,
    data: GameData,
    p: QueryModel,
    kind: Option<Seq<char>>,
    base: Seq<char>,
) -> bool {
    exists|sel: Seq<usize>|
        #![trigger vehicle_selection(data, p, kind, sel)]
        {
            &&& vehicle_selection(data, p, kind, sel)
            &&& page_shape(r, sel.len() as int, p.page as int, p.per_page as int, base)
            &&& forall|i: int|
                0 <= i < r.data@.len() ==> vehicle_response_ok(
                    #[trigger] r.data@[i],
                    data.vehicles@[sel[page_start(p.page as int, p.per_page as int) + i] as int],
                    data,
                )
        }
}

/// The query's page can be cut out of any list of the vehicles.
pub open spec fn vehicles_page_fits(data: GameData, p: QueryModel) -> bool {
    paginate_fits(p.page as int, p.per_page as int, data.vehicles@.len() as int)
}

/// Whether vehicle `v` is of the kind `kind`.
fn vehicle_kind_exec(v: &Vehicle, kind: Option<&str>) -> (r: bool)
    ensures
        r == vehicle_kind_ok(*v, opt_str_chars(kind)),
{
    match kind {
        Some(k) => if str_eq(k, "ground") {
            v.is_vehicle && !v.is_gravlev
        } else if str_eq(k, "gravlev") {
            v.is_gravlev
        } else if str_eq(k, "spaceship") {
            v.is_spaceship
        } else {
            true
        },
        None => true,
    }
}

/// Whether vehicle `v` passes the filter `filter[key]=value`; `vl` is `value` lowercased.
fn vehicle_filter(data: &GameData, v: &Vehicle, key: &str, value: &str, vl: &str) -> (r: bool)
    requires
        vl@ == lowercase(value@),
    ensures
        r == vehicle_filter_ok(*data, *v, key@, value@),
{
    if str_eq(key, "manufacturer") || str_eq(key, "manufacturer.name") {
        let m = match &v.manufacturer_uuid {
            Some(u) => lookup(&data.manufacturers_by_uuid, &data.manufacturers, u.as_str()),
            None => None,
        };
        match m {
            Some(m) => lower_equals(m.name.as_str(), vl) || lower_equals(m.code.as_str(), vl),
            None => false,
        }
    } else if str_eq(key, "class_name") {
        opt_lower_is(&v.class_name, vl)
    } else if str_eq(key, "name") {
        opt_search_in(&v.name, value)
    } else if str_eq(key, "career") {
        opt_lower_is(&v.career, vl)
    } else if str_eq(key, "role") {
        opt_lower_is(&v.role, vl)
    } else if str_eq(key, "is_vehicle") {
        v.is_vehicle == is_truthy(vl)
    } else if str_eq(key, "is_gravlev") {
        v.is_gravlev == is_truthy(vl)
    } else if str_eq(key, "is_spaceship") {
        v.is_spaceship == is_truthy(vl)
    } else {
        true
    }
}

/// Whether vehicle `v` is listed for the query `params` among vehicles of kind `kind`.
fn vehicle_passes_exec(
    data: &GameData,
    params: &QueryParams,
    lows: &Vec<String>,
    search: &Option<String>,
    kind: Option<&str>,
    v: &Vehicle,
) -> (r: bool)
    requires
        lows.len() == params.filters.len(),
        forall|k: int| 0 <= k < lows.len() ==> (#[trigger] lows@[k])@ == lowercase(params.filters@[k].1@),
        match params@.search {
            Some(q) => search matches Some(s) && s@ == underscores_to_spaces(q),
            None => search is None,
        },
    ensures
        r == vehicle_passes(*data, params@, opt_str_chars(kind), *v),
{
    if !vehicle_kind_exec(v, kind) {
        return false;
    }
    let mut k: usize = 0;
    while k < params.filters.len()
        invariant
            k <= params.filters.len(),
            lows.len() == params.filters.len(),
            forall|j: int| 0 <= j < lows.len() ==> (#[trigger] lows@[j])@ == lowercase(params.filters@[j].1@),
            forall|j: int|
                0 <= j < k ==> #[trigger] vehicle_filter_ok(
                    *data,
                    *v,
                    params@.filters[j].0,
                    params@.filters[j].1,
                ),
        decreases params.filters.len() - k,
    {
        let ok = vehicle_filter(
            data,
            v,
            params.filters[k].0.as_str(),
            params.filters[k].1.as_str(),
            lows[k].as_str(),
        );
        if !ok {
            assert(!vehicle_filter_ok(*data, *v, params@.filters[k as int].0, params@.filters[k as int].1));
            return false;
        }
        k = k + 1;
    }
    match search {
        Some(q) => opt_search_in(&v.name, q.as_str()) || opt_search_in(&v.display_name, q.as_str())
            || opt_search_in(&v.class_name, q.as_str()),
        None => true,
    }
}

/// The lowercase forms of the filter values.
fn lowered_values(params: &QueryParams) -> (r: Vec<String>)
    ensures
        r.len() == params.filters.len(),
        forall|k: int| 0 <= k < r.len() ==> (#[trigger] r@[k])@ == lowercase(params.filters@[k].1@),
{
    let mut r: Vec<String> = Vec::new();
    let mut k: usize = 0;
    while k < params.filters.len()
        invariant
            k <= params.filters.len(),
            r.len() == k,
            forall|j: int| 0 <= j < k ==> (#[trigger] r@[j])@ == lowercase(params.filters@[j].1@),
        decreases params.filters.len() - k,
    {
        r.push(to_lowercase(params.filters[k].1.as_str()));
        k = k + 1;
    }
    r
}

/// The vehicles listed for the query `params` among those of kind `kind`:
/// those that pass the kind, every filter and the search, in the order that
/// the query's sort asks for.
pub fn filter_vehicles(data: &GameData, params: &QueryParams, kind: Option<&str>) -> (r: Vec<usize>)
    ensures
        vehicle_selection(*data, params@, opt_str_chars(kind), r@),
        forall|k: int| 0 <= k < r.len() ==> #[trigger] r@[k] < data.vehicles.len(),
        r.len() <= data.vehicles.len(),
{
    let ghost kd = opt_str_chars(kind);
    let ghost oks = Seq::new(
        data.vehicles@.len(),
        |i: int| vehicle_passes(*data, params@, kd, data.vehicles@[i]),
    );
    let lows = lowered_values(params);
    let search = match &params.search {
        Some(q) => Some(replace_underscores(q.as_str())),
        None => None,
    };
    let mut cand: Vec<usize> = Vec::new();
    let mut i: usize = 0;
    while i < data.vehicles.len()
        invariant
            i <= data.vehicles.len(),
            oks == Seq::new(
                data.vehicles@.len(),
                |i: int| vehicle_passes(*data, params@, kd, data.vehicles@[i]),
            ),
            kd == opt_str_chars(kind),
            lows.len() == params.filters.len(),
            forall|k: int| 0 <= k < lows.len() ==> (#[trigger] lows@[k])@ == lowercase(params.filters@[k].1@),
            match params@.search {
                Some(q) => search matches Some(s) && s@ == underscores_to_spaces(q),
                None => search is None,
            },
            cand@ == selected(oks.take(i as int)),
        decreases data.vehicles.len() - i,
    {
        proof {
            lemma_selected_step(oks, i as int);
        }
        if vehicle_passes_exec(data, params, &lows, &search, kind, &data.vehicles[i]) {
            cand.push(i);
        }
        i = i + 1;
    }
    proof {
        assert(oks.take(i as int) =~= oks);
        lemma_selected_bounds(oks);
    }
    let mut datas: Vec<&JsonValue> = Vec::new();
    let mut k: usize = 0;
    while k < cand.len()
        invariant
            k <= cand.len(),
            forall|j: int| 0 <= j < cand.len() ==> #[trigger] cand@[j] < data.vehicles.len(),
            datas.len() == k,
            forall|j: int| 0 <= j < k ==> *(#[trigger] datas@[j]) == data.vehicles@[cand@[j] as int].data,
        decreases cand.len() - k,
    {
        datas.push(&data.vehicles[cand[k]].data);
        k = k + 1;
    }
    proof {
        assert(crate::sort::docs_of(datas@) =~= vehicle_docs(data.vehicles@, cand@));
        assert(cand.len() <= data.vehicles.len());
    }
    order_selection(cand, &datas, &params.sort, Ghost(data.vehicles.len() as nat))
}

/// The response for a vehicle.
pub fn vehicle_to_response(v: &Vehicle, data: &GameData) -> (r: JsonValue)
    ensures
        vehicle_response_ok(r, *v, *data),
{
    let manufacturer = match &v.manufacturer_uuid {
        Some(u) => lookup(&data.manufacturers_by_uuid, &data.manufacturers, u.as_str()),
        None => None,
    };
    let size = match &v.size {
        Some(sz) => sz.deep_copy(),
        None => JsonValue::Null,
    };
    let mut m: Vec<(String, JsonValue)> = Vec::new();
    m.push(member("uuid", JsonValue::String(v.uuid.clone())));
    m.push(member("name", opt_string_json_exec(&v.name)));
    m.push(member("display_name", opt_string_json_exec(&v.display_name)));
    m.push(member("class_name", opt_string_json_exec(&v.class_name)));
    m.push(member("career", opt_string_json_exec(&v.career)));
    m.push(member("role", opt_string_json_exec(&v.role)));
    m.push(member("is_vehicle", JsonValue::Bool(v.is_vehicle)));
    m.push(member("is_gravlev", JsonValue::Bool(v.is_gravlev)));
    m.push(member("is_spaceship", JsonValue::Bool(v.is_spaceship)));
    m.push(member("size", size));
    m.push(member("manufacturer", manufacturer_ref(manufacturer)));
    m.push(member("data", v.data.deep_copy()));
    JsonValue::Object(m)
}

/// The page of vehicles of kind `kind` for the query `params`.
fn vehicles_page(data: &GameData, params: &QueryParams, kind: Option<&str>, base_url: &str) -> (r:
    PaginatedResponse<JsonValue>)
    requires
        vehicles_page_fits(*data, params@),
    ensures
        vehicles_page_ok(r, *data, params@, opt_str_chars(kind), base_url@),
{
    let sel = filter_vehicles(data, params, kind);
    let pg = paginate(sel.as_slice(), params.page, params.per_page, base_url);
    let ghost start = page_start(params.page as int, params.per_page as int);
    let mut out: Vec<JsonValue> = Vec::new();
    let mut k: usize = 0;
    while k < pg.data.len()
        invariant
            k <= pg.data.len(),
            out.len() == k,
            pg.data@.len() == page_end(params.page as int, params.per_page as int, sel@.len() as int)
                - start,
            forall|i: int| 0 <= i < pg.data@.len() ==> #[trigger] pg.data@[i] == sel@[start + i],
            forall|j: int| 0 <= j < sel.len() ==> #[trigger] sel@[j] < data.vehicles.len(),
            start == page_start(params.page as int, params.per_page as int),
            forall|i: int|
                0 <= i < k ==> vehicle_response_ok(
                    #[trigger] out@[i],
                    data.vehicles@[sel@[start + i] as int],
                    *data,
                ),
        decreases pg.data.len() - k,
    {
        let idx = pg.data[k];
        assert(idx == sel@[start + k]);
        out.push(vehicle_to_response(&data.vehicles[idx], data));
        k = k + 1;
    }
    let r = PaginatedResponse { data: out, links: pg.links, meta: pg.meta };
    assert(page_shape(r, sel@.len() as int, params.page as int, params.per_page as int, base_url@));
    r
}

/// GET /vehicles: the page of vehicles that the query asks for.
pub fn list_vehicles(data: &GameData, query: &str, base_url: &str) -> (r: PaginatedResponse<
    JsonValue,
>)
    requires
        vehicles_page_fits(*data, parse_query(query@)),
    ensures
        vehicles_page_ok(r, *data, parse_query(query@), None, base_url@),
{
    let params = QueryParams::from_query(query);
    vehicles_page(data, &params, None, base_url)
}

/// POST /vehicles/search: as `list_vehicles`, with the search text of the request body.
pub fn search_vehicles(data: &GameData, query: &str, base_url: &str, body: &JsonValue) -> (r:
    PaginatedResponse<JsonValue>)
    requires
        vehicles_page_fits(*data, parse_query(query@)),
    ensures
        vehicles_page_ok(
            r,
            *data,
            with_search(parse_query(query@), body_query(*body)),
            None,
            base_url@,
        ),
{
    let mut params = QueryParams::from_query(query);
    match search_text(body) {
        Some(q) => {
            params.search = Some(q);
        },
        None => {},
    }
    assert(params@ == with_search(parse_query(query@), body_query(*body)));
    vehicles_page(data, &params, None, base_url)
}

/// GET /vehicles/ground: the page of ground vehicles that the query asks for.
pub fn list_ground_vehicles(data: &GameData, query: &str, base_url: &str) -> (r: PaginatedResponse<
    JsonValue,
>)
    requires
        vehicles_page_fits(*data, parse_query(query@)),
    ensures
        vehicles_page_ok(r, *data, parse_query(query@), Some("ground"@), base_url@),
{
    let params = QueryParams::from_query(query);
    vehicles_page(data, &params, Some("ground"), base_url)
}

/// GET /vehicles/gravlev: the page of hovering vehicles that the query asks for.
pub fn list_gravlev_vehicles(data: &GameData, query: &str, base_url: &str) -> (r: PaginatedResponse<
    JsonValue,
>)
    requires
        vehicles_page_fits(*data, parse_query(query@)),
    ensures
        vehicles_page_ok(r, *data, parse_query(query@), Some("gravlev"@), base_url@),
{
    let params = QueryParams::from_query(query);
    vehicles_page(data, &params, Some("gravlev"), base_url)
}

/// Whether vehicle `v` answers to `id`: its UUID, or its name or display
/// name ignoring case.
pub open spec fn vehicle_named(v: Vehicle, id: Seq<char>) -> bool {
    v.uuid@ == id || lower_is(v.name, lowercase(id)) || lower_is(v.display_name, lowercase(id))
}

/// Whether vehicle `v` is a ground vehicle that answers to `id` (UUID or name).
pub open spec fn ground_named(v: Vehicle, id: Seq<char>) -> bool {
    v.is_vehicle && !v.is_gravlev && (v.uuid@ == id || lower_is(v.name, lowercase(id)))
}

/// Whether vehicle `v` is a hovering vehicle that answers to `id` (UUID or name).
pub open spec fn gravlev_named(v: Vehicle, id: Seq<char>) -> bool {
    v.is_gravlev && (v.uuid@ == id || lower_is(v.name, lowercase(id)))
}

/// Which lookup a vehicle request makes.
pub open spec fn vehicle_matches(v: Vehicle, id: Seq<char>, kind: Option<Seq<char>>) -> bool {
    match kind {
        None => vehicle_named(v, id),
        Some(k) => if k == "ground"@ {
            ground_named(v, id)
        } else {
            gravlev_named(v, id)
        },
    }
}

/// The first vehicle that a request for `id` finds.
pub open spec fn vehicle_found(data: GameData, id: Seq<char>, kind: Option<Seq<char>>) -> Option<Vehicle> {
    match first_true(data.vehicles@.map_values(|v: Vehicle| vehicle_matches(v, id, kind))) {
        Some(i) => Some(data.vehicles@[i]),
        None => None,
    }
}

/// `r` answers a request for one vehicle: the single-record response of the
/// vehicle `found`; else, for a plain lookup, the not-found answer with
/// `message`, and for ground or hovering vehicles the bare not-found answer.
pub open spec fn vehicle_answer_ok(
    r: JsonValue,
    found: Option<Vehicle>,
    data: GameData,
    bare: bool,
    message: Seq<char>,
) -> bool {
    match found {
        Some(v) => single_ok(r, single_data(r)) && vehicle_response_ok(single_data(r), v, data),
        None => if bare {
            bare_not_found_ok(r)
        } else {
            not_found_ok(r, message)
        },
    }
}

/// The first vehicle that answers to `identifier` in the lookup `kind`.
fn find_vehicle<'a>(data: &'a GameData, identifier: &str, kind: Option<&str>) -> (r: Option<
    &'a Vehicle,
>)
    requires
        kind matches Some(k) ==> (k@ == "ground"@ || k@ == "gravlev"@),
    ensures
        crate::json::deref_opt(r) == vehicle_found(*data, identifier@, opt_str_chars(kind)),
{
    let id_lower = to_lowercase(identifier);
    let ghost kd = opt_str_chars(kind);
    let ghost ok = data.vehicles@.map_values(|v: Vehicle| vehicle_matches(v, identifier@, kd));
    let mut i: usize = 0;
    while i < data.vehicles.len()
        invariant
            i <= data.vehicles.len(),
            kd == opt_str_chars(kind),
            kind matches Some(k) ==> (k@ == "ground"@ || k@ == "gravlev"@),
            ok == data.vehicles@.map_values(|v: Vehicle| vehicle_matches(v, identifier@, kd)),
            id_lower@ == lowercase(identifier@),
            forall|j: int| 0 <= j < i ==> !ok[j],
        decreases data.vehicles.len() - i,
    {
        let v = &data.vehicles[i];
        let by_id = str_eq(v.uuid.as_str(), identifier) || opt_lower_is(&v.name, id_lower.as_str());
        let hit = match kind {
            None => by_id || opt_lower_is(&v.display_name, id_lower.as_str()),
            Some(k) => if str_eq(k, "ground") {
                v.is_vehicle && !v.is_gravlev && by_id
            } else {
                v.is_gravlev && by_id
            },
        };
        if hit {
            proof {
                assert(ok[i as int]);
                lemma_first_true(ok, i as int);
            }
            return Some(v);
        }
        i = i + 1;
    }
    proof {
        lemma_first_true(ok, i as int);
    }
    None
}

/// GET /vehicles/:identifier: the first vehicle with that UUID, name or
/// display name (ignoring case).
pub fn get_vehicle(data: &GameData, identifier: &str) -> (r: JsonValue)
    ensures
        vehicle_answer_ok(
            r,
            vehicle_found(*data, identifier@, None),
            *data,
            false,
            quoted("Vehicle "@, identifier@, " not found"@),
        ),
{
    match find_vehicle(data, identifier, None) {
        Some(v) => single_json(vehicle_to_response(v, data)),
        None => not_found(not_found_message("Vehicle ", identifier)),
    }
}

/// GET /vehicles/ground/:identifier: the first ground vehicle with that UUID
/// or name (ignoring case).
pub fn get_ground_vehicle(data: &GameData, identifier: &str) -> (r: JsonValue)
    ensures
        vehicle_answer_ok(
            r,
            vehicle_found(*data, identifier@, Some("ground"@)),
            *data,
            true,
            Seq::empty(),
        ),
{
    match find_vehicle(data, identifier, Some("ground")) {
        Some(v) => single_json(vehicle_to_response(v, data)),
        None => bare_not_found(),
    }
}

/// GET /vehicles/gravlev/:identifier: the first hovering vehicle with that
/// UUID or name (ignoring case).
pub fn get_gravlev_vehicle(data: &GameData, identifier: &str) -> (r: JsonValue)
    ensures
        vehicle_answer_ok(
            r,
            vehicle_found(*data, identifier@, Some("gravlev"@)),
            *data,
            true,
            Seq::empty(),
        ),
{
    match find_vehicle(data, identifier, Some("gravlev")) {
        Some(v) => single_json(vehicle_to_response(v, data)),
        None => bare_not_found(),
    }
}

/// The vehicle careers, one per vehicle.
pub open spec fn vehicle_careers(vs: Seq<Vehicle>) -> Seq<Option<Seq<char>>> {
    vs.map_values(|v: Vehicle| opt_chars(v.career))
}

/// The vehicle roles, one per vehicle.
pub open spec fn vehicle_roles(vs: Seq<Vehicle>) -> Seq<Option<Seq<char>>> {
    vs.map_values(|v: Vehicle| opt_chars(v.role))
}

/// GET /vehicles/filters: the careers and roles that vehicles have, each once.
pub fn vehicle_filters(data: &GameData) -> (r: JsonValue)
    ensures
        lists_ok(
            r,
            seq!["career"@, "role"@],
            seq![distinct(vehicle_careers(data.vehicles@)), distinct(vehicle_roles(data.vehicles@))],
        ),
{
    let mut cs: Vec<&Option<String>> = Vec::new();
    let mut rs: Vec<&Option<String>> = Vec::new();
    let mut i: usize = 0;
    while i < data.vehicles.len()
        invariant
            i <= data.vehicles.len(),
            cs.len() == i,
            rs.len() == i,
            opt_views(cs@) == vehicle_careers(data.vehicles@).take(i as int),
            opt_views(rs@) == vehicle_roles(data.vehicles@).take(i as int),
        decreases data.vehicles.len() - i,
    {
        let v = &data.vehicles[i];
        cs.push(&v.career);
        assert(opt_views(cs@) =~= vehicle_careers(data.vehicles@).take(i + 1));
        rs.push(&v.role);
        assert(opt_views(rs@) =~= vehicle_roles(data.vehicles@).take(i + 1));
        i = i + 1;
    }
    assert(vehicle_careers(data.vehicles@).take(i as int) =~= vehicle_careers(data.vehicles@));
    assert(vehicle_roles(data.vehicles@).take(i as int) =~= vehicle_roles(data.vehicles@));
    let a = distinct_strings(&cs);
    let b = distinct_strings(&rs);
    let mut m: Vec<(String, JsonValue)> = Vec::new();
    m.push(member("career", views_json(&a)));
    m.push(member("role", views_json(&b)));
    let r = JsonValue::Object(m);
    assert(lists_ok(
        r,
        seq!["career"@, "role"@],
        seq![distinct(vehicle_careers(data.vehicles@)), distinct(vehicle_roles(data.vehicles@))],
    ));
    r
}

} // verus!
