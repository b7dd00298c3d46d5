use vstd::prelude::*;

use crate::handlers::common::{
    has_member, indexed, is_truthy, lemma_selected_bounds, lemma_selected_step, lookup, member,
    not_found, not_found_message, not_found_ok, opt_i64_json, opt_i64_json_exec, opt_search_in,
    opt_string_json, opt_string_json_exec, quoted, search_in, selected, single_data, single_json,
    single_ok, str_json, truthy,
};
use crate::json::{json_same, JsonNumber, JsonValue};
use crate::loader::GameData;
use crate::models::blueprint::Blueprint;
use crate::query::{matches_search, parse_query, QueryModel, QueryParams};
use crate::response::{page_end, page_shape, page_start, paginate, paginate_fits, PaginatedResponse};
use crate::text::{
    chars_of, lowercase, seq_contains, split_char, split_ranges, str_contains, str_eq,
    string_from_range, to_lowercase, trim, trim_str,
};

verus! {

/// Whether one of the comma-separated pieces of `value`, trimmed, is `u`.
pub open spec fn listed_in(value: Seq<char>, u: Seq<char>) -> bool {
    exists|k: int|
        0 <= k < split_char(value, ',').len() && trim(#[trigger] split_char(value, ',')[k]) == u
}

/// Whether one of the resource types that blueprint `bp` requires matches
/// `value` by name or key.
pub open spec fn ingredient_matches(data: GameData, bp: Blueprint, value: Seq<char>) -> bool {
    exists|k: int|
        0 <= k < bp.ingredient_resource_type_uuids@.len() && (match #[trigger] indexed(
            data.resource_types_by_uuid@,
            data.resource_types@,
            bp.ingredient_resource_type_uuids@[k]@,
        ) {
            Some(rt) => seq_contains(lowercase(rt.name@), lowercase(value)) || seq_contains(
                lowercase(rt.key@),
                lowercase(value),
            ),
            None => false,
        })
}

/// Whether blueprint `bp` passes the filter `filter[key]=value`; an unknown
/// key passes every blueprint.
pub open spec fn blueprint_filter_ok(data: GameData, bp: Blueprint, key: Seq<char>, value: Seq<char>) -> bool {
    let vl = lowercase(value);
    if key == "query"@ {
        seq_contains(lowercase(bp.key@), vl) || search_in(bp.output_name, value)
    } else if key == "output.uuid"@ {
        match bp.output_item_uuid {
            Some(u) => listed_in(value, u@),
            None => false,
        }
    } else if key == "output.name"@ {
        search_in(bp.output_name, value)
    } else if key == "output.class"@ {
        search_in(bp.output_class, value)
    } else if key == "default"@ {
        bp.is_available_by_default == truthy(vl)
    } else if key == "ingredient"@ {
        ingredient_matches(data, bp, value)
    } else {
        true
    }
}

/// Whether blueprint `bp` is listed for the query `p`: it passes every
/// filter, and the search text matches its key or output name.
pub open spec fn blueprint_passes(data: GameData, p: QueryModel, bp: Blueprint) -> bool {
    &&& forall|k: int|
        0 <= k < p.filters.len() ==> #[trigger] blueprint_filter_ok(
            data,
            bp,
            p.filters[k].0,
            p.filters[k].1,
        )
    &&& (p.search matches Some(q) ==> seq_contains(lowercase(bp.key@), lowercase(q)) || search_in(
        bp.output_name,
        q,
    ))
}

/// The blueprints listed for the query `p`, in the order of the data.
pub open spec fn blueprint_candidates(data: GameData, p: QueryModel) -> Seq<usize> {
    selected(Seq::new(data.blueprints@.len(), |i: int| blueprint_passes(data, p, data.blueprints@[i])))
}

/// `r` is the response for blueprint `bp`.
pub open spec fn blueprint_response_ok(r: JsonValue, bp: Blueprint) -> bool {
    match r {
        JsonValue::Object(m) => {
            &&& m@.len() == 10
            &&& has_member(m@, 0, "uuid"@, str_json(bp.uuid))
            &&& has_member(m@, 1, "key"@, str_json(bp.key))
            &&& has_member(m@, 2, "category_uuid"@, str_json(bp.category_uuid))
            &&& has_member(m@, 3, "output_item_uuid"@, opt_string_json(bp.output_item_uuid))
            &&& has_member(m@, 4, "output_name"@, opt_string_json(bp.output_name))
            &&& has_member(m@, 5, "output_class"@, opt_string_json(bp.output_class))
            &&& has_member(m@, 6, "craft_time_seconds"@, opt_i64_json(bp.craft_time_seconds))
            &&& has_member(m@, 7, "is_available_by_default"@, JsonValue::Bool(bp.is_available_by_default))
            &&& has_member(
                m@,
                8,
                "ingredient_count"@,
                JsonValue::Number(JsonNumber::PosInt(bp.ingredient_resource_type_uuids@.len() as u64)),
            )
            &&& m@[9].0@ == "data"@
            &&& json_same(bp.data, m@[9].1)
        },
        _ => false,
    }
}

/// `r` is the page of blueprints for the query `p` with links under `base`.
pub open spec fn blueprints_page_ok(r: PaginatedResponse<JsonValue>, data: GameData, p: QueryModel, base: Seq<char>) -> bool {
    let sel = blueprint_candidates(data, p);
    &&& page_shape(r, sel.len() as int, p.page as int, p.per_page as int, base)
    &&& forall|i: int|
        0 <= i < r.data@.len() ==> blueprint_response_ok(
            #[trigger] r.data@[i],
            data.blueprints@[sel[page_start(p.page as int, p.per_page as int) + i] as int],
        )
}

/// The query's page can be cut out of any list of the blueprints.
pub open spec fn blueprints_page_fits(data: GameData, p: QueryModel) -> bool {
    paginate_fits(p.page as int, p.per_page as int, data.blueprints@.len() as int)
}

/// Whether one of the comma-separated pieces of `value`, trimmed, is `u`.
fn listed_in_exec(value: &str, u: &str) -> (r: bool)
    ensures
        r == listed_in(value@, u@),
{
    let v = chars_of(value);
    let ranges = split_ranges(&v, ',');
    let ghost ps = split_char(value@, ',');
    let mut k: usize = 0;
    while k < ranges.len()
        invariant
            v@ == value@,
            ps == split_char(value@, ','),
            crate::text::pieces(v@, ranges@) == ps,
            forall|j: int| 0 <= j < ranges.len() ==> (#[trigger] ranges@[j]).0 <= ranges@[j].1 <= v.len(),
            k <= ranges.len(),
            forall|j: int| 0 <= j < k ==> trim(#[trigger] ps[j]) != u@,
        decreases ranges.len() - k,
    {
        let (lo, hi) = ranges[k];
        let piece = string_from_range(&v, lo, hi);
        assert(piece@ == ps[k as int]);
        let t = trim_str(piece.as_str());
        if str_eq(t.as_str(), u) {
            return true;
        }
        k = k + 1;
    }
    false
}

/// Whether one of the resource types that blueprint `bp` requires matches `value`.
fn ingredient_matches_exec(data: &GameData, bp: &Blueprint, value: &str) -> (r: bool)
    ensures
        r == ingredient_matches(*data, *bp, value@),
{
    let mut k: usize = 0;
    while k < bp.ingredient_resource_type_uuids.len()
        invariant
            k <= bp.ingredient_resource_type_uuids.len(),
            forall|j: int|
                0 <= j < k ==> match #[trigger] indexed(
                    data.resource_types_by_uuid@,
                    data.resource_types@,
                    bp.ingredient_resource_type_uuids@[j]@,
                ) {
                    Some(rt) => !(seq_contains(lowercase(rt.name@), lowercase(value@))
                        || seq_contains(lowercase(rt.key@), lowercase(value@))),
                    None => true,
                },
        decreases bp.ingredient_resource_type_uuids.len() - k,
    {
        let u = &bp.ingredient_resource_type_uuids[k];
        match lookup(&data.resource_types_by_uuid, &data.resource_types, u.as_str()) {
            Some(rt) => {
                if matches_search(rt.name.as_str(), value) || matches_search(rt.key.as_str(), value) {
                    return true;
                }
            },
            None => {},
        }
        k = k + 1;
    }
    false
}

/// Whether blueprint `bp` passes the filter `filter[key]=value`; `vl` is `value` lowercased.
fn blueprint_filter(data: &GameData, bp: &Blueprint, key: &str, value: &str, vl: &str) -> (r: bool)
    requires
        vl@ == lowercase(value@),
    ensures
        r == blueprint_filter_ok(*data, *bp, key@, value@),
{
    if str_eq(key, "query") {
        let kl = to_lowercase(bp.key.as_str());
        str_contains(kl.as_str(), vl) || opt_search_in(&bp.output_name, value)
    } else if str_eq(key, "output.uuid") {
        match &bp.output_item_uuid {
            Some(u) => listed_in_exec(value, u.as_str()),
            None => false,
        }
    } else if str_eq(key, "output.name") {
        opt_search_in(&bp.output_name, value)
    } else if str_eq(key, "output.class") {
        opt_search_in(&bp.output_class, value)
    } else if str_eq(key, "default") {
        bp.is_available_by_default == is_truthy(vl)
    } else if str_eq(key, "ingredient") {
        ingredient_matches_exec(data, bp, value)
    } else {
        true
    }
}

/// Whether blueprint `bp` is listed for the query `params`.
fn blueprint_passes_exec(data: &GameData, params: &QueryParams, lows: &Vec<String>, bp: &Blueprint) -> (r: bool)
    requires
        lows.len() == params.filters.len(),
        forall|k: int| 0 <= k < lows.len() ==> (#[trigger] lows@[k])@ == lowercase(params.filters@[k].1@),
    ensures
        r == blueprint_passes(*data, params@, *bp),
{
    let mut k: usize = 0;
    while k < params.filters.len()
        invariant
            k <= params.filters.len(),
            lows.len() == params.filters.len(),
            forall|j: int| 0 <= j < lows.len() ==> (#[trigger] lows@[j])@ == lowercase(params.filters@[j].1@),
            forall|j: int|
                0 <= j < k ==> #[trigger] blueprint_filter_ok(
                    *data,
                    *bp,
                    params@.filters[j].0,
                    params@.filters[j].1,
                ),
        decreases params.filters.len() - k,
    {
        let ok = blueprint_filter(
            data,
            bp,
            params.filters[k].0.as_str(),
            params.filters[k].1.as_str(),
            lows[k].as_str(),
        );
        if !ok {
            assert(!blueprint_filter_ok(*data, *bp, params@.filters[k as int].0, params@.filters[k as int].1));
            return false;
        }
        k = k + 1;
    }
    match &params.search {
        Some(q) => {
            let kl = to_lowercase(bp.key.as_str());
            let ql = to_lowercase(q.as_str());
            str_contains(kl.as_str(), ql.as_str()) || opt_search_in(&bp.output_name, q.as_str())
        },
        None => true,
    }
}

/// The blueprints listed for the query `params`: those that pass every
/// filter and the search, in the order of the data.
pub fn filter_blueprints(data: &GameData, params: &QueryParams) -> (r: Vec<usize>)
    ensures
        r@ == blueprint_candidates(*data, params@),
        forall|k: int| 0 <= k < r.len() ==> #[trigger] r@[k] < data.blueprints.len(),
        r.len() <= data.blueprints.len(),
{
    let ghost oks = Seq::new(
        data.blueprints@.len(),
        |i: int| blueprint_passes(*data, params@, data.blueprints@[i]),
    );
    let mut lows: Vec<String> = Vec::new();
    let mut k: usize = 0;
    while k < params.filters.len()
        invariant
            k <= params.filters.len(),
            lows.len() == k,
            forall|j: int| 0 <= j < k ==> (#[trigger] lows@[j])@ == lowercase(params.filters@[j].1@),
        decreases params.filters.len() - k,
    {
        lows.push(to_lowercase(params.filters[k].1.as_str()));
        k = k + 1;
    }
    let mut cand: Vec<usize> = Vec::new();
    let mut i: usize = 0;
    while i < data.blueprints.len()
        invariant
            i <= data.blueprints.len(),
            oks == Seq::new(
                data.blueprints@.len(),
                |i: int| blueprint_passes(*data, params@, data.blueprints@[i]),
            ),
            lows.len() == params.filters.len(),
            forall|k: int| 0 <= k < lows.len() ==> (#[trigger] lows@[k])@ == lowercase(params.filters@[k].1@),
            cand@ == selected(oks.take(i as int)),
        decreases data.blueprints.len() - i,
    {
        proof {
            lemma_selected_step(oks, i as int);
        }
        if blueprint_passes_exec(data, params, &lows, &data.blueprints[i]) {
            cand.push(i);
        }
        i = i + 1;
    }
    proof {
        assert(oks.take(i as int) =~= oks);
        lemma_selected_bounds(oks);
    }
    cand
}

/// The response for a blueprint.
pub fn blueprint_to_response(bp: &Blueprint) -> (r: JsonValue)
    ensures
        blueprint_response_ok(r, *bp),
{
    let mut m: Vec<(String, JsonValue)> = Vec::new();
    m.push(member("uuid", JsonValue::String(bp.uuid.clone())));
    m.push(member("key", JsonValue::String(bp.key.clone())));
    m.push(member("category_uuid", JsonValue::String(bp.category_uuid.clone())));
    m.push(member("output_item_uuid", opt_string_json_exec(&bp.output_item_uuid)));
    m.push(member("output_name", opt_string_json_exec(&bp.output_name)));
    m.push(member("output_class", opt_string_json_exec(&bp.output_class)));
    m.push(member("craft_time_seconds", opt_i64_json_exec(bp.craft_time_seconds)));
    m.push(member("is_available_by_default", JsonValue::Bool(bp.is_available_by_default)));
    m.push(
        member(
            "ingredient_count",
            JsonValue::Number(JsonNumber::PosInt(bp.ingredient_resource_type_uuids.len() as u64)),
        ),
    );
    m.push(member("data", bp.data.deep_copy()));
    JsonValue::Object(m)
}

/// GET /blueprints: the page of blueprints that the query asks for.
pub fn list_blueprints(data: &GameData, query: &str, base_url: &str) -> (r: PaginatedResponse<
    JsonValue,
>)
    requires
        blueprints_page_fits(*data, parse_query(query@)),
    ensures
        blueprints_page_ok(r, *data, parse_query(query@), base_url@),
{
    let params = QueryParams::from_query(query);
    let sel = filter_blueprints(data, &params);
    let pg = paginate(sel.as_slice(), params.page, params.per_page, base_url);
    let ghost start = page_start(params.page as int, params.per_page as int);
    let mut out: Vec<JsonValue> = Vec::new();
    let mut k: usize = 0;
    while k < pg.data.len()
        invariant
            k <= pg.data.len(),
            out.len() == k,
            pg.data@.len() == page_end(params.page as int, params.per_page as int, sel@.len() as int)
                - start,
            forall|i: int| 0 <= i < pg.data@.len() ==> #[trigger] pg.data@[i] == sel@[start + i],
            forall|j: int| 0 <= j < sel.len() ==> #[trigger] sel@[j] < data.blueprints.len(),
            start == page_start(params.page as int, params.per_page as int),
            forall|i: int|
                0 <= i < k ==> blueprint_response_ok(
                    #[trigger] out@[i],
                    data.blueprints@[sel@[start + i] as int],
                ),
        decreases pg.data.len() - k,
    {
        let idx = pg.data[k];
        assert(idx == sel@[start + k]);
        out.push(blueprint_to_response(&data.blueprints[idx]));
        k = k + 1;
    }
    let r = PaginatedResponse { data: out, links: pg.links, meta: pg.meta };
    assert(page_shape(r, sel@.len() as int, params.page as int, params.per_page as int, base_url@));
    r
}

/// GET /blueprints/:uuid: the blueprint with that UUID.
pub fn get_blueprint(data: &GameData, uuid: &str) -> (r: JsonValue)
    ensures
        match indexed(data.blueprints_by_uuid@, data.blueprints@, uuid@) {
            Some(bp) => single_ok(r, single_data(r)) && blueprint_response_ok(single_data(r), bp),
            None => not_found_ok(r, quoted("Blueprint "@, uuid@, " not found"@)),
        },
{
    match lookup(&data.blueprints_by_uuid, &data.blueprints, uuid) {
        Some(bp) => single_json(blueprint_to_response(bp)),
        None => not_found(not_found_message("Blueprint ", uuid)),
    }
}

} // verus!
