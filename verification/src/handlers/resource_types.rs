use vstd::prelude::*;

use crate::assoc::{assoc_get, assoc_lookup};
use crate::handlers::common::{
    has_member, lemma_selected_bounds, lemma_selected_step, member, opt_string_json,
    opt_string_json_exec, selected, str_json, views,
};
use crate::json::{JsonNumber, JsonValue};
use crate::loader::GameData;
use crate::models::blueprint::Blueprint;
use crate::models::resource_type::ResourceType;
use crate::query::{parse_query, QueryModel, QueryParams};
use crate::response::{page_end, page_shape, page_start, paginate, paginate_fits, PaginatedResponse};
use crate::sort::{f64_bits, number_as_f64};
use crate::text::str_eq;
use vstd::hash_map::StringHashMap;

verus! {

/// The UUIDs of the resource types that the blueprints `bps` require, in order.
pub open spec fn all_ingredients(bps: Seq<Blueprint>) -> Seq<Seq<char>>
    decreases bps.len(),
{
    if bps.len() == 0 {
        Seq::empty()
    } else {
        all_ingredients(bps.drop_last()) + views(bps.last().ingredient_resource_type_uuids@)
    }
}

/// The query asks for the used resource types only: its `used` filter is
/// `true` or `1`.
pub open spec fn only_used(p: QueryModel) -> bool {
    match assoc_get(p.filters, "used"@) {
        Some(u) => u == "true"@ || u == "1"@,
        None => false,
    }
}

/// The resource types listed for the query `p`: all of them, or, where the
/// query asks for the used ones only, those that some blueprint requires.
pub open spec fn resource_type_candidates(data: GameData, p: QueryModel) -> Seq<usize> {
    selected(
        Seq::new(
            data.resource_types@.len(),
            |i: int|
                !only_used(p) || all_ingredients(data.blueprints@).contains(
                    data.resource_types@[i].uuid@,
                ),
        ),
    )
}

/// The numbers `ns` as the `f64` values they were read as.
pub open spec fn f64_array_ok(v: JsonValue, ns: Seq<JsonNumber>) -> bool {
    match v {
        JsonValue::Array(a) => a@.len() == ns.len() && forall|i: int|
            0 <= i < ns.len() ==> #[trigger] a@[i] == JsonValue::Number(
                JsonNumber::Float(f64_bits(ns[i]) as u64),
            ),
        _ => false,
    }
}

/// `r` is the response for resource type `rt`.
pub open spec fn resource_type_response_ok(r: JsonValue, rt: ResourceType) -> bool {
    match r {
        JsonValue::Object(m) => {
            &&& m@.len() == 8
            &&& has_member(m@, 0, "uuid"@, str_json(rt.uuid))
            &&& has_member(m@, 1, "key"@, str_json(rt.key))
            &&& has_member(m@, 2, "name"@, str_json(rt.name))
            &&& has_member(m@, 3, "description"@, str_json(rt.description))
            &&& has_member(m@, 4, "refined_version_uuid"@, opt_string_json(rt.refined_version_uuid))
            &&& has_member(
                m@,
                5,
                "validate_default_cargo_box"@,
                JsonValue::Bool(rt.validate_default_cargo_box),
            )
            &&& has_member(
                m@,
                6,
                "has_default_cargo_containers"@,
                JsonValue::Bool(rt.has_default_cargo_containers),
            )
            &&& m@[7].0@ == "box_sizes_scu"@
            &&& f64_array_ok(m@[7].1, rt.box_sizes_scu@)
        },
        _ => false,
    }
}

/// `r` is the page of resource types for the query `p` with links under `base`.
pub open spec fn resource_types_page_ok(r: PaginatedResponse<JsonValue>, data: GameData, p: QueryModel, base: Seq<char>) -> bool {
    let sel = resource_type_candidates(data, p);
    &&& page_shape(r, sel.len() as int, p.page as int, p.per_page as int, base)
    &&& forall|i: int|
        0 <= i < r.data@.len() ==> resource_type_response_ok(
            #[trigger] r.data@[i],
            data.resource_types@[sel[page_start(p.page as int, p.per_page as int) + i] as int],
        )
}

/// The query's page can be cut out of any list of the resource types.
pub open spec fn resource_types_page_fits(data: GameData, p: QueryModel) -> bool {
    paginate_fits(p.page as int, p.per_page as int, data.resource_types@.len() as int)
}

/// The set of the UUIDs that the blueprints require.
fn used_uuids(bps: &Vec<Blueprint>) -> (r: StringHashMap<bool>)
    ensures
        forall|u: Seq<char>| #[trigger] r@.contains_key(u) <==> all_ingredients(bps@).contains(u),
{
    let mut m: StringHashMap<bool> = StringHashMap::new();
    let ghost mut acc: Seq<Seq<char>> = Seq::empty();
    let mut b: usize = 0;
    while b < bps.len()
        invariant
            b <= bps.len(),
            acc == all_ingredients(bps@.take(b as int)),
            forall|u: Seq<char>| #[trigger] m@.contains_key(u) <==> acc.contains(u),
        decreases bps.len() - b,
    {
        let us = &bps[b].ingredient_resource_type_uuids;
        let ghost base = acc;
        let mut k: usize = 0;
        while k < us.len()
            invariant
                k <= us.len(),
                acc == base + views(us@).take(k as int),
                forall|u: Seq<char>| #[trigger] m@.contains_key(u) <==> acc.contains(u),
            decreases us.len() - k,
        {
            let ghost before = acc;
            m.insert(us[k].clone(), true);
            proof {
                acc = acc.push(us@[k as int]@);
                assert(acc =~= base + views(us@).take(k + 1));
                assert forall|u: Seq<char>| #[trigger] m@.contains_key(u) <==> acc.contains(u) by {
                    if before.contains(u) {
                        let j = choose|j: int| 0 <= j < before.len() && before[j] == u;
                        assert(acc[j] == u);
                    }
                    if u == us@[k as int]@ {
                        assert(acc[acc.len() - 1] == u);
                    }
                    if acc.contains(u) {
                        let j = choose|j: int| 0 <= j < acc.len() && acc[j] == u;
                        if j < before.len() {
                            assert(before[j] == u);
                        }
                    }
                }
            }
            k = k + 1;
        }
        proof {
            assert(views(us@).take(k as int) =~= views(us@));
            assert(bps@.take(b + 1).drop_last() =~= bps@.take(b as int));
        }
        b = b + 1;
    }
    proof {
        assert(bps@.take(b as int) =~= bps@);
    }
    m
}

/// The response for a resource type.
pub fn resource_type_to_response(rt: &ResourceType) -> (r: JsonValue)
    ensures
        resource_type_response_ok(r, *rt),
{
    let mut sizes: Vec<JsonValue> = Vec::new();
    let mut i: usize = 0;
    while i < rt.box_sizes_scu.len()
        invariant
            i <= rt.box_sizes_scu.len(),
            sizes@.len() == i,
            forall|k: int|
                0 <= k < i ==> #[trigger] sizes@[k] == JsonValue::Number(
                    JsonNumber::Float(f64_bits(rt.box_sizes_scu@[k]) as u64),
                ),
        decreases rt.box_sizes_scu.len() - i,
    {
        sizes.push(JsonValue::Number(number_as_f64(rt.box_sizes_scu[i])));
        i = i + 1;
    }
    let mut m: Vec<(String, JsonValue)> = Vec::new();
    m.push(member("uuid", JsonValue::String(rt.uuid.clone())));
    m.push(member("key", JsonValue::String(rt.key.clone())));
    m.push(member("name", JsonValue::String(rt.name.clone())));
    m.push(member("description", JsonValue::String(rt.description.clone())));
    m.push(member("refined_version_uuid", opt_string_json_exec(&rt.refined_version_uuid)));
    m.push(member("validate_default_cargo_box", JsonValue::Bool(rt.validate_default_cargo_box)));
    m.push(member("has_default_cargo_containers", JsonValue::Bool(rt.has_default_cargo_containers)));
    m.push(member("box_sizes_scu", JsonValue::Array(sizes)));
    JsonValue::Object(m)
}

/// GET /resource-types: the page of resource types that the query asks
/// for; `filter[used]=true` (or `1`) keeps those that some blueprint requires.
pub fn list_resource_types(data: &GameData, query: &str, base_url: &str) -> (r: PaginatedResponse<
    JsonValue,
>)
    requires
        resource_types_page_fits(*data, parse_query(query@)),
    ensures
        resource_types_page_ok(r, *data, parse_query(query@), base_url@),
{
    let params = QueryParams::from_query(query);
    let only = match assoc_lookup(&params.filters, "used") {
        Some(u) => str_eq(u.as_str(), "true") || str_eq(u.as_str(), "1"),
        None => false,
    };
    let used = used_uuids(&data.blueprints);
    let ghost oks = Seq::new(
        data.resource_types@.len(),
        |i: int|
            !only_used(params@) || all_ingredients(data.blueprints@).contains(
                data.resource_types@[i].uuid@,
            ),
    );
    let mut sel: Vec<usize> = Vec::new();
    let mut i: usize = 0;
    while i < data.resource_types.len()
        invariant
            i <= data.resource_types.len(),
            only == only_used(params@),
            forall|u: Seq<char>| #[trigger] used@.contains_key(u) <==> all_ingredients(data.blueprints@).contains(u),
            oks == Seq::new(
                data.resource_types@.len(),
                |i: int|
                    !only_used(params@) || all_ingredients(data.blueprints@).contains(
                        data.resource_types@[i].uuid@,
                    ),
            ),
            sel@ == selected(oks.take(i as int)),
        decreases data.resource_types.len() - i,
    {
        proof {
            lemma_selected_step(oks, i as int);
        }
        if !only || used.contains_key(data.resource_types[i].uuid.as_str()) {
            sel.push(i);
        }
        i = i + 1;
    }
    proof {
        assert(oks.take(i as int) =~= oks);
        lemma_selected_bounds(oks);
    }
    let pg = paginate(sel.as_slice(), params.page, params.per_page, base_url);
    let ghost start = page_start(params.page as int, params.per_page as int);
    let mut out: Vec<JsonValue> = Vec::new();
    let mut k: usize = 0;
    while k < pg.data.len()
        invariant
            k <= pg.data.len(),
            out.len() == k,
            pg.data@.len() == page_end(params.page as int, params.per_page as int, sel@.len() as int)
                - start,
            forall|i: int| 0 <= i < pg.data@.len() ==> #[trigger] pg.data@[i] == sel@[start + i],
            forall|j: int| 0 <= j < sel.len() ==> #[trigger] sel@[j] < data.resource_types.len(),
            start == page_start(params.page as int, params.per_page as int),
            forall|i: int|
                0 <= i < k ==> resource_type_response_ok(
                    #[trigger] out@[i],
                    data.resource_types@[sel@[start + i] as int],
                ),
        decreases pg.data.len() - k,
    {
        let idx = pg.data[k];
        assert(idx == sel@[start + k]);
        out.push(resource_type_to_response(&data.resource_types[idx]));
        k = k + 1;
    }
    let r = PaginatedResponse { data: out, links: pg.links, meta: pg.meta };
    assert(page_shape(r, sel@.len() as int, params.page as int, params.per_page as int, base_url@));
    r
}

/// Whether blueprint `bp` requires the resource type `u`.
pub open spec fn requires_resource(bp: Blueprint, u: Seq<char>) -> bool {
    views(bp.ingredient_resource_type_uuids@).contains(u)
}

/// The blueprints that require the resource type `u`, in the order of the data.
pub open spec fn blueprints_requiring(data: GameData, u: Seq<char>) -> Seq<usize> {
    selected(Seq::new(data.blueprints@.len(), |i: int| requires_resource(data.blueprints@[i], u)))
}

/// `v` is the `{"uuid", "key", "output_name"}` summary of blueprint `bp`.
pub open spec fn blueprint_summary_ok(v: JsonValue, bp: Blueprint) -> bool {
    match v {
        JsonValue::Object(m) => m@.len() == 3 && has_member(m@, 0, "uuid"@, str_json(bp.uuid))
            && has_member(m@, 1, "key"@, str_json(bp.key)) && has_member(
            m@,
            2,
            "output_name"@,
            opt_string_json(bp.output_name),
        ),
        _ => false,
    }
}

/// Whether blueprint `bp` requires the resource type `u`.
fn requires_resource_exec(bp: &Blueprint, u: &str) -> (r: bool)
    ensures
        r == requires_resource(*bp, u@),
{
    let us = &bp.ingredient_resource_type_uuids;
    let mut k: usize = 0;
    while k < us.len()
        invariant
            k <= us.len(),
            us@ == bp.ingredient_resource_type_uuids@,
            forall|j: int| 0 <= j < k ==> us@[j]@ != u@,
        decreases us.len() - k,
    {
        if str_eq(us[k].as_str(), u) {
            assert(views(us@)[k as int] == u@);
            assert(views(us@).contains(u@));
            return true;
        }
        k = k + 1;
    }
    proof {
        if views(us@).contains(u@) {
            let j = choose|j: int| 0 <= j < views(us@).len() && views(us@)[j] == u@;
            assert(us@[j]@ == u@);
        }
    }
    false
}

/// GET /resource-types/:uuid/blueprints: the page of blueprints that
/// require the resource type, each as `{"uuid", "key", "output_name"}`.
pub fn resource_type_blueprints(data: &GameData, uuid: &str, query: &str, base_url: &str) -> (r:
    PaginatedResponse<JsonValue>)
    requires
        paginate_fits(
            parse_query(query@).page as int,
            parse_query(query@).per_page as int,
            data.blueprints@.len() as int,
        ),
    ensures
        ({
            let p = parse_query(query@);
            let sel = blueprints_requiring(*data, uuid@);
            &&& page_shape(r, sel.len() as int, p.page as int, p.per_page as int, base_url@)
            &&& forall|i: int|
                0 <= i < r.data@.len() ==> blueprint_summary_ok(
                    #[trigger] r.data@[i],
                    data.blueprints@[sel[page_start(p.page as int, p.per_page as int) + i] as int],
                )
        }),
{
    let params = QueryParams::from_query(query);
    let ghost oks = Seq::new(
        data.blueprints@.len(),
        |i: int| requires_resource(data.blueprints@[i], uuid@),
    );
    let mut sel: Vec<usize> = Vec::new();
    let mut i: usize = 0;
    while i < data.blueprints.len()
        invariant
            i <= data.blueprints.len(),
            oks == Seq::new(
                data.blueprints@.len(),
                |i: int| requires_resource(data.blueprints@[i], uuid@),
            ),
            sel@ == selected(oks.take(i as int)),
        decreases data.blueprints.len() - i,
    {
        proof {
            lemma_selected_step(oks, i as int);
        }
        if requires_resource_exec(&data.blueprints[i], uuid) {
            sel.push(i);
        }
        i = i + 1;
    }
    proof {
        assert(oks.take(i as int) =~= oks);
        lemma_selected_bounds(oks);
    }
    let pg = paginate(sel.as_slice(), params.page, params.per_page, base_url);
    let ghost start = page_start(params.page as int, params.per_page as int);
    let mut out: Vec<JsonValue> = Vec::new();
    let mut k: usize = 0;
    while k < pg.data.len()
        invariant
            k <= pg.data.len(),
            out.len() == k,
            pg.data@.len() == page_end(params.page as int, params.per_page as int, sel@.len() as int)
                - start,
            forall|i: int| 0 <= i < pg.data@.len() ==> #[trigger] pg.data@[i] == sel@[start + i],
            forall|j: int| 0 <= j < sel.len() ==> #[trigger] sel@[j] < data.blueprints.len(),
            start == page_start(params.page as int, params.per_page as int),
            forall|i: int|
                0 <= i < k ==> blueprint_summary_ok(
                    #[trigger] out@[i],
                    data.blueprints@[sel@[start + i] as int],
                ),
        decreases pg.data.len() - k,
    {
        let idx = pg.data[k];
        assert(idx == sel@[start + k]);
        let bp = &data.blueprints[idx];
        let mut m: Vec<(String, JsonValue)> = Vec::new();
        m.push(member("uuid", JsonValue::String(bp.uuid.clone())));
        m.push(member("key", JsonValue::String(bp.key.clone())));
        m.push(member("output_name", opt_string_json_exec(&bp.output_name)));
        out.push(JsonValue::Object(m));
        k = k + 1;
    }
    let r = PaginatedResponse { data: out, links: pg.links, meta: pg.meta };
    assert(page_shape(r, sel@.len() as int, params.page as int, params.per_page as int, base_url@));
    r
}

} // verus!
