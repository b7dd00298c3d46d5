use vstd::prelude::*;

use crate::assoc::{assoc_get, assoc_lookup};
use crate::handlers::common::{
    body_query, first_true, lemma_first_true, lemma_selected_bounds, lemma_selected_step,
    lower_equals, manufacturer_ref, manufacturer_ref_ok, not_found, not_found_message,
    not_found_ok, quoted, search_text, selected, single_data, single_json, single_ok,
    with_search,
};
use crate::json::JsonValue;
use crate::loader::GameData;
use crate::models::manufacturer::Manufacturer;
use crate::query::{matches_search, parse_query, QueryModel, QueryParams};
use crate::response::{page_end, page_shape, page_start, paginate, paginate_fits, PaginatedResponse};
use crate::text::{lowercase, seq_contains, str_eq, to_lowercase};

verus! {

/// Whether manufacturer `m` is listed for the query `p`: its name matches
/// the `name` filter (where `with_filter` and the query has one), and its
/// name or code matches the search text.
pub open spec fn manufacturer_passes(p: QueryModel, with_filter: bool, m: Manufacturer) -> bool {
    &&& with_filter ==> match assoc_get(p.filters, "name"@) {
        Some(f) => seq_contains(lowercase(m.name@), lowercase(f)),
        None => true,
    }
    &&& p.search matches Some(q) ==> seq_contains(lowercase(m.name@), lowercase(q)) || seq_contains(
        lowercase(m.code@),
        lowercase(q),
    )
}

/// The manufacturers listed for the query `p`, in the order of the data.
pub open spec fn manufacturer_candidates(data: GameData, p: QueryModel, with_filter: bool) -> Seq<usize> {
    selected(
        Seq::new(
            data.manufacturers@.len(),
            |i: int| manufacturer_passes(p, with_filter, data.manufacturers@[i]),
        ),
    )
}

/// `r` is the page of manufacturers for the query `p` with links under `base`.
pub open spec fn manufacturers_page_ok(
    r: PaginatedResponse<JsonValue>,
    data: GameData,
    p: QueryModel,
    with_filter: bool,
    base: Seq<char>,
) -> bool {
    let sel = manufacturer_candidates(data, p, with_filter);
    &&& page_shape(r, sel.len() as int, p.page as int, p.per_page as int, base)
    &&& forall|i: int|
        0 <= i < r.data@.len() ==> manufacturer_ref_ok(
            #[trigger] r.data@[i],
            Some(data.manufacturers@[sel[page_start(p.page as int, p.per_page as int) + i] as int]),
        )
}

/// The query's page can be cut out of any list of the manufacturers.
pub open spec fn manufacturers_page_fits(data: GameData, p: QueryModel) -> bool {
    paginate_fits(p.page as int, p.per_page as int, data.manufacturers@.len() as int)
}

/// The page of manufacturers for the query `params`.
fn manufacturers_page(data: &GameData, params: &QueryParams, with_filter: bool, base_url: &str) -> (r:
    PaginatedResponse<JsonValue>)
    requires
        manufacturers_page_fits(*data, params@),
    ensures
        manufacturers_page_ok(r, *data, params@, with_filter, base_url@),
{
    let ghost oks = Seq::new(
        data.manufacturers@.len(),
        |i: int| manufacturer_passes(params@, with_filter, data.manufacturers@[i]),
    );
    let name_filter = if with_filter {
        assoc_lookup(&params.filters, "name")
    } else {
        None
    };
    let mut sel: Vec<usize> = Vec::new();
    let mut i: usize = 0;
    while i < data.manufacturers.len()
        invariant
            i <= data.manufacturers.len(),
            oks == Seq::new(
                data.manufacturers@.len(),
                |i: int| manufacturer_passes(params@, with_filter, data.manufacturers@[i]),
            ),
            with_filter ==> match name_filter {
                Some(f) => assoc_get(params@.filters, "name"@) == Some(f@),
                None => assoc_get(params@.filters, "name"@) is None,
            },
            !with_filter ==> name_filter is None,
            sel@ == selected(oks.take(i as int)),
        decreases data.manufacturers.len() - i,
    {
        proof {
            lemma_selected_step(oks, i as int);
        }
        let m = &data.manufacturers[i];
        let by_name = match name_filter {
            Some(f) => matches_search(m.name.as_str(), f.as_str()),
            None => true,
        };
        let by_search = match &params.search {
            Some(q) => matches_search(m.name.as_str(), q.as_str()) || matches_search(
                m.code.as_str(),
                q.as_str(),
            ),
            None => true,
        };
        if by_name && by_search {
            sel.push(i);
        }
        i = i + 1;
    }
    proof {
        assert(oks.take(i as int) =~= oks);
        lemma_selected_bounds(oks);
    }
    let pg = paginate(sel.as_slice(), params.page, params.per_page, base_url);
    let ghost start = page_start(params.page as int, params.per_page as int);
    let mut out: Vec<JsonValue> = Vec::new();
    let mut k: usize = 0;
    while k < pg.data.len()
        invariant
            k <= pg.data.len(),
            out.len() == k,
            pg.data@.len() == page_end(params.page as int, params.per_page as int, sel@.len() as int)
                - start,
            forall|i: int| 0 <= i < pg.data@.len() ==> #[trigger] pg.data@[i] == sel@[start + i],
            forall|j: int| 0 <= j < sel.len() ==> #[trigger] sel@[j] < data.manufacturers.len(),
            start == page_start(params.page as int, params.per_page as int),
            forall|i: int|
                0 <= i < k ==> manufacturer_ref_ok(
                    #[trigger] out@[i],
                    Some(data.manufacturers@[sel@[start + i] as int]),
                ),
        decreases pg.data.len() - k,
    {
        let idx = pg.data[k];
        assert(idx == sel@[start + k]);
        out.push(manufacturer_ref(Some(&data.manufacturers[idx])));
        k = k + 1;
    }
    let r = PaginatedResponse { data: out, links: pg.links, meta: pg.meta };
    assert(page_shape(r, sel@.len() as int, params.page as int, params.per_page as int, base_url@));
    r
}

/// GET /manufacturers: the page of manufacturers that the query asks for.
pub fn list_manufacturers(data: &GameData, query: &str, base_url: &str) -> (r: PaginatedResponse<
    JsonValue,
>)
    requires
        manufacturers_page_fits(*data, parse_query(query@)),
    ensures
        manufacturers_page_ok(r, *data, parse_query(query@), true, base_url@),
{
    let params = QueryParams::from_query(query);
    manufacturers_page(data, &params, true, base_url)
}

/// POST /manufacturers/search: the page of manufacturers whose name or code
/// the search text of the request body (else of the query) matches; the
/// query's filters do not apply.
pub fn search_manufacturers(data: &GameData, query: &str, base_url: &str, body: &JsonValue) -> (r:
    PaginatedResponse<JsonValue>)
    requires
        manufacturers_page_fits(*data, parse_query(query@)),
    ensures
        manufacturers_page_ok(
            r,
            *data,
            with_search(parse_query(query@), body_query(*body)),
            false,
            base_url@,
        ),
{
    let mut params = QueryParams::from_query(query);
    match search_text(body) {
        Some(q) => {
            params.search = Some(q);
        },
        None => {},
    }
    assert(params@ == with_search(parse_query(query@), body_query(*body)));
    manufacturers_page(data, &params, false, base_url)
}

/// Whether manufacturer `m` answers to `id`: its UUID, or its name or code ignoring case.
pub open spec fn manufacturer_named(m: Manufacturer, id: Seq<char>) -> bool {
    m.uuid@ == id || lowercase(m.name@) == lowercase(id) || lowercase(m.code@) == lowercase(id)
}

/// The first manufacturer that answers to `id`.
pub open spec fn manufacturer_found(data: GameData, id: Seq<char>) -> Option<Manufacturer> {
    match first_true(data.manufacturers@.map_values(|m: Manufacturer| manufacturer_named(m, id))) {
        Some(i) => Some(data.manufacturers@[i]),
        None => None,
    }
}

/// GET /manufacturers/:identifier: the first manufacturer with that UUID,
/// name or code (ignoring case).
pub fn get_manufacturer(data: &GameData, identifier: &str) -> (r: JsonValue)
    ensures
        match manufacturer_found(*data, identifier@) {
            Some(m) => single_ok(r, single_data(r)) && manufacturer_ref_ok(single_data(r), Some(m)),
            None => not_found_ok(r, quoted("Manufacturer "@, identifier@, " not found"@)),
        },
{
    let id_lower = to_lowercase(identifier);
    let ghost ok = data.manufacturers@.map_values(|m: Manufacturer| manufacturer_named(m, identifier@));
    let mut i: usize = 0;
    while i < data.manufacturers.len()
        invariant
            i <= data.manufacturers.len(),
            ok == data.manufacturers@.map_values(
                |m: Manufacturer| manufacturer_named(m, identifier@),
            ),
            id_lower@ == lowercase(identifier@),
            forall|j: int| 0 <= j < i ==> !ok[j],
        decreases data.manufacturers.len() - i,
    {
        let m = &data.manufacturers[i];
        if str_eq(m.uuid.as_str(), identifier) || lower_equals(m.name.as_str(), id_lower.as_str())
            || lower_equals(m.code.as_str(), id_lower.as_str()) {
            proof {
                assert(ok[i as int]);
                lemma_first_true(ok, i as int);
            }
            return single_json(manufacturer_ref(Some(m)));
        }
        i = i + 1;
    }
    proof {
        lemma_first_true(ok, i as int);
    }
    not_found(not_found_message("Manufacturer ", identifier))
}

} // verus!
