use vstd::prelude::*;

use crate::num::{decimal_string, usize_to_decimal};
use crate::text::{copy_str, push_str};

verus! {

/// A page of results with navigation links and counts.
pub struct PaginatedResponse<T> {
    pub data: Vec<T>,
    pub links: PaginationLinks,
    pub meta: PaginationMeta,
}

/// Links to the first, last, previous and next pages.
pub struct PaginationLinks {
    pub first: String,
    pub last: String,
    pub prev: Option<String>,
    pub next: Option<String>,
}

/// Position and size of a page within the whole result.
pub struct PaginationMeta {
    pub current_page: usize,
    pub from: usize,
    pub last_page: usize,
    pub per_page: usize,
    pub to: usize,
    pub total: usize,
    pub processed_at: String,
}

/// A response that holds one record.
pub struct SingleResponse<T> {
    pub data: T,
    pub meta: SingleMeta,
}

/// When a single-record response was made.
pub struct SingleMeta {
    pub processed_at: String,
}

/// The number of the last page: at least 1, and enough pages of
/// `per_page` records to hold `total` of them.
pub open spec fn last_page_of(per_page: int, total: int) -> int {
    if total == 0 {
        1
    } else {
        (total + per_page - 1) / per_page
    }
}

/// The position (counted from 1) of the first record of page `page`, or 0 when there are none.
pub open spec fn from_of(page: int, per_page: int, total: int) -> int {
    if total == 0 {
        0
    } else {
        (page - 1) * per_page + 1
    }
}

/// The position of the last record of page `page` (the first plus
/// `per_page - 1`, at most `total`).
pub open spec fn to_of(page: int, per_page: int, total: int) -> int {
    let t = from_of(page, per_page, total) + per_page - 1;
    if t < total {
        t
    } else {
        total
    }
}

/// The link to page `page` of `base`: `{base}?page[number]={page}&page[size]={per_page}`.
pub open spec fn page_link(base: Seq<char>, page: nat, per_page: nat) -> Seq<char> {
    base + "?page[number]="@ + decimal_string(page) + "&page[size]="@ + decimal_string(per_page)
}

/// Arithmetic of `PaginationMeta::new` and `PaginationLinks::new` stays within `usize`.
pub open spec fn pagination_fits(page: int, per_page: int, total: int) -> bool {
    &&& per_page >= 1
    &&& total > 0 ==> page >= 1
    &&& total + per_page <= usize::MAX
    &&& total > 0 ==> (page - 1) * per_page + per_page <= usize::MAX
}

/// Calls `chrono::Utc::now().to_rfc3339()`: the current time as an RFC 3339
/// string. The result depends on the clock, so nothing is stated of it.
#[verifier::external_body]
fn now_rfc3339() -> String {
    chrono::Utc::now().to_rfc3339()
}

/// `{base}?page[number]={page}&page[size]={per_page}`.
fn make_page_link(base: &str, page: usize, per_page: usize) -> (r: String)
    ensures
        r@ == page_link(base@, page as nat, per_page as nat),
{
    let mut s = copy_str(base);
    push_str(&mut s, "?page[number]=");
    let p = usize_to_decimal(page);
    push_str(&mut s, p.as_str());
    push_str(&mut s, "&page[size]=");
    let q = usize_to_decimal(per_page);
    push_str(&mut s, q.as_str());
    s
}

/// The number of the last page, computed within `usize`.
fn last_page_exec(per_page: usize, total: usize) -> (r: usize)
    requires
        total > 0 ==> per_page >= 1 && total + per_page <= usize::MAX,
    ensures
        r == last_page_of(per_page as int, total as int),
        1 <= r,
        total > 0 ==> r <= total,
{
    if total == 0 {
        1
    } else {
        let r = (total + per_page - 1) / per_page;
        proof {
            assert(1 <= (total + per_page - 1) / (per_page as int) <= total) by (nonlinear_arith)
                requires
                    per_page >= 1,
                    total >= 1,
            ;
        }
        r
    }
}

impl PaginationMeta {
    /// Counts for page `page` of `total` records shown `per_page` at a time,
    /// stamped with the current time.
    pub fn new(page: usize, per_page: usize, total: usize) -> (r: Self)
        requires
            pagination_fits(page as int, per_page as int, total as int),
        ensures
            r.current_page == page,
            r.per_page == per_page,
            r.total == total,
            r.last_page == last_page_of(per_page as int, total as int),
            r.from == from_of(page as int, per_page as int, total as int),
            r.to == to_of(page as int, per_page as int, total as int),
    {
        Self::at(page, per_page, total, now_rfc3339())
    }

    /// Counts for page `page` of `total` records shown `per_page` at a time,
    /// stamped with the time `processed_at`.
    pub fn at(page: usize, per_page: usize, total: usize, processed_at: String) -> (r: Self)
        requires
            pagination_fits(page as int, per_page as int, total as int),
        ensures
            r.current_page == page,
            r.per_page == per_page,
            r.total == total,
            r.last_page == last_page_of(per_page as int, total as int),
            r.from == from_of(page as int, per_page as int, total as int),
            r.to == to_of(page as int, per_page as int, total as int),
            r.processed_at == processed_at,
    {
        let last_page = last_page_exec(per_page, total);
        let from = if total == 0 {
            0
        } else {
            proof {
                assert((page - 1) * per_page + 1 <= usize::MAX) by (nonlinear_arith)
                    requires
                        (page - 1) * per_page + per_page <= usize::MAX,
                        per_page >= 1,
                ;
                assert((page - 1) * per_page >= 0) by (nonlinear_arith)
                    requires
                        page >= 1,
                ;
            }
            (page - 1) * per_page + 1
        };
        proof {
            if total > 0 {
                assert((page - 1) * per_page + 1 + per_page - 1 <= usize::MAX);
            }
        }
        let t = from + (per_page - 1);
        let to = if t < total {
            t
        } else {
            total
        };
        PaginationMeta {
            current_page: page,
            from,
            last_page,
            per_page,
            to,
            total,
            processed_at,
        }
    }
}

impl PaginationLinks {
    /// Links for page `page` of `total` records shown `per_page` at a time,
    /// relative to the path `base_url`.
    pub fn new(base_url: &str, page: usize, per_page: usize, total: usize) -> (r: Self)
        requires
            total > 0 ==> per_page >= 1 && total + per_page <= usize::MAX,
        ensures
            r.first@ == page_link(base_url@, 1, per_page as nat),
            r.last@ == page_link(
                base_url@,
                last_page_of(per_page as int, total as int) as nat,
                per_page as nat,
            ),
            r.prev.is_some() == (page > 1),
            page > 1 ==> r.prev->0@ == page_link(base_url@, (page - 1) as nat, per_page as nat),
            r.next.is_some() == (page < last_page_of(per_page as int, total as int)),
            page < last_page_of(per_page as int, total as int) ==> r.next->0@ == page_link(
                base_url@,
                (page + 1) as nat,
                per_page as nat,
            ),
    {
        let last_page = last_page_exec(per_page, total);
        let first = make_page_link(base_url, 1, per_page);
        let last = make_page_link(base_url, last_page, per_page);
        let prev = if page > 1 {
            Some(make_page_link(base_url, page - 1, per_page))
        } else {
            None
        };
        let next = if page < last_page {
            Some(make_page_link(base_url, page + 1, per_page))
        } else {
            None
        };
        PaginationLinks { first, last, prev, next }
    }
}

/// `max(page, 1)`: pages are counted from 1.
pub open spec fn effective_page(page: int) -> int {
    if page < 1 {
        1
    } else {
        page
    }
}

/// `per_page` held between 1 and 200.
pub open spec fn effective_per_page(per_page: int) -> int {
    if per_page < 1 {
        1
    } else if per_page > 200 {
        200
    } else {
        per_page
    }
}

/// The index of the first record of the page.
pub open spec fn page_start(page: int, per_page: int) -> int {
    (effective_page(page) - 1) * effective_per_page(per_page)
}

/// The index just past the last record of the page.
pub open spec fn page_end(page: int, per_page: int, total: int) -> int {
    let s = page_start(page, per_page);
    if s >= total {
        s
    } else if s + effective_per_page(per_page) < total {
        s + effective_per_page(per_page)
    } else {
        total
    }
}

/// `paginate` can compute its page within `usize`.
pub open spec fn paginate_fits(page: int, per_page: int, total: int) -> bool {
    &&& total + effective_per_page(per_page) <= usize::MAX
    &&& page_start(page, per_page) + effective_per_page(per_page) <= usize::MAX
}

/// Cuts page `page` (counted from 1; at least 1) of `per_page` records
/// (between 1 and 200) out of `items`, with links relative to `base_url`.
pub fn paginate<T: Clone>(items: &[T], page: usize, per_page: usize, base_url: &str) -> (r:
    PaginatedResponse<T>)
    requires
        paginate_fits(page as int, per_page as int, items@.len() as int),
    ensures
        r.data@.len() == page_end(page as int, per_page as int, items@.len() as int) - page_start(
            page as int,
            per_page as int,
        ),
        forall|i: int|
            0 <= i < r.data@.len() ==> cloned::<T>(
                items@[page_start(page as int, per_page as int) + i],
                #[trigger] r.data@[i],
            ),
        r.meta.current_page == effective_page(page as int),
        r.meta.per_page == effective_per_page(per_page as int),
        r.meta.total == items@.len(),
        r.meta.last_page == last_page_of(effective_per_page(per_page as int), items@.len() as int),
        r.meta.from == from_of(
            effective_page(page as int),
            effective_per_page(per_page as int),
            items@.len() as int,
        ),
        r.meta.to == to_of(
            effective_page(page as int),
            effective_per_page(per_page as int),
            items@.len() as int,
        ),
        r.links.first@ == page_link(base_url@, 1, effective_per_page(per_page as int) as nat),
        r.links.last@ == page_link(
            base_url@,
            last_page_of(effective_per_page(per_page as int), items@.len() as int) as nat,
            effective_per_page(per_page as int) as nat,
        ),
        r.links.prev.is_some() == (effective_page(page as int) > 1),
        r.links.prev.is_some() ==> r.links.prev->0@ == page_link(
            base_url@,
            (effective_page(page as int) - 1) as nat,
            effective_per_page(per_page as int) as nat,
        ),
        r.links.next.is_some() == (effective_page(page as int) < last_page_of(
            effective_per_page(per_page as int),
            items@.len() as int,
        )),
        r.links.next.is_some() ==> r.links.next->0@ == page_link(
            base_url@,
            (effective_page(page as int) + 1) as nat,
            effective_per_page(per_page as int) as nat,
        ),
{
    let total = items.len();
    let page = if page < 1 {
        1
    } else {
        page
    };
    let per_page = if per_page < 1 {
        1
    } else if per_page > 200 {
        200
    } else {
        per_page
    };
    proof {
        assert((page - 1) * per_page >= 0) by (nonlinear_arith)
            requires
                page >= 1,
        ;
    }
    let start = (page - 1) * per_page;
    let mut data: Vec<T> = Vec::new();
    if start < total {
        let end = if start + per_page < total {
            start + per_page
        } else {
            total
        };
        let mut i = start;
        while i < end
            invariant
                start <= i <= end <= total == items@.len(),
                data@.len() == i - start,
                forall|k: int|
                    0 <= k < data@.len() ==> cloned::<T>(items@[start + k], #[trigger] data@[k]),
            decreases end - i,
        {
            data.push(items[i].clone());
            i += 1;
        }
    }
    let links = PaginationLinks::new(base_url, page, per_page, total);
    let meta = PaginationMeta::new(page, per_page, total);
    PaginatedResponse { data, links, meta }
}

/// Wraps one record, stamped with the current time.
pub fn single<T>(data: T) -> (r: SingleResponse<T>)
    ensures
        r.data == data,
{
    single_at(data, now_rfc3339())
}

/// Wraps one record, stamped with the time `processed_at`.
pub fn single_at<T>(data: T, processed_at: String) -> (r: SingleResponse<T>)
    ensures
        r.data == data,
        r.meta.processed_at == processed_at,
{
    SingleResponse { data, meta: SingleMeta { processed_at } }
}

/// `r` is page `page` of a list of `total` records with links under `base`:
/// the length of its data, its meta and its links are those that
/// `paginate` gives.
pub open spec fn page_shape<T>(
    r: PaginatedResponse<T>,
    total: int,
    page: int,
    per_page: int,
    base: Seq<char>,
) -> bool {
    let pg = effective_page(page);
    let pp = effective_per_page(per_page);
    let last = last_page_of(pp, total);
    &&& r.data@.len() == page_end(page, per_page, total) - page_start(page, per_page)
    &&& r.meta.current_page == pg
    &&& r.meta.per_page == pp
    &&& r.meta.total == total
    &&& r.meta.last_page == last
    &&& r.meta.from == from_of(pg, pp, total)
    &&& r.meta.to == to_of(pg, pp, total)
    &&& r.links.first@ == page_link(base, 1, pp as nat)
    &&& r.links.last@ == page_link(base, last as nat, pp as nat)
    &&& r.links.prev.is_some() == (pg > 1)
    &&& r.links.prev.is_some() ==> r.links.prev->0@ == page_link(base, (pg - 1) as nat, pp as nat)
    &&& r.links.next.is_some() == (pg < last)
    &&& r.links.next.is_some() ==> r.links.next->0@ == page_link(base, (pg + 1) as nat, pp as nat)
}

} // verus!
