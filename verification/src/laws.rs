use vstd::prelude::*;

use crate::assoc::{assoc_get, keys_unique, lemma_assoc_insert_other, lemma_assoc_insert_unique};
use crate::query::{
    apply_pair, apply_pairs, default_query, hex_spec, pair_key, pair_value, parse_query, url_decode,
    QueryModel,
};
use crate::num::parse_usize_spec;
use crate::response::{
    effective_page, effective_per_page, from_of, last_page_of, page_end, page_start, to_of,
};
use crate::text::{lowercase, seq_contains, split_char};
use crate::handlers::common::{distinct, indexed, selected};
use crate::handlers::items::{item_candidates, item_filter_ok, item_passes, item_selection};
use crate::handlers::items::{item_at, item_index};
use crate::hierarchy::{is_solar_system, system_of};
use crate::loader::{
    index_ok, kept_manufacturers, last_index, lemma_last_index, manufacturer_list, unknown_uuid,
    GameData,
};

verus! {

/// The page and page size that a query can hold.
pub open spec fn page_fields_ok(m: QueryModel) -> bool {
    m.page >= 1 && 1 <= m.per_page <= 200
}

proof fn lemma_apply_pairs_bounds(m: QueryModel, pairs: Seq<Seq<char>>)
    requires
        page_fields_ok(m),
        keys_unique(m.filters),
    ensures
        page_fields_ok(apply_pairs(m, pairs)),
        keys_unique(apply_pairs(m, pairs).filters),
    decreases pairs.len(),
{
    if pairs.len() > 0 {
        let m2 = apply_pair(m, pairs[0]);
        if m2.filters != m.filters {
            let key = crate::query::pair_key(pairs[0]);
            lemma_assoc_insert_unique(
                m.filters,
                crate::query::filter_field(key),
                crate::query::pair_value(pairs[0]),
            );
        }
        lemma_apply_pairs_bounds(m2, pairs.drop_first());
    }
}

/// Whatever the query string, the page number is at least 1, the page size
/// is between 1 and 200, and each filter field occurs once.
pub proof fn law_query_bounds(q: Seq<char>)
    ensures
        parse_query(q).page >= 1,
        1 <= parse_query(q).per_page <= 200,
        keys_unique(parse_query(q).filters),
{
    assert(keys_unique(default_query().filters));
    lemma_apply_pairs_bounds(default_query(), split_char(q, '&'));
}

/// URL decoding leaves bytes other than `%` and `+` as the characters with
/// those codes.
pub proof fn law_url_decode_plain(b: Seq<u8>)
    requires
        forall|i: int| 0 <= i < b.len() ==> b[i] != 37 && b[i] != 43,
    ensures
        url_decode(b) == b.map_values(|x: u8| x as char),
    decreases b.len(),
{
    if b.len() > 0 {
        law_url_decode_plain(b.drop_first());
        assert(url_decode(b) =~= b.map_values(|x: u8| x as char));
    }
}

/// A page holds at most the (clamped) page size of records, and none past
/// the end of the list.
pub proof fn law_page_size(page: int, per_page: int, total: int)
    requires
        total >= 0,
    ensures
        0 <= page_end(page, per_page, total) - page_start(page, per_page) <= effective_per_page(
            per_page,
        ),
        page_start(page, per_page) >= 0,
        page_start(page, per_page) < total ==> page_end(page, per_page, total) <= total,
{
    assert(page_start(page, per_page) >= 0) by (nonlinear_arith)
        requires
            page_start(page, per_page) == (effective_page(page) - 1) * effective_per_page(per_page),
            effective_page(page) >= 1,
            effective_per_page(per_page) >= 1,
    ;
}

/// The last page is the number of pages: a list of `total` records fills
/// `last_page - 1` pages of `per_page` and part or all of one more.
pub proof fn law_last_page(per_page: int, total: int)
    requires
        per_page >= 1,
        total > 0,
    ensures
        (last_page_of(per_page, total) - 1) * per_page < total <= last_page_of(per_page, total)
            * per_page,
        last_page_of(per_page, total) >= 1,
{
    let l = (total + per_page - 1) / per_page;
    let r = (total + per_page - 1) % per_page;
    assert(total + per_page - 1 == l * per_page + r && 0 <= r < per_page) by (nonlinear_arith)
        requires
            per_page >= 1,
            l == (total + per_page - 1) / per_page,
            r == (total + per_page - 1) % per_page,
    ;
    assert((l - 1) * per_page == l * per_page - per_page) by (nonlinear_arith);
    assert(l >= 1) by (nonlinear_arith)
        requires
            total + per_page - 1 == l * per_page + r,
            0 <= r < per_page,
            total > 0,
            per_page >= 1,
    ;
}

/// On a page within the list, `from` is the position (from 1) of its first
/// record and `to` that of its last: `to - from + 1` records are on it.
pub proof fn law_page_meta(page: int, per_page: int, total: int)
    requires
        total > 0,
        effective_page(page) <= last_page_of(effective_per_page(per_page), total),
    ensures
        from_of(effective_page(page), effective_per_page(per_page), total) == page_start(
            page,
            per_page,
        ) + 1,
        to_of(effective_page(page), effective_per_page(per_page), total) == page_end(
            page,
            per_page,
            total,
        ),
        page_start(page, per_page) < total,
{
    let pp = effective_per_page(per_page);
    let pg = effective_page(page);
    law_last_page(pp, total);
    let l = last_page_of(pp, total);
    assert((pg - 1) * pp <= (l - 1) * pp) by (nonlinear_arith)
        requires
            1 <= pg <= l,
            pp >= 1,
    ;
}

/// Listing keeps exactly the records that pass, in the order of the data.
pub proof fn law_listing_exact(ok: Seq<bool>)
    requires
        ok.len() <= usize::MAX,
    ensures
        forall|k: int| 0 <= k < ok.len() ==> (ok[k] <==> selected(ok).contains(k as usize)),
        forall|i: int, j: int|
            0 <= i < j < selected(ok).len() ==> selected(ok)[i] < selected(ok)[j],
        forall|i: int| 0 <= i < selected(ok).len() ==> #[trigger] selected(ok)[i] < ok.len(),
    decreases ok.len(),
{
    if ok.len() > 0 {
        let d = ok.drop_last();
        law_listing_exact(d);
        let sd = selected(d);
        let s = selected(ok);
        let n = (ok.len() - 1) as usize;
        assert(s == if ok[ok.len() - 1] { sd.push(n) } else { sd });
        assert forall|i: int| 0 <= i < sd.len() implies #[trigger] s[i] == sd[i] && sd[i] < n by {
        }
        assert forall|k: int| 0 <= k < ok.len() implies (ok[k] <==> s.contains(k as usize)) by {
            if k < d.len() {
                assert(ok[k] == d[k]);
                if d[k] {
                    let j = choose|j: int| 0 <= j < sd.len() && sd[j] == k as usize;
                    assert(s[j] == k as usize);
                }
                if s.contains(k as usize) {
                    let j = choose|j: int| 0 <= j < s.len() && s[j] == k as usize;
                    if j < sd.len() {
                        assert(sd[j] == k as usize);
                        assert(sd.contains(k as usize));
                    }
                }
            } else {
                if ok[k] {
                    assert(s[s.len() - 1] == k as usize);
                }
                if s.contains(k as usize) {
                    let j = choose|j: int| 0 <= j < s.len() && s[j] == k as usize;
                    if j < sd.len() {
                        assert(sd[j] < n);
                    }
                }
            }
        }
        assert forall|i: int, j: int| 0 <= i < j < s.len() implies s[i] < s[j] by {
            if j < sd.len() {
                assert(sd[i] < sd[j]);
            } else {
                assert(s[i] == sd[i]);
            }
        }
    }
}

/// The values listed by a filters endpoint: each present value once.
pub proof fn law_distinct(vals: Seq<Option<Seq<char>>>)
    ensures
        distinct(vals).no_duplicates(),
        forall|s: Seq<char>|
            distinct(vals).contains(s) <==> exists|i: int| 0 <= i < vals.len() && vals[i] == Some(s),
    decreases vals.len(),
{
    if vals.len() > 0 {
        let d = vals.drop_last();
        law_distinct(d);
        let r = distinct(d);
        assert forall|s: Seq<char>|
            distinct(vals).contains(s) <==> exists|i: int| 0 <= i < vals.len() && vals[i] == Some(s) by {
            if r.contains(s) {
                let i = choose|i: int| 0 <= i < d.len() && d[i] == Some(s);
                assert(vals[i] == Some(s));
                let j = choose|j: int| 0 <= j < r.len() && r[j] == s;
                assert(distinct(vals)[j] == s);
            }
            if exists|i: int| 0 <= i < vals.len() && vals[i] == Some(s) {
                let i = choose|i: int| 0 <= i < vals.len() && vals[i] == Some(s);
                if i < d.len() {
                    assert(d[i] == Some(s));
                    let j = choose|j: int| 0 <= j < r.len() && r[j] == s;
                    assert(distinct(vals)[j] == s);
                } else {
                    if !r.contains(s) {
                        assert(distinct(vals)[r.len() as int] == s);
                    }
                }
            }
            if distinct(vals).contains(s) && !r.contains(s) {
                let j = choose|j: int| 0 <= j < distinct(vals).len() && distinct(vals)[j] == s;
                assert(vals.last() == Some(s));
                assert(vals[vals.len() - 1] == Some(s));
            }
        }
    }
}

/// An index finds, for each key that some record has, the last record with
/// that key.
pub proof fn law_index_finds<T>(m: Map<Seq<char>, usize>, v: Seq<T>, keys: Seq<Option<Seq<char>>>, i: int)
    requires
        index_ok(m, keys),
        keys.len() == v.len(),
        0 <= i < keys.len(),
        keys[i] is Some,
    ensures
        indexed(m, v, keys[i]->0) == Some(v[m[keys[i]->0] as int]),
        keys[m[keys[i]->0] as int] == keys[i],
        i <= m[keys[i]->0],
{
    let k = keys[i]->0;
    lemma_last_index(keys, k);
    assert(m.contains_key(k) <==> last_index(keys, k) is Some);
    if last_index(keys, k) is None {
        assert(keys[i] != Some(k));
    }
}

/// Looking an item up by the UUID of an item finds an item with that UUID.
pub proof fn law_item_found_by_uuid(data: GameData, i: int)
    requires
        data.wf(),
        0 <= i < data.items@.len(),
    ensures
        item_at(data, item_index(data, data.items@[i].uuid@)) matches Some(it) && it.uuid@
            == data.items@[i].uuid@,
{
    let keys = crate::loader::item_uuid_keys(data.items@);
    assert(keys[i] == Some(data.items@[i].uuid@));
    law_index_finds(data.items_by_uuid@, data.items@, keys, i);
    let j = data.items_by_uuid@[data.items@[i].uuid@];
    assert(keys[j as int] == Some(data.items@[j as int].uuid@));
}

/// Looking an item up by a name that an item has (and that is no item's
/// UUID) finds an item with that name, ignoring case.
pub proof fn law_item_found_by_name(data: GameData, i: int, id: Seq<char>)
    requires
        data.wf(),
        0 <= i < data.items@.len(),
        lowercase(data.items@[i].name@) == lowercase(id),
        forall|j: int| 0 <= j < data.items@.len() ==> data.items@[j].uuid@ != id,
    ensures
        item_at(data, item_index(data, id)) matches Some(it) && lowercase(it.name@) == lowercase(id),
{
    let ukeys = crate::loader::item_uuid_keys(data.items@);
    lemma_last_index(ukeys, id);
    if last_index(ukeys, id) is Some {
        let j = last_index(ukeys, id)->0;
        assert(ukeys[j] == Some(data.items@[j].uuid@));
    }
    assert(!data.items_by_uuid@.contains_key(id));
    let keys = crate::loader::item_name_keys(data.items@);
    assert(keys[i] == Some(lowercase(data.items@[i].name@)));
    law_index_finds(data.items_by_name@, data.items@, keys, i);
    let j = data.items_by_name@[lowercase(id)];
    assert(keys[j as int] == Some(lowercase(data.items@[j as int].name@)));
}

/// Looking a place up by the UUID of a place finds a place with that UUID.
pub proof fn law_location_found_by_uuid(data: GameData, i: int)
    requires
        data.wf(),
        0 <= i < data.starmap_locations@.len(),
    ensures
        indexed(
            data.starmap_locations_by_uuid@,
            data.starmap_locations@,
            data.starmap_locations@[i].uuid@,
        ) matches Some(l) && l.uuid@ == data.starmap_locations@[i].uuid@,
{
    let keys = crate::loader::location_uuid_keys(data.starmap_locations@);
    assert(keys[i] == Some(data.starmap_locations@[i].uuid@));
    law_index_finds(data.starmap_locations_by_uuid@, data.starmap_locations@, keys, i);
    let j = data.starmap_locations_by_uuid@[data.starmap_locations@[i].uuid@];
    assert(keys[j as int] == Some(data.starmap_locations@[j as int].uuid@));
}

/// Looking a blueprint up by the UUID of a blueprint finds a blueprint with that UUID.
pub proof fn law_blueprint_found_by_uuid(data: GameData, i: int)
    requires
        data.wf(),
        0 <= i < data.blueprints@.len(),
    ensures
        indexed(data.blueprints_by_uuid@, data.blueprints@, data.blueprints@[i].uuid@) matches Some(
            b,
        ) && b.uuid@ == data.blueprints@[i].uuid@,
{
    let keys = crate::loader::blueprint_uuid_keys(data.blueprints@);
    assert(keys[i] == Some(data.blueprints@[i].uuid@));
    law_index_finds(data.blueprints_by_uuid@, data.blueprints@, keys, i);
    let j = data.blueprints_by_uuid@[data.blueprints@[i].uuid@];
    assert(keys[j as int] == Some(data.blueprints@[j as int].uuid@));
}

/// The manufacturer list always holds the unknown manufacturer.
pub proof fn law_unknown_manufacturer(rs: Seq<crate::models::manufacturer::ManufacturerRaw>)
    ensures
        exists|i: int|
            0 <= i < manufacturer_list(rs).len() && (#[trigger] manufacturer_list(rs)[i]).0
                == unknown_uuid(),
{
    let kept = kept_manufacturers(rs);
    if exists|i: int| 0 <= i < kept.len() && (#[trigger] kept[i]).0 == unknown_uuid() {
        let i = choose|i: int| 0 <= i < kept.len() && (#[trigger] kept[i]).0 == unknown_uuid();
        assert(manufacturer_list(rs)[i].0 == unknown_uuid());
    } else {
        assert(manufacturer_list(rs)[kept.len() as int].0 == unknown_uuid());
    }
}

/// A solar system belongs to itself.
pub proof fn law_solar_system_own(locs: Seq<crate::models::starmap::StarmapLocation>, i: int)
    requires
        0 <= i < locs.len(),
        is_solar_system(locs[i]),
    ensures
        system_of(locs, i) == Some(locs[i].name@),
{
}

/// Every text matches itself as a search.
pub proof fn law_search_matches_itself(h: Seq<char>)
    ensures
        seq_contains(lowercase(h), lowercase(h)),
{
    let l = lowercase(h);
    assert(l.subrange(0int, 0int + l.len()) =~= l);
}

/// Adding a label's translations to an item keeps each locale once and
/// never replaces the item's English text.
pub proof fn law_label_translations(base: Seq<(Seq<char>, Seq<char>)>, tr: Seq<(Seq<char>, Seq<char>)>)
    requires
        keys_unique(base),
    ensures
        keys_unique(crate::loader::add_label_translations(base, tr)),
        assoc_get(crate::loader::add_label_translations(base, tr), "en"@) == assoc_get(base, "en"@),
    decreases tr.len(),
{
    if tr.len() > 0 {
        law_label_translations(base, tr.drop_last());
        let prev = crate::loader::add_label_translations(base, tr.drop_last());
        if tr.last().0 != "en"@ {
            lemma_assoc_insert_unique(prev, tr.last().0, tr.last().1);
            lemma_assoc_insert_other(prev, tr.last().0, tr.last().1, "en"@);
        }
    }
}

/// Consecutive pages are adjacent: each starts where the one before it
/// would end if it were full, so the pages together list every record once.
pub proof fn law_pages_adjacent(page: int, per_page: int)
    requires
        page >= 1,
    ensures
        page_start(page + 1, per_page) == page_start(page, per_page) + effective_per_page(per_page),
{
    let pp = effective_per_page(per_page);
    assert(page * pp == (page - 1) * pp + pp) by (nonlinear_arith);
}

/// A display name cut from a vehicle name by a manufacturer prefix is
/// never empty: where nothing would be left, the next prefix is tried, and
/// at last the tidied name is kept.
pub proof fn law_display_name_not_cut_to_nothing(norm: Seq<char>, cands: Seq<Seq<char>>)
    ensures
        crate::models::vehicle::strip_candidates(norm, cands) matches Some(x) ==> x.len() > 0,
    decreases cands.len(),
{
    if cands.len() > 0 {
        law_display_name_not_cut_to_nothing(norm, cands.drop_first());
    }
}

/// The number that the last pair with key `key` whose value parses as one gives.
pub open spec fn last_number(pairs: Seq<Seq<char>>, key: Seq<char>) -> Option<usize>
    decreases pairs.len(),
{
    if pairs.len() == 0 {
        None
    } else if pair_key(pairs.last()) == key && parse_usize_spec(pair_value(pairs.last())) is Some {
        parse_usize_spec(pair_value(pairs.last()))
    } else {
        last_number(pairs.drop_last(), key)
    }
}

proof fn lemma_apply_pairs_last(m: QueryModel, pairs: Seq<Seq<char>>)
    requires
        pairs.len() > 0,
    ensures
        apply_pairs(m, pairs) == apply_pair(apply_pairs(m, pairs.drop_last()), pairs.last()),
    decreases pairs.len(),
{
    if pairs.len() > 1 {
        let m2 = apply_pair(m, pairs[0]);
        let rest = pairs.drop_first();
        lemma_apply_pairs_last(m2, rest);
        assert(rest.drop_last() =~= pairs.drop_last().drop_first());
        assert(rest.last() == pairs.last());
        assert(pairs.drop_last()[0] == pairs[0]);
        assert(apply_pairs(m, pairs) == apply_pairs(m2, rest));
        assert(apply_pairs(m, pairs.drop_last()) == apply_pairs(m2, rest.drop_last()));
    } else {
        assert(pairs.drop_first() =~= Seq::<Seq<char>>::empty());
        assert(pairs.drop_last() =~= Seq::<Seq<char>>::empty());
        assert(apply_pairs(m, pairs) == apply_pairs(apply_pair(m, pairs[0]), pairs.drop_first()));
        assert(apply_pairs(apply_pair(m, pairs[0]), Seq::<Seq<char>>::empty()) == apply_pair(m, pairs[0]));
        assert(apply_pairs(m, Seq::<Seq<char>>::empty()) == m);
    }
}

proof fn lemma_page_fields(m: QueryModel, pairs: Seq<Seq<char>>)
    ensures
        apply_pairs(m, pairs).page == match last_number(pairs, "page[number]"@) {
            Some(n) => if n < 1 {
                1
            } else {
                n
            },
            None => m.page,
        },
        apply_pairs(m, pairs).per_page == match last_number(pairs, "page[size]"@) {
            Some(n) => if n < 1 {
                1
            } else if n > 200 {
                200
            } else {
                n
            },
            None => m.per_page,
        },
    decreases pairs.len(),
{
    reveal_strlit("page[number]");
    reveal_strlit("page[size]");
    if pairs.len() > 0 {
        lemma_apply_pairs_last(m, pairs);
        lemma_page_fields(m, pairs.drop_last());
        if pairs.last().len() == 0 {
            assert(pair_key(pairs.last()) =~= Seq::<char>::empty()) by {
                assert(crate::text::first_index(pairs.last(), '=') is None);
            }
        }
    } else {
        assert(apply_pairs(m, pairs) == m);
    }
}

/// The page number and page size of a query are those of the last
/// `page[number]` and `page[size]` pairs whose values parse as numbers (the
/// page at least 1, the size held between 1 and 200); without one, 1 and 30.
pub proof fn law_query_last_page_wins(q: Seq<char>)
    ensures
        parse_query(q).page == match last_number(split_char(q, '&'), "page[number]"@) {
            Some(n) => if n < 1 {
                1
            } else {
                n
            },
            None => 1,
        },
        parse_query(q).per_page == match last_number(split_char(q, '&'), "page[size]"@) {
            Some(n) => if n < 1 {
                1
            } else if n > 200 {
                200
            } else {
                n
            },
            None => 30,
        },
{
    lemma_page_fields(default_query(), split_char(q, '&'));
}

/// The upper-case hexadecimal digit byte of `d` (below 16).
pub open spec fn hex_upper(d: u8) -> u8 {
    if d < 10 {
        (48 + d) as u8
    } else {
        (55 + d) as u8
    }
}

/// The lower-case hexadecimal digit byte of `d` (below 16).
pub open spec fn hex_lower(d: u8) -> u8 {
    if d < 10 {
        (48 + d) as u8
    } else {
        (87 + d) as u8
    }
}

/// A percent escape `%XX`, in either hexadecimal case, decodes to the
/// character whose code is the byte `XX`.
pub proof fn law_url_decode_escape(b: u8)
    ensures
        url_decode(seq![37u8, hex_upper(b / 16), hex_upper(b % 16)]) == seq![b as char],
        url_decode(seq![37u8, hex_lower(b / 16), hex_lower(b % 16)]) == seq![b as char],
{
    let hi = b / 16;
    let lo = b % 16;
    assert(hex_spec(hex_upper(hi)) == Some(hi));
    assert(hex_spec(hex_upper(lo)) == Some(lo));
    assert(hex_spec(hex_lower(hi)) == Some(hi));
    assert(hex_spec(hex_lower(lo)) == Some(lo));
    assert((hi * 16 + lo) as u8 == b);
    let s1 = seq![37u8, hex_upper(hi), hex_upper(lo)];
    let s2 = seq![37u8, hex_lower(hi), hex_lower(lo)];
    assert(s1.drop_first().skip(2) =~= Seq::<u8>::empty());
    assert(s2.drop_first().skip(2) =~= Seq::<u8>::empty());
    assert(url_decode(Seq::<u8>::empty()) =~= Seq::<char>::empty());
    assert(url_decode(s1) =~= seq![b as char]);
    assert(url_decode(s2) =~= seq![b as char]);
}

/// The records of pages `1..=k`, one page after another.
pub open spec fn pages_joined<A>(items: Seq<A>, per_page: int, k: nat) -> Seq<A>
    decreases k,
{
    if k == 0 {
        Seq::empty()
    } else {
        pages_joined(items, per_page, (k - 1) as nat) + items.subrange(
            page_start(k as int, per_page),
            page_end(k as int, per_page, items.len() as int),
        )
    }
}

proof fn lemma_pages_joined<A>(items: Seq<A>, per_page: int, k: nat)
    requires
        1 <= k,
        (k - 1) * effective_per_page(per_page) < items.len() || k == 1,
    ensures
        pages_joined(items, per_page, k) == items.take(
            if k * effective_per_page(per_page) < items.len() {
                k * effective_per_page(per_page)
            } else {
                items.len() as int
            },
        ),
    decreases k,
{
    let pp = effective_per_page(per_page);
    let n = items.len() as int;
    let start = (k - 1) * pp;
    assert(page_start(k as int, per_page) == start);
    assert(k * pp == start + pp) by (nonlinear_arith)
        requires
            start == (k - 1) * pp,
    ;
    assert(start >= 0) by (nonlinear_arith)
        requires
            k >= 1,
            pp >= 1,
            start == (k - 1) * pp,
    ;
    let prev = if start < n {
        start
    } else {
        n
    };
    if k > 1 {
        let k1 = (k - 1) as nat;
        assert((k1 - 1) * pp < k1 * pp) by (nonlinear_arith)
            requires
                k1 >= 1,
                pp >= 1,
        ;
        assert(k1 * pp == start);
        lemma_pages_joined(items, per_page, k1);
        assert(pages_joined(items, per_page, k1) == items.take(prev));
    } else {
        assert(start == 0) by (nonlinear_arith)
            requires
                k == 1,
                start == (k - 1) * pp,
        ;
        assert(pages_joined(items, per_page, 0) =~= items.take(prev));
    }
    assert(pages_joined(items, per_page, k) =~= items.take(
        if k * pp < n {
            k * pp
        } else {
            n
        },
    ));
}

/// The pages of a list, from the first to the last, give the whole list
/// back: each record on exactly one page, in order.
pub proof fn law_pages_join<A>(items: Seq<A>, per_page: int)
    ensures
        pages_joined(
            items,
            per_page,
            last_page_of(effective_per_page(per_page), items.len() as int) as nat,
        ) == items,
{
    let pp = effective_per_page(per_page);
    let n = items.len() as int;
    if n > 0 {
        law_last_page(pp, n);
        let l = last_page_of(pp, n);
        lemma_pages_joined(items, per_page, l as nat);
        assert(items.take(n) =~= items);
    } else {
        lemma_pages_joined(items, per_page, 1);
        assert(items.take(0) =~= items);
    }
}

/// The query `p` with one more filter, `filter[k]=v`.
pub open spec fn with_filter(p: QueryModel, k: Seq<char>, v: Seq<char>) -> QueryModel {
    QueryModel { filters: p.filters.push((k, v)), ..p }
}

/// The filter keys that items know.
pub open spec fn item_filter_key(k: Seq<char>) -> bool {
    ||| k == "type"@
    ||| k == "sub_type"@
    ||| k == "manufacturer"@
    ||| k == "class_name"@
    ||| k == "name"@
    ||| k == "classification"@
    ||| k == "size"@
    ||| k == "grade"@
    ||| k == "class"@
}

/// The positions that pass, one flag per item.
pub open spec fn item_oks(data: GameData, p: QueryModel, cat: Option<Seq<char>>) -> Seq<bool> {
    Seq::new(data.items@.len(), |i: int| item_passes(data, p, cat, data.items@[i]))
}

proof fn lemma_selected_subset(a: Seq<bool>, b: Seq<bool>)
    requires
        a.len() == b.len(),
        a.len() <= usize::MAX,
        forall|i: int| 0 <= i < a.len() ==> a[i] ==> b[i],
    ensures
        forall|x: usize| selected(a).contains(x) ==> selected(b).contains(x),
{
    law_listing_exact(a);
    law_listing_exact(b);
    assert forall|x: usize| selected(a).contains(x) implies selected(b).contains(x) by {
        let j = choose|j: int| 0 <= j < selected(a).len() && selected(a)[j] == x;
        assert(selected(a)[j] < a.len());
        assert(a[x as int]);
    }
}

/// Where no sort is asked for, or the sort keys present are of one kind, a
/// listing has one outcome: two results that both meet it are the same.
pub proof fn law_selection_unique(
    cand: Seq<usize>,
    docs: Seq<crate::json::JsonValue>,
    sort: Option<Seq<char>>,
    r1: Seq<usize>,
    r2: Seq<usize>,
)
    requires
        docs.len() == cand.len(),
        sort matches Some(sp) ==> crate::sort::uniform(
            crate::sort::doc_keys(docs, crate::sort::sort_pointer(sp)),
        ),
        crate::handlers::common::ordered_selection(cand, docs, sort, r1),
        crate::handlers::common::ordered_selection(cand, docs, sort, r2),
    ensures
        r1 == r2,
{
    match sort {
        None => {},
        Some(sp) => {
            let keys = crate::sort::doc_keys(docs, crate::sort::sort_pointer(sp));
            let desc = crate::sort::sort_descending(sp);
            let p1 = choose|perm: Seq<usize>|
                #![trigger crate::sort::is_permutation(perm, cand.len() as nat)]
                {
                    &&& crate::sort::is_permutation(perm, cand.len() as nat)
                    &&& r1 == perm.map_values(|t: usize| cand[t as int])
                    &&& crate::sort::uniform(keys) ==> crate::sort::sorted_by(keys, desc, perm)
                };
            let p2 = choose|perm: Seq<usize>|
                #![trigger crate::sort::is_permutation(perm, cand.len() as nat)]
                {
                    &&& crate::sort::is_permutation(perm, cand.len() as nat)
                    &&& r2 == perm.map_values(|t: usize| cand[t as int])
                    &&& crate::sort::uniform(keys) ==> crate::sort::sorted_by(keys, desc, perm)
                };
            assert(keys.len() == cand.len());
            crate::sort::law_sort_unique(keys, desc, p1, p2);
        },
    }
}

/// An extra filter never adds items: everything listed with it is listed
/// without it; and a filter on a key that items do not know changes nothing
/// (where the listing has one outcome, the same list).
pub proof fn law_item_filter_narrows(
    data: GameData,
    p: QueryModel,
    cat: Option<Seq<char>>,
    k: Seq<char>,
    v: Seq<char>,
)
    ensures
        forall|x: usize|
            item_candidates(data, with_filter(p, k, v), cat).contains(x) ==> item_candidates(
                data,
                p,
                cat,
            ).contains(x),
        forall|s1: Seq<usize>, s2: Seq<usize>|
            item_selection(data, p, cat, s1) && item_selection(data, with_filter(p, k, v), cat, s2)
                ==> forall|x: usize| s2.contains(x) ==> s1.contains(x),
        !item_filter_key(k) ==> item_candidates(data, with_filter(p, k, v), cat) == item_candidates(
            data,
            p,
            cat,
        ),
        !item_filter_key(k) ==> forall|s: Seq<usize>|
            item_selection(data, with_filter(p, k, v), cat, s) == item_selection(data, p, cat, s),
        !item_filter_key(k) && (p.sort matches Some(sp) ==> crate::sort::uniform(
            crate::sort::doc_keys(
                crate::handlers::items::item_docs(data.items@, item_candidates(data, p, cat)),
                crate::sort::sort_pointer(sp),
            ),
        )) ==> forall|s1: Seq<usize>, s2: Seq<usize>|
            item_selection(data, p, cat, s1) && item_selection(data, with_filter(p, k, v), cat, s2)
                ==> s1 == s2,
{
    let p2 = with_filter(p, k, v);
    let a = item_oks(data, p2, cat);
    let b = item_oks(data, p, cat);
    assert(data.items@.len() <= usize::MAX) by {
        assert(data.items@.len() == data.items.len());
    }
    assert forall|i: int| 0 <= i < a.len() && a[i] implies b[i] by {
        let it = data.items@[i];
        {
            assert forall|j: int| 0 <= j < p.filters.len() implies #[trigger] item_filter_ok(
                data,
                it,
                p.filters[j].0,
                p.filters[j].1,
            ) by {
                assert(p2.filters[j] == p.filters[j]);
            }
        }
    }
    assert(item_candidates(data, p2, cat) == selected(a));
    assert(item_candidates(data, p, cat) == selected(b));
    lemma_selected_subset(a, b);
    assert forall|s1: Seq<usize>, s2: Seq<usize>|
        item_selection(data, p, cat, s1) && item_selection(data, p2, cat, s2) implies forall|x: usize|
        s2.contains(x) ==> s1.contains(x) by {
        let c1 = selected(b);
        let c2 = selected(a);
        law_listing_exact(a);
        law_listing_exact(b);
        assert forall|x: usize| s2.contains(x) implies s1.contains(x) by {
            let j = choose|j: int| 0 <= j < s2.len() && s2[j] == x;
            let in_c2: bool = match p2.sort {
                None => {
                    assert(s2 == c2);
                    true
                },
                Some(sp) => {
                    let perm = choose|perm: Seq<usize>|
                        #![trigger crate::sort::is_permutation(perm, c2.len() as nat)]
                        {
                            &&& crate::sort::is_permutation(perm, c2.len() as nat)
                            &&& s2 == perm.map_values(|t: usize| c2[t as int])
                            &&& crate::sort::uniform(
                                crate::sort::doc_keys(
                                    crate::handlers::items::item_docs(data.items@, c2),
                                    crate::sort::sort_pointer(sp),
                                ),
                            ) ==> crate::sort::sorted_by(
                                crate::sort::doc_keys(
                                    crate::handlers::items::item_docs(data.items@, c2),
                                    crate::sort::sort_pointer(sp),
                                ),
                                crate::sort::sort_descending(sp),
                                perm,
                            )
                        };
                    assert(s2[j] == c2[perm[j] as int]);
                    assert(c2.contains(x));
                    true
                },
            };
            assert(c2.contains(x));
            assert(c1.contains(x));
            let i = choose|i: int| 0 <= i < c1.len() && c1[i] == x;
            match p.sort {
                None => {
                    assert(s1 == c1);
                },
                Some(sp) => {
                    let perm = choose|perm: Seq<usize>|
                        #![trigger crate::sort::is_permutation(perm, c1.len() as nat)]
                        {
                            &&& crate::sort::is_permutation(perm, c1.len() as nat)
                            &&& s1 == perm.map_values(|t: usize| c1[t as int])
                            &&& crate::sort::uniform(
                                crate::sort::doc_keys(
                                    crate::handlers::items::item_docs(data.items@, c1),
                                    crate::sort::sort_pointer(sp),
                                ),
                            ) ==> crate::sort::sorted_by(
                                crate::sort::doc_keys(
                                    crate::handlers::items::item_docs(data.items@, c1),
                                    crate::sort::sort_pointer(sp),
                                ),
                                crate::sort::sort_descending(sp),
                                perm,
                            )
                        };
                    crate::handlers::common::lemma_selected_bounds(b);
                    assert(i < usize::MAX);
                    crate::sort::lemma_permutation_holds_all(perm, c1.len() as nat);
                    assert(perm.contains(i as usize));
                    let t = choose|t: int| 0 <= t < perm.len() && perm[t] == i as usize;
                    assert(s1[t] == c1[perm[t] as int]);
                    assert(perm[t] as int == i);
                    assert(s1[t] == x);
                },
            }
        }
    }
    if !item_filter_key(k) {
        assert forall|i: int| 0 <= i < a.len() implies a[i] == b[i] by {
            let it = data.items@[i];
            assert(item_filter_ok(data, it, k, v));
            if b[i] {
                assert forall|j: int| 0 <= j < p2.filters.len() implies #[trigger] item_filter_ok(
                    data,
                    it,
                    p2.filters[j].0,
                    p2.filters[j].1,
                ) by {
                    if j < p.filters.len() {
                        assert(p2.filters[j] == p.filters[j]);
                    }
                }
            }
        }
        assert(a =~= b);
        let c = item_candidates(data, p, cat);
        if p.sort matches Some(sp) ==> crate::sort::uniform(
            crate::sort::doc_keys(
                crate::handlers::items::item_docs(data.items@, c),
                crate::sort::sort_pointer(sp),
            ),
        ) {
            assert forall|s1: Seq<usize>, s2: Seq<usize>|
                item_selection(data, p, cat, s1) && item_selection(data, p2, cat, s2) implies s1
                == s2 by {
                assert(item_candidates(data, p2, cat) == c);
                law_selection_unique(
                    c,
                    crate::handlers::items::item_docs(data.items@, c),
                    p.sort,
                    s1,
                    s2,
                );
            }
        }
    }
}

/// The flag filters of vehicles.
pub open spec fn vehicle_flag_key(k: Seq<char>) -> bool {
    k == "is_vehicle"@ || k == "is_gravlev"@ || k == "is_spaceship"@
}

/// The query `p` with filter `i` set to `filter[k]=v`.
pub open spec fn with_filter_at(p: QueryModel, i: int, k: Seq<char>, v: Seq<char>) -> QueryModel {
    QueryModel { filters: p.filters.update(i, (k, v)), ..p }
}

/// A flag filter of vehicles (`is_vehicle`, `is_gravlev`, `is_spaceship`)
/// means true only for `true` or `1` (ignoring case): any two other values
/// list the same vehicles.
pub proof fn law_vehicle_flag_values(
    data: GameData,
    p: QueryModel,
    kind: Option<Seq<char>>,
    i: int,
    k: Seq<char>,
    v2: Seq<char>,
    v3: Seq<char>,
)
    requires
        0 <= i < p.filters.len(),
        vehicle_flag_key(k),
        !crate::handlers::common::truthy(lowercase(v2)),
        !crate::handlers::common::truthy(lowercase(v3)),
    ensures
        crate::handlers::vehicles::vehicle_candidates(data, with_filter_at(p, i, k, v2), kind)
            == crate::handlers::vehicles::vehicle_candidates(data, with_filter_at(p, i, k, v3), kind),
        forall|s: Seq<usize>|
            crate::handlers::vehicles::vehicle_selection(data, with_filter_at(p, i, k, v2), kind, s)
                == crate::handlers::vehicles::vehicle_selection(
                data,
                with_filter_at(p, i, k, v3),
                kind,
                s,
            ),
{
    let p2 = with_filter_at(p, i, k, v2);
    let p3 = with_filter_at(p, i, k, v3);
    reveal_strlit("manufacturer");
    reveal_strlit("manufacturer.name");
    reveal_strlit("is_vehicle");
    reveal_strlit("is_gravlev");
    reveal_strlit("is_spaceship");
    reveal_strlit("class_name");
    reveal_strlit("name");
    reveal_strlit("career");
    reveal_strlit("role");
    assert(k.len() > 0 && k[0] == 'i');
    assert(k != "manufacturer"@ && k != "manufacturer.name"@ && k != "class_name"@ && k != "name"@
        && k != "career"@ && k != "role"@) by {
        assert("manufacturer"@[0] == 'm');
        assert("manufacturer.name"@[0] == 'm');
        assert("class_name"@[0] == 'c');
        assert("name"@[0] == 'n');
        assert("career"@[0] == 'c');
        assert("role"@[0] == 'r');
    }
    assert forall|it: crate::models::vehicle::Vehicle| #[trigger]
        crate::handlers::vehicles::vehicle_passes(data, p2, kind, it)
            == crate::handlers::vehicles::vehicle_passes(data, p3, kind, it) by {
        assert(crate::handlers::vehicles::vehicle_filter_ok(data, it, k, v2)
            == crate::handlers::vehicles::vehicle_filter_ok(data, it, k, v3));
        assert forall|j: int| 0 <= j < p2.filters.len() implies
            crate::handlers::vehicles::vehicle_filter_ok(data, it, p2.filters[j].0, p2.filters[j].1)
            == crate::handlers::vehicles::vehicle_filter_ok(
                data,
                it,
                p3.filters[j].0,
                p3.filters[j].1,
            ) by {
            if j != i {
                assert(p2.filters[j] == p3.filters[j]);
            }
        }
        if crate::handlers::vehicles::vehicle_passes(data, p2, kind, it) {
            assert forall|j: int| 0 <= j < p3.filters.len() implies
                #[trigger] crate::handlers::vehicles::vehicle_filter_ok(
                data,
                it,
                p3.filters[j].0,
                p3.filters[j].1,
            ) by {
                assert(crate::handlers::vehicles::vehicle_filter_ok(
                    data,
                    it,
                    p2.filters[j].0,
                    p2.filters[j].1,
                ));
            }
        }
        if crate::handlers::vehicles::vehicle_passes(data, p3, kind, it) {
            assert forall|j: int| 0 <= j < p2.filters.len() implies
                #[trigger] crate::handlers::vehicles::vehicle_filter_ok(
                data,
                it,
                p2.filters[j].0,
                p2.filters[j].1,
            ) by {
                assert(crate::handlers::vehicles::vehicle_filter_ok(
                    data,
                    it,
                    p3.filters[j].0,
                    p3.filters[j].1,
                ));
            }
        }
    }
    assert(Seq::new(
        data.vehicles@.len(),
        |j: int| crate::handlers::vehicles::vehicle_passes(data, p2, kind, data.vehicles@[j]),
    ) =~= Seq::new(
        data.vehicles@.len(),
        |j: int| crate::handlers::vehicles::vehicle_passes(data, p3, kind, data.vehicles@[j]),
    ));
}

} // verus!
