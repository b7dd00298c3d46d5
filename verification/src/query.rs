use vstd::prelude::*;

use crate::assoc::{assoc_insert, assoc_set, keys_unique, pairs_view};
use crate::num::{parse_usize, parse_usize_spec};
use crate::text::{
    chars_contains, chars_eq, chars_of, chars_starts_with, find_char, first_index, lowercase,
    pieces, push_char, seq_contains, split_char, split_ranges, starts_with, string_from_range,
    to_lowercase, trim, trim_chars,
};
use vstd::utf8::encode_utf8;

verus! {

/// Parsed query parameters of a request URL.
pub struct QueryParams {
    pub page: usize,
    pub per_page: usize,
    /// `filter[field]=value` pairs: each field once, with the value given last.
    pub filters: Vec<(String, String)>,
    pub sort: Option<String>,
    pub search: Option<String>,
    pub locale: Option<String>,
    pub includes: Vec<String>,
}

/// What a `QueryParams` holds, as plain values.
pub struct QueryModel {
    pub page: usize,
    pub per_page: usize,
    pub filters: Seq<(Seq<char>, Seq<char>)>,
    pub sort: Option<Seq<char>>,
    pub search: Option<Seq<char>>,
    pub locale: Option<Seq<char>>,
    pub includes: Seq<Seq<char>>,
}

/// The characters of an optional string.
pub open spec fn opt_chars(o: Option<String>) -> Option<Seq<char>> {
    match o {
        Some(s) => Some(s@),
        None => None,
    }
}

/// The characters of each string of `v`.
pub open spec fn strings_view(v: Seq<String>) -> Seq<Seq<char>> {
    v.map_values(|s: String| s@)
}

impl View for QueryParams {
    type V = QueryModel;

    open spec fn view(&self) -> QueryModel {
        QueryModel {
            page: self.page,
            per_page: self.per_page,
            filters: pairs_view(self.filters@),
            sort: opt_chars(self.sort),
            search: opt_chars(self.search),
            locale: opt_chars(self.locale),
            includes: strings_view(self.includes@),
        }
    }
}

/// The parameters of an empty query: first page, 30 per page, nothing else.
pub open spec fn default_query() -> QueryModel {
    QueryModel {
        page: 1,
        per_page: 30,
        filters: Seq::empty(),
        sort: None,
        search: None,
        locale: None,
        includes: Seq::empty(),
    }
}

/// The value of a hexadecimal digit byte.
pub open spec fn hex_spec(c: u8) -> Option<u8> {
    if 48 <= c <= 57 {
        Some((c - 48) as u8)
    } else if 97 <= c <= 102 {
        Some((c - 87) as u8)
    } else if 65 <= c <= 70 {
        Some((c - 55) as u8)
    } else {
        None
    }
}

/// Decodes URL-encoded bytes: `+` is a space; `%` takes the next two bytes
/// and, when both are hex digits, stands for the byte they spell, else for
/// itself (the two bytes are dropped); every byte becomes the character with
/// that code point.
pub open spec fn url_decode(b: Seq<u8>) -> Seq<char>
    decreases b.len(),
{
    if b.len() == 0 {
        Seq::empty()
    } else if b[0] == 43 {
        seq![' '] + url_decode(b.drop_first())
    } else if b[0] == 37 {
        let rest = b.drop_first();
        let c = if rest.len() >= 2 && hex_spec(rest[0]) is Some && hex_spec(rest[1]) is Some {
            ((hex_spec(rest[0])->0 * 16 + hex_spec(rest[1])->0) as u8) as char
        } else {
            '%'
        };
        let n: int = if rest.len() >= 2 {
            2
        } else {
            rest.len() as int
        };
        seq![c] + url_decode(rest.skip(n))
    } else {
        seq![(b[0] as char)] + url_decode(b.drop_first())
    }
}

/// The key of a `key=value` pair (all of it when there is no `=`).
pub open spec fn pair_key(pair: Seq<char>) -> Seq<char> {
    match first_index(pair, '=') {
        Some(k) => pair.take(k),
        None => pair,
    }
}

/// The decoded value of a `key=value` pair (empty when there is no `=`).
pub open spec fn pair_value(pair: Seq<char>) -> Seq<char> {
    match first_index(pair, '=') {
        Some(k) => url_decode(encode_utf8(pair.skip(k + 1))),
        None => Seq::empty(),
    }
}

/// Whether `key` has the shape `filter[field]`.
pub open spec fn is_filter_key(key: Seq<char>) -> bool {
    starts_with(key, "filter["@) && key.len() > "filter["@.len() && key.last() == ']'
}

/// The `field` of a `filter[field]` key.
pub open spec fn filter_field(key: Seq<char>) -> Seq<char> {
    key.subrange("filter["@.len() as int, key.len() - 1)
}

/// The effect of one `key=value` pair of a query on the parameters read so far.
pub open spec fn apply_pair(m: QueryModel, pair: Seq<char>) -> QueryModel {
    let key = pair_key(pair);
    let value = pair_value(pair);
    if pair.len() == 0 {
        m
    } else if key == "page[number]"@ {
        match parse_usize_spec(value) {
            Some(n) => QueryModel {
                page: if n < 1 {
                    1
                } else {
                    n
                },
                ..m
            },
            None => m,
        }
    } else if key == "page[size]"@ {
        match parse_usize_spec(value) {
            Some(n) => QueryModel {
                per_page: if n < 1 {
                    1
                } else if n > 200 {
                    200
                } else {
                    n
                },
                ..m
            },
            None => m,
        }
    } else if key == "sort"@ {
        QueryModel { sort: Some(value), ..m }
    } else if key == "locale"@ {
        QueryModel { locale: Some(value), ..m }
    } else if key == "inc"@ + "lude"@ {
        QueryModel { includes: split_char(value, ',').map_values(|s: Seq<char>| trim(s)), ..m }
    } else if key == "query"@ {
        QueryModel { search: Some(value), ..m }
    } else if is_filter_key(key) {
        QueryModel { filters: assoc_insert(m.filters, filter_field(key), value), ..m }
    } else {
        m
    }
}

/// The effect of the pairs `pairs`, in order.
pub open spec fn apply_pairs(m: QueryModel, pairs: Seq<Seq<char>>) -> QueryModel
    decreases pairs.len(),
{
    if pairs.len() == 0 {
        m
    } else {
        apply_pairs(apply_pair(m, pairs[0]), pairs.drop_first())
    }
}

/// The parameters that the query string `q` (the part after `?`) gives.
pub open spec fn parse_query(q: Seq<char>) -> QueryModel {
    apply_pairs(default_query(), split_char(q, '&'))
}

/// The value of a hexadecimal digit byte.
pub fn hex_val(c: u8) -> (r: Option<u8>)
    ensures
        r == hex_spec(c),
{
    if 48 <= c && c <= 57 {
        Some(c - 48)
    } else if 97 <= c && c <= 102 {
        Some(c - 87)
    } else if 65 <= c && c <= 70 {
        Some(c - 55)
    } else {
        None
    }
}

/// Decodes a URL-encoded query value.
pub fn urldecode(s: &str) -> (r: String)
    ensures
        r@ == url_decode(encode_utf8(s@)),
{
    let b = s.as_bytes();
    let ghost bs = b@;
    assert(bs == encode_utf8(s@));
    let n = b.len();
    let mut out = String::new();
    let mut i: usize = 0;
    assert(bs.skip(0) =~= bs);
    while i < n
        invariant
            n == b@.len(),
            bs == b@,
            i <= n,
            url_decode(bs) == out@ + url_decode(bs.skip(i as int)),
        decreases n - i,
    {
        let ghost t = bs.skip(i as int);
        let c = b[i];
        assert(t[0] == c);
        if c == 43 {
            assert(t.drop_first() =~= bs.skip(i + 1));
            push_char(&mut out, ' ');
            assert(out@ + url_decode(bs.skip(i + 1)) =~= out@.drop_last() + url_decode(t));
            i += 1;
        } else if c == 37 {
            let ghost rest = t.drop_first();
            let avail = n - i - 1;
            let ch: char;
            if avail >= 2 {
                let hi = hex_val(b[i + 1]);
                let lo = hex_val(b[i + 2]);
                assert(rest[0] == b@[i + 1] && rest[1] == b@[i + 2]);
                match (hi, lo) {
                    (Some(h), Some(l)) => {
                        ch = (h * 16 + l) as char;
                    },
                    _ => {
                        ch = '%';
                    },
                }
                assert(rest.skip(2) =~= bs.skip(i + 3));
                push_char(&mut out, ch);
                assert(out@ + url_decode(bs.skip(i + 3)) =~= out@.drop_last() + url_decode(t));
                i += 3;
            } else {
                assert(rest.skip(rest.len() as int) =~= bs.skip(n as int));
                push_char(&mut out, '%');
                assert(out@ + url_decode(bs.skip(n as int)) =~= out@.drop_last() + url_decode(t));
                i = n;
            }
        } else {
            assert(t.drop_first() =~= bs.skip(i + 1));
            push_char(&mut out, c as char);
            assert(out@ + url_decode(bs.skip(i + 1)) =~= out@.drop_last() + url_decode(t));
            i += 1;
        }
    }
    assert(bs.skip(i as int) =~= Seq::<u8>::empty());
    assert(out@ + Seq::<char>::empty() =~= out@);
    out
}

/// Case-insensitive substring match for search: whether the lowercase form
/// of `haystack` contains the lowercase form of `needle`.
pub fn matches_search(haystack: &str, needle: &str) -> (r: bool)
    ensures
        r == seq_contains(lowercase(haystack@), lowercase(needle@)),
{
    let h = to_lowercase(haystack);
    let n = to_lowercase(needle);
    let hv = chars_of(h.as_str());
    let nv = chars_of(n.as_str());
    chars_contains(&hv, &nv)
}

/// The characters `v[lo..hi]`.
fn sub_chars(v: &Vec<char>, lo: usize, hi: usize) -> (r: Vec<char>)
    requires
        lo <= hi <= v.len(),
    ensures
        r@ == v@.subrange(lo as int, hi as int),
{
    let mut r: Vec<char> = Vec::new();
    let mut i = lo;
    while i < hi
        invariant
            lo <= i <= hi <= v.len(),
            r@ == v@.subrange(lo as int, i as int),
        decreases hi - i,
    {
        r.push(v[i]);
        i += 1;
    }
    r
}

/// The query key that lists related resources to embed.
fn includes_key() -> (r: Vec<char>)
    ensures
        r@ == "inc"@ + "lude"@,
{
    let mut r = chars_of("inc");
    let mut t = chars_of("lude");
    r.append(&mut t);
    r
}

/// Applies one `key=value` pair to `params`.
fn apply_pair_exec(params: &mut QueryParams, pair: &Vec<char>)
    requires
        keys_unique(old(params)@.filters),
    ensures
        final(params)@ == apply_pair(old(params)@, pair@),
        keys_unique(final(params)@.filters),
{
    if pair.len() == 0 {
        return ;
    }
    let eq = find_char(pair, '=');
    let (key, value) = match eq {
        Some(k) => {
            let key = sub_chars(pair, 0, k);
            let raw = string_from_range(pair, k + 1, pair.len());
            let value = urldecode(raw.as_str());
            assert(key@ =~= pair@.take(k as int));
            assert(raw@ =~= pair@.skip(k + 1));
            (key, value)
        },
        None => {
            let key = sub_chars(pair, 0, pair.len());
            assert(key@ =~= pair@);
            (key, String::new())
        },
    };
    assert(key@ == pair_key(pair@));
    assert(value@ == pair_value(pair@));
    if chars_eq(&key, &chars_of("page[number]")) {
        if let Some(n) = parse_usize(value.as_str()) {
            params.page = if n < 1 {
                1
            } else {
                n
            };
        }
    } else if chars_eq(&key, &chars_of("page[size]")) {
        if let Some(n) = parse_usize(value.as_str()) {
            params.per_page = if n < 1 {
                1
            } else if n > 200 {
                200
            } else {
                n
            };
        }
    } else if chars_eq(&key, &chars_of("sort")) {
        params.sort = Some(value);
    } else if chars_eq(&key, &chars_of("locale")) {
        params.locale = Some(value);
    } else if chars_eq(&key, &includes_key()) {
        let vc = chars_of(value.as_str());
        let ranges = split_ranges(&vc, ',');
        let mut inc: Vec<String> = Vec::new();
        let mut i: usize = 0;
        while i < ranges.len()
            invariant
                i <= ranges.len(),
                forall|k: int| 0 <= k < ranges.len() ==> (#[trigger] ranges@[k]).0 <= ranges@[k].1 <= vc.len(),
                pieces(vc@, ranges@) == split_char(vc@, ','),
                inc@.len() == i,
                forall|k: int| 0 <= k < i ==> (#[trigger] inc@[k])@ == trim(pieces(vc@, ranges@)[k]),
            decreases ranges.len() - i,
        {
            let (a, b) = ranges[i];
            let piece = sub_chars(&vc, a, b);
            inc.push(trim_chars(&piece));
            i += 1;
        }
        params.includes = inc;
        assert(strings_view(params.includes@) =~= split_char(value@, ',').map_values(
            |s: Seq<char>| trim(s),
        ));
    } else if chars_eq(&key, &chars_of("query")) {
        params.search = Some(value);
    } else {
        let prefix = chars_of("filter[");
        let plen = prefix.len();
        if chars_starts_with(&key, &prefix) && key.len() > plen && key[key.len() - 1] == ']' {
            let f = string_from_range(&key, plen, key.len() - 1);
            assoc_set(&mut params.filters, f, value);
        }
    }
}

impl QueryParams {
    /// Parses the query string of a request URL (the part after `?`).
    pub fn from_query(query: &str) -> (r: QueryParams)
        ensures
            r@ == parse_query(query@),
            keys_unique(r@.filters),
    {
        let q = chars_of(query);
        let ranges = split_ranges(&q, '&');
        let ghost pairs = split_char(q@, '&');
        let mut params = QueryParams {
            page: 1,
            per_page: 30,
            filters: Vec::new(),
            sort: None,
            search: None,
            locale: None,
            includes: Vec::new(),
        };
        assert(params@ =~= default_query()) by {
            assert(pairs_view(params.filters@) =~= Seq::<(Seq<char>, Seq<char>)>::empty());
            assert(strings_view(params.includes@) =~= Seq::<Seq<char>>::empty());
        }
        assert(pairs.skip(0) =~= pairs);
        let mut i: usize = 0;
        while i < ranges.len()
            invariant
                i <= ranges.len(),
                q@ == query@,
                pairs == split_char(q@, '&'),
                forall|k: int| 0 <= k < ranges.len() ==> (#[trigger] ranges@[k]).0 <= ranges@[k].1 <= q.len(),
                pieces(q@, ranges@) == pairs,
                parse_query(query@) == apply_pairs(params@, pairs.skip(i as int)),
                keys_unique(params@.filters),
            decreases ranges.len() - i,
        {
            let (a, b) = ranges[i];
            let pair = sub_chars(&q, a, b);
            assert(pair@ == pairs[i as int]);
            assert(pairs.skip(i as int)[0] == pairs[i as int]);
            assert(pairs.skip(i as int).drop_first() =~= pairs.skip(i + 1));
            apply_pair_exec(&mut params, &pair);
            i += 1;
        }
        assert(pairs.skip(i as int) =~= Seq::<Seq<char>>::empty());
        params
    }
}

} // verus!
