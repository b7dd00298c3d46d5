use vstd::prelude::*;

use crate::json::{deref_opt, json_get, json_str, JsonNumber, JsonValue};
use crate::models::manufacturer::Manufacturer;
use crate::models::vehicle::underscores_to_spaces;
use crate::query::opt_chars;
use crate::response::single;
use crate::sort::{
    doc_keys, docs_of, is_permutation, sort_by_json_path, sort_descending, sort_pointer, sorted_by,
    uniform,
};
use crate::text::{copy_str, lowercase, seq_contains, str_eq, to_lowercase};
use vstd::hash_map::StringHashMap;

verus! {

/// `o` holds a string whose lowercase form is `vl`.
pub open spec fn lower_is(o: Option<String>, vl: Seq<char>) -> bool {
    match o {
        Some(s) => lowercase(s@) == vl,
        None => false,
    }
}

/// `o` holds a string that the search text `q` matches.
pub open spec fn search_in(o: Option<String>, q: Seq<char>) -> bool {
    match o {
        Some(s) => seq_contains(lowercase(s@), lowercase(q)),
        None => false,
    }
}

/// A filter value that turns a flag on: `true` or `1`.
pub open spec fn truthy(vl: Seq<char>) -> bool {
    vl == "true"@ || vl == "1"@
}

/// The record that index `m` gives for `key`, if it gives one within `v`.
pub open spec fn indexed<T>(m: Map<Seq<char>, usize>, v: Seq<T>, key: Seq<char>) -> Option<T> {
    if m.contains_key(key) && m[key] < v.len() {
        Some(v[m[key] as int])
    } else {
        None
    }
}

/// The positions of `ok` that hold `true`, in order.
pub open spec fn selected(ok: Seq<bool>) -> Seq<usize>
    decreases ok.len(),
{
    if ok.len() == 0 {
        Seq::empty()
    } else if ok.last() {
        selected(ok.drop_last()).push((ok.len() - 1) as usize)
    } else {
        selected(ok.drop_last())
    }
}

/// `r` lists the records `cand` (whose documents are `docs`) in the order
/// that `sort` asks for: as they are without a sort; otherwise each once, in
/// the stable order of `sort_by_json_path` wherever that order is total.
pub open spec fn ordered_selection(
    cand: Seq<usize>,
    docs: Seq<JsonValue>,
    sort: Option<Seq<char>>,
    r: Seq<usize>,
) -> bool {
    match sort {
        None => r == cand,
        Some(sp) => exists|perm: Seq<usize>|
            #![trigger is_permutation(perm, cand.len() as nat)]
            {
                &&& is_permutation(perm, cand.len() as nat)
                &&& r == perm.map_values(|k: usize| cand[k as int])
                &&& uniform(doc_keys(docs, sort_pointer(sp))) ==> sorted_by(
                    doc_keys(docs, sort_pointer(sp)),
                    sort_descending(sp),
                    perm,
                )
            },
    }
}

/// A JSON string.
pub open spec fn str_json(s: String) -> JsonValue {
    JsonValue::String(s)
}

/// An optional string as JSON, or `null`.
pub open spec fn opt_string_json(o: Option<String>) -> JsonValue {
    match o {
        Some(s) => JsonValue::String(s),
        None => JsonValue::Null,
    }
}

/// An integer as JSON, as `serde_json` writes an `i64`.
pub open spec fn i64_json(i: i64) -> JsonValue {
    if i < 0 {
        JsonValue::Number(JsonNumber::NegInt(i))
    } else {
        JsonValue::Number(JsonNumber::PosInt(i as u64))
    }
}

/// An optional integer as JSON, or `null`.
pub open spec fn opt_i64_json(o: Option<i64>) -> JsonValue {
    match o {
        Some(i) => i64_json(i),
        None => JsonValue::Null,
    }
}

/// Member `i` of `m` has key `key` and value `v`.
pub open spec fn has_member(m: Seq<(String, JsonValue)>, i: int, key: Seq<char>, v: JsonValue) -> bool {
    m[i].0@ == key && m[i].1 == v
}

/// `v` is the string `s`.
pub open spec fn is_str(v: JsonValue, s: Seq<char>) -> bool {
    match v {
        JsonValue::String(x) => x@ == s,
        _ => false,
    }
}

/// `r` is the answer for a missing record: `{"error": "Not found", "message": message}`.
pub open spec fn not_found_ok(r: JsonValue, message: Seq<char>) -> bool {
    match r {
        JsonValue::Object(m) => m@.len() == 2 && m@[0].0@ == "error"@ && is_str(m@[0].1, "Not found"@)
            && m@[1].0@ == "message"@ && is_str(m@[1].1, message),
        _ => false,
    }
}

/// `r` is a single-record response written out: `{"data": d, "meta":
/// {"processed_at": ...}}` where `d` is `data`; the time is the clock's.
pub open spec fn single_ok(r: JsonValue, data: JsonValue) -> bool {
    match r {
        JsonValue::Object(m) => m@.len() == 2 && m@[0].0@ == "data"@ && m@[0].1 == data && m@[1].0@
            == "meta"@ && match m@[1].1 {
            JsonValue::Object(n) => n@.len() == 1 && n@[0].0@ == "processed_at"@ && n@[0].1 is String,
            _ => false,
        },
        _ => false,
    }
}

/// The search text of a search request body: its `query` member, when it is a string.
pub open spec fn body_query(body: JsonValue) -> Option<Seq<char>> {
    match json_get(body, "query"@) {
        Some(v) => match json_str(v) {
            Some(s) => Some(s@),
            None => None,
        },
        None => None,
    }
}

pub proof fn lemma_selected_step(ok: Seq<bool>, i: int)
    requires
        0 <= i < ok.len(),
    ensures
        selected(ok.take(i + 1)) == if ok[i] {
            selected(ok.take(i)).push(i as usize)
        } else {
            selected(ok.take(i))
        },
{
    assert(ok.take(i + 1).drop_last() =~= ok.take(i));
}

pub proof fn lemma_selected_bounds(ok: Seq<bool>)
    ensures
        forall|k: int| 0 <= k < selected(ok).len() ==> #[trigger] selected(ok)[k] < ok.len(),
        selected(ok).len() <= ok.len(),
    decreases ok.len(),
{
    if ok.len() > 0 {
        lemma_selected_bounds(ok.drop_last());
    }
}

/// Whether the lowercase form of `s` is `vl`.
pub fn lower_equals(s: &str, vl: &str) -> (r: bool)
    ensures
        r == (lowercase(s@) == vl@),
{
    let l = to_lowercase(s);
    str_eq(l.as_str(), vl)
}

/// Whether `o` holds a string whose lowercase form is `vl`.
pub fn opt_lower_is(o: &Option<String>, vl: &str) -> (r: bool)
    ensures
        r == lower_is(*o, vl@),
{
    match o {
        Some(s) => lower_equals(s.as_str(), vl),
        None => false,
    }
}

/// Whether `o` holds a string that `q` matches.
pub fn opt_search_in(o: &Option<String>, q: &str) -> (r: bool)
    ensures
        r == search_in(*o, q@),
{
    match o {
        Some(s) => crate::query::matches_search(s.as_str(), q),
        None => false,
    }
}

/// Whether a filter value turns a flag on.
pub fn is_truthy(vl: &str) -> (r: bool)
    ensures
        r == truthy(vl@),
{
    str_eq(vl, "true") || str_eq(vl, "1")
}

/// The record that index `m` gives for `key`.
pub fn lookup<'a, T>(m: &StringHashMap<usize>, v: &'a Vec<T>, key: &str) -> (r: Option<&'a T>)
    ensures
        deref_opt(r) == indexed(m@, v@, key@),
{
    match m.get(key) {
        Some(i) => {
            if *i < v.len() {
                Some(&v[*i])
            } else {
                None
            }
        },
        None => None,
    }
}

/// Puts the records `cand`, whose documents are `datas`, in the order that
/// `sort` asks for.
pub fn order_selection(
    cand: Vec<usize>,
    datas: &Vec<&JsonValue>,
    sort: &Option<String>,
    Ghost(bound): Ghost<nat>,
) -> (r: Vec<usize>)
    requires
        datas.len() == cand.len(),
        forall|j: int| 0 <= j < cand.len() ==> #[trigger] cand@[j] < bound,
    ensures
        ordered_selection(
            cand@,
            docs_of(datas@),
            opt_chars(*sort),
            r@,
        ),
        forall|k: int| 0 <= k < r.len() ==> #[trigger] r@[k] < bound,
        r.len() == cand.len(),
{
    match sort {
        None => cand,
        Some(sp) => {
            let perm = sort_by_json_path(datas, sp.as_str());
            assert(perm.len() == cand.len());
            let mut r: Vec<usize> = Vec::new();
            let mut k: usize = 0;
            while k < perm.len()
                invariant
                    is_permutation(perm@, cand.len() as nat),
                    k <= perm.len(),
                    r@ == perm@.take(k as int).map_values(|x: usize| cand@[x as int]),
                decreases perm.len() - k,
            {
                assert(perm@[k as int] < cand.len());
                r.push(cand[perm[k]]);
                assert(perm@.take(k + 1).map_values(|x: usize| cand@[x as int]) =~= perm@.take(
                    k as int,
                ).map_values(|x: usize| cand@[x as int]).push(cand@[perm@[k as int] as int]));
                k = k + 1;
            }
            proof {
                assert(perm@.take(k as int) =~= perm@);
                assert forall|i: int| 0 <= i < r.len() implies #[trigger] r@[i] < bound by {
                    assert(r@[i] == cand@[perm@[i] as int]);
                }
            }
            r
        },
    }
}

/// A JSON object member.
pub fn member(key: &str, v: JsonValue) -> (r: (String, JsonValue))
    ensures
        r.0@ == key@,
        r.1 == v,
{
    (copy_str(key), v)
}

/// An optional string as JSON.
pub fn opt_string_json_exec(o: &Option<String>) -> (r: JsonValue)
    ensures
        r == opt_string_json(*o),
{
    match o {
        Some(s) => JsonValue::String(s.clone()),
        None => JsonValue::Null,
    }
}

/// An integer as JSON.
pub fn i64_json_exec(i: i64) -> (r: JsonValue)
    ensures
        r == i64_json(i),
{
    if i < 0 {
        JsonValue::Number(JsonNumber::NegInt(i))
    } else {
        JsonValue::Number(JsonNumber::PosInt(i as u64))
    }
}

/// An optional integer as JSON.
pub fn opt_i64_json_exec(o: Option<i64>) -> (r: JsonValue)
    ensures
        r == opt_i64_json(o),
{
    match o {
        Some(i) => i64_json_exec(i),
        None => JsonValue::Null,
    }
}

/// The answer for a missing record.
pub fn not_found(message: String) -> (r: JsonValue)
    ensures
        not_found_ok(r, message@),
{
    let mut m: Vec<(String, JsonValue)> = Vec::new();
    m.push(member("error", JsonValue::String(copy_str("Not found"))));
    m.push(member("message", JsonValue::String(message)));
    JsonValue::Object(m)
}

/// A single-record response, written out as JSON.
pub fn single_json(data: JsonValue) -> (r: JsonValue)
    ensures
        single_ok(r, data),
{
    let s = single(data);
    let mut meta: Vec<(String, JsonValue)> = Vec::new();
    meta.push(member("processed_at", JsonValue::String(s.meta.processed_at)));
    let mut m: Vec<(String, JsonValue)> = Vec::new();
    m.push(member("data", s.data));
    m.push(member("meta", JsonValue::Object(meta)));
    JsonValue::Object(m)
}

/// The search text of a search request body.
pub fn search_text(body: &JsonValue) -> (r: Option<String>)
    ensures
        opt_chars(r) == body_query(*body),
{
    match body.get("query") {
        Some(v) => match v.as_str() {
            Some(s) => Some(s.clone()),
            None => None,
        },
        None => None,
    }
}

/// `v` is the reference to a manufacturer in a response: `{"uuid", "name",
/// "code"}`, or `null` without one.
pub open spec fn manufacturer_ref_ok(v: JsonValue, m: Option<Manufacturer>) -> bool {
    match m {
        None => v is Null,
        Some(m) => match v {
            JsonValue::Object(e) => e@.len() == 3 && has_member(e@, 0, "uuid"@, str_json(m.uuid))
                && has_member(e@, 1, "name"@, str_json(m.name)) && has_member(
                e@,
                2,
                "code"@,
                str_json(m.code),
            ),
            _ => false,
        },
    }
}

/// `v` is the array of the strings `s`.
pub open spec fn strings_json_ok(v: JsonValue, s: Seq<String>) -> bool {
    match v {
        JsonValue::Array(a) => a@.len() == s.len() && forall|i: int|
            0 <= i < s.len() ==> #[trigger] a@[i] == str_json(s[i]),
        _ => false,
    }
}

/// The reference to a manufacturer in a response.
pub fn manufacturer_ref(m: Option<&Manufacturer>) -> (r: JsonValue)
    ensures
        manufacturer_ref_ok(r, deref_opt(m)),
{
    match m {
        Some(m) => {
            let mut e: Vec<(String, JsonValue)> = Vec::new();
            e.push(member("uuid", JsonValue::String(m.uuid.clone())));
            e.push(member("name", JsonValue::String(m.name.clone())));
            e.push(member("code", JsonValue::String(m.code.clone())));
            JsonValue::Object(e)
        },
        None => JsonValue::Null,
    }
}

/// The array of the strings `s`.
pub fn strings_json(s: &Vec<String>) -> (r: JsonValue)
    ensures
        strings_json_ok(r, s@),
{
    let mut a: Vec<JsonValue> = Vec::new();
    let mut i: usize = 0;
    while i < s.len()
        invariant
            i <= s.len(),
            a@.len() == i,
            forall|k: int| 0 <= k < i ==> #[trigger] a@[k] == str_json(s@[k]),
        decreases s.len() - i,
    {
        a.push(JsonValue::String(s[i].clone()));
        i = i + 1;
    }
    JsonValue::Array(a)
}

/// `s` with every `_` replaced by a space.
pub fn replace_underscores(s: &str) -> (r: String)
    ensures
        r@ == underscores_to_spaces(s@),
{
    let v = crate::text::chars_of(s);
    let mut out: Vec<char> = Vec::new();
    let mut i: usize = 0;
    while i < v.len()
        invariant
            v@ == s@,
            i <= v.len(),
            out@ == underscores_to_spaces(s@).take(i as int),
        decreases v.len() - i,
    {
        let c = if v[i] == '_' {
            ' '
        } else {
            v[i]
        };
        out.push(c);
        assert(out@ =~= underscores_to_spaces(s@).take(i + 1));
        i = i + 1;
    }
    assert(out@ =~= underscores_to_spaces(s@));
    crate::text::string_from_chars(&out)
}

/// The strings that `vals` hold, each once, in the order they first occur.
pub open spec fn distinct(vals: Seq<Option<Seq<char>>>) -> Seq<Seq<char>>
    decreases vals.len(),
{
    if vals.len() == 0 {
        Seq::empty()
    } else {
        let r = distinct(vals.drop_last());
        match vals.last() {
            Some(s) => if r.contains(s) {
                r
            } else {
                r.push(s)
            },
            None => r,
        }
    }
}

/// `v` is the array of the strings `d`.
pub open spec fn strs_json_ok(v: JsonValue, d: Seq<Seq<char>>) -> bool {
    match v {
        JsonValue::Array(a) => a@.len() == d.len() && forall|i: int|
            0 <= i < d.len() ==> is_str(#[trigger] a@[i], d[i]),
        _ => false,
    }
}

/// The position of the first `true` of `ok`.
pub open spec fn first_true(ok: Seq<bool>) -> Option<int>
    decreases ok.len(),
{
    if ok.len() == 0 {
        None
    } else if ok[0] {
        Some(0)
    } else {
        match first_true(ok.drop_first()) {
            Some(i) => Some(i + 1),
            None => None,
        }
    }
}

pub proof fn lemma_first_true(ok: Seq<bool>, i: int)
    requires
        0 <= i <= ok.len(),
        forall|j: int| 0 <= j < i ==> !ok[j],
    ensures
        i < ok.len() && ok[i] ==> first_true(ok) == Some(i),
        i == ok.len() ==> first_true(ok) is None,
    decreases i,
{
    if i > 0 {
        lemma_first_true(ok.drop_first(), i - 1);
    }
}

/// The view of the strings of `v`.
pub open spec fn views(v: Seq<String>) -> Seq<Seq<char>> {
    v.map_values(|s: String| s@)
}

/// Appends `s` to `out` unless it holds it already.
pub fn push_distinct(out: &mut Vec<String>, s: &String)
    ensures
        views(final(out)@) == if views(old(out)@).contains(s@) {
            views(old(out)@)
        } else {
            views(old(out)@).push(s@)
        },
{
    let mut i: usize = 0;
    while i < out.len()
        invariant
            i <= out.len(),
            forall|j: int| 0 <= j < i ==> out@[j]@ != s@,
        decreases out.len() - i,
    {
        if str_eq(out[i].as_str(), s.as_str()) {
            assert(views(out@)[i as int] == s@);
            return;
        }
        i = i + 1;
    }
    proof {
        assert forall|j: int| 0 <= j < views(out@).len() implies views(out@)[j] != s@ by {
            assert(out@[j]@ != s@);
        }
    }
    let ghost before = out@;
    out.push(s.clone());
    assert(views(out@) =~= views(before).push(s@));
}

/// The array of the strings `v`.
pub fn views_json(v: &Vec<String>) -> (r: JsonValue)
    ensures
        strs_json_ok(r, views(v@)),
{
    let mut a: Vec<JsonValue> = Vec::new();
    let mut i: usize = 0;
    while i < v.len()
        invariant
            i <= v.len(),
            a@.len() == i,
            forall|k: int| 0 <= k < i ==> is_str(#[trigger] a@[k], views(v@)[k]),
        decreases v.len() - i,
    {
        a.push(JsonValue::String(v[i].clone()));
        i = i + 1;
    }
    JsonValue::Array(a)
}

/// The characters of the optional strings that `vals` refer to.
pub open spec fn opt_views(vals: Seq<&Option<String>>) -> Seq<Option<Seq<char>>> {
    vals.map_values(|o: &Option<String>| opt_chars(*o))
}

/// The strings that `vals` hold, each once, in the order they first occur.
pub fn distinct_strings(vals: &Vec<&Option<String>>) -> (r: Vec<String>)
    ensures
        views(r@) == distinct(opt_views(vals@)),
{
    let mut out: Vec<String> = Vec::new();
    let mut i: usize = 0;
    while i < vals.len()
        invariant
            i <= vals.len(),
            views(out@) == distinct(opt_views(vals@).take(i as int)),
        decreases vals.len() - i,
    {
        assert(opt_views(vals@).take(i + 1).drop_last() =~= opt_views(vals@).take(i as int));
        match vals[i] {
            Some(s) => push_distinct(&mut out, s),
            None => {},
        }
        i = i + 1;
    }
    assert(opt_views(vals@).take(i as int) =~= opt_views(vals@));
    out
}

/// `r` is an object whose members are the named string arrays.
pub open spec fn lists_ok(r: JsonValue, names: Seq<Seq<char>>, lists: Seq<Seq<Seq<char>>>) -> bool {
    match r {
        JsonValue::Object(m) => m@.len() == names.len() && names.len() == lists.len() && forall|i: int|
            0 <= i < names.len() ==> (#[trigger] m@[i]).0@ == names[i] && strs_json_ok(
                m@[i].1,
                lists[i],
            ),
        _ => false,
    }
}

/// `r` is the bare answer for a missing record: `{"error": "Not found"}`.
pub open spec fn bare_not_found_ok(r: JsonValue) -> bool {
    match r {
        JsonValue::Object(m) => m@.len() == 1 && m@[0].0@ == "error"@ && is_str(m@[0].1, "Not found"@),
        _ => false,
    }
}

/// The bare answer for a missing record.
pub fn bare_not_found() -> (r: JsonValue)
    ensures
        bare_not_found_ok(r),
{
    let mut m: Vec<(String, JsonValue)> = Vec::new();
    m.push(member("error", JsonValue::String(copy_str("Not found"))));
    JsonValue::Object(m)
}

/// The data member of a single-record response.
pub open spec fn single_data(r: JsonValue) -> JsonValue {
    match r {
        JsonValue::Object(m) => if m@.len() > 0 {
            m@[0].1
        } else {
            JsonValue::Null
        },
        _ => JsonValue::Null,
    }
}

/// `'{id}'` between `before` and `after`.
pub open spec fn quoted(before: Seq<char>, id: Seq<char>, after: Seq<char>) -> Seq<char> {
    before + "'"@ + id + "'"@ + after
}

/// `{before}'{id}' not found`.
pub fn not_found_message(before: &str, id: &str) -> (r: String)
    ensures
        r@ == quoted(before@, id@, " not found"@),
{
    let mut m = copy_str(before);
    crate::text::push_str(&mut m, "'");
    crate::text::push_str(&mut m, id);
    crate::text::push_str(&mut m, "'");
    crate::text::push_str(&mut m, " not found");
    m
}

/// The query `p` with the search text of a search request body, where it has one.
pub open spec fn with_search(p: crate::query::QueryModel, q: Option<Seq<char>>) -> crate::query::QueryModel {
    match q {
        Some(t) => crate::query::QueryModel { search: Some(t), ..p },
        None => p,
    }
}

} // verus!
