use vstd::prelude::*;

use crate::json::{json_same, JsonValue};
use crate::query::opt_chars;
use crate::text::{
    byte_to_char, byte_to_char_exec, char_is_whitespace, chars_eq, chars_of, chars_starts_with,
    collapse_whitespace, is_white_space, join_space, lowercase, starts_with, str_eq, to_lowercase,
    trim, trim_chars, trim_start, trim_str, utf8_len, utf8_len_exec, words,
};

verus! {

/// The manufacturer that a vehicle file names.
pub struct ManufacturerRef {
    pub uuid: Option<String>,
    pub name: Option<String>,
}

/// A vehicle file (`ships/*.json`): the fields that the API reads, and the
/// other top-level members as they were.
pub struct VehicleFilePayload {
    pub uuid: Option<String>,
    pub class_name: Option<String>,
    pub name: Option<String>,
    pub career: Option<String>,
    pub role: Option<String>,
    pub is_vehicle: Option<bool>,
    pub is_gravlev: Option<bool>,
    pub is_spaceship: Option<bool>,
    pub size: Option<JsonValue>,
    pub manufacturer: Option<ManufacturerRef>,
    pub extra: JsonValue,
}

/// In-memory vehicle record.
pub struct Vehicle {
    pub uuid: String,
    pub name: Option<String>,
    pub display_name: Option<String>,
    pub class_name: Option<String>,
    pub career: Option<String>,
    pub role: Option<String>,
    pub is_vehicle: bool,
    pub is_gravlev: bool,
    pub is_spaceship: bool,
    pub size: Option<JsonValue>,
    pub manufacturer_uuid: Option<String>,
    /// The whole file as a JSON document.
    pub data: JsonValue,
    /// Translations keyed by locale, each locale once.
    pub translations: Vec<(String, String)>,
}

/// `s` with every `_` replaced by a space.
pub open spec fn underscores_to_spaces(s: Seq<char>) -> Seq<char> {
    s.map_values(|c: char|
        if c == '_' {
            ' '
        } else {
            c
        })
}

/// The vehicle name tidied for display: trimmed, `_` read as a space, runs
/// of white space made single spaces.
pub open spec fn normalize_name(s: Seq<char>) -> Seq<char> {
    join_space(words(underscores_to_spaces(trim(s))))
}

/// The index of the first white-space character of `s`, or its length.
pub open spec fn first_ws_index(s: Seq<char>) -> int
    decreases s.len(),
{
    if s.len() == 0 {
        0
    } else if is_white_space(s[0]) {
        0
    } else {
        first_ws_index(s.drop_first()) + 1
    }
}

/// The first white-space separated word of `s`, if any.
pub open spec fn leading_word(s: Seq<char>) -> Option<Seq<char>> {
    let t = trim_start(s);
    if t.len() == 0 {
        None
    } else {
        Some(t.take(first_ws_index(t)))
    }
}

/// The prefixes that may stand for manufacturer `m` at the start of a
/// vehicle name, in the order they are tried: a known abbreviation, the
/// full name, then its first word.
pub open spec fn name_candidates(m: Seq<char>) -> Seq<Seq<char>> {
    let base = if m == "Roberts Space Industries"@ {
        seq!["RSI"@, m]
    } else if m == "Consolidated Outland"@ {
        seq!["C.O."@, m]
    } else if m == "Musashi Industrial & Starflight Concern"@ {
        seq!["MISC"@, m]
    } else {
        seq![m]
    };
    match leading_word(m) {
        Some(w) => if base.contains(w) {
            base
        } else {
            base.push(w)
        },
        None => base,
    }
}

/// Whether trying prefix `p` on `norm` reaches the case-insensitive branch
/// and then cuts `norm` at a byte offset that is not a character boundary
/// (where slicing the `str` there would panic).
pub open spec fn strip_candidate_panics(norm: Seq<char>, p: Seq<char>) -> bool {
    &&& !(starts_with(norm, p) && trim(norm.skip(p.len() as int)).len() > 0)
    &&& starts_with(lowercase(norm), lowercase(p))
    &&& byte_to_char(norm, utf8_len(p) as int) is None
}

/// The display name that prefix `p` yields for `norm`, if it yields one:
/// `norm` without `p` (exactly, or ignoring case, by `p`'s byte length),
/// trimmed, when something is left.
pub open spec fn strip_candidate(norm: Seq<char>, p: Seq<char>) -> Option<Seq<char>> {
    if starts_with(norm, p) && trim(norm.skip(p.len() as int)).len() > 0 {
        Some(trim(norm.skip(p.len() as int)))
    } else if starts_with(lowercase(norm), lowercase(p)) {
        match byte_to_char(norm, utf8_len(p) as int) {
            Some(j) => if trim(norm.skip(j)).len() > 0 {
                Some(trim(norm.skip(j)))
            } else {
                None
            },
            None => None,
        }
    } else {
        None
    }
}

/// The display name that the first yielding prefix of `cands` gives.
pub open spec fn strip_candidates(norm: Seq<char>, cands: Seq<Seq<char>>) -> Option<Seq<char>>
    decreases cands.len(),
{
    if cands.len() == 0 {
        None
    } else {
        match strip_candidate(norm, cands[0]) {
            Some(x) => Some(x),
            None => strip_candidates(norm, cands.drop_first()),
        }
    }
}

/// Whether trying the prefixes `cands` in turn never panics.
pub open spec fn strip_candidates_ok(norm: Seq<char>, cands: Seq<Seq<char>>) -> bool
    decreases cands.len(),
{
    if cands.len() == 0 {
        true
    } else {
        !strip_candidate_panics(norm, cands[0]) && (strip_candidate(norm, cands[0]) is Some
            || strip_candidates_ok(norm, cands.drop_first()))
    }
}

/// The display name of a vehicle called `name` made by `mfr`: the tidied
/// name without the manufacturer's name (or abbreviation) at its start.
pub open spec fn display_name(name: Option<Seq<char>>, mfr: Option<Seq<char>>) -> Option<Seq<char>> {
    match name {
        None => None,
        Some(n) => if trim(n).len() == 0 {
            None
        } else {
            let norm = normalize_name(n);
            match mfr {
                None => Some(norm),
                Some(m) => match strip_candidates(norm, name_candidates(m)) {
                    Some(x) => Some(x),
                    None => Some(norm),
                },
            }
        },
    }
}

/// Whether computing the display name does not panic.
pub open spec fn display_name_ok(name: Option<Seq<char>>, mfr: Option<Seq<char>>) -> bool {
    match (name, mfr) {
        (Some(n), Some(m)) => trim(n).len() == 0 || strip_candidates_ok(
            normalize_name(n),
            name_candidates(m),
        ),
        _ => true,
    }
}

/// The characters of an optional string slice.
pub open spec fn opt_str_chars(o: Option<&str>) -> Option<Seq<char>> {
    match o {
        Some(s) => Some(s@),
        None => None,
    }
}

/// Whether the views of `v` are `s`.
pub open spec fn char_vecs_are(v: Seq<Vec<char>>, s: Seq<Seq<char>>) -> bool {
    v.len() == s.len() && forall|i: int| 0 <= i < v.len() ==> (#[trigger] v[i])@ == s[i]
}

proof fn lemma_first_ws_index(s: Seq<char>, j: int)
    requires
        0 <= j <= s.len(),
        forall|k: int| 0 <= k < j ==> !is_white_space(#[trigger] s[k]),
        j == s.len() || is_white_space(s[j]),
    ensures
        first_ws_index(s) == j,
    decreases j,
{
    if j > 0 {
        let u = s.drop_first();
        assert(!is_white_space(s[0]));
        assert forall|k: int| 0 <= k < j - 1 implies !is_white_space(#[trigger] u[k]) by {
            assert(u[k] == s[k + 1]);
        }
        if j < s.len() {
            assert(u[j - 1] == s[j]);
        }
        lemma_first_ws_index(u, j - 1);
    }
}

proof fn lemma_trim_start_skip(s: Seq<char>, i: int)
    requires
        0 <= i <= s.len(),
        forall|k: int| 0 <= k < i ==> is_white_space(#[trigger] s[k]),
        i == s.len() || !is_white_space(s[i]),
    ensures
        trim_start(s) == s.skip(i),
    decreases i,
{
    if i == 0 {
        assert(s.skip(0) =~= s);
    } else {
        let t = s.drop_first();
        assert forall|k: int| 0 <= k < i - 1 implies is_white_space(#[trigger] t[k]) by {
            assert(t[k] == s[k + 1]);
        }
        if i - 1 < t.len() {
            assert(t[i - 1] == s[i]);
        }
        lemma_trim_start_skip(t, i - 1);
        assert(t.skip(i - 1) =~= s.skip(i));
    }
}

/// The first white-space separated word of `v`.
fn leading_word_exec(v: &Vec<char>) -> (r: Option<Vec<char>>)
    ensures
        match r {
            Some(w) => leading_word(v@) == Some(w@),
            None => leading_word(v@) is None,
        },
{
    let n = v.len();
    let mut i: usize = 0;
    while i < n && char_is_whitespace(v[i])
        invariant
            i <= n == v.len(),
            forall|k: int| 0 <= k < i ==> is_white_space(#[trigger] v@[k]),
        decreases n - i,
    {
        i += 1;
    }
    proof {
        lemma_trim_start_skip(v@, i as int);
    }
    if i == n {
        return None;
    }
    let mut j: usize = i;
    while j < n && !char_is_whitespace(v[j])
        invariant
            i <= j <= n == v.len(),
            forall|k: int| i <= k < j ==> !is_white_space(#[trigger] v@[k]),
        decreases n - j,
    {
        j += 1;
    }
    let mut w: Vec<char> = Vec::new();
    let mut k: usize = i;
    while k < j
        invariant
            i <= k <= j <= n == v.len(),
            w@ == v@.subrange(i as int, k as int),
        decreases j - k,
    {
        w.push(v[k]);
        k += 1;
    }
    proof {
        let t = v@.skip(i as int);
        assert forall|m: int| 0 <= m < j - i implies !is_white_space(#[trigger] t[m]) by {
            assert(t[m] == v@[m + i]);
        }
        if j < n {
            assert(t[j - i] == v@[j as int]);
        }
        lemma_first_ws_index(t, j - i);
        assert(t.take(j - i) =~= w@);
    }
    Some(w)
}

/// Whether one of `cands` is `w`.
fn contains_chars(cands: &Vec<Vec<char>>, w: &Vec<char>, ghost_cands: Ghost<Seq<Seq<char>>>) -> (r: bool)
    requires
        char_vecs_are(cands@, ghost_cands@),
    ensures
        r == ghost_cands@.contains(w@),
{
    let mut i: usize = 0;
    while i < cands.len()
        invariant
            char_vecs_are(cands@, ghost_cands@),
            i <= cands.len(),
            forall|k: int| 0 <= k < i ==> ghost_cands@[k] != w@,
        decreases cands.len() - i,
    {
        if chars_eq(&cands[i], w) {
            assert(ghost_cands@[i as int] == w@);
            return true;
        }
        i += 1;
    }
    false
}

/// The prefixes tried for manufacturer `m`.
fn name_candidates_exec(m: &str) -> (r: Vec<Vec<char>>)
    ensures
        char_vecs_are(r@, name_candidates(m@)),
{
    let mc = chars_of(m);
    let mut base: Vec<Vec<char>> = Vec::new();
    let ghost gbase: Seq<Seq<char>>;
    if str_eq(m, "Roberts Space Industries") {
        base.push(chars_of("RSI"));
        proof {
            gbase = seq!["RSI"@, m@];
        }
    } else if str_eq(m, "Consolidated Outland") {
        base.push(chars_of("C.O."));
        proof {
            gbase = seq!["C.O."@, m@];
        }
    } else if str_eq(m, "Musashi Industrial & Starflight Concern") {
        base.push(chars_of("MISC"));
        proof {
            gbase = seq!["MISC"@, m@];
        }
    } else {
        proof {
            gbase = seq![m@];
        }
    }
    base.push(chars_of(m));
    assert(char_vecs_are(base@, gbase));
    match leading_word_exec(&mc) {
        Some(w) => {
            if !contains_chars(&base, &w, Ghost(gbase)) {
                base.push(w);
                assert(char_vecs_are(base@, gbase.push(w@)));
            }
        },
        None => {},
    }
    base
}

/// The characters `v[lo..]` without leading and trailing white space.
fn trim_tail(v: &Vec<char>, lo: usize) -> (r: String)
    requires
        lo <= v.len(),
    ensures
        r@ == trim(v@.skip(lo as int)),
{
    let mut t: Vec<char> = Vec::new();
    let mut i = lo;
    while i < v.len()
        invariant
            lo <= i <= v.len(),
            t@ == v@.subrange(lo as int, i as int),
        decreases v.len() - i,
    {
        t.push(v[i]);
        i += 1;
    }
    assert(t@ =~= v@.skip(lo as int));
    trim_chars(&t)
}

/// Tries prefix `p` on `norm`: `None` where cutting the name would panic, else the
/// display name that `p` yields, if any.
fn strip_candidate_exec(norm: &Vec<char>, norm_str: &str, p: &Vec<char>) -> (r: Option<
    Option<String>,
>)
    requires
        norm_str@ == norm@,
    ensures
        r is None <==> strip_candidate_panics(norm@, p@),
        r matches Some(x) ==> opt_chars(x) == strip_candidate(norm@, p@),
{
    if chars_starts_with(norm, p) {
        let t = trim_tail(norm, p.len());
        if !t.as_str().is_empty() {
            return Some(Some(t));
        }
    }
    let lower = to_lowercase(norm_str);
    let ps = crate::text::string_from_chars(p);
    let plower = to_lowercase(ps.as_str());
    let lc = chars_of(lower.as_str());
    let plc = chars_of(plower.as_str());
    if chars_starts_with(&lc, &plc) {
        let b = utf8_len_exec(p);
        match byte_to_char_exec(norm, b) {
            Some(j) => {
                let t = trim_tail(norm, j);
                if !t.as_str().is_empty() {
                    Some(Some(t))
                } else {
                    Some(None)
                }
            },
            None => None,
        }
    } else {
        Some(None)
    }
}

/// The display name of a vehicle: `None` (outer) where cutting the name by
/// byte length would land inside a character, which panics in `str` slicing.
pub fn display_name_checked(name: Option<&str>, manufacturer_name: Option<&str>) -> (r: Option<
    Option<String>,
>)
    ensures
        r is Some <==> display_name_ok(opt_str_chars(name), opt_str_chars(manufacturer_name)),
        r matches Some(x) ==> opt_chars(x) == display_name(
            opt_str_chars(name),
            opt_str_chars(manufacturer_name),
        ),
{
    let n = match name {
        Some(n) => n,
        None => {
            return Some(None);
        },
    };
    let trimmed = trim_str(n);
    if trimmed.as_str().is_empty() {
        return Some(None);
    }
    let tc = chars_of(trimmed.as_str());
    let mut replaced: Vec<char> = Vec::new();
    let mut i: usize = 0;
    while i < tc.len()
        invariant
            i <= tc.len(),
            replaced@ == underscores_to_spaces(tc@).take(i as int),
        decreases tc.len() - i,
    {
        let c = tc[i];
        replaced.push(
            if c == '_' {
                ' '
            } else {
                c
            },
        );
        assert(replaced@ =~= underscores_to_spaces(tc@).take(i + 1));
        i += 1;
    }
    assert(replaced@ =~= underscores_to_spaces(tc@));
    let normalized = collapse_whitespace(&replaced);
    let mfr = match manufacturer_name {
        Some(m) => m,
        None => {
            return Some(Some(normalized));
        },
    };
    let norm = chars_of(normalized.as_str());
    let cands = name_candidates_exec(mfr);
    let ghost gc = name_candidates(mfr@);
    let mut k: usize = 0;
    assert(gc.skip(0) =~= gc);
    while k < cands.len()
        invariant
            char_vecs_are(cands@, gc),
            norm@ == normalized@,
            name == Some(n),
            manufacturer_name == Some(mfr),
            norm@ == normalize_name(n@),
            trim(n@).len() > 0,
            gc == name_candidates(mfr@),
            k <= cands.len(),
            strip_candidates(norm@, gc) == strip_candidates(norm@, gc.skip(k as int)),
            strip_candidates_ok(norm@, gc) == strip_candidates_ok(norm@, gc.skip(k as int)),
        decreases cands.len() - k,
    {
        let ghost rest = gc.skip(k as int);
        assert(rest[0] == cands@[k as int]@);
        assert(rest.drop_first() =~= gc.skip(k + 1));
        match strip_candidate_exec(&norm, normalized.as_str(), &cands[k]) {
            None => {
                return None;
            },
            Some(Some(x)) => {
                return Some(Some(x));
            },
            Some(None) => {},
        }
        k += 1;
    }
    assert(gc.skip(k as int) =~= Seq::<Seq<char>>::empty());
    Some(Some(normalized))
}

/// The display name of a vehicle called `name` made by `manufacturer_name`.
pub fn generate_display_name(name: Option<&str>, manufacturer_name: Option<&str>) -> (r: Option<
    String,
>)
    requires
        display_name_ok(opt_str_chars(name), opt_str_chars(manufacturer_name)),
    ensures
        opt_chars(r) == display_name(opt_str_chars(name), opt_str_chars(manufacturer_name)),
{
    match display_name_checked(name, manufacturer_name) {
        Some(x) => x,
        None => None,
    }
}


/// A string as JSON, or `null`.
pub open spec fn opt_str_json(o: Option<String>) -> JsonValue {
    match o {
        Some(s) => JsonValue::String(s),
        None => JsonValue::Null,
    }
}

/// A boolean as JSON, or `null`.
pub open spec fn opt_bool_json(o: Option<bool>) -> JsonValue {
    match o {
        Some(b) => JsonValue::Bool(b),
        None => JsonValue::Null,
    }
}

/// Member `i` of `m` has key `key` and value `v`.
pub open spec fn member_is(m: Seq<(String, JsonValue)>, i: int, key: Seq<char>, v: JsonValue) -> bool {
    m[i].0@ == key && m[i].1 == v
}

/// `v` is the JSON form of the manufacturer reference `o`.
pub open spec fn manufacturer_json(o: Option<ManufacturerRef>, v: JsonValue) -> bool {
    match o {
        None => v is Null,
        Some(r) => match v {
            JsonValue::Object(e) => e@.len() == 2 && member_is(e@, 0, "UUID"@, opt_str_json(r.uuid))
                && member_is(e@, 1, "Name"@, opt_str_json(r.name)),
            _ => false,
        },
    }
}

/// The first ten members of `m` are the named fields of `p`, in declaration order.
pub open spec fn payload_members(p: VehicleFilePayload, m: Seq<(String, JsonValue)>) -> bool {
    &&& m.len() >= 10
    &&& member_is(m, 0, "UUID"@, opt_str_json(p.uuid))
    &&& member_is(m, 1, "ClassName"@, opt_str_json(p.class_name))
    &&& member_is(m, 2, "Name"@, opt_str_json(p.name))
    &&& member_is(m, 3, "Career"@, opt_str_json(p.career))
    &&& member_is(m, 4, "Role"@, opt_str_json(p.role))
    &&& member_is(m, 5, "IsVehicle"@, opt_bool_json(p.is_vehicle))
    &&& member_is(m, 6, "IsGravlev"@, opt_bool_json(p.is_gravlev))
    &&& member_is(m, 7, "IsSpaceship"@, opt_bool_json(p.is_spaceship))
    &&& m[8].0@ == "Size"@
    &&& match p.size {
        Some(sz) => json_same(sz, m[8].1),
        None => m[8].1 is Null,
    }
    &&& m[9].0@ == "Manufacturer"@
    &&& manufacturer_json(p.manufacturer, m[9].1)
}

/// `data` is `p` written back as JSON (as `serde_json::to_value` writes the
/// file's struct): the named members, then the other members; when the
/// other members are not an object or `null`, writing fails and `data` is `null`.
pub open spec fn payload_json(p: VehicleFilePayload, data: JsonValue) -> bool {
    match p.extra {
        JsonValue::Object(x) => match data {
            JsonValue::Object(m) => m@.len() == 10 + x@.len() && payload_members(p, m@) && m@.skip(
                10,
            ) == x@,
            _ => false,
        },
        JsonValue::Null => match data {
            JsonValue::Object(m) => m@.len() == 10 && payload_members(p, m@),
            _ => false,
        },
        _ => data is Null,
    }
}

/// The name of the manufacturer that `p` names.
pub open spec fn payload_manufacturer_name(p: VehicleFilePayload) -> Option<Seq<char>> {
    match p.manufacturer {
        Some(m) => opt_chars(m.name),
        None => None,
    }
}

/// The UUID of the manufacturer that `p` names.
pub open spec fn payload_manufacturer_uuid(p: VehicleFilePayload) -> Option<String> {
    match p.manufacturer {
        Some(m) => m.uuid,
        None => None,
    }
}

/// `Some(b)` as `b`, `None` as `false`.
pub open spec fn flag(o: Option<bool>) -> bool {
    match o {
        Some(b) => b,
        None => false,
    }
}

/// The vehicle record that `p` gives, if its UUID is present and not blank.
pub open spec fn vehicle_from(p: VehicleFilePayload, v: Vehicle) -> bool {
    &&& p.uuid is Some
    &&& v.uuid@ == trim(p.uuid->0@)
    &&& v.uuid@.len() > 0
    &&& v.name == p.name
    &&& opt_chars(v.display_name) == display_name(opt_chars(p.name), payload_manufacturer_name(p))
    &&& v.class_name == p.class_name
    &&& v.career == p.career
    &&& v.role == p.role
    &&& v.is_vehicle == flag(p.is_vehicle)
    &&& v.is_gravlev == flag(p.is_gravlev)
    &&& v.is_spaceship == flag(p.is_spaceship)
    &&& v.size == p.size
    &&& v.manufacturer_uuid == payload_manufacturer_uuid(p)
    &&& payload_json(p, v.data)
    &&& v.translations@.len() == 0
}

/// Whether `p` names no UUID, or only a blank one.
pub open spec fn payload_lacks_uuid(p: VehicleFilePayload) -> bool {
    p.uuid is None || trim(p.uuid->0@).len() == 0
}

/// A copy of an optional string.
pub fn opt_string_copy(o: &Option<String>) -> (r: Option<String>)
    ensures
        r == *o,
{
    match o {
        Some(s) => Some(s.clone()),
        None => None,
    }
}

fn opt_str_json_exec(o: &Option<String>) -> (r: JsonValue)
    ensures
        r == opt_str_json(*o),
{
    match o {
        Some(s) => JsonValue::String(s.clone()),
        None => JsonValue::Null,
    }
}

fn opt_bool_json_exec(o: Option<bool>) -> (r: JsonValue)
    ensures
        r == opt_bool_json(o),
{
    match o {
        Some(b) => JsonValue::Bool(b),
        None => JsonValue::Null,
    }
}

/// The named members of `p` as JSON.
fn payload_member_list(p: &VehicleFilePayload) -> (r: Vec<(String, JsonValue)>)
    ensures
        r@.len() == 10,
        payload_members(*p, r@),
{
    let mut m: Vec<(String, JsonValue)> = Vec::new();
    m.push((crate::text::copy_str("UUID"), opt_str_json_exec(&p.uuid)));
    m.push((crate::text::copy_str("ClassName"), opt_str_json_exec(&p.class_name)));
    m.push((crate::text::copy_str("Name"), opt_str_json_exec(&p.name)));
    m.push((crate::text::copy_str("Career"), opt_str_json_exec(&p.career)));
    m.push((crate::text::copy_str("Role"), opt_str_json_exec(&p.role)));
    m.push((crate::text::copy_str("IsVehicle"), opt_bool_json_exec(p.is_vehicle)));
    m.push((crate::text::copy_str("IsGravlev"), opt_bool_json_exec(p.is_gravlev)));
    m.push((crate::text::copy_str("IsSpaceship"), opt_bool_json_exec(p.is_spaceship)));
    let size = match &p.size {
        Some(sz) => sz.deep_copy(),
        None => JsonValue::Null,
    };
    m.push((crate::text::copy_str("Size"), size));
    let mj = match &p.manufacturer {
        Some(r) => {
            let mut e: Vec<(String, JsonValue)> = Vec::new();
            e.push((crate::text::copy_str("UUID"), opt_str_json_exec(&r.uuid)));
            e.push((crate::text::copy_str("Name"), opt_str_json_exec(&r.name)));
            JsonValue::Object(e)
        },
        None => JsonValue::Null,
    };
    m.push((crate::text::copy_str("Manufacturer"), mj));
    m
}

/// The optional string slice that an optional string holds.
pub fn opt_as_str(o: &Option<String>) -> (r: Option<&str>)
    ensures
        opt_str_chars(r) == opt_chars(*o),
{
    match o {
        Some(s) => Some(s.as_str()),
        None => None,
    }
}

impl Vehicle {
    /// Builds the record of a vehicle file, if it has a non-blank UUID.
    pub fn from_payload(payload: VehicleFilePayload) -> (r: Option<Self>)
        requires
            !payload_lacks_uuid(payload) ==> display_name_ok(
                opt_chars(payload.name),
                payload_manufacturer_name(payload),
            ),
        ensures
            r is None <==> payload_lacks_uuid(payload),
            r matches Some(v) ==> vehicle_from(payload, v),
    {
        let uuid = match &payload.uuid {
            Some(u) => trim_str(u.as_str()),
            None => {
                return None;
            },
        };
        if uuid.as_str().is_empty() {
            return None;
        }
        let manufacturer_uuid = match &payload.manufacturer {
            Some(m) => opt_string_copy(&m.uuid),
            None => None,
        };
        let mfr_name = match &payload.manufacturer {
            Some(m) => opt_as_str(&m.name),
            None => None,
        };
        let display_name = generate_display_name(opt_as_str(&payload.name), mfr_name);
        let mut members = payload_member_list(&payload);
        let ghost p = payload;
        let VehicleFilePayload {
            uuid: _,
            class_name,
            name,
            career,
            role,
            is_vehicle,
            is_gravlev,
            is_spaceship,
            size,
            manufacturer: _,
            extra,
        } = payload;
        let data = match extra {
            JsonValue::Object(mut x) => {
                let ghost x0 = x@;
                let ghost m0 = members@;
                members.append(&mut x);
                assert(members@.skip(10) =~= x0);
                assert(forall|i: int| 0 <= i < 10 ==> members@[i] == m0[i]);
                JsonValue::Object(members)
            },
            JsonValue::Null => JsonValue::Object(members),
            _ => JsonValue::Null,
        };
        let is_vehicle = match is_vehicle {
            Some(b) => b,
            None => false,
        };
        let is_gravlev = match is_gravlev {
            Some(b) => b,
            None => false,
        };
        let is_spaceship = match is_spaceship {
            Some(b) => b,
            None => false,
        };
        Some(
            Vehicle {
                uuid,
                name,
                display_name,
                class_name,
                career,
                role,
                is_vehicle,
                is_gravlev,
                is_spaceship,
                size,
                manufacturer_uuid,
                data,
                translations: Vec::new(),
            },
        )
    }

    /// Builds the record of a vehicle file as `from_payload` does: a file
    /// without a UUID gives `Some(None)`; the outer `None` marks a file with a
    /// UUID whose name cannot be cut by byte length.
    pub fn try_from_payload(payload: VehicleFilePayload) -> (r: Option<Option<Self>>)
        ensures
            r is None <==> !payload_lacks_uuid(payload) && !display_name_ok(
                opt_chars(payload.name),
                payload_manufacturer_name(payload),
            ),
            r matches Some(o) ==> (o is None <==> payload_lacks_uuid(payload)),
            r matches Some(Some(v)) ==> vehicle_from(payload, v),
    {
        let lacks = match &payload.uuid {
            Some(u) => trim_str(u.as_str()).as_str().is_empty(),
            None => true,
        };
        if lacks {
            return Some(None);
        }
        let mfr_name = match &payload.manufacturer {
            Some(m) => opt_as_str(&m.name),
            None => None,
        };
        match display_name_checked(opt_as_str(&payload.name), mfr_name) {
            None => None,
            Some(_) => Some(Vehicle::from_payload(payload)),
        }
    }
}

} // verus!
