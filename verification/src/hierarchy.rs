use vstd::prelude::*;

use crate::models::starmap::StarmapLocation;
use crate::query::opt_chars;
use crate::text::{
    chars_eq, chars_match_at, chars_of, copy_str, lowercase, str_eq, string_from_range,
    to_lowercase, trim, trim_str,
};
use vstd::hash_map::StringHashMap;
use vstd::set_lib::{lemma_int_range, lemma_len_subset, set_int_range};

verus! {

/// The index of the last location whose UUID is `u` (a UUID index built
/// in order keeps the last one).
pub open spec fn index_of_uuid(locs: Seq<StarmapLocation>, u: Seq<char>) -> Option<int>
    decreases locs.len(),
{
    if locs.len() == 0 {
        None
    } else if locs.last().uuid@ == u {
        Some(locs.len() - 1)
    } else {
        index_of_uuid(locs.drop_last(), u)
    }
}

/// Whether `l` is a solar system.
pub open spec fn is_solar_system(l: StarmapLocation) -> bool {
    l.type_label@ == "SolarSystem"@
}

/// `s` with every trailing occurrence of `suf` removed (`str::trim_end_matches`).
pub open spec fn strip_suffix_all(s: Seq<char>, suf: Seq<char>) -> Seq<char>
    decreases s.len(),
{
    if suf.len() > 0 && suf.len() <= s.len() && s.skip(s.len() - suf.len()) == suf {
        strip_suffix_all(s.take(s.len() - suf.len()), suf)
    } else {
        s
    }
}

/// The key under which a solar system (or a star) is matched by name:
/// trimmed, lowercase, without a trailing " system".
pub open spec fn system_key(name: Seq<char>) -> Seq<char> {
    strip_suffix_all(lowercase(trim(name)), " system"@)
}

/// The name of the last solar system whose key is `key`.
pub open spec fn system_by_key(locs: Seq<StarmapLocation>, key: Seq<char>) -> Option<Seq<char>>
    decreases locs.len(),
{
    if locs.len() == 0 {
        None
    } else if is_solar_system(locs.last()) && system_key(locs.last().name@) == key {
        Some(locs.last().name@)
    } else {
        system_by_key(locs.drop_last(), key)
    }
}

/// Walks up the parent chain from the UUID `cur`, finding each UUID's
/// location through the index `m`: the name of the first solar system on
/// it; nothing when the chain ends, leaves the index (or its range), or
/// comes back to a UUID already `visited`. (The walk never visits more
/// UUIDs than there are locations; the bound only makes that explicit.)
pub open spec fn walk_by_map(
    locs: Seq<StarmapLocation>,
    m: Map<Seq<char>, usize>,
    cur: Option<Seq<char>>,
    visited: Seq<Seq<char>>,
) -> Option<Seq<char>>
    decreases locs.len() + 1 - visited.len(),
{
    match cur {
        None => None,
        Some(p) => if visited.contains(p) || visited.len() > locs.len() {
            None
        } else if !m.contains_key(p) || m[p] >= locs.len() {
            None
        } else {
            let j = m[p] as int;
            if is_solar_system(locs[j]) {
                Some(locs[j].name@)
            } else {
                walk_by_map(locs, m, opt_chars(locs[j].parent_uuid), visited.push(p))
            }
        },
    }
}

/// The solar system that location `i` belongs to, found through the UUID
/// index `m` and the solar systems by key `sm`: itself if it is one; else
/// the first solar system up its parent chain; else, for a star, the solar
/// system that `sm` gives for its key.
pub open spec fn system_via(
    locs: Seq<StarmapLocation>,
    m: Map<Seq<char>, usize>,
    sm: Map<Seq<char>, Seq<char>>,
    i: int,
) -> Option<Seq<char>> {
    let l = locs[i];
    if is_solar_system(l) {
        Some(l.name@)
    } else {
        match walk_by_map(locs, m, opt_chars(l.parent_uuid), Seq::empty()) {
            Some(s) => Some(s),
            None => if l.type_label@ == "Star"@ {
                let k = system_key(l.name@);
                if sm.contains_key(k) {
                    Some(sm[k])
                } else {
                    None
                }
            } else {
                None
            },
        }
    }
}

/// Each UUID of `locs` mapped to the index of its last location.
pub open spec fn uuid_index_map(locs: Seq<StarmapLocation>) -> Map<Seq<char>, usize> {
    Map::new(
        |u: Seq<char>| index_of_uuid(locs, u) is Some,
        |u: Seq<char>| index_of_uuid(locs, u)->0 as usize,
    )
}

/// Each solar-system key of `locs` mapped to the name of its last system.
pub open spec fn solar_name_map(locs: Seq<StarmapLocation>) -> Map<Seq<char>, Seq<char>> {
    Map::new(
        |k: Seq<char>| system_by_key(locs, k) is Some,
        |k: Seq<char>| system_by_key(locs, k)->0,
    )
}

/// The solar system that location `i` belongs to: itself if it is one;
/// else the first solar system up its parent chain; else, for a star, the
/// solar system whose key matches its name.
pub open spec fn system_of(locs: Seq<StarmapLocation>, i: int) -> Option<Seq<char>> {
    system_via(locs, uuid_index_map(locs), solar_name_map(locs), i)
}

/// `m` maps each UUID of `locs` to the index of its last location.
pub open spec fn uuid_map_ok(m: Map<Seq<char>, usize>, locs: Seq<StarmapLocation>) -> bool {
    forall|u: Seq<char>|
        #![trigger m.contains_key(u)]
        #![trigger index_of_uuid(locs, u)]
        (m.contains_key(u) <==> index_of_uuid(locs, u) is Some) && (m.contains_key(u) ==> m[u]
            == index_of_uuid(locs, u)->0)
}

/// `m` maps each solar-system key of `locs` to that system's name.
pub open spec fn solar_map_ok(m: Map<Seq<char>, String>, locs: Seq<StarmapLocation>) -> bool {
    forall|k: Seq<char>|
        #![trigger m.contains_key(k)]
        #![trigger system_by_key(locs, k)]
        (m.contains_key(k) <==> system_by_key(locs, k) is Some) && (m.contains_key(k) ==> m[k]@
            == system_by_key(locs, k)->0)
}

proof fn lemma_index_of_uuid(locs: Seq<StarmapLocation>, u: Seq<char>)
    ensures
        index_of_uuid(locs, u) matches Some(j) ==> 0 <= j < locs.len() && locs[j].uuid@ == u,
    decreases locs.len(),
{
    if locs.len() > 0 {
        lemma_index_of_uuid(locs.drop_last(), u);
    }
}

/// Distinct indices below `n` are at most `n` in number.
proof fn lemma_distinct_below(s: Seq<int>, n: int)
    requires
        n >= 0,
        s.no_duplicates(),
        forall|k: int| 0 <= k < s.len() ==> 0 <= #[trigger] s[k] < n,
    ensures
        s.len() <= n,
{
    lemma_int_range(0, n);
    s.unique_seq_to_set();
    assert(s.to_set().subset_of(set_int_range(0, n)));
    lemma_len_subset(s.to_set(), set_int_range(0, n));
}

/// The UUID index of `locs`.
pub fn build_uuid_index(locs: &Vec<StarmapLocation>) -> (m: StringHashMap<usize>)
    ensures
        uuid_map_ok(m@, locs@),
{
    let mut m: StringHashMap<usize> = StringHashMap::new();
    let mut i: usize = 0;
    while i < locs.len()
        invariant
            i <= locs.len(),
            uuid_map_ok(m@, locs@.take(i as int)),
        decreases locs.len() - i,
    {
        let ghost t = locs@.take(i + 1);
        assert(t.drop_last() =~= locs@.take(i as int));
        m.insert(locs[i].uuid.clone(), i);
        assert(uuid_map_ok(m@, t));
        i += 1;
    }
    assert(locs@.take(i as int) =~= locs@);
    m
}

/// The characters of `v` with every trailing `suf` removed: the new length.
fn strip_suffix_len(v: &Vec<char>, suf: &Vec<char>) -> (r: usize)
    ensures
        r <= v.len(),
        v@.take(r as int) == strip_suffix_all(v@, suf@),
{
    let mut end = v.len();
    assert(v@.take(end as int) =~= v@);
    while suf.len() > 0 && suf.len() <= end && chars_match_at(v, end - suf.len(), suf)
        invariant
            end <= v.len(),
            strip_suffix_all(v@, suf@) == strip_suffix_all(v@.take(end as int), suf@),
        decreases end,
    {
        let ghost t = v@.take(end as int);
        assert(t.skip(t.len() - suf@.len()) =~= v@.subrange(end - suf@.len(), end as int));
        assert(t.take(t.len() - suf@.len()) =~= v@.take(end - suf@.len()));
        end = end - suf.len();
    }
    proof {
        if suf@.len() > 0 && suf@.len() <= end {
            let t = v@.take(end as int);
            assert(t.skip(t.len() - suf@.len()) =~= v@.subrange(end - suf@.len(), end as int));
        }
    }
    end
}

/// The solar-system key of `name`.
pub fn system_key_exec(name: &str) -> (r: String)
    ensures
        r@ == system_key(name@),
{
    let t = trim_str(name);
    let l = to_lowercase(t.as_str());
    let lc = chars_of(l.as_str());
    let suf = chars_of(" system");
    let end = strip_suffix_len(&lc, &suf);
    string_from_range(&lc, 0, end)
}

/// The solar systems of `locs`, by key.
pub fn build_solar_systems(locs: &Vec<StarmapLocation>) -> (m: StringHashMap<String>)
    ensures
        solar_map_ok(m@, locs@),
{
    let mut m: StringHashMap<String> = StringHashMap::new();
    let mut i: usize = 0;
    while i < locs.len()
        invariant
            i <= locs.len(),
            solar_map_ok(m@, locs@.take(i as int)),
        decreases locs.len() - i,
    {
        let ghost t = locs@.take(i + 1);
        assert(t.drop_last() =~= locs@.take(i as int));
        assert(t.last() == locs@[i as int]);
        if str_eq(locs[i].type_label.as_str(), "SolarSystem") {
            let key = system_key_exec(locs[i].name.as_str());
            m.insert(key, locs[i].name.clone());
        }
        assert(solar_map_ok(m@, t));
        i += 1;
    }
    assert(locs@.take(i as int) =~= locs@);
    m
}

/// Whether one of `visited` is `p`.
fn visited_contains(visited: &Vec<Vec<char>>, p: &Vec<char>) -> (r: bool)
    ensures
        r == visited@.map_values(|v: Vec<char>| v@).contains(p@),
{
    let ghost vs = visited@.map_values(|v: Vec<char>| v@);
    let mut i: usize = 0;
    while i < visited.len()
        invariant
            i <= visited.len(),
            vs == visited@.map_values(|v: Vec<char>| v@),
            forall|k: int| 0 <= k < i ==> vs[k] != p@,
        decreases visited.len() - i,
    {
        if chars_eq(&visited[i], p) {
            assert(vs[i as int] == p@);
            return true;
        }
        i += 1;
    }
    false
}

/// The characters of the strings that `visited` holds.
pub open spec fn visited_views(visited: Seq<Vec<char>>) -> Seq<Seq<char>> {
    visited.map_values(|v: Vec<char>| v@)
}

/// The characters of the names that `m` holds.
pub open spec fn name_views(m: Map<Seq<char>, String>) -> Map<Seq<char>, Seq<char>> {
    m.map_values(|s: String| s@)
}

/// The solar system that location `idx` belongs to, found through the given
/// UUID index and solar systems by key.
pub fn resolve_system_for_location(
    idx: usize,
    locations: &Vec<StarmapLocation>,
    uuid_to_idx: &StringHashMap<usize>,
    solar_systems: &StringHashMap<String>,
) -> (r: Option<String>)
    requires
        idx < locations.len(),
        forall|u: Seq<char>| #[trigger]
            uuid_to_idx@.contains_key(u) ==> uuid_to_idx@[u] < locations.len(),
    ensures
        opt_chars(r) == system_via(
            locations@,
            uuid_to_idx@,
            name_views(solar_systems@),
            idx as int,
        ),
{
    let ghost locs = locations@;
    let ghost m = uuid_to_idx@;
    let loc = &locations[idx];
    if str_eq(loc.type_label.as_str(), "SolarSystem") {
        return Some(loc.name.clone());
    }
    let mut cur: Option<&String> = match &loc.parent_uuid {
        Some(p) => Some(p),
        None => None,
    };
    let mut visited: Vec<Vec<char>> = Vec::new();
    let ghost mut vidx: Seq<int> = Seq::empty();
    assert(visited_views(visited@) =~= Seq::<Seq<char>>::empty());
    loop
        invariant
            locs == locations@,
            m == uuid_to_idx@,
            idx < locs.len(),
            !is_solar_system(locs[idx as int]),
            forall|u: Seq<char>| #[trigger] m.contains_key(u) ==> m[u] < locs.len(),
            walk_by_map(locs, m, opt_chars(locs[idx as int].parent_uuid), Seq::empty())
                == walk_by_map(
                locs,
                m,
                match cur {
                    Some(p) => Some(p@),
                    None => None,
                },
                visited_views(visited@),
            ),
            visited_views(visited@).no_duplicates(),
            visited@.len() <= locs.len() + 1,
            vidx.len() == visited@.len(),
            forall|k: int| 0 <= k < vidx.len() ==> 0 <= #[trigger] vidx[k] < locs.len(),
            forall|k: int|
                0 <= k < vidx.len() ==> m.contains_key(#[trigger] visited@[k]@) && m[visited@[k]@]
                    == vidx[k],
            forall|k: int|
                0 <= k < vidx.len() - 1 ==> opt_chars(locs[#[trigger] vidx[k]].parent_uuid) == Some(
                    visited@[k + 1]@,
                ),
            vidx.len() > 0 ==> opt_chars(locs[vidx.last()].parent_uuid) == match cur {
                Some(p) => Some(p@),
                None => None,
            },
        ensures
            walk_by_map(locs, m, opt_chars(locs[idx as int].parent_uuid), Seq::empty()) is None,
        decreases locs.len() + 1 - visited@.len(),
    {
        let ghost vs = visited_views(visited@);
        let p = match cur {
            Some(p) => p,
            None => {
                break ;
            },
        };
        let pc = chars_of(p.as_str());
        if visited_contains(&visited, &pc) {
            break ;
        }
        proof {
            assert(!vs.contains(p@));
            assert(vidx.no_duplicates()) by {
                assert forall|a: int, b: int| 0 <= a < b < vidx.len() implies vidx[a] != vidx[b] by {
                    if vidx[a] == vidx[b] {
                        assert(opt_chars(locs[vidx[a]].parent_uuid) == Some(visited@[a + 1]@));
                        if b < vidx.len() - 1 {
                            assert(opt_chars(locs[vidx[b]].parent_uuid) == Some(visited@[b + 1]@));
                            assert(vs[a + 1] == vs[b + 1]);
                        } else {
                            assert(vs[a + 1] == p@);
                        }
                    }
                }
            }
            lemma_distinct_below(vidx, locs.len() as int);
        }
        match uuid_to_idx.get(p.as_str()) {
            None => {
                break ;
            },
            Some(pidx_ref) => {
                let pidx = *pidx_ref;
                let parent = &locations[pidx];
                if str_eq(parent.type_label.as_str(), "SolarSystem") {
                    return Some(parent.name.clone());
                }
                let ghost old_visited = visited@;
                visited.push(pc);
                proof {
                    vidx = vidx.push(pidx as int);
                    assert(visited_views(visited@) =~= vs.push(p@));
                    assert(forall|k: int| 0 <= k < old_visited.len() ==> visited@[k] == old_visited[k]);
                }
                cur = match &parent.parent_uuid {
                    Some(q) => Some(q),
                    None => None,
                };
            },
        }
    }
    if str_eq(loc.type_label.as_str(), "Star") {
        let key = system_key_exec(loc.name.as_str());
        match solar_systems.get(key.as_str()) {
            Some(name) => Some(name.clone()),
            None => None,
        }
    } else {
        None
    }
}

/// The index built from `locs` is the canonical one, within range.
proof fn lemma_maps_canonical(
    m: Map<Seq<char>, usize>,
    sm: Map<Seq<char>, String>,
    locs: Seq<StarmapLocation>,
)
    requires
        uuid_map_ok(m, locs),
        solar_map_ok(sm, locs),
    ensures
        m == uuid_index_map(locs),
        name_views(sm) == solar_name_map(locs),
        forall|u: Seq<char>| #[trigger] m.contains_key(u) ==> m[u] < locs.len(),
{
    assert forall|u: Seq<char>| #[trigger] m.contains_key(u) implies m[u] < locs.len() by {
        lemma_index_of_uuid(locs, u);
    }
    assert forall|u: Seq<char>| m.contains_key(u) implies m[u] == uuid_index_map(locs)[u] by {
        lemma_index_of_uuid(locs, u);
    }
    assert(m =~= uuid_index_map(locs));
    assert(name_views(sm) =~= solar_name_map(locs));
}

/// Sets the solar system of every location.
pub fn resolve_starmap_hierarchy(locations: &mut Vec<StarmapLocation>)
    ensures
        final(locations)@.len() == old(locations)@.len(),
        forall|i: int|
            0 <= i < old(locations)@.len() ==> {
                let a = #[trigger] final(locations)@[i];
                let b = old(locations)@[i];
                &&& opt_chars(a.system) == system_of(old(locations)@, i)
                &&& a.uuid == b.uuid
                &&& a.name == b.name
                &&& a.description == b.description
                &&& a.type_label == b.type_label
                &&& a.size == b.size
                &&& a.is_scannable == b.is_scannable
                &&& a.block_travel == b.block_travel
                &&& a.parent_uuid == b.parent_uuid
                &&& a.amenities == b.amenities
                &&& a.data == b.data
            },
{
    let uuid_to_idx = build_uuid_index(locations);
    let solar_systems = build_solar_systems(locations);
    proof {
        lemma_maps_canonical(uuid_to_idx@, solar_systems@, locations@);
    }
    let n = locations.len();
    let mut systems: Vec<Option<String>> = Vec::new();
    let mut i: usize = 0;
    while i < n
        invariant
            n == locations.len(),
            i <= n,
            uuid_to_idx@ == uuid_index_map(locations@),
            name_views(solar_systems@) == solar_name_map(locations@),
            forall|u: Seq<char>| #[trigger]
                uuid_to_idx@.contains_key(u) ==> uuid_to_idx@[u] < locations.len(),
            systems@.len() == i,
            forall|k: int|
                0 <= k < i ==> opt_chars(#[trigger] systems@[k]) == system_of(locations@, k),
        decreases n - i,
    {
        systems.push(resolve_system_for_location(i, locations, &uuid_to_idx, &solar_systems));
        i += 1;
    }
    let ghost before = locations@;
    let mut j: usize = 0;
    while j < n
        invariant
            n == locations@.len() == before.len() == systems@.len(),
            j <= n,
            forall|k: int|
                0 <= k < n ==> opt_chars(#[trigger] systems@[k]) == system_of(before, k),
            forall|k: int|
                0 <= k < n ==> {
                    let a = #[trigger] locations@[k];
                    let b = before[k];
                    &&& k < j ==> opt_chars(a.system) == system_of(before, k)
                    &&& k >= j ==> a.system == b.system
                    &&& a.uuid == b.uuid
                    &&& a.name == b.name
                    &&& a.description == b.description
                    &&& a.type_label == b.type_label
                    &&& a.size == b.size
                    &&& a.is_scannable == b.is_scannable
                    &&& a.block_travel == b.block_travel
                    &&& a.parent_uuid == b.parent_uuid
                    &&& a.amenities == b.amenities
                    &&& a.data == b.data
                },
        decreases n - j,
    {
        let s = match &systems[j] {
            Some(x) => Some(copy_str(x.as_str())),
            None => None,
        };
        locations[j].system = s;
        j += 1;
    }
}

} // verus!
