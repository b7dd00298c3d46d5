use vstd::prelude::*;

use crate::text::{chars_eq, chars_of};

verus! {

/// The characters of each pair of strings of `v`.
pub open spec fn pairs_view(v: Seq<(String, String)>) -> Seq<(Seq<char>, Seq<char>)> {
    v.map_values(|e: (String, String)| (e.0@, e.1@))
}

/// The index of the first pair of `fs` whose key is `k`, or -1.
pub open spec fn find_key(fs: Seq<(Seq<char>, Seq<char>)>, k: Seq<char>) -> int
    decreases fs.len(),
{
    if fs.len() == 0 {
        -1
    } else if fs[0].0 == k {
        0
    } else {
        let r = find_key(fs.drop_first(), k);
        if r < 0 {
            -1
        } else {
            r + 1
        }
    }
}

/// The value that `fs`, read as a map, gives `k`.
pub open spec fn assoc_get(fs: Seq<(Seq<char>, Seq<char>)>, k: Seq<char>) -> Option<Seq<char>> {
    let i = find_key(fs, k);
    if i >= 0 {
        Some(fs[i].1)
    } else {
        None
    }
}

/// `fs`, read as a map, with `k` set to `v` (as `HashMap::insert` does).
pub open spec fn assoc_insert(fs: Seq<(Seq<char>, Seq<char>)>, k: Seq<char>, v: Seq<char>) -> Seq<
    (Seq<char>, Seq<char>),
> {
    let i = find_key(fs, k);
    if i >= 0 {
        fs.update(i, (k, v))
    } else {
        fs.push((k, v))
    }
}

/// No key occurs twice in `fs`.
pub open spec fn keys_unique(fs: Seq<(Seq<char>, Seq<char>)>) -> bool {
    forall|i: int, j: int| 0 <= i < j < fs.len() ==> fs[i].0 != fs[j].0
}

pub proof fn lemma_find_key_at(fs: Seq<(Seq<char>, Seq<char>)>, k: Seq<char>, i: int)
    requires
        0 <= i < fs.len(),
        fs[i].0 == k,
        forall|j: int| 0 <= j < i ==> fs[j].0 != k,
    ensures
        find_key(fs, k) == i,
    decreases i,
{
    if i > 0 {
        let u = fs.drop_first();
        assert forall|j: int| 0 <= j < i - 1 implies u[j].0 != k by {
            assert(u[j] == fs[j + 1]);
        }
        lemma_find_key_at(u, k, i - 1);
    }
}

pub proof fn lemma_find_key_none(fs: Seq<(Seq<char>, Seq<char>)>, k: Seq<char>)
    requires
        forall|j: int| 0 <= j < fs.len() ==> fs[j].0 != k,
    ensures
        find_key(fs, k) == -1,
    decreases fs.len(),
{
    if fs.len() > 0 {
        let u = fs.drop_first();
        assert forall|j: int| 0 <= j < u.len() implies u[j].0 != k by {
            assert(u[j] == fs[j + 1]);
        }
        lemma_find_key_none(u, k);
    }
}

pub proof fn lemma_find_key_range(fs: Seq<(Seq<char>, Seq<char>)>, k: Seq<char>)
    ensures
        -1 <= find_key(fs, k) < fs.len(),
        find_key(fs, k) >= 0 ==> fs[find_key(fs, k)].0 == k,
        find_key(fs, k) >= 0 ==> forall|j: int| 0 <= j < find_key(fs, k) ==> fs[j].0 != k,
        find_key(fs, k) == -1 ==> forall|j: int| 0 <= j < fs.len() ==> fs[j].0 != k,
    decreases fs.len(),
{
    if fs.len() > 0 {
        let u = fs.drop_first();
        lemma_find_key_range(u, k);
        assert forall|j: int| 0 < j < fs.len() implies fs[j] == u[j - 1] by {}
    }
}

/// Setting a key keeps keys unique.
pub proof fn lemma_assoc_insert_unique(fs: Seq<(Seq<char>, Seq<char>)>, k: Seq<char>, v: Seq<char>)
    requires
        keys_unique(fs),
    ensures
        keys_unique(assoc_insert(fs, k, v)),
{
    lemma_find_key_range(fs, k);
}

/// The index of the first pair of `fs` whose key is `k`.
pub fn assoc_find(fs: &Vec<(String, String)>, k: &Vec<char>) -> (r: Option<usize>)
    ensures
        match r {
            Some(i) => find_key(pairs_view(fs@), k@) == i as int && i < fs.len(),
            None => find_key(pairs_view(fs@), k@) == -1,
        },
{
    let mut i: usize = 0;
    while i < fs.len()
        invariant
            i <= fs.len(),
            forall|j: int| 0 <= j < i ==> pairs_view(fs@)[j].0 != k@,
        decreases fs.len() - i,
    {
        let key = chars_of(fs[i].0.as_str());
        if chars_eq(&key, k) {
            proof {
                lemma_find_key_at(pairs_view(fs@), k@, i as int);
            }
            return Some(i);
        }
        i += 1;
    }
    proof {
        lemma_find_key_none(pairs_view(fs@), k@);
    }
    None
}

/// The value that `fs` gives `k`.
pub fn assoc_lookup<'a>(fs: &'a Vec<(String, String)>, k: &str) -> (r: Option<&'a String>)
    ensures
        match r {
            Some(v) => assoc_get(pairs_view(fs@), k@) == Some(v@),
            None => assoc_get(pairs_view(fs@), k@) is None,
        },
{
    let kc = chars_of(k);
    match assoc_find(fs, &kc) {
        Some(i) => Some(&fs[i].1),
        None => None,
    }
}

/// Sets `k` to `v` in `fs`, as `HashMap::insert` does.
pub fn assoc_set(fs: &mut Vec<(String, String)>, k: String, v: String)
    ensures
        pairs_view(final(fs)@) == assoc_insert(pairs_view(old(fs)@), k@, v@),
        keys_unique(pairs_view(old(fs)@)) ==> keys_unique(pairs_view(final(fs)@)),
{
    proof {
        if keys_unique(pairs_view(old(fs)@)) {
            lemma_assoc_insert_unique(pairs_view(old(fs)@), k@, v@);
        }
    }
    let kc = chars_of(k.as_str());
    match assoc_find(fs, &kc) {
        Some(i) => {
            fs.set(i, (k, v));
        },
        None => {
            fs.push((k, v));
        },
    }
    assert(pairs_view(fs@) =~= assoc_insert(pairs_view(old(fs)@), k@, v@));
}

/// Setting a key leaves the value of every other key as it was.
pub proof fn lemma_assoc_insert_other(
    fs: Seq<(Seq<char>, Seq<char>)>,
    k: Seq<char>,
    v: Seq<char>,
    k2: Seq<char>,
)
    requires
        k2 != k,
    ensures
        assoc_get(assoc_insert(fs, k, v), k2) == assoc_get(fs, k2),
{
    let g = assoc_insert(fs, k, v);
    lemma_find_key_range(fs, k);
    lemma_find_key_range(fs, k2);
    let i = find_key(fs, k);
    let j = find_key(fs, k2);
    assert forall|m: int| 0 <= m < g.len() && m < fs.len() && m != i implies g[m] == fs[m] by {}
    if j >= 0 {
        assert(j != i);
        assert forall|m: int| 0 <= m < j implies g[m].0 != k2 by {
            if m == i {
                assert(g[m].0 == k);
            } else {
                assert(g[m] == fs[m]);
            }
        }
        lemma_find_key_at(g, k2, j);
    } else {
        assert forall|m: int| 0 <= m < g.len() implies g[m].0 != k2 by {
            if m == i || m == fs.len() {
                assert(g[m].0 == k);
            } else {
                assert(g[m] == fs[m]);
            }
        }
        lemma_find_key_none(g, k2);
    }
}

} // verus!
