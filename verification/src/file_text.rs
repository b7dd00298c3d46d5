//! The text of the data files that are maps of strings: `labels.json` and
//! `tags.json` (JSON objects of strings) and the `global.ini` translation
//! files.
use vstd::prelude::*;

use crate::assoc::{keys_unique, pairs_view};
use crate::loader::{
    entity_tags_from_pairs, english_keys, ini_entries, ini_fold, ini_translations, label_for,
    last_index, lemma_last_index, merge_labels, kept_tags, Labels,
};
use crate::models::label::GameLabel;
use crate::models::tag::EntityTag;
use crate::query::opt_chars;

verus! {

/// What `serde_json` reads from `text` as a JSON object whose values are
/// all strings (`HashMap<String, String>`), or `None` where it refuses it.
pub uninterp spec fn json_string_map(text: Seq<char>) -> Option<Map<Seq<char>, Seq<char>>>;

/// What `configparser` (case-sensitive, default options) reads from `text`:
/// each section by name, with its keys and their values (a key without a
/// value has `None`), or `None` where it refuses the text.
pub uninterp spec fn ini_map(text: Seq<char>) -> Option<
    Map<Seq<char>, Map<Seq<char>, Option<Seq<char>>>>,
>;

/// The pairs `ps` list the map `m`: each key once, every key of `m`, each
/// with its value.
pub open spec fn pairs_match(ps: Seq<(String, String)>, m: Map<Seq<char>, Seq<char>>) -> bool {
    &&& keys_unique(pairs_view(ps))
    &&& forall|k: Seq<char>|
        #![trigger m.contains_key(k)]
        m.contains_key(k) ==> exists|i: int| 0 <= i < ps.len() && ps[i].0@ == k
    &&& forall|i: int|
        0 <= i < ps.len() ==> m.contains_key(#[trigger] ps[i].0@) && m[ps[i].0@] == ps[i].1@
}

/// The entries `es` list the section `m`: each key once, every key of `m`,
/// each with its value.
pub open spec fn entries_match(
    es: Seq<(String, Option<String>)>,
    m: Map<Seq<char>, Option<Seq<char>>>,
) -> bool {
    &&& forall|i: int, j: int| 0 <= i < j < es.len() ==> es[i].0@ != es[j].0@
    &&& forall|k: Seq<char>|
        #![trigger m.contains_key(k)]
        m.contains_key(k) ==> exists|i: int| 0 <= i < es.len() && es[i].0@ == k
    &&& forall|i: int|
        0 <= i < es.len() ==> m.contains_key(#[trigger] es[i].0@) && m[es[i].0@] == opt_chars(
            es[i].1,
        )
}

/// The sections `secs` list the INI file `m`: each section once, every
/// section of `m`, each with its entries.
pub open spec fn sections_match(
    secs: Seq<(String, Vec<(String, Option<String>)>)>,
    m: Map<Seq<char>, Map<Seq<char>, Option<Seq<char>>>>,
) -> bool {
    &&& forall|i: int, j: int| 0 <= i < j < secs.len() ==> secs[i].0@ != secs[j].0@
    &&& forall|n: Seq<char>|
        #![trigger m.contains_key(n)]
        m.contains_key(n) ==> exists|i: int| 0 <= i < secs.len() && secs[i].0@ == n
    &&& forall|i: int|
        0 <= i < secs.len() ==> m.contains_key(#[trigger] secs[i].0@) && entries_match(
            secs[i].1@,
            m[secs[i].0@],
        )
}

/// Reads `text` as a JSON object of strings, as `serde_json::from_str` into a
/// `HashMap<String, String>` does. Claimed: it succeeds exactly where
/// `json_string_map` is `Some`, and the pairs list that map; the order of
/// the pairs (a hash map's) is left open.
#[verifier::external_body]
fn parse_string_map(text: &str) -> (r: Option<Vec<(String, String)>>)
    ensures
        r is Some <==> json_string_map(text@) is Some,
        r matches Some(ps) ==> pairs_match(ps@, json_string_map(text@)->0),
{
    match serde_json::from_str::<std::collections::HashMap<String, String>>(text) {
        Ok(m) => Some(m.into_iter().collect()),
        Err(_) => None,
    }
}

/// Reads `text` as an INI file, as `configparser`'s `Ini::new_cs().read`
/// does. Claimed: it succeeds exactly where `ini_map` is `Some`, and the
/// sections and their entries list that map; their order (a hash map's) is
/// left open.
#[verifier::external_body]
fn parse_ini(text: &str) -> (r: Option<Vec<(String, Vec<(String, Option<String>)>)>>)
    ensures
        r is Some <==> ini_map(text@) is Some,
        r matches Some(secs) ==> sections_match(secs@, ini_map(text@)->0),
{
    let mut ini = configparser::ini::Ini::new_cs();
    match ini.read(text.to_string()) {
        Ok(map) => Some(map.into_iter().map(|(name, entries)| (name, entries.into_iter().collect())).collect()),
        Err(_) => None,
    }
}

/// The characters of a text that may be missing.
pub open spec fn opt_text(t: Option<&str>) -> Option<Seq<char>> {
    match t {
        Some(s) => Some(s@),
        None => None,
    }
}

/// The map of strings that a JSON file's text gives: empty where the text is
/// missing or is no JSON object of strings.
pub open spec fn text_string_map(t: Option<Seq<char>>) -> Map<Seq<char>, Seq<char>> {
    match t {
        Some(s) => match json_string_map(s) {
            Some(m) => m,
            None => Map::empty(),
        },
        None => Map::empty(),
    }
}

/// The sections that an INI file's text gives: none where the text is
/// missing or cannot be read.
pub open spec fn text_ini_map(t: Option<Seq<char>>) -> Map<
    Seq<char>,
    Map<Seq<char>, Option<Seq<char>>>,
> {
    match t {
        Some(s) => match ini_map(s) {
            Some(m) => m,
            None => Map::empty(),
        },
        None => Map::empty(),
    }
}

fn string_pairs_of(text: Option<&str>) -> (r: Vec<(String, String)>)
    ensures
        pairs_match(r@, text_string_map(opt_text(text))),
{
    match text {
        Some(t) => match parse_string_map(t) {
            Some(ps) => ps,
            None => Vec::new(),
        },
        None => Vec::new(),
    }
}

fn ini_sections_of(text: Option<&str>) -> (r: Vec<(String, Vec<(String, Option<String>)>)>)
    ensures
        sections_match(r@, text_ini_map(opt_text(text))),
{
    match text {
        Some(t) => match parse_ini(t) {
            Some(secs) => secs,
            None => Vec::new(),
        },
        None => Vec::new(),
    }
}

/// The entity tags that the text of `tags.json` gives: those of its pairs,
/// trimmed, with blank ones dropped, in the order in which the parsed object
/// is walked (which is left open); none where the text is missing or is no
/// JSON object of strings.
pub fn entity_tags_from_text(text: Option<&str>) -> (r: Vec<EntityTag>)
    ensures
        exists|ps: Seq<(String, String)>|
            pairs_match(ps, text_string_map(opt_text(text)))
                && r@.map_values(|t: EntityTag| (t.uuid@, t.name@)) == kept_tags(ps),
        text_string_map(opt_text(text)) == Map::<Seq<char>, Seq<char>>::empty() ==> r@.len() == 0,
{
    let pairs = string_pairs_of(text);
    let r = entity_tags_from_pairs(&pairs);
    assert(pairs_match(pairs@, text_string_map(opt_text(text))));
    if pairs.len() > 0 {
        assert(text_string_map(opt_text(text)).contains_key(pairs@[0].0@));
    }
    assert(pairs@.len() == 0 ==> kept_tags(pairs@) =~= Seq::empty());
    r
}

/// What the INI sections `s` give key `k`: `Some(v)` where some section
/// holds `k` with the value `v`; `None` where no section holds `k` with a
/// value.
pub open spec fn ini_value(
    s: Map<Seq<char>, Map<Seq<char>, Option<Seq<char>>>>,
    k: Seq<char>,
    d: Option<Seq<char>>,
) -> bool {
    match d {
        Some(v) => exists|n: Seq<char>|
            #[trigger] s.contains_key(n) && s[n].contains_key(k) && s[n][k] == Some(v),
        None => forall|n: Seq<char>|
            #[trigger] s.contains_key(n) && s[n].contains_key(k) ==> s[n][k] is None,
    }
}

/// The translation pair for `locale`, where there is a text.
pub open spec fn locale_pair(locale: Seq<char>, d: Option<Seq<char>>) -> Seq<(Seq<char>, Seq<char>)> {
    match d {
        Some(v) => seq![(locale, v)],
        None => Seq::empty(),
    }
}

/// `l` is the label for `key` with the English text `en` and the German and
/// Chinese texts that the INI sections `de` and `zh` give it, in that order.
pub open spec fn label_from_files(
    l: GameLabel,
    key: Seq<char>,
    en: Seq<char>,
    de: Map<Seq<char>, Map<Seq<char>, Option<Seq<char>>>>,
    zh: Map<Seq<char>, Map<Seq<char>, Option<Seq<char>>>>,
) -> bool {
    exists|d: Option<Seq<char>>, z: Option<Seq<char>>|
        #![trigger ini_value(de, key, d), ini_value(zh, key, z)]
        ini_value(de, key, d) && ini_value(zh, key, z) && l.key@ == key && pairs_view(
            l.translations@,
        ) == seq![("en"@, en)] + locale_pair("de"@, d) + locale_pair("zh"@, z)
}

proof fn lemma_fold_from(es: Seq<(String, Option<String>)>, k: Seq<char>) -> (j: int)
    requires
        ini_fold(es).contains_key(k),
    ensures
        0 <= j < es.len(),
        es[j].0@ == k,
        es[j].1 == Some(ini_fold(es)[k]),
    decreases es.len(),
{
    let init = es.drop_last();
    match es.last().1 {
        Some(v) => {
            if es.last().0@ == k {
                es.len() - 1
            } else {
                let j = lemma_fold_from(init, k);
                assert(es[j] == init[j]);
                j
            }
        },
        None => {
            let j = lemma_fold_from(init, k);
            assert(es[j] == init[j]);
            j
        },
    }
}

proof fn lemma_fold_to(es: Seq<(String, Option<String>)>, j: int)
    requires
        0 <= j < es.len(),
        es[j].1 is Some,
    ensures
        ini_fold(es).contains_key(es[j].0@),
    decreases es.len(),
{
    if j < es.len() - 1 {
        let init = es.drop_last();
        assert(es[j] == init[j]);
        lemma_fold_to(init, j);
    }
}

proof fn lemma_entry_from(secs: Seq<(String, Vec<(String, Option<String>)>)>, j: int) -> (ip: (
    int,
    int,
))
    requires
        0 <= j < ini_entries(secs).len(),
    ensures
        0 <= ip.0 < secs.len(),
        0 <= ip.1 < secs[ip.0].1@.len(),
        secs[ip.0].1@[ip.1] == ini_entries(secs)[j],
    decreases secs.len(),
{
    let init = secs.drop_last();
    let b = ini_entries(init).len();
    if j >= b {
        (secs.len() - 1, j - b)
    } else {
        let ip = lemma_entry_from(init, j);
        assert(secs[ip.0] == init[ip.0]);
        ip
    }
}

proof fn lemma_entry_to(secs: Seq<(String, Vec<(String, Option<String>)>)>, i: int, p: int) -> (j:
    int)
    requires
        0 <= i < secs.len(),
        0 <= p < secs[i].1@.len(),
    ensures
        0 <= j < ini_entries(secs).len(),
        ini_entries(secs)[j] == secs[i].1@[p],
    decreases secs.len(),
{
    let init = secs.drop_last();
    if i == secs.len() - 1 {
        ini_entries(init).len() + p
    } else {
        assert(secs[i] == init[i]);
        lemma_entry_to(init, i, p)
    }
}

/// The translations that `ini_translations` makes of sections listing the
/// INI file `s` are what `s` gives each key.
proof fn lemma_ini_value(
    secs: Seq<(String, Vec<(String, Option<String>)>)>,
    s: Map<Seq<char>, Map<Seq<char>, Option<Seq<char>>>>,
    k: Seq<char>,
)
    requires
        sections_match(secs, s),
    ensures
        ini_value(
            s,
            k,
            if ini_fold(ini_entries(secs)).contains_key(k) {
                Some(ini_fold(ini_entries(secs))[k]@)
            } else {
                None
            },
        ),
{
    let es = ini_entries(secs);
    let f = ini_fold(es);
    if f.contains_key(k) {
        let j = lemma_fold_from(es, k);
        let ip = lemma_entry_from(secs, j);
        let n = secs[ip.0].0@;
        assert(s.contains_key(n));
        assert(entries_match(secs[ip.0].1@, s[n]));
        assert(s[n].contains_key(secs[ip.0].1@[ip.1].0@));
        assert(s[n][k] == Some(f[k]@));
    } else {
        assert forall|n: Seq<char>| #[trigger] s.contains_key(n) && s[n].contains_key(k) implies s[n][k] is None by {
            let i = choose|i: int| 0 <= i < secs.len() && secs[i].0@ == n;
            assert(s.contains_key(secs[i].0@));
            assert(entries_match(secs[i].1@, s[n]));
            let p = choose|p: int| 0 <= p < secs[i].1@.len() && secs[i].1@[p].0@ == k;
            assert(s[n].contains_key(secs[i].1@[p].0@));
            if s[n][k] is Some {
                let j = lemma_entry_to(secs, i, p);
                lemma_fold_to(es, j);
            }
        }
    }
}

/// The labels that the texts of `labels.json` (English) and of the German
/// and Chinese `global.ini` files give: one per key of the English file,
/// with its English text and the German and Chinese texts that the INI
/// files give that key. A missing text, or one that cannot be read, counts
/// as empty. Where several sections of an INI file hold the key, which of
/// their values is taken depends on the order in which the parsed file is
/// walked, and is left open.
pub fn labels_from_texts(english: Option<&str>, german: Option<&str>, chinese: Option<&str>) -> (r:
    Labels)
    ensures
        forall|k: Seq<char>|
            #![trigger r@.contains_key(k)]
            (r@.contains_key(k) <==> text_string_map(opt_text(english)).contains_key(k)) && (
            r@.contains_key(k) ==> label_from_files(
                r@[k],
                k,
                text_string_map(opt_text(english))[k],
                text_ini_map(opt_text(german)),
                text_ini_map(opt_text(chinese)),
            )),
{
    let en = string_pairs_of(english);
    let de_secs = ini_sections_of(german);
    let zh_secs = ini_sections_of(chinese);
    let de = ini_translations(&de_secs);
    let zh = ini_translations(&zh_secs);
    let r = merge_labels(&en, &de, &zh);
    proof {
        let em = text_string_map(opt_text(english));
        let dm = text_ini_map(opt_text(german));
        let zm = text_ini_map(opt_text(chinese));
        assert forall|k: Seq<char>| #![trigger r@.contains_key(k)]
            (r@.contains_key(k) <==> em.contains_key(k)) && (r@.contains_key(k)
                ==> label_from_files(r@[k], k, em[k], dm, zm)) by {
            lemma_last_index(english_keys(en@), k);
            if em.contains_key(k) {
                let i = choose|i: int| 0 <= i < en@.len() && en@[i].0@ == k;
                assert(english_keys(en@)[i] == Some(k));
            }
            if r@.contains_key(k) {
                let idx = last_index(english_keys(en@), k)->0;
                assert(english_keys(en@)[idx] == Some(en@[idx].0@));
                assert(em.contains_key(en@[idx].0@));
                lemma_ini_value(de_secs@, dm, k);
                lemma_ini_value(zh_secs@, zm, k);
                let d = if de@.contains_key(k) {
                    Some(de@[k]@)
                } else {
                    None
                };
                let z = if zh@.contains_key(k) {
                    Some(zh@[k]@)
                } else {
                    None
                };
                assert(label_for(r@[k], k, en@[idx].1@, de@, zh@));
                assert(pairs_view(r@[k].translations@) == seq![("en"@, em[k])] + locale_pair("de"@, d)
                    + locale_pair("zh"@, z));
                assert(ini_value(dm, k, d) && ini_value(zm, k, z));
            }
        }
    }
    r
}

} // verus!
