use vstd::prelude::*;

use crate::assoc::pairs_view;
use crate::json::{json_get, json_pointer, JsonValue};
use crate::models::blueprint::i64_of;
use crate::models::fields::{nonblank_field, nonblank_of, opt_doc, str_field, str_of};
use crate::models::resource_type::array_or_empty;
use crate::query::opt_chars;
use crate::text::{chars_of, copy_str, lowercase, str_eq, string_from_range, to_lowercase};

verus! {

/// An item file (`items/*.json`): its `Item` and `Raw` sections.
pub struct ItemFilePayload {
    pub item: Option<JsonValue>,
    pub raw: Option<JsonValue>,
}

/// In-memory item record.
pub struct Item {
    pub uuid: String,
    pub name: String,
    pub class_name: Option<String>,
    pub item_type: Option<String>,
    pub sub_type: Option<String>,
    pub classification: Option<String>,
    pub size: Option<i64>,
    pub grade: Option<i64>,
    pub class: Option<String>,
    pub manufacturer_uuid: Option<String>,
    /// The whole `Item` section.
    pub data: JsonValue,
    /// Translations keyed by locale, each locale once.
    pub translations: Vec<(String, String)>,
    /// Entity tag UUIDs.
    pub entity_tags: Vec<String>,
}

/// Where the UUID of an item comes from: `reference`, or else `uuid`.
pub open spec fn item_uuid_source(v: JsonValue) -> Option<JsonValue> {
    match json_get(v, "reference"@) {
        Some(x) => Some(x),
        None => json_get(v, "uuid"@),
    }
}

/// The name of an item: the first non-blank of `name`, `itemName` and
/// `className`, trimmed; else "Unknown Item".
pub open spec fn item_name(v: JsonValue) -> Seq<char> {
    match nonblank_of(json_get(v, "name"@)) {
        Some(n) => n,
        None => match nonblank_of(json_get(v, "itemName"@)) {
            Some(n) => n,
            None => match nonblank_of(json_get(v, "className"@)) {
                Some(n) => n,
                None => "Unknown Item"@,
            },
        },
    }
}

/// Whether `c` is one of the item classes that the API reports.
pub open spec fn is_item_class(c: Seq<char>) -> bool {
    c == "Industrial"@ || c == "Civilian"@ || c == "Military"@ || c == "Stealth"@ || c
        == "Competition"@
}

/// The class of an item, when it is one of the known classes.
pub open spec fn item_class_of(v: JsonValue) -> Option<Seq<char>> {
    match str_of(json_pointer(v, "/stdItem/DescriptionData/Class"@)) {
        Some(c) => if is_item_class(c) {
            Some(c)
        } else {
            None
        },
        None => None,
    }
}

/// The tags that the entries `es` name (entries without a string `tag` are skipped).
pub open spec fn tags_in(es: Seq<JsonValue>) -> Seq<Seq<char>>
    decreases es.len(),
{
    if es.len() == 0 {
        Seq::empty()
    } else {
        match str_of(json_get(es.last(), "tag"@)) {
            Some(t) => tags_in(es.drop_last()).push(t),
            None => tags_in(es.drop_last()),
        }
    }
}

/// The first non-blank of two optional strings, trimmed.
pub open spec fn first_nonblank(a: Option<JsonValue>, b: Option<JsonValue>) -> Option<Seq<char>> {
    match nonblank_of(a) {
        Some(x) => Some(x),
        None => nonblank_of(b),
    }
}

/// Where the description lives in the `Raw` section.
pub open spec fn attach_def(raw: Option<JsonValue>) -> Option<JsonValue> {
    match raw {
        Some(r) => json_pointer(r, "/Entity/Components/SAttachableComponentParams/AttachDef"@),
        None => None,
    }
}

/// The English description of an item: from `stdItem`, else from the
/// localization of the `Raw` section.
pub open spec fn english_description(v: JsonValue, raw: Option<JsonValue>) -> Option<Seq<char>> {
    match first_nonblank(
        json_pointer(v, "/stdItem/DescriptionText"@),
        json_pointer(v, "/stdItem/Description"@),
    ) {
        Some(d) => Some(d),
        None => match attach_def(raw) {
            Some(def) => first_nonblank(
                json_pointer(def, "/Localization/English/Description"@),
                json_pointer(def, "/Localization/Description"@),
            ),
            None => None,
        },
    }
}

/// `s` without its leading `@` characters (`str::trim_start_matches('@')`).
pub open spec fn strip_ats(s: Seq<char>) -> Seq<char>
    decreases s.len(),
{
    if s.len() > 0 && s[0] == '@' {
        strip_ats(s.drop_first())
    } else {
        s
    }
}

/// The label key of an item's description in the `Raw` section: the
/// non-blank `Localization__Description` (or `Localization/__Description`),
/// unless it is `@loc_empty` in any case, without leading `@`.
pub open spec fn description_label_of(raw: Option<JsonValue>) -> Option<Seq<char>> {
    match attach_def(raw) {
        None => None,
        Some(def) => {
            let src = match json_get(def, "Localization__Description"@) {
                Some(x) => Some(x),
                None => json_pointer(def, "/Localization/__Description"@),
            };
            match nonblank_of(src) {
                Some(l) => if lowercase(l) == "@loc_empty"@ {
                    None
                } else {
                    Some(strip_ats(l))
                },
                None => None,
            }
        },
    }
}

/// `it` is the item that the `Item` section `v` (with `Raw` section `raw`) describes.
pub open spec fn item_from(v: JsonValue, raw: Option<JsonValue>, it: Item) -> bool {
    &&& nonblank_of(item_uuid_source(v)) == Some(it.uuid@)
    &&& it.name@ == item_name(v)
    &&& opt_chars(it.class_name) == str_of(json_get(v, "className"@))
    &&& opt_chars(it.item_type) == str_of(json_get(v, "type"@))
    &&& opt_chars(it.sub_type) == str_of(json_get(v, "subType"@))
    &&& opt_chars(it.classification) == str_of(json_get(v, "classification"@))
    &&& it.size == i64_of(json_get(v, "size"@))
    &&& it.grade == i64_of(json_get(v, "grade"@))
    &&& opt_chars(it.class) == item_class_of(v)
    &&& opt_chars(it.manufacturer_uuid) == str_of(json_pointer(v, "/stdItem/Manufacturer/UUID"@))
    &&& it.data == v
    &&& pairs_view(it.translations@) == match english_description(v, raw) {
        Some(d) => seq![("en"@, d)],
        None => Seq::empty(),
    }
    &&& it.entity_tags@.map_values(|t: String| t@) == tags_in(
        array_or_empty(json_get(v, "entity_tag_map"@)),
    )
}

/// The first non-blank of two optional strings.
fn first_nonblank_exec(a: Option<&JsonValue>, b: Option<&JsonValue>) -> (r: Option<String>)
    ensures
        opt_chars(r) == first_nonblank(opt_doc(a), opt_doc(b)),
{
    match nonblank_field(a) {
        Some(x) => Some(x),
        None => nonblank_field(b),
    }
}

/// The English description of an item.
fn extract_english_description(item_val: &JsonValue, raw_val: Option<&JsonValue>) -> (r: Option<
    String,
>)
    ensures
        opt_chars(r) == english_description(*item_val, opt_doc(raw_val)),
{
    match first_nonblank_exec(
        item_val.pointer("/stdItem/DescriptionText"),
        item_val.pointer("/stdItem/Description"),
    ) {
        Some(d) => {
            return Some(d);
        },
        None => {},
    }
    match raw_val {
        Some(raw) => match raw.pointer("/Entity/Components/SAttachableComponentParams/AttachDef") {
            Some(def) => first_nonblank_exec(
                def.pointer("/Localization/English/Description"),
                def.pointer("/Localization/Description"),
            ),
            None => None,
        },
        None => None,
    }
}

/// `s` without its leading `@` characters.
fn strip_ats_exec(s: &str) -> (r: String)
    ensures
        r@ == strip_ats(s@),
{
    let v = chars_of(s);
    let mut i: usize = 0;
    assert(v@.skip(0) =~= v@);
    while i < v.len() && v[i] == '@'
        invariant
            i <= v.len(),
            v@ == s@,
            strip_ats(s@) == strip_ats(v@.skip(i as int)),
        decreases v.len() - i,
    {
        assert(v@.skip(i as int).drop_first() =~= v@.skip(i + 1));
        i += 1;
    }
    assert(v@.skip(i as int) =~= v@.subrange(i as int, v@.len() as int));
    string_from_range(&v, i, v.len())
}

impl Item {
    /// Builds the item that an `Item` section describes (with its `Raw`
    /// section, for the description), if it has a non-blank UUID.
    pub fn from_payload(item_val: JsonValue, raw_val: Option<&JsonValue>) -> (r: Option<Self>)
        ensures
            r is Some <==> nonblank_of(item_uuid_source(item_val)) is Some,
            r matches Some(it) ==> item_from(item_val, opt_doc(raw_val), it),
    {
        let src = match item_val.get("reference") {
            Some(x) => Some(x),
            None => item_val.get("uuid"),
        };
        let uuid = match nonblank_field(src) {
            Some(u) => u,
            None => {
                return None;
            },
        };
        let name = match nonblank_field(item_val.get("name")) {
            Some(n) => n,
            None => match nonblank_field(item_val.get("itemName")) {
                Some(n) => n,
                None => match nonblank_field(item_val.get("className")) {
                    Some(n) => n,
                    None => copy_str("Unknown Item"),
                },
            },
        };
        let manufacturer_uuid = str_field(item_val.pointer("/stdItem/Manufacturer/UUID"));
        let class = match str_field(item_val.pointer("/stdItem/DescriptionData/Class")) {
            Some(c) => {
                let cs = c.as_str();
                if str_eq(cs, "Industrial") || str_eq(cs, "Civilian") || str_eq(
                    cs,
                    "Military",
                ) || str_eq(cs, "Stealth") || str_eq(cs, "Competition") {
                    Some(c)
                } else {
                    None
                }
            },
            None => None,
        };
        let mut entity_tags: Vec<String> = Vec::new();
        let ghost es = array_or_empty(json_get(item_val, "entity_tag_map"@));
        match item_val.get("entity_tag_map") {
            Some(v) => match v.as_array() {
                Some(arr) => {
                    let mut i: usize = 0;
                    while i < arr.len()
                        invariant
                            i <= arr.len(),
                            es == arr@,
                            entity_tags@.map_values(|t: String| t@) == tags_in(arr@.take(i as int)),
                        decreases arr.len() - i,
                    {
                        assert(arr@.take(i + 1).drop_last() =~= arr@.take(i as int));
                        let ghost before = entity_tags@;
                        match str_field(arr[i].get("tag")) {
                            Some(t) => {
                                entity_tags.push(t);
                                assert(entity_tags@.map_values(|t: String| t@) =~= before.map_values(
                                    |t: String| t@,
                                ).push(entity_tags@.last()@));
                            },
                            None => {},
                        }
                        i += 1;
                    }
                    assert(arr@.take(i as int) =~= arr@);
                },
                None => {
                    assert(entity_tags@.map_values(|t: String| t@) =~= Seq::<Seq<char>>::empty());
                },
            },
            None => {
                assert(entity_tags@.map_values(|t: String| t@) =~= Seq::<Seq<char>>::empty());
            },
        }
        let mut translations: Vec<(String, String)> = Vec::new();
        match extract_english_description(&item_val, raw_val) {
            Some(desc) => {
                translations.push((copy_str("en"), desc));
                assert(pairs_view(translations@) =~= seq![("en"@, translations@[0].1@)]);
            },
            None => {
                assert(pairs_view(translations@) =~= Seq::<(Seq<char>, Seq<char>)>::empty());
            },
        }
        let class_name = str_field(item_val.get("className"));
        let item_type = str_field(item_val.get("type"));
        let sub_type = str_field(item_val.get("subType"));
        let classification = str_field(item_val.get("classification"));
        let size = match item_val.get("size") {
            Some(v) => v.as_i64(),
            None => None,
        };
        let grade = match item_val.get("grade") {
            Some(v) => v.as_i64(),
            None => None,
        };
        Some(
            Item {
                uuid,
                name,
                class_name,
                item_type,
                sub_type,
                classification,
                size,
                grade,
                class,
                manufacturer_uuid,
                data: item_val,
                translations,
                entity_tags,
            },
        )
    }

    /// The label key of an item's description, from its `Raw` section.
    pub fn description_label(raw_val: Option<&JsonValue>) -> (r: Option<String>)
        ensures
            opt_chars(r) == description_label_of(opt_doc(raw_val)),
    {
        let raw = match raw_val {
            Some(r) => r,
            None => {
                return None;
            },
        };
        let def = match raw.pointer("/Entity/Components/SAttachableComponentParams/AttachDef") {
            Some(d) => d,
            None => {
                return None;
            },
        };
        let src = match def.get("Localization__Description") {
            Some(x) => Some(x),
            None => def.pointer("/Localization/__Description"),
        };
        let label = match nonblank_field(src) {
            Some(l) => l,
            None => {
                return None;
            },
        };
        let lower = to_lowercase(label.as_str());
        if str_eq(lower.as_str(), "@loc_empty") {
            return None;
        }
        Some(strip_ats_exec(label.as_str()))
    }
}

} // verus!
