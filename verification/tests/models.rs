use starcitizen_api::hierarchy::{build_solar_systems, build_uuid_index, resolve_system_for_location};
use starcitizen_api::json::{JsonNumber, JsonValue};
use starcitizen_api::loader::{
    entity_tags_from_pairs, ini_translations, is_raw_vehicle_file, item_from_file, load_blueprints,
    load_resource_types, load_starmap, manufacturers_from_raw, merge_labels,
};
use starcitizen_api::models::blueprint::Blueprint;
use starcitizen_api::models::item::{Item, ItemFilePayload};
use starcitizen_api::models::manufacturer::ManufacturerRaw;
use starcitizen_api::models::resource_type::ResourceType;
use starcitizen_api::models::starmap::StarmapLocation;
use starcitizen_api::models::vehicle::{generate_display_name, ManufacturerRef, Vehicle, VehicleFilePayload};

fn mo(pairs: Vec<(&str, JsonValue)>) -> JsonValue {
    JsonValue::Object(pairs.into_iter().map(|(k, v)| (k.to_string(), v)).collect())
}

fn ms(s: &str) -> JsonValue {
    JsonValue::String(s.to_string())
}

fn mi(i: u64) -> JsonValue {
    JsonValue::Number(JsonNumber::PosInt(i))
}

fn text_of(v: Option<&JsonValue>) -> Option<String> {
    v.and_then(|x| x.as_str()).cloned()
}

#[test]
fn display_name_strips_manufacturer_word() {
    assert_eq!(generate_display_name(Some("Aegis_Gladius"), Some("Aegis Dynamics")).as_deref(), Some("Gladius"));
    assert_eq!(
        generate_display_name(Some("Drake_Cutlass__Black"), Some("Drake Interplanetary")).as_deref(),
        Some("Cutlass Black")
    );
}

#[test]
fn display_name_uses_known_abbreviations() {
    assert_eq!(
        generate_display_name(Some("RSI Constellation Andromeda"), Some("Roberts Space Industries")).as_deref(),
        Some("Constellation Andromeda")
    );
    assert_eq!(
        generate_display_name(Some("MISC_Freelancer"), Some("Musashi Industrial & Starflight Concern")).as_deref(),
        Some("Freelancer")
    );
}

#[test]
fn display_name_ignores_case_of_prefix() {
    assert_eq!(generate_display_name(Some("aegis  gladius"), Some("Aegis Dynamics")).as_deref(), Some("gladius"));
}

#[test]
fn display_name_keeps_name_when_nothing_is_left() {
    assert_eq!(generate_display_name(Some("Aegis"), Some("Aegis Dynamics")).as_deref(), Some("Aegis"));
    assert_eq!(generate_display_name(Some("  Gladius  "), None).as_deref(), Some("Gladius"));
}

#[test]
fn display_name_of_blank_or_missing_name() {
    assert_eq!(generate_display_name(Some("   "), Some("Aegis Dynamics")), None);
    assert_eq!(generate_display_name(None, Some("Aegis Dynamics")), None);
    assert_eq!(generate_display_name(Some("_"), None).as_deref(), Some(""));
}

fn vehicle_payload(uuid: Option<&str>, name: Option<&str>, extra: JsonValue) -> VehicleFilePayload {
    VehicleFilePayload {
        uuid: uuid.map(|s| s.to_string()),
        class_name: Some("AEGS_Gladius".to_string()),
        name: name.map(|s| s.to_string()),
        career: Some("Combat".to_string()),
        role: Some("Light Fighter".to_string()),
        is_vehicle: None,
        is_gravlev: Some(false),
        is_spaceship: Some(true),
        size: Some(mi(2)),
        manufacturer: Some(ManufacturerRef {
            uuid: Some("m-1".to_string()),
            name: Some("Aegis Dynamics".to_string()),
        }),
        extra,
    }
}

#[test]
fn vehicle_from_payload_reads_fields() {
    let v = Vehicle::from_payload(vehicle_payload(Some(" v-1 "), Some("Aegis Gladius"), mo(vec![("Mass", mi(9))])))
        .unwrap();
    assert_eq!(v.uuid, "v-1");
    assert_eq!(v.display_name.as_deref(), Some("Gladius"));
    assert!(!v.is_vehicle);
    assert!(v.is_spaceship);
    assert_eq!(v.manufacturer_uuid.as_deref(), Some("m-1"));
    assert_eq!(text_of(v.data.get("UUID")).as_deref(), Some(" v-1 "));
    assert_eq!(text_of(v.data.get("Career")).as_deref(), Some("Combat"));
    assert!(matches!(v.data.get("IsVehicle"), Some(JsonValue::Null)));
    assert!(matches!(v.data.get("Mass"), Some(JsonValue::Number(JsonNumber::PosInt(9)))));
    assert!(v.translations.is_empty());
}

#[test]
fn vehicle_without_uuid_is_skipped() {
    assert!(Vehicle::from_payload(vehicle_payload(Some("  "), Some("X"), JsonValue::Null)).is_none());
    assert!(Vehicle::from_payload(vehicle_payload(None, Some("X"), JsonValue::Null)).is_none());
}

#[test]
fn vehicle_with_unserializable_extra_has_null_data() {
    let v = Vehicle::from_payload(vehicle_payload(Some("v"), Some("X"), ms("oops"))).unwrap();
    assert!(matches!(v.data, JsonValue::Null));
}

#[test]
fn vehicle_try_from_payload_reports_success() {
    let r = Vehicle::try_from_payload(vehicle_payload(Some("v"), Some("Aegis Gladius"), JsonValue::Null));
    assert_eq!(r.unwrap().unwrap().display_name.as_deref(), Some("Gladius"));
}

#[test]
fn raw_vehicle_files_are_recognised() {
    assert!(is_raw_vehicle_file("aegs_gladius-raw.json"));
    assert!(!is_raw_vehicle_file("aegs_gladius.json"));
    assert!(!is_raw_vehicle_file("raw.json"));
}

fn item_doc() -> JsonValue {
    mo(vec![
        ("reference", ms(" i-1 ")),
        ("name", ms("  ")),
        ("itemName", ms("P4-AR Rifle")),
        ("className", ms("behr_rifle_ballistic_01")),
        ("type", ms("WeaponPersonal")),
        ("subType", ms("Medium")),
        ("classification", ms("FPS.Weapon.Rifle")),
        ("size", mi(2)),
        ("grade", JsonValue::Number(JsonNumber::NegInt(-1))),
        (
            "stdItem",
            mo(vec![
                ("Manufacturer", mo(vec![("UUID", ms("m-2"))])),
                ("DescriptionData", mo(vec![("Class", ms("Military"))])),
                ("DescriptionText", ms("  A rifle.  ")),
            ]),
        ),
        (
            "entity_tag_map",
            JsonValue::Array(vec![mo(vec![("tag", ms("t-1"))]), mo(vec![("x", ms("t-2"))])]),
        ),
    ])
}

#[test]
fn item_from_payload_reads_fields() {
    let it = Item::from_payload(item_doc(), None).unwrap();
    assert_eq!(it.uuid, "i-1");
    assert_eq!(it.name, "P4-AR Rifle");
    assert_eq!(it.class_name.as_deref(), Some("behr_rifle_ballistic_01"));
    assert_eq!(it.item_type.as_deref(), Some("WeaponPersonal"));
    assert_eq!(it.sub_type.as_deref(), Some("Medium"));
    assert_eq!(it.size, Some(2));
    assert_eq!(it.grade, Some(-1));
    assert_eq!(it.class.as_deref(), Some("Military"));
    assert_eq!(it.manufacturer_uuid.as_deref(), Some("m-2"));
    assert_eq!(it.entity_tags, vec!["t-1".to_string()]);
    assert_eq!(it.translations, vec![("en".to_string(), "A rifle.".to_string())]);
}

#[test]
fn item_class_outside_the_list_is_dropped() {
    let doc = mo(vec![
        ("uuid", ms("u")),
        ("stdItem", mo(vec![("DescriptionData", mo(vec![("Class", ms("Luxury"))]))])),
    ]);
    let it = Item::from_payload(doc, None).unwrap();
    assert_eq!(it.uuid, "u");
    assert_eq!(it.name, "Unknown Item");
    assert!(it.class.is_none());
    assert!(it.translations.is_empty());
}

#[test]
fn item_without_uuid_is_skipped() {
    assert!(Item::from_payload(mo(vec![("reference", ms(" "))]), None).is_none());
    assert!(Item::from_payload(mo(vec![("name", ms("x"))]), None).is_none());
}

fn raw_doc(desc_label: &str, english: Option<&str>) -> JsonValue {
    let mut def = vec![("Localization__Description", ms(desc_label))];
    if let Some(e) = english {
        def.push(("Localization", mo(vec![("English", mo(vec![("Description", ms(e))]))])));
    }
    mo(vec![(
        "Entity",
        mo(vec![("Components", mo(vec![("SAttachableComponentParams", mo(vec![("AttachDef", mo(def))]))]))]),
    )])
}

#[test]
fn item_description_label_from_raw() {
    let raw = raw_doc("@item_Desc_Rifle", None);
    assert_eq!(Item::description_label(Some(&raw)).as_deref(), Some("item_Desc_Rifle"));
    let empty = raw_doc("@LOC_EMPTY", None);
    assert_eq!(Item::description_label(Some(&empty)), None);
    assert_eq!(Item::description_label(None), None);
}

#[test]
fn item_english_description_from_raw_localization() {
    let doc = mo(vec![("uuid", ms("u"))]);
    let raw = raw_doc("@x", Some(" From raw "));
    let it = Item::from_payload(doc, Some(&raw)).unwrap();
    assert_eq!(it.translations, vec![("en".to_string(), "From raw".to_string())]);
}

#[test]
fn item_file_adds_label_translations_except_english() {
    let english = vec![("item_Desc_Rifle".to_string(), "Label English".to_string())];
    let german = ini_translations(&vec![("default".to_string(), vec![("item_Desc_Rifle".to_string(), Some("Gewehr".to_string()))])]);
    let chinese = ini_translations(&vec![("default".to_string(), vec![("other".to_string(), Some("x".to_string()))])]);
    let labels = merge_labels(&english, &german, &chinese);
    let payload = ItemFilePayload { item: Some(item_doc()), raw: Some(raw_doc("@item_Desc_Rifle", None)) };
    let it = item_from_file(payload, &labels).unwrap();
    assert_eq!(
        it.translations,
        vec![("en".to_string(), "A rifle.".to_string()), ("de".to_string(), "Gewehr".to_string())]
    );
    assert!(item_from_file(ItemFilePayload { item: None, raw: None }, &labels).is_none());
}

#[test]
fn ini_sections_merge_with_later_values_winning() {
    let m = ini_translations(&vec![
        ("first".to_string(), vec![("a".to_string(), Some("1".to_string())), ("b".to_string(), None)]),
        ("second".to_string(), vec![("a".to_string(), Some("2".to_string()))]),
    ]);
    assert_eq!(m.get("a").map(|s| s.as_str()), Some("2"));
    assert!(m.get("b").is_none());
}

#[test]
fn labels_have_english_then_german_then_chinese() {
    let english = vec![("k".to_string(), "Hello".to_string()), ("j".to_string(), "Only".to_string())];
    let german = ini_translations(&vec![("default".to_string(), vec![("k".to_string(), Some("Hallo".to_string()))])]);
    let chinese = ini_translations(&vec![("default".to_string(), vec![("k".to_string(), Some("Ni hao".to_string()))])]);
    let labels = merge_labels(&english, &german, &chinese);
    let k = labels.get("k").unwrap();
    assert_eq!(
        k.translations,
        vec![
            ("en".to_string(), "Hello".to_string()),
            ("de".to_string(), "Hallo".to_string()),
            ("zh".to_string(), "Ni hao".to_string()),
        ]
    );
    assert_eq!(labels.get("j").unwrap().translations.len(), 1);
}

#[test]
fn manufacturers_keep_valid_entries_and_add_unknown() {
    let raw = vec![
        ManufacturerRaw { reference: Some(" m-1 ".to_string()), name: Some(" Aegis ".to_string()), code: None },
        ManufacturerRaw { reference: Some("m-2".to_string()), name: Some(" ".to_string()), code: Some("X".to_string()) },
        ManufacturerRaw { reference: None, name: Some("Drake".to_string()), code: Some("DRAK".to_string()) },
    ];
    let ms_ = manufacturers_from_raw(raw);
    assert_eq!(ms_.len(), 2);
    assert_eq!(ms_[0].uuid, "m-1");
    assert_eq!(ms_[0].name, "Aegis");
    assert_eq!(ms_[0].code, "");
    assert_eq!(ms_[1].uuid, "00000000-0000-0000-0000-000000000000");
    assert_eq!(ms_[1].name, "Unknown");
    assert_eq!(ms_[1].code, "UNKN");
    let empty = manufacturers_from_raw(Vec::new());
    assert_eq!(empty.len(), 1);
}

#[test]
fn manufacturers_do_not_repeat_unknown() {
    let raw = vec![ManufacturerRaw {
        reference: Some("00000000-0000-0000-0000-000000000000".to_string()),
        name: Some("Nobody".to_string()),
        code: Some("NONE".to_string()),
    }];
    let ms_ = manufacturers_from_raw(raw);
    assert_eq!(ms_.len(), 1);
    assert_eq!(ms_[0].name, "Nobody");
}

#[test]
fn entity_tags_are_trimmed_and_blank_ones_dropped() {
    let tags = entity_tags_from_pairs(&vec![
        (" t-1 ".to_string(), " Tag ".to_string()),
        ("t-2".to_string(), "  ".to_string()),
        (" ".to_string(), "x".to_string()),
    ]);
    assert_eq!(tags.len(), 1);
    assert_eq!(tags[0].uuid, "t-1");
    assert_eq!(tags[0].name, "Tag");
}

#[test]
fn starmap_location_from_payload_reads_fields() {
    let entry = mo(vec![
        ("uuid", ms(" l-1 ")),
        ("name", ms(" ")),
        ("type", mo(vec![("name", ms("Planet"))])),
        ("size", mi(5)),
        ("isScannable", JsonValue::Bool(true)),
        ("parentUuid", ms(" p ")),
        ("description", ms(" A world ")),
        (
            "amenities",
            JsonValue::Array(vec![
                mo(vec![("uuid", ms("a-1")), ("name", ms(" ")), ("displayName", ms(" Bar "))]),
                mo(vec![("uuid", ms(""))]),
            ]),
        ),
    ]);
    let l = StarmapLocation::from_payload(entry).unwrap();
    assert_eq!(l.uuid, "l-1");
    assert_eq!(l.name, "l-1");
    assert_eq!(l.type_label, "Planet");
    assert_eq!(l.size, Some(JsonNumber::PosInt(5)));
    assert!(l.is_scannable);
    assert!(!l.block_travel);
    assert_eq!(l.parent_uuid.as_deref(), Some("p"));
    assert_eq!(l.description.as_deref(), Some("A world"));
    assert!(l.system.is_none());
    assert_eq!(l.amenities.len(), 1);
    assert_eq!(l.amenities[0].name, "a-1");
    assert_eq!(l.amenities[0].display_name.as_deref(), Some("Bar"));
    assert!(StarmapLocation::from_payload(mo(vec![("name", ms("x"))])).is_none());
    let unknown = StarmapLocation::from_payload(mo(vec![("uuid", ms("z"))])).unwrap();
    assert_eq!(unknown.type_label, "Unknown");
}

fn place(uuid: &str, name: &str, kind: &str, parent: Option<&str>) -> JsonValue {
    let mut v = vec![("uuid", ms(uuid)), ("name", ms(name)), ("type", mo(vec![("name", ms(kind))]))];
    if let Some(p) = parent {
        v.push(("parentUuid", ms(p)));
    }
    mo(v)
}

#[test]
fn starmap_systems_resolve_through_parents_and_star_names() {
    let locs = load_starmap(vec![
        place("s", "Stanton", "SolarSystem", None),
        place("p", "Hurston", "Planet", Some("s")),
        place("m", "Aberdeen", "Moon", Some("p")),
        place("st", "Stanton System", "Star", None),
        place("o", "Lost", "Planet", Some("nowhere")),
        place("c1", "Loop A", "Planet", Some("c2")),
        place("c2", "Loop B", "Planet", Some("c1")),
    ]);
    let systems: Vec<Option<&str>> = locs.iter().map(|l| l.system.as_deref()).collect();
    assert_eq!(
        systems,
        vec![Some("Stanton"), Some("Stanton"), Some("Stanton"), Some("Stanton"), None, None, None]
    );
}

fn blueprint_doc() -> JsonValue {
    mo(vec![
        ("uuid", ms("b-1")),
        ("key", ms(" BP_Rifle ")),
        ("category_uuid", ms("c-1")),
        ("output", mo(vec![("uuid", ms(" i-1 ")), ("name", ms("Rifle")), ("class", ms(" "))])),
        ("availability", mo(vec![("default", JsonValue::Bool(true))])),
        (
            "tiers",
            JsonValue::Array(vec![
                mo(vec![
                    ("craft_time_seconds", mi(60)),
                    (
                        "requirements",
                        mo(vec![
                            ("kind", ms("group")),
                            (
                                "children",
                                JsonValue::Array(vec![
                                    mo(vec![("kind", ms("resource")), ("uuid", ms(" r-1 "))]),
                                    mo(vec![("kind", ms("resource")), ("uuid", ms("r-2"))]),
                                ]),
                            ),
                        ]),
                    ),
                ]),
                mo(vec![(
                    "requirements",
                    mo(vec![("kind", ms("resource")), ("uuid", ms("r-1"))]),
                )]),
            ]),
        ),
    ])
}

#[test]
fn blueprint_from_payload_reads_fields() {
    let b = Blueprint::from_payload(blueprint_doc()).unwrap();
    assert_eq!(b.uuid, "b-1");
    assert_eq!(b.key, "BP_Rifle");
    assert_eq!(b.output_item_uuid.as_deref(), Some("i-1"));
    assert_eq!(b.output_name.as_deref(), Some("Rifle"));
    assert!(b.output_class.is_none());
    assert_eq!(b.craft_time_seconds, Some(60));
    assert!(b.is_available_by_default);
    assert_eq!(b.ingredient_resource_type_uuids, vec!["r-1".to_string(), "r-2".to_string()]);
    assert_eq!(load_blueprints(vec![blueprint_doc(), mo(vec![("uuid", ms("x"))])]).len(), 1);
}

#[test]
fn resource_type_from_payload_reads_fields() {
    let doc = mo(vec![
        ("uuid", ms(" r-1 ")),
        ("key", ms("Iron")),
        ("name", ms("Iron Ore")),
        ("refined_version_uuid", ms("  ")),
        ("validate_default_cargo_box", JsonValue::Bool(true)),
        ("box_sizes_scu", JsonValue::Array(vec![mi(1), ms("x"), JsonValue::Number(JsonNumber::Float(0.5f64.to_bits()))])),
    ]);
    let r = ResourceType::from_payload(doc).unwrap();
    assert_eq!(r.uuid, "r-1");
    assert_eq!(r.name, "Iron Ore");
    assert_eq!(r.description, "");
    assert!(r.refined_version_uuid.is_none());
    assert!(r.validate_default_cargo_box);
    assert!(!r.has_default_cargo_containers);
    assert_eq!(r.box_sizes_scu.len(), 2);
    assert_eq!(load_resource_types(vec![mo(vec![("uuid", ms("u"))])]).len(), 0);
}

#[test]
fn vehicle_without_uuid_is_skipped_before_its_name_is_cut() {
    let mut p = vehicle_payload(None, Some("\u{df}\u{e9}"), JsonValue::Null);
    p.manufacturer = Some(ManufacturerRef { uuid: None, name: Some("\u{1e9e}".to_string()) });
    assert!(matches!(Vehicle::try_from_payload(p), Some(None)));
    let mut q = vehicle_payload(Some("v"), Some("\u{df}\u{e9}"), JsonValue::Null);
    q.manufacturer = Some(ManufacturerRef { uuid: None, name: Some("\u{1e9e}".to_string()) });
    assert!(Vehicle::try_from_payload(q).is_none());
}

#[test]
fn display_names_are_tidy_and_stable() {
    let d = generate_display_name(Some("  Drake__Cutlass   Black_ "), Some("Drake Interplanetary")).unwrap();
    assert_eq!(d, "Cutlass Black");
    assert_eq!(generate_display_name(Some(&d), None), Some(d.clone()));
    assert_eq!(generate_display_name(Some("a \t b"), None).as_deref(), Some("a b"));
}

#[test]
fn system_lookup_follows_the_given_maps() {
    let locs = vec![
        StarmapLocation::from_payload(place("s", "Stanton", "SolarSystem", None)).unwrap(),
        StarmapLocation::from_payload(place("p", "Hurston", "Planet", Some("alias"))).unwrap(),
        StarmapLocation::from_payload(place("st", "Pyro System", "Star", None)).unwrap(),
    ];
    let mut by_uuid = build_uuid_index(&locs);
    let mut solar = build_solar_systems(&locs);
    assert_eq!(resolve_system_for_location(1, &locs, &by_uuid, &solar), None);
    by_uuid.insert("alias".to_string(), 0);
    assert_eq!(resolve_system_for_location(1, &locs, &by_uuid, &solar).as_deref(), Some("Stanton"));
    assert_eq!(resolve_system_for_location(2, &locs, &by_uuid, &solar), None);
    solar.insert("pyro".to_string(), "Pyro".to_string());
    assert_eq!(resolve_system_for_location(2, &locs, &by_uuid, &solar).as_deref(), Some("Pyro"));
}
