use starcitizen_api::handlers::blueprints::{get_blueprint, list_blueprints};
use starcitizen_api::handlers::items::{
    get_item, get_weapon, item_filters, list_food, list_items, list_weapons, search_items,
};
use starcitizen_api::handlers::manufacturers::{get_manufacturer, list_manufacturers, search_manufacturers};
use starcitizen_api::handlers::resource_types::{list_resource_types, resource_type_blueprints};
use starcitizen_api::handlers::starmap::{get_location, list_locations, location_filters};
use starcitizen_api::handlers::vehicles::{
    get_ground_vehicle, get_vehicle, list_ground_vehicles, list_gravlev_vehicles, list_vehicles,
    search_vehicles, vehicle_filters,
};
use starcitizen_api::json::{JsonNumber, JsonValue};
use starcitizen_api::loader::{ini_translations, merge_labels, GameData};
use starcitizen_api::models::blueprint::Blueprint;
use starcitizen_api::models::item::Item;
use starcitizen_api::models::manufacturer::Manufacturer;
use starcitizen_api::models::resource_type::ResourceType;
use starcitizen_api::models::starmap::{Amenity, StarmapLocation};
use starcitizen_api::models::tag::EntityTag;
use starcitizen_api::models::vehicle::Vehicle;

fn ho(pairs: Vec<(&str, JsonValue)>) -> JsonValue {
    JsonValue::Object(pairs.into_iter().map(|(k, v)| (k.to_string(), v)).collect())
}

fn hs(s: &str) -> JsonValue {
    JsonValue::String(s.to_string())
}

fn hn(i: u64) -> JsonValue {
    JsonValue::Number(JsonNumber::PosInt(i))
}

fn some(s: &str) -> Option<String> {
    Some(s.to_string())
}

fn member_text(v: &JsonValue, key: &str) -> Option<String> {
    v.get(key).and_then(|x| x.as_str()).cloned()
}

fn uuids(r: &[JsonValue]) -> Vec<String> {
    r.iter().map(|v| member_text(v, "uuid").unwrap()).collect()
}

fn strings_of(v: &JsonValue) -> Vec<String> {
    v.as_array().unwrap().iter().map(|x| x.as_str().unwrap().clone()).collect()
}

fn item(uuid: &str, name: &str, t: &str, st: Option<&str>, cl: Option<&str>, mfr: Option<&str>, mass: u64) -> Item {
    Item {
        uuid: uuid.to_string(),
        name: name.to_string(),
        class_name: Some(format!("{} class", uuid)),
        item_type: some(t),
        sub_type: st.map(|s| s.to_string()),
        classification: cl.map(|s| s.to_string()),
        size: Some(2),
        grade: None,
        class: None,
        manufacturer_uuid: mfr.map(|s| s.to_string()),
        data: ho(vec![("mass", hn(mass))]),
        translations: vec![("en".to_string(), format!("{} en", name)), ("de".to_string(), format!("{} de", name))],
        entity_tags: vec!["t-1".to_string(), "t-missing".to_string()],
    }
}

fn vehicle(uuid: &str, name: &str, display: &str, career: &str, ground: bool, gravlev: bool, ship: bool, mfr: &str) -> Vehicle {
    Vehicle {
        uuid: uuid.to_string(),
        name: some(name),
        display_name: some(display),
        class_name: some(&format!("{}_class", uuid)),
        career: some(career),
        role: some("Role"),
        is_vehicle: ground,
        is_gravlev: gravlev,
        is_spaceship: ship,
        size: Some(hn(1)),
        manufacturer_uuid: some(mfr),
        data: ho(vec![("uuid", hs(uuid))]),
        translations: Vec::new(),
    }
}

fn location(uuid: &str, name: &str, kind: &str, system: Option<&str>, amenities: Vec<Amenity>) -> StarmapLocation {
    StarmapLocation {
        uuid: uuid.to_string(),
        name: name.to_string(),
        description: some(&format!("About {}", name)),
        type_label: kind.to_string(),
        size: Some(JsonNumber::PosInt(3)),
        is_scannable: true,
        block_travel: false,
        parent_uuid: None,
        system: system.map(|s| s.to_string()),
        amenities,
        data: ho(vec![("uuid", hs(uuid))]),
    }
}

fn blueprint(uuid: &str, key: &str, out: &str, name: &str, default: bool, ingredients: Vec<&str>) -> Blueprint {
    Blueprint {
        uuid: uuid.to_string(),
        key: key.to_string(),
        category_uuid: "cat".to_string(),
        output_item_uuid: some(out),
        output_name: some(name),
        output_class: some("Weapon"),
        craft_time_seconds: Some(30),
        is_available_by_default: default,
        ingredient_resource_type_uuids: ingredients.into_iter().map(|s| s.to_string()).collect(),
        data: ho(vec![("uuid", hs(uuid))]),
    }
}

fn resource(uuid: &str, key: &str, name: &str) -> ResourceType {
    ResourceType {
        uuid: uuid.to_string(),
        key: key.to_string(),
        name: name.to_string(),
        description: String::new(),
        refined_version_uuid: None,
        validate_default_cargo_box: false,
        has_default_cargo_containers: true,
        box_sizes_scu: vec![JsonNumber::PosInt(1), JsonNumber::Float(0.5f64.to_bits())],
        data: JsonValue::Null,
    }
}

fn game() -> GameData {
    let items = vec![
        item("i-1", "P4 AR Rifle", "WeaponPersonal", Some("Medium"), Some("FPS.Weapon.Rifle"), Some("m-1"), 30),
        item("i-2", "Gladius Helmet", "Char_Armor_Helmet", None, Some("FPS.Armor.Helmet"), Some("m-2"), 5),
        item("i-3", "Burrito", "Consumable", Some("Food"), None, None, 1),
        item("i-4", "Laser Repeater", "WeaponGun", None, Some("Ship.Weapon.Gun"), Some("m-1"), 300),
    ];
    let vehicles = vec![
        vehicle("v-1", "AEGS_Gladius", "Gladius", "Combat", false, false, true, "m-2"),
        vehicle("v-2", "RSI_Ursa_Rover", "Ursa Rover", "Ground", true, false, false, "m-1"),
        vehicle("v-3", "ANVL_Nox", "Nox", "Combat", true, true, false, "m-1"),
    ];
    let manufacturers = vec![
        Manufacturer { uuid: "m-1".to_string(), name: "Behring".to_string(), code: "BEHR".to_string() },
        Manufacturer { uuid: "m-2".to_string(), name: "Aegis Dynamics".to_string(), code: "AEGS".to_string() },
        Manufacturer { uuid: "m-3".to_string(), name: "Drake Interplanetary".to_string(), code: "DRAK".to_string() },
    ];
    let locations = vec![
        location("l-1", "Hurston", "Planet", Some("Stanton"), vec![Amenity {
            uuid: "a-1".to_string(),
            name: "Cargo Deck".to_string(),
            display_name: some("Refinery Bar"),
        }]),
        location("l-2", "Pyro", "SolarSystem", Some("Pyro"), Vec::new()),
        location("l-3", "Crusader", "Planet", Some("Stanton"), Vec::new()),
    ];
    let blueprints = vec![
        blueprint("b-1", "BP_Rifle", "i-1", "P4 AR Rifle", true, vec!["r-1", "r-2"]),
        blueprint("b-2", "BP_Helmet", "i-2", "Gladius Helmet", false, vec!["r-2"]),
    ];
    let resource_types = vec![resource("r-1", "Iron", "Iron Ore"), resource("r-2", "Gold", "Gold Ore"), resource("r-3", "Tin", "Tin Ore")];
    let tags = vec![EntityTag { uuid: "t-1".to_string(), name: "Rifle".to_string() }];
    let labels = merge_labels(&Vec::new(), &ini_translations(&Vec::new()), &ini_translations(&Vec::new()));
    GameData::new(items, vehicles, blueprints, manufacturers, resource_types, locations, tags, labels)
}

#[test]
fn items_filter_by_type_ignoring_case() {
    let g = game();
    let r = list_items(&g, "filter[type]=weaponpersonal", "/api/items");
    assert_eq!(uuids(&r.data), vec!["i-1"]);
    assert_eq!(r.meta.total, 1);
    assert_eq!(r.links.first, "/api/items?page[number]=1&page[size]=30");
}

#[test]
fn items_filter_by_manufacturer_code_and_size() {
    let g = game();
    let r = list_items(&g, "filter[manufacturer]=behr&filter[size]=2", "/i");
    assert_eq!(uuids(&r.data), vec!["i-1", "i-4"]);
    let none = list_items(&g, "filter[size]=02", "/i");
    assert!(none.data.is_empty());
}

#[test]
fn items_search_reads_underscores_as_spaces() {
    let g = game();
    let r = list_items(&g, "query=p4_ar", "/i");
    assert_eq!(uuids(&r.data), vec!["i-1"]);
    let by_class = list_items(&g, "query=I-3_CLASS", "/i");
    assert_eq!(uuids(&by_class.data), vec!["i-3"]);
}

#[test]
fn items_sort_by_data_descending_and_page() {
    let g = game();
    let r = list_items(&g, "sort=-mass&page[size]=2&page[number]=2", "/i");
    assert_eq!(uuids(&r.data), vec!["i-2", "i-3"]);
    assert_eq!(r.meta.last_page, 2);
    assert_eq!(r.meta.from, 3);
}

#[test]
fn items_response_members() {
    let g = game();
    let r = list_items(&g, "filter[name]=rifle", "/i");
    let it = &r.data[0];
    assert_eq!(member_text(it, "type").as_deref(), Some("WeaponPersonal"));
    assert!(matches!(it.get("size"), Some(JsonValue::Number(JsonNumber::PosInt(2)))));
    assert!(matches!(it.get("grade"), Some(JsonValue::Null)));
    let m = it.get("manufacturer").unwrap();
    assert_eq!(member_text(m, "code").as_deref(), Some("BEHR"));
    let d = it.get("description").unwrap();
    assert_eq!(member_text(d, "de").as_deref(), Some("P4 AR Rifle de"));
    assert_eq!(strings_of(it.get("entity_tags").unwrap()), vec!["t-1", "t-missing"]);
    let tm = it.get("entity_tag_map").unwrap().as_array().unwrap();
    assert_eq!(tm.len(), 1);
    assert_eq!(member_text(&tm[0], "name").as_deref(), Some("Rifle"));
    assert!(matches!(it.get("data").unwrap().get("mass"), Some(JsonValue::Number(JsonNumber::PosInt(30)))));
}

#[test]
fn items_description_by_locale_with_english_fallback() {
    let g = game();
    let de = list_items(&g, "locale=de&filter[name]=burrito", "/i");
    assert_eq!(member_text(&de.data[0], "description").as_deref(), Some("Burrito de"));
    let fr = list_items(&g, "locale=fr&filter[name]=burrito", "/i");
    assert_eq!(member_text(&fr.data[0], "description").as_deref(), Some("Burrito en"));
}

#[test]
fn items_by_category() {
    let g = game();
    assert_eq!(uuids(&list_weapons(&g, "", "/w").data), vec!["i-1", "i-4"]);
    assert_eq!(uuids(&list_food(&g, "", "/f").data), vec!["i-3"]);
}

#[test]
fn item_lookup_by_uuid_or_name() {
    let g = game();
    let a = get_item(&g, "i-2", "");
    let data = a.get("data").unwrap();
    assert_eq!(member_text(data, "uuid").as_deref(), Some("i-2"));
    assert!(a.get("meta").unwrap().get("processed_at").is_some());
    let b = get_item(&g, "BURRITO", "locale=de");
    assert_eq!(member_text(b.get("data").unwrap(), "description").as_deref(), Some("Burrito de"));
    let c = get_item(&g, "nothing", "");
    assert_eq!(member_text(&c, "error").as_deref(), Some("Not found"));
    assert_eq!(member_text(&c, "message").as_deref(), Some("Item 'nothing' not found"));
}

#[test]
fn category_lookup_checks_the_category() {
    let g = game();
    let ok = get_weapon(&g, "p4 ar rifle", "");
    assert_eq!(member_text(ok.get("data").unwrap(), "uuid").as_deref(), Some("i-1"));
    let miss = get_weapon(&g, "i-3", "");
    assert_eq!(member_text(&miss, "message").as_deref(), Some("weapons 'i-3' not found"));
}

#[test]
fn item_filter_values_each_once() {
    let g = game();
    let f = item_filters(&g);
    assert_eq!(
        strings_of(f.get("type").unwrap()),
        vec!["WeaponPersonal", "Char_Armor_Helmet", "Consumable", "WeaponGun"]
    );
    assert_eq!(strings_of(f.get("sub_type").unwrap()), vec!["Medium", "Food"]);
}

#[test]
fn item_search_body_overrides_query() {
    let g = game();
    let body = ho(vec![("query", hs("burrito"))]);
    let r = search_items(&g, "query=rifle", "/s", &body);
    assert_eq!(uuids(&r.data), vec!["i-3"]);
    let no_text = ho(vec![("query", hn(1))]);
    let r2 = search_items(&g, "query=rifle", "/s", &no_text);
    assert_eq!(uuids(&r2.data), vec!["i-1"]);
}

#[test]
fn vehicles_by_kind() {
    let g = game();
    assert_eq!(uuids(&list_ground_vehicles(&g, "", "/g").data), vec!["v-2"]);
    assert_eq!(uuids(&list_gravlev_vehicles(&g, "", "/g").data), vec!["v-3"]);
}

#[test]
fn vehicles_filter_by_manufacturer_and_flags() {
    let g = game();
    assert_eq!(uuids(&list_vehicles(&g, "filter[manufacturer]=aegs", "/v").data), vec!["v-1"]);
    assert_eq!(uuids(&list_vehicles(&g, "filter[manufacturer.name]=Behring", "/v").data), vec!["v-2", "v-3"]);
    assert_eq!(uuids(&list_vehicles(&g, "filter[is_spaceship]=1", "/v").data), vec!["v-1"]);
    assert_eq!(uuids(&list_vehicles(&g, "filter[is_gravlev]=no", "/v").data), vec!["v-1", "v-2"]);
}

#[test]
fn vehicle_search_and_response() {
    let g = game();
    let r = list_vehicles(&g, "query=ursa_rover", "/v");
    assert_eq!(uuids(&r.data), vec!["v-2"]);
    let v = &r.data[0];
    assert!(matches!(v.get("is_vehicle"), Some(JsonValue::Bool(true))));
    assert_eq!(member_text(v.get("manufacturer").unwrap(), "name").as_deref(), Some("Behring"));
    let body = ho(vec![("query", hs("nox"))]);
    assert_eq!(uuids(&search_vehicles(&g, "", "/v", &body).data), vec!["v-3"]);
}

#[test]
fn vehicle_lookups() {
    let g = game();
    let a = get_vehicle(&g, "gladius");
    assert_eq!(member_text(a.get("data").unwrap(), "uuid").as_deref(), Some("v-1"));
    let b = get_vehicle(&g, "none");
    assert_eq!(member_text(&b, "message").as_deref(), Some("Vehicle 'none' not found"));
    let c = get_ground_vehicle(&g, "rsi_ursa_rover");
    assert_eq!(member_text(c.get("data").unwrap(), "uuid").as_deref(), Some("v-2"));
    let d = get_ground_vehicle(&g, "v-3");
    assert_eq!(member_text(&d, "error").as_deref(), Some("Not found"));
    assert!(d.get("message").is_none());
}

#[test]
fn vehicle_filter_values() {
    let g = game();
    let f = vehicle_filters(&g);
    assert_eq!(strings_of(f.get("career").unwrap()), vec!["Combat", "Ground"]);
    assert_eq!(strings_of(f.get("role").unwrap()), vec!["Role"]);
}

#[test]
fn locations_filter_by_amenity_and_type() {
    let g = game();
    assert_eq!(uuids(&list_locations(&g, "filter[amenity]=bar", "/l").data), vec!["l-1"]);
    assert_eq!(uuids(&list_locations(&g, "filter[amenity]=a-1", "/l").data), vec!["l-1"]);
    assert_eq!(uuids(&list_locations(&g, "filter[type]=PLANET", "/l").data), vec!["l-1", "l-3"]);
    assert_eq!(uuids(&list_locations(&g, "filter[system]=pyro", "/l").data), vec!["l-2"]);
    assert_eq!(uuids(&list_locations(&g, "query=about cru", "/l").data), vec!["l-3"]);
}

#[test]
fn location_response_writes_size_as_f64() {
    let g = game();
    let a = get_location(&g, "l-1");
    let d = a.get("data").unwrap();
    assert!(matches!(d.get("size"), Some(JsonValue::Number(JsonNumber::Float(b))) if *b == 3.0f64.to_bits()));
    assert_eq!(member_text(d, "type_name").as_deref(), Some("Planet"));
    let am = d.get("amenities").unwrap().as_array().unwrap();
    assert_eq!(member_text(&am[0], "display_name").as_deref(), Some("Refinery Bar"));
    let miss = get_location(&g, "l-9");
    assert_eq!(member_text(&miss, "message").as_deref(), Some("Location 'l-9' not found"));
}

#[test]
fn location_filter_values() {
    let g = game();
    let f = location_filters(&g);
    assert_eq!(strings_of(f.get("type_name").unwrap()), vec!["Planet", "SolarSystem"]);
    assert_eq!(strings_of(f.get("system").unwrap()), vec!["Stanton", "Pyro"]);
}

#[test]
fn manufacturers_list_search_and_lookup() {
    let g = game();
    assert_eq!(uuids(&list_manufacturers(&g, "filter[name]=aeg", "/m").data), vec!["m-2"]);
    assert_eq!(uuids(&list_manufacturers(&g, "query=drak", "/m").data), vec!["m-3"]);
    let body = ho(vec![("query", hs("beh"))]);
    assert_eq!(uuids(&search_manufacturers(&g, "filter[name]=zzz", "/m", &body).data), vec!["m-1"]);
    let a = get_manufacturer(&g, "aegs");
    assert_eq!(member_text(a.get("data").unwrap(), "uuid").as_deref(), Some("m-2"));
    let b = get_manufacturer(&g, "nobody");
    assert_eq!(member_text(&b, "message").as_deref(), Some("Manufacturer 'nobody' not found"));
}

#[test]
fn blueprints_filters() {
    let g = game();
    assert_eq!(uuids(&list_blueprints(&g, "filter[output.uuid]=x, i-2 ,y", "/b").data), vec!["b-2"]);
    assert_eq!(uuids(&list_blueprints(&g, "filter[ingredient]=iron", "/b").data), vec!["b-1"]);
    assert_eq!(uuids(&list_blueprints(&g, "filter[default]=TRUE", "/b").data), vec!["b-1"]);
    assert_eq!(uuids(&list_blueprints(&g, "filter[query]=helmet", "/b").data), vec!["b-2"]);
    assert_eq!(uuids(&list_blueprints(&g, "query=bp_", "/b").data), vec!["b-1", "b-2"]);
}

#[test]
fn blueprint_lookup_and_response() {
    let g = game();
    let a = get_blueprint(&g, "b-1");
    let d = a.get("data").unwrap();
    assert!(matches!(d.get("ingredient_count"), Some(JsonValue::Number(JsonNumber::PosInt(2)))));
    assert!(matches!(d.get("craft_time_seconds"), Some(JsonValue::Number(JsonNumber::PosInt(30)))));
    let b = get_blueprint(&g, "b-9");
    assert_eq!(member_text(&b, "message").as_deref(), Some("Blueprint 'b-9' not found"));
}

#[test]
fn resource_types_used_filter() {
    let g = game();
    assert_eq!(uuids(&list_resource_types(&g, "", "/r").data), vec!["r-1", "r-2", "r-3"]);
    assert_eq!(uuids(&list_resource_types(&g, "filter[used]=true", "/r").data), vec!["r-1", "r-2"]);
    assert_eq!(uuids(&list_resource_types(&g, "filter[used]=TRUE", "/r").data), vec!["r-1", "r-2", "r-3"]);
    let r = list_resource_types(&g, "", "/r");
    let sizes = r.data[0].get("box_sizes_scu").unwrap().as_array().unwrap();
    assert!(matches!(sizes[0], JsonValue::Number(JsonNumber::Float(b)) if b == 1.0f64.to_bits()));
}

#[test]
fn blueprints_of_a_resource_type() {
    let g = game();
    let r = resource_type_blueprints(&g, "r-2", "", "/r");
    assert_eq!(uuids(&r.data), vec!["b-1", "b-2"]);
    assert_eq!(member_text(&r.data[0], "output_name").as_deref(), Some("P4 AR Rifle"));
    assert!(resource_type_blueprints(&g, "r-3", "", "/r").data.is_empty());
}

#[test]
fn memory_report_counts() {
    let g = game();
    assert_eq!(
        g.memory_report(),
        "Items: 4, Vehicles: 3, Blueprints: 2, Manufacturers: 3, ResourceTypes: 3, StarmapLocations: 3, EntityTags: 1, Labels: 0"
    );
}

#[test]
fn an_extra_filter_never_adds_items() {
    let g = game();
    let base = uuids(&list_items(&g, "filter[size]=2", "/i").data);
    let narrower = uuids(&list_items(&g, "filter[size]=2&filter[type]=weapongun", "/i").data);
    assert!(narrower.iter().all(|u| base.contains(u)));
    assert_eq!(narrower, vec!["i-4"]);
    let unknown = uuids(&list_items(&g, "filter[size]=2&filter[colour]=red", "/i").data);
    assert_eq!(unknown, base);
}

#[test]
fn vehicle_flags_other_than_true_or_one_mean_false() {
    let g = game();
    let a = uuids(&list_vehicles(&g, "filter[is_gravlev]=yes", "/v").data);
    let b = uuids(&list_vehicles(&g, "filter[is_gravlev]=false", "/v").data);
    let c = uuids(&list_vehicles(&g, "filter[is_gravlev]=TRUE", "/v").data);
    assert_eq!(a, b);
    assert_eq!(c, vec!["v-3"]);
}
