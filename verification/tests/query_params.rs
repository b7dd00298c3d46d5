use starcitizen_api::query::{hex_val, matches_search, urldecode, QueryParams};

fn pair_list(p: &QueryParams) -> Vec<(String, String)> {
    p.filters.clone()
}

#[test]
fn query_defaults_for_empty_string() {
    let p = QueryParams::from_query("");
    assert_eq!(p.page, 1);
    assert_eq!(p.per_page, 30);
    assert!(p.filters.is_empty());
    assert!(p.sort.is_none());
    assert!(p.search.is_none());
    assert!(p.locale.is_none());
    assert!(p.includes.is_empty());
}

#[test]
fn query_reads_page_and_size() {
    let p = QueryParams::from_query("page[number]=3&page[size]=50");
    assert_eq!(p.page, 3);
    assert_eq!(p.per_page, 50);
}

#[test]
fn query_clamps_page_and_size() {
    let p = QueryParams::from_query("page[number]=0&page[size]=500");
    assert_eq!(p.page, 1);
    assert_eq!(p.per_page, 200);
    let q = QueryParams::from_query("page[size]=0");
    assert_eq!(q.per_page, 1);
}

#[test]
fn query_ignores_numbers_that_do_not_parse() {
    let p = QueryParams::from_query("page[number]=abc&page[size]=-5");
    assert_eq!(p.page, 1);
    assert_eq!(p.per_page, 30);
}

#[test]
fn query_reads_filters_with_decoding() {
    let p = QueryParams::from_query("filter[type]=WeaponPersonal&filter[name]=p4%2Dar+rifle");
    assert_eq!(
        pair_list(&p),
        vec![
            ("type".to_string(), "WeaponPersonal".to_string()),
            ("name".to_string(), "p4-ar rifle".to_string()),
        ]
    );
}

#[test]
fn query_last_filter_value_wins() {
    let p = QueryParams::from_query("filter[type]=a&filter[size]=2&filter[type]=b");
    assert_eq!(
        pair_list(&p),
        vec![("type".to_string(), "b".to_string()), ("size".to_string(), "2".to_string())]
    );
}

#[test]
fn query_ignores_malformed_filter_keys() {
    let p = QueryParams::from_query("filter[]=x&filter[a=y&filterz]=w&&=v");
    assert_eq!(pair_list(&p), vec![(String::new(), "x".to_string())]);
}

#[test]
fn query_reads_sort_locale_search_and_includes() {
    let p = QueryParams::from_query("sort=-stdItem.Mass&locale=de&query=gladius&include=a, b ,c");
    assert_eq!(p.sort.as_deref(), Some("-stdItem.Mass"));
    assert_eq!(p.locale.as_deref(), Some("de"));
    assert_eq!(p.search.as_deref(), Some("gladius"));
    assert_eq!(p.includes, vec!["a".to_string(), "b".to_string(), "c".to_string()]);
}

#[test]
fn query_key_without_value_is_empty() {
    let p = QueryParams::from_query("query");
    assert_eq!(p.search.as_deref(), Some(""));
}

#[test]
fn urldecode_plus_and_percent() {
    assert_eq!(urldecode("a%20b+c"), "a b c");
    assert_eq!(urldecode("%41%62"), "Ab");
}

#[test]
fn urldecode_bad_escape_keeps_percent_and_drops_two_bytes() {
    assert_eq!(urldecode("%zzx"), "%x");
    assert_eq!(urldecode("%4"), "%");
    assert_eq!(urldecode("100%"), "100%");
}

#[test]
fn urldecode_maps_each_byte_to_a_char() {
    assert_eq!(urldecode("%C3%A9"), "\u{c3}\u{a9}");
    assert_eq!(urldecode("plain"), "plain");
}

#[test]
fn hex_digit_values() {
    assert_eq!(hex_val(b'0'), Some(0));
    assert_eq!(hex_val(b'9'), Some(9));
    assert_eq!(hex_val(b'a'), Some(10));
    assert_eq!(hex_val(b'F'), Some(15));
    assert_eq!(hex_val(b'g'), None);
}

#[test]
fn search_is_case_insensitive_substring() {
    assert!(matches_search("Arrowhead Sniper Rifle", "SNIPER"));
    assert!(matches_search("Gladius", "glad"));
    assert!(!matches_search("Gladius", "sabre"));
    assert!(matches_search("Anything", ""));
}

#[test]
fn query_last_parsable_page_values_win() {
    let p = QueryParams::from_query("page[number]=3&page[number]=x&page[number]=5&page[size]=7&page[size]=bad");
    assert_eq!(p.page, 5);
    assert_eq!(p.per_page, 7);
}

#[test]
fn urldecode_escapes_in_either_case() {
    assert_eq!(urldecode("%4f%4F%ff%00"), "OO\u{ff}\u{0}");
}
