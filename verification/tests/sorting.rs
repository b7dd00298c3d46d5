use starcitizen_api::json::{JsonNumber, JsonValue};
use starcitizen_api::sort::{
    compare_json_values, number_as_f64, number_order_key, sort_by_json_path, Order,
};

fn sj_obj(pairs: Vec<(&str, JsonValue)>) -> JsonValue {
    JsonValue::Object(pairs.into_iter().map(|(k, v)| (k.to_string(), v)).collect())
}

fn sj_int(i: u64) -> JsonValue {
    JsonValue::Number(JsonNumber::PosInt(i))
}

fn sj_str(s: &str) -> JsonValue {
    JsonValue::String(s.to_string())
}

fn sj_float(f: f64) -> JsonValue {
    JsonValue::Number(JsonNumber::Float(f.to_bits()))
}

#[test]
fn sort_numbers_ascending_missing_last() {
    let docs = vec![
        sj_obj(vec![("mass", sj_int(30))]),
        sj_obj(vec![("other", sj_int(1))]),
        sj_obj(vec![("mass", sj_float(2.5))]),
        sj_obj(vec![("mass", JsonValue::Number(JsonNumber::NegInt(-4)))]),
    ];
    let refs: Vec<&JsonValue> = docs.iter().collect();
    assert_eq!(sort_by_json_path(&refs, "mass"), vec![3, 2, 0, 1]);
}

#[test]
fn sort_numbers_descending_missing_first() {
    let docs = vec![
        sj_obj(vec![("mass", sj_int(30))]),
        sj_obj(vec![("other", sj_int(1))]),
        sj_obj(vec![("mass", sj_float(2.5))]),
    ];
    let refs: Vec<&JsonValue> = docs.iter().collect();
    assert_eq!(sort_by_json_path(&refs, "-mass"), vec![1, 0, 2]);
}

#[test]
fn sort_strings_ignore_case_and_keep_ties_stable() {
    let docs = vec![
        sj_obj(vec![("name", sj_str("banana"))]),
        sj_obj(vec![("name", sj_str("Apple"))]),
        sj_obj(vec![("name", sj_str("APPLE"))]),
        sj_obj(vec![("name", sj_str("cherry"))]),
    ];
    let refs: Vec<&JsonValue> = docs.iter().collect();
    assert_eq!(sort_by_json_path(&refs, "name"), vec![1, 2, 0, 3]);
    assert_eq!(sort_by_json_path(&refs, "-name"), vec![3, 0, 1, 2]);
}

#[test]
fn sort_follows_dotted_paths() {
    let docs = vec![
        sj_obj(vec![("std", sj_obj(vec![("size", sj_int(3))]))]),
        sj_obj(vec![("std", sj_obj(vec![("size", sj_int(1))]))]),
        sj_obj(vec![("std", sj_obj(vec![("size", sj_int(2))]))]),
    ];
    let refs: Vec<&JsonValue> = docs.iter().collect();
    assert_eq!(sort_by_json_path(&refs, "std.size"), vec![1, 2, 0]);
}

#[test]
fn sort_booleans_false_first() {
    let docs = vec![
        sj_obj(vec![("f", JsonValue::Bool(true))]),
        sj_obj(vec![("f", JsonValue::Bool(false))]),
        sj_obj(vec![("f", JsonValue::Bool(true))]),
    ];
    let refs: Vec<&JsonValue> = docs.iter().collect();
    assert_eq!(sort_by_json_path(&refs, "f"), vec![1, 0, 2]);
}

#[test]
fn sort_large_list_is_a_sorted_permutation() {
    let docs: Vec<JsonValue> = (0..500u64).map(|i| sj_obj(vec![("k", sj_int((i * 7919) % 101))])).collect();
    let refs: Vec<&JsonValue> = docs.iter().collect();
    let r = sort_by_json_path(&refs, "k");
    assert_eq!(r.len(), 500);
    let mut seen = vec![false; 500];
    for &i in &r {
        assert!(!seen[i]);
        seen[i] = true;
    }
    for w in r.windows(2) {
        let a = (w[0] as u64 * 7919) % 101;
        let b = (w[1] as u64 * 7919) % 101;
        assert!(a < b || (a == b && w[0] < w[1]));
    }
}

#[test]
fn compare_missing_and_mixed_kinds() {
    let n = sj_int(1);
    let s = sj_str("a");
    assert_eq!(compare_json_values(None, Some(&n)), Order::Greater);
    assert_eq!(compare_json_values(Some(&n), None), Order::Less);
    assert_eq!(compare_json_values(None, None), Order::Equal);
    assert_eq!(compare_json_values(Some(&n), Some(&s)), Order::Equal);
    assert_eq!(compare_json_values(Some(&JsonValue::Null), Some(&JsonValue::Null)), Order::Equal);
}

#[test]
fn compare_numbers_by_value_across_representations() {
    let a = sj_int(2);
    let b = sj_float(2.0);
    let c = sj_float(2.5);
    let d = JsonValue::Number(JsonNumber::NegInt(-3));
    assert_eq!(compare_json_values(Some(&a), Some(&b)), Order::Equal);
    assert_eq!(compare_json_values(Some(&a), Some(&c)), Order::Less);
    assert_eq!(compare_json_values(Some(&d), Some(&a)), Order::Less);
    assert_eq!(compare_json_values(Some(&sj_float(-0.0)), Some(&sj_float(0.0))), Order::Equal);
}

#[test]
fn number_keys_follow_f64_bits() {
    assert_eq!(number_order_key(JsonNumber::PosInt(5)), 5.0f64.to_bits() as i128);
    assert_eq!(number_order_key(JsonNumber::PosInt(0)), 0);
    assert_eq!(number_order_key(JsonNumber::NegInt(-1)), -(1.0f64.to_bits() as i128));
    assert_eq!(
        number_order_key(JsonNumber::PosInt((1u64 << 53) + 1)),
        number_order_key(JsonNumber::PosInt(1u64 << 53))
    );
    assert_eq!(number_order_key(JsonNumber::PosInt(u64::MAX)), (u64::MAX as f64).to_bits() as i128);
}

#[test]
fn numbers_as_f64_round_to_nearest_even() {
    let cases: Vec<u64> = vec![
        0,
        1,
        5,
        (1 << 53) + 1,
        (1 << 53) + 3,
        (1 << 54) + 2,
        (1 << 54) + 6,
        123456789012345678,
        u64::MAX,
        (1 << 63) + 1025,
    ];
    for u in cases {
        assert_eq!(number_as_f64(JsonNumber::PosInt(u)), JsonNumber::Float((u as f64).to_bits()));
    }
    for i in [-1i64, -2, -9007199254740993, i64::MIN, 7] {
        assert_eq!(number_as_f64(JsonNumber::NegInt(i)), JsonNumber::Float((i as f64).to_bits()));
    }
    let f = 1.25f64.to_bits();
    assert_eq!(number_as_f64(JsonNumber::Float(f)), JsonNumber::Float(f));
}

#[test]
fn integer_keys_keep_order_and_are_exact_below_2_pow_53() {
    let samples: Vec<u64> = vec![0, 1, 2, 3, 1000, (1 << 53) - 1, 1 << 53, (1 << 53) + 1, (1 << 53) + 2, u64::MAX - 1, u64::MAX];
    for w in samples.windows(2) {
        let a = number_order_key(JsonNumber::PosInt(w[0]));
        let b = number_order_key(JsonNumber::PosInt(w[1]));
        assert!(a <= b);
        if w[1] <= (1 << 53) {
            assert!(a < b);
        }
    }
}

#[test]
fn sorting_twice_gives_the_same_order() {
    let docs: Vec<JsonValue> = ["b", "a", "B", "c", "A"].iter().map(|s| sj_obj(vec![("n", sj_str(s))])).collect();
    let refs: Vec<&JsonValue> = docs.iter().collect();
    let first = sort_by_json_path(&refs, "n");
    assert_eq!(first, vec![1, 4, 0, 2, 3]);
    assert_eq!(sort_by_json_path(&refs, "n"), first);
}
