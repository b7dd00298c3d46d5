use starcitizen_api::file_text::{entity_tags_from_text, labels_from_texts};

fn pairs(v: &[(&str, &str)]) -> Vec<(String, String)> {
    v.iter().map(|(a, b)| (a.to_string(), b.to_string())).collect()
}

#[test]
fn labels_from_texts_read_json_and_ini_files() {
    let english = r#"{"k": "Hello", "j": "Only English"}"#;
    let german = "; comment\n[Strings]\nk = Hallo\nflag\n";
    let chinese = "k: Ni hao\n";
    let labels = labels_from_texts(Some(english), Some(german), Some(chinese));
    assert_eq!(labels.len(), 2);
    assert_eq!(labels.get("k").unwrap().key, "k");
    assert_eq!(
        labels.get("k").unwrap().translations,
        pairs(&[("en", "Hello"), ("de", "Hallo"), ("zh", "Ni hao")])
    );
    assert_eq!(labels.get("j").unwrap().translations, pairs(&[("en", "Only English")]));
    assert!(labels.get("flag").is_none());
}

#[test]
fn labels_from_texts_skip_ini_keys_without_value() {
    let labels = labels_from_texts(Some(r#"{"flag": "On"}"#), Some("flag\n"), None);
    assert_eq!(labels.get("flag").unwrap().translations, pairs(&[("en", "On")]));
}

#[test]
fn labels_from_missing_or_unreadable_texts_are_empty() {
    assert_eq!(labels_from_texts(None, None, None).len(), 0);
    assert_eq!(labels_from_texts(Some("not json"), None, None).len(), 0);
    assert_eq!(labels_from_texts(Some(r#"{"k": 1}"#), None, None).len(), 0);
    assert_eq!(labels_from_texts(Some("[1, 2]"), Some("k = Hallo"), None).len(), 0);
}

#[test]
fn unreadable_ini_gives_no_translation() {
    let labels = labels_from_texts(Some(r#"{"k": "Hello"}"#), Some("[open\nk = Hallo\n"), Some("= no key\n"));
    assert_eq!(labels.get("k").unwrap().translations, pairs(&[("en", "Hello")]));
}

#[test]
fn entity_tags_from_text_trim_and_drop_blank() {
    let tags = entity_tags_from_text(Some(r#"{" t-1 ": " Tag ", "t-2": "  ", " ": "x"}"#));
    assert_eq!(tags.len(), 1);
    assert_eq!(tags[0].uuid, "t-1");
    assert_eq!(tags[0].name, "Tag");
}

#[test]
fn entity_tags_from_missing_or_unreadable_text_are_empty() {
    assert!(entity_tags_from_text(None).is_empty());
    assert!(entity_tags_from_text(Some("[1, 2]")).is_empty());
    assert!(entity_tags_from_text(Some(r#"{"a": null}"#)).is_empty());
}
