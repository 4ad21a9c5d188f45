use tasks::{Json, TaskAttributes};

fn json(text: &str) -> Json {
    Json::parse(text).unwrap()
}

#[test]
fn new_attributes_are_empty() {
    let attrs = TaskAttributes::new();
    assert_eq!(attrs.len(), 0);
    assert!(attrs.get("title").is_none());
    assert!(attrs.entry(0).is_none());
}

#[test]
fn insert_then_get() {
    let mut attrs = TaskAttributes::new();
    assert!(attrs.insert("title".to_string(), json("\"Report\"")).is_none());
    assert!(attrs.insert("priority".to_string(), json("3")).is_none());
    assert_eq!(attrs.len(), 2);
    assert_eq!(attrs.get("title"), Some(&json("\"Report\"")));
    assert_eq!(attrs.get("priority"), Some(&json("3")));
    assert!(attrs.get("Title").is_none());
    assert!(attrs.get("").is_none());
}

#[test]
fn insert_replaces_and_returns_the_old_value() {
    let mut attrs = TaskAttributes::new();
    attrs.insert("a".to_string(), json("1"));
    attrs.insert("b".to_string(), json("2"));
    let old = attrs.insert("a".to_string(), json("[1]"));
    assert_eq!(old, Some(json("1")));
    assert_eq!(attrs.len(), 2);
    assert_eq!(attrs.get("a"), Some(&json("[1]")));
    assert_eq!(attrs.get("b"), Some(&json("2")));
}

#[test]
fn remove_takes_one_name_out() {
    let mut attrs = TaskAttributes::new();
    attrs.insert("a".to_string(), json("1"));
    attrs.insert("b".to_string(), json("2"));
    attrs.insert("c".to_string(), json("3"));
    assert_eq!(attrs.remove("b"), Some(json("2")));
    assert_eq!(attrs.remove("b"), None);
    assert_eq!(attrs.len(), 2);
    assert_eq!(attrs.get("a"), Some(&json("1")));
    assert!(attrs.get("b").is_none());
    assert_eq!(attrs.get("c"), Some(&json("3")));
}

#[test]
fn holds_compares_name_and_value() {
    let mut attrs = TaskAttributes::new();
    attrs.insert("kind".to_string(), json("\"user\""));
    assert!(attrs.holds("kind", &json(" \"user\" ")));
    assert!(!attrs.holds("kind", &json("\"admin\"")));
    assert!(!attrs.holds("other", &json("\"user\"")));
}

#[test]
fn entries_can_be_walked() {
    let mut attrs = TaskAttributes::new();
    attrs.insert("a".to_string(), json("1"));
    attrs.insert("b".to_string(), json("2"));
    let mut seen = Vec::new();
    let mut i = 0;
    while let Some(entry) = attrs.entry(i) {
        seen.push((entry.name.clone(), entry.value.as_str().to_string()));
        i += 1;
    }
    seen.sort();
    assert_eq!(
        seen,
        vec![
            ("a".to_string(), "1".to_string()),
            ("b".to_string(), "2".to_string())
        ]
    );
}
