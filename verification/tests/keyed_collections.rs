use sempal::keyed::{TextMap, TextSet};

#[test]
fn text_map_insert_replaces_and_keeps_one_key() {
    let mut map: TextMap<u32> = TextMap::new();
    assert_eq!(map.len(), 0);
    assert_eq!(map.get("a"), None);

    map.insert("a".to_string(), 1);
    map.insert("b".to_string(), 2);
    map.insert("a".to_string(), 3);

    assert_eq!(map.len(), 2);
    assert_eq!(map.get("a"), Some(&3));
    assert_eq!(map.get("b"), Some(&2));
    assert!(map.contains_key("b"));
    assert!(!map.contains_key("c"));
    assert_eq!(map.keys(), vec!["a".to_string(), "b".to_string()]);
    assert_eq!(map.key_at(1), "b");
    assert_eq!(*map.value_at(0), 3);
}

#[test]
fn text_map_take_and_remove_drop_only_their_key() {
    let mut map: TextMap<String> = TextMap::new();
    map.insert("a".to_string(), "one".to_string());
    map.insert("b".to_string(), "two".to_string());

    assert_eq!(map.take("a"), Some("one".to_string()));
    assert_eq!(map.take("a"), None);
    assert_eq!(map.len(), 1);

    map.remove("missing");
    assert_eq!(map.len(), 1);
    map.remove("b");
    assert_eq!(map.len(), 0);
    assert!(map.keys().is_empty());
}

#[test]
fn text_set_holds_each_name_once() {
    let mut set = TextSet::new();
    set.insert("a".to_string());
    set.insert("a".to_string());
    set.insert("b".to_string());

    assert_eq!(set.len(), 2);
    assert!(set.contains("a"));

    set.remove("a");
    assert!(!set.contains("a"));
    assert_eq!(set.len(), 1);

    set.clear();
    assert_eq!(set.len(), 0);
    assert!(!set.contains("b"));
}
