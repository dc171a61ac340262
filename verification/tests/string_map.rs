use triton_proxy::string_map::StringMap;

fn pair(key: &str, value: &str) -> (String, String) {
    (key.to_string(), value.to_string())
}

#[test]
fn new_map_is_empty() {
    let map: StringMap<String> = StringMap::new();
    assert_eq!(map.len(), 0);
    assert!(!map.contains_key("a"));
    assert!(map.get("a").is_none());
    assert!(map.keys().is_empty());
}

#[test]
fn insert_adds_a_new_key() {
    let mut map: StringMap<u32> = StringMap::new();
    assert_eq!(map.insert("a".to_string(), 1), None);
    assert_eq!(map.insert("b".to_string(), 2), None);
    assert_eq!(map.len(), 2);
    assert_eq!(map.get("a"), Some(&1));
    assert_eq!(map.get("b"), Some(&2));
    assert_eq!(map.get("c"), None);
    assert!(map.contains_key("a"));
    assert!(!map.contains_key("c"));
}

#[test]
fn insert_overwrites_and_returns_the_old_value() {
    let mut map: StringMap<u32> = StringMap::new();
    map.insert("a".to_string(), 1);
    map.insert("b".to_string(), 2);
    assert_eq!(map.insert("a".to_string(), 3), Some(1));
    assert_eq!(map.len(), 2);
    assert_eq!(map.get("a"), Some(&3));
    assert_eq!(map.get("b"), Some(&2));
}

#[test]
fn keys_differ_by_every_character() {
    let mut map: StringMap<u32> = StringMap::new();
    map.insert("key".to_string(), 1);
    map.insert("Key".to_string(), 2);
    map.insert("key ".to_string(), 3);
    map.insert("".to_string(), 4);
    assert_eq!(map.len(), 4);
    assert_eq!(map.get("key"), Some(&1));
    assert_eq!(map.get("Key"), Some(&2));
    assert_eq!(map.get("key "), Some(&3));
    assert_eq!(map.get(""), Some(&4));
}

#[test]
fn from_pairs_lets_the_later_pair_win() {
    let map = StringMap::from_pairs(vec![pair("a", "1"), pair("b", "2"), pair("a", "3")]);
    assert_eq!(map.len(), 2);
    assert_eq!(map.get("a"), Some(&"3".to_string()));
    assert_eq!(map.get("b"), Some(&"2".to_string()));
}

#[test]
fn extend_inserts_in_order() {
    let mut map = StringMap::from_pairs(vec![pair("a", "1"), pair("c", "0")]);
    map.extend(vec![pair("b", "2"), pair("a", "3"), pair("b", "4")]);
    assert_eq!(map.len(), 3);
    assert_eq!(map.get("a"), Some(&"3".to_string()));
    assert_eq!(map.get("b"), Some(&"4".to_string()));
    assert_eq!(map.get("c"), Some(&"0".to_string()));
}

#[test]
fn extend_with_nothing_changes_nothing() {
    let mut map = StringMap::from_pairs(vec![pair("a", "1")]);
    map.extend(Vec::new());
    assert_eq!(map.len(), 1);
    assert_eq!(map.get("a"), Some(&"1".to_string()));
}

#[test]
fn keys_lists_each_key_once() {
    let map = StringMap::from_pairs(vec![pair("a", "1"), pair("b", "2"), pair("a", "3")]);
    let mut keys = map.keys();
    keys.sort();
    assert_eq!(keys, vec!["a".to_string(), "b".to_string()]);
}

#[test]
fn into_pairs_holds_one_pair_per_key() {
    let map = StringMap::from_pairs(vec![pair("a", "1"), pair("b", "2"), pair("a", "3")]);
    let mut pairs = map.into_pairs();
    pairs.sort();
    assert_eq!(pairs, vec![pair("a", "3"), pair("b", "2")]);
}

#[test]
fn snapshot_is_an_independent_copy() {
    let mut map = StringMap::from_pairs(vec![pair("a", "1")]);
    let copy = map.snapshot();
    map.insert("a".to_string(), "2".to_string());
    map.insert("b".to_string(), "3".to_string());
    assert_eq!(copy.len(), 1);
    assert_eq!(copy.get("a"), Some(&"1".to_string()));
    assert_eq!(map.get("a"), Some(&"2".to_string()));
}

#[test]
fn values_may_be_floats() {
    let mut map: StringMap<f64> = StringMap::new();
    map.insert("m".to_string(), 1.5);
    assert_eq!(map.insert("m".to_string(), 2.5), Some(1.5));
    assert_eq!(map.get("m"), Some(&2.5));
}
