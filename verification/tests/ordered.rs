//! The table that keeps its keys in order.

use moji::ordered::OrderedMap;

#[test]
fn keys_stand_in_dictionary_order_however_they_came() {
    let mut map: OrderedMap<String, String> = OrderedMap::new();
    for key in ["ru", "en", "r", "Ru", "", "е"] {
        map.insert(key.to_string(), format!("<{key}>"));
    }

    let mut keys = Vec::new();
    for index in 0..map.len() {
        keys.push(map.key_at(index).clone());
    }
    assert_eq!(keys, vec!["", "Ru", "en", "r", "ru", "е"]);
    assert_eq!(map.value_at(3), "<r>");
}

#[test]
fn a_key_that_is_put_again_replaces_its_value() {
    let mut map: OrderedMap<String, String> = OrderedMap::new();
    assert!(map.is_empty());
    map.insert("en".to_string(), "first".to_string());
    map.insert("en".to_string(), "second".to_string());

    assert_eq!(map.len(), 1);
    assert_eq!(map.get(&"en".to_string()), Some(&"second".to_string()));
    assert_eq!(map.get(&"ru".to_string()), None);
    assert!(map.contains_key(&"en".to_string()));
    assert!(!map.contains_key(&"e".to_string()));
}
