use ores_sidecar::text::{compare_text, TextOrder};
use ores_sidecar::{RuntimeKeySet, RuntimeValueMap};

fn names(list: &[&str]) -> Vec<String> {
    list.iter().map(|name| (*name).to_owned()).collect()
}

#[test]
fn text_is_ordered_by_its_bytes() {
    assert_eq!(compare_text("A", "B"), TextOrder::Before);
    assert_eq!(compare_text("B", "A"), TextOrder::After);
    assert_eq!(compare_text("A", "AA"), TextOrder::Before);
    assert_eq!(compare_text("", ""), TextOrder::Same);
    assert_eq!(compare_text("Z", "\u{e9}"), TextOrder::Before);
    assert_eq!(compare_text("\u{ffff}", "\u{10000}"), TextOrder::Before);
}

#[test]
fn key_set_is_ascending_without_repetition() {
    let set = RuntimeKeySet::from_keys(names(&["C", "A", "B", "A", "AA"]));
    assert_eq!(set.keys(), &names(&["A", "AA", "B", "C"]));
    assert_eq!(set.len(), 4);
    assert!(set.contains("AA"));
    assert!(!set.contains("AB"));
    assert_eq!(set, RuntimeKeySet::from_keys(names(&["B", "C", "AA", "A"])));
    assert_ne!(set, RuntimeKeySet::from_keys(names(&["B", "C", "A"])));
    assert!(RuntimeKeySet::new().is_empty());
    assert!(!set.is_empty());
}

#[test]
fn key_set_insert_says_whether_the_key_is_new() {
    let mut set = RuntimeKeySet::new();
    assert!(set.insert("B".to_owned()));
    assert!(set.insert("A".to_owned()));
    assert!(!set.insert("B".to_owned()));
    assert_eq!(set.keys(), &names(&["A", "B"]));
}

#[test]
fn value_map_reads_back_what_was_written() {
    let mut map = RuntimeValueMap::new();
    assert!(map.is_empty());
    assert_eq!(map.insert("B".to_owned(), "1".to_owned()), None);
    assert_eq!(map.insert("A".to_owned(), "2".to_owned()), None);
    assert_eq!(map.insert("B".to_owned(), "3".to_owned()), Some("1".to_owned()));
    assert_eq!(map.len(), 2);
    assert_eq!(map.get("B").map(String::as_str), Some("3"));
    assert_eq!(map.get("C"), None);
    let listed: Vec<(String, String)> =
        map.entries().into_iter().map(|entry| (entry.key, entry.value)).collect();
    assert_eq!(
        listed,
        vec![("A".to_owned(), "2".to_owned()), ("B".to_owned(), "3".to_owned())]
    );
    assert_eq!(map.remove("A"), Some("2".to_owned()));
    assert_eq!(map.remove("A"), None);
    assert!(!map.contains_key("A"));
    assert!(map.contains_key("B"));
}

#[test]
fn value_maps_are_equal_when_their_entries_are() {
    let mut one = RuntimeValueMap::new();
    let mut other = RuntimeValueMap::new();
    one.insert("A".to_owned(), "1".to_owned());
    one.insert("B".to_owned(), "2".to_owned());
    other.insert("B".to_owned(), "2".to_owned());
    assert_ne!(one, other);
    other.insert("A".to_owned(), "0".to_owned());
    assert_ne!(one, other);
    other.insert("A".to_owned(), "1".to_owned());
    assert_eq!(one, other);
}

#[test]
fn merge_prefers_the_newer_and_remove_all_skips_the_absent() {
    let mut map = RuntimeValueMap::new();
    map.insert("A".to_owned(), "1".to_owned());
    map.insert("C".to_owned(), "1".to_owned());
    let mut newer = RuntimeValueMap::new();
    newer.insert("B".to_owned(), "2".to_owned());
    newer.insert("C".to_owned(), "2".to_owned());
    map.merge(newer);
    assert_eq!(map.len(), 3);
    assert_eq!(map.get("C").map(String::as_str), Some("2"));
    map.remove_all(&names(&["A", "X", "C"]));
    assert_eq!(map.len(), 1);
    assert!(map.contains_key("B"));
}
