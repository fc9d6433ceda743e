use txt_chat::strmap::StrMap;
use txt_chat::strset::StrSet;

fn s(text: &str) -> String {
    text.to_string()
}

#[test]
fn set_insert_contains_remove() {
    let mut set = StrSet::new();
    assert!(!set.contains(&s("a")));
    assert!(set.insert(s("a")));
    assert!(set.insert(s("b")));
    assert!(!set.insert(s("a")));
    assert!(set.contains(&s("a")));
    assert!(set.contains(&s("b")));
    assert!(!set.contains(&s("c")));
    assert!(set.remove(&s("a")));
    assert!(!set.remove(&s("a")));
    assert!(!set.contains(&s("a")));
    assert!(set.contains(&s("b")));
}

#[test]
fn set_tells_apart_what_differs_late() {
    let mut set = StrSet::new();
    assert!(set.insert(s("room-1")));
    assert!(set.insert(s("room-2")));
    assert!(set.insert(s("")));
    assert!(set.remove(&s("room-1")));
    assert!(set.contains(&s("room-2")));
    assert!(set.contains(&s("")));
    assert!(!set.contains(&s("room-")));
}

#[test]
fn map_insert_get_remove() {
    let mut map: StrMap<u32> = StrMap::new();
    assert_eq!(map.get(&s("a")), None);
    map.insert(s("a"), 1);
    map.insert(s("b"), 2);
    assert_eq!(map.get(&s("a")), Some(&1));
    assert_eq!(map.get(&s("b")), Some(&2));
    assert!(map.contains_key(&s("a")));
    assert!(!map.contains_key(&s("c")));
    map.insert(s("a"), 3);
    assert_eq!(map.get(&s("a")), Some(&3));
    assert_eq!(map.get(&s("b")), Some(&2));
    assert_eq!(map.remove(&s("a")), Some(3));
    assert_eq!(map.remove(&s("a")), None);
    assert_eq!(map.get(&s("a")), None);
    assert_eq!(map.get(&s("b")), Some(&2));
}

#[test]
fn map_with_capacity_is_empty() {
    let mut map: StrMap<String> = StrMap::with_capacity(8);
    assert!(!map.contains_key(&s("")));
    map.insert(s(""), s("empty key"));
    assert_eq!(map.get(&s("")), Some(&s("empty key")));
    assert_eq!(map.remove(&s("")), Some(s("empty key")));
    assert!(!map.contains_key(&s("")));
}

#[test]
fn map_remove_from_the_middle_keeps_the_rest() {
    let mut map: StrMap<u32> = StrMap::new();
    map.insert(s("a"), 1);
    map.insert(s("b"), 2);
    map.insert(s("c"), 3);
    assert_eq!(map.remove(&s("b")), Some(2));
    assert_eq!(map.get(&s("a")), Some(&1));
    assert_eq!(map.get(&s("c")), Some(&3));
    map.insert(s("b"), 4);
    assert_eq!(map.get(&s("b")), Some(&4));
}
