use callchain::vec_map::{NameMap, VecMap};

#[test]
fn map_finds_what_was_inserted_last() {
    let mut map: VecMap<u64, u32> = VecMap::new();
    assert!(map.is_empty());
    assert_eq!(map.get(1), None);
    map.insert(1, 10);
    map.insert(2, 20);
    map.insert(1, 11);
    assert_eq!(map.get(1), Some(&11));
    assert_eq!(map.get(2), Some(&20));
    assert!(map.contains_key(2));
    assert!(!map.contains_key(3));
    assert_eq!(map.len(), 2);
    assert_eq!(map.duplicate().len(), 2);
}

#[test]
fn map_forgets_what_is_removed() {
    let mut map: VecMap<(u64, u32), u32> = VecMap::new();
    map.insert((1, 1), 5);
    map.insert((1, 2), 6);
    map.insert((2, 1), 7);
    assert_eq!(map.remove((1, 1)), Some(5));
    assert_eq!(map.remove((1, 1)), None);
    assert_eq!(map.get((1, 2)), Some(&6));
    assert_eq!(map.get((2, 1)), Some(&7));
    assert_eq!(map.entries().len(), 2);
}

#[test]
fn names_are_told_apart_by_their_characters() {
    let mut map: NameMap<u8> = NameMap::new();
    map.insert("a".to_string(), 1);
    map.insert("ab".to_string(), 2);
    map.insert("a".to_string(), 3);
    assert_eq!(map.get(&"a".to_string()), Some(&3));
    assert_eq!(map.get(&"ab".to_string()), Some(&2));
    assert!(!map.contains_key(&"b".to_string()));
    assert_eq!(map.entries().len(), 2);
}

#[test]
fn copy_of_named_values_is_independent() {
    let mut map: NameMap<u8> = NameMap::new();
    map.insert("a".to_string(), 1);
    let copy = map.duplicate();
    map.insert("a".to_string(), 2);
    map.insert("b".to_string(), 3);
    assert_eq!(copy.get(&"a".to_string()), Some(&1));
    assert!(!copy.contains_key(&"b".to_string()));
}
