use prism::slot_map::SlotMap;

#[test]
fn inserted_value_is_found() {
    let mut map: SlotMap<&str> = SlotMap::new();
    let a = map.insert("a");
    let b = map.insert("b");
    assert_eq!((a, b), (0, 1));
    assert_eq!(map.get(a), Some(&"a"));
    assert_eq!(map.get(b), Some(&"b"));
    assert_eq!(map.get(2), None);
    assert_eq!(map.len(), 2);
}

#[test]
fn removed_slot_is_used_again() {
    let mut map: SlotMap<u32> = SlotMap::new();
    let a = map.insert(10);
    let _b = map.insert(20);
    map.remove(a);
    assert_eq!(map.get(a), None);
    let c = map.insert(30);
    assert_eq!(c, a);
    assert_eq!(map.get(c), Some(&30));
}

#[test]
fn removing_twice_changes_nothing() {
    let mut map: SlotMap<u32> = SlotMap::new();
    let a = map.insert(1);
    map.remove(a);
    map.remove(a);
    map.remove(99);
    assert_eq!(map.insert(2), a);
    assert_eq!(map.insert(3), 1);
}

#[test]
fn value_is_changed_in_place() {
    let mut map: SlotMap<u32> = SlotMap::new();
    let a = map.insert(5);
    *map.get_mut(a).unwrap() += 1;
    assert_eq!(map.get(a), Some(&6));
    assert!(map.get_mut(7).is_none());
}
