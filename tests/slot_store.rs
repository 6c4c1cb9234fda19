use tank_arena::slot_store::SlotStore;

#[test]
fn insert_appends_then_reuses_lowest_hole() {
    let mut s: SlotStore<u32> = SlotStore::new();
    assert_eq!(s.insert(10), 0);
    assert_eq!(s.insert(11), 1);
    assert_eq!(s.insert(12), 2);
    s.delete(1);
    s.delete(0);
    assert_eq!(s.count(), 1);
    assert_eq!(s.len(), 3);
    assert_eq!(s.insert(13), 0);
    assert_eq!(s.insert(14), 1);
    assert_eq!(s.insert(15), 3);
    assert_eq!(s.count(), 4);
    assert_eq!(s.len(), 4);
}

#[test]
fn ids_survive_other_inserts_and_deletes() {
    let mut s: SlotStore<&str> = SlotStore::new();
    let a = s.insert("a");
    let b = s.insert("b");
    let c = s.insert("c");
    s.delete(b);
    let d = s.insert("d");
    assert_eq!(d, b);
    s.delete(c);
    let _e = s.insert("e");
    assert_eq!(s.get(a), Some(&"a"));
    assert_eq!(s.get(d), Some(&"d"));
}

#[test]
fn delete_is_idempotent_and_tolerates_bad_ids() {
    let mut s: SlotStore<u8> = SlotStore::new();
    let a = s.insert(1);
    s.delete(a);
    s.delete(a);
    s.delete(99);
    assert_eq!(s.count(), 0);
    assert_eq!(s.len(), 1);
    assert_eq!(s.get(a), None);
    assert_eq!(s.get(99), None);
    assert!(!s.contains(a));
}

#[test]
fn ids_lists_occupied_slots_in_order() {
    let mut s: SlotStore<u8> = SlotStore::new();
    for v in 0..5u8 {
        s.insert(v);
    }
    s.delete(1);
    s.delete(3);
    assert_eq!(s.ids(), vec![0, 2, 4]);
}

#[test]
fn take_and_put_round_trip() {
    let mut s: SlotStore<u8> = SlotStore::new();
    let a = s.insert(7);
    assert_eq!(s.take(a), Some(7));
    assert_eq!(s.count(), 0);
    assert_eq!(s.take(a), None);
    s.put(a, 8);
    assert_eq!(s.get(a), Some(&8));
    assert_eq!(s.count(), 1);
}

#[test]
fn clear_empties_everything() {
    let mut s: SlotStore<u8> = SlotStore::new();
    s.insert(1);
    s.insert(2);
    s.clear();
    assert_eq!(s.len(), 0);
    assert_eq!(s.count(), 0);
    assert_eq!(s.insert(3), 0);
}
