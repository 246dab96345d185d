use hyper_microservice::store::{UserData, UserStore};

#[test]
fn inserts_hand_out_distinct_ids() {
    let mut s = UserStore::new();
    let a = s.insert(UserData);
    let b = s.insert(UserData);
    let c = s.insert(UserData);
    assert_eq!((a, b, c), (0, 1, 2));
}

#[test]
fn removed_id_is_reused_first() {
    let mut s = UserStore::new();
    for _ in 0..4 {
        s.insert(UserData);
    }
    assert!(s.remove(2));
    assert_eq!(s.insert(UserData), 2);
    assert_eq!(s.insert(UserData), 4);
}

#[test]
fn get_after_remove_is_absent() {
    let mut s = UserStore::new();
    let id = s.insert(UserData);
    assert!(s.remove(id));
    assert_eq!(s.get(id), None);
}

#[test]
fn get_after_insert_gives_marker() {
    let mut s = UserStore::new();
    let id = s.insert(UserData);
    let rec = s.get(id).unwrap();
    assert_eq!(rec.text(), "{}");
}

#[test]
fn absent_ids_report_absence() {
    let mut s = UserStore::new();
    assert_eq!(s.get(7), None);
    assert!(!s.update(7, UserData));
    assert!(!s.remove(7));
    let id = s.insert(UserData);
    assert!(s.remove(id));
    assert!(!s.remove(id));
    assert!(!s.update(id, UserData));
    assert_eq!(s.get(id), None);
    assert!(s.list_ids().is_empty());
}

#[test]
fn update_keeps_the_id() {
    let mut s = UserStore::new();
    let id = s.insert(UserData);
    assert!(s.update(id, UserData));
    assert_eq!(s.list_ids(), vec![id]);
    assert_eq!(s.insert(UserData), 1);
}

#[test]
fn list_ids_follows_slot_order() {
    let mut s = UserStore::new();
    for _ in 0..5 {
        s.insert(UserData);
    }
    assert!(s.remove(1));
    assert!(s.remove(3));
    assert_eq!(s.list_ids(), vec![0, 2, 4]);
    assert_eq!(s.insert(UserData), 1);
    assert_eq!(s.list_ids(), vec![0, 1, 2, 4]);
}

#[test]
fn empty_store_lists_nothing() {
    let s = UserStore::new();
    assert!(s.list_ids().is_empty());
}

#[test]
fn freed_ids_come_back_lowest_first() {
    let mut s = UserStore::new();
    for _ in 0..4 {
        s.insert(UserData);
    }
    assert!(s.remove(0));
    assert!(s.remove(2));
    assert_eq!(s.insert(UserData), 0);
    assert_eq!(s.insert(UserData), 2);
    assert_eq!(s.insert(UserData), 4);
}

#[test]
fn lower_free_id_wins_over_later_freed_one() {
    let mut s = UserStore::new();
    for _ in 0..3 {
        s.insert(UserData);
    }
    assert!(s.remove(0));
    assert!(s.remove(2));
    assert_eq!(s.insert(UserData), 0);
    assert!(s.remove(1));
    assert_eq!(s.insert(UserData), 1);
    assert_eq!(s.insert(UserData), 2);
    assert_eq!(s.insert(UserData), 3);
}
