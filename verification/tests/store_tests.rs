use redis_rs::store::Store;

#[test]
fn store_get_set_delete_contains() {
    let mut st = Store::new();
    let k = "key".to_string();
    assert_eq!(st.get(&k), None);
    assert!(!st.contains(&k));
    st.set(k.clone(), "v1".to_string());
    assert_eq!(st.get(&k), Some("v1".to_string()));
    assert!(st.contains(&k));
    st.set(k.clone(), "v2".to_string());
    assert_eq!(st.get(&k), Some("v2".to_string()));
    assert_eq!(st.delete(&k), Some("v2".to_string()));
    assert_eq!(st.get(&k), None);
    assert_eq!(st.delete(&k), None);
}

#[test]
fn store_expiration_index_orders_by_instant() {
    let mut st = Store::new();
    let a = "a".to_string();
    let b = "b".to_string();
    let c = "c".to_string();
    assert_eq!(st.peek_earliest_expiration(), None);
    st.set_expiration(&a, 300);
    st.set_expiration(&b, 100);
    st.set_expiration(&c, 200);
    assert_eq!(st.peek_earliest_expiration(), Some(("b".to_string(), 100)));
    // A second push for the same key replaces its instant.
    st.set_expiration(&b, 400);
    assert_eq!(st.peek_earliest_expiration(), Some(("c".to_string(), 200)));
    assert_eq!(st.pop_earliest_expiration(), Some(("c".to_string(), 200)));
    assert_eq!(st.peek_earliest_expiration(), Some(("a".to_string(), 300)));
    st.clear_expiration(&a);
    assert_eq!(st.peek_earliest_expiration(), Some(("b".to_string(), 400)));
    assert_eq!(st.pop_earliest_expiration(), Some(("b".to_string(), 400)));
    assert_eq!(st.pop_earliest_expiration(), None);
}

#[test]
fn store_sweep_deletes_only_due_keys() {
    let mut st = Store::new();
    for (k, v, t) in [("a", "1", 100u64), ("b", "2", 200), ("c", "3", 300)] {
        st.set(k.to_string(), v.to_string());
        st.set_expiration(&k.to_string(), t);
    }
    st.set("keep".to_string(), "4".to_string());
    st.sweep_expired(201);
    assert_eq!(st.get(&"a".to_string()), None);
    assert_eq!(st.get(&"b".to_string()), None);
    assert_eq!(st.get(&"c".to_string()), Some("3".to_string()));
    assert_eq!(st.get(&"keep".to_string()), Some("4".to_string()));
    assert_eq!(st.peek_earliest_expiration(), Some(("c".to_string(), 300)));
    // An instant exactly at `now` is not yet due.
    st.sweep_expired(300);
    assert_eq!(st.get(&"c".to_string()), Some("3".to_string()));
    st.sweep_expired(301);
    assert_eq!(st.get(&"c".to_string()), None);
}

#[test]
fn store_sweep_tolerates_stale_entries() {
    let mut st = Store::new();
    let k = "gone".to_string();
    st.set(k.clone(), "v".to_string());
    st.set_expiration(&k, 50);
    // The key leaves the map directly; its index entry stays behind.
    assert_eq!(st.delete(&k), Some("v".to_string()));
    st.sweep_expired(100);
    assert_eq!(st.peek_earliest_expiration(), None);
    assert_eq!(st.get(&k), None);
}
