use moneywright_desktop::log_store::{LogStore, MAX_LOG_LINES};

#[test]
fn new_store_is_empty() {
    let store = LogStore::new();
    assert!(store.get_all().is_empty());
}

#[test]
fn lines_come_back_in_order() {
    let mut store = LogStore::new();
    store.add("first".to_string());
    store.add("second".to_string());
    store.add("third".to_string());
    assert_eq!(store.get_all(), vec!["first".to_string(), "second".to_string(), "third".to_string()]);
}

#[test]
fn store_keeps_the_last_thousand_lines() {
    let mut store = LogStore::new();
    for i in 0..1500 {
        store.add(format!("line {}", i));
    }
    let all = store.get_all();
    assert_eq!(all.len(), 1000);
    assert_eq!(MAX_LOG_LINES, 1000);
    for (k, line) in all.iter().enumerate() {
        assert_eq!(line, &format!("line {}", k + 500));
    }
}

#[test]
fn store_at_exactly_the_cap_drops_nothing() {
    let mut store = LogStore::new();
    for i in 0..1000 {
        store.add(format!("{}", i));
    }
    let all = store.get_all();
    assert_eq!(all.len(), 1000);
    assert_eq!(all[0], "0");
    store.add("1000".to_string());
    let all = store.get_all();
    assert_eq!(all.len(), 1000);
    assert_eq!(all[0], "1");
    assert_eq!(all[999], "1000");
}

#[test]
fn clear_then_get_all_is_empty() {
    let mut store = LogStore::new();
    for i in 0..1200 {
        store.add(format!("{}", i));
    }
    store.clear();
    assert!(store.get_all().is_empty());
    store.add("after".to_string());
    assert_eq!(store.get_all(), vec!["after".to_string()]);
}

#[test]
fn snapshot_does_not_follow_later_changes() {
    let mut store = LogStore::new();
    store.add("a".to_string());
    let snapshot = store.get_all();
    store.add("b".to_string());
    store.clear();
    assert_eq!(snapshot, vec!["a".to_string()]);
}
