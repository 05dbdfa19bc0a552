use std::collections::HashMap;

use node_agent::traffic::TrafficTable;

fn table(pairs: &[(&str, u64)]) -> TrafficTable {
    let mut t = TrafficTable::new();
    for (k, v) in pairs {
        t.set(k.to_string(), *v);
    }
    t
}

fn as_map(t: &TrafficTable) -> HashMap<String, u64> {
    t.to_pairs().into_iter().collect()
}

#[test]
fn add_accumulates_per_user() {
    let mut t = TrafficTable::new();
    assert!(t.is_empty());
    t.add("alice".to_string(), 10);
    t.add("bob".to_string(), 5);
    t.add("alice".to_string(), 7);
    assert_eq!(t.len(), 2);
    assert_eq!(t.get(&"alice".to_string()), Some(17));
    assert_eq!(t.get(&"bob".to_string()), Some(5));
    assert_eq!(t.get(&"carol".to_string()), None);
    assert!(!t.is_empty());
}

#[test]
fn set_replaces_the_count() {
    let mut t = table(&[("a", 1)]);
    t.set("a".to_string(), 9);
    assert_eq!(as_map(&t), HashMap::from([("a".to_string(), 9)]));
}

#[test]
fn merge_adds_user_by_user() {
    let mut a = table(&[("alice", 100), ("bob", 1)]);
    let b = table(&[("alice", 50), ("carol", 3)]);
    assert!(a.can_merge(&b));
    a.merge(&b);
    assert_eq!(
        as_map(&a),
        HashMap::from([
            ("alice".to_string(), 150),
            ("bob".to_string(), 1),
            ("carol".to_string(), 3)
        ])
    );
}

#[test]
fn overflowing_sums_are_detected() {
    let a = table(&[("x", u64::MAX - 1)]);
    assert!(a.can_add(&"x".to_string(), 1));
    assert!(!a.can_add(&"x".to_string(), 2));
    assert!(a.can_add(&"y".to_string(), u64::MAX));
    let b = table(&[("x", 2)]);
    assert!(!a.can_merge(&b));
    let c = table(&[("y", u64::MAX)]);
    assert!(a.can_merge(&c));
}

#[test]
fn merging_in_either_order_gives_the_same_sums() {
    let a = table(&[("x", 1), ("y", 2)]);
    let b = table(&[("y", 10), ("z", 3)]);
    let mut ab = table(&[("x", 1), ("y", 2)]);
    ab.merge(&b);
    let mut ba = table(&[("y", 10), ("z", 3)]);
    ba.merge(&a);
    assert_eq!(as_map(&ab), as_map(&ba));
}
