use std::collections::HashMap;

use node_agent::hysteria::{
    document_fits_exec, document_totals_exec, kick_refusal_is_benign, kick_url, traffic_url,
    AuthStatus, HysteriaAuthRequest, StatsDocument, StatsFetch, StatsMember, TrafficLedger,
    UserCounters, UserRegistry,
};
use node_agent::traffic::TrafficTable;

fn as_map(t: &TrafficTable) -> HashMap<String, u64> {
    t.to_pairs().into_iter().collect()
}

#[test]
fn test_hysteria_auth_handler() {
    let mut users = UserRegistry::new();
    users.add_user("valid-uuid");

    let valid_req = HysteriaAuthRequest {
        auth: "valid-uuid".to_string(),
        addr: "1.2.3.4:5678".to_string(),
    };
    assert_eq!(users.authorize(&valid_req), AuthStatus::Accepted);

    let invalid_req = HysteriaAuthRequest {
        auth: "invalid-uuid".to_string(),
        addr: "1.2.3.4:5678".to_string(),
    };
    assert_eq!(users.authorize(&invalid_req), AuthStatus::Unauthorized);
}

#[test]
fn removed_users_are_refused() {
    let mut users = UserRegistry::new();
    users.add_user("a");
    users.add_user("b");
    users.remove_user("a");
    users.remove_user("zzz");
    assert!(!users.contains("a"));
    assert!(users.contains("b"));
}

#[test]
fn api_addresses() {
    assert_eq!(traffic_url("http://127.0.0.1:9999/"), "http://127.0.0.1:9999/traffic");
    assert_eq!(traffic_url("http://127.0.0.1:9999"), "http://127.0.0.1:9999/traffic");
    assert_eq!(kick_url("http://127.0.0.1:9999/"), "http://127.0.0.1:9999//kick");
}

#[test]
fn benign_kick_refusals() {
    assert!(kick_refusal_is_benign(404, ""));
    assert!(kick_refusal_is_benign(500, "user not found"));
    assert!(kick_refusal_is_benign(400, "client does not exist"));
    assert!(!kick_refusal_is_benign(500, "internal error"));
}

fn counters(auth: &str, tx: Option<u64>, rx: Option<u64>) -> UserCounters {
    UserCounters { auth: auth.to_string(), tx, rx }
}

fn member(key: &str, tx: Option<u64>, rx: Option<u64>, members: Option<Vec<UserCounters>>) -> StatsMember {
    StatsMember { key: key.to_string(), tx, rx, members }
}

#[test]
fn nested_document_counts_tx_plus_rx() {
    let doc = StatsDocument {
        members: Some(vec![
            member("other", Some(1), Some(1), None),
            member(
                "traffic",
                None,
                None,
                Some(vec![counters("a", Some(10), Some(5)), counters("b", None, Some(3)), counters("c", None, None)]),
            ),
        ]),
    };
    assert!(document_fits_exec(&doc));
    let t = document_totals_exec(&doc);
    assert_eq!(
        as_map(&t),
        HashMap::from([("a".to_string(), 15), ("b".to_string(), 3), ("c".to_string(), 0)])
    );
}

#[test]
fn flat_document_needs_tx_and_skips_traffic_key() {
    let doc = StatsDocument {
        members: Some(vec![
            member("a", Some(4), None, None),
            member("b", None, Some(9), None),
            member("traffic", Some(100), Some(100), None),
            member("c", Some(1), Some(2), Some(vec![])),
        ]),
    };
    assert!(document_fits_exec(&doc));
    let t = document_totals_exec(&doc);
    assert_eq!(as_map(&t), HashMap::from([("a".to_string(), 4), ("c".to_string(), 3)]));
    let not_object = StatsDocument { members: None };
    assert!(document_totals_exec(&not_object).is_empty());
}

#[test]
fn overflowing_counters_are_detected() {
    let doc = StatsDocument { members: Some(vec![member("a", Some(u64::MAX), Some(1), None)]) };
    assert!(!document_fits_exec(&doc));
    let doc = StatsDocument { members: Some(vec![member("traffic", Some(u64::MAX), Some(1), None)]) };
    assert!(document_fits_exec(&doc));
}

fn flat(pairs: &[(&str, u64)]) -> StatsDocument {
    StatsDocument {
        members: Some(pairs.iter().map(|(k, v)| member(k, Some(*v), None, None)).collect()),
    }
}

#[test]
fn ledger_reports_growth_and_restarts() {
    let mut ledger = TrafficLedger::new();
    let first = ledger.collect(StatsFetch::Decoded(flat(&[("a", 100), ("b", 0)]))).unwrap();
    assert_eq!(as_map(&first), HashMap::from([("a".to_string(), 100)]));
    let second = ledger.collect(StatsFetch::Decoded(flat(&[("a", 150), ("b", 20)]))).unwrap();
    assert_eq!(as_map(&second), HashMap::from([("a".to_string(), 50), ("b".to_string(), 20)]));
    let restarted = ledger.collect(StatsFetch::Decoded(flat(&[("a", 30), ("b", 20)]))).unwrap();
    assert_eq!(as_map(&restarted), HashMap::from([("a".to_string(), 30)]));
    let again = ledger.collect(StatsFetch::Decoded(flat(&[("a", 30), ("b", 20)]))).unwrap();
    assert!(again.is_empty());
}

#[test]
fn failed_fetches() {
    let mut ledger = TrafficLedger::new();
    assert!(ledger.collect(StatsFetch::Unreachable).unwrap().is_empty());
    assert!(ledger.collect(StatsFetch::Unsuccessful).unwrap().is_empty());
    assert_eq!(
        ledger.collect(StatsFetch::Undecodable("eof".to_string())).err(),
        Some("Hysteria stats JSON decode error: eof".to_string())
    );
    let first = ledger.collect(StatsFetch::Decoded(flat(&[("a", 5)]))).unwrap();
    assert_eq!(as_map(&first), HashMap::from([("a".to_string(), 5)]));
}

#[test]
fn take_deltas_on_a_table() {
    let mut ledger = TrafficLedger::new();
    let mut totals = TrafficTable::new();
    totals.set("x".to_string(), 7);
    let d = ledger.take_deltas(&totals);
    assert_eq!(as_map(&d), HashMap::from([("x".to_string(), 7)]));
    let d = ledger.take_deltas(&totals);
    assert!(d.is_empty());
}

#[test]
fn same_document_twice_reports_nothing_the_second_time() {
    let doc = || StatsDocument {
        members: Some(vec![member(
            "traffic",
            None,
            None,
            Some(vec![counters("a", Some(7), Some(3)), counters("b", Some(0), None)]),
        )]),
    };
    let mut ledger = TrafficLedger::new();
    let first = ledger.collect(StatsFetch::Decoded(doc())).unwrap();
    assert_eq!(as_map(&first), HashMap::from([("a".to_string(), 10)]));
    let second = ledger.collect(StatsFetch::Decoded(doc())).unwrap();
    assert!(second.is_empty());
    let third = ledger.collect(StatsFetch::Decoded(flat(&[("a", 11)]))).unwrap();
    assert_eq!(as_map(&third), HashMap::from([("a".to_string(), 1)]));
}
