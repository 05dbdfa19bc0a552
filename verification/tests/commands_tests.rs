use std::collections::HashMap;

use node_agent::commands::{
    AddUserCommand, AddUserStep, HealthCheckQuery, NodeHealth, RemoveUserCommand, ReportTrafficCommand,
};
use node_agent::traffic::TrafficTable;

fn tags(v: &[&str]) -> Vec<String> {
    v.iter().map(|s| s.to_string()).collect()
}

/// Drives a run, answering each add with the outcome that `answer` gives.
fn drive(tag_list: &[&str], answer: impl Fn(&AddUserStep) -> Result<(), String>) -> (Vec<String>, Result<(), String>) {
    let cmd = AddUserCommand::new((), ());
    let mut run = cmd.begin("u".to_string(), tags(tag_list));
    let mut log = Vec::new();
    loop {
        let step = run.next();
        match &step {
            AddUserStep::AddXray { tag, email, uuid } => {
                assert_eq!((email.as_str(), uuid.as_str()), ("u", "u"));
                log.push(format!("add {}", tag))
            }
            AddUserStep::AddHysteria { uuid } => {
                assert_eq!(uuid, "u");
                log.push("add hysteria".to_string())
            }
            AddUserStep::RemoveXray { tag, email } => {
                assert_eq!(email, "u");
                log.push(format!("remove {}", tag))
            }
            AddUserStep::Done(r) => return (log, r.clone()),
        }
        let outcome = answer(&step);
        run.complete(outcome);
    }
}

#[test]
fn add_user_succeeds_everywhere() {
    let (log, r) = drive(&["a", "b"], |_| Ok(()));
    assert_eq!(log, vec!["add a", "add b", "add hysteria"]);
    assert_eq!(r, Ok(()));
}

#[test]
fn xray_failure_rolls_back_earlier_tags() {
    let (log, r) = drive(&["a", "b", "c"], |s| match s {
        AddUserStep::AddXray { tag, .. } if tag == "c" => Err("boom".to_string()),
        _ => Ok(()),
    });
    assert_eq!(log, vec!["add a", "add b", "add c", "remove a", "remove b"]);
    assert_eq!(r, Err("Xray failed to add user on tag c: boom".to_string()));
}

#[test]
fn rollback_ignores_removal_failures() {
    let (log, r) = drive(&["a", "b"], |s| match s {
        AddUserStep::AddXray { tag, .. } if tag == "b" => Err("no".to_string()),
        AddUserStep::RemoveXray { .. } => Err("ignored".to_string()),
        _ => Ok(()),
    });
    assert_eq!(log, vec!["add a", "add b", "remove a"]);
    assert_eq!(r, Err("Xray failed to add user on tag b: no".to_string()));
}

#[test]
fn hysteria_failure_rolls_back_all_tags() {
    let (log, r) = drive(&["a", "b"], |s| match s {
        AddUserStep::AddHysteria { .. } => Err("down".to_string()),
        _ => Ok(()),
    });
    assert_eq!(log, vec!["add a", "add b", "add hysteria", "remove a", "remove b"]);
    assert_eq!(r, Err("Hysteria2 failed to add user: down".to_string()));
}

#[test]
fn add_user_without_tags_adds_to_hysteria_only() {
    let (log, r) = drive(&[], |_| Ok(()));
    assert_eq!(log, vec!["add hysteria"]);
    assert_eq!(r, Ok(()));
}

#[test]
fn removal_collects_every_error() {
    let t = tags(&["a", "b", "c"]);
    let ok = RemoveUserCommand::<(), ()>::summarize(&t, &vec![Ok(()), Ok(()), Ok(())], &Ok(()));
    assert_eq!(ok, Ok(()));
    let r = RemoveUserCommand::<(), ()>::summarize(
        &t,
        &vec![Err("e1".to_string()), Ok(()), Err("e3".to_string())],
        &Err("h".to_string()),
    );
    assert_eq!(r, Err("Errors during user removal: Xray tag a: e1; Xray tag c: e3; Hysteria2: h".to_string()));
    let r = RemoveUserCommand::<(), ()>::summarize(&vec![], &vec![], &Err("h".to_string()));
    assert_eq!(r, Err("Errors during user removal: Hysteria2: h".to_string()));
}

fn table(pairs: &[(&str, u64)]) -> TrafficTable {
    let mut t = TrafficTable::new();
    for (k, v) in pairs {
        t.set(k.to_string(), *v);
    }
    t
}

#[test]
fn traffic_report_adds_both_backends() {
    let agg = ReportTrafficCommand::<(), ()>::after_xray(Ok(table(&[("a", 10), ("b", 1)]))).unwrap();
    let h = table(&[("a", 5), ("c", 2)]);
    assert!(agg.can_merge(&h));
    let all = ReportTrafficCommand::<(), ()>::after_hysteria(agg, Ok(h)).unwrap();
    let m: HashMap<String, u64> = all.to_pairs().into_iter().collect();
    assert_eq!(m, HashMap::from([("a".to_string(), 15), ("b".to_string(), 1), ("c".to_string(), 2)]));
}

#[test]
fn traffic_report_errors() {
    assert_eq!(
        ReportTrafficCommand::<(), ()>::after_xray(Err("down".to_string())).err(),
        Some("ReportTraffic failed to query Xray stats: down".to_string())
    );
    assert_eq!(
        ReportTrafficCommand::<(), ()>::after_hysteria(TrafficTable::new(), Err("down".to_string())).err(),
        Some("ReportTraffic failed to query Hysteria2 stats: down".to_string())
    );
}

#[test]
fn health_from_pings() {
    assert_eq!(HealthCheckQuery::<(), ()>::health(true, true), NodeHealth::Online);
    assert_eq!(HealthCheckQuery::<(), ()>::health(false, true), NodeHealth::Degraded("Xray API is not responding".to_string()));
    assert_eq!(HealthCheckQuery::<(), ()>::health(true, false), NodeHealth::Degraded("Hysteria API is not responding".to_string()));
    assert_eq!(
        HealthCheckQuery::<(), ()>::health(false, false),
        NodeHealth::Degraded("Both Xray and Hysteria APIs are not responding".to_string())
    );
}

#[test]
fn commands_keep_their_backends() {
    let c = AddUserCommand::new(1u8, 2u16);
    assert_eq!(*c.xray_client(), 1);
    assert_eq!(*c.hysteria_client(), 2);
    let r = RemoveUserCommand::new(3u8, 4u16);
    assert_eq!((*r.xray_client(), *r.hysteria_client()), (3, 4));
    let t = ReportTrafficCommand::new(5u8, 6u16);
    assert_eq!((*t.xray_client(), *t.hysteria_client()), (5, 6));
    let q = HealthCheckQuery::new(7u8, 8u16);
    assert_eq!((*q.xray_client(), *q.hysteria_client()), (7, 8));
}
