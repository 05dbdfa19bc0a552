use std::collections::HashMap;

use node_agent::xray::{encode_account, encode_user, TypedMessage, XrayClient, XrayStat};

fn field(tag: u8, payload: &[u8]) -> Vec<u8> {
    assert!(payload.len() < 128);
    let mut out = vec![(tag << 3) | 2, payload.len() as u8];
    out.extend_from_slice(payload);
    out
}

#[test]
fn add_user_request_encodes_the_vless_user() {
    let req = XrayClient::add_user_request("vless-in", "u1", "id-1");
    assert_eq!(req.tag, "vless-in");
    assert_eq!(req.operation.message_type, "xray.app.proxyman.command.AddUserOperation");
    let mut account = field(1, b"id-1");
    account.extend(field(2, b"xtls-rprx-vision"));
    let mut typed = field(1, b"xray.proxy.vless.Account");
    typed.extend(field(2, &account));
    let mut user = field(2, b"u1");
    user.extend(field(3, &typed));
    let expected = field(1, &user);
    assert_eq!(req.operation.value, expected);
}

#[test]
fn remove_user_request_encodes_the_email() {
    let req = XrayClient::remove_user_request("vless-in", "user@x");
    assert_eq!(req.tag, "vless-in");
    assert_eq!(req.operation.message_type, "xray.app.proxyman.command.RemoveUserOperation");
    assert_eq!(req.operation.value, field(1, b"user@x"));
    let empty = XrayClient::remove_user_request("t", "");
    assert!(empty.operation.value.is_empty());
}

#[test]
fn account_leaves_out_empty_fields() {
    let a = encode_account(&"".to_string(), &"f".to_string(), &"".to_string());
    assert_eq!(a, field(2, b"f"));
    let b = encode_account(&"i".to_string(), &"".to_string(), &"none".to_string());
    let mut expected = field(1, b"i");
    expected.extend(field(3, b"none"));
    assert_eq!(b, expected);
}

#[test]
fn long_fields_get_multi_byte_lengths() {
    let email = "e".repeat(200);
    let req = XrayClient::remove_user_request("t", &email);
    let mut expected = vec![0x0a, 0xc8, 0x01];
    expected.extend(email.as_bytes());
    assert_eq!(req.operation.value, expected);
}

#[test]
fn removal_of_a_missing_user_counts_as_done() {
    assert!(XrayClient::removal_refused("user not found").is_ok());
    assert!(XrayClient::removal_refused("handler does not exist").is_ok());
    assert!(XrayClient::removal_refused("UserNotFound: x").is_ok());
    assert_eq!(
        XrayClient::removal_refused("permission denied"),
        Err("Xray AlterInbound failed: permission denied".to_string())
    );
}

#[test]
fn error_messages_name_the_failed_call() {
    assert_eq!(XrayClient::connect_failure("refused"), "Failed to connect to Xray gRPC: refused");
    assert_eq!(XrayClient::alter_inbound_failure("bad"), "Xray AlterInbound failed: bad");
    assert_eq!(XrayClient::query_stats_failure("bad"), "Xray QueryStats failed: bad");
}

#[test]
fn stats_query_asks_for_user_counters() {
    let q = XrayClient::report_stats_query();
    assert_eq!(q.pattern, "user>>>");
    assert!(q.reset);
    let p = XrayClient::ping_stats_query();
    assert_eq!(p.pattern, "user>>>");
    assert!(!p.reset);
}

fn stat(name: &str, value: i64) -> XrayStat {
    XrayStat { name: name.to_string(), value }
}

#[test]
fn user_traffic_sums_uplink_and_downlink() {
    let stats = vec![
        stat("user>>>alice>>>traffic>>>uplink", 100),
        stat("user>>>alice>>>traffic>>>downlink", 250),
        stat("user>>>bob>>>traffic>>>downlink", 7),
        stat("inbound>>>vless-in>>>traffic>>>uplink", 999),
        stat("user>>>carol", 5),
    ];
    let t = XrayClient::checked_user_traffic(&stats).unwrap();
    let m: HashMap<String, u64> = t.to_pairs().into_iter().collect();
    assert_eq!(m, HashMap::from([("alice".to_string(), 350), ("bob".to_string(), 7)]));
    assert_eq!(XrayClient::counter_user("user>>>dave>>>traffic>>>uplink"), Some("dave".to_string()));
    assert_eq!(XrayClient::counter_user("users>>>dave>>>traffic>>>uplink"), None);
}

#[test]
fn negative_counters_wrap_like_a_cast_and_overflow_is_caught() {
    let stats = vec![stat("user>>>a>>>traffic>>>uplink", -1)];
    let t = XrayClient::user_traffic(&stats);
    assert_eq!(t.get(&"a".to_string()), Some(u64::MAX));
    let stats = vec![
        stat("user>>>a>>>traffic>>>uplink", -1),
        stat("user>>>a>>>traffic>>>downlink", 1),
    ];
    assert!(!XrayClient::user_traffic_fits(&stats));
    assert!(XrayClient::checked_user_traffic(&stats).is_none());
}

#[test]
fn client_keeps_its_address() {
    let c = XrayClient::new("http://127.0.0.1:10085".to_string());
    assert_eq!(c.grpc_url(), "http://127.0.0.1:10085");
}

#[test]
fn user_level_is_a_varint_field_when_not_zero() {
    let account = TypedMessage { message_type: "t".to_string(), value: vec![] };
    let bytes = encode_user(300, &"e".to_string(), &account);
    let mut expected = vec![0x08, 0xac, 0x02];
    expected.extend(field(2, b"e"));
    expected.extend(field(3, &field(1, b"t")));
    assert_eq!(bytes, expected);
    let zero = encode_user(0, &"".to_string(), &account);
    assert_eq!(zero, field(3, &field(1, b"t")));
}
